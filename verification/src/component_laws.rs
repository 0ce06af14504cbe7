//! What the small parts of the pages show, stated on what they are given.

use vstd::prelude::*;

use crate::components;
use crate::components::LocalTime;
use crate::decimal;
use crate::golayout;
use crate::graphql_client::Member;
use crate::layout_laws;
use crate::number;
use crate::query_eval;
use crate::query_laws;
use crate::text;

verus! {

// ---------------------------------------------------------------------------
// Accounts
// ---------------------------------------------------------------------------

/// Whether a member's name or address contains a word, the case of letters left
/// aside.
pub open spec fn is_hit(m: Member, word: Seq<char>) -> bool {
    query_laws::stands_in(word, m.name@) || query_laws::stands_in(word, m.email@)
}

proof fn hit_is(m: Member, word: Seq<char>)
    ensures
        components::member_hit(m, text::lowercase(word)) == is_hit(m, word),
{
    folded_is(m.name@, word);
    folded_is(m.email@, word);
}

/// A folded word stands in a text where the word does.
pub proof fn folded_is(s: Seq<char>, word: Seq<char>)
    ensures
        query_eval::has_folded(s, text::lowercase(word)) == query_laws::stands_in(word, s),
{
    let (l, w) = (text::lowercase(s), text::lowercase(word));
    if text::occurs(l, w) {
        let i = choose|i: int| #[trigger] text::has_at(l, i, w);
        assert(l.subrange(i, i + w.len()) == w);
    }
    if query_laws::stands_in(word, s) {
        let i = choose|i: int|
            0 <= i <= l.len() - w.len() && #[trigger] l.subrange(i, i + w.len()) == w;
        assert(text::has_at(l, i, w));
    }
}

proof fn hits_are(members: Seq<Member>, word: Seq<char>)
    ensures
        ({
            let hits = components::member_hits(members, text::lowercase(word));
            &&& forall|k: int|
                0 <= k < hits.len() ==> 0 <= #[trigger] hits[k] < members.len() && is_hit(
                    members[hits[k]],
                    word,
                )
            &&& forall|j: int, k: int| 0 <= j < k < hits.len() ==> #[trigger] hits[j] < #[trigger] hits[k]
            &&& forall|i: int|
                0 <= i < members.len() && is_hit(#[trigger] members[i], word) ==> hits.contains(i)
        }),
    decreases members.len(),
{
    let needle = text::lowercase(word);
    let hits = components::member_hits(members, needle);
    if members.len() > 0 {
        let d = members.drop_last();
        hits_are(d, word);
        hit_is(members.last(), word);
        let before = components::member_hits(d, needle);
        assert forall|k: int| 0 <= k < hits.len() implies 0 <= #[trigger] hits[k] < members.len()
            && is_hit(members[hits[k]], word) by {
            if k < before.len() {
                assert(hits[k] == before[k]);
                assert(d[before[k]] == members[before[k]]);
            }
        }
        assert forall|j: int, k: int| 0 <= j < k < hits.len() implies #[trigger] hits[j]
            < #[trigger] hits[k] by {
            assert(hits[j] == before[j]);
            if k < before.len() {
                assert(hits[k] == before[k]);
            }
        }
        assert forall|i: int|
            0 <= i < members.len() && is_hit(#[trigger] members[i], word) implies hits.contains(
            i,
        ) by {
            if i < d.len() {
                assert(d[i] == members[i]);
                assert(before.contains(i));
                let k = choose|k: int| 0 <= k < before.len() && before[k] == i;
                assert(hits[k] == i);
            } else {
                assert(hits[hits.len() - 1] == i);
            }
        }
    }
}

/// The picker offers the first eight members, in their order, whose name or
/// address contains what was typed, white space around it and the case of
/// letters left aside. It offers none before something is typed.
pub proof fn accounts_are_offered(members: Seq<Member>, a: Seq<char>, m: Seq<char>, b: Seq<char>)
    requires
        text::all_white(a),
        text::all_white(b),
        m.len() > 0 ==> !text::is_white(m[0]) && !text::is_white(m.last()),
    ensures
        ({
            let r = components::offered_accounts(members, a + m + b);
            &&& text::lowercase(m).len() == 0 ==> r.len() == 0
            &&& text::lowercase(m).len() > 0 ==> {
                &&& r.len() <= 8
                &&& forall|k: int|
                    0 <= k < r.len() ==> 0 <= #[trigger] r[k] < members.len() && is_hit(
                        members[r[k]],
                        m,
                    )
                &&& forall|j: int, k: int| 0 <= j < k < r.len() ==> #[trigger] r[j] < #[trigger] r[k]
                &&& forall|i: int|
                    0 <= i < members.len() && is_hit(#[trigger] members[i], m) && (r.len() < 8 || i
                        < r[7]) ==> r.contains(i)
            }
        }),
{
    text::trimmed_is_the_middle(a, m, b);
    hits_are(members, m);
    let hits = components::member_hits(members, text::lowercase(m));
    let r = components::offered_accounts(members, a + m + b);
    if text::lowercase(m).len() > 0 {
        assert(forall|k: int| 0 <= k < r.len() ==> #[trigger] r[k] == hits[k]);
        assert forall|i: int|
            0 <= i < members.len() && is_hit(#[trigger] members[i], m) && (r.len() < 8 || i
                < r[7]) implies r.contains(i) by {
            assert(hits.contains(i));
            let k = choose|k: int| 0 <= k < hits.len() && hits[k] == i;
            if k >= 8 {
                assert(hits[7] < hits[k]);
                assert(r[7] == hits[7]);
            }
            assert(r[k] == i);
        }
    }
}

/// An account is shown by its name, or by its address where the name is blank.
pub proof fn accounts_are_shown(name: Seq<char>, email: Seq<char>)
    ensures
        text::all_white(name) ==> components::account_name(name, email) == email,
        !text::all_white(name) ==> components::account_name(name, email) == name,
{
    text::blank_is_white(name);
}

// ---------------------------------------------------------------------------
// Roles
// ---------------------------------------------------------------------------

proof fn role_words()
    ensures
        text::ascii_lower("owner"@) == "owner"@,
        text::ascii_lower("maintainer"@) == "maintainer"@,
        text::ascii_lower("worker"@) == "worker"@,
        text::ascii_lower("reader"@) == "reader"@,
        "owner"@.len() == 5,
        "maintainer"@.len() == 10,
        "worker"@.len() == 6 && "worker"@[0] == 'w',
        "reader"@.len() == 6 && "reader"@[0] == 'r',
{
    reveal_strlit("owner");
    reveal_strlit("maintainer");
    reveal_strlit("worker");
    reveal_strlit("reader");
    components::lower_word("owner"@);
    components::lower_word("maintainer"@);
    components::lower_word("worker"@);
    components::lower_word("reader"@);
}

/// An owner ranks above all others, a maintainer above all but owners, a worker
/// above the rest; the case of letters does not count.
pub proof fn roles_rank(a: Seq<char>, b: Seq<char>)
    ensures
        ({
            let (o, m, w) = ("owner"@, "maintainer"@, "worker"@);
            &&& text::same_word(a, o) && !text::same_word(b, o) ==> components::role_rank(a)
                > components::role_rank(b)
            &&& text::same_word(a, m) && !text::same_word(b, o) && !text::same_word(b, m)
                ==> components::role_rank(a) > components::role_rank(b)
            &&& text::same_word(a, w) && !text::same_word(b, o) && !text::same_word(b, m)
                && !text::same_word(b, w) ==> components::role_rank(a) > components::role_rank(b)
            &&& (text::same_word(a, o) && text::same_word(b, o)) || (text::same_word(a, m)
                && text::same_word(b, m)) || (text::same_word(a, w) && text::same_word(b, w)) || (
            !text::same_word(a, o) && !text::same_word(a, m) && !text::same_word(a, w)
                && !text::same_word(b, o) && !text::same_word(b, m) && !text::same_word(b, w))
                ==> components::role_rank(a) == components::role_rank(b)
        }),
{
    role_words();
    text::same_word_iff(a, "owner"@);
    text::same_word_iff(a, "maintainer"@);
    text::same_word_iff(a, "worker"@);
    text::same_word_iff(b, "owner"@);
    text::same_word_iff(b, "maintainer"@);
    text::same_word_iff(b, "worker"@);
}

/// The names and classes of the roles, whatever the case of their letters.
pub proof fn roles_are_named(role: Seq<char>)
    ensures
        ({
            let l = text::ascii_lower(role);
            &&& text::same_word(role, "owner"@) ==> components::lower_role_name(l) == "Owner"@
                && components::lower_role_class(l) == "c-done"@
            &&& text::same_word(role, "maintainer"@) ==> components::lower_role_name(l)
                == "Maintainer"@ && components::lower_role_class(l) == "c-doing"@
            &&& text::same_word(role, "worker"@) ==> components::lower_role_name(l) == "Worker"@
                && components::lower_role_class(l) == "c-open"@
            &&& text::same_word(role, "reader"@) ==> components::lower_role_name(l) == "Reader"@
                && components::lower_role_class(l) == "dim"@
        }),
{
    role_words();
    text::same_word_iff(role, "owner"@);
    text::same_word_iff(role, "maintainer"@);
    text::same_word_iff(role, "worker"@);
    text::same_word_iff(role, "reader"@);
}

// ---------------------------------------------------------------------------
// Values
// ---------------------------------------------------------------------------

/// The classes of statuses and priorities. A label goes by priorities where its
/// name says so, and else by statuses.
pub proof fn values_have_classes(name: Seq<char>, v: Seq<char>)
    ensures
        components::status_class("InProgress"@) == "c-doing"@,
        components::status_class("Done"@) == "c-done"@,
        components::status_class("Fixed"@) == "c-done"@,
        components::status_class("WontFix"@) == "c-wont"@,
        components::status_class("Archived"@) == "c-wont"@,
        v != "InProgress"@ && v != "Done"@ && v != "Fixed"@ && v != "WontFix"@ && v != "Archived"@
            ==> components::status_class(v) == "c-open"@,
        components::priority_class("P0"@) == "c-p0"@,
        components::priority_class("P1"@) == "c-p0"@,
        components::priority_class("P2"@) == "c-p2"@,
        components::priority_class("P3"@) == "c-p3"@,
        v != "P0"@ && v != "P1"@ && v != "P2"@ && v != "P3"@ ==> components::priority_class(v)
            == "c-open"@,
        text::same_word(name, "priority"@) || text::same_word(name, "优先级"@)
            ==> components::chip_class_of(name, v) == components::priority_class(v),
        !text::same_word(name, "priority"@) && !text::same_word(name, "优先级"@)
            ==> components::chip_class_of(name, v) == components::status_class(v),
        components::enum_value_text("InProgress"@) == "In progress"@,
        components::enum_value_text("WontFix"@) == "Wont fix"@,
        v != "InProgress"@ && v != "WontFix"@ ==> components::enum_value_text(v) == v,
{
    reveal_strlit("InProgress");
    reveal_strlit("Done");
    reveal_strlit("Fixed");
    reveal_strlit("WontFix");
    reveal_strlit("Archived");
    reveal_strlit("P0");
    reveal_strlit("P1");
    reveal_strlit("P2");
    reveal_strlit("P3");
    assert("InProgress"@.len() == 10);
    assert("Done"@.len() == 4);
    assert("Fixed"@.len() == 5);
    assert("WontFix"@.len() == 7);
    assert("Archived"@.len() == 8);
    assert("P0"@.len() == 2);
    assert("P1"@.len() == 2);
    assert("P2"@.len() == 2);
    assert("P3"@.len() == 2);
    assert("P0"@[1] == '0' && "P1"@[1] == '1' && "P2"@[1] == '2' && "P3"@[1] == '3');
    text::same_word_iff(name, "priority"@);
    text::same_word_iff(name, "优先级"@);
}

/// What the actions of the log are called; one that is not known is a change.
#[verifier::rlimit(60)]
pub proof fn actions_are_named(v: Seq<char>)
    ensures
        components::action_text("EntryCreated"@) == "创建"@,
        components::action_text("EntryUpdated"@) == "更新详情"@,
        components::action_text("EntryDeleted"@) == "删除"@,
        components::action_text("LabelingSet"@) == "设置标签"@,
        components::action_text("LabelingRemoved"@) == "移除标签"@,
        components::action_text("LabelSchemaCreated"@) == "创建标签定义"@,
        components::action_text("LabelSchemaUpdated"@) == "更新标签定义"@,
        components::action_text("LabelSchemaDeleted"@) == "删除标签定义"@,
        components::action_text("ViewCreated"@) == "创建视图"@,
        components::action_text("ViewUpdated"@) == "更新视图"@,
        components::action_text("ViewDeleted"@) == "删除视图"@,
        components::action_text("EntryArchived"@) == "归档"@,
        components::action_text("EntryUnarchived"@) == "取消归档"@,
        components::action_text("MemberInvited"@) == "邀请成员"@,
        components::action_text("MemberJoined"@) == "接受邀请"@,
        components::action_text("InviteDeclined"@) == "拒绝邀请"@,
        components::action_text("InviteRevoked"@) == "撤销邀请"@,
        components::action_text("RoleChanged"@) == "变更成员角色"@,
        components::action_text("MemberRemoved"@) == "移除成员"@,
        components::action_text("WorkspaceUpdated"@) == "更新工作空间"@,
        components::action_text("WorkspaceDeleted"@) == "删除工作空间"@,
        components::action_text("WorkspaceRestored"@) == "恢复工作空间"@,
        components::action_text("WorkspaceCreated"@) == "创建工作空间"@,
        components::action_text("RuleCreated"@) == "创建规则"@,
        components::action_text("RuleUpdated"@) == "更新规则"@,
        components::action_text("RuleDeleted"@) == "删除规则"@,
        components::action_text("RuleApplied"@) == "规则触发"@,
        components::action_text("CommentCreated"@) == "发表评论"@,
        components::action_text("CommentUpdated"@) == "编辑评论"@,
        components::action_text("CommentDeleted"@) == "删除评论"@,
        components::action_text("AttachmentUploaded"@) == "上传附件"@,
        components::action_text("AttachmentDeleted"@) == "删除附件"@,
        (v != "EntryCreated"@ && v != "EntryUpdated"@ && v != "EntryDeleted"@ && v != "LabelingSet"@ && v != "LabelingRemoved"@ && v != "LabelSchemaCreated"@ && v != "LabelSchemaUpdated"@ && v != "LabelSchemaDeleted"@ && v != "ViewCreated"@ && v != "ViewUpdated"@ && v != "ViewDeleted"@ && v != "EntryArchived"@ && v != "EntryUnarchived"@ && v != "MemberInvited"@ && v != "MemberJoined"@ && v != "InviteDeclined"@ && v != "InviteRevoked"@ && v != "RoleChanged"@ && v != "MemberRemoved"@ && v != "WorkspaceUpdated"@ && v != "WorkspaceDeleted"@ && v != "WorkspaceRestored"@ && v != "WorkspaceCreated"@ && v != "RuleCreated"@ && v != "RuleUpdated"@ && v != "RuleDeleted"@ && v != "RuleApplied"@ && v != "CommentCreated"@ && v != "CommentUpdated"@ && v != "CommentDeleted"@ && v != "AttachmentUploaded"@ && v != "AttachmentDeleted"@) ==> components::action_text(v) == "变更"@,
{
    reveal_strlit("EntryCreated");
    reveal_strlit("EntryUpdated");
    reveal_strlit("EntryDeleted");
    reveal_strlit("LabelingSet");
    reveal_strlit("LabelingRemoved");
    reveal_strlit("LabelSchemaCreated");
    reveal_strlit("LabelSchemaUpdated");
    reveal_strlit("LabelSchemaDeleted");
    reveal_strlit("ViewCreated");
    reveal_strlit("ViewUpdated");
    reveal_strlit("ViewDeleted");
    reveal_strlit("EntryArchived");
    reveal_strlit("EntryUnarchived");
    reveal_strlit("MemberInvited");
    reveal_strlit("MemberJoined");
    reveal_strlit("InviteDeclined");
    reveal_strlit("InviteRevoked");
    reveal_strlit("RoleChanged");
    reveal_strlit("MemberRemoved");
    reveal_strlit("WorkspaceUpdated");
    reveal_strlit("WorkspaceDeleted");
    reveal_strlit("WorkspaceRestored");
    reveal_strlit("WorkspaceCreated");
    reveal_strlit("RuleCreated");
    reveal_strlit("RuleUpdated");
    reveal_strlit("RuleDeleted");
    reveal_strlit("RuleApplied");
    reveal_strlit("CommentCreated");
    reveal_strlit("CommentUpdated");
    reveal_strlit("CommentDeleted");
    reveal_strlit("AttachmentUploaded");
    reveal_strlit("AttachmentDeleted");
    assert("EntryCreated"@.len() == 12);
    assert("EntryUpdated"@.len() == 12);
    assert("EntryDeleted"@.len() == 12);
    assert("LabelingSet"@.len() == 11);
    assert("LabelingRemoved"@.len() == 15);
    assert("LabelSchemaCreated"@.len() == 18);
    assert("LabelSchemaUpdated"@.len() == 18);
    assert("LabelSchemaDeleted"@.len() == 18);
    assert("ViewCreated"@.len() == 11);
    assert("ViewUpdated"@.len() == 11);
    assert("ViewDeleted"@.len() == 11);
    assert("EntryArchived"@.len() == 13);
    assert("EntryUnarchived"@.len() == 15);
    assert("MemberInvited"@.len() == 13);
    assert("MemberJoined"@.len() == 12);
    assert("InviteDeclined"@.len() == 14);
    assert("InviteRevoked"@.len() == 13);
    assert("RoleChanged"@.len() == 11);
    assert("MemberRemoved"@.len() == 13);
    assert("WorkspaceUpdated"@.len() == 16);
    assert("WorkspaceDeleted"@.len() == 16);
    assert("WorkspaceRestored"@.len() == 17);
    assert("WorkspaceCreated"@.len() == 16);
    assert("RuleCreated"@.len() == 11);
    assert("RuleUpdated"@.len() == 11);
    assert("RuleDeleted"@.len() == 11);
    assert("RuleApplied"@.len() == 11);
    assert("CommentCreated"@.len() == 14);
    assert("CommentUpdated"@.len() == 14);
    assert("CommentDeleted"@.len() == 14);
    assert("AttachmentUploaded"@.len() == 18);
    assert("AttachmentDeleted"@.len() == 17);
    assert("AttachmentDeleted"@[0] == 'A');
    assert("AttachmentUploaded"@[0] == 'A');
    assert("CommentCreated"@[0] == 'C');
    assert("CommentCreated"@[7] == 'C');
    assert("CommentDeleted"@[0] == 'C');
    assert("CommentDeleted"@[7] == 'D');
    assert("CommentUpdated"@[0] == 'C');
    assert("CommentUpdated"@[7] == 'U');
    assert("EntryArchived"@[0] == 'E');
    assert("EntryCreated"@[0] == 'E');
    assert("EntryCreated"@[5] == 'C');
    assert("EntryDeleted"@[0] == 'E');
    assert("EntryDeleted"@[5] == 'D');
    assert("EntryUnarchived"@[0] == 'E');
    assert("EntryUpdated"@[0] == 'E');
    assert("EntryUpdated"@[5] == 'U');
    assert("InviteDeclined"@[0] == 'I');
    assert("InviteRevoked"@[0] == 'I');
    assert("LabelSchemaCreated"@[0] == 'L');
    assert("LabelSchemaCreated"@[11] == 'C');
    assert("LabelSchemaDeleted"@[0] == 'L');
    assert("LabelSchemaDeleted"@[11] == 'D');
    assert("LabelSchemaUpdated"@[0] == 'L');
    assert("LabelSchemaUpdated"@[11] == 'U');
    assert("LabelingRemoved"@[0] == 'L');
    assert("LabelingSet"@[0] == 'L');
    assert("MemberInvited"@[0] == 'M');
    assert("MemberInvited"@[6] == 'I');
    assert("MemberJoined"@[0] == 'M');
    assert("MemberRemoved"@[0] == 'M');
    assert("MemberRemoved"@[6] == 'R');
    assert("RoleChanged"@[0] == 'R');
    assert("RoleChanged"@[1] == 'o');
    assert("RuleApplied"@[0] == 'R');
    assert("RuleApplied"@[1] == 'u');
    assert("RuleApplied"@[4] == 'A');
    assert("RuleCreated"@[0] == 'R');
    assert("RuleCreated"@[1] == 'u');
    assert("RuleCreated"@[4] == 'C');
    assert("RuleDeleted"@[0] == 'R');
    assert("RuleDeleted"@[1] == 'u');
    assert("RuleDeleted"@[4] == 'D');
    assert("RuleUpdated"@[0] == 'R');
    assert("RuleUpdated"@[1] == 'u');
    assert("RuleUpdated"@[4] == 'U');
    assert("ViewCreated"@[0] == 'V');
    assert("ViewCreated"@[4] == 'C');
    assert("ViewDeleted"@[0] == 'V');
    assert("ViewDeleted"@[4] == 'D');
    assert("ViewUpdated"@[0] == 'V');
    assert("ViewUpdated"@[4] == 'U');
    assert("WorkspaceCreated"@[9] == 'C');
    assert("WorkspaceDeleted"@[9] == 'D');
    assert("WorkspaceRestored"@[0] == 'W');
    assert("WorkspaceUpdated"@[9] == 'U');
}

/// What the value types are called; one that is not known by its own name.
pub proof fn types_are_named(v: Seq<char>)
    ensures
        components::value_type_text("null"@) == "Null"@,
        components::value_type_text("boolean"@) == "Boolean"@,
        components::value_type_text("integer"@) == "Integer"@,
        components::value_type_text("float"@) == "Float"@,
        components::value_type_text("string"@) == "String"@,
        components::value_type_text("enum"@) == "Enum"@,
        components::value_type_text("date"@) == "日期"@,
        components::value_type_text("time"@) == "时间"@,
        components::value_type_text("datetime"@) == "日期时间"@,
        components::value_type_text("currency"@) == "金额"@,
        components::value_type_text("email"@) == "邮箱"@,
        components::value_type_text("account"@) == "账号"@,
        (v != "null"@ && v != "boolean"@ && v != "integer"@ && v != "float"@ && v != "string"@ && v != "enum"@ && v != "date"@ && v != "time"@ && v != "datetime"@ && v != "currency"@ && v != "email"@ && v != "account"@) ==> components::value_type_text(v) == v,
{
    reveal_strlit("null");
    reveal_strlit("boolean");
    reveal_strlit("integer");
    reveal_strlit("float");
    reveal_strlit("string");
    reveal_strlit("enum");
    reveal_strlit("date");
    reveal_strlit("time");
    reveal_strlit("datetime");
    reveal_strlit("currency");
    reveal_strlit("email");
    reveal_strlit("account");
    assert("null"@.len() == 4);
    assert("boolean"@.len() == 7);
    assert("integer"@.len() == 7);
    assert("float"@.len() == 5);
    assert("string"@.len() == 6);
    assert("enum"@.len() == 4);
    assert("date"@.len() == 4);
    assert("time"@.len() == 4);
    assert("datetime"@.len() == 8);
    assert("currency"@.len() == 8);
    assert("email"@.len() == 5);
    assert("account"@.len() == 7);
    assert("account"@[0] == 'a');
    assert("boolean"@[0] == 'b');
    assert("currency"@[0] == 'c');
    assert("date"@[0] == 'd');
    assert("datetime"@[0] == 'd');
    assert("email"@[0] == 'e');
    assert("enum"@[0] == 'e');
    assert("float"@[0] == 'f');
    assert("integer"@[0] == 'i');
    assert("null"@[0] == 'n');
    assert("time"@[0] == 't');
}

// ---------------------------------------------------------------------------
// Times and sizes
// ---------------------------------------------------------------------------

/// A point in time is shown with the digits of the viewer's clock, the date
/// before the time, to the minute or to the second.
pub proof fn local_times_are_shown(at: Seq<char>, t: LocalTime)
    requires
        0 <= t.year <= 9999,
        0 <= t.month <= 99,
        0 <= t.day <= 99,
        0 <= t.hour <= 99,
        0 <= t.minute <= 99,
        0 <= t.second <= 99,
    ensures
        ({
            let w = components::short_time_text(at, Some(t));
            &&& w.len() == 16
            &&& layout_laws::digits_of(w.take(4), t.year as int, 4)
            &&& w[4] == '-' && layout_laws::digits_of(w.subrange(5, 7), t.month as int, 2)
            &&& w[7] == '-' && layout_laws::digits_of(w.subrange(8, 10), t.day as int, 2)
            &&& w[10] == ' ' && layout_laws::digits_of(w.subrange(11, 13), t.hour as int, 2)
            &&& w[13] == ':' && layout_laws::digits_of(w.subrange(14, 16), t.minute as int, 2)
        }),
        ({
            let w = components::datetime_text(at, Some(t));
            &&& w.len() == 19
            &&& w.take(16) == components::short_time_text(at, Some(t))
            &&& w[16] == ':' && layout_laws::digits_of(w.skip(17), t.second as int, 2)
        }),
{
    reveal_strlit("-");
    reveal_strlit(":");
    reveal_strlit(" ");
    golayout::padded_digits(t.year as int, 4);
    golayout::padded_digits(t.month as int, 2);
    golayout::padded_digits(t.day as int, 2);
    golayout::padded_digits(t.hour as int, 2);
    golayout::padded_digits(t.minute as int, 2);
    golayout::padded_digits(t.second as int, 2);
    let w = components::short_time_text(at, Some(t));
    assert(w.take(4) =~= decimal::padded(t.year as int, 4));
    assert(w.subrange(5, 7) =~= decimal::padded(t.month as int, 2));
    assert(w.subrange(8, 10) =~= decimal::padded(t.day as int, 2));
    assert(w.subrange(11, 13) =~= decimal::padded(t.hour as int, 2));
    assert(w.subrange(14, 16) =~= decimal::padded(t.minute as int, 2));
    let v = components::datetime_text(at, Some(t));
    assert(v.take(16) =~= w);
    assert(v.skip(17) =~= decimal::padded(t.second as int, 2));
}

/// Without the viewer's clock, the date and the time are taken as they are
/// written.
pub proof fn written_times_are_shown(day: Seq<char>, clock: Seq<char>, rest: Seq<char>)
    requires
        day.len() == 10,
        clock.len() == 8,
        text::all_ascii(day),
        text::all_ascii(clock),
        text::all_ascii(rest),
        !day.contains('T'),
        !clock.contains('T'),
        !text::is_white(day[0]),
        !text::is_white(clock[7]),
        rest.len() > 0 ==> !text::is_white(rest.last()),
    ensures
        components::short_time_text(day + seq!['T'] + clock + rest, None) == day + seq![' ']
            + clock.take(5),
        components::datetime_text(day + seq!['T'] + clock + rest, None) == day + seq![' '] + clock,
{
    reveal_strlit(" ");
    assert(" "@ =~= seq![' ']);
    let s = day + seq!['T'] + clock + rest;
    let e = Seq::<char>::empty();
    assert(s[0] == day[0]);
    assert(s.last() == if rest.len() > 0 {
        rest.last()
    } else {
        clock[7]
    });
    text::trimmed_is_the_middle(e, s, e);
    assert(e + s + e =~= s);
    assert(text::all_ascii(s)) by {
        assert forall|i: int| 0 <= i < s.len() implies (#[trigger] s[i] as u32) < 0x80 by {
            if i < 10 {
                assert((day[i] as u32) < 0x80);
            } else if i == 10 {
                assert(s[i] == 'T');
            } else if i < 19 {
                assert((clock[i - 11] as u32) < 0x80);
            } else {
                assert((rest[i - 19] as u32) < 0x80);
            }
        }
    }
    text::ascii_boundary(s, 0);
    text::ascii_boundary(s, 10);
    text::ascii_boundary(s, 11);
    text::ascii_boundary(s, 19);
    assert(s.subrange(0, 10) =~= day);
    assert(s.subrange(11, 19) =~= clock);
    let r = text::replaced(s, 'T', ' ');
    assert forall|i: int| 0 <= i < 16 implies #[trigger] r[i] == (day + seq![' '] + clock.take(
        5,
    ))[i] by {
        if i < 10 {
            assert(day.contains(day[i]));
            assert(s[i] == day[i]);
        } else if i > 10 {
            assert(clock.contains(clock[i - 11]));
            assert(s[i] == clock[i - 11]);
        }
    }
    assert(r.take(16) =~= day + seq![' '] + clock.take(5));
}

/// A number of bytes is shown as it is below a kilobyte, below a megabyte by the
/// nearest kilobyte, and else by the nearest tenth of a megabyte; between two,
/// the even one is the nearest.
pub proof fn sizes_are_rounded(n: int)
    requires
        n < 0x20_0000_0000_0000,
    ensures
        n <= 0 ==> components::size_text(n) == seq!['0', ' ', 'B'],
        0 <= n < 1024 ==> components::size_text(n) == decimal::numeral(n) + seq![' ', 'B'],
        1024 <= n < 1_048_576 ==> exists|k: int| #[trigger]
            is_nearest(n, 1024, k) && components::size_text(n) == decimal::numeral(k) + seq![
                ' ',
                'K',
                'B',
            ],
        n >= 1_048_576 ==> exists|k: int| #[trigger]
            is_nearest(10 * n, 1_048_576, k) && components::size_text(n) == decimal::numeral(k / 10)
                + seq!['.'] + decimal::numeral(k % 10) + seq![' ', 'M', 'B'],
{
    reveal_strlit(".");
    reveal_strlit(" B");
    reveal_strlit(" KB");
    reveal_strlit(" MB");
    assert("."@ =~= seq!['.']);
    assert(" B"@ =~= seq![' ', 'B']);
    assert(" KB"@ =~= seq![' ', 'K', 'B']);
    assert(" MB"@ =~= seq![' ', 'M', 'B']);
    if n <= 0 {
        assert(decimal::decimal(0) =~= seq!['0']);
        assert(components::size_text(n) =~= seq!['0', ' ', 'B']);
    }
    if 1024 <= n < 1_048_576 {
        let k = number::nearest(n, 1024);
        assert(is_nearest(n, 1024, k));
    }
    if n >= 1_048_576 {
        let k = number::nearest(10 * n, 1_048_576);
        assert(is_nearest(10 * n, 1_048_576, k));
    }
}

/// Whether a number of units is the nearest to a number, the even one of two.
pub open spec fn is_nearest(n: int, unit: int, k: int) -> bool {
    -unit <= 2 * (n - k * unit) <= unit && (2 * (n - k * unit) == unit || 2 * (n - k * unit)
        == -unit ==> k % 2 == 0)
}

} // verus!
