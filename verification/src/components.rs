//! Labels, chips, roles, times and sizes as they are shown.

use vstd::prelude::*;

use crate::decimal;
use crate::golayout;
use crate::graphql_client::{Member, User};
use crate::json;
use crate::json::{Json, JsonV};
use crate::number;
use crate::query_eval;
use crate::text;

verus! {

// ---------------------------------------------------------------------------
// Names of accounts
// ---------------------------------------------------------------------------

/// The name of an account, or its e-mail address where the name is blank.
pub open spec fn account_name(name: Seq<char>, email: Seq<char>) -> Seq<char> {
    if text::is_blank(name) {
        email
    } else {
        name
    }
}

/// The name that a member is shown by.
pub fn member_label(m: &Member) -> (r: String)
    ensures
        r@ == account_name(m.name@, m.email@),
{
    if text::blank(m.name.as_str()) {
        m.email.clone()
    } else {
        m.name.clone()
    }
}

/// The name that the account signed in is shown by; empty without one.
pub fn user_label(user: Option<&User>) -> (r: String)
    ensures
        r@ == (match user {
            Some(u) => account_name(u.name@, u.email@),
            None => ""@,
        }),
{
    match user {
        Some(u) => if text::blank(u.name.as_str()) {
            u.email.clone()
        } else {
            u.name.clone()
        },
        None => "".to_owned(),
    }
}

/// The name of the first member with an account, or the account itself where
/// no member has it.
pub open spec fn name_of_account(members: Seq<Member>, id: Seq<char>) -> Seq<char>
    decreases members.len(),
{
    if members.len() == 0 {
        id
    } else if members[0].account_id@ == id {
        account_name(members[0].name@, members[0].email@)
    } else {
        name_of_account(members.skip(1), id)
    }
}

/// The name that an account is shown by among the members of a workspace.
pub fn account_label(members: &[Member], id: &str) -> (r: String)
    ensures
        r@ == name_of_account(members@, id@),
{
    let mut i: usize = 0;
    assert(members@.skip(0) =~= members@);
    while i < members.len()
        invariant
            i <= members@.len(),
            name_of_account(members@, id@) == name_of_account(members@.skip(i as int), id@),
        decreases members@.len() - i,
    {
        let ghost rest = members@.skip(i as int);
        assert(rest[0] == members@[i as int]);
        assert(rest.skip(1) =~= members@.skip(i + 1));
        if text::same(members[i].account_id.as_str(), id) {
            return member_label(&members[i]);
        }
        i += 1;
    }
    id.to_owned()
}

/// The most accounts that the picker offers.
pub const ACCOUNT_HITS: usize = 8;

/// Whether the name or the e-mail address of a member contains a text, up to
/// case.
pub open spec fn member_hit(m: Member, needle: Seq<char>) -> bool {
    query_eval::has_folded(m.name@, needle) || query_eval::has_folded(m.email@, needle)
}

/// The positions of the members that contain a text, in order.
pub open spec fn member_hits(members: Seq<Member>, needle: Seq<char>) -> Seq<int>
    decreases members.len(),
{
    if members.len() == 0 {
        seq![]
    } else if member_hit(members.last(), needle) {
        member_hits(members.drop_last(), needle).push(members.len() - 1)
    } else {
        member_hits(members.drop_last(), needle)
    }
}

/// The positions that the account picker offers for a search text.
pub open spec fn offered_accounts(members: Seq<Member>, query: Seq<char>) -> Seq<int> {
    let needle = text::lowercase(text::trimmed(query));
    let hits = member_hits(members, needle);
    if needle.len() == 0 {
        seq![]
    } else if hits.len() <= ACCOUNT_HITS {
        hits
    } else {
        hits.take(ACCOUNT_HITS as int)
    }
}

/// The positions of a list as mathematical integers.
pub open spec fn positions(v: Seq<usize>) -> Seq<int> {
    Seq::new(v.len(), |i: int| v[i] as int)
}

/// The members that the account picker offers for a search text: the first
/// eight that contain it, none for a blank one.
pub fn account_hits(members: &[Member], query: &str) -> (r: Vec<usize>)
    ensures
        positions(r@) == offered_accounts(members@, query@),
{
    let needle = text::trim(query).as_str().to_lowercase();
    let mut out: Vec<usize> = Vec::new();
    assert(positions(out@) =~= seq![]);
    if needle.as_str().is_empty() {
        return out;
    }
    let mut i: usize = 0;
    let ghost all = member_hits(members@, needle@);
    while i < members.len()
        invariant
            i <= members@.len(),
            all == member_hits(members@, needle@),
            needle@ == text::lowercase(text::trimmed(query@)),
            needle@.len() > 0,
            positions(out@) == member_hits(members@.take(i as int), needle@),
            out@.len() <= ACCOUNT_HITS,
        decreases members@.len() - i,
    {
        let ghost before = out@;
        assert(members@.take(i + 1).drop_last() =~= members@.take(i as int));
        if out.len() == ACCOUNT_HITS {
            proof {
                hits_are_prefix(members@, needle@, i as int);
                assert(all.take(ACCOUNT_HITS as int) =~= positions(out@));
                if all.len() == ACCOUNT_HITS {
                    assert(all.take(ACCOUNT_HITS as int) =~= all);
                }
            }
            return out;
        }
        if query_eval::contains_ci(members[i].name.as_str(), needle.as_str())
            || query_eval::contains_ci(members[i].email.as_str(), needle.as_str()) {
            out.push(i);
            assert(positions(out@) =~= positions(before).push(i as int));
        }
        i += 1;
    }
    assert(members@.take(i as int) =~= members@);
    assert(all.take(all.len() as int) =~= all);
    out
}

/// What is found among the first members comes first.
proof fn hits_are_prefix(members: Seq<Member>, needle: Seq<char>, n: int)
    requires
        0 <= n <= members.len(),
    ensures
        member_hits(members.take(n), needle).len() <= member_hits(members, needle).len(),
        member_hits(members, needle).take(
            member_hits(members.take(n), needle).len() as int,
        ) == member_hits(members.take(n), needle),
    decreases members.len(),
{
    let few = member_hits(members.take(n), needle);
    let all = member_hits(members, needle);
    if n == members.len() {
        assert(members.take(n) =~= members);
        assert(all.take(all.len() as int) =~= all);
    } else {
        let d = members.drop_last();
        hits_are_prefix(d, needle, n);
        assert(d.take(n) =~= members.take(n));
        assert(all.take(few.len() as int) =~= member_hits(d, needle).take(few.len() as int));
    }
}

/// The character that an avatar shows: the first of a text, or a question
/// mark.
pub fn avatar_char(s: &str) -> (r: char)
    ensures
        r == (if s@.len() > 0 {
            s@[0]
        } else {
            '?'
        }),
{
    let v = text::chars_of(s);
    if v.len() > 0 {
        text::char_at(&v, 0)
    } else {
        '?'
    }
}

// ---------------------------------------------------------------------------
// Names and classes
// ---------------------------------------------------------------------------

/// How a value of an enumeration is shown.
pub open spec fn enum_value_text(v: Seq<char>) -> Seq<char> {
    if v == "InProgress"@ {
        "In progress"@
    } else if v == "WontFix"@ {
        "Wont fix"@
    } else {
        v
    }
}

/// How a value of an enumeration is shown: built-in ones are spelled out.
pub fn display_enum_value(v: &str) -> (r: String)
    ensures
        r@ == enum_value_text(v@),
{
    if text::same(v, "InProgress") {
        "In progress".to_owned()
    } else if text::same(v, "WontFix") {
        "Wont fix".to_owned()
    } else {
        v.to_owned()
    }
}

/// The class of the chip of a status.
pub open spec fn status_class(v: Seq<char>) -> Seq<char> {
    if v == "InProgress"@ {
        "c-doing"@
    } else if v == "Done"@ || v == "Fixed"@ {
        "c-done"@
    } else if v == "WontFix"@ || v == "Archived"@ {
        "c-wont"@
    } else {
        "c-open"@
    }
}

/// The class of the chip of a status.
pub fn status_chip(v: &str) -> (r: &'static str)
    ensures
        r@ == status_class(v@),
{
    if text::same(v, "InProgress") {
        "c-doing"
    } else if text::same(v, "Done") || text::same(v, "Fixed") {
        "c-done"
    } else if text::same(v, "WontFix") || text::same(v, "Archived") {
        "c-wont"
    } else {
        "c-open"
    }
}

/// The class of the chip of a priority.
pub open spec fn priority_class(v: Seq<char>) -> Seq<char> {
    if v == "P0"@ || v == "P1"@ {
        "c-p0"@
    } else if v == "P2"@ {
        "c-p2"@
    } else if v == "P3"@ {
        "c-p3"@
    } else {
        "c-open"@
    }
}

/// The class of the chip of a priority.
pub fn priority_chip(v: &str) -> (r: &'static str)
    ensures
        r@ == priority_class(v@),
{
    if text::same(v, "P0") || text::same(v, "P1") {
        "c-p0"
    } else if text::same(v, "P2") {
        "c-p2"
    } else if text::same(v, "P3") {
        "c-p3"
    } else {
        "c-open"
    }
}

/// The class of the chip of a label: that of a priority where the label is
/// named so, else that of a status.
pub open spec fn chip_class_of(label_name: Seq<char>, value: Seq<char>) -> Seq<char> {
    if text::same_letters(label_name, "priority"@) || text::same_letters(label_name, "优先级"@) {
        priority_class(value)
    } else {
        status_class(value)
    }
}

/// The class of the chip of a label.
pub fn label_chip_class(label_name: &str, value: &str) -> (r: &'static str)
    ensures
        r@ == chip_class_of(label_name@, value@),
{
    let name = text::to_lower(label_name);
    if text::same(name.as_str(), text::to_lower("priority").as_str()) || text::same(
        name.as_str(),
        text::to_lower("优先级").as_str(),
    ) {
        priority_chip(value)
    } else {
        status_chip(value)
    }
}

/// The class of the chip of a role in lower case.
pub open spec fn lower_role_class(v: Seq<char>) -> Seq<char> {
    if v == "owner"@ {
        "c-done"@
    } else if v == "maintainer"@ {
        "c-doing"@
    } else if v == "worker"@ {
        "c-open"@
    } else {
        "dim"@
    }
}

/// The class of the chip of a role in lower case.
fn lower_role_chip(v: &str) -> (r: &'static str)
    ensures
        r@ == lower_role_class(v@),
{
    if text::same(v, "owner") {
        "c-done"
    } else if text::same(v, "maintainer") {
        "c-doing"
    } else if text::same(v, "worker") {
        "c-open"
    } else {
        "dim"
    }
}

/// The class of the chip of a role, whatever its case.
pub fn role_chip_class(role: &str) -> (r: &'static str)
    ensures
        r@ == lower_role_class(text::ascii_lower(role@)),
{
    lower_role_chip(text::to_lower(role).as_str())
}

/// The name of a role in lower case.
pub open spec fn lower_role_name(v: Seq<char>) -> Seq<char> {
    if v == "owner"@ {
        "Owner"@
    } else if v == "maintainer"@ {
        "Maintainer"@
    } else if v == "worker"@ {
        "Worker"@
    } else if v == "reader"@ {
        "Reader"@
    } else {
        v
    }
}

/// The name of a role in lower case.
fn lower_role_label(v: &str) -> (r: String)
    ensures
        r@ == lower_role_name(v@),
{
    if text::same(v, "owner") {
        "Owner".to_owned()
    } else if text::same(v, "maintainer") {
        "Maintainer".to_owned()
    } else if text::same(v, "worker") {
        "Worker".to_owned()
    } else if text::same(v, "reader") {
        "Reader".to_owned()
    } else {
        v.to_owned()
    }
}

/// The name that a role is shown by, whatever its case; one that is not known
/// is shown in lower case.
pub fn role_label(role: &str) -> (r: String)
    ensures
        r@ == lower_role_name(text::ascii_lower(role@)),
{
    lower_role_label(text::to_lower(role).as_str())
}

/// The rank of a role, whatever its case; one that is not known ranks with the
/// reader.
pub open spec fn role_rank(role: Seq<char>) -> int {
    let r = text::ascii_lower(role);
    if r == "owner"@ {
        3
    } else if r == "maintainer"@ {
        2
    } else if r == "worker"@ {
        1
    } else {
        0
    }
}

/// The rank of a role.
fn rank(role: &str) -> (r: u8)
    ensures
        r == role_rank(role@),
{
    let s = text::to_lower(role);
    if text::same(s.as_str(), "owner") {
        3
    } else if text::same(s.as_str(), "maintainer") {
        2
    } else if text::same(s.as_str(), "worker") {
        1
    } else {
        0
    }
}

/// Whether a role may do what another may: owner before maintainer before
/// worker before reader.
pub fn role_at_least(role: &str, min: &str) -> (r: bool)
    ensures
        r == (role_rank(role@) >= role_rank(min@)),
{
    rank(role) >= rank(min)
}

/// Roles are ordered: of two roles one may do what the other may, a role may
/// do what it may itself, and who may do what another may, may do what a third
/// may that the other outranks.
pub proof fn roles_are_ordered(a: Seq<char>, b: Seq<char>, c: Seq<char>)
    ensures
        role_rank(a) >= role_rank(a),
        role_rank(a) >= role_rank(b) || role_rank(b) >= role_rank(a),
        role_rank(a) >= role_rank(b) && role_rank(b) >= role_rank(c) ==> role_rank(a) >= role_rank(
            c,
        ),
        role_rank("owner"@) > role_rank("maintainer"@),
        role_rank("maintainer"@) > role_rank("worker"@),
        role_rank("worker"@) > role_rank("reader"@),
{
    reveal_strlit("owner");
    reveal_strlit("maintainer");
    reveal_strlit("worker");
    reveal_strlit("reader");
    lower_word("owner"@);
    lower_word("maintainer"@);
    lower_word("worker"@);
    lower_word("reader"@);
    assert("owner"@[0] == 'o' && "maintainer"@[0] == 'm' && "worker"@[0] == 'w' && "reader"@[0]
        == 'r');
}

/// A text without upper-case ASCII letters is its own lower-case form.
pub proof fn lower_word(s: Seq<char>)
    requires
        forall|i: int| 0 <= i < s.len() ==> !('A' <= #[trigger] s[i] <= 'Z'),
    ensures
        text::ascii_lower(s) == s,
{
    assert(text::ascii_lower(s) =~= s);
}

/// What an action of the audit log is called.
pub open spec fn action_text(v: Seq<char>) -> Seq<char> {
    if v == "EntryCreated"@ {
        "创建"@
    } else if v == "EntryUpdated"@ {
        "更新详情"@
    } else if v == "EntryDeleted"@ {
        "删除"@
    } else if v == "LabelingSet"@ {
        "设置标签"@
    } else if v == "LabelingRemoved"@ {
        "移除标签"@
    } else if v == "LabelSchemaCreated"@ {
        "创建标签定义"@
    } else if v == "LabelSchemaUpdated"@ {
        "更新标签定义"@
    } else if v == "LabelSchemaDeleted"@ {
        "删除标签定义"@
    } else if v == "ViewCreated"@ {
        "创建视图"@
    } else if v == "ViewUpdated"@ {
        "更新视图"@
    } else if v == "ViewDeleted"@ {
        "删除视图"@
    } else if v == "EntryArchived"@ {
        "归档"@
    } else if v == "EntryUnarchived"@ {
        "取消归档"@
    } else if v == "MemberInvited"@ {
        "邀请成员"@
    } else if v == "MemberJoined"@ {
        "接受邀请"@
    } else if v == "InviteDeclined"@ {
        "拒绝邀请"@
    } else if v == "InviteRevoked"@ {
        "撤销邀请"@
    } else if v == "RoleChanged"@ {
        "变更成员角色"@
    } else if v == "MemberRemoved"@ {
        "移除成员"@
    } else if v == "WorkspaceUpdated"@ {
        "更新工作空间"@
    } else if v == "WorkspaceDeleted"@ {
        "删除工作空间"@
    } else if v == "WorkspaceRestored"@ {
        "恢复工作空间"@
    } else if v == "WorkspaceCreated"@ {
        "创建工作空间"@
    } else if v == "RuleCreated"@ {
        "创建规则"@
    } else if v == "RuleUpdated"@ {
        "更新规则"@
    } else if v == "RuleDeleted"@ {
        "删除规则"@
    } else if v == "RuleApplied"@ {
        "规则触发"@
    } else if v == "CommentCreated"@ {
        "发表评论"@
    } else if v == "CommentUpdated"@ {
        "编辑评论"@
    } else if v == "CommentDeleted"@ {
        "删除评论"@
    } else if v == "AttachmentUploaded"@ {
        "上传附件"@
    } else if v == "AttachmentDeleted"@ {
        "删除附件"@
    } else {
        "变更"@
    }
}

/// What an action of the audit log is called.
pub fn action_label(v: &str) -> (r: &'static str)
    ensures
        r@ == action_text(v@),
{
    if text::same(v, "EntryCreated") {
        "创建"
    } else if text::same(v, "EntryUpdated") {
        "更新详情"
    } else if text::same(v, "EntryDeleted") {
        "删除"
    } else if text::same(v, "LabelingSet") {
        "设置标签"
    } else if text::same(v, "LabelingRemoved") {
        "移除标签"
    } else if text::same(v, "LabelSchemaCreated") {
        "创建标签定义"
    } else if text::same(v, "LabelSchemaUpdated") {
        "更新标签定义"
    } else if text::same(v, "LabelSchemaDeleted") {
        "删除标签定义"
    } else if text::same(v, "ViewCreated") {
        "创建视图"
    } else if text::same(v, "ViewUpdated") {
        "更新视图"
    } else if text::same(v, "ViewDeleted") {
        "删除视图"
    } else if text::same(v, "EntryArchived") {
        "归档"
    } else if text::same(v, "EntryUnarchived") {
        "取消归档"
    } else if text::same(v, "MemberInvited") {
        "邀请成员"
    } else if text::same(v, "MemberJoined") {
        "接受邀请"
    } else if text::same(v, "InviteDeclined") {
        "拒绝邀请"
    } else if text::same(v, "InviteRevoked") {
        "撤销邀请"
    } else if text::same(v, "RoleChanged") {
        "变更成员角色"
    } else if text::same(v, "MemberRemoved") {
        "移除成员"
    } else if text::same(v, "WorkspaceUpdated") {
        "更新工作空间"
    } else if text::same(v, "WorkspaceDeleted") {
        "删除工作空间"
    } else if text::same(v, "WorkspaceRestored") {
        "恢复工作空间"
    } else if text::same(v, "WorkspaceCreated") {
        "创建工作空间"
    } else if text::same(v, "RuleCreated") {
        "创建规则"
    } else if text::same(v, "RuleUpdated") {
        "更新规则"
    } else if text::same(v, "RuleDeleted") {
        "删除规则"
    } else if text::same(v, "RuleApplied") {
        "规则触发"
    } else if text::same(v, "CommentCreated") {
        "发表评论"
    } else if text::same(v, "CommentUpdated") {
        "编辑评论"
    } else if text::same(v, "CommentDeleted") {
        "删除评论"
    } else if text::same(v, "AttachmentUploaded") {
        "上传附件"
    } else if text::same(v, "AttachmentDeleted") {
        "删除附件"
    } else {
        "变更"
    }
}

/// What a value type is called.
pub open spec fn value_type_text(v: Seq<char>) -> Seq<char> {
    if v == "null"@ {
        "Null"@
    } else if v == "boolean"@ {
        "Boolean"@
    } else if v == "integer"@ {
        "Integer"@
    } else if v == "float"@ {
        "Float"@
    } else if v == "string"@ {
        "String"@
    } else if v == "enum"@ {
        "Enum"@
    } else if v == "date"@ {
        "日期"@
    } else if v == "time"@ {
        "时间"@
    } else if v == "datetime"@ {
        "日期时间"@
    } else if v == "currency"@ {
        "金额"@
    } else if v == "email"@ {
        "邮箱"@
    } else if v == "account"@ {
        "账号"@
    } else {
        v
    }
}

/// What a value type is called; one that is not known by its own name.
pub fn value_type_label(v: &str) -> (r: String)
    ensures
        r@ == value_type_text(v@),
{
    if text::same(v, "null") {
        "Null".to_owned()
    } else if text::same(v, "boolean") {
        "Boolean".to_owned()
    } else if text::same(v, "integer") {
        "Integer".to_owned()
    } else if text::same(v, "float") {
        "Float".to_owned()
    } else if text::same(v, "string") {
        "String".to_owned()
    } else if text::same(v, "enum") {
        "Enum".to_owned()
    } else if text::same(v, "date") {
        "日期".to_owned()
    } else if text::same(v, "time") {
        "时间".to_owned()
    } else if text::same(v, "datetime") {
        "日期时间".to_owned()
    } else if text::same(v, "currency") {
        "金额".to_owned()
    } else if text::same(v, "email") {
        "邮箱".to_owned()
    } else if text::same(v, "account") {
        "账号".to_owned()
    } else {
        v.to_owned()
    }
}

// ---------------------------------------------------------------------------
// Values
// ---------------------------------------------------------------------------

/// How a label value is shown: a scalar by its text, nothing for null, the
/// items of an array side by side, an object as JSON.
pub open spec fn value_text(j: JsonV) -> Seq<char>
    decreases j,
{
    match j {
        JsonV::Text(s) => s,
        JsonV::Number(n) => n.text(),
        JsonV::Bool(b) => query_eval::bool_text(b),
        JsonV::Null => ""@,
        JsonV::Array(a) => text::joined(value_texts(a), ", "@),
        JsonV::Object(_) => json::json_text(j),
    }
}

/// How the items of an array are shown.
pub open spec fn value_texts(a: Seq<JsonV>) -> Seq<Seq<char>>
    decreases a,
{
    if a.len() == 0 {
        seq![]
    } else {
        value_texts(a.drop_last()).push(value_text(a.last()))
    }
}

/// How a label value is shown.
pub fn value_to_string(v: &Json) -> (r: String)
    ensures
        r@ == value_text(v@),
    decreases v,
{
    match v {
        Json::Text(s) => s.clone(),
        Json::Number(n) => n.text(),
        Json::Bool(b) => if *b {
            "true".to_owned()
        } else {
            "false".to_owned()
        },
        Json::Null => "".to_owned(),
        Json::Array(a) => {
            let mut parts: Vec<String> = Vec::new();
            let mut i: usize = 0;
            let ghost items = json::items_view(a@);
            assert(text::contents(parts@) =~= seq![]);
            while i < a.len()
                invariant
                    i <= a@.len(),
                    *v == Json::Array(*a),
                    items == json::items_view(a@),
                    text::contents(parts@) == value_texts(items.take(i as int)),
                decreases a@.len() - i,
            {
                let ghost before = parts@;
                proof {
                    json::item_smaller(*v, *a, i as int);
                    assert(items.take(i + 1).drop_last() =~= items.take(i as int));
                    assert(items.take(i + 1).last() == a@[i as int]@);
                }
                let t = value_to_string(&a[i]);
                parts.push(t);
                assert(text::contents(parts@) =~= text::contents(before).push(t@));
                i += 1;
            }
            proof {
                json::array_view(*a);
                assert(items.take(i as int) =~= items);
            }
            text::join(&parts, ", ")
        },
        Json::Object(_) => json::write(v),
    }
}

/// A string value, or null for an empty text.
pub open spec fn text_or_null(s: Seq<char>) -> JsonV {
    if s.len() == 0 {
        JsonV::Null
    } else {
        JsonV::Text(s)
    }
}

/// The value of a text field: null where it is empty.
pub fn text_value(s: &str) -> (r: Json)
    ensures
        r@ == text_or_null(s@),
{
    if s.is_empty() {
        Json::Null
    } else {
        json::of_str(s)
    }
}

/// The value of a yes-or-no field: null where neither is chosen.
pub fn bool_value(s: &str) -> (r: Json)
    ensures
        r@ == (if s@ == "true"@ {
            JsonV::Bool(true)
        } else if s@ == "false"@ {
            JsonV::Bool(false)
        } else {
            JsonV::Null
        }),
{
    if text::same(s, "true") {
        Json::Bool(true)
    } else if text::same(s, "false") {
        Json::Bool(false)
    } else {
        Json::Null
    }
}

/// The choice that a yes-or-no field shows for a value.
pub fn bool_choice(v: &Json) -> (r: String)
    ensures
        r@ == (match v@ {
            JsonV::Bool(b) => query_eval::bool_text(b),
            _ => ""@,
        }),
{
    match v {
        Json::Bool(true) => "true".to_owned(),
        Json::Bool(false) => "false".to_owned(),
        _ => "".to_owned(),
    }
}

/// The pieces of a list of texts that are not blank, trimmed.
pub open spec fn nonblank(pieces: Seq<Seq<char>>) -> Seq<Seq<char>>
    decreases pieces.len(),
{
    if pieces.len() == 0 {
        seq![]
    } else if text::is_blank(pieces.last()) {
        nonblank(pieces.drop_last())
    } else {
        nonblank(pieces.drop_last()).push(text::trimmed(pieces.last()))
    }
}

/// The entries of a list written with a separator, blank ones left out.
pub fn list_entries(s: &str, sep: char) -> (r: Vec<String>)
    ensures
        text::contents(r@) == nonblank(text::split_at_char(s@, sep)),
{
    let pieces = text::split(s, sep);
    let ghost all = text::contents(pieces@);
    let mut out: Vec<String> = Vec::new();
    let mut i: usize = 0;
    assert(text::contents(out@) =~= seq![]);
    while i < pieces.len()
        invariant
            i <= pieces@.len(),
            all == text::contents(pieces@),
            text::contents(out@) == nonblank(all.take(i as int)),
        decreases pieces@.len() - i,
    {
        let ghost before = out@;
        assert(all.take(i + 1).drop_last() =~= all.take(i as int));
        assert(all.take(i + 1).last() == pieces@[i as int]@);
        let t = text::trim(pieces[i].as_str());
        if !t.as_str().is_empty() {
            out.push(t);
            assert(text::contents(out@) =~= text::contents(before).push(t@));
        }
        i += 1;
    }
    assert(all.take(i as int) =~= all);
    out
}

/// An array of texts, or null where there are none.
pub open spec fn texts_or_null(list: Seq<Seq<char>>) -> JsonV {
    if list.len() == 0 {
        JsonV::Null
    } else {
        json::texts(list)
    }
}

/// The value of a field of several choices, written with commas: null where
/// there is none.
pub fn choices_value(s: &str) -> (r: Json)
    ensures
        r@ == texts_or_null(nonblank(text::split_at_char(s@, ','))),
{
    let items = list_entries(s, ',');
    assert(text::contents(items@).len() == items@.len());
    if items.len() == 0 {
        Json::Null
    } else {
        json::of_list(&items)
    }
}

/// What `str::parse` to a double and `serde_json::Number::from_f64` make of a
/// text: none where it spells no double or no finite one.
pub uninterp spec fn float_read(s: Seq<char>) -> Option<number::NumV>;

/// The double that a text spells; an empty text spells none.
pub open spec fn double_read(s: Seq<char>) -> Option<number::NumV> {
    if s.len() == 0 {
        None
    } else {
        float_read(s)
    }
}

/// `serde_json::Number::from_f64` on what `str::parse` reads, taken apart by
/// `as_f64` and `to_string`. What comes out is a function of the text, and is a
/// double; an empty text spells none.
#[verifier::external_body]
fn parse_float(s: &str) -> (r: Option<number::Number>)
    ensures
        match r {
            Some(n) => s@.len() > 0 && float_read(s@) == Some(n@) && n@ is Float,
            None => s@.len() == 0 || float_read(s@) is None,
        },
{
    let n = s.parse().ok().and_then(serde_json::Number::from_f64)?;
    Some(number::Number::Float(n.as_f64()?.to_bits(), n.to_string()))
}

/// The number that a field gives: an integer for integer labels, else a double.
pub open spec fn number_read(value_type: Seq<char>, s: Seq<char>) -> Option<number::NumV> {
    if value_type == "integer"@ {
        match decimal::int_of(s) {
            Some(n) => Some(number::int_number(n as i64)),
            None => None,
        }
    } else {
        double_read(s)
    }
}

/// Reads the number of a field.
pub fn read_number(value_type: &str, s: &str) -> (r: Option<number::Number>)
    ensures
        match r {
            Some(n) => number_read(value_type@, s@) == Some(n@),
            None => number_read(value_type@, s@) is None,
        },
{
    if text::same(value_type, "integer") {
        match decimal::parse_int(s) {
            Some(n) => Some(number::number_of(n)),
            None => None,
        }
    } else {
        parse_float(s)
    }
}

/// What a number read from a field makes of its value: null for a blank field,
/// the number where there is one, and no change where the text spells none.
pub fn number_change(s: &str, number: Option<number::Number>) -> (r: Option<Json>)
    ensures
        match r {
            Some(j) => if text::is_blank(s@) {
                j@ == JsonV::Null
            } else {
                number matches Some(n) && j@ == JsonV::Number(n@)
            },
            None => !text::is_blank(s@) && number is None,
        },
{
    if text::blank(s) {
        return Some(Json::Null);
    }
    match number {
        Some(n) => Some(Json::Number(n)),
        None => None,
    }
}

/// The new value of a number field; none where the text is no number yet, and
/// the value stays as it was.
pub fn number_value(value_type: &str, s: &str) -> (r: Option<Json>)
    ensures
        match r {
            Some(j) => if text::is_blank(s@) {
                j@ == JsonV::Null
            } else {
                number_read(value_type@, s@) matches Some(n) && j@ == JsonV::Number(n)
            },
            None => !text::is_blank(s@) && number_read(value_type@, s@) is None,
        },
{
    number_change(s, read_number(value_type, s))
}

/// The text that a number field shows for a value.
pub fn number_text(v: &Json) -> (r: String)
    ensures
        r@ == (match v@ {
            JsonV::Number(n) => n.text(),
            _ => ""@,
        }),
{
    match v {
        Json::Number(n) => n.text(),
        _ => "".to_owned(),
    }
}

/// The new value of a time field: null for a blank one; none where the text
/// does not fit the layout, and the value stays as it was.
pub fn time_value(layout: &str, s: &str) -> (r: Option<Json>)
    ensures
        match r {
            Some(j) => if text::is_blank(s@) {
                j@ == JsonV::Null
            } else {
                golayout::parsed(layout@, s@) is Some && j@ == JsonV::Text(s@)
            },
            None => !text::is_blank(s@) && golayout::parsed(layout@, s@) is None,
        },
{
    if text::blank(s) {
        return Some(Json::Null);
    }
    if golayout::parse(layout, s).is_some() {
        Some(json::of_str(s))
    } else {
        None
    }
}

// ---------------------------------------------------------------------------
// Formats of times
// ---------------------------------------------------------------------------

/// The choice of a format of one's own, which no pattern can be mistaken for.
pub const CUSTOM_FORMAT: &'static str = "__custom__";

/// Whether a format is not among the presets of its value type.
pub fn is_custom_format(value_type: &str, format: &str) -> (r: bool)
    ensures
        r == (format@.len() > 0 && !golayout::presets_of(value_type@).contains(format@)),
{
    if format.is_empty() {
        return false;
    }
    let presets = golayout::presets(value_type);
    let ghost all = golayout::slices(presets@);
    let mut i: usize = 0;
    while i < presets.len()
        invariant
            i <= presets@.len(),
            all == golayout::slices(presets@),
            all == golayout::presets_of(value_type@),
            forall|k: int| 0 <= k < i ==> #[trigger] all[k] != format@,
        decreases presets@.len() - i,
    {
        if text::same(presets[i], format) {
            assert(all[i as int] == format@);
            return false;
        }
        i += 1;
    }
    assert(!all.contains(format@));
    true
}

/// The label of the choice of the default format.
pub fn default_format_label(value_type: &str) -> (r: String)
    ensures
        r@ == "（默认 "@ + golayout::default_pattern_of(value_type@) + "）"@,
{
    text::concat3("（默认 ", golayout::default_pattern(value_type), "）")
}

/// Whether a browser's own field can hold the times of a label: its format is
/// absent or just the default of its type. Only a format of one's own needs a
/// text field.
pub open spec fn native_layout(vt: Seq<char>, format: Option<Seq<char>>) -> bool {
    golayout::resolved(format, golayout::default_go_of(vt)) == golayout::default_go_of(vt)
}

/// Whether a browser's own field can hold the times of a label.
pub fn is_native_time_layout(vt: &str, format: Option<&str>) -> (r: bool)
    ensures
        r == native_layout(vt@, text::opt_str(format)),
{
    let default = golayout::default_go(vt);
    let layout = golayout::resolve(format, default);
    text::same(layout.as_str(), default)
}

/// The first bytes of a text, where they end between characters.
pub open spec fn head_bytes(s: Seq<char>, n: int) -> Option<Seq<char>> {
    text::byte_slice(s, 0, n)
}

/// The first bytes of a text.
fn first_bytes(s: &str, n: usize) -> (r: Option<String>)
    ensures
        text::opt_view(r) == head_bytes(s@, n as int),
{
    let v = text::chars_of(s);
    assert(v@.skip(0) =~= v@);
    text::slice_bytes(&v, 0, 0, n)
}

/// A stored time as a browser's field holds it: a `T` between date and time,
/// and no seconds.
pub open spec fn native_of(vt: Seq<char>, s: Seq<char>) -> Seq<char> {
    if vt == "datetime"@ {
        match head_bytes(text::replaced_first(s, ' ', 'T'), 16) {
            Some(t) => t,
            None => s,
        }
    } else if vt == "time"@ {
        match head_bytes(s, 5) {
            Some(t) => t,
            None => s,
        }
    } else {
        s
    }
}

/// Turns a stored time into the value of a browser's field.
pub fn to_native(vt: &str, s: &str) -> (r: String)
    ensures
        r@ == native_of(vt@, s@),
{
    if text::same(vt, "datetime") {
        match first_bytes(text::replace_first(s, ' ', 'T').as_str(), 16) {
            Some(t) => t,
            None => s.to_owned(),
        }
    } else if text::same(vt, "time") {
        match first_bytes(s, 5) {
            Some(t) => t,
            None => s.to_owned(),
        }
    } else {
        s.to_owned()
    }
}

/// The value of a browser's field as it is stored: a space between date and
/// time, and seconds; none for an empty one, nor for one too short.
pub open spec fn stored_of(vt: Seq<char>, s: Seq<char>) -> Option<Seq<char>> {
    if s.len() == 0 {
        None
    } else if vt == "datetime"@ {
        head_bytes(text::replaced_first(s, 'T', ' ') + ":00"@, 19)
    } else if vt == "time"@ {
        head_bytes(s + ":00"@, 8)
    } else {
        Some(s)
    }
}

/// Turns the value of a browser's field into a stored time.
pub fn from_native(vt: &str, s: &str) -> (r: Option<String>)
    ensures
        text::opt_view(r) == stored_of(vt@, s@),
{
    if s.is_empty() {
        return None;
    }
    if text::same(vt, "datetime") {
        let spaced = text::replace_first(s, 'T', ' ');
        first_bytes(text::concat2(spaced.as_str(), ":00").as_str(), 19)
    } else if text::same(vt, "time") {
        first_bytes(text::concat2(s, ":00").as_str(), 8)
    } else {
        Some(s.to_owned())
    }
}

/// A time of the viewer's clock.
#[derive(Debug, Clone, Copy, PartialEq, Eq, Structural)]
pub struct LocalTime {
    pub year: u32,
    pub month: u32,
    pub day: u32,
    pub hour: u32,
    pub minute: u32,
    pub second: u32,
}

/// A date as `YYYY-MM-DD`.
pub open spec fn date_text(y: int, m: int, d: int) -> Seq<char> {
    decimal::padded(y, 4) + "-"@ + decimal::padded(m, 2) + "-"@ + decimal::padded(d, 2)
}

/// A clock time as `HH:MM`.
pub open spec fn clock_text(h: int, m: int) -> Seq<char> {
    decimal::padded(h, 2) + ":"@ + decimal::padded(m, 2)
}

/// A date as `YYYY-MM-DD`.
pub fn write_date(y: i64, m: i64, d: i64) -> (r: String)
    ensures
        r@ == date_text(y as int, m as int, d as int),
{
    let mut out = decimal::padded_text(y, 4);
    out.push_str("-");
    out.push_str(decimal::padded_text(m, 2).as_str());
    out.push_str("-");
    out.push_str(decimal::padded_text(d, 2).as_str());
    out
}

/// A clock time as `HH:MM`.
pub fn write_clock(h: i64, m: i64) -> (r: String)
    ensures
        r@ == clock_text(h as int, m as int),
{
    let mut out = decimal::padded_text(h, 2);
    out.push_str(":");
    out.push_str(decimal::padded_text(m, 2).as_str());
    out
}

/// A point in time to the minute. `local` is what the viewer's clock makes of
/// it; without that, the written form itself is cut.
pub open spec fn short_time_text(at: Seq<char>, local: Option<LocalTime>) -> Seq<char> {
    match local {
        Some(t) => date_text(t.year as int, t.month as int, t.day as int) + " "@ + clock_text(
            t.hour as int,
            t.minute as int,
        ),
        None => text::cut(text::replaced(at, 'T', ' '), 16),
    }
}

/// Writes a point in time to the minute.
pub fn short_time(at: &str, local: Option<LocalTime>) -> (r: String)
    ensures
        r@ == short_time_text(at@, local),
{
    match local {
        Some(t) => {
            let mut out = write_date(t.year as i64, t.month as i64, t.day as i64);
            out.push_str(" ");
            out.push_str(write_clock(t.hour as i64, t.minute as i64).as_str());
            out
        },
        None => text::cut_text(text::replace_char(at, 'T', ' ').as_str(), 16),
    }
}

/// A point in time to the second. Without the viewer's clock, the date and the
/// clock time are taken from their places in the written form.
pub open spec fn datetime_text(rfc: Seq<char>, local: Option<LocalTime>) -> Seq<char> {
    match local {
        Some(t) => date_text(t.year as int, t.month as int, t.day as int) + " "@ + clock_text(
            t.hour as int,
            t.minute as int,
        ) + ":"@ + decimal::padded(t.second as int, 2),
        None => {
            let s = text::trimmed(rfc);
            match (head_bytes(s, 10), text::byte_slice(s, 11, 19)) {
                (Some(d), Some(c)) => d + " "@ + c,
                (Some(d), None) => d,
                (None, _) => s,
            }
        },
    }
}

/// Writes a point in time to the second.
pub fn fmt_datetime(rfc: &str, local: Option<LocalTime>) -> (r: String)
    ensures
        r@ == datetime_text(rfc@, local),
{
    match local {
        Some(t) => {
            let mut out = write_date(t.year as i64, t.month as i64, t.day as i64);
            out.push_str(" ");
            out.push_str(write_clock(t.hour as i64, t.minute as i64).as_str());
            out.push_str(":");
            out.push_str(decimal::padded_text(t.second as i64, 2).as_str());
            out
        },
        None => {
            let s = text::trim(rfc);
            let v = text::chars_of(s.as_str());
            assert(v@.skip(0) =~= v@);
            match (first_bytes(s.as_str(), 10), text::slice_bytes(&v, 0, 11, 19)) {
                (Some(d), Some(c)) => text::concat3(d.as_str(), " ", c.as_str()),
                (Some(d), None) => d,
                (None, _) => s,
            }
        },
    }
}

// ---------------------------------------------------------------------------
// Sizes
// ---------------------------------------------------------------------------

/// A number of bytes as it is shown: in whole bytes, in kilobytes to the
/// nearest one, or in megabytes to the nearest tenth, ties to the even digit.
/// Numbers beyond 53 bits count as the double nearest to them.
pub open spec fn size_text(bytes: int) -> Seq<char> {
    let n: nat = if bytes < 0 {
        0
    } else {
        bytes as nat
    };
    let b = number::double_value(n);
    if b >= 1_048_576 {
        let tenths = number::nearest(10 * b, 1_048_576) as nat;
        decimal::decimal(tenths / 10) + "."@ + decimal::decimal(tenths % 10) + " MB"@
    } else if b >= 1024 {
        decimal::decimal(number::nearest(b, 1024) as nat) + " KB"@
    } else {
        decimal::decimal(n) + " B"@
    }
}

/// Writes a number of bytes.
pub fn human_size(bytes: i64) -> (r: String)
    ensures
        r@ == size_text(bytes as int),
{
    let n: u64 = if bytes < 0 {
        0
    } else {
        bytes as u64
    };
    let b: u128 = number::round_to_double(n);
    let mut out = String::new();
    if b >= 1_048_576 {
        let tenths: u128 = number::divide_nearest(10 * b, 1_048_576);
        assert(tenths <= 10 * b / 1_048_576 + 1);
        let whole: u64 = (tenths / 10) as u64;
        let tenth: u64 = (tenths % 10) as u64;
        decimal::push_decimal(&mut out, whole);
        out.push_str(".");
        decimal::push_decimal(&mut out, tenth);
        out.push_str(" MB");
    } else if b >= 1024 {
        let k: u128 = number::divide_nearest(b, 1024);
        decimal::push_decimal(&mut out, k as u64);
        out.push_str(" KB");
    } else {
        decimal::push_decimal(&mut out, n);
        out.push_str(" B");
    }
    assert(out@ =~= size_text(bytes as int));
    out
}

// ---------------------------------------------------------------------------
// Colours
// ---------------------------------------------------------------------------

/// The standard colours, grey last.
pub const PRESET_COLORS: [&'static str; 10] = [
    "#ef4444",
    "#f97316",
    "#eab308",
    "#22c55e",
    "#14b8a6",
    "#3b82f6",
    "#6366f1",
    "#a855f7",
    "#ec4899",
    "#6b7280",
];

/// The colour that a colour field shows while none is set.
pub const COLOR_FALLBACK: &'static str = "#3b82f6";

/// Whether a colour is one of the standard ones.
pub fn is_preset_color(c: &str) -> (r: bool)
    ensures
        r == (exists|i: int| 0 <= i < 10 && (#[trigger] PRESET_COLORS@[i])@ == c@),
{
    let all = PRESET_COLORS;
    let mut i: usize = 0;
    while i < 10
        invariant
            i <= 10,
            all == PRESET_COLORS,
            forall|k: int| 0 <= k < i ==> (#[trigger] all@[k])@ != c@,
        decreases 10 - i,
    {
        if text::same(all[i], c) {
            assert(PRESET_COLORS@[i as int]@ == c@);
            return true;
        }
        i += 1;
    }
    false
}

/// The colour that a colour field shows.
pub fn shown_color(c: &str) -> (r: String)
    ensures
        r@ == (if c@.len() == 0 {
            COLOR_FALLBACK@
        } else {
            c@
        }),
{
    if c.is_empty() {
        COLOR_FALLBACK.to_owned()
    } else {
        c.to_owned()
    }
}

// ---------------------------------------------------------------------------
// Laws
// ---------------------------------------------------------------------------

/// What a browser's field for a date and a time holds, `YYYY-MM-DDTHH:MM`, is
/// the same after it was stored and read again.
pub proof fn native_datetime_survives(v: Seq<char>)
    requires
        v.len() == 16,
        text::all_ascii(v),
        text::first_at(v, 'T') < 16,
        text::first_at(v, 'T') < text::first_at(v, ' '),
    ensures
        stored_of("datetime"@, v) matches Some(s) && native_of("datetime"@, s) == v,
{
    reveal_strlit(":00");
    let t = text::first_at(v, 'T');
    text::first_at_props(v, 'T');
    text::first_at_props(v, ' ');
    let spaced = text::replaced_first(v, 'T', ' ');
    assert(spaced == v.update(t, ' '));
    let s = spaced + ":00"@;
    assert(text::all_ascii(s)) by {
        assert forall|i: int| 0 <= i < s.len() implies (#[trigger] s[i] as u32) < 0x80 by {
            if i < 16 {
                assert(s[i] == spaced[i]);
                assert((v[i] as u32) < 0x80);
            } else {
                assert(s[i] == ":00"@[i - 16]);
            }
        }
    }
    text::ascii_boundary(s, 0);
    text::ascii_boundary(s, 19);
    assert(s.subrange(0, 19) =~= s);
    assert(stored_of("datetime"@, v) == Some(s));
    assert forall|k: int| 0 <= k < t implies s[k] != ' ' by {
        assert(s[k] == v[k]);
    }
    assert(s[t] == ' ');
    text::first_at_is(s, ' ', t);
    let back = text::replaced_first(s, ' ', 'T');
    assert(back =~= v + ":00"@);
    assert(text::all_ascii(back)) by {
        assert forall|i: int| 0 <= i < back.len() implies (#[trigger] back[i] as u32) < 0x80 by {
            assert((s[i] as u32) < 0x80);
        }
    }
    text::ascii_boundary(back, 0);
    text::ascii_boundary(back, 16);
    assert(back.subrange(0, 16) =~= v);
}

/// What a browser's field for a time holds, `HH:MM`, is the same after it was
/// stored and read again.
pub proof fn native_time_survives(v: Seq<char>)
    requires
        v.len() == 5,
        text::all_ascii(v),
    ensures
        stored_of("time"@, v) matches Some(s) && native_of("time"@, s) == v,
{
    reveal_strlit(":00");
    reveal_strlit("time");
    reveal_strlit("datetime");
    assert("time"@.len() != "datetime"@.len());
    let s = v + ":00"@;
    assert(text::all_ascii(s)) by {
        assert forall|i: int| 0 <= i < s.len() implies (#[trigger] s[i] as u32) < 0x80 by {
            if i < 5 {
                assert((v[i] as u32) < 0x80);
            } else {
                assert(s[i] == ":00"@[i - 5]);
            }
        }
    }
    text::ascii_boundary(s, 0);
    text::ascii_boundary(s, 5);
    text::ascii_boundary(s, 8);
    assert(s.subrange(0, 8) =~= s);
    assert(s.subrange(0, 5) =~= v);
}

} // verus!
