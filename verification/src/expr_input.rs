//! The expression box: label names offered while one is typed, and the time
//! picker behind a comparison with a time.

use vstd::prelude::*;

use crate::components;
use crate::graphql_client::LabelSchema;
use crate::query_eval;
use crate::text;

verus! {

/// Filter expressions, as the help shows them.
pub const HELP_FORMS: [&'static str; 12] = [
    "Task",
    "!Task",
    "Bug AND !Task",
    "Status = \"Open\"",
    "Status != \"Done\"",
    "Status IN (\"Open\", \"Done\")",
    "Priority >= 2",
    "Summary ~ \"登录\"",
    "L5",
    "L4+",
    "!L4+",
    "L4+ = \"V1\"",
];

/// What the expressions in the help mean, one by one.
pub const HELP_MEANINGS: [&'static str; 12] = [
    "打了「任务」标签",
    "没有打「任务」标签",
    "打了 Bug 标签，没打 Task 标签",
    "Status 等于 Open",
    "Status 不等于 Done",
    "Status 是其中之一",
    "数值标签大于等于 2",
    "文本标签包含「登录」",
    "直接打了 L5 标签",
    "打了 L4，或通过继承 / 覆盖关系拥有 L4",
    "既没直接打 L4，也没有继承来 L4",
    "已拥有的 L4 值等于 V1（含继承来的）",
];

/// What the help says besides.
pub const HELP_NOTES: [&'static str; 5] = [
    "用标签是否存在、或标签的值来筛选条目。多个条件用 AND / OR 连接，NOT 取反，括号可改变优先级。",
    "标签后面加 + 表示把继承 / 覆盖关系一并算进来：在「设置 · 标签定义」里给某个标签声明关系后，它能把别的标签带进来（继承），或者被别的标签带出去（覆盖）。不加 + 时只匹配直接打在该条目上的标签。",
    "只有 key 被继承（值没跟着传）的标签，能用于 L4+ / !L4+ 这类存在性判断，不参与等值或大小比较。",
    "内置元数据：Code / Title / Detail / CreatedBy / CreatedAt / UpdatedBy / UpdatedAt（这些名字不可用作自定义标签名）。",
    "提示：在输入框里输入 / 可从内置元数据与本视图已有标签中选择；回车应用表达式，Escape 关闭提示。时间型标签（含 CreatedAt / UpdatedAt）后接比较运算符和一个空格（键与运算符之间可有空格），会浮出日期 / 时间选择器。",
];

// ---------------------------------------------------------------------------
// Label names
// ---------------------------------------------------------------------------

/// What is typed after the last slash of an expression: the start of a label
/// name. None without a slash.
pub open spec fn fragment(s: Seq<char>) -> Option<Seq<char>> {
    let i = text::last_at(s, '/');
    if i >= 0 {
        Some(s.skip(i + 1))
    } else {
        None
    }
}

/// What is typed after the last slash of an expression.
pub fn label_fragment(s: &str) -> (r: Option<String>)
    ensures
        text::opt_view(r) == fragment(s@),
{
    let v = text::chars_of(s);
    match text::rfind_char(&v, '/') {
        Some(i) => {
            let t = text::string_of(&v, i + 1, v.len());
            assert(t@ =~= s@.skip(i + 1));
            Some(t)
        },
        None => None,
    }
}

/// An expression once a name was picked: the name stands in place of the last
/// slash and what follows it, with a space behind.
pub open spec fn with_label(s: Seq<char>, name: Seq<char>) -> Seq<char> {
    let i = text::last_at(s, '/');
    if i >= 0 {
        s.take(i) + name + " "@
    } else {
        name + " "@
    }
}

/// Puts a picked name into an expression.
pub fn pick_label(s: &str, name: &str) -> (r: String)
    ensures
        r@ == with_label(s@, name@),
{
    let v = text::chars_of(s);
    match text::rfind_char(&v, '/') {
        Some(i) => {
            let head = text::string_of(&v, 0, i);
            assert(head@ =~= s@.take(i as int));
            text::concat3(head.as_str(), name, " ")
        },
        None => text::concat2(name, " "),
    }
}

/// A name that is offered, with what it is called.
#[derive(Debug, Clone)]
pub struct Candidate {
    pub name: String,
    pub title: String,
}

/// The content of a list of candidates.
pub open spec fn candidates_view(v: Seq<Candidate>) -> Seq<(Seq<char>, Seq<char>)> {
    Seq::new(v.len(), |i: int| (v[i].name@, v[i].title@))
}

/// The names that every entry has, with what they are called.
pub open spec fn builtin_fields() -> Seq<(Seq<char>, Seq<char>)> {
    seq![
        ("Code"@, "编码"@),
        ("Title"@, "标题"@),
        ("Detail"@, "详情"@),
        ("CreatedBy"@, "创建人"@),
        ("CreatedAt"@, "创建时间"@),
        ("UpdatedBy"@, "更新人"@),
        ("UpdatedAt"@, "更新时间"@),
    ]
}

/// A candidate.
fn candidate(name: &str, title: &str) -> (r: Candidate)
    ensures
        r.name@ == name@,
        r.title@ == title@,
{
    Candidate { name: name.to_owned(), title: title.to_owned() }
}

/// The names that every entry has.
fn builtin_candidates() -> (r: Vec<Candidate>)
    ensures
        candidates_view(r@) == builtin_fields(),
{
    let v: Vec<Candidate> = vec![
        candidate("Code", "编码"),
        candidate("Title", "标题"),
        candidate("Detail", "详情"),
        candidate("CreatedBy", "创建人"),
        candidate("CreatedAt", "创建时间"),
        candidate("UpdatedBy", "更新人"),
        candidate("UpdatedAt", "更新时间"),
    ];
    assert(candidates_view(v@) =~= builtin_fields());
    v
}

/// Whether a list has a name, up to the case of ASCII letters.
pub open spec fn has_name(items: Seq<(Seq<char>, Seq<char>)>, name: Seq<char>) -> bool {
    exists|i: int| 0 <= i < items.len() && text::same_letters((#[trigger] items[i]).0, name)
}

/// A list with the offers whose names it does not have yet.
pub open spec fn merged(
    items: Seq<(Seq<char>, Seq<char>)>,
    offers: Seq<(Seq<char>, Seq<char>)>,
) -> Seq<(Seq<char>, Seq<char>)>
    decreases offers.len(),
{
    if offers.len() == 0 {
        items
    } else {
        let before = merged(items, offers.drop_last());
        if has_name(before, offers.last().0) {
            before
        } else {
            before.push(offers.last())
        }
    }
}

/// Whether a candidate contains a text in its name or its title, up to case.
pub open spec fn candidate_fits(c: (Seq<char>, Seq<char>), needle: Seq<char>) -> bool {
    query_eval::has_folded(c.0, needle) || query_eval::has_folded(c.1, needle)
}

/// The candidates that contain a text.
pub open spec fn fitting(
    items: Seq<(Seq<char>, Seq<char>)>,
    needle: Seq<char>,
) -> Seq<(Seq<char>, Seq<char>)>
    decreases items.len(),
{
    if items.len() == 0 {
        seq![]
    } else if candidate_fits(items.last(), needle) {
        fitting(items.drop_last(), needle).push(items.last())
    } else {
        fitting(items.drop_last(), needle)
    }
}

/// What is offered for the start of a name.
pub open spec fn offered(
    offers: Seq<(Seq<char>, Seq<char>)>,
    frag: Seq<char>,
) -> Seq<(Seq<char>, Seq<char>)> {
    fitting(merged(builtin_fields(), offers), text::lowercase(frag))
}

/// Tests [`has_name`].
fn lists_name(items: &Vec<Candidate>, name: &str) -> (r: bool)
    ensures
        r == has_name(candidates_view(items@), name@),
{
    let wanted = text::to_lower(name);
    let ghost all = candidates_view(items@);
    let mut i: usize = 0;
    while i < items.len()
        invariant
            i <= items@.len(),
            all == candidates_view(items@),
            wanted@ == text::ascii_lower(name@),
            forall|k: int| 0 <= k < i ==> !text::same_letters((#[trigger] all[k]).0, name@),
        decreases items@.len() - i,
    {
        if text::same(text::to_lower(items[i].name.as_str()).as_str(), wanted.as_str()) {
            assert(text::same_letters(all[i as int].0, name@));
            return true;
        }
        i += 1;
    }
    false
}

/// What is offered for the start of a name, given the labels on offer.
fn offer(offers: &Vec<Candidate>, frag: &str) -> (r: Vec<Candidate>)
    ensures
        candidates_view(r@) == offered(candidates_view(offers@), frag@),
{
    let mut items = builtin_candidates();
    let ghost all = candidates_view(offers@);
    let mut i: usize = 0;
    while i < offers.len()
        invariant
            i <= offers@.len(),
            all == candidates_view(offers@),
            candidates_view(items@) == merged(builtin_fields(), all.take(i as int)),
        decreases offers@.len() - i,
    {
        let ghost before = items@;
        assert(all.take(i + 1).drop_last() =~= all.take(i as int));
        assert(all.take(i + 1).last() == all[i as int]);
        if !lists_name(&items, offers[i].name.as_str()) {
            items.push(candidate(offers[i].name.as_str(), offers[i].title.as_str()));
            assert(candidates_view(items@) =~= candidates_view(before).push(all[i as int]));
        }
        i += 1;
    }
    assert(all.take(i as int) =~= all);
    let needle = frag.to_lowercase();
    let ghost every = candidates_view(items@);
    let mut out: Vec<Candidate> = Vec::new();
    let mut j: usize = 0;
    assert(candidates_view(out@) =~= seq![]);
    while j < items.len()
        invariant
            j <= items@.len(),
            every == candidates_view(items@),
            candidates_view(out@) == fitting(every.take(j as int), needle@),
        decreases items@.len() - j,
    {
        let ghost before = out@;
        assert(every.take(j + 1).drop_last() =~= every.take(j as int));
        assert(every.take(j + 1).last() == every[j as int]);
        if query_eval::contains_ci(items[j].name.as_str(), needle.as_str())
            || query_eval::contains_ci(items[j].title.as_str(), needle.as_str()) {
            out.push(candidate(items[j].name.as_str(), items[j].title.as_str()));
            assert(candidates_view(out@) =~= candidates_view(before).push(every[j as int]));
        }
        j += 1;
    }
    assert(every.take(j as int) =~= every);
    out
}

/// What a label is called: the title of its first definition, trimmed, or its
/// name where it has none.
pub open spec fn label_title(schemas: Seq<LabelSchema>, name: Seq<char>) -> Seq<char>
    decreases schemas.len(),
{
    if schemas.len() == 0 {
        name
    } else if schemas[0].name@ == name {
        if text::is_blank(schemas[0].title@) {
            name
        } else {
            text::trimmed(schemas[0].title@)
        }
    } else {
        label_title(schemas.skip(1), name)
    }
}

/// What a label is called.
fn title_of(schemas: &[LabelSchema], name: &str) -> (r: String)
    ensures
        r@ == label_title(schemas@, name@),
{
    let mut i: usize = 0;
    assert(schemas@.skip(0) =~= schemas@);
    while i < schemas.len()
        invariant
            i <= schemas@.len(),
            label_title(schemas@, name@) == label_title(schemas@.skip(i as int), name@),
        decreases schemas@.len() - i,
    {
        let ghost rest = schemas@.skip(i as int);
        assert(rest[0] == schemas@[i as int]);
        assert(rest.skip(1) =~= schemas@.skip(i + 1));
        if text::same(schemas[i].name.as_str(), name) {
            let t = text::trim(schemas[i].title.as_str());
            if t.as_str().is_empty() {
                return name.to_owned();
            }
            return t;
        }
        i += 1;
    }
    name.to_owned()
}

/// The labels of a view, as they are offered.
pub open spec fn view_offers(
    names: Seq<Seq<char>>,
    schemas: Seq<LabelSchema>,
) -> Seq<(Seq<char>, Seq<char>)> {
    Seq::new(names.len(), |i: int| (names[i], label_title(schemas, names[i])))
}

/// What is offered in the expression box of a view: the names that every entry
/// has, then the labels that the entries of the view have, those that contain
/// the fragment.
pub fn view_candidates(names: &Vec<String>, schemas: &[LabelSchema], frag: &str) -> (r: Vec<
    Candidate,
>)
    ensures
        candidates_view(r@) == offered(view_offers(text::contents(names@), schemas@), frag@),
{
    let ghost want = view_offers(text::contents(names@), schemas@);
    let mut offers: Vec<Candidate> = Vec::new();
    let mut i: usize = 0;
    assert(candidates_view(offers@) =~= want.take(0));
    while i < names.len()
        invariant
            i <= names@.len(),
            want == view_offers(text::contents(names@), schemas@),
            candidates_view(offers@) == want.take(i as int),
        decreases names@.len() - i,
    {
        let ghost before = offers@;
        let title = title_of(schemas, names[i].as_str());
        offers.push(candidate(names[i].as_str(), title.as_str()));
        assert(want[i as int] == (names@[i as int]@, title@));
        assert(candidates_view(offers@) =~= candidates_view(before).push(want[i as int]));
        i += 1;
        assert(candidates_view(offers@) =~= want.take(i as int));
    }
    assert(want.take(i as int) =~= want);
    offer(&offers, frag)
}

/// The name of a definition: its title, or its own name where that is blank.
pub open spec fn schema_title(s: LabelSchema) -> Seq<char> {
    if text::is_blank(s.title@) {
        s.name@
    } else {
        s.title@
    }
}

/// The name of a definition.
pub fn title_or_name(s: &LabelSchema) -> (r: String)
    ensures
        r@ == schema_title(*s),
{
    if text::blank(s.title.as_str()) {
        s.name.clone()
    } else {
        s.title.clone()
    }
}

/// The labels of a workspace, as they are offered.
pub open spec fn schema_offers(schemas: Seq<LabelSchema>) -> Seq<(Seq<char>, Seq<char>)> {
    Seq::new(schemas.len(), |i: int| (schemas[i].name@, schema_title(schemas[i])))
}

/// What is offered in the expression of a colour rule: the names that every
/// entry has, then the labels of the workspace.
pub fn rule_candidates(schemas: &[LabelSchema], frag: &str) -> (r: Vec<Candidate>)
    ensures
        candidates_view(r@) == offered(schema_offers(schemas@), frag@),
{
    let ghost want = schema_offers(schemas@);
    let mut offers: Vec<Candidate> = Vec::new();
    let mut i: usize = 0;
    assert(candidates_view(offers@) =~= want.take(0));
    while i < schemas.len()
        invariant
            i <= schemas@.len(),
            want == schema_offers(schemas@),
            candidates_view(offers@) == want.take(i as int),
        decreases schemas@.len() - i,
    {
        let ghost before = offers@;
        let title = title_or_name(&schemas[i]);
        offers.push(candidate(schemas[i].name.as_str(), title.as_str()));
        assert(want[i as int] == (schemas@[i as int].name@, title@));
        assert(candidates_view(offers@) =~= candidates_view(before).push(want[i as int]));
        i += 1;
        assert(candidates_view(offers@) =~= want.take(i as int));
    }
    assert(want.take(i as int) =~= want);
    offer(&offers, frag)
}

// ---------------------------------------------------------------------------
// Times
// ---------------------------------------------------------------------------

/// Which browser field picks a time.
#[derive(Debug, Clone, Copy, PartialEq, Eq, Structural)]
pub enum TimeKind {
    Date,
    Time,
    DateTime,
}

/// The kind of a value type.
pub open spec fn kind_of_type(vt: Seq<char>) -> Option<TimeKind> {
    if vt == "date"@ {
        Some(TimeKind::Date)
    } else if vt == "time"@ {
        Some(TimeKind::Time)
    } else if vt == "datetime"@ {
        Some(TimeKind::DateTime)
    } else {
        None
    }
}

/// The kind of the first label whose name is a key, up to the case of ASCII
/// letters.
pub open spec fn kind_of_label(schemas: Seq<LabelSchema>, key: Seq<char>) -> Option<TimeKind>
    decreases schemas.len(),
{
    if schemas.len() == 0 {
        None
    } else if text::same_letters(schemas[0].name@, key) {
        kind_of_type(schemas[0].value_type@)
    } else {
        kind_of_label(schemas.skip(1), key)
    }
}

/// The kind of a key of an expression: the two dates of an entry, else a label.
pub open spec fn kind_of_key(schemas: Seq<LabelSchema>, key: Seq<char>) -> Option<TimeKind> {
    if text::same_letters(key, "CreatedAt"@) || text::same_letters(key, "UpdatedAt"@) {
        Some(TimeKind::DateTime)
    } else {
        kind_of_label(schemas, key)
    }
}

/// The kind of a key of an expression.
pub fn kind_of(schemas: &[LabelSchema], key: &str) -> (r: Option<TimeKind>)
    ensures
        r == kind_of_key(schemas@, key@),
{
    let low = text::to_lower(key);
    if text::same(low.as_str(), text::to_lower("CreatedAt").as_str()) || text::same(
        low.as_str(),
        text::to_lower("UpdatedAt").as_str(),
    ) {
        return Some(TimeKind::DateTime);
    }
    let mut i: usize = 0;
    assert(schemas@.skip(0) =~= schemas@);
    while i < schemas.len()
        invariant
            i <= schemas@.len(),
            low@ == text::ascii_lower(key@),
            kind_of_key(schemas@, key@) == kind_of_label(schemas@, key@),
            kind_of_label(schemas@, key@) == kind_of_label(schemas@.skip(i as int), key@),
        decreases schemas@.len() - i,
    {
        let ghost rest = schemas@.skip(i as int);
        assert(rest[0] == schemas@[i as int]);
        assert(rest.skip(1) =~= schemas@.skip(i + 1));
        if text::same(text::to_lower(schemas[i].name.as_str()).as_str(), low.as_str()) {
            let vt = schemas[i].value_type.as_str();
            return if text::same(vt, "date") {
                Some(TimeKind::Date)
            } else if text::same(vt, "time") {
                Some(TimeKind::Time)
            } else if text::same(vt, "datetime") {
                Some(TimeKind::DateTime)
            } else {
                None
            };
        }
        i += 1;
    }
    None
}

/// Whether a character may stand in a key.
pub open spec fn is_key_char(c: char) -> bool {
    text::is_word_char(c) || c == '_' || c == '-' || c == '.'
}

/// The key that a text ends with.
pub open spec fn last_key(s: Seq<char>) -> Seq<char>
    decreases s.len(),
{
    if s.len() == 0 || !is_key_char(s.last()) {
        seq![]
    } else {
        last_key(s.drop_last()).push(s.last())
    }
}

/// The length of the comparison that a text ends with.
pub open spec fn comparison_len(s: Seq<char>) -> int {
    if text::ends(s, ">="@) || text::ends(s, "<="@) || text::ends(s, "!="@) {
        2
    } else if text::ends(s, ">"@) || text::ends(s, "<"@) || text::ends(s, "="@) {
        1
    } else {
        0
    }
}

/// The key in front of a comparison that an expression ends with, where white
/// space behind it shows that no value is written yet.
pub open spec fn open_comparison(s: Seq<char>) -> Option<Seq<char>> {
    let t = text::trim_end(s);
    let n = comparison_len(t);
    if t.len() == s.len() || n == 0 {
        None
    } else {
        let key = last_key(text::trim_end(t.take(t.len() - n)));
        if key.len() == 0 {
            None
        } else {
            Some(key)
        }
    }
}

/// Comparisons are as long as they are written.
proof fn comparison_fits(s: Seq<char>)
    ensures
        0 <= comparison_len(s) <= s.len(),
{
    reveal_strlit(">=");
    reveal_strlit("<=");
    reveal_strlit("!=");
    reveal_strlit(">");
    reveal_strlit("<");
    reveal_strlit("=");
}

/// Reads the key that characters end with.
fn read_key(s: &str) -> (r: String)
    ensures
        r@ == last_key(s@),
{
    let v = text::chars_of(s);
    let mut j: usize = v.len();
    assert(v@.take(j as int) =~= v@);
    assert(v@.skip(j as int) =~= seq![]);
    assert(last_key(v@) =~= last_key(v@) + v@.skip(j as int));
    while j > 0 && (v[j - 1].is_alphanumeric() || v[j - 1] == '_' || v[j - 1] == '-' || v[j - 1]
        == '.')
        invariant
            j <= v@.len(),
            v@ == s@,
            last_key(v@) == last_key(v@.take(j as int)) + v@.skip(j as int),
        decreases j,
    {
        proof {
            assert(v@.take(j as int).last() == v@[j - 1]);
            assert(v@.take(j as int).drop_last() =~= v@.take(j - 1));
            assert(last_key(v@.take(j as int)) =~= last_key(v@.take(j - 1)).push(v@[j - 1]));
            assert(last_key(v@.take(j as int)) + v@.skip(j as int) =~= last_key(v@.take(j - 1))
                + v@.skip(j - 1));
        }
        j -= 1;
    }
    proof {
        if j > 0 {
            assert(v@.take(j as int).last() == v@[j - 1]);
        }
        assert(last_key(v@.take(j as int)) =~= seq![]);
    }
    let r = text::string_of(&v, j, v.len());
    assert(r@ =~= last_key(s@));
    r
}

/// The comparison that an expression waits for a value of: the picker to show
/// and the byte offset at which the value goes.
pub fn detect_time_picker(s: &str, schemas: &[LabelSchema]) -> (r: Option<(TimeKind, usize)>)
    ensures
        match r {
            Some((k, at)) => open_comparison(s@) matches Some(key) && kind_of_key(schemas@, key)
                == Some(k) && at == text::byte_len(s@),
            None => open_comparison(s@) matches Some(key) ==> kind_of_key(schemas@, key) is None,
        },
{
    let t = text::trim_tail(s);
    proof {
        text::trim_end_bare(s@);
        comparison_fits(t@);
    }
    if text::same(t.as_str(), s) {
        return None;
    }
    proof {
        if t@.len() == s@.len() {
            assert(t@ =~= s@);
        }
    }
    let n: usize = if text::ends_with(t.as_str(), ">=") || text::ends_with(t.as_str(), "<=")
        || text::ends_with(t.as_str(), "!=") {
        2
    } else if text::ends_with(t.as_str(), ">") || text::ends_with(t.as_str(), "<")
        || text::ends_with(t.as_str(), "=") {
        1
    } else {
        return None;
    };
    let v = text::chars_of(t.as_str());
    let cut: usize = v.len() - n;
    let head = text::string_of(&v, 0, cut);
    assert(head@ =~= t@.take(t@.len() - n));
    let key = read_key(text::trim_tail(head.as_str()).as_str());
    if key.as_str().is_empty() {
        return None;
    }
    match kind_of(schemas, key.as_str()) {
        Some(k) => Some((k, text::byte_count(s))),
        None => None,
    }
}

/// The value type whose field picks a time.
pub open spec fn type_of_kind(k: TimeKind) -> Seq<char> {
    match k {
        TimeKind::Date => "date"@,
        TimeKind::Time => "time"@,
        TimeKind::DateTime => "datetime"@,
    }
}

/// The value type whose field picks a time.
fn kind_type(k: TimeKind) -> (r: &'static str)
    ensures
        r@ == type_of_kind(k),
{
    match k {
        TimeKind::Date => "date",
        TimeKind::Time => "time",
        TimeKind::DateTime => "datetime",
    }
}

/// The type of the browser's field that picks a time.
pub fn kind_input_type(k: TimeKind) -> (r: &'static str)
    ensures
        r@ == (match k {
            TimeKind::Date => "date"@,
            TimeKind::Time => "time"@,
            TimeKind::DateTime => "datetime-local"@,
        }),
{
    match k {
        TimeKind::Date => "date",
        TimeKind::Time => "time",
        TimeKind::DateTime => "datetime-local",
    }
}

/// An expression with a picked time: quoted, at its place, with a space behind.
pub open spec fn with_time(
    s: Seq<char>,
    at: int,
    k: TimeKind,
    raw: Seq<char>,
) -> Option<Seq<char>> {
    match components::stored_of(type_of_kind(k), raw) {
        Some(value) => {
            let head = match text::byte_slice(s, 0, at) {
                Some(h) => h,
                None => s,
            };
            Some(head + "\""@ + value + "\" "@)
        },
        None => None,
    }
}

/// Puts a picked time into an expression; none where nothing was picked.
pub fn insert_time(s: &str, at: usize, k: TimeKind, raw: &str) -> (r: Option<String>)
    ensures
        text::opt_view(r) == with_time(s@, at as int, k, raw@),
{
    match components::from_native(kind_type(k), raw) {
        Some(value) => {
            let v = text::chars_of(s);
            assert(v@.skip(0) =~= v@);
            let mut out = match text::slice_bytes(&v, 0, 0, at) {
                Some(h) => h,
                None => s.to_owned(),
            };
            out.push_str("\"");
            out.push_str(value.as_str());
            out.push_str("\" ");
            Some(out)
        },
        None => None,
    }
}

// ---------------------------------------------------------------------------
// Laws
// ---------------------------------------------------------------------------

/// After a name was picked nothing is offered any more, unless the name itself
/// or what stands before has a slash.
pub proof fn picking_closes_the_list(s: Seq<char>, name: Seq<char>)
    requires
        !name.contains('/'),
        text::last_at(s, '/') >= 0 ==> !s.take(text::last_at(s, '/')).contains('/'),
    ensures
        fragment(with_label(s, name)) is None,
{
    reveal_strlit(" ");
    let r = with_label(s, name);
    text::last_at_props(r, '/');
    let i = text::last_at(r, '/');
    if i >= 0 {
        let head = if text::last_at(s, '/') >= 0 {
            s.take(text::last_at(s, '/'))
        } else {
            seq![]
        };
        text::last_at_props(s, '/');
        assert(r =~= head + name + " "@);
        if i < head.len() {
            assert(head[i] == '/');
        } else if i < head.len() + name.len() {
            assert(name[i - head.len()] == '/');
        }
    }
}

/// A picked value closes the picker: an expression with a time has no open
/// comparison at its end.
pub proof fn picking_closes_the_picker(s: Seq<char>, at: int, k: TimeKind, raw: Seq<char>)
    requires
        with_time(s, at, k, raw) is Some,
    ensures
        open_comparison(with_time(s, at, k, raw)->0) is None,
{
    reveal_strlit("\" ");
    reveal_strlit("\"");
    reveal_strlit(">=");
    reveal_strlit("<=");
    reveal_strlit("!=");
    reveal_strlit(">");
    reveal_strlit("<");
    reveal_strlit("=");
    let r = with_time(s, at, k, raw)->0;
    assert(r.last() == ' ');
    let t = r.drop_last();
    assert(t.last() == '"');
    assert(text::trim_end(t) == t);
    assert(text::trim_end(r) == t);
    assert(t.skip(t.len() - 1)[0] == '"');
    if t.len() >= 2 {
        assert(t.skip(t.len() - 2)[1] == '"');
        assert(">="@[1] == '=' && "<="@[1] == '=' && "!="@[1] == '=');
    }
    assert(">"@[0] == '>' && "<"@[0] == '<' && "="@[0] == '=');
}

/// What is typed after the last slash is the start of a name, and a picked name
/// takes its place and that of the slash, with a blank behind. Without a slash
/// no name is begun.
pub proof fn names_follow_slashes(a: Seq<char>, w: Seq<char>, name: Seq<char>)
    requires
        !w.contains('/'),
    ensures
        fragment(a + seq!['/'] + w) == Some(w),
        fragment(w) is None,
        with_label(a + seq!['/'] + w, name) == a + name + seq![' '],
        with_label(w, name) == name + seq![' '],
{
    reveal_strlit(" ");
    assert(" "@ =~= seq![' ']);
    let s = a + seq!['/'] + w;
    text::last_separator(a, '/', w);
    assert(s.skip(a.len() as int + 1) =~= w);
    assert(s.take(a.len() as int) =~= a);
}

/// What is offered are the names of all entries and the labels, those whose name
/// or title contains what was typed, the case of letters left aside.
pub proof fn offers_contain_what_was_typed(
    offers: Seq<(Seq<char>, Seq<char>)>,
    frag: Seq<char>,
    c: (Seq<char>, Seq<char>),
)
    ensures
        offered(offers, frag).contains(c) <==> merged(builtin_fields(), offers).contains(c) && (
        crate::query_laws::stands_in(frag, c.0) || crate::query_laws::stands_in(frag, c.1)),
{
    crate::component_laws::folded_is(c.0, frag);
    crate::component_laws::folded_is(c.1, frag);
    fitting_has(merged(builtin_fields(), offers), text::lowercase(frag), c);
}

proof fn fitting_has(
    items: Seq<(Seq<char>, Seq<char>)>,
    needle: Seq<char>,
    c: (Seq<char>, Seq<char>),
)
    ensures
        fitting(items, needle).contains(c) <==> items.contains(c) && candidate_fits(c, needle),
    decreases items.len(),
{
    let r = fitting(items, needle);
    if items.len() > 0 {
        let d = items.drop_last();
        let before = fitting(d, needle);
        fitting_has(d, needle, c);
        if r.contains(c) {
            let k = choose|k: int| 0 <= k < r.len() && r[k] == c;
            if k < before.len() {
                assert(before[k] == c);
                assert(before.contains(c));
                let m = choose|m: int| 0 <= m < d.len() && d[m] == c;
                assert(items[m] == c);
            } else {
                assert(items[items.len() - 1] == c);
            }
        }
        if items.contains(c) && candidate_fits(c, needle) {
            let m = choose|m: int| 0 <= m < items.len() && items[m] == c;
            if m < d.len() {
                assert(d[m] == c);
                assert(before.contains(c));
                let k = choose|k: int| 0 <= k < before.len() && before[k] == c;
                assert(r[k] == c);
            } else {
                assert(r[r.len() - 1] == c);
            }
        }
    }
}

/// The names of all entries are offered first; a label is offered after those
/// before it, unless its name is there already, the case of letters left aside.
pub proof fn labels_are_offered_once(
    items: Seq<(Seq<char>, Seq<char>)>,
    offers: Seq<(Seq<char>, Seq<char>)>,
    c: (Seq<char>, Seq<char>),
)
    ensures
        merged(items, seq![]) == items,
        ({
            let before = merged(items, offers);
            let there = exists|i: int|
                0 <= i < before.len() && text::same_word((#[trigger] before[i]).0, c.0);
            merged(items, offers.push(c)) == if there {
                before
            } else {
                before.push(c)
            }
        }),
        builtin_fields() == seq![
            ("Code"@, "编码"@),
            ("Title"@, "标题"@),
            ("Detail"@, "详情"@),
            ("CreatedBy"@, "创建人"@),
            ("CreatedAt"@, "创建时间"@),
            ("UpdatedBy"@, "更新人"@),
            ("UpdatedAt"@, "更新时间"@),
        ],
{
    let before = merged(items, offers);
    assert(offers.push(c).drop_last() =~= offers);
    assert(offers.push(c).last() == c);
    if has_name(before, c.0) {
        let i = choose|i: int|
            0 <= i < before.len() && text::same_letters((#[trigger] before[i]).0, c.0);
        text::same_word_iff(before[i].0, c.0);
    }
    if exists|i: int| 0 <= i < before.len() && text::same_word((#[trigger] before[i]).0, c.0) {
        let i = choose|i: int|
            0 <= i < before.len() && text::same_word((#[trigger] before[i]).0, c.0);
        text::same_word_iff(before[i].0, c.0);
        assert(text::same_letters(before[i].0, c.0));
    }
}

/// A label is called by the title of its first definition, without the white
/// space around it, and by its name where that is blank or there is none.
pub proof fn labels_are_called_by_their_titles(
    schemas: Seq<LabelSchema>,
    name: Seq<char>,
    i: int,
    a: Seq<char>,
    m: Seq<char>,
    b: Seq<char>,
)
    requires
        0 <= i <= schemas.len(),
        forall|j: int| 0 <= j < i ==> (#[trigger] schemas[j]).name@ != name,
        text::all_white(a),
        text::all_white(b),
        m.len() > 0 ==> !text::is_white(m[0]) && !text::is_white(m.last()),
        i < schemas.len() ==> schemas[i].name@ == name && schemas[i].title@ == a + m + b,
    ensures
        label_title(schemas, name) == (if i < schemas.len() && m.len() > 0 {
            m
        } else {
            name
        }),
    decreases i,
{
    text::trimmed_is_the_middle(a, m, b);
    if i > 0 {
        let t = schemas.skip(1);
        assert(schemas[0].name@ != name);
        if i < schemas.len() {
            assert(t[i - 1] == schemas[i]);
        }
        assert forall|j: int| 0 <= j < i - 1 implies (#[trigger] t[j]).name@ != name by {
            assert(t[j] == schemas[j + 1]);
        }
        labels_are_called_by_their_titles(t, name, i - 1, a, m, b);
    }
}

/// Whether a text is one of the comparisons.
pub open spec fn is_comparison(op: Seq<char>) -> bool {
    op == seq!['>', '='] || op == seq!['<', '='] || op == seq!['!', '='] || op == seq!['>'] || op
        == seq!['<'] || op == seq!['=']
}

/// Whether a text is a key: letters, numerals, underscores, dashes and dots.
pub open spec fn is_key(k: Seq<char>) -> bool {
    &&& k.len() > 0
    &&& !text::is_white(k.last())
    &&& forall|i: int| 0 <= i < k.len() ==> is_key_char(#[trigger] k[i])
}

/// A key, a comparison and white space at the end of an expression wait for a
/// value of the key, with white space between the two or not.
pub proof fn comparisons_wait_for_values(
    p: Seq<char>,
    k: Seq<char>,
    gap: Seq<char>,
    op: Seq<char>,
    w: Seq<char>,
)
    requires
        p.len() > 0 ==> !is_key_char(p.last()),
        is_key(k),
        text::all_white(gap),
        is_comparison(op),
        text::all_white(w),
        w.len() > 0,
    ensures
        open_comparison(p + k + gap + op + w) == Some(k),
        open_comparison(p + k + gap + op) is None,
{
    reveal_strlit(">=");
    reveal_strlit("<=");
    reveal_strlit("!=");
    reveal_strlit(">");
    reveal_strlit("<");
    reveal_strlit("=");
    let head = p + k + gap;
    let t = head + op;
    let s = t + w;
    assert(p + k + gap + op + w =~= s);
    assert(t.last() == op.last());
    text::trim_end_of(t, w);
    text::trim_end_of(t, seq![]);
    assert(t + seq![] =~= t);
    let before = head.last();
    assert(before != '>' && before != '<' && before != '!') by {
        if gap.len() > 0 {
            assert(text::is_white(gap[gap.len() - 1]));
            assert(before == gap[gap.len() - 1]);
        } else {
            assert(before == k[k.len() - 1]);
            assert(is_key_char(k[k.len() - 1]));
        }
    }
    let n = op.len() as int;
    assert(t.skip(t.len() - n) =~= op);
    assert(t.take(t.len() - n) =~= head);
    if n == 1 {
        let two = t.skip(t.len() - 2);
        assert(two[0] == before);
        assert(">="@[0] == '>' && "<="@[0] == '<' && "!="@[0] == '!');
        assert(op =~= ">"@ || op =~= "<"@ || op =~= "="@);
    } else {
        assert(op =~= ">="@ || op =~= "<="@ || op =~= "!="@);
    }
    assert(comparison_len(t) == n);
    assert((p + k).last() == k.last());
    text::trim_end_of(p + k, gap);
    key_is_last(p, k);
}

proof fn key_is_last(p: Seq<char>, k: Seq<char>)
    requires
        p.len() > 0 ==> !is_key_char(p.last()),
        forall|i: int| 0 <= i < k.len() ==> is_key_char(#[trigger] k[i]),
    ensures
        last_key(p + k) == k,
    decreases k.len(),
{
    let s = p + k;
    if k.len() == 0 {
        assert(s =~= p);
        assert(last_key(s) =~= k);
    } else {
        let d = k.drop_last();
        assert forall|i: int| 0 <= i < d.len() implies is_key_char(#[trigger] d[i]) by {
            assert(d[i] == k[i]);
        }
        key_is_last(p, d);
        assert(s.drop_last() =~= p + d);
        assert(s.last() == k[k.len() - 1]);
        assert(d.push(k.last()) =~= k);
    }
}

/// The two dates of an entry are dates with a time; a label is of the kind of
/// its type, that of the first of the name, where it is one of times. The case
/// of letters does not count.
pub proof fn keys_have_kinds(schemas: Seq<LabelSchema>, key: Seq<char>, i: int)
    requires
        0 <= i <= schemas.len(),
        forall|j: int| 0 <= j < i ==> !text::same_word((#[trigger] schemas[j]).name@, key),
        i < schemas.len() ==> text::same_word(schemas[i].name@, key),
    ensures
        text::same_word(key, "CreatedAt"@) || text::same_word(key, "UpdatedAt"@) ==> kind_of_key(
            schemas,
            key,
        ) == Some(TimeKind::DateTime),
        !text::same_word(key, "CreatedAt"@) && !text::same_word(key, "UpdatedAt"@) ==> {
            let vt = schemas[i].value_type@;
            kind_of_key(schemas, key) == if i == schemas.len() {
                None
            } else if vt == "date"@ {
                Some(TimeKind::Date)
            } else if vt == "time"@ {
                Some(TimeKind::Time)
            } else if vt == "datetime"@ {
                Some(TimeKind::DateTime)
            } else {
                None
            }
        },
{
    text::same_word_iff(key, "CreatedAt"@);
    text::same_word_iff(key, "UpdatedAt"@);
    label_kind(schemas, key, i);
}

proof fn label_kind(schemas: Seq<LabelSchema>, key: Seq<char>, i: int)
    requires
        0 <= i <= schemas.len(),
        forall|j: int| 0 <= j < i ==> !text::same_word((#[trigger] schemas[j]).name@, key),
        i < schemas.len() ==> text::same_word(schemas[i].name@, key),
    ensures
        kind_of_label(schemas, key) == (if i == schemas.len() {
            None
        } else {
            kind_of_type(schemas[i].value_type@)
        }),
    decreases i,
{
    if i > 0 {
        let t = schemas.skip(1);
        assert(!text::same_word(schemas[0].name@, key));
        text::same_word_iff(schemas[0].name@, key);
        if i < schemas.len() {
            assert(t[i - 1] == schemas[i]);
        }
        assert forall|j: int| 0 <= j < i - 1 implies !text::same_word(
            (#[trigger] t[j]).name@,
            key,
        ) by {
            assert(t[j] == schemas[j + 1]);
        }
        label_kind(t, key, i - 1);
    } else if schemas.len() > 0 {
        text::same_word_iff(schemas[0].name@, key);
    }
}

/// A picked time is written at the end of the expression, in quotes and with a
/// blank behind: a date as it is, a time with seconds, and a date and a time
/// with a blank between them. Nothing picked is nothing written.
pub proof fn picked_times_are_written(s: Seq<char>, day: Seq<char>, clock: Seq<char>)
    requires
        text::all_ascii(day),
        text::all_ascii(clock),
        day.len() == 10,
        !day.contains('T'),
        clock.len() == 5,
    ensures
        with_time(s, text::byte_len(s), TimeKind::Date, day) == Some(
            s + seq!['"'] + day + seq!['"', ' '],
        ),
        with_time(s, text::byte_len(s), TimeKind::Time, clock) == Some(
            s + seq!['"'] + clock + seq![':', '0', '0'] + seq!['"', ' '],
        ),
        with_time(s, text::byte_len(s), TimeKind::DateTime, day + seq!['T'] + clock) == Some(
            s + seq!['"'] + day + seq![' '] + clock + seq![':', '0', '0'] + seq!['"', ' '],
        ),
        with_time(s, text::byte_len(s), TimeKind::Date, seq![]) is None,
{
    reveal_strlit("\"");
    reveal_strlit("\" ");
    assert("\""@ =~= seq!['"']);
    assert("\" "@ =~= seq!['"', ' ']);
    text::boundary_props(s, text::byte_len(s));
    text::boundary_props(s, 0);
    assert(s.subrange(0, s.len() as int) =~= s);
    crate::draft_laws::types_apart();
    crate::draft_laws::stored_fields(day, clock);
    let c = clock + seq![':', '0', '0'];
    assert(s + "\""@ + c + "\" "@ =~= s + seq!['"'] + clock + seq![':', '0', '0'] + seq!['"', ' ']);
    let d = day + seq![' '] + clock + seq![':', '0', '0'];
    assert(s + "\""@ + d + "\" "@ =~= s + seq!['"'] + day + seq![' '] + clock + seq![':', '0', '0']
        + seq!['"', ' ']);
}

/// The labels of a view, and those of a workspace, are offered in their order,
/// each under its name and by what it is called.
pub proof fn labels_are_offered_in_order(
    names: Seq<Seq<char>>,
    name: Seq<char>,
    schemas: Seq<LabelSchema>,
    s: LabelSchema,
)
    ensures
        view_offers(names.push(name), schemas) == view_offers(names, schemas).push(
            (name, label_title(schemas, name)),
        ),
        schema_offers(schemas.push(s)) == schema_offers(schemas).push(
            (
                s.name@,
                if text::all_white(s.title@) {
                    s.name@
                } else {
                    s.title@
                },
            ),
        ),
{
    text::blank_is_white(s.title@);
    let all = names.push(name);
    assert forall|k: int| 0 <= k < names.len() implies all[k] == names[k] by {}
    assert(view_offers(all, schemas) =~= view_offers(names, schemas).push(
        (name, label_title(schemas, name)),
    ));
    let more = schemas.push(s);
    assert forall|k: int| 0 <= k < schemas.len() implies more[k] == schemas[k] by {}
    assert(schema_offers(more) =~= schema_offers(schemas).push((s.name@, schema_title(s))));
}

} // verus!
