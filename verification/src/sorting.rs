//! The columns that a view is sorted by, and how a change of them is saved.

use vstd::prelude::*;

use crate::decimal;
use crate::graphql_client::{LabelSchema, ViewSort};
use crate::text;
use crate::timeline;

verus! {

/// A click on the head of a column.
#[derive(Debug, Clone)]
pub struct SortRequest {
    pub field: String,
    /// With the shift key: the column is joined to those before.
    pub additive: bool,
    /// A double click: the column is taken out.
    pub remove: bool,
}

/// The content of a list of sort columns: fields and whether each is
/// descending.
pub open spec fn sorts_view(v: Seq<ViewSort>) -> Seq<(Seq<char>, bool)> {
    Seq::new(v.len(), |i: int| (v[i].field@, v[i].desc))
}

/// The position of a field, or the number of columns.
pub open spec fn field_at(sorts: Seq<(Seq<char>, bool)>, field: Seq<char>) -> int
    decreases sorts.len(),
{
    if sorts.len() == 0 || sorts[0].0 == field {
        0
    } else {
        1 + field_at(sorts.skip(1), field)
    }
}

/// What [`field_at`] finds.
pub proof fn field_at_props(sorts: Seq<(Seq<char>, bool)>, field: Seq<char>)
    ensures
        0 <= field_at(sorts, field) <= sorts.len(),
        field_at(sorts, field) < sorts.len() ==> sorts[field_at(sorts, field)].0 == field,
        forall|k: int| 0 <= k < field_at(sorts, field) ==> (#[trigger] sorts[k]).0 != field,
    decreases sorts.len(),
{
    if sorts.len() > 0 && sorts[0].0 != field {
        let t = sorts.skip(1);
        field_at_props(t, field);
        assert forall|k: int| 0 <= k < field_at(sorts, field) implies (#[trigger] sorts[k]).0
            != field by {
            if k > 0 {
                assert(t[k - 1] == sorts[k]);
            }
        }
    }
}

/// [`field_at`] is the only position with its property.
proof fn field_at_is(sorts: Seq<(Seq<char>, bool)>, field: Seq<char>, n: int)
    requires
        0 <= n <= sorts.len(),
        n < sorts.len() ==> sorts[n].0 == field,
        forall|k: int| 0 <= k < n ==> (#[trigger] sorts[k]).0 != field,
    ensures
        field_at(sorts, field) == n,
{
    field_at_props(sorts, field);
    let m = field_at(sorts, field);
    if m < n {
        assert(sorts[m].0 != field);
    } else if n < m {
        assert(sorts[n].0 != field);
    }
}

/// The columns without a field.
pub open spec fn without_field(
    sorts: Seq<(Seq<char>, bool)>,
    field: Seq<char>,
) -> Seq<(Seq<char>, bool)>
    decreases sorts.len(),
{
    if sorts.len() == 0 {
        seq![]
    } else if sorts.last().0 == field {
        without_field(sorts.drop_last(), field)
    } else {
        without_field(sorts.drop_last(), field).push(sorts.last())
    }
}

/// The columns after a click: a double click takes the field out; else a field
/// that is there turns its direction, and a new one is joined last with the
/// shift key, or stands alone, descending either way.
pub open spec fn after_click(
    sorts: Seq<(Seq<char>, bool)>,
    field: Seq<char>,
    additive: bool,
    remove: bool,
) -> Seq<(Seq<char>, bool)> {
    let i = field_at(sorts, field);
    if remove {
        without_field(sorts, field)
    } else if 0 <= i < sorts.len() {
        sorts.update(i, (field, !sorts[i].1))
    } else if additive {
        sorts.push((field, true))
    } else {
        seq![(field, true)]
    }
}

/// A copy of a sort column.
fn copy_sort(s: &ViewSort) -> (r: ViewSort)
    ensures
        r.field@ == s.field@,
        r.desc == s.desc,
{
    ViewSort { field: s.field.clone(), desc: s.desc }
}

/// A copy of the columns.
pub fn copy_sorts(sorts: &Vec<ViewSort>) -> (r: Vec<ViewSort>)
    ensures
        sorts_view(r@) == sorts_view(sorts@),
{
    let mut out: Vec<ViewSort> = Vec::new();
    let mut i: usize = 0;
    while i < sorts.len()
        invariant
            i <= sorts@.len(),
            out@.len() == i,
            forall|k: int|
                0 <= k < i ==> (#[trigger] out@[k]).field@ == sorts@[k].field@ && out@[k].desc
                    == sorts@[k].desc,
        decreases sorts@.len() - i,
    {
        out.push(copy_sort(&sorts[i]));
        i += 1;
    }
    assert(sorts_view(out@) =~= sorts_view(sorts@));
    out
}

/// The position of a field among the columns.
pub fn find_field(sorts: &[ViewSort], field: &str) -> (r: Option<usize>)
    ensures
        match r {
            Some(i) => i == field_at(sorts_view(sorts@), field@) && i < sorts.len(),
            None => field_at(sorts_view(sorts@), field@) == sorts@.len(),
        },
{
    let ghost all = sorts_view(sorts@);
    let mut i: usize = 0;
    while i < sorts.len()
        invariant
            i <= sorts@.len(),
            all == sorts_view(sorts@),
            forall|k: int| 0 <= k < i ==> (#[trigger] all[k]).0 != field@,
        decreases sorts@.len() - i,
    {
        assert(all[i as int].0 == sorts@[i as int].field@);
        if text::same(sorts[i].field.as_str(), field) {
            proof {
                field_at_is(all, field@, i as int);
            }
            return Some(i);
        }
        i += 1;
    }
    proof {
        field_at_is(all, field@, i as int);
    }
    None
}

/// The columns after a click.
pub fn apply_sort(sorts: &Vec<ViewSort>, req: &SortRequest) -> (r: Vec<ViewSort>)
    ensures
        sorts_view(r@) == after_click(
            sorts_view(sorts@),
            req.field@,
            req.additive,
            req.remove,
        ),
{
    let ghost all = sorts_view(sorts@);
    let pos = find_field(sorts.as_slice(), req.field.as_str());
    let mut out: Vec<ViewSort> = Vec::new();
    assert(sorts_view(out@) =~= seq![]);
    if !req.remove && pos.is_none() && !req.additive {
        out.push(ViewSort { field: req.field.clone(), desc: true });
        assert(sorts_view(out@) =~= seq![(req.field@, true)]);
        return out;
    }
    let ghost flipped = match pos {
        Some(p) => all.update(p as int, (req.field@, !all[p as int].1)),
        None => all,
    };
    let mut i: usize = 0;
    while i < sorts.len()
        invariant
            i <= sorts@.len(),
            all == sorts_view(sorts@),
            match pos {
                Some(p) => p == field_at(all, req.field@) && p < sorts@.len(),
                None => field_at(all, req.field@) == sorts@.len(),
            },
            flipped == (match pos {
                Some(p) => all.update(p as int, (req.field@, !all[p as int].1)),
                None => all,
            }),
            sorts_view(out@) == (if req.remove {
                without_field(all.take(i as int), req.field@)
            } else {
                flipped.take(i as int)
            }),
        decreases sorts@.len() - i,
    {
        let ghost before = out@;
        assert(all.take(i + 1).drop_last() =~= all.take(i as int));
        assert(all.take(i + 1).last() == all[i as int]);
        if req.remove {
            if !text::same(sorts[i].field.as_str(), req.field.as_str()) {
                out.push(copy_sort(&sorts[i]));
                assert(sorts_view(out@) =~= sorts_view(before).push(all[i as int]));
            }
        } else {
            let mut s = copy_sort(&sorts[i]);
            if let Some(p) = pos {
                if i == p {
                    s = ViewSort { field: req.field.clone(), desc: !sorts[i].desc };
                }
            }
            out.push(s);
            assert(sorts_view(out@) =~= sorts_view(before).push(flipped[i as int]));
            assert(sorts_view(out@) =~= flipped.take(i + 1));
        }
        i += 1;
    }
    assert(all.take(i as int) =~= all);
    assert(flipped.take(i as int) =~= flipped);
    if !req.remove && pos.is_none() {
        let ghost before = out@;
        out.push(ViewSort { field: req.field.clone(), desc: true });
        assert(sorts_view(out@) =~= sorts_view(before).push((req.field@, true)));
    }
    out
}

// ---------------------------------------------------------------------------
// Marks
// ---------------------------------------------------------------------------

/// The signs of the first nine ranks.
pub const PRIO_MARKS: [&'static str; 9] = [
    "①",
    "②",
    "③",
    "④",
    "⑤",
    "⑥",
    "⑦",
    "⑧",
    "⑨",
];

/// The sign of a rank: beyond nine, its number in brackets.
pub open spec fn rank_mark(i: int) -> Seq<char> {
    if 0 <= i < 9 {
        PRIO_MARKS@[i]@
    } else {
        "("@ + decimal::decimal((i + 1) as nat) + ")"@
    }
}

/// The sign of a rank.
pub fn prio_mark(i: usize) -> (r: String)
    requires
        i < usize::MAX,
    ensures
        r@ == rank_mark(i as int),
{
    if i < 9 {
        let marks = PRIO_MARKS;
        marks[i].to_owned()
    } else {
        let mut out = String::new();
        out.push_str("(");
        decimal::push_decimal(&mut out, (i + 1) as u64);
        out.push_str(")");
        out
    }
}

/// The sign of a direction.
pub open spec fn direction_mark(desc: bool) -> Seq<char> {
    if desc {
        "↓"@
    } else {
        "↑"@
    }
}

/// The sign of a direction.
fn direction(desc: bool) -> (r: &'static str)
    ensures
        r@ == direction_mark(desc),
{
    if desc {
        "↓"
    } else {
        "↑"
    }
}

/// The mark on the head of a column.
pub open spec fn mark_of(sorts: Seq<(Seq<char>, bool)>, field: Seq<char>) -> Seq<char> {
    let i = field_at(sorts, field);
    if 0 <= i < sorts.len() {
        " "@ + rank_mark(i) + " "@ + direction_mark(sorts[i].1)
    } else {
        ""@
    }
}

/// The mark on the head of a column: its rank and direction, or nothing.
pub fn sort_mark(sorts: &[ViewSort], field: &str) -> (r: String)
    ensures
        r@ == mark_of(sorts_view(sorts@), field@),
{
    match find_field(sorts, field) {
        Some(i) => {
            let mut out = " ".to_owned();
            out.push_str(prio_mark(i).as_str());
            out.push_str(" ");
            out.push_str(direction(sorts[i].desc));
            out
        },
        None => "".to_owned(),
    }
}

/// What a field is called: built-in ones have names of their own, a label goes
/// by its title.
pub open spec fn field_label(field: Seq<char>, schemas: Seq<LabelSchema>) -> Seq<char> {
    if field == "title"@ {
        "标题"@
    } else if field == "createdAt"@ {
        "创建时间"@
    } else if field == "createdBy"@ {
        "创建人"@
    } else if field == "updatedBy"@ {
        "更新人"@
    } else if field == "updatedAt"@ {
        "更新时间"@
    } else {
        let i = timeline::schema_at(schemas, field);
        if 0 <= i < schemas.len() {
            schemas[i].title@
        } else {
            field
        }
    }
}

/// What a field is called.
pub fn sort_field_label(field: &str, schemas: &[LabelSchema]) -> (r: String)
    ensures
        r@ == field_label(field@, schemas@),
{
    if text::same(field, "title") {
        "标题".to_owned()
    } else if text::same(field, "createdAt") {
        "创建时间".to_owned()
    } else if text::same(field, "createdBy") {
        "创建人".to_owned()
    } else if text::same(field, "updatedBy") {
        "更新人".to_owned()
    } else if text::same(field, "updatedAt") {
        "更新时间".to_owned()
    } else {
        match timeline::find_schema(schemas, field) {
            Some(s) => s.title.clone(),
            None => field.to_owned(),
        }
    }
}

/// What is said of one column.
pub open spec fn column_text(
    sorts: Seq<(Seq<char>, bool)>,
    schemas: Seq<LabelSchema>,
    i: int,
) -> Seq<char> {
    rank_mark(i) + " "@ + field_label(sorts[i].0, schemas) + " "@ + direction_mark(sorts[i].1)
}

/// What is said of the order of a view.
pub open spec fn order_text(
    sorts: Seq<(Seq<char>, bool)>,
    schemas: Seq<LabelSchema>,
) -> Seq<char> {
    if sorts.len() == 0 {
        "排序：默认"@
    } else {
        "排序："@ + text::joined(
            Seq::new(sorts.len(), |i: int| column_text(sorts, schemas, i)),
            "  "@,
        )
    }
}

/// What is said of the order of a view.
pub fn sort_summary(sorts: &Vec<ViewSort>, schemas: &[LabelSchema]) -> (r: String)
    ensures
        r@ == order_text(sorts_view(sorts@), schemas@),
{
    if sorts.len() == 0 {
        return "排序：默认".to_owned();
    }
    let ghost all = sorts_view(sorts@);
    let ghost want = Seq::new(all.len(), |i: int| column_text(all, schemas@, i));
    let mut parts: Vec<String> = Vec::new();
    let mut i: usize = 0;
    while i < sorts.len()
        invariant
            i <= sorts@.len(),
            all == sorts_view(sorts@),
            want == Seq::new(all.len(), |i: int| column_text(all, schemas@, i)),
            text::contents(parts@) == want.take(i as int),
        decreases sorts@.len() - i,
    {
        let ghost before = parts@;
        let mut s = prio_mark(i);
        s.push_str(" ");
        s.push_str(sort_field_label(sorts[i].field.as_str(), schemas).as_str());
        s.push_str(" ");
        s.push_str(direction(sorts[i].desc));
        assert(s@ =~= column_text(all, schemas@, i as int));
        parts.push(s);
        assert(text::contents(parts@) =~= text::contents(before).push(want[i as int]));
        i += 1;
        assert(text::contents(parts@) =~= want.take(i as int));
    }
    assert(want.take(i as int) =~= want);
    text::concat2("排序：", text::join(&parts, "  ").as_str())
}

// ---------------------------------------------------------------------------
// Saving
// ---------------------------------------------------------------------------

/// What is being saved, one at a time: while a save is under way only the
/// newest change waits.
#[derive(Debug, Clone)]
pub struct SaveQueue<T> {
    pub busy: bool,
    pub pending: Option<T>,
}

impl<T> SaveQueue<T> {
    /// Whether nothing waits without a save under way.
    pub open spec fn wf(self) -> bool {
        !self.busy ==> self.pending is None
    }

    /// A queue with nothing to save.
    pub fn new() -> (r: SaveQueue<T>)
        ensures
            r.wf(),
            !r.busy,
    {
        SaveQueue { busy: false, pending: None }
    }

    /// Asks for a change to be saved: gives it back where it is to be sent now.
    /// Changes of the default view are not saved; while a save is under way the
    /// change waits in place of the one that waited.
    pub fn offer(&mut self, item: T, is_default: bool) -> (r: Option<T>)
        requires
            old(self).wf(),
        ensures
            final(self).wf(),
            is_default ==> r is None && *final(self) == *old(self),
            !is_default && old(self).busy ==> r is None && final(self).busy
                && final(self).pending == Some(item),
            !is_default && !old(self).busy ==> r == Some(item) && final(self).busy
                && final(self).pending is None,
    {
        if is_default {
            return None;
        }
        if self.busy {
            self.pending = Some(item);
            return None;
        }
        self.busy = true;
        Some(item)
    }

    /// Ends a save: gives the change that waited, to be sent now, or ends the
    /// work.
    pub fn done(&mut self) -> (r: Option<T>)
        requires
            old(self).wf(),
            old(self).busy,
        ensures
            final(self).wf(),
            r == old(self).pending,
            final(self).pending is None,
            final(self).busy == (old(self).pending is Some),
    {
        let mut next: Option<T> = None;
        std::mem::swap(&mut next, &mut self.pending);
        if next.is_none() {
            self.busy = false;
        }
        next
    }
}

/// What is said where an order could not be saved.
pub fn save_failed(e: &str) -> (r: String)
    ensures
        r@ == "排序未能保存："@ + e@,
{
    text::concat2("排序未能保存：", e)
}

// ---------------------------------------------------------------------------
// Laws
// ---------------------------------------------------------------------------

/// Whether no field is sorted by twice.
pub open spec fn fields_once(sorts: Seq<(Seq<char>, bool)>) -> bool {
    forall|i: int, j: int|
        0 <= i < j < sorts.len() ==> (#[trigger] sorts[i]).0 != (#[trigger] sorts[j]).0
}

/// What is left without a field.
proof fn without_field_props(sorts: Seq<(Seq<char>, bool)>, field: Seq<char>)
    ensures
        without_field(sorts, field).len() <= sorts.len(),
        forall|i: int|
            0 <= i < without_field(sorts, field).len() ==> (#[trigger] without_field(
                sorts,
                field,
            )[i]).0 != field && sorts.contains(without_field(sorts, field)[i]),
        fields_once(sorts) ==> fields_once(without_field(sorts, field)),
    decreases sorts.len(),
{
    if sorts.len() > 0 {
        let d = sorts.drop_last();
        without_field_props(d, field);
        let r = without_field(sorts, field);
        let rd = without_field(d, field);
        assert(fields_once(sorts) ==> fields_once(d));
        assert forall|i: int| 0 <= i < r.len() implies (#[trigger] r[i]).0 != field
            && sorts.contains(r[i]) by {
            if i < rd.len() {
                assert(r[i] == rd[i]);
                let k = choose|k: int| 0 <= k < d.len() && d[k] == rd[i];
                assert(sorts[k] == r[i]);
            } else {
                assert(sorts[sorts.len() - 1] == r[i]);
            }
        }
        if fields_once(sorts) {
            assert forall|i: int, j: int| 0 <= i < j < r.len() implies (#[trigger] r[i]).0 != (
            #[trigger] r[j]).0 by {
                assert(r[i] == rd[i]);
                if j < rd.len() {
                    assert(r[j] == rd[j]);
                } else {
                    let k = choose|k: int| 0 <= k < d.len() && d[k] == rd[i];
                    assert(sorts[k] == r[i]);
                    assert(sorts[sorts.len() - 1] == r[j]);
                }
            }
        }
    }
}

/// Clicks keep every field at most once; a double click leaves the field out,
/// any other click leaves it in.
pub proof fn clicks_keep_fields_once(
    sorts: Seq<(Seq<char>, bool)>,
    field: Seq<char>,
    additive: bool,
    remove: bool,
)
    requires
        fields_once(sorts),
    ensures
        fields_once(after_click(sorts, field, additive, remove)),
        field_at(after_click(sorts, field, additive, remove), field) < after_click(
            sorts,
            field,
            additive,
            remove,
        ).len() <==> !remove,
{
    let r = after_click(sorts, field, additive, remove);
    field_at_props(sorts, field);
    without_field_props(sorts, field);
    field_at_props(r, field);
    let i = field_at(sorts, field);
    if remove {
        let m = field_at(r, field);
        if m < r.len() {
            assert(r[m].0 == field);
        }
    } else if i < sorts.len() {
        assert(r[i].0 == field);
        if field_at(r, field) == r.len() {
            assert(r[i].0 != field);
        }
    } else if additive {
        assert(r[sorts.len() as int].0 == field);
        if field_at(r, field) == r.len() {
            assert(r[sorts.len() as int].0 != field);
        }
    } else {
        assert(r[0].0 == field);
    }
}

/// A second click on a column that was there turns its direction back.
pub proof fn second_click_restores(sorts: Seq<(Seq<char>, bool)>, field: Seq<char>, additive: bool)
    requires
        field_at(sorts, field) < sorts.len(),
    ensures
        after_click(after_click(sorts, field, additive, false), field, additive, false) == sorts,
{
    field_at_props(sorts, field);
    let i = field_at(sorts, field);
    let once = after_click(sorts, field, additive, false);
    field_at_is(once, field, i);
    assert(once.update(i, (field, !once[i].1)) =~= sorts);
}

/// A click on a column that is sorted by turns its direction and leaves the
/// columns around it.
pub proof fn clicks_turn_a_column(
    a: Seq<(Seq<char>, bool)>,
    field: Seq<char>,
    desc: bool,
    b: Seq<(Seq<char>, bool)>,
    additive: bool,
)
    requires
        forall|k: int| 0 <= k < a.len() ==> (#[trigger] a[k]).0 != field,
    ensures
        after_click(a + seq![(field, desc)] + b, field, additive, false) == a + seq![
            (field, !desc),
        ] + b,
{
    let s = a + seq![(field, desc)] + b;
    let n = a.len() as int;
    assert forall|k: int| 0 <= k < n implies (#[trigger] s[k]).0 != field by {
        assert(s[k] == a[k]);
    }
    assert(s[n] == (field, desc));
    field_at_is(s, field, n);
    assert(s.update(n, (field, !desc)) =~= a + seq![(field, !desc)] + b);
}

/// A click on another column sorts by it, from the greatest down: beside those
/// before with the shift key, alone without it. A double click on it changes
/// nothing.
pub proof fn clicks_take_a_column_in(sorts: Seq<(Seq<char>, bool)>, field: Seq<char>)
    requires
        forall|k: int| 0 <= k < sorts.len() ==> (#[trigger] sorts[k]).0 != field,
    ensures
        after_click(sorts, field, true, false) == sorts + seq![(field, true)],
        after_click(sorts, field, false, false) == seq![(field, true)],
        after_click(sorts, field, true, true) == sorts,
        after_click(sorts, field, false, true) == sorts,
{
    field_at_is(sorts, field, sorts.len() as int);
    assert(sorts.push((field, true)) =~= sorts + seq![(field, true)]);
    without_none(sorts, field);
}

/// A double click on a column that is sorted by takes it out and leaves the
/// columns around it.
pub proof fn double_clicks_take_a_column_out(
    a: Seq<(Seq<char>, bool)>,
    field: Seq<char>,
    desc: bool,
    b: Seq<(Seq<char>, bool)>,
    additive: bool,
)
    requires
        forall|k: int| 0 <= k < a.len() ==> (#[trigger] a[k]).0 != field,
        forall|k: int| 0 <= k < b.len() ==> (#[trigger] b[k]).0 != field,
    ensures
        after_click(a + seq![(field, desc)] + b, field, additive, true) == a + b,
    decreases b.len(),
{
    let s = a + seq![(field, desc)] + b;
    if b.len() == 0 {
        assert(s.drop_last() =~= a);
        assert(s.last() == (field, desc));
        without_none(a, field);
        assert(a + b =~= a);
    } else {
        let c = b.drop_last();
        assert forall|k: int| 0 <= k < c.len() implies (#[trigger] c[k]).0 != field by {
            assert(c[k] == b[k]);
        }
        double_clicks_take_a_column_out(a, field, desc, c, additive);
        assert(s.drop_last() =~= a + seq![(field, desc)] + c);
        assert(s.last() == b[b.len() - 1]);
        assert((a + c).push(b.last()) =~= a + b);
    }
}

proof fn without_none(sorts: Seq<(Seq<char>, bool)>, field: Seq<char>)
    requires
        forall|k: int| 0 <= k < sorts.len() ==> (#[trigger] sorts[k]).0 != field,
    ensures
        without_field(sorts, field) == sorts,
    decreases sorts.len(),
{
    if sorts.len() > 0 {
        let d = sorts.drop_last();
        assert forall|k: int| 0 <= k < d.len() implies (#[trigger] d[k]).0 != field by {
            assert(d[k] == sorts[k]);
        }
        without_none(d, field);
        assert(sorts.last() == sorts[sorts.len() - 1]);
        assert(d.push(sorts.last()) =~= sorts);
    }
}

/// The ranks of columns are signed from one on, and the directions by arrows.
pub proof fn ranks_are_signed(i: int)
    ensures
        rank_mark(0) == "①"@,
        rank_mark(1) == "②"@,
        rank_mark(2) == "③"@,
        rank_mark(3) == "④"@,
        rank_mark(4) == "⑤"@,
        rank_mark(5) == "⑥"@,
        rank_mark(6) == "⑦"@,
        rank_mark(7) == "⑧"@,
        rank_mark(8) == "⑨"@,
        i >= 9 ==> rank_mark(i) == seq!['('] + decimal::numeral(i + 1) + seq![')'],
        direction_mark(true) == "↓"@,
        direction_mark(false) == "↑"@,
{
    reveal_strlit("(");
    reveal_strlit(")");
    assert("("@ =~= seq!['(']);
    assert(")"@ =~= seq![')']);
}

/// A field is called by the title of the first label of its name, or by itself
/// where there is none; the fields of entries have names of their own.
pub proof fn fields_are_named(field: Seq<char>, schemas: Seq<LabelSchema>, i: int)
    ensures
        field == "title"@ ==> field_label(field, schemas) == "标题"@,
        field == "createdAt"@ ==> field_label(field, schemas) == "创建时间"@,
        field == "createdBy"@ ==> field_label(field, schemas) == "创建人"@,
        field == "updatedBy"@ ==> field_label(field, schemas) == "更新人"@,
        field == "updatedAt"@ ==> field_label(field, schemas) == "更新时间"@,
        field != "title"@ && field != "createdAt"@ && field != "createdBy"@ && field != "updatedBy"@
            && field != "updatedAt"@ ==> {
            &&& 0 <= i < schemas.len() && schemas[i].name@ == field && (forall|j: int|
                0 <= j < i ==> (#[trigger] schemas[j]).name@ != field) ==> field_label(
                field,
                schemas,
            ) == schemas[i].title@
            &&& (forall|j: int| 0 <= j < schemas.len() ==> (#[trigger] schemas[j]).name@ != field)
                ==> field_label(field, schemas) == field
        },
{
    reveal_strlit("title");
    reveal_strlit("createdAt");
    reveal_strlit("createdBy");
    reveal_strlit("updatedAt");
    reveal_strlit("updatedBy");
    assert("title"@[0] == 't' && "createdAt"@[0] == 'c' && "createdAt"@[7] == 'A' && "createdBy"@[0]
        == 'c' && "createdBy"@[7] == 'B' && "updatedAt"@[0] == 'u' && "updatedAt"@[7] == 'A'
        && "updatedBy"@[0] == 'u' && "updatedBy"@[7] == 'B');
    if 0 <= i < schemas.len() && schemas[i].name@ == field && (forall|j: int|
        0 <= j < i ==> (#[trigger] schemas[j]).name@ != field) {
        crate::timeline_laws::schema_is(schemas, i, field);
    }
    if forall|j: int| 0 <= j < schemas.len() ==> (#[trigger] schemas[j]).name@ != field {
        crate::timeline_laws::schema_is(schemas, schemas.len() as int, field);
    }
}

/// What is said of the order of a view: its columns in their order, each with
/// its rank, what its field is called, and its direction.
pub proof fn orders_are_told(
    sorts: Seq<(Seq<char>, bool)>,
    field: Seq<char>,
    desc: bool,
    schemas: Seq<LabelSchema>,
)
    ensures
        order_text(seq![], schemas) == "排序：默认"@,
        order_text(sorts.push((field, desc)), schemas) == (if sorts.len() == 0 {
            "排序："@
        } else {
            order_text(sorts, schemas) + seq![' ', ' ']
        }) + rank_mark(sorts.len() as int) + seq![' '] + field_label(field, schemas) + seq![' ']
            + direction_mark(desc),
{
    reveal_strlit(" ");
    reveal_strlit("  ");
    assert(" "@ =~= seq![' ']);
    assert("  "@ =~= seq![' ', ' ']);
    let all = sorts.push((field, desc));
    let n = sorts.len() as int;
    let old_parts = Seq::new(sorts.len(), |i: int| column_text(sorts, schemas, i));
    let parts = Seq::new(all.len(), |i: int| column_text(all, schemas, i));
    assert forall|i: int| 0 <= i < n implies column_text(all, schemas, i) == column_text(
        sorts,
        schemas,
        i,
    ) by {
        assert(all[i] == sorts[i]);
    }
    assert(all[n] == (field, desc));
    assert(parts =~= old_parts.push(column_text(all, schemas, n)));
    if n == 0 {
        assert(parts =~= seq![column_text(all, schemas, n)]);
        crate::draft_laws::text_of_one(column_text(all, schemas, n), "  "@);
    } else {
        crate::draft_laws::text_of_more(old_parts, column_text(all, schemas, n), "  "@);
    }
    assert(order_text(all, schemas) =~= (if sorts.len() == 0 {
        "排序："@
    } else {
        order_text(sorts, schemas) + seq![' ', ' ']
    }) + rank_mark(n) + seq![' '] + field_label(field, schemas) + seq![' '] + direction_mark(desc));
}

/// The head of a column that is sorted by bears its rank and its direction, that
/// of any other nothing.
pub proof fn heads_bear_marks(
    a: Seq<(Seq<char>, bool)>,
    field: Seq<char>,
    desc: bool,
    b: Seq<(Seq<char>, bool)>,
)
    requires
        forall|k: int| 0 <= k < a.len() ==> (#[trigger] a[k]).0 != field,
    ensures
        mark_of(a + seq![(field, desc)] + b, field) == seq![' '] + rank_mark(a.len() as int) + seq![
            ' ',
        ] + (if desc {
            "↓"@
        } else {
            "↑"@
        }),
        mark_of(a, field).len() == 0,
{
    reveal_strlit(" ");
    reveal_strlit("");
    assert(" "@ =~= seq![' ']);
    let s = a + seq![(field, desc)] + b;
    let n = a.len() as int;
    assert forall|k: int| 0 <= k < n implies (#[trigger] s[k]).0 != field by {
        assert(s[k] == a[k]);
    }
    assert(s[n] == (field, desc));
    field_at_is(s, field, n);
    field_at_is(a, field, n);
}

} // verus!
