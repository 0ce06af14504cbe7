//! Going through the entries of a view: pages, arrow keys, requests that
//! overtake each other, and work on several entries.

use vstd::prelude::*;

use crate::decimal;
use crate::selection;
use crate::text;

verus! {

/// How many entries stand on a page.
pub const PAGE_SIZE: i64 = 20;

/// How many pages are offered by number.
pub const PAGES_OFFERED: i64 = 9;

/// The number of pages that a number of entries takes; at least one.
pub open spec fn page_count(total: int) -> int {
    if total <= 0 {
        1
    } else {
        (total + PAGE_SIZE - 1) / PAGE_SIZE as int
    }
}

/// The number of pages that a number of entries takes.
pub fn pages(total: i64) -> (r: i64)
    ensures
        r == page_count(total as int),
        r >= 1,
{
    if total <= 0 {
        1
    } else {
        (total - 1) / PAGE_SIZE + 1
    }
}

/// The page before; the first has none.
pub open spec fn page_before(page: int) -> int {
    if page - 1 < 1 {
        1
    } else {
        page - 1
    }
}

/// The page after; the last has none.
pub open spec fn page_after(page: int, total: int) -> int {
    if page + 1 > page_count(total) {
        page_count(total)
    } else {
        page + 1
    }
}

/// The page before.
pub fn prev_page(page: i64) -> (r: i64)
    ensures
        r == page_before(page as int),
{
    if page < 2 {
        1
    } else {
        page - 1
    }
}

/// The page after.
pub fn next_page(page: i64, total: i64) -> (r: i64)
    ensures
        r == page_after(page as int, total as int),
{
    let last: i64 = pages(total);
    if page >= last {
        last
    } else {
        page + 1
    }
}

/// The last page that is offered by number; the first is one.
pub fn last_offered(total: i64) -> (r: i64)
    ensures
        r == (if page_count(total as int) > PAGES_OFFERED {
            PAGES_OFFERED as int
        } else {
            page_count(total as int)
        }),
{
    let last: i64 = pages(total);
    if last > PAGES_OFFERED {
        PAGES_OFFERED
    } else {
        last
    }
}

/// What is said of the number of entries.
pub fn total_text(total: i64) -> (r: String)
    ensures
        r@ == "共 "@ + decimal::numeral(total as int) + " 条"@,
{
    text::concat3("共 ", decimal::number_text(total).as_str(), " 条")
}

// ---------------------------------------------------------------------------
// Arrow keys
// ---------------------------------------------------------------------------

/// Whether a field of this type takes text, so that arrow keys are its own.
pub open spec fn is_text_field(t: Seq<char>) -> bool {
    t == "text"@ || t == "search"@ || t == "email"@ || t == "password"@ || t == "url"@
}

/// Tests [`is_text_field`].
pub fn takes_text(t: &str) -> (r: bool)
    ensures
        r == is_text_field(t@),
{
    text::same(t, "text") || text::same(t, "search") || text::same(t, "email") || text::same(
        t,
        "password",
    ) || text::same(t, "url")
}

/// Where an arrow key leads: a row of the page that is shown, and a page.
#[derive(Debug, Clone, Copy, PartialEq, Eq, Structural)]
pub struct Move {
    pub row: usize,
    pub page: i64,
}

/// Where an arrow key leads: to the row next to the selected one; over the edge
/// of the page to the page next to it, where there is one. With nothing
/// selected, to the first or the last row.
pub open spec fn arrow_move(
    codes: Seq<Seq<char>>,
    selected: Seq<char>,
    down: bool,
    page: int,
    total: int,
) -> (int, int) {
    let i = selection::first_of(codes, selected);
    let n = codes.len() as int;
    if 0 <= i < n {
        if down {
            if i + 1 < n {
                (i + 1, page)
            } else if page < page_count(total) {
                (0, page + 1)
            } else {
                (i, page)
            }
        } else {
            if i > 0 {
                (i - 1, page)
            } else if page > 1 {
                (0, page - 1)
            } else {
                (i, page)
            }
        }
    } else if down {
        (0, page)
    } else {
        (n - 1, page)
    }
}

/// Where a key leads; nowhere without rows, and for other keys than the two
/// arrows.
pub fn on_arrow(
    codes: &Vec<String>,
    selected: &str,
    key: &str,
    page: i64,
    total: i64,
) -> (r: Option<Move>)
    ensures
        match r {
            Some(m) => {
                &&& codes@.len() > 0
                &&& key@ == "ArrowDown"@ || key@ == "ArrowUp"@
                &&& (m.row as int, m.page as int) == arrow_move(
                    text::contents(codes@),
                    selected@,
                    key@ == "ArrowDown"@,
                    page as int,
                    total as int,
                )
                &&& m.row < codes@.len()
            },
            None => codes@.len() == 0 || (key@ != "ArrowDown"@ && key@ != "ArrowUp"@),
        },
{
    let down = text::same(key, "ArrowDown");
    if codes.len() == 0 || !(down || text::same(key, "ArrowUp")) {
        return None;
    }
    match selection::find(codes, selected) {
        Some(i) => {
            if down {
                if i + 1 < codes.len() {
                    Some(Move { row: i + 1, page })
                } else if page < pages(total) {
                    Some(Move { row: 0, page: page + 1 })
                } else {
                    Some(Move { row: i, page })
                }
            } else {
                if i > 0 {
                    Some(Move { row: i - 1, page })
                } else if page > 1 {
                    Some(Move { row: 0, page: page - 1 })
                } else {
                    Some(Move { row: i, page })
                }
            }
        },
        None => {
            if down {
                Some(Move { row: 0, page })
            } else {
                Some(Move { row: codes.len() - 1, page })
            }
        },
    }
}

// ---------------------------------------------------------------------------
// Requests
// ---------------------------------------------------------------------------

/// Tells the answer to the latest request from those that it overtook.
#[derive(Debug, Clone)]
pub struct Gate {
    pub last: u32,
}

impl Gate {
    /// A gate before the first request.
    pub fn new() -> (r: Gate)
        ensures
            r.last == 0,
    {
        Gate { last: 0 }
    }

    /// Begins a request; gives its number.
    pub fn begin(&mut self) -> (r: u32)
        requires
            old(self).last < u32::MAX,
        ensures
            final(self).last == old(self).last + 1,
            r == final(self).last,
    {
        self.last = self.last + 1;
        self.last
    }

    /// Whether the answer to a request is taken in.
    pub fn accepts(&self, request: u32) -> (r: bool)
        ensures
            r == (request == self.last),
    {
        request == self.last
    }
}

// ---------------------------------------------------------------------------
// Several entries
// ---------------------------------------------------------------------------

/// The archiving of several entries, one after the other.
#[derive(Debug, Clone)]
pub struct Archiving {
    pub done: usize,
    pub failure: Option<String>,
}

/// What stops the archiving, if the answer to one entry does.
pub open spec fn stops_with(answer: Result<bool, Seq<char>>) -> Option<Seq<char>> {
    match answer {
        Ok(true) => None,
        Ok(false) => Some("归档失败"@),
        Err(e) => Some(e),
    }
}

/// The content of an answer.
pub open spec fn answer_view(answer: Result<bool, String>) -> Result<bool, Seq<char>> {
    match answer {
        Ok(b) => Ok(b),
        Err(e) => Err(e@),
    }
}

/// How many entries were archived, and what stopped it, after answers.
pub open spec fn archived_after(answers: Seq<Result<bool, Seq<char>>>) -> (nat, Option<Seq<char>>)
    decreases answers.len(),
{
    if answers.len() == 0 {
        (0, None)
    } else {
        let (done, failure) = archived_after(answers.drop_last());
        match failure {
            Some(e) => (done, Some(e)),
            None => match stops_with(answers.last()) {
                Some(e) => (done, Some(e)),
                None => (done + 1, None),
            },
        }
    }
}

impl Archiving {
    /// The content.
    pub open spec fn state(self) -> (nat, Option<Seq<char>>) {
        (self.done as nat, text::opt_view(self.failure))
    }

    /// An archiving that begins.
    pub fn new() -> (r: Archiving)
        ensures
            r.state() == archived_after(seq![]),
    {
        Archiving { done: 0, failure: None }
    }

    /// Takes in the answer to one entry; tells whether to go on with the next.
    pub fn answered(&mut self, answer: Result<bool, String>) -> (r: bool)
        requires
            old(self).failure is None,
            old(self).done < usize::MAX,
        ensures
            r == (final(self).failure is None),
            final(self).state() == (match stops_with(answer_view(answer)) {
                Some(e) => (old(self).done as nat, Some(e)),
                None => ((old(self).done + 1) as nat, None),
            }),
            forall|before: Seq<Result<bool, Seq<char>>>|
                old(self).state() == #[trigger] archived_after(before) ==> final(self).state()
                    == archived_after(before.push(answer_view(answer))),
    {
        let ghost was = self.state();
        let ghost a = answer_view(answer);
        proof {
            assert forall|before: Seq<Result<bool, Seq<char>>>|
                was == #[trigger] archived_after(before) implies archived_after(before.push(a))
                == (match stops_with(a) {
                Some(e) => (was.0, Some(e)),
                None => (was.0 + 1, None),
            }) by {
                assert(before.push(a).drop_last() =~= before);
            }
        }
        match answer {
            Ok(true) => {
                self.done = self.done + 1;
                true
            },
            Ok(false) => {
                self.failure = Some("归档失败".to_owned());
                false
            },
            Err(e) => {
                self.failure = Some(e);
                false
            },
        }
    }

    /// What is said at the end: nothing where all went well.
    pub fn message(&self) -> (r: Option<String>)
        ensures
            text::opt_view(r) == (match self.failure {
                Some(e) => Some(
                    "已归档 "@ + decimal::numeral(self.done as int) + " 个，其余失败："@ + e@,
                ),
                None => None,
            }),
    {
        match &self.failure {
            Some(e) => {
                let mut out = "已归档 ".to_owned();
                decimal::push_decimal(&mut out, self.done as u64);
                out.push_str(" 个，其余失败：");
                out.push_str(e.as_str());
                Some(out)
            },
            None => None,
        }
    }
}

/// A choice that may be left open: nothing chosen is none.
pub fn choice(s: &str) -> (r: Option<&str>)
    ensures
        text::opt_str(r) == (if s@.len() == 0 {
            None
        } else {
            Some(s@)
        }),
{
    if s.is_empty() {
        None
    } else {
        Some(s)
    }
}

/// What is said of the number of ticked entries.
pub fn ticked_text(n: usize) -> (r: String)
    ensures
        r@ == "已选 "@ + decimal::numeral(n as int) + " 项"@,
{
    let mut out = "已选 ".to_owned();
    decimal::push_decimal(&mut out, n as u64);
    out.push_str(" 项");
    out
}

/// What is said before labels are written to the ticked entries.
pub fn batch_text(n: usize) -> (r: String)
    ensures
        r@ == "写入选中的 "@ + decimal::numeral(n as int) + " 个条目；留空的标签不会改动。"@,
{
    let mut out = "写入选中的 ".to_owned();
    decimal::push_decimal(&mut out, n as u64);
    out.push_str(" 个条目；留空的标签不会改动。");
    out
}

/// What is said before the ticked entries are summed up.
pub fn summary_text(n: usize) -> (r: String)
    ensures
        r@ == "把选中的 "@ + decimal::numeral(n as int)
            + " 个条目交给模型，生成一条新条目并全屏打开。"@,
{
    let mut out = "把选中的 ".to_owned();
    decimal::push_decimal(&mut out, n as u64);
    out.push_str(" 个条目交给模型，生成一条新条目并全屏打开。");
    out
}

/// The address of an entry; none without a code.
pub fn entry_path(slug: &str, code: &str) -> (r: Option<String>)
    ensures
        text::opt_view(r) == (if code@.len() == 0 {
            None
        } else {
            Some("/"@ + slug@ + "/entry/"@ + code@)
        }),
{
    if code.is_empty() {
        None
    } else {
        let mut out = text::concat3("/", slug, "/entry/");
        out.push_str(code);
        Some(out)
    }
}

/// Where the page says that one is: the workspace and the view.
pub fn crumb_text(slug: &str, view: Option<&str>) -> (r: String)
    ensures
        r@ == (match text::opt_str(view) {
            Some(name) => "/"@ + slug@ + " · 视图「"@ + name + "」"@,
            None => "/"@ + slug@ + " · 基础视图「全部内容」"@,
        }),
{
    match view {
        Some(name) => {
            let mut out = text::concat3("/", slug, " · 视图「");
            out.push_str(name);
            out.push_str("」");
            out
        },
        None => text::concat3("/", slug, " · 基础视图「全部内容」"),
    }
}

/// What the condition of a view to be saved is called.
pub fn condition_text(expr: &str) -> (r: String)
    ensures
        r@ == (if text::is_blank(expr@) {
            "条件：全部内容"@
        } else {
            "条件："@ + expr@
        }),
{
    if text::blank(expr) {
        "条件：全部内容".to_owned()
    } else {
        text::concat2("条件：", expr)
    }
}

/// The row that is open after a click on one: a click on the open row closes it.
pub fn after_row_click(open: &str, row: &str) -> (r: String)
    ensures
        r@ == (if open@ == row@ {
            ""@
        } else {
            row@
        }),
{
    if text::same(open, row) {
        "".to_owned()
    } else {
        row.to_owned()
    }
}

// ---------------------------------------------------------------------------
// Laws
// ---------------------------------------------------------------------------

/// The pages hold all entries, and the last one is not empty.
pub proof fn pages_fit(total: int)
    requires
        total > 0,
    ensures
        (page_count(total) - 1) * PAGE_SIZE < total <= page_count(total) * PAGE_SIZE,
{
}

/// From a page that exists, an arrow key leads to a page that exists.
pub proof fn moves_stay_in_pages(
    codes: Seq<Seq<char>>,
    selected: Seq<char>,
    down: bool,
    page: int,
    total: int,
)
    requires
        1 <= page <= page_count(total),
    ensures
        1 <= arrow_move(codes, selected, down, page, total).1 <= page_count(total),
{
}

/// Within a page, a step back undoes a step on.
pub proof fn up_undoes_down(codes: Seq<Seq<char>>, i: int, page: int, total: int)
    requires
        0 <= i,
        i + 1 < codes.len(),
        codes.no_duplicates(),
    ensures
        arrow_move(codes, codes[i], true, page, total) == (i + 1, page),
        arrow_move(codes, codes[i + 1], false, page, total) == (i, page),
{
    selection::first_of_is(codes, codes[i], i);
    selection::first_of_is(codes, codes[i + 1], i + 1);
}

/// Twenty entries stand on a page: so many pages are the fewest that hold all
/// entries, and there is one even for none.
pub proof fn pages_hold_twenty(total: int, p: int)
    ensures
        page_count(total) >= 1,
        total <= 20 ==> page_count(total) == 1,
        total > 0 ==> 20 * page_count(total) >= total,
        p >= 1 && 20 * p >= total ==> page_count(total) <= p,
{
}

/// An arrow key leads to the row next to the selected one, over the edge of the
/// page to the first row of the page next to it, and nowhere beyond the first
/// and the last page. Where nothing on the page is selected it leads to the
/// first row down and to the last row up.
pub proof fn arrows_lead_to_neighbours(
    a: Seq<Seq<char>>,
    x: Seq<char>,
    b: Seq<Seq<char>>,
    page: int,
    total: int,
)
    requires
        !a.contains(x),
    ensures
        b.len() > 0 ==> arrow_move(a + seq![x] + b, x, true, page, total) == (
            a.len() as int + 1,
            page,
        ),
        b.len() == 0 && 20 * page < total ==> arrow_move(a + seq![x] + b, x, true, page, total) == (
            0int,
            page + 1,
        ),
        b.len() == 0 && 20 * page >= total && page >= 1 ==> arrow_move(
            a + seq![x] + b,
            x,
            true,
            page,
            total,
        ) == (a.len() as int, page),
        a.len() > 0 ==> arrow_move(a + seq![x] + b, x, false, page, total) == (
            a.len() as int - 1,
            page,
        ),
        a.len() == 0 && page > 1 ==> arrow_move(a + seq![x] + b, x, false, page, total) == (
            0int,
            page - 1,
        ),
        a.len() == 0 && page <= 1 ==> arrow_move(a + seq![x] + b, x, false, page, total) == (
            0int,
            page,
        ),
        arrow_move(a, x, true, page, total) == (0int, page),
        arrow_move(a, x, false, page, total) == (a.len() as int - 1, page),
{
    let s = a + seq![x] + b;
    let n = a.len() as int;
    assert forall|k: int| 0 <= k < n implies #[trigger] s[k] != x by {
        assert(a.contains(a[k]));
    }
    assert forall|k: int| 0 <= k < n implies #[trigger] a[k] != x by {
        assert(a.contains(a[k]));
    }
    assert(s[n] == x);
    selection::first_of_is(s, x, n);
    selection::first_of_is(a, x, n);
}

/// Archiving goes on while entries are archived, and stops at the first that is
/// not, with what was answered; what follows does not count.
pub proof fn archiving_stops_at_the_first_failure(
    n: nat,
    e: Seq<char>,
    more: Seq<Result<bool, Seq<char>>>,
)
    ensures
        archived_after(all_well(n)) == (n, None::<Seq<char>>),
        archived_after(all_well(n).push(Err(e)) + more) == (n, Some(e)),
        archived_after(all_well(n).push(Ok(false)) + more) == (n, Some("归档失败"@)),
    decreases more.len(),
{
    well_archived(n);
    let x = all_well(n).push(Err(e));
    let y = all_well(n).push(Ok(false));
    if more.len() == 0 {
        assert(x + more =~= x);
        assert(y + more =~= y);
        assert(x.drop_last() =~= all_well(n));
        assert(y.drop_last() =~= all_well(n));
        assert(x.last() == Err::<bool, Seq<char>>(e));
        assert(y.last() == Ok::<bool, Seq<char>>(false));
    } else {
        archiving_stops_at_the_first_failure(n, e, more.drop_last());
        assert((x + more).drop_last() =~= x + more.drop_last());
        assert((y + more).drop_last() =~= y + more.drop_last());
    }
}

/// So many answers that all went well.
pub open spec fn all_well(n: nat) -> Seq<Result<bool, Seq<char>>> {
    Seq::new(n, |i: int| Ok(true))
}

proof fn well_archived(n: nat)
    ensures
        archived_after(all_well(n)) == (n, None::<Seq<char>>),
    decreases n,
{
    let s = all_well(n);
    if n > 0 {
        well_archived((n - 1) as nat);
        assert(s.drop_last() =~= all_well((n - 1) as nat));
        assert(s.last() == Ok::<bool, Seq<char>>(true));
    }
}

/// The fields that keep the arrow keys to themselves are those of text.
pub proof fn text_fields_keep_arrows(t: Seq<char>)
    ensures
        is_text_field(t) <==> t == "text"@ || t == "search"@ || t == "email"@ || t == "password"@
            || t == "url"@,
{
}

/// Going on and back leads to the neighbouring pages, and stays at the first and
/// the last; within the pages each undoes the other.
pub proof fn pages_follow_each_other(page: int, total: int)
    requires
        1 <= page <= page_count(total),
    ensures
        page > 1 ==> page_before(page) == page - 1,
        page_before(1) == 1,
        20 * page < total ==> page_after(page, total) == page + 1 && page_before(
            page_after(page, total),
        ) == page,
        20 * page >= total ==> page_after(page, total) == page,
{
}

} // verus!
