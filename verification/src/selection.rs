//! Lists of things that are ticked, chosen or shown as columns.

use vstd::prelude::*;

use crate::text;

verus! {

/// A list without the occurrences of a text.
pub open spec fn without(list: Seq<Seq<char>>, x: Seq<char>) -> Seq<Seq<char>>
    decreases list.len(),
{
    if list.len() == 0 {
        seq![]
    } else if list.last() == x {
        without(list.drop_last(), x)
    } else {
        without(list.drop_last(), x).push(list.last())
    }
}

/// A list with a text, last where it was not there.
pub open spec fn with(list: Seq<Seq<char>>, x: Seq<char>) -> Seq<Seq<char>> {
    if list.contains(x) {
        list
    } else {
        list.push(x)
    }
}

/// A list after a text was ticked or unticked.
pub open spec fn ticked(list: Seq<Seq<char>>, x: Seq<char>, on: bool) -> Seq<Seq<char>> {
    if on {
        with(list, x)
    } else {
        without(list, x)
    }
}

/// Ticks or unticks a text.
pub fn tick(list: &Vec<String>, x: &str, on: bool) -> (r: Vec<String>)
    ensures
        text::contents(r@) == ticked(text::contents(list@), x@, on),
{
    let ghost all = text::contents(list@);
    if on {
        let mut out = text::copy_list(list);
        if !text::holds(list, x) {
            let ghost before = out@;
            out.push(x.to_owned());
            assert(text::contents(out@) =~= text::contents(before).push(x@));
        }
        return out;
    }
    let mut out: Vec<String> = Vec::new();
    let mut i: usize = 0;
    assert(text::contents(out@) =~= seq![]);
    while i < list.len()
        invariant
            i <= list@.len(),
            all == text::contents(list@),
            text::contents(out@) == without(all.take(i as int), x@),
        decreases list@.len() - i,
    {
        let ghost before = out@;
        assert(all.take(i + 1).drop_last() =~= all.take(i as int));
        assert(all.take(i + 1).last() == list@[i as int]@);
        if !text::same(list[i].as_str(), x) {
            out.push(list[i].clone());
            assert(text::contents(out@) =~= text::contents(before).push(list@[i as int]@));
        }
        i += 1;
    }
    assert(all.take(i as int) =~= all);
    out
}

/// A list without the texts of another.
pub open spec fn without_all(list: Seq<Seq<char>>, gone: Seq<Seq<char>>) -> Seq<Seq<char>>
    decreases list.len(),
{
    if list.len() == 0 {
        seq![]
    } else if gone.contains(list.last()) {
        without_all(list.drop_last(), gone)
    } else {
        without_all(list.drop_last(), gone).push(list.last())
    }
}

/// A list with the texts of another, those that were not there last.
pub open spec fn with_all(list: Seq<Seq<char>>, more: Seq<Seq<char>>) -> Seq<Seq<char>>
    decreases more.len(),
{
    if more.len() == 0 {
        list
    } else {
        with(with_all(list, more.drop_last()), more.last())
    }
}

/// Texts may be joined to a list part by part.
pub proof fn with_all_in_parts(
    list: Seq<Seq<char>>,
    part: Seq<Seq<char>>,
    rest: Seq<Seq<char>>,
)
    ensures
        with_all(list, part + rest) == with_all(with_all(list, part), rest),
    decreases rest.len(),
{
    if rest.len() == 0 {
        assert(part + rest =~= part);
    } else {
        assert((part + rest).drop_last() =~= part + rest.drop_last());
        with_all_in_parts(list, part, rest.drop_last());
    }
}

/// A list that holds each text once still does when texts are joined to it.
pub proof fn joined_once(list: Seq<Seq<char>>, more: Seq<Seq<char>>)
    requires
        list.no_duplicates(),
    ensures
        with_all(list, more).no_duplicates(),
    decreases more.len(),
{
    if more.len() > 0 {
        joined_once(list, more.drop_last());
    }
}

/// Joins a list of texts to another, each once.
pub fn join_lists(list: &Vec<String>, more: &Vec<String>) -> (r: Vec<String>)
    ensures
        text::contents(r@) == with_all(text::contents(list@), text::contents(more@)),
{
    let mut out = text::copy_list(list);
    let ghost first = text::contents(list@);
    let ghost all = text::contents(more@);
    let mut i: usize = 0;
    assert(all.take(0) =~= seq![]);
    while i < more.len()
        invariant
            i <= more@.len(),
            all == text::contents(more@),
            text::contents(out@) == with_all(first, all.take(i as int)),
        decreases more@.len() - i,
    {
        let ghost before = out@;
        assert(all.take(i + 1).drop_last() =~= all.take(i as int));
        assert(all.take(i + 1).last() == more@[i as int]@);
        if !text::holds(&out, more[i].as_str()) {
            out.push(more[i].clone());
            assert(text::contents(out@) =~= text::contents(before).push(more@[i as int]@));
        }
        i += 1;
    }
    assert(all.take(i as int) =~= all);
    out
}

/// What is ticked after all that is visible was ticked or unticked.
pub open spec fn visible_ticked(
    selected: Seq<Seq<char>>,
    visible: Seq<Seq<char>>,
    on: bool,
) -> Seq<Seq<char>> {
    if on {
        with_all(selected, visible)
    } else {
        without_all(selected, visible)
    }
}

/// Ticks or unticks all that is visible; what is not visible stays as it was.
pub fn tick_visible(selected: &Vec<String>, visible: &Vec<String>, on: bool) -> (r: Vec<String>)
    ensures
        text::contents(r@) == visible_ticked(
            text::contents(selected@),
            text::contents(visible@),
            on,
        ),
{
    if on {
        return join_lists(selected, visible);
    }
    let ghost all = text::contents(selected@);
    let ghost gone = text::contents(visible@);
    let mut out: Vec<String> = Vec::new();
    let mut i: usize = 0;
    assert(text::contents(out@) =~= seq![]);
    while i < selected.len()
        invariant
            i <= selected@.len(),
            all == text::contents(selected@),
            gone == text::contents(visible@),
            text::contents(out@) == without_all(all.take(i as int), gone),
        decreases selected@.len() - i,
    {
        let ghost before = out@;
        assert(all.take(i + 1).drop_last() =~= all.take(i as int));
        assert(all.take(i + 1).last() == selected@[i as int]@);
        if !text::holds(visible, selected[i].as_str()) {
            out.push(selected[i].clone());
            assert(text::contents(out@) =~= text::contents(before).push(selected@[i as int]@));
        }
        i += 1;
    }
    assert(all.take(i as int) =~= all);
    out
}

/// Whether all that is visible is ticked, and anything is visible.
pub fn all_ticked(selected: &Vec<String>, visible: &Vec<String>) -> (r: bool)
    ensures
        r == (visible@.len() > 0 && forall|i: int|
            0 <= i < visible@.len() ==> text::contents(selected@).contains(
                (#[trigger] visible@[i])@,
            )),
{
    if visible.len() == 0 {
        return false;
    }
    let mut i: usize = 0;
    while i < visible.len()
        invariant
            i <= visible@.len(),
            forall|k: int|
                0 <= k < i ==> text::contents(selected@).contains((#[trigger] visible@[k])@),
        decreases visible@.len() - i,
    {
        if !text::holds(selected, visible[i].as_str()) {
            return false;
        }
        i += 1;
    }
    true
}

/// The first position of a text, or the length of the list.
pub open spec fn first_of(list: Seq<Seq<char>>, x: Seq<char>) -> int
    decreases list.len(),
{
    if list.len() == 0 || list[0] == x {
        0
    } else {
        1 + first_of(list.skip(1), x)
    }
}

/// A list after a column was switched on or off: removed once where it was
/// there, else last.
pub open spec fn switched(list: Seq<Seq<char>>, x: Seq<char>) -> Seq<Seq<char>> {
    let i = first_of(list, x);
    if 0 <= i < list.len() {
        list.remove(i)
    } else {
        list.push(x)
    }
}

/// What [`first_of`] finds.
pub proof fn first_of_props(list: Seq<Seq<char>>, x: Seq<char>)
    ensures
        0 <= first_of(list, x) <= list.len(),
        first_of(list, x) < list.len() ==> list[first_of(list, x)] == x,
        forall|k: int| 0 <= k < first_of(list, x) ==> #[trigger] list[k] != x,
    decreases list.len(),
{
    if list.len() > 0 && list[0] != x {
        let t = list.skip(1);
        first_of_props(t, x);
        assert forall|k: int| 0 <= k < first_of(list, x) implies #[trigger] list[k] != x by {
            if k > 0 {
                assert(t[k - 1] == list[k]);
            }
        }
    }
}

/// [`first_of`] is the only position with its property.
pub proof fn first_of_is(list: Seq<Seq<char>>, x: Seq<char>, n: int)
    requires
        0 <= n <= list.len(),
        n < list.len() ==> list[n] == x,
        forall|k: int| 0 <= k < n ==> #[trigger] list[k] != x,
    ensures
        first_of(list, x) == n,
{
    first_of_props(list, x);
    let m = first_of(list, x);
    if m < n {
        assert(list[m] != x);
    } else if n < m {
        assert(list[n] != x);
    }
}

/// The first position of a text.
pub fn find(list: &Vec<String>, x: &str) -> (r: Option<usize>)
    ensures
        match r {
            Some(i) => i == first_of(text::contents(list@), x@) && i < list.len(),
            None => first_of(text::contents(list@), x@) == list@.len(),
        },
{
    let ghost all = text::contents(list@);
    let mut i: usize = 0;
    while i < list.len()
        invariant
            i <= list@.len(),
            all == text::contents(list@),
            forall|k: int| 0 <= k < i ==> #[trigger] all[k] != x@,
        decreases list@.len() - i,
    {
        assert(all[i as int] == list@[i as int]@);
        if text::same(list[i].as_str(), x) {
            proof {
                first_of_is(all, x@, i as int);
            }
            return Some(i);
        }
        i += 1;
    }
    proof {
        first_of_is(all, x@, i as int);
    }
    None
}

/// Switches a column on or off.
pub fn switch(list: &Vec<String>, x: &str) -> (r: Vec<String>)
    ensures
        text::contents(r@) == switched(text::contents(list@), x@),
{
    let mut out = text::copy_list(list);
    let ghost before = out@;
    assert(text::contents(out@).len() == out@.len());
    match find(list, x) {
        Some(i) => {
            assert(text::contents(list@).len() == list@.len());
            out.remove(i);
            assert(text::contents(out@) =~= text::contents(before).remove(i as int));
        },
        None => {
            out.push(x.to_owned());
            assert(text::contents(out@) =~= text::contents(before).push(x@));
        },
    }
    out
}

// ---------------------------------------------------------------------------
// Laws
// ---------------------------------------------------------------------------

/// What is ticked is in the list, what is unticked is not, and nothing else
/// changes.
pub proof fn ticking_is_membership(list: Seq<Seq<char>>, x: Seq<char>, on: bool)
    ensures
        ticked(list, x, on).contains(x) == on,
        forall|y: Seq<char>|
            y != x ==> (#[trigger] ticked(list, x, on).contains(y) <==> list.contains(y)),
    decreases list.len(),
{
    if on {
        let r = with(list, x);
        if !list.contains(x) {
            assert(r[list.len() as int] == x);
            assert forall|y: Seq<char>| y != x implies (#[trigger] r.contains(y) <==> list.contains(
                y,
            )) by {
                if r.contains(y) {
                    let k = choose|k: int| 0 <= k < r.len() && r[k] == y;
                    assert(list[k] == y);
                }
                if list.contains(y) {
                    let k = choose|k: int| 0 <= k < list.len() && list[k] == y;
                    assert(r[k] == y);
                }
            }
        }
    } else {
        without_is_membership(list, x);
    }
}

/// What is left without a text.
proof fn without_is_membership(list: Seq<Seq<char>>, x: Seq<char>)
    ensures
        forall|y: Seq<char>|
            #[trigger] without(list, x).contains(y) <==> (y != x && list.contains(y)),
    decreases list.len(),
{
    if list.len() > 0 {
        let d = list.drop_last();
        without_is_membership(d, x);
        let r = without(list, x);
        let rd = without(d, x);
        assert forall|y: Seq<char>| #[trigger] r.contains(y) implies y != x && list.contains(y) by {
            let k = choose|k: int| 0 <= k < r.len() && r[k] == y;
            if k < rd.len() {
                assert(rd[k] == y);
                assert(rd.contains(y));
                let m = choose|m: int| 0 <= m < d.len() && d[m] == y;
                assert(list[m] == y);
            } else {
                assert(list[list.len() - 1] == y);
            }
        }
        assert forall|y: Seq<char>| y != x && list.contains(y) implies #[trigger] r.contains(y) by {
            let k = choose|k: int| 0 <= k < list.len() && list[k] == y;
            if k < d.len() {
                assert(d[k] == y);
                assert(rd.contains(y));
                let m = choose|m: int| 0 <= m < rd.len() && rd[m] == y;
                assert(r[m] == y);
            } else {
                assert(r[rd.len() as int] == y);
            }
        }
    }
}

/// After all that is visible was ticked, all of it is, and what was ticked
/// before still is.
pub proof fn ticking_visible_ticks_all(selected: Seq<Seq<char>>, visible: Seq<Seq<char>>)
    ensures
        forall|x: Seq<char>|
            #[trigger] with_all(selected, visible).contains(x) <==> (selected.contains(x)
                || visible.contains(x)),
    decreases visible.len(),
{
    if visible.len() > 0 {
        let d = visible.drop_last();
        ticking_visible_ticks_all(selected, d);
        let before = with_all(selected, d);
        let l = visible.last();
        ticking_is_membership(before, l, true);
        let r = with_all(selected, visible);
        assert forall|x: Seq<char>|
            #[trigger] r.contains(x) <==> (selected.contains(x) || visible.contains(x)) by {
            assert(ticked(before, l, true) == r);
            assert(before.contains(x) <==> (selected.contains(x) || d.contains(x)));
            if x == l {
                assert(visible[visible.len() - 1] == x);
            } else {
                if d.contains(x) {
                    let k = choose|k: int| 0 <= k < d.len() && d[k] == x;
                    assert(visible[k] == x);
                }
                if visible.contains(x) {
                    let k = choose|k: int| 0 <= k < visible.len() && visible[k] == x;
                    assert(d[k] == x);
                }
            }
        }
    }
}

/// Ticking puts a text last, where it is not ticked yet; unticking takes it out.
/// The others stay in their order either way.
pub proof fn ticking_keeps_the_order(a: Seq<Seq<char>>, x: Seq<char>, b: Seq<Seq<char>>)
    requires
        !a.contains(x),
        !b.contains(x),
    ensures
        ticked(a + b, x, true) == a + b + seq![x],
        ticked(a + seq![x] + b, x, true) == a + seq![x] + b,
        ticked(a + seq![x] + b, x, false) == a + b,
        ticked(a + b, x, false) == a + b,
{
    let s = a + seq![x] + b;
    let t = a + b;
    assert(!t.contains(x)) by {
        if t.contains(x) {
            let k = choose|k: int| 0 <= k < t.len() && t[k] == x;
            if k < a.len() {
                assert(a[k] == x);
            } else {
                assert(b[k - a.len()] == x);
            }
        }
    }
    assert(t.push(x) =~= t + seq![x]);
    assert(s.contains(x)) by {
        assert(s[a.len() as int] == x);
    }
    without_parts(a, seq![x] + b, x);
    without_parts(seq![x], b, x);
    without_parts(a, b, x);
    without_absent(a, x);
    without_absent(b, x);
    assert(s =~= a + (seq![x] + b));
    let one = seq![x];
    assert(one.last() == x);
    assert(one.drop_last() =~= seq![]);
    assert(without(one.drop_last(), x) =~= seq![]);
    assert(without(one, x) =~= seq![]);
    assert(without(seq![], x) + b =~= b);
    assert(seq![] + b =~= b);
}

proof fn without_parts(a: Seq<Seq<char>>, b: Seq<Seq<char>>, x: Seq<char>)
    ensures
        without(a + b, x) == without(a, x) + without(b, x),
    decreases b.len(),
{
    if b.len() == 0 {
        assert(a + b =~= a);
        assert(without(a, x) + without(b, x) =~= without(a, x));
    } else {
        without_parts(a, b.drop_last(), x);
        assert((a + b).drop_last() =~= a + b.drop_last());
        assert((a + b).last() == b.last());
        assert(without(a + b, x) =~= without(a, x) + without(b, x));
    }
}

proof fn without_absent(a: Seq<Seq<char>>, x: Seq<char>)
    requires
        !a.contains(x),
    ensures
        without(a, x) == a,
    decreases a.len(),
{
    if a.len() > 0 {
        let d = a.drop_last();
        assert(!d.contains(x)) by {
            if d.contains(x) {
                let k = choose|k: int| 0 <= k < d.len() && d[k] == x;
                assert(a[k] == x);
            }
        }
        without_absent(d, x);
        assert(a.last() != x) by {
            assert(a.contains(a[a.len() - 1]));
        }
        assert(d.push(a.last()) =~= a);
    } else {
        assert(without(a, x) =~= a);
    }
}

/// Unticking all that is visible leaves what is not, in its order.
pub proof fn unticking_leaves_the_rest(
    selected: Seq<Seq<char>>,
    x: Seq<char>,
    visible: Seq<Seq<char>>,
)
    ensures
        without_all(seq![], visible) == Seq::<Seq<char>>::empty(),
        without_all(selected.push(x), visible) == (if visible.contains(x) {
            without_all(selected, visible)
        } else {
            without_all(selected, visible).push(x)
        }),
        with_all(selected, seq![]) == selected,
        with_all(selected, visible.push(x)) == (if selected.contains(x) || visible.contains(x) {
            with_all(selected, visible)
        } else {
            with_all(selected, visible).push(x)
        }),
{
    assert(without_all(seq![], visible) =~= seq![]);
    assert(selected.push(x).drop_last() =~= selected);
    assert(selected.push(x).last() == x);
    assert(visible.push(x).drop_last() =~= visible);
    assert(visible.push(x).last() == x);
    ticking_visible_ticks_all(selected, visible);
    assert(with_all(selected, visible).contains(x) <==> (selected.contains(x) || visible.contains(
        x,
    )));
}

/// Switching a column takes it out where it is shown and puts it last where it
/// is not; the others stay in their order.
pub proof fn switching_keeps_the_order(a: Seq<Seq<char>>, x: Seq<char>, b: Seq<Seq<char>>)
    requires
        !a.contains(x),
    ensures
        switched(a + seq![x] + b, x) == a + b,
        switched(a, x) == a + seq![x],
{
    let s = a + seq![x] + b;
    let n = a.len() as int;
    assert forall|k: int| 0 <= k < n implies #[trigger] s[k] != x by {
        assert(a.contains(a[k]));
    }
    assert forall|k: int| 0 <= k < n implies #[trigger] a[k] != x by {
        assert(a.contains(a[k]));
    }
    assert(s[n] == x);
    first_of_is(s, x, n);
    first_of_is(a, x, n);
    assert(s.remove(n) =~= a + b);
    assert(a.push(x) =~= a + seq![x]);
}

/// Ticking all that is visible adds just that, and unticking it takes just that
/// away; what is not visible stays as it was.
pub proof fn what_is_visible_is_ticked(
    selected: Seq<Seq<char>>,
    visible: Seq<Seq<char>>,
    x: Seq<char>,
)
    ensures
        visible_ticked(selected, visible, true).contains(x) <==> selected.contains(x)
            || visible.contains(x),
        visible_ticked(selected, visible, false).contains(x) <==> selected.contains(x)
            && !visible.contains(x),
{
    ticking_visible_ticks_all(selected, visible);
    assert(with_all(selected, visible).contains(x) <==> (selected.contains(x) || visible.contains(
        x,
    )));
    unticked_has(selected, visible, x);
}

proof fn unticked_has(selected: Seq<Seq<char>>, visible: Seq<Seq<char>>, x: Seq<char>)
    ensures
        without_all(selected, visible).contains(x) <==> selected.contains(x) && !visible.contains(
            x,
        ),
    decreases selected.len(),
{
    let r = without_all(selected, visible);
    if selected.len() > 0 {
        let d = selected.drop_last();
        let before = without_all(d, visible);
        unticked_has(d, visible, x);
        if r.contains(x) {
            let k = choose|k: int| 0 <= k < r.len() && r[k] == x;
            if k < before.len() {
                assert(before[k] == x);
                assert(before.contains(x));
                let m = choose|m: int| 0 <= m < d.len() && d[m] == x;
                assert(selected[m] == x);
            } else {
                assert(selected[selected.len() - 1] == x);
            }
        }
        if selected.contains(x) && !visible.contains(x) {
            let m = choose|m: int| 0 <= m < selected.len() && selected[m] == x;
            if m < d.len() {
                assert(d[m] == x);
                assert(before.contains(x));
                let k = choose|k: int| 0 <= k < before.len() && before[k] == x;
                assert(r[k] == x);
            } else {
                assert(r[r.len() - 1] == x);
            }
        }
    }
}

} // verus!
