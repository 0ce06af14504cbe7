//! The views of the sidebar: their groups, and the tree that slashes in their
//! names make.

use vstd::prelude::*;

use crate::components;
use crate::graphql_client;
use crate::text;

verus! {

/// A line of the tree.
#[derive(Debug, Clone)]
pub enum TreeNode {
    /// A view, by its position, with its depth.
    Leaf(usize, usize),
    /// A part of names that is no view of its own, with its depth.
    Group(String, usize),
}

/// The content of a line.
#[verifier::ext_equal]
pub enum NodeV {
    Leaf(int, int),
    Group(Seq<char>, int),
}

impl TreeNode {
    /// The content of a line.
    pub open spec fn view(&self) -> NodeV {
        match self {
            TreeNode::Leaf(i, d) => NodeV::Leaf(*i as int, *d as int),
            TreeNode::Group(p, d) => NodeV::Group(p@, *d as int),
        }
    }
}

/// The contents of lines.
pub open spec fn nodes_view(v: Seq<TreeNode>) -> Seq<NodeV> {
    Seq::new(v.len(), |i: int| v[i]@)
}

/// The parts of a name between its slashes, blank ones left out.
pub open spec fn parts_of(name: Seq<char>) -> Seq<Seq<char>> {
    components::nonblank(text::split_at_char(name, '/'))
}

/// The path of the first `n` parts of a name.
pub open spec fn path_of(parts: Seq<Seq<char>>, n: int) -> Seq<char> {
    text::joined(parts.take(n), "/"@)
}

/// Whether a path comes before another part by part, or is the same.
pub open spec fn parts_le(a: Seq<Seq<char>>, b: Seq<Seq<char>>) -> bool
    decreases a.len(),
{
    if a.len() == 0 {
        true
    } else if b.len() == 0 {
        false
    } else if a[0] != b[0] {
        text::text_le(a[0], b[0])
    } else {
        parts_le(a.skip(1), b.skip(1))
    }
}

/// Whether a path comes before another.
fn parts_at_most(a: &Vec<String>, b: &Vec<String>) -> (r: bool)
    ensures
        r == parts_le(text::contents(a@), text::contents(b@)),
{
    let ghost x = text::contents(a@);
    let ghost y = text::contents(b@);
    let mut i: usize = 0;
    assert(x.skip(0) =~= x);
    assert(y.skip(0) =~= y);
    while i < a.len() && i < b.len()
        invariant
            i <= a@.len(),
            i <= b@.len(),
            x == text::contents(a@),
            y == text::contents(b@),
            parts_le(x, y) == parts_le(x.skip(i as int), y.skip(i as int)),
        decreases a@.len() - i,
    {
        let ghost p = x.skip(i as int);
        let ghost q = y.skip(i as int);
        assert(p[0] == a@[i as int]@ && q[0] == b@[i as int]@);
        assert(p.skip(1) =~= x.skip(i + 1));
        assert(q.skip(1) =~= y.skip(i + 1));
        if !text::same(a[i].as_str(), b[i].as_str()) {
            return text::at_most(a[i].as_str(), b[i].as_str());
        }
        i += 1;
    }
    i == a.len()
}

/// The contents of a list of paths.
pub open spec fn paths_view(v: Seq<Vec<String>>) -> Seq<Seq<Seq<char>>> {
    Seq::new(v.len(), |i: int| text::contents(v[i]@))
}

/// A position put behind those whose paths do not come after its own.
pub open spec fn placed(order: Seq<int>, paths: Seq<Seq<Seq<char>>>, x: int) -> Seq<int>
    decreases order.len(),
{
    if order.len() == 0 || parts_le(paths[order.last()], paths[x]) {
        order.push(x)
    } else {
        placed(order.drop_last(), paths, x).push(order.last())
    }
}

/// The first `n` positions in the order of their paths; those with the same
/// path stay in their order.
pub open spec fn path_order(paths: Seq<Seq<Seq<char>>>, n: int) -> Seq<int>
    decreases n,
{
    if n <= 0 {
        seq![]
    } else {
        placed(path_order(paths, n - 1), paths, n - 1)
    }
}

/// Where a position is put.
proof fn placed_at(order: Seq<int>, paths: Seq<Seq<Seq<char>>>, x: int, p: int)
    requires
        0 <= p <= order.len(),
        p > 0 ==> parts_le(paths[order[p - 1]], paths[x]),
        forall|k: int|
            p <= k < order.len() ==> !parts_le(paths[#[trigger] order[k]], paths[x]),
    ensures
        placed(order, paths, x) == order.insert(p, x),
    decreases order.len(),
{
    if p == order.len() {
        assert(order.insert(p, x) =~= order.push(x));
    } else {
        let d = order.drop_last();
        assert(!parts_le(paths[order[order.len() - 1]], paths[x]));
        assert forall|k: int| p <= k < d.len() implies !parts_le(
            paths[#[trigger] d[k]],
            paths[x],
        ) by {
            assert(d[k] == order[k]);
        }
        placed_at(d, paths, x, p);
        assert(d.insert(p, x).push(order.last()) =~= order.insert(p, x));
    }
}

/// What a placed position leaves: itself and those before.
proof fn placed_elements(order: Seq<int>, paths: Seq<Seq<Seq<char>>>, x: int)
    ensures
        placed(order, paths, x).len() == order.len() + 1,
        forall|y: int|
            #[trigger] placed(order, paths, x).contains(y) <==> (y == x || order.contains(y)),
    decreases order.len(),
{
    let r = placed(order, paths, x);
    if order.len() == 0 || parts_le(paths[order.last()], paths[x]) {
        assert forall|y: int| #[trigger] r.contains(y) implies y == x || order.contains(y) by {
            let i = choose|i: int| 0 <= i < r.len() && r[i] == y;
            if i < order.len() {
                assert(order[i] == y);
            }
        }
        assert forall|y: int| y == x || order.contains(y) implies #[trigger] r.contains(y) by {
            if y == x {
                assert(r[order.len() as int] == x);
            } else {
                let i = choose|i: int| 0 <= i < order.len() && order[i] == y;
                assert(r[i] == y);
            }
        }
    } else {
        let d = order.drop_last();
        placed_elements(d, paths, x);
        let rd = placed(d, paths, x);
        assert forall|y: int| #[trigger] r.contains(y) implies y == x || order.contains(y) by {
            let i = choose|i: int| 0 <= i < r.len() && r[i] == y;
            if i < rd.len() {
                assert(rd[i] == y);
                assert(rd.contains(y));
                if y != x {
                    let k = choose|k: int| 0 <= k < d.len() && d[k] == y;
                    assert(order[k] == y);
                }
            } else {
                assert(order[order.len() - 1] == y);
            }
        }
        assert forall|y: int| y == x || order.contains(y) implies #[trigger] r.contains(y) by {
            if y == x {
                assert(rd.contains(x));
                let k = choose|k: int| 0 <= k < rd.len() && rd[k] == x;
                assert(r[k] == x);
            } else {
                let i = choose|i: int| 0 <= i < order.len() && order[i] == y;
                if i < d.len() {
                    assert(d[i] == y);
                    assert(rd.contains(y));
                    let k = choose|k: int| 0 <= k < rd.len() && rd[k] == y;
                    assert(r[k] == y);
                } else {
                    assert(r[rd.len() as int] == y);
                }
            }
        }
    }
}

/// The order of paths holds each position once.
pub proof fn order_is_complete(paths: Seq<Seq<Seq<char>>>, n: int)
    requires
        n >= 0,
    ensures
        path_order(paths, n).len() == n,
        forall|y: int| #[trigger] path_order(paths, n).contains(y) <==> 0 <= y < n,
    decreases n,
{
    if n > 0 {
        order_is_complete(paths, n - 1);
        placed_elements(path_order(paths, n - 1), paths, n - 1);
    }
}

/// Sorts positions by their paths.
fn sort_paths(paths: &Vec<Vec<String>>) -> (r: Vec<usize>)
    ensures
        components::positions(r@) == path_order(paths_view(paths@), paths@.len() as int),
        forall|i: int| 0 <= i < r@.len() ==> (#[trigger] r@[i]) < paths@.len(),
{
    let ghost pv = paths_view(paths@);
    let mut out: Vec<usize> = Vec::new();
    let mut i: usize = 0;
    assert(components::positions(out@) =~= seq![]);
    while i < paths.len()
        invariant
            i <= paths@.len(),
            pv == paths_view(paths@),
            components::positions(out@) == path_order(pv, i as int),
            forall|k: int| 0 <= k < out@.len() ==> (#[trigger] out@[k]) < i,
        decreases paths@.len() - i,
    {
        let ghost order = components::positions(out@);
        let ghost before = out@;
        let mut p: usize = out.len();
        let mut go = true;
        while p > 0 && go
            invariant
                p <= out@.len(),
                i < paths@.len(),
                out@ == before,
                pv == paths_view(paths@),
                order == components::positions(out@),
                forall|k: int| 0 <= k < out@.len() ==> (#[trigger] out@[k]) < i,
                !go ==> p > 0 && parts_le(pv[order[p - 1]], pv[i as int]),
                forall|k: int|
                    p <= k < order.len() ==> !parts_le(pv[#[trigger] order[k]], pv[i as int]),
            decreases p,
                if go {
                    1int
                } else {
                    0int
                },
        {
            let j: usize = out[p - 1];
            assert(order[p - 1] == j as int);
            assert(pv[j as int] == text::contents(paths@[j as int]@));
            assert(pv[i as int] == text::contents(paths@[i as int]@));
            if parts_at_most(&paths[j], &paths[i]) {
                go = false;
            } else {
                p -= 1;
            }
        }
        proof {
            placed_at(order, pv, i as int, p as int);
        }
        out.insert(p, i);
        assert(components::positions(out@) =~= order.insert(p as int, i as int));
        assert forall|k: int| 0 <= k < out@.len() implies (#[trigger] out@[k]) < i + 1 by {
            if k < p {
                assert(out@[k] == before[k]);
            } else if k > p {
                assert(out@[k] == before[k - 1]);
            }
        }
        i += 1;
    }
    out
}

// ---------------------------------------------------------------------------
// Tree
// ---------------------------------------------------------------------------

/// Whether lines have a group.
pub open spec fn has_group(nodes: Seq<NodeV>, path: Seq<char>) -> bool {
    exists|i: int|
        0 <= i < nodes.len() && (#[trigger] nodes[i] matches NodeV::Group(p, d) && p == path)
}

/// Lines with the groups of the first `n - 1` parts of a path, each once.
pub open spec fn with_groups(nodes: Seq<NodeV>, parts: Seq<Seq<char>>, n: int) -> Seq<NodeV>
    decreases n,
{
    if n <= 1 {
        nodes
    } else {
        let before = with_groups(nodes, parts, n - 1);
        if has_group(before, path_of(parts, n - 1)) {
            before
        } else {
            before.push(NodeV::Group(path_of(parts, n - 1), n - 2))
        }
    }
}

/// How deep a view stands.
pub open spec fn depth_of(parts: Seq<Seq<char>>) -> int {
    if parts.len() == 0 {
        0
    } else {
        parts.len() - 1
    }
}

/// The lines of views in order: before each view the groups above it that are
/// not there yet.
pub open spec fn lines_of(order: Seq<int>, paths: Seq<Seq<Seq<char>>>) -> Seq<NodeV>
    decreases order.len(),
{
    if order.len() == 0 {
        seq![]
    } else {
        let parts = paths[order.last()];
        with_groups(lines_of(order.drop_last(), paths), parts, parts.len() as int).push(
            NodeV::Leaf(order.last(), depth_of(parts)),
        )
    }
}

/// The paths of views.
pub open spec fn view_paths(views: Seq<graphql_client::View>) -> Seq<Seq<Seq<char>>> {
    Seq::new(views.len(), |i: int| parts_of(views[i].name@))
}

/// The tree of views.
pub open spec fn tree_of(views: Seq<graphql_client::View>) -> Seq<NodeV> {
    lines_of(path_order(view_paths(views), views.len() as int), view_paths(views))
}

/// Tests [`has_group`].
fn lists_group(nodes: &Vec<TreeNode>, path: &str) -> (r: bool)
    ensures
        r == has_group(nodes_view(nodes@), path@),
{
    let ghost all = nodes_view(nodes@);
    let mut i: usize = 0;
    while i < nodes.len()
        invariant
            i <= nodes@.len(),
            all == nodes_view(nodes@),
            forall|k: int|
                0 <= k < i ==> !(#[trigger] all[k] matches NodeV::Group(p, d) && p == path@),
        decreases nodes@.len() - i,
    {
        let hit = match &nodes[i] {
            TreeNode::Group(p, _) => text::same(p.as_str(), path),
            TreeNode::Leaf(_, _) => false,
        };
        assert(all[i as int] == nodes@[i as int]@);
        assert(hit == (all[i as int] matches NodeV::Group(p, d) && p == path@));
        if hit {
            return true;
        }
        i += 1;
    }
    false
}

/// The path of the first `n` parts.
fn join_parts(parts: &Vec<String>, n: usize) -> (r: String)
    requires
        n <= parts@.len(),
    ensures
        r@ == path_of(text::contents(parts@), n as int),
{
    let mut head: Vec<String> = Vec::new();
    let mut i: usize = 0;
    let ghost all = text::contents(parts@);
    while i < n
        invariant
            i <= n <= parts@.len(),
            all == text::contents(parts@),
            text::contents(head@) == all.take(i as int),
        decreases n - i,
    {
        let ghost before = head@;
        head.push(parts[i].clone());
        assert(text::contents(head@) =~= text::contents(before).push(all[i as int]));
        i += 1;
        assert(text::contents(head@) =~= all.take(i as int));
    }
    text::join(&head, "/")
}

/// Adds the groups above a view.
fn add_groups(nodes: &mut Vec<TreeNode>, parts: &Vec<String>)
    ensures
        nodes_view(final(nodes)@) == with_groups(
            nodes_view(old(nodes)@),
            text::contents(parts@),
            parts@.len() as int,
        ),
{
    let ghost start = nodes_view(nodes@);
    let ghost all = text::contents(parts@);
    let mut i: usize = 1;
    while i < parts.len()
        invariant
            1 <= i,
            i <= parts.len() || i == 1,
            all == text::contents(parts@),
            nodes_view(nodes@) == with_groups(start, all, i as int),
        decreases parts@.len() - i,
    {
        let path = join_parts(parts, i);
        if !lists_group(nodes, path.as_str()) {
            let ghost before = nodes@;
            nodes.push(TreeNode::Group(path, i - 1));
            assert(nodes_view(nodes@) =~= nodes_view(before).push(
                NodeV::Group(path_of(all, i as int), i - 1),
            ));
        }
        i += 1;
    }
}

/// Builds the tree of views.
pub fn build_tree(views: &[graphql_client::View]) -> (r: Vec<TreeNode>)
    ensures
        nodes_view(r@) == tree_of(views@),
{
    let mut paths: Vec<Vec<String>> = Vec::new();
    let ghost want = view_paths(views@);
    let mut i: usize = 0;
    assert(paths_view(paths@) =~= want.take(0));
    while i < views.len()
        invariant
            i <= views@.len(),
            want == view_paths(views@),
            paths_view(paths@) == want.take(i as int),
        decreases views@.len() - i,
    {
        let ghost before = paths@;
        let p = components::list_entries(views[i].name.as_str(), '/');
        paths.push(p);
        assert(paths_view(paths@) =~= paths_view(before).push(want[i as int]));
        i += 1;
        assert(paths_view(paths@) =~= want.take(i as int));
    }
    assert(want.take(i as int) =~= want);
    assert(paths@.len() == views@.len()) by {
        assert(paths_view(paths@).len() == want.len());
    }
    let order = sort_paths(&paths);
    let ghost ov = components::positions(order@);
    let mut out: Vec<TreeNode> = Vec::new();
    let mut k: usize = 0;
    assert(nodes_view(out@) =~= seq![]);
    while k < order.len()
        invariant
            k <= order@.len(),
            ov == components::positions(order@),
            paths_view(paths@) == want,
            forall|i: int| 0 <= i < order@.len() ==> (#[trigger] order@[i]) < paths@.len(),
            nodes_view(out@) == lines_of(ov.take(k as int), want),
        decreases order@.len() - k,
    {
        let j: usize = order[k];
        assert(ov.take(k + 1).drop_last() =~= ov.take(k as int));
        assert(ov.take(k + 1).last() == j as int);
        assert(want[j as int] == text::contents(paths@[j as int]@));
        add_groups(&mut out, &paths[j]);
        let depth: usize = if paths[j].len() == 0 {
            0
        } else {
            paths[j].len() - 1
        };
        let ghost before = out@;
        out.push(TreeNode::Leaf(j, depth));
        assert(nodes_view(out@) =~= nodes_view(before).push(NodeV::Leaf(j as int, depth as int)));
        k += 1;
    }
    assert(ov.take(k as int) =~= ov);
    out
}

// ---------------------------------------------------------------------------
// Groups of the sidebar
// ---------------------------------------------------------------------------

/// Where the sidebar shows a view.
#[derive(Debug, Clone, Copy, PartialEq, Eq, Structural)]
pub enum Section {
    /// Above the others: the default view.
    Base,
    Mine,
    Shared,
}

/// The section of a view.
pub open spec fn section_of(v: graphql_client::View) -> Section {
    if v.is_default {
        Section::Base
    } else if v.is_shared {
        Section::Shared
    } else {
        Section::Mine
    }
}

/// The section of a view.
pub fn section(v: &graphql_client::View) -> (r: Section)
    ensures
        r == section_of(*v),
{
    if v.is_default {
        Section::Base
    } else if v.is_shared {
        Section::Shared
    } else {
        Section::Mine
    }
}

/// The positions of the views of a section, in order.
pub open spec fn section_members(views: Seq<graphql_client::View>, s: Section) -> Seq<int>
    decreases views.len(),
{
    if views.len() == 0 {
        seq![]
    } else if section_of(views.last()) == s {
        section_members(views.drop_last(), s).push(views.len() - 1)
    } else {
        section_members(views.drop_last(), s)
    }
}

/// The views of a section, by their positions.
pub fn in_section(views: &[graphql_client::View], s: Section) -> (r: Vec<usize>)
    ensures
        components::positions(r@) == section_members(views@, s),
{
    let mut out: Vec<usize> = Vec::new();
    let mut i: usize = 0;
    assert(components::positions(out@) =~= seq![]);
    while i < views.len()
        invariant
            i <= views@.len(),
            components::positions(out@) == section_members(views@.take(i as int), s),
        decreases views@.len() - i,
    {
        let ghost before = out@;
        assert(views@.take(i + 1).drop_last() =~= views@.take(i as int));
        if section(&views[i]) == s {
            out.push(i);
            assert(components::positions(out@) =~= components::positions(before).push(i as int));
        }
        i += 1;
    }
    assert(views@.take(i as int) =~= views@);
    out
}

/// The last of some texts that is not blank, or a text for none.
pub open spec fn last_nonblank(pieces: Seq<Seq<char>>, none: Seq<char>) -> Seq<char>
    decreases pieces.len(),
{
    if pieces.len() == 0 {
        none
    } else if !text::is_blank(pieces.last()) {
        pieces.last()
    } else {
        last_nonblank(pieces.drop_last(), none)
    }
}

/// What a view is called in the tree: the last part of its name.
pub fn leaf_label(name: &str) -> (r: String)
    ensures
        r@ == last_nonblank(text::split_at_char(name@, '/'), name@),
{
    let pieces = text::split(name, '/');
    let ghost all = text::contents(pieces@);
    let mut i: usize = pieces.len();
    assert(all.take(i as int) =~= all);
    while i > 0
        invariant
            i <= pieces@.len(),
            all == text::contents(pieces@),
            all == text::split_at_char(name@, '/'),
            last_nonblank(all, name@) == last_nonblank(all.take(i as int), name@),
        decreases i,
    {
        assert(all.take(i as int).last() == pieces@[i - 1]@);
        assert(all.take(i as int).drop_last() =~= all.take(i - 1));
        if !text::blank(pieces[i - 1].as_str()) {
            return pieces[i - 1].clone();
        }
        i -= 1;
    }
    name.to_owned()
}

// ---------------------------------------------------------------------------
// Names for new views
// ---------------------------------------------------------------------------

/// What stands before the last slash of a name; nothing without one.
pub open spec fn group_prefix(name: Seq<char>) -> Seq<char> {
    let i = text::last_at(name, '/');
    if i >= 0 {
        name.take(i)
    } else {
        seq![]
    }
}

/// What stands before the last slash of a name.
fn prefix_of(name: &str) -> (r: String)
    ensures
        r@ == group_prefix(name@),
{
    let v = text::chars_of(name);
    match text::rfind_char(&v, '/') {
        Some(i) => {
            let r = text::string_of(&v, 0, i);
            assert(r@ =~= name@.take(i as int));
            r
        },
        None => {
            let r = String::new();
            assert(r@ =~= seq![]);
            r
        },
    }
}

/// Whether a name lies under a group, or is its name.
pub open spec fn under(n: Seq<char>, prefix: Seq<char>) -> bool {
    n == prefix || text::begins(n, prefix + "/"@)
}

/// Whether a name is one of the views near a name that is being typed.
pub open spec fn nearby(names: Seq<Seq<char>>, cur: Seq<char>, n: Seq<char>) -> bool {
    names.contains(n) && n != cur && under(n, group_prefix(cur))
}

/// Whether a name is offered as a group for a name that is being typed: a view
/// nearby that has another one under it, or the group that is typed already.
pub open spec fn group_offered(names: Seq<Seq<char>>, cur: Seq<char>, n: Seq<char>) -> bool {
    nearby(names, cur, n) && (n == group_prefix(cur) || exists|o: Seq<char>|
        #[trigger] nearby(names, cur, o) && o != n && text::begins(o, n + "/"@))
}

/// Whether texts are in order, each once.
pub open spec fn strictly_sorted(s: Seq<Seq<char>>) -> bool {
    forall|i: int, j: int|
        0 <= i < j < s.len() ==> text::text_le(#[trigger] s[i], #[trigger] s[j]) && s[i] != s[j]
}

/// Tests [`under`].
fn is_under(n: &str, prefix: &str) -> (r: bool)
    ensures
        r == under(n@, prefix@),
{
    text::same(n, prefix) || text::starts_with(n, text::concat2(prefix, "/").as_str())
}

/// Puts a text into a sorted list, where it is not there yet.
fn insert_sorted(list: &mut Vec<String>, s: &str)
    requires
        strictly_sorted(text::contents(old(list)@)),
    ensures
        strictly_sorted(text::contents(final(list)@)),
        forall|x: Seq<char>|
            #[trigger] text::contents(final(list)@).contains(x) <==> (x == s@ || text::contents(
                old(list)@,
            ).contains(x)),
{
    let ghost all = text::contents(list@);
    let mut p: usize = 0;
    while p < list.len() && text::at_most(list[p].as_str(), s)
        invariant
            p <= list@.len(),
            list@ == old(list)@,
            all == text::contents(list@),
            forall|k: int| 0 <= k < p ==> text::text_le(#[trigger] all[k], s@),
        decreases list@.len() - p,
    {
        assert(all[p as int] == list@[p as int]@);
        p += 1;
    }
    proof {
        if p < list@.len() {
            assert(all[p as int] == list@[p as int]@);
            assert(!text::text_le(all[p as int], s@));
        }
    }
    if p > 0 && text::same(list[p - 1].as_str(), s) {
        assert(all[p - 1] == s@);
        assert(all.contains(s@));
        return;
    }
    let ghost before = list@;
    list.insert(p, s.to_owned());
    let ghost now = text::contents(list@);
    proof {
        assert(now =~= all.insert(p as int, s@));
        if p > 0 {
            assert(all[p - 1] == before[p - 1]@);
        }
        assert forall|k: int| p <= k < all.len() implies text::text_le(s@, #[trigger] all[k])
            && all[k] != s@ by {
            text::text_le_total(s@, all[p as int]);
            if k > p {
                text::text_le_trans(s@, all[p as int], all[k]);
                if all[k] == s@ {
                    assert(text::text_le(all[p as int], all[k]));
                }
            }
        }
        assert forall|k: int| 0 <= k < p implies text::text_le(#[trigger] all[k], s@) && all[k]
            != s@ by {
            if k < p - 1 && all[k] == s@ {
                assert(text::text_le(all[k], all[p - 1]) && all[k] != all[p - 1]);
                text::text_le_total(all[k], all[p - 1]);
            }
        }
        assert forall|i: int, j: int| 0 <= i < j < now.len() implies text::text_le(
            #[trigger] now[i],
            #[trigger] now[j],
        ) && now[i] != now[j] by {
            let a = if i < p {
                i
            } else {
                i - 1
            };
            let b = if j < p {
                j
            } else {
                j - 1
            };
            if i != p && j != p {
                assert(now[i] == all[a] && now[j] == all[b]);
                assert(text::text_le(all[a], all[b]) && all[a] != all[b]);
            } else if i == p {
                assert(now[j] == all[b]);
            } else {
                assert(now[i] == all[a]);
            }
        }
        assert forall|x: Seq<char>| #[trigger] now.contains(x) implies x == s@ || all.contains(
            x,
        ) by {
            let i = choose|i: int| 0 <= i < now.len() && now[i] == x;
            if i < p {
                assert(all[i] == x);
            } else if i > p {
                assert(all[i - 1] == x);
            }
        }
        assert forall|x: Seq<char>| x == s@ || all.contains(x) implies #[trigger] now.contains(
            x,
        ) by {
            if x == s@ {
                assert(now[p as int] == x);
            } else {
                let i = choose|i: int| 0 <= i < all.len() && all[i] == x;
                if i < p {
                    assert(now[i] == x);
                } else {
                    assert(now[i + 1] == x);
                }
            }
        }
    }
}

/// The views nearby, in order.
fn nearby_views(names: &Vec<String>, cur: &str) -> (r: Vec<String>)
    ensures
        strictly_sorted(text::contents(r@)),
        forall|x: Seq<char>|
            #[trigger] text::contents(r@).contains(x) <==> nearby(
                text::contents(names@),
                cur@,
                x,
            ),
{
    let prefix = prefix_of(cur);
    let ghost all = text::contents(names@);
    let mut out: Vec<String> = Vec::new();
    let mut i: usize = 0;
    while i < names.len()
        invariant
            i <= names@.len(),
            all == text::contents(names@),
            prefix@ == group_prefix(cur@),
            strictly_sorted(text::contents(out@)),
            forall|x: Seq<char>|
                #[trigger] text::contents(out@).contains(x) <==> nearby(
                    all.take(i as int),
                    cur@,
                    x,
                ),
        decreases names@.len() - i,
    {
        let ghost before = text::contents(out@);
        let ghost n = all[i as int];
        assert(n == names@[i as int]@);
        proof {
            take_contains(all, i as int);
        }
        if !text::same(names[i].as_str(), cur) && is_under(names[i].as_str(), prefix.as_str()) {
            insert_sorted(&mut out, names[i].as_str());
            assert forall|x: Seq<char>|
                #[trigger] text::contents(out@).contains(x) <==> nearby(
                    all.take(i + 1),
                    cur@,
                    x,
                ) by {
                assert(text::contents(out@).contains(x) <==> (x == n || before.contains(x)));
            }
        } else {
            assert forall|x: Seq<char>|
                #[trigger] text::contents(out@).contains(x) <==> nearby(
                    all.take(i + 1),
                    cur@,
                    x,
                ) by {
                assert(before.contains(x) <==> nearby(all.take(i as int), cur@, x));
            }
        }
        i += 1;
    }
    assert(all.take(i as int) =~= all);
    out
}

/// What one text more adds.
proof fn take_contains(all: Seq<Seq<char>>, i: int)
    requires
        0 <= i < all.len(),
    ensures
        forall|x: Seq<char>|
            #[trigger] all.take(i + 1).contains(x) <==> (x == all[i] || all.take(i).contains(x)),
{
    let now = all.take(i + 1);
    let before = all.take(i);
    assert forall|x: Seq<char>| #[trigger] now.contains(x) implies x == all[i] || before.contains(
        x,
    ) by {
        let k = choose|k: int| 0 <= k < now.len() && now[k] == x;
        if k < i {
            assert(before[k] == x);
        }
    }
    assert forall|x: Seq<char>| x == all[i] || before.contains(x) implies #[trigger] now.contains(
        x,
    ) by {
        if x == all[i] {
            assert(now[i] == x);
        } else {
            let k = choose|k: int| 0 <= k < before.len() && before[k] == x;
            assert(now[k] == x);
        }
    }
}

/// The groups offered for a name that is being typed, in order.
pub fn group_hints(names: &Vec<String>, cur: &str) -> (r: Vec<String>)
    ensures
        strictly_sorted(text::contents(r@)),
        forall|x: Seq<char>|
            #[trigger] text::contents(r@).contains(x) <==> group_offered(
                text::contents(names@),
                cur@,
                x,
            ),
{
    let existing = nearby_views(names, cur);
    let prefix = prefix_of(cur);
    let ghost nv = text::contents(names@);
    let ghost all = text::contents(existing@);
    let mut out: Vec<String> = Vec::new();
    let mut i: usize = 0;
    while i < existing.len()
        invariant
            i <= existing@.len(),
            nv == text::contents(names@),
            all == text::contents(existing@),
            prefix@ == group_prefix(cur@),
            strictly_sorted(all),
            forall|x: Seq<char>| #[trigger] all.contains(x) <==> nearby(nv, cur@, x),
            strictly_sorted(text::contents(out@)),
            forall|x: Seq<char>|
                #[trigger] text::contents(out@).contains(x) <==> (all.take(i as int).contains(x)
                    && group_offered(nv, cur@, x)),
        decreases existing@.len() - i,
    {
        let ghost before = text::contents(out@);
        let ghost n = all[i as int];
        assert(n == existing@[i as int]@);
        let n_slash = text::concat2(existing[i].as_str(), "/");
        let mut parent = text::same(existing[i].as_str(), prefix.as_str());
        let mut j: usize = 0;
        while j < existing.len() && !parent
            invariant
                i < existing@.len(),
                j <= existing@.len(),
                all == text::contents(existing@),
                n == all[i as int],
                n == existing@[i as int]@,
                n_slash@ == n + "/"@,
                prefix@ == group_prefix(cur@),
                forall|x: Seq<char>| #[trigger] all.contains(x) <==> nearby(nv, cur@, x),
                parent ==> n == prefix@ || exists|o: Seq<char>|
                    #[trigger] nearby(nv, cur@, o) && o != n && text::begins(o, n + "/"@),
                !parent ==> n != prefix@,
                !parent ==> forall|k: int|
                    0 <= k < j ==> !(#[trigger] all[k] != n && text::begins(all[k], n + "/"@)),
            decreases existing@.len() - j,
        {
            let ghost o = all[j as int];
            assert(o == existing@[j as int]@);
            assert(all.contains(o));
            if !text::same(existing[j].as_str(), existing[i].as_str()) && text::starts_with(
                existing[j].as_str(),
                n_slash.as_str(),
            ) {
                assert(nearby(nv, cur@, o));
                parent = true;
            }
            j += 1;
        }
        proof {
            assert(all.contains(n));
            assert(nearby(nv, cur@, n));
            if !parent && group_offered(nv, cur@, n) {
                let o = choose|o: Seq<char>|
                    #[trigger] nearby(nv, cur@, o) && o != n && text::begins(o, n + "/"@);
                assert(all.contains(o));
                let k = choose|k: int| 0 <= k < all.len() && all[k] == o;
                assert(all[k] != n && text::begins(all[k], n + "/"@));
            }
            assert(parent == group_offered(nv, cur@, n));
            take_contains(all, i as int);
        }
        if parent {
            insert_sorted(&mut out, existing[i].as_str());
            assert forall|x: Seq<char>|
                #[trigger] text::contents(out@).contains(x) <==> (all.take(i + 1).contains(x)
                    && group_offered(nv, cur@, x)) by {
                assert(text::contents(out@).contains(x) <==> (x == n || before.contains(x)));
            }
        } else {
            assert forall|x: Seq<char>|
                #[trigger] text::contents(out@).contains(x) <==> (all.take(i + 1).contains(x)
                    && group_offered(nv, cur@, x)) by {
                assert(before.contains(x) <==> (all.take(i as int).contains(x) && group_offered(
                    nv,
                    cur@,
                    x,
                )));
            }
        }
        i += 1;
    }
    proof {
        assert(all.take(i as int) =~= all);
        assert forall|x: Seq<char>|
            #[trigger] text::contents(out@).contains(x) <==> group_offered(nv, cur@, x) by {
            assert(all.contains(x) <==> nearby(nv, cur@, x));
        }
    }
    out
}

/// A name after a group was picked for it: the group, a slash, and what the
/// name had under its own group.
pub open spec fn regrouped(cur: Seq<char>, group: Seq<char>) -> Seq<char> {
    let prefix = group_prefix(cur);
    if prefix.len() == 0 {
        group + "/"@
    } else {
        group + "/"@ + text::strip_all(text::strip_all(cur, prefix + "/"@), "/"@)
    }
}

/// Puts a name under a group.
pub fn pick_group(cur: &str, group: &str) -> (r: String)
    ensures
        r@ == regrouped(cur@, group@),
{
    let prefix = prefix_of(cur);
    if prefix.as_str().is_empty() {
        return text::concat2(group, "/");
    }
    let prefix_slash = text::concat2(prefix.as_str(), "/");
    let rest = text::strip_repeated(
        text::strip_repeated(cur, prefix_slash.as_str()).as_str(),
        "/",
    );
    text::concat3(group, "/", rest.as_str())
}

// ---------------------------------------------------------------------------
// Laws
// ---------------------------------------------------------------------------

/// What groups add to lines.
proof fn with_groups_props(nodes: Seq<NodeV>, parts: Seq<Seq<char>>, n: int)
    ensures
        nodes.len() <= with_groups(nodes, parts, n).len(),
        with_groups(nodes, parts, n).take(nodes.len() as int) == nodes,
        forall|i: int|
            nodes.len() <= i < with_groups(nodes, parts, n).len() ==> #[trigger] with_groups(
                nodes,
                parts,
                n,
            )[i] is Group,
        forall|m: int|
            1 <= m < n ==> has_group(with_groups(nodes, parts, n), #[trigger] path_of(parts, m)),
        groups_once(nodes) ==> groups_once(with_groups(nodes, parts, n)),
    decreases n,
{
    if n > 1 {
        with_groups_props(nodes, parts, n - 1);
        let before = with_groups(nodes, parts, n - 1);
        let now = with_groups(nodes, parts, n);
        let path = path_of(parts, n - 1);
        assert(now.take(nodes.len() as int) =~= nodes) by {
            assert forall|i: int| 0 <= i < nodes.len() implies now[i] == nodes[i] by {
                assert(before.take(nodes.len() as int)[i] == nodes[i]);
            }
        }
        assert forall|m: int| 1 <= m < n implies has_group(now, #[trigger] path_of(parts, m)) by {
            if m < n - 1 {
                assert(has_group(before, path_of(parts, m)));
                let k = choose|k: int|
                    0 <= k < before.len() && (#[trigger] before[k] matches NodeV::Group(p, d) && p
                        == path_of(parts, m));
                assert(now[k] == before[k]);
            } else if !has_group(before, path) {
                assert(now[before.len() as int] == NodeV::Group(path, n - 2));
            }
        }
        if groups_once(nodes) && !has_group(before, path) {
            assert forall|i: int, j: int| 0 <= i < j < now.len() implies !(
            #[trigger] now[i] matches NodeV::Group(p, d) && (
            #[trigger] now[j] matches NodeV::Group(q, e) && p == q)) by {
                if j < before.len() {
                    assert(now[i] == before[i] && now[j] == before[j]);
                } else if let NodeV::Group(p, d) = now[i] {
                    assert(now[i] == before[i]);
                    if p == path {
                        assert(before[i] matches NodeV::Group(p, d) && p == path);
                    }
                }
            }
        }
    } else {
        assert(nodes.take(nodes.len() as int) =~= nodes);
    }
}

/// Whether no group stands twice.
pub open spec fn groups_once(nodes: Seq<NodeV>) -> bool {
    forall|i: int, j: int|
        0 <= i < j < nodes.len() ==> !(#[trigger] nodes[i] matches NodeV::Group(p, d) && (
        #[trigger] nodes[j] matches NodeV::Group(q, e) && p == q))
}

/// Whether lines have all groups above a path.
pub open spec fn covers(lines: Seq<NodeV>, parts: Seq<Seq<char>>) -> bool {
    forall|m: int| 1 <= m < parts.len() ==> has_group(lines, #[trigger] path_of(parts, m))
}

/// Whether the lines before a line have all groups above it.
pub open spec fn covered(node: NodeV, before: Seq<NodeV>, paths: Seq<Seq<Seq<char>>>) -> bool {
    node matches NodeV::Leaf(v, d) ==> covers(before, paths[v])
}

/// Whether each group above a view stands before it.
pub open spec fn groups_first(nodes: Seq<NodeV>, paths: Seq<Seq<Seq<char>>>) -> bool {
    forall|k: int| 0 <= k < nodes.len() ==> covered(#[trigger] nodes[k], nodes.take(k), paths)
}

/// In the lines of views each group stands once, and before the views under
/// it; the views stand in their order.
proof fn lines_props(order: Seq<int>, paths: Seq<Seq<Seq<char>>>)
    ensures
        groups_once(lines_of(order, paths)),
        groups_first(lines_of(order, paths), paths),
        forall|i: int|
            0 <= i < order.len() ==> lines_of(order, paths).contains(
                NodeV::Leaf(#[trigger] order[i], depth_of(paths[order[i]])),
            ),
    decreases order.len(),
{
    if order.len() > 0 {
        let d = order.drop_last();
        lines_props(d, paths);
        let old_lines = lines_of(d, paths);
        let x = order.last();
        let parts = paths[x];
        let mid = with_groups(old_lines, parts, parts.len() as int);
        let leaf = NodeV::Leaf(x, depth_of(parts));
        let now = lines_of(order, paths);
        with_groups_props(old_lines, parts, parts.len() as int);
        assert(now == mid.push(leaf));
        assert forall|i: int, j: int| 0 <= i < j < now.len() implies !(
        #[trigger] now[i] matches NodeV::Group(p, e) && (
        #[trigger] now[j] matches NodeV::Group(q, f) && p == q)) by {
            if j < mid.len() {
                assert(now[i] == mid[i] && now[j] == mid[j]);
            }
        }
        assert forall|k: int| 0 <= k < now.len() implies covered(
            #[trigger] now[k],
            now.take(k),
            paths,
        ) by {
            if let NodeV::Leaf(v, e) = now[k] {
                if k < old_lines.len() {
                    assert(mid.take(old_lines.len() as int)[k] == old_lines[k]);
                    assert(now[k] == old_lines[k]);
                    assert(old_lines.take(k) =~= now.take(k)) by {
                        assert forall|i: int| 0 <= i < k implies old_lines[i] == now[i] by {
                            assert(mid.take(old_lines.len() as int)[i] == old_lines[i]);
                        }
                    }
                } else if k < mid.len() {
                    assert(mid[k] is Group);
                } else {
                    assert(now.take(k) =~= mid);
                }
            }
        }
        assert forall|i: int| 0 <= i < order.len() implies now.contains(
            NodeV::Leaf(#[trigger] order[i], depth_of(paths[order[i]])),
        ) by {
            if i < d.len() {
                let l = NodeV::Leaf(d[i], depth_of(paths[d[i]]));
                assert(old_lines.contains(l));
                let k = choose|k: int| 0 <= k < old_lines.len() && old_lines[k] == l;
                assert(mid.take(old_lines.len() as int)[k] == old_lines[k]);
                assert(now[k] == l);
            } else {
                assert(now[mid.len() as int] == leaf);
            }
        }
    }
}

/// In the tree of views every view has a line, no group stands twice, and each
/// group above a view stands before it.
pub proof fn tree_is_complete(views: Seq<graphql_client::View>)
    ensures
        groups_once(tree_of(views)),
        groups_first(tree_of(views), view_paths(views)),
        forall|i: int|
            0 <= i < views.len() ==> tree_of(views).contains(
                NodeV::Leaf(i, depth_of(#[trigger] view_paths(views)[i])),
            ),
{
    let paths = view_paths(views);
    let n = views.len() as int;
    let order = path_order(paths, n);
    order_is_complete(paths, n);
    lines_props(order, paths);
    assert forall|i: int| 0 <= i < views.len() implies tree_of(views).contains(
        NodeV::Leaf(i, depth_of(#[trigger] paths[i])),
    ) by {
        assert(order.contains(i));
        let k = choose|k: int| 0 <= k < order.len() && order[k] == i;
        assert(lines_of(order, paths).contains(NodeV::Leaf(order[k], depth_of(paths[order[k]]))));
    }
}

/// The lines of a tree number one for each view and one for each group: no
/// view has two lines.
pub proof fn tree_has_one_line_per_view(views: Seq<graphql_client::View>, a: int, b: int)
    requires
        0 <= a < b < tree_of(views).len(),
        tree_of(views)[a] is Leaf,
        tree_of(views)[b] is Leaf,
    ensures
        tree_of(views)[a]->Leaf_0 != tree_of(views)[b]->Leaf_0,
{
    let paths = view_paths(views);
    let n = views.len() as int;
    order_once(paths, n);
    leaves_follow_order(path_order(paths, n), paths, a, b);
}

/// The order of paths holds no position twice.
proof fn order_once(paths: Seq<Seq<Seq<char>>>, n: int)
    ensures
        path_order(paths, n).no_duplicates(),
    decreases n,
{
    if n > 0 {
        order_once(paths, n - 1);
        order_is_complete(paths, n - 1);
        let before = path_order(paths, n - 1);
        assert(!before.contains(n - 1));
        placed_once(before, paths, n - 1);
    }
}

/// Placing a new position keeps each once.
proof fn placed_once(order: Seq<int>, paths: Seq<Seq<Seq<char>>>, x: int)
    requires
        order.no_duplicates(),
        !order.contains(x),
    ensures
        placed(order, paths, x).no_duplicates(),
    decreases order.len(),
{
    let r = placed(order, paths, x);
    if order.len() == 0 || parts_le(paths[order.last()], paths[x]) {
        assert forall|i: int, j: int| 0 <= i < r.len() && 0 <= j < r.len() && i != j implies r[i]
            != r[j] by {
            if i < order.len() && j < order.len() {
                assert(order[i] != order[j]);
            } else if i < order.len() {
                assert(order.contains(order[i]));
            } else {
                assert(order.contains(order[j]));
            }
        }
    } else {
        let d = order.drop_last();
        assert forall|y: int| d.contains(y) implies order.contains(y) by {
            let k = choose|k: int| 0 <= k < d.len() && d[k] == y;
            assert(order[k] == y);
        }
        placed_once(d, paths, x);
        placed_elements(d, paths, x);
        let rd = placed(d, paths, x);
        let l = order.last();
        assert(!rd.contains(l)) by {
            if rd.contains(l) {
                if l == x {
                    assert(order[order.len() - 1] == x);
                } else {
                    let k = choose|k: int| 0 <= k < d.len() && d[k] == l;
                    assert(order[k] == order[order.len() - 1]);
                }
            }
        }
        assert forall|i: int, j: int| 0 <= i < r.len() && 0 <= j < r.len() && i != j implies r[i]
            != r[j] by {
            if i < rd.len() && j < rd.len() {
                assert(rd[i] != rd[j]);
            } else if i < rd.len() {
                assert(rd.contains(rd[i]));
            } else {
                assert(rd.contains(rd[j]));
            }
        }
    }
}

/// Views have lines only by the order, each place of which gives one.
proof fn leaves_follow_order(order: Seq<int>, paths: Seq<Seq<Seq<char>>>, a: int, b: int)
    requires
        order.no_duplicates(),
        0 <= a < b < lines_of(order, paths).len(),
        lines_of(order, paths)[a] is Leaf,
        lines_of(order, paths)[b] is Leaf,
    ensures
        lines_of(order, paths)[a]->Leaf_0 != lines_of(order, paths)[b]->Leaf_0,
        order.contains(lines_of(order, paths)[a]->Leaf_0),
    decreases order.len(),
{
    if order.len() > 0 {
        let d = order.drop_last();
        let old_lines = lines_of(d, paths);
        let parts = paths[order.last()];
        let mid = with_groups(old_lines, parts, parts.len() as int);
        let now = lines_of(order, paths);
        with_groups_props(old_lines, parts, parts.len() as int);
        assert(a < old_lines.len()) by {
            if a >= old_lines.len() {
                assert(mid[a] is Group);
            }
        }
        assert(mid.take(old_lines.len() as int)[a] == old_lines[a]);
        leaf_in_order(d, paths, a);
        let v = old_lines[a]->Leaf_0;
        let k = choose|k: int| 0 <= k < d.len() && d[k] == v;
        assert(order[k] == v);
        if b < old_lines.len() {
            assert(mid.take(old_lines.len() as int)[b] == old_lines[b]);
            leaves_follow_order(d, paths, a, b);
        } else if b < mid.len() {
            assert(mid[b] is Group);
        } else {
            assert(order[k] != order[order.len() - 1]);
        }
    }
}

/// A line of a view names a position of the order.
proof fn leaf_in_order(order: Seq<int>, paths: Seq<Seq<Seq<char>>>, a: int)
    requires
        0 <= a < lines_of(order, paths).len(),
        lines_of(order, paths)[a] is Leaf,
    ensures
        order.contains(lines_of(order, paths)[a]->Leaf_0),
    decreases order.len(),
{
    if order.len() > 0 {
        let d = order.drop_last();
        let old_lines = lines_of(d, paths);
        let parts = paths[order.last()];
        let mid = with_groups(old_lines, parts, parts.len() as int);
        with_groups_props(old_lines, parts, parts.len() as int);
        if a < old_lines.len() {
            assert(mid.take(old_lines.len() as int)[a] == old_lines[a]);
            leaf_in_order(d, paths, a);
            let v = old_lines[a]->Leaf_0;
            let k = choose|k: int| 0 <= k < d.len() && d[k] == v;
            assert(order[k] == v);
        } else if a < mid.len() {
            assert(mid[a] is Group);
        } else {
            assert(order[order.len() - 1] == order.last());
        }
    }
}

/// The parts of a name stand between its slashes, without the white space
/// around them; blank ones do not count.
pub proof fn parts_between_slashes(a: Seq<char>, m: Seq<char>, b: Seq<char>, rest: Seq<char>)
    requires
        text::all_white(a),
        text::all_white(b),
        m.len() > 0 ==> !text::is_white(m[0]) && !text::is_white(m.last()),
        !(a + m + b).contains('/'),
    ensures
        parts_of((a + m + b) + seq!['/'] + rest) == (if m.len() == 0 {
            Seq::<Seq<char>>::empty()
        } else {
            seq![m]
        }) + parts_of(rest),
        parts_of(a + m + b) == (if m.len() == 0 {
            Seq::<Seq<char>>::empty()
        } else {
            seq![m]
        }),
{
    let w = a + m + b;
    text::pieces_between_separators(w, '/', rest);
    crate::draft_laws::blank_texts_are_left_out(
        seq![w],
        text::split_at_char(rest, '/'),
        a,
        m,
        b,
    );
}

/// Paths are in the order of the first parts in which they differ, and a path
/// comes before those under it.
pub proof fn first_parts_decide(
    p: Seq<Seq<char>>,
    a: Seq<char>,
    x: Seq<Seq<char>>,
    b: Seq<char>,
    y: Seq<Seq<char>>,
)
    requires
        a != b,
    ensures
        parts_le(p + seq![a] + x, p + seq![b] + y) == text::text_le(a, b),
        parts_le(p, p + x),
        x.len() > 0 ==> !parts_le(p + x, p),
    decreases p.len(),
{
    let s = p + seq![a] + x;
    let t = p + seq![b] + y;
    if p.len() > 0 {
        let q = p.skip(1);
        first_parts_decide(q, a, x, b, y);
        assert(s.skip(1) =~= q + seq![a] + x);
        assert(t.skip(1) =~= q + seq![b] + y);
        assert((p + x).skip(1) =~= q + x);
    } else {
        assert(s[0] == a && t[0] == b);
    }
}

proof fn parts_le_total(a: Seq<Seq<char>>, b: Seq<Seq<char>>)
    ensures
        parts_le(a, b) || parts_le(b, a),
        parts_le(a, a),
    decreases a.len(),
{
    if a.len() > 0 {
        parts_le_total(a.skip(1), b.skip(1));
        if b.len() > 0 {
            text::text_le_total(a[0], b[0]);
        }
    }
}

proof fn parts_le_trans(a: Seq<Seq<char>>, b: Seq<Seq<char>>, c: Seq<Seq<char>>)
    requires
        parts_le(a, b),
        parts_le(b, c),
    ensures
        parts_le(a, c),
    decreases a.len(),
{
    if a.len() > 0 && b.len() > 0 && c.len() > 0 {
        if a[0] == b[0] && b[0] == c[0] {
            parts_le_trans(a.skip(1), b.skip(1), c.skip(1));
        } else if a[0] != b[0] && b[0] != c[0] {
            text::text_le_trans(a[0], b[0], c[0]);
            if a[0] == c[0] {
                text::text_le_total(a[0], b[0]);
            }
        }
    }
}

/// Whether positions are in the order of their paths, and of themselves where
/// the paths are equal.
pub open spec fn in_path_order(order: Seq<int>, paths: Seq<Seq<Seq<char>>>) -> bool {
    forall|i: int, j: int|
        0 <= i < j < order.len() ==> {
            let (a, b) = (#[trigger] order[i], #[trigger] order[j]);
            parts_le(paths[a], paths[b]) && (paths[a] == paths[b] ==> a < b)
        }
}

proof fn placed_in_order(order: Seq<int>, paths: Seq<Seq<Seq<char>>>, x: int)
    requires
        in_path_order(order, paths),
        forall|i: int| 0 <= i < order.len() ==> (#[trigger] order[i]) < x,
    ensures
        in_path_order(placed(order, paths, x), paths),
    decreases order.len(),
{
    let r = placed(order, paths, x);
    if order.len() == 0 || parts_le(paths[order.last()], paths[x]) {
        assert forall|i: int, j: int| 0 <= i < j < r.len() implies {
            let (a, b) = (#[trigger] r[i], #[trigger] r[j]);
            parts_le(paths[a], paths[b]) && (paths[a] == paths[b] ==> a < b)
        } by {
            if j < order.len() {
                assert(r[i] == order[i] && r[j] == order[j]);
            } else {
                assert(r[i] == order[i]);
                if i < order.len() - 1 {
                    assert(order[order.len() - 1] == order.last());
                    parts_le_trans(paths[order[i]], paths[order.last()], paths[x]);
                }
            }
        }
    } else {
        let d = order.drop_last();
        let l = order.last();
        assert(forall|i: int| 0 <= i < d.len() ==> (#[trigger] d[i]) == order[i]);
        assert(in_path_order(d, paths)) by {
            assert forall|i: int, j: int| 0 <= i < j < d.len() implies {
                let (a, b) = (#[trigger] d[i], #[trigger] d[j]);
                parts_le(paths[a], paths[b]) && (paths[a] == paths[b] ==> a < b)
            } by {
                assert(d[i] == order[i] && d[j] == order[j]);
            }
        }
        placed_in_order(d, paths, x);
        placed_elements(d, paths, x);
        let rd = placed(d, paths, x);
        parts_le_total(paths[l], paths[x]);
        assert forall|i: int, j: int| 0 <= i < j < r.len() implies {
            let (a, b) = (#[trigger] r[i], #[trigger] r[j]);
            parts_le(paths[a], paths[b]) && (paths[a] == paths[b] ==> a < b)
        } by {
            if j < rd.len() {
                assert(r[i] == rd[i] && r[j] == rd[j]);
            } else {
                assert(rd.contains(rd[i]));
                if rd[i] == x {
                    parts_le_total(paths[x], paths[x]);
                } else {
                    let k = choose|k: int| 0 <= k < d.len() && d[k] == rd[i];
                    assert(order[k] == rd[i]);
                    assert(order[order.len() - 1] == l);
                }
            }
        }
    }
}

/// The order of paths is that of their parts, equal ones as they were.
pub proof fn paths_are_in_order(paths: Seq<Seq<Seq<char>>>, n: int)
    ensures
        in_path_order(path_order(paths, n), paths),
    decreases n,
{
    if n > 0 {
        paths_are_in_order(paths, n - 1);
        order_is_complete(paths, n - 1);
        let before = path_order(paths, n - 1);
        assert forall|i: int| 0 <= i < before.len() implies (#[trigger] before[i]) < n - 1 by {
            assert(before.contains(before[i]));
        }
        placed_in_order(before, paths, n - 1);
    }
}

/// Whether lines of views are in the order of an order.
spec fn leaves_in_order(lines: Seq<NodeV>, paths: Seq<Seq<Seq<char>>>) -> bool {
    forall|a: int, b: int|
        0 <= a < b < lines.len() && #[trigger] lines[a] is Leaf && #[trigger] lines[b] is Leaf ==> {
            let (x, y) = (lines[a]->Leaf_0, lines[b]->Leaf_0);
            parts_le(paths[x], paths[y]) && (paths[x] == paths[y] ==> x < y)
        }
}

proof fn lines_in_order(order: Seq<int>, paths: Seq<Seq<Seq<char>>>)
    requires
        in_path_order(order, paths),
    ensures
        leaves_in_order(lines_of(order, paths), paths),
    decreases order.len(),
{
    if order.len() > 0 {
        let d = order.drop_last();
        assert(in_path_order(d, paths)) by {
            assert forall|i: int, j: int| 0 <= i < j < d.len() implies {
                let (a, b) = (#[trigger] d[i], #[trigger] d[j]);
                parts_le(paths[a], paths[b]) && (paths[a] == paths[b] ==> a < b)
            } by {
                assert(d[i] == order[i] && d[j] == order[j]);
            }
        }
        lines_in_order(d, paths);
        let before = lines_of(d, paths);
        let parts = paths[order.last()];
        let mid = with_groups(before, parts, parts.len() as int);
        with_groups_props(before, parts, parts.len() as int);
        let now = lines_of(order, paths);
        assert forall|a: int, b: int|
            0 <= a < b < now.len() && #[trigger] now[a] is Leaf && #[trigger] now[b] is Leaf implies {
            let (x, y) = (now[a]->Leaf_0, now[b]->Leaf_0);
            parts_le(paths[x], paths[y]) && (paths[x] == paths[y] ==> x < y)
        } by {
            assert(a < mid.len());
            assert(now[a] == mid[a]);
            if a >= before.len() {
                assert(mid[a] is Group);
            }
            assert(mid.take(before.len() as int)[a] == before[a]);
            if b < mid.len() {
                assert(now[b] == mid[b]);
                if b >= before.len() {
                    assert(mid[b] is Group);
                }
                assert(mid.take(before.len() as int)[b] == before[b]);
            } else {
                leaf_in_order(d, paths, a);
                let v = before[a]->Leaf_0;
                let k = choose|k: int| 0 <= k < d.len() && d[k] == v;
                assert(order[k] == v);
                assert(order[order.len() - 1] == order.last());
            }
        }
    }
}

/// In the tree, views stand in the order of the parts of their names, and those
/// of equal parts as they were; a view is as deep as its name has parts before
/// its last.
pub proof fn views_are_in_order(views: Seq<graphql_client::View>, a: int, b: int)
    requires
        0 <= a < b < tree_of(views).len(),
        tree_of(views)[a] is Leaf,
        tree_of(views)[b] is Leaf,
    ensures
        ({
            let (x, y) = (tree_of(views)[a]->Leaf_0, tree_of(views)[b]->Leaf_0);
            let (p, q) = (parts_of(views[x].name@), parts_of(views[y].name@));
            &&& 0 <= x < views.len() && 0 <= y < views.len()
            &&& parts_le(p, q)
            &&& p == q ==> x < y
            &&& p.len() > 0 ==> tree_of(views)[a]->Leaf_1 == p.len() - 1
            &&& p.len() == 0 ==> tree_of(views)[a]->Leaf_1 == 0
        }),
{
    let paths = view_paths(views);
    let n = views.len() as int;
    let order = path_order(paths, n);
    paths_are_in_order(paths, n);
    order_is_complete(paths, n);
    lines_in_order(order, paths);
    leaf_in_order(order, paths, a);
    leaf_in_order(order, paths, b);
    lines_are_parts(order, paths, a);
}

/// Whether a line is a view with its depth, or a group of the first parts of a
/// view's name, with as many groups above it as it has parts before its last.
pub open spec fn is_line(node: NodeV, order: Seq<int>, paths: Seq<Seq<Seq<char>>>) -> bool {
    match node {
        NodeV::Leaf(i, d) => {
            &&& order.contains(i)
            &&& paths[i].len() > 0 ==> d == paths[i].len() - 1
            &&& paths[i].len() == 0 ==> d == 0
        },
        NodeV::Group(p, d) => leads_to_one(p, d, order, paths),
    }
}

/// Whether a group is above one of some paths.
pub open spec fn leads_to_one(
    group: Seq<char>,
    depth: int,
    order: Seq<int>,
    paths: Seq<Seq<Seq<char>>>,
) -> bool {
    exists|i: int| order.contains(i) && #[trigger] leads_to(group, depth, paths[i])
}

/// Whether a group is above a path: its name is the first parts of the path,
/// joined by slashes, and it is as deep as it has parts before its last.
pub open spec fn leads_to(group: Seq<char>, depth: int, parts: Seq<Seq<char>>) -> bool {
    0 < depth + 1 < parts.len() && group == text::joined(parts.take(depth + 1), "/"@)
}

proof fn groups_are_parts(
    nodes: Seq<NodeV>,
    order: Seq<int>,
    paths: Seq<Seq<Seq<char>>>,
    x: int,
    n: int,
)
    requires
        order.contains(x),
        n <= paths[x].len(),
        forall|k: int| 0 <= k < nodes.len() ==> is_line(#[trigger] nodes[k], order, paths),
    ensures
        forall|k: int|
            0 <= k < with_groups(nodes, paths[x], n).len() ==> is_line(
                #[trigger] with_groups(nodes, paths[x], n)[k],
                order,
                paths,
            ),
    decreases n,
{
    if n > 1 {
        groups_are_parts(nodes, order, paths, x, n - 1);
        let before = with_groups(nodes, paths[x], n - 1);
        let now = with_groups(nodes, paths[x], n);
        let p = path_of(paths[x], n - 1);
        let group = NodeV::Group(p, n - 2);
        assert(leads_to(p, n - 2, paths[x]));
        assert(leads_to_one(p, n - 2, order, paths));
        assert(is_line(group, order, paths));
        assert(now == before || now == before.push(group));
        assert forall|k: int| 0 <= k < now.len() implies is_line(
            #[trigger] now[k],
            order,
            paths,
        ) by {
            if k < before.len() {
                assert(now[k] == before[k]);
            } else {
                assert(now[k] == group);
            }
        }
    }
}

proof fn lines_are_parts(order: Seq<int>, paths: Seq<Seq<Seq<char>>>, a: int)
    requires
        0 <= a < lines_of(order, paths).len(),
    ensures
        is_line(lines_of(order, paths)[a], order, paths),
    decreases order.len(),
{
    if order.len() > 0 {
        let d = order.drop_last();
        let before = lines_of(d, paths);
        let x = order.last();
        assert(order.contains(x)) by {
            assert(order[order.len() - 1] == x);
        }
        assert forall|k: int| 0 <= k < before.len() implies is_line(
            #[trigger] before[k],
            order,
            paths,
        ) by {
            lines_are_parts(d, paths, k);
            assert forall|i: int| d.contains(i) implies order.contains(i) by {
                let m = choose|m: int| 0 <= m < d.len() && d[m] == i;
                assert(order[m] == i);
            }
            if let NodeV::Group(p, e) = before[k] {
                let i = choose|i: int| d.contains(i) && #[trigger] leads_to(p, e, paths[i]);
                assert(order.contains(i));
                assert(leads_to_one(p, e, order, paths));
            }
        }
        groups_are_parts(before, order, paths, x, paths[x].len() as int);
    }
}

/// Each group of the tree is made of the first parts of some view's name, joined
/// by slashes, and is as deep as it has parts before its last.
pub proof fn groups_are_above_views(views: Seq<graphql_client::View>, a: int)
    requires
        0 <= a < tree_of(views).len(),
        tree_of(views)[a] is Group,
    ensures
        exists|i: int|
            0 <= i < views.len() && #[trigger] leads_to(
                tree_of(views)[a]->Group_0,
                tree_of(views)[a]->Group_1,
                parts_of(views[i].name@),
            ),
{
    let paths = view_paths(views);
    let n = views.len() as int;
    let order = path_order(paths, n);
    order_is_complete(paths, n);
    lines_are_parts(order, paths, a);
    let d = tree_of(views)[a]->Group_1;
    let p = tree_of(views)[a]->Group_0;
    let i = choose|i: int| order.contains(i) && #[trigger] leads_to(p, d, paths[i]);
    assert(leads_to(p, d, parts_of(views[i].name@)));
}

/// A section lists its views in their order: the default view stands above, and
/// of the others those that are shared apart from those that are not.
pub proof fn sections_are_parted(
    views: Seq<graphql_client::View>,
    v: graphql_client::View,
    s: Section,
)
    ensures
        section_members(seq![], s).len() == 0,
        section_members(views.push(v), s) == (if (s == Section::Base && v.is_default) || (s
            == Section::Shared && !v.is_default && v.is_shared) || (s == Section::Mine
            && !v.is_default && !v.is_shared) {
            section_members(views, s).push(views.len() as int)
        } else {
            section_members(views, s)
        }),
{
    assert(views.push(v).drop_last() =~= views);
    assert(views.push(v).last() == v);
}

/// A view is called by what follows the last slash of its name; where that is
/// blank, by what the name before it is called.
pub proof fn views_are_called_by_their_last_parts(a: Seq<char>, w: Seq<char>, none: Seq<char>)
    requires
        !w.contains('/'),
    ensures
        last_nonblank(text::split_at_char(a + seq!['/'] + w, '/'), none) == (if text::all_white(
            w,
        ) {
            last_nonblank(text::split_at_char(a, '/'), none)
        } else {
            w
        }),
        last_nonblank(text::split_at_char(w, '/'), none) == (if text::all_white(w) {
            none
        } else {
            w
        }),
    decreases a.len(),
{
    text::blank_is_white(w);
    text::pieces_between_separators(w, '/', seq![]);
    split_last(a, w);
    let one = seq![w];
    assert(one.last() == w);
    assert(one.drop_last() =~= seq![]);
    assert(last_nonblank(one.drop_last(), none) == none);
    let x = text::split_at_char(a, '/');
    assert(x.push(w).last() == w);
    assert(x.push(w).drop_last() =~= x);
}

proof fn split_last(a: Seq<char>, w: Seq<char>)
    requires
        !w.contains('/'),
    ensures
        text::split_at_char(a + seq!['/'] + w, '/') == text::split_at_char(a, '/').push(w),
    decreases a.len(),
{
    let s = a + seq!['/'] + w;
    let n = text::first_at(a, '/');
    text::first_at_props(a, '/');
    text::pieces_between_separators(w, '/', seq![]);
    if n == a.len() {
        assert(!a.contains('/'));
        text::pieces_between_separators(a, '/', w);
        assert(seq![a] + seq![w] =~= seq![a].push(w));
    } else {
        let head = a.take(n);
        let rest = a.skip(n + 1);
        assert(!head.contains('/')) by {
            if head.contains('/') {
                let k = choose|k: int| 0 <= k < head.len() && head[k] == '/';
                assert(a[k] == '/');
            }
        }
        split_last(rest, w);
        assert(a =~= head + seq!['/'] + rest);
        assert(s =~= head + seq!['/'] + (rest + seq!['/'] + w));
        text::pieces_between_separators(head, '/', rest);
        text::pieces_between_separators(head, '/', rest + seq!['/'] + w);
        assert(seq![head] + text::split_at_char(rest, '/').push(w) =~= (seq![head]
            + text::split_at_char(rest, '/')).push(w));
    }
}

/// The group of a name is what stands before its last slash. Picking another
/// keeps what follows the slash; a name without a slash is begun anew under the
/// group.
pub proof fn names_are_regrouped(a: Seq<char>, w: Seq<char>, group: Seq<char>)
    requires
        !w.contains('/'),
    ensures
        group_prefix(a + seq!['/'] + w) == a,
        group_prefix(w) == Seq::<char>::empty(),
        a.len() > 0 ==> regrouped(a + seq!['/'] + w, group) == group + seq!['/'] + w,
        regrouped(w, group) == group + seq!['/'],
{
    reveal_strlit("/");
    assert("/"@ =~= seq!['/']);
    let s = a + seq!['/'] + w;
    text::last_separator(a, '/', w);
    assert(s.take(a.len() as int) =~= a);
    let head = a + "/"@;
    assert(s =~= head + w);
    assert(text::begins(s, head)) by {
        assert(s.subrange(0, head.len() as int) =~= head);
    }
    assert(s.skip(head.len() as int) =~= w);
    no_slash(w, head, a.len() as int);
    no_slash(w, "/"@, 0);
}

proof fn no_slash(w: Seq<char>, head: Seq<char>, k: int)
    requires
        !w.contains('/'),
        0 <= k < head.len(),
        head[k] == '/',
    ensures
        text::strip_all(w, head) == w,
{
    if text::begins(w, head) {
        assert(w.subrange(0, head.len() as int)[k] == w[k]);
        assert(w[k] == '/');
    }
}

/// For a name that is being typed under a group, the groups on offer are names
/// of other views in the group: the group itself where a view has its name, and
/// those that a further view is under.
pub proof fn groups_on_offer(
    names: Seq<Seq<char>>,
    p: Seq<char>,
    w: Seq<char>,
    n: Seq<char>,
    rest: Seq<char>,
)
    requires
        !w.contains('/'),
        names.contains(n),
        n != p + seq!['/'] + w,
    ensures
        n == p ==> group_offered(names, p + seq!['/'] + w, n),
        n == p + seq!['/'] + rest && names.contains(n + seq!['/'] + w) && n + seq!['/'] + w != p
            + seq!['/'] + w ==> group_offered(names, p + seq!['/'] + w, n),
        group_offered(names, p + seq!['/'] + w, n) ==> n == p || text::begins(n, p + seq!['/']),
        !group_offered(names, p + seq!['/'] + w, p + seq!['/'] + w),
        !names.contains(rest) ==> !group_offered(names, p + seq!['/'] + w, rest),
{
    reveal_strlit("/");
    assert("/"@ =~= seq!['/']);
    let cur = p + seq!['/'] + w;
    names_are_regrouped(p, w, p);
    assert(group_prefix(cur) == p);
    if n == p + seq!['/'] + rest && names.contains(n + seq!['/'] + w) && n + seq!['/'] + w != cur {
        let o = n + seq!['/'] + w;
        let head = p + seq!['/'];
        assert(n.subrange(0, head.len() as int) =~= head);
        assert(o.subrange(0, head.len() as int) =~= head);
        let more = n + seq!['/'];
        assert(o.subrange(0, more.len() as int) =~= more);
        assert(o.len() > n.len());
        assert(nearby(names, cur, o));
    }
}

} // verus!
