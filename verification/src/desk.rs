//! The page of a workspace: its views, the one that is shown, and the filter
//! that is being edited.

use vstd::prelude::*;

use crate::audit;
use crate::expr_input::TimeKind;
use crate::graphql_client::{ViewSort, ViewTimeline};
use crate::json;
use crate::json::{Json, JsonV};
use crate::sorting;
use crate::sorting::SortRequest;
use crate::text;
use crate::view_filter;

verus! {

/// A saved view as the page works with it.
#[derive(Debug, Clone)]
pub struct SavedView {
    pub id: String,
    pub name: String,
    pub query: Json,
    /// The query as an expression.
    pub query_expr: String,
    pub sorts: Vec<ViewSort>,
    pub columns: Vec<String>,
    pub is_shared: bool,
    pub title_colors: Json,
    /// The view of everything, whose filters are not saved.
    pub is_default: bool,
    pub timeline: Option<ViewTimeline>,
}

/// The content of a saved view.
pub struct SavedViewV {
    pub id: Seq<char>,
    pub name: Seq<char>,
    pub query: JsonV,
    pub query_expr: Seq<char>,
    pub sorts: Seq<(Seq<char>, bool)>,
    pub columns: Seq<Seq<char>>,
    pub is_shared: bool,
    pub title_colors: JsonV,
    pub is_default: bool,
    pub timeline: Option<(Seq<char>, Seq<char>, Option<Seq<char>>)>,
}

/// The content of the timeline settings of a view.
pub open spec fn timeline_view(t: Option<ViewTimeline>) -> Option<
    (Seq<char>, Seq<char>, Option<Seq<char>>),
> {
    match t {
        Some(t) => Some((t.start@, t.end@, text::opt_view(t.person))),
        None => None,
    }
}

impl View for SavedView {
    type V = SavedViewV;

    open spec fn view(&self) -> SavedViewV {
        SavedViewV {
            id: self.id@,
            name: self.name@,
            query: self.query@,
            query_expr: self.query_expr@,
            sorts: sorting::sorts_view(self.sorts@),
            columns: text::contents(self.columns@),
            is_shared: self.is_shared,
            title_colors: self.title_colors@,
            is_default: self.is_default,
            timeline: timeline_view(self.timeline),
        }
    }
}

/// The content of an optional view.
pub open spec fn opt_saved(v: Option<SavedView>) -> Option<SavedViewV> {
    match v {
        Some(v) => Some(v@),
        None => None,
    }
}

/// The contents of views.
pub open spec fn saved_views(list: Seq<SavedView>) -> Seq<SavedViewV> {
    Seq::new(list.len(), |i: int| list[i]@)
}

/// A copy of timeline settings.
pub fn copy_timeline(t: &Option<ViewTimeline>) -> (r: Option<ViewTimeline>)
    ensures
        timeline_view(r) == timeline_view(*t),
{
    match t {
        Some(t) => Some(
            ViewTimeline {
                start: t.start.clone(),
                end: t.end.clone(),
                person: text::copy_opt(&t.person),
            },
        ),
        None => None,
    }
}

impl SavedView {
    /// A copy of a view.
    pub fn copy(&self) -> (r: SavedView)
        ensures
            r@ == self@,
    {
        let r = SavedView {
            id: self.id.clone(),
            name: self.name.clone(),
            query: self.query.copy(),
            query_expr: self.query_expr.clone(),
            sorts: sorting::copy_sorts(&self.sorts),
            columns: text::copy_list(&self.columns),
            is_shared: self.is_shared,
            title_colors: self.title_colors.copy(),
            is_default: self.is_default,
            timeline: copy_timeline(&self.timeline),
        };
        assert(r@ == self@);
        r
    }
}

/// The page of a workspace.
#[derive(Debug, Clone)]
pub struct Desk {
    pub views: Vec<SavedView>,
    /// The view that is shown.
    pub active: Option<SavedView>,
    /// The filter in force.
    pub query: Json,
    /// The filter as it was saved.
    pub baseline: Json,
    /// The text of the filter field.
    pub expr: String,
    /// Whether labels are offered below the filter field.
    pub hint_open: bool,
    /// The time field offered below the filter field, and where its value goes.
    pub time_pick: Option<(TimeKind, usize)>,
    pub page: i64,
    pub timeline_mode: bool,
}

/// The content of a page.
pub struct DeskV {
    pub views: Seq<SavedViewV>,
    pub active: Option<SavedViewV>,
    pub query: JsonV,
    pub baseline: JsonV,
    pub expr: Seq<char>,
    pub hint_open: bool,
    pub time_pick: Option<(TimeKind, usize)>,
    pub page: i64,
    pub timeline_mode: bool,
}

impl View for Desk {
    type V = DeskV;

    open spec fn view(&self) -> DeskV {
        DeskV {
            views: saved_views(self.views@),
            active: opt_saved(self.active),
            query: self.query@,
            baseline: self.baseline@,
            expr: self.expr@,
            hint_open: self.hint_open,
            time_pick: self.time_pick,
            page: self.page,
            timeline_mode: self.timeline_mode,
        }
    }
}

/// The filter that lets everything through.
pub open spec fn everything() -> JsonV {
    JsonV::Object(seq![("and"@, JsonV::Array(seq![]))])
}

/// The filter that lets everything through.
pub fn empty_query() -> (r: Json)
    ensures
        r@ == everything(),
{
    let list = json::array(Vec::new());
    assert(json::items_view(Seq::empty()) =~= seq![]);
    json::object1("and", list)
}

/// The id of the view that is shown.
pub open spec fn active_id(d: DeskV) -> Option<Seq<char>> {
    match d.active {
        Some(v) => Some(v.id),
        None => None,
    }
}

/// The page with another view shown: filter, expression and page start anew, in
/// the plain table. Showing the view that is shown changes nothing.
pub open spec fn activated(d: DeskV, v: Option<SavedViewV>) -> DeskV {
    let id = match v {
        Some(v) => Some(v.id),
        None => None,
    };
    if active_id(d) == id {
        d
    } else {
        DeskV {
            active: v,
            query: match v {
                Some(v) => v.query,
                None => everything(),
            },
            baseline: match v {
                Some(v) => v.query,
                None => everything(),
            },
            expr: match v {
                Some(v) => v.query_expr,
                None => ""@,
            },
            hint_open: false,
            time_pick: None,
            page: 1,
            timeline_mode: false,
            ..d
        }
    }
}

/// The position of the first view with an id, or the number of views.
pub open spec fn id_at(views: Seq<SavedViewV>, id: Seq<char>) -> int
    decreases views.len(),
{
    if views.len() == 0 || views[0].id == id {
        0
    } else {
        1 + id_at(views.skip(1), id)
    }
}

/// What [`id_at`] finds.
pub proof fn id_at_props(views: Seq<SavedViewV>, id: Seq<char>)
    ensures
        0 <= id_at(views, id) <= views.len(),
        id_at(views, id) < views.len() ==> views[id_at(views, id)].id == id,
        forall|k: int| 0 <= k < id_at(views, id) ==> (#[trigger] views[k]).id != id,
    decreases views.len(),
{
    if views.len() > 0 && views[0].id != id {
        let t = views.skip(1);
        id_at_props(t, id);
        assert forall|k: int| 0 <= k < id_at(views, id) implies (#[trigger] views[k]).id != id by {
            if k > 0 {
                assert(t[k - 1] == views[k]);
            }
        }
    }
}

/// [`id_at`] is the only position with its property.
proof fn id_at_is(views: Seq<SavedViewV>, id: Seq<char>, n: int)
    requires
        0 <= n <= views.len(),
        n < views.len() ==> views[n].id == id,
        forall|k: int| 0 <= k < n ==> (#[trigger] views[k]).id != id,
    ensures
        id_at(views, id) == n,
{
    id_at_props(views, id);
    let m = id_at(views, id);
    if m < n {
        assert(views[m].id != id);
    } else if n < m {
        assert(views[n].id != id);
    }
}

/// Whether views hold an id.
pub open spec fn holds_id(views: Seq<SavedViewV>, id: Seq<char>) -> bool {
    id_at(views, id) < views.len()
}

/// The first view.
pub open spec fn first_view(views: Seq<SavedViewV>) -> Option<SavedViewV> {
    if views.len() > 0 {
        Some(views[0])
    } else {
        None
    }
}

/// The page after the views of the workspace arrived: the view that is shown
/// stays, unless it is not among them: the first is shown instead.
pub open spec fn arrived(d: DeskV, views: Seq<SavedViewV>) -> DeskV {
    let stays = match active_id(d) {
        Some(id) => holds_id(views, id),
        None => false,
    };
    DeskV {
        views,
        ..if stays {
            d
        } else {
            activated(d, first_view(views))
        }
    }
}

/// The page after a view was chosen by its id.
pub open spec fn chosen(d: DeskV, id: Seq<char>) -> DeskV {
    if holds_id(d.views, id) {
        activated(d, Some(d.views[id_at(d.views, id)]))
    } else {
        d
    }
}

/// Views without those of an id.
pub open spec fn without_id(views: Seq<SavedViewV>, id: Seq<char>) -> Seq<SavedViewV>
    decreases views.len(),
{
    if views.len() == 0 {
        seq![]
    } else if views.last().id == id {
        without_id(views.drop_last(), id)
    } else {
        without_id(views.drop_last(), id).push(views.last())
    }
}

/// The page after a view was deleted: where it was shown, the first of the rest
/// is.
pub open spec fn deleted(d: DeskV, id: Seq<char>) -> DeskV {
    let rest = DeskV { views: without_id(d.views, id), ..d };
    if active_id(d) == Some(id) {
        activated(rest, first_view(rest.views))
    } else {
        rest
    }
}

/// Views with one put in the place of the first with its id.
pub open spec fn replaced(views: Seq<SavedViewV>, v: SavedViewV) -> Seq<SavedViewV> {
    if holds_id(views, v.id) {
        views.update(id_at(views, v.id), v)
    } else {
        views
    }
}

/// Whether the filter of the view that is shown was changed and not saved.
pub open spec fn is_dirty(d: DeskV) -> bool {
    d.active is Some && !json::same_json(d.query, d.baseline)
}

/// Whether the timeline is shown: asked for, and set up for the view.
pub open spec fn shows_timeline(d: DeskV) -> bool {
    d.timeline_mode && match d.active {
        Some(v) => v.timeline is Some,
        None => false,
    }
}

/// The page after a click on a column.
pub open spec fn sorted(d: DeskV, field: Seq<char>, additive: bool, remove: bool) -> DeskV {
    match d.active {
        Some(v) => DeskV {
            active: Some(
                SavedViewV { sorts: sorting::after_click(v.sorts, field, additive, remove), ..v },
            ),
            page: 1,
            ..d
        },
        None => d,
    }
}

/// The position of the first view with an id.
fn find_id(views: &Vec<SavedView>, id: &str) -> (r: Option<usize>)
    ensures
        match r {
            Some(i) => i == id_at(saved_views(views@), id@) && i < views@.len(),
            None => id_at(saved_views(views@), id@) == views@.len(),
        },
{
    let ghost all = saved_views(views@);
    let mut i: usize = 0;
    while i < views.len()
        invariant
            i <= views@.len(),
            all == saved_views(views@),
            forall|k: int| 0 <= k < i ==> (#[trigger] all[k]).id != id@,
        decreases views@.len() - i,
    {
        assert(all[i as int].id == views@[i as int].id@);
        if text::same(views[i].id.as_str(), id) {
            proof {
                id_at_is(all, id@, i as int);
            }
            return Some(i);
        }
        i += 1;
    }
    proof {
        id_at_is(all, id@, i as int);
    }
    None
}

/// A copy of the first view.
fn copy_first(views: &Vec<SavedView>) -> (r: Option<SavedView>)
    ensures
        opt_saved(r) == first_view(saved_views(views@)),
{
    if views.len() > 0 {
        Some(views[0].copy())
    } else {
        None
    }
}

/// Puts a view in the place of the first with its id.
fn replace_view(views: &mut Vec<SavedView>, v: &SavedView)
    ensures
        saved_views(final(views)@) == replaced(saved_views(old(views)@), v@),
{
    let ghost before = saved_views(views@);
    if let Some(i) = find_id(views, v.id.as_str()) {
        let ghost olds = views@;
        views.set(i, v.copy());
        assert(saved_views(views@) =~= before.update(i as int, v@));
    }
}

impl Desk {
    /// A page on which nothing has arrived yet.
    pub fn new() -> (r: Desk)
        ensures
            r@ == (DeskV {
                views: seq![],
                active: None,
                query: everything(),
                baseline: everything(),
                expr: ""@,
                hint_open: false,
                time_pick: None,
                page: 1,
                timeline_mode: false,
            }),
    {
        let r = Desk {
            views: Vec::new(),
            active: None,
            query: empty_query(),
            baseline: empty_query(),
            expr: "".to_owned(),
            hint_open: false,
            time_pick: None,
            page: 1,
            timeline_mode: false,
        };
        assert(r@.views =~= seq![]);
        r
    }

    /// Shows a view, or none.
    pub fn set_active(&mut self, v: Option<SavedView>)
        ensures
            final(self)@ == activated(old(self)@, opt_saved(v)),
    {
        let same = match (&self.active, &v) {
            (Some(a), Some(b)) => text::same(a.id.as_str(), b.id.as_str()),
            (None, None) => true,
            _ => false,
        };
        if same {
            return;
        }
        match &v {
            Some(v) => {
                self.query = v.query.copy();
                self.baseline = v.query.copy();
                self.expr = v.query_expr.clone();
            },
            None => {
                self.query = empty_query();
                self.baseline = empty_query();
                self.expr = "".to_owned();
            },
        }
        self.active = v;
        self.hint_open = false;
        self.time_pick = None;
        self.page = 1;
        self.timeline_mode = false;
    }

    /// Takes in the views of the workspace.
    pub fn load_views(&mut self, list: Vec<SavedView>)
        ensures
            final(self)@ == arrived(old(self)@, saved_views(list@)),
    {
        let stays = match &self.active {
            Some(v) => find_id(&list, v.id.as_str()).is_some(),
            None => false,
        };
        if !stays {
            self.set_active(copy_first(&list));
        }
        self.views = list;
    }

    /// Shows a view of the list, by its id.
    pub fn select_view(&mut self, id: &str)
        ensures
            final(self)@ == chosen(old(self)@, id@),
    {
        if let Some(i) = find_id(&self.views, id) {
            let v = self.views[i].copy();
            self.set_active(Some(v));
        }
    }

    /// Takes out a view that was deleted.
    pub fn view_deleted(&mut self, id: &str)
        ensures
            final(self)@ == deleted(old(self)@, id@),
    {
        let ghost all = saved_views(self.views@);
        let mut rest: Vec<SavedView> = Vec::new();
        let mut i: usize = 0;
        assert(saved_views(rest@) =~= seq![]);
        while i < self.views.len()
            invariant
                i <= self.views@.len(),
                *self == *old(self),
                all == saved_views(self.views@),
                saved_views(rest@) == without_id(all.take(i as int), id@),
            decreases self.views@.len() - i,
        {
            let ghost before = rest@;
            assert(all.take(i + 1).drop_last() =~= all.take(i as int));
            assert(all.take(i + 1).last() == self.views@[i as int]@);
            if !text::same(self.views[i].id.as_str(), id) {
                let v = self.views[i].copy();
                rest.push(v);
                assert(saved_views(rest@) =~= saved_views(before).push(v@));
            }
            i += 1;
        }
        assert(all.take(i as int) =~= all);
        self.views = rest;
        let was_shown = match &self.active {
            Some(v) => text::same(v.id.as_str(), id),
            None => false,
        };
        if was_shown {
            let first = copy_first(&self.views);
            self.set_active(first);
        }
    }

    /// Takes in a view that was created, and shows it.
    pub fn view_created(&mut self, v: SavedView)
        ensures
            final(self)@ == activated(
                (DeskV { views: old(self)@.views.push(v@), ..old(self)@ }),
                Some(v@),
            ),
    {
        let shown = v.copy();
        let ghost before = self.views@;
        self.views.push(v);
        assert(saved_views(self.views@) =~= saved_views(before).push(v@));
        self.set_active(Some(shown));
    }

    /// Takes in the view that is shown after its filter was saved.
    pub fn view_saved(&mut self, v: SavedView, query: Json)
        ensures
            final(self)@ == (DeskV {
                views: replaced(old(self)@.views, v@),
                active: Some(v@),
                baseline: query@,
                ..old(self)@
            }),
    {
        replace_view(&mut self.views, &v);
        self.active = Some(v);
        self.baseline = query;
    }

    /// Takes in the view that is shown after its settings were saved.
    pub fn view_configured(&mut self, v: SavedView)
        ensures
            final(self)@ == (DeskV {
                views: replaced(old(self)@.views, v@),
                active: Some(v@),
                ..old(self)@
            }),
    {
        replace_view(&mut self.views, &v);
        self.active = Some(v);
    }

    /// Takes in a view after its order was saved; the view that is shown keeps
    /// the order that it has.
    pub fn sort_saved(&mut self, v: &SavedView)
        ensures
            final(self)@ == (DeskV { views: replaced(old(self)@.views, v@), ..old(self)@ }),
    {
        replace_view(&mut self.views, v);
    }

    /// Sorts the view that is shown.
    pub fn sort_by(&mut self, req: &SortRequest)
        ensures
            final(self)@ == sorted(old(self)@, req.field@, req.additive, req.remove),
    {
        let mut active: Option<SavedView> = None;
        std::mem::swap(&mut active, &mut self.active);
        if let Some(mut v) = active {
            let ghost before = v@;
            v.sorts = sorting::apply_sort(&v.sorts, req);
            assert(v@ == (SavedViewV { sorts: v@.sorts, ..before }));
            self.active = Some(v);
            self.page = 1;
        }
    }

    /// Puts a filter that was read from the field in force.
    pub fn filter_read(&mut self, query: Json)
        ensures
            final(self)@ == (DeskV { query: query@, page: 1, ..old(self)@ }),
    {
        self.query = query;
        self.page = 1;
    }

    /// Joins a keyword to the filter.
    pub fn search(&mut self, keyword: &str)
        ensures
            final(self)@ == (DeskV {
                query: view_filter::query_with_text(old(self)@.query, keyword@),
                page: 1,
                ..old(self)@
            }),
    {
        self.query = view_filter::with_text(&self.query, keyword);
        self.page = 1;
    }

    /// Takes the filter back to none.
    pub fn reset(&mut self)
        ensures
            final(self)@ == (DeskV {
                query: everything(),
                expr: ""@,
                hint_open: false,
                time_pick: None,
                ..old(self)@
            }),
    {
        self.query = empty_query();
        self.expr = "".to_owned();
        self.hint_open = false;
        self.time_pick = None;
    }

    /// Whether the filter was changed and not saved.
    pub fn view_dirty(&self) -> (r: bool)
        ensures
            r == is_dirty(self@),
    {
        self.active.is_some() && !json::same(&self.query, &self.baseline)
    }

    /// Whether the timeline is shown.
    pub fn tl_active(&self) -> (r: bool)
        ensures
            r == shows_timeline(self@),
    {
        self.timeline_mode && match &self.active {
            Some(v) => v.timeline.is_some(),
            None => false,
        }
    }
}

// ---------------------------------------------------------------------------
// Laws
// ---------------------------------------------------------------------------

/// Showing the view that is shown changes nothing.
pub proof fn showing_again_changes_nothing(d: DeskV, v: Option<SavedViewV>)
    ensures
        activated(activated(d, v), v) == activated(d, v),
{
}

/// After the views arrived, one of them is shown, if there is any; and the one
/// that was shown before, if it is among them.
pub proof fn arrival_shows_a_view(d: DeskV, views: Seq<SavedViewV>)
    ensures
        ({
            let e = arrived(d, views);
            &&& e.views == views
            &&& views.len() == 0 ==> e.active is None
            &&& views.len() > 0 ==> e.active is Some && holds_id(views, e.active->0.id)
            &&& d.active is Some && holds_id(views, d.active->0.id) ==> e == (DeskV { views, ..d })
        }),
{
    let e = arrived(d, views);
    if views.len() > 0 {
        id_at_is(views, views[0].id, 0);
    }
    if d.active is Some {
        id_at_props(views, d.active->0.id);
    }
}

/// What is left in [`without_id`].
proof fn without_id_has_none(views: Seq<SavedViewV>, id: Seq<char>)
    ensures
        forall|i: int|
            0 <= i < without_id(views, id).len() ==> (#[trigger] without_id(views, id)[i]).id != id,
    decreases views.len(),
{
    if views.len() > 0 {
        without_id_has_none(views.drop_last(), id);
    }
}

/// A view that was deleted is neither listed nor shown any more.
pub proof fn deleted_view_is_gone(d: DeskV, id: Seq<char>)
    ensures
        !holds_id(deleted(d, id).views, id),
        active_id(deleted(d, id)) != Some(id),
{
    let rest = without_id(d.views, id);
    without_id_has_none(d.views, id);
    id_at_props(rest, id);
}

/// A view that was just shown has no change to save, and neither has one that
/// was just saved with the filter in force.
pub proof fn fresh_view_is_clean(d: DeskV, v: SavedViewV)
    requires
        audit::keys_once(v.query),
        audit::keys_once(d.query),
    ensures
        active_id(d) != Some(v.id) ==> !is_dirty(activated(d, Some(v))),
        !is_dirty((DeskV { active: Some(v), baseline: d.query, ..d })),
{
    audit::same_as_itself(v.query);
    audit::same_as_itself(d.query);
}

/// A click on a column changes neither the filter nor whether it is saved.
pub proof fn sorting_keeps_the_filter(
    d: DeskV,
    field: Seq<char>,
    additive: bool,
    remove: bool,
)
    ensures
        ({
            let e = sorted(d, field, additive, remove);
            &&& e.query == d.query
            &&& e.baseline == d.baseline
            &&& is_dirty(e) == is_dirty(d)
            &&& active_id(e) == active_id(d)
        }),
{
}

/// A view that is saved in its place stays the only change of the list.
pub proof fn saving_keeps_the_list(views: Seq<SavedViewV>, v: SavedViewV)
    ensures
        replaced(views, v).len() == views.len(),
        forall|i: int|
            0 <= i < views.len() ==> (#[trigger] replaced(views, v)[i]).id == views[i].id,
        forall|i: int|
            0 <= i < views.len() && views[i].id != v.id ==> #[trigger] replaced(views, v)[i]
                == views[i],
{
    id_at_props(views, v.id);
}

} // verus!
