//! What happens on the pages of a workspace and of an entry, stated on what is
//! shown before and after.

use vstd::prelude::*;

use crate::comments;
use crate::comments::{Comment, CommentBoardV, Composer};
use crate::desk;
use crate::desk::{DeskV, SavedViewV};
use crate::entry_panel;
use crate::entry_panel::PanelV;
use crate::graphql_client::{Entry, Labeling};
use crate::json;
use crate::json::JsonV;
use crate::query_eval;
use crate::query_laws;
use crate::text;

verus! {

// ---------------------------------------------------------------------------
// The page of a workspace
// ---------------------------------------------------------------------------

/// Whether a page shows a view as it was saved: its filter, its expression and
/// its first page, in the table.
pub open spec fn shows(d: DeskV, v: SavedViewV) -> bool {
    &&& d.active == Some(v)
    &&& d.query == v.query
    &&& d.baseline == v.query
    &&& d.expr == v.query_expr
    &&& !d.hint_open
    &&& d.time_pick is None
    &&& d.page == 1
    &&& !d.timeline_mode
}

/// Whether a page shows no view: all entries, on the first page, in the table.
pub open spec fn shows_all(d: DeskV) -> bool {
    &&& d.active is None
    &&& d.query == d.baseline
    &&& d.query == JsonV::Object(seq![("and"@, JsonV::Array(seq![]))])
    &&& d.expr.len() == 0
    &&& d.page == 1
    &&& !d.timeline_mode
}

/// Whether a page shows a view, whatever was changed of it since.
pub open spec fn is_on(d: DeskV, id: Seq<char>) -> bool {
    d.active matches Some(v) && v.id == id
}

/// The filter of a page without a view lets every entry through.
pub proof fn no_view_shows_everything(e: Entry, ls: Seq<Labeling>)
    ensures
        query_eval::query_holds(desk::everything(), e, ls),
{
    let none = Seq::<JsonV>::empty();
    json::member_of_one("and"@, JsonV::Array(none), "and"@);
    query_laws::queries_are_joined(desk::everything(), none, JsonV::Null, 0, e, ls);
}

proof fn view_is(a: Seq<SavedViewV>, v: SavedViewV, b: Seq<SavedViewV>)
    requires
        forall|k: int| 0 <= k < a.len() ==> (#[trigger] a[k]).id != v.id,
    ensures
        desk::id_at(a + seq![v] + b, v.id) == a.len(),
{
    let s = a + seq![v] + b;
    let n = a.len() as int;
    desk::id_at_props(s, v.id);
    let m = desk::id_at(s, v.id);
    assert(s[n] == v);
    if m < n {
        assert(s[m] == a[m]);
    } else if n < m {
        assert(s[n].id != v.id);
    }
}

proof fn no_view_is(views: Seq<SavedViewV>, id: Seq<char>)
    requires
        forall|k: int| 0 <= k < views.len() ==> (#[trigger] views[k]).id != id,
    ensures
        !desk::holds_id(views, id),
{
    desk::id_at_props(views, id);
}

/// Choosing a view shows it, the first of its id; choosing the one that is shown,
/// or one that is not there, changes nothing. The views stay as they are.
pub proof fn chosen_views_are_shown(
    d: DeskV,
    a: Seq<SavedViewV>,
    v: SavedViewV,
    b: Seq<SavedViewV>,
    id: Seq<char>,
)
    requires
        d.views == a + seq![v] + b,
        forall|k: int| 0 <= k < a.len() ==> (#[trigger] a[k]).id != v.id,
    ensures
        !is_on(d, v.id) ==> shows(desk::chosen(d, v.id), v),
        is_on(d, v.id) ==> desk::chosen(d, v.id) == d,
        desk::chosen(d, v.id).views == d.views,
        (forall|k: int| 0 <= k < d.views.len() ==> (#[trigger] d.views[k]).id != id)
            ==> desk::chosen(d, id) == d,
{
    view_is(a, v, b);
    assert(d.views[a.len() as int] == v);
    if forall|k: int| 0 <= k < d.views.len() ==> (#[trigger] d.views[k]).id != id {
        no_view_is(d.views, id);
    }
}

/// When the views of a workspace arrive, the one that is shown stays as it is
/// where it is among them; else the first is shown, or all entries where there
/// is none.
pub proof fn arriving_views_are_shown(d: DeskV, views: Seq<SavedViewV>, i: int)
    ensures
        desk::arrived(d, views).views == views,
        0 <= i < views.len() && is_on(d, views[i].id) ==> desk::arrived(d, views) == (DeskV {
            views: views,
            ..d
        }),
        (forall|k: int| 0 <= k < views.len() ==> !is_on(d, (#[trigger] views[k]).id)) && views.len()
            > 0 ==> shows(desk::arrived(d, views), views[0]),
        views.len() == 0 && d.active is Some ==> shows_all(desk::arrived(d, views)),
        views.len() == 0 && d.active is None ==> desk::arrived(d, views) == (DeskV {
            views: views,
            ..d
        }),
{
    reveal_strlit("");
    if let Some(v) = d.active {
        desk::id_at_props(views, v.id);
        let m = desk::id_at(views, v.id);
        if m < views.len() {
            assert(is_on(d, views[m].id));
        }
        if 0 <= i < views.len() && is_on(d, views[i].id) {
            if m == views.len() {
                assert(views[i].id != v.id);
            }
        }
    }
}

/// A deleted view is gone and the others stay in their order. Where it was
/// shown, the first of the rest is, or all entries where none is left; else
/// what is shown stays.
pub proof fn deleted_views_are_left(d: DeskV, a: Seq<SavedViewV>, v: SavedViewV, b: Seq<SavedViewV>)
    requires
        d.views == a + seq![v] + b,
        forall|k: int| 0 <= k < a.len() ==> (#[trigger] a[k]).id != v.id,
        forall|k: int| 0 <= k < b.len() ==> (#[trigger] b[k]).id != v.id,
    ensures
        desk::deleted(d, v.id).views == a + b,
        !is_on(d, v.id) ==> desk::deleted(d, v.id) == (DeskV { views: a + b, ..d }),
        is_on(d, v.id) && (a + b).len() > 0 ==> shows(desk::deleted(d, v.id), (a + b)[0]),
        is_on(d, v.id) && (a + b).len() == 0 ==> shows_all(desk::deleted(d, v.id)),
{
    reveal_strlit("");
    without_id_is(a, v, b);
    let rest = a + b;
    if rest.len() > 0 {
        assert(rest[0].id != v.id) by {
            if a.len() > 0 {
                assert(rest[0] == a[0]);
            } else {
                assert(rest[0] == b[0]);
            }
        }
    }
}

proof fn without_id_is(a: Seq<SavedViewV>, v: SavedViewV, b: Seq<SavedViewV>)
    requires
        forall|k: int| 0 <= k < a.len() ==> (#[trigger] a[k]).id != v.id,
        forall|k: int| 0 <= k < b.len() ==> (#[trigger] b[k]).id != v.id,
    ensures
        desk::without_id(a + seq![v] + b, v.id) == a + b,
    decreases b.len(),
{
    let s = a + seq![v] + b;
    if b.len() == 0 {
        assert(s.drop_last() =~= a);
        assert(s.last() == v);
        without_none(a, v.id);
        assert(a + b =~= a);
    } else {
        let c = b.drop_last();
        assert forall|k: int| 0 <= k < c.len() implies (#[trigger] c[k]).id != v.id by {
            assert(c[k] == b[k]);
        }
        without_id_is(a, v, c);
        assert(s.drop_last() =~= a + seq![v] + c);
        assert(s.last() == b[b.len() - 1]);
        assert((a + c).push(b.last()) =~= a + b);
    }
}

proof fn without_none(a: Seq<SavedViewV>, id: Seq<char>)
    requires
        forall|k: int| 0 <= k < a.len() ==> (#[trigger] a[k]).id != id,
    ensures
        desk::without_id(a, id) == a,
    decreases a.len(),
{
    if a.len() > 0 {
        let d = a.drop_last();
        assert forall|k: int| 0 <= k < d.len() implies (#[trigger] d[k]).id != id by {
            assert(d[k] == a[k]);
        }
        without_none(d, id);
        assert(a.last() == a[a.len() - 1]);
        assert(d.push(a.last()) =~= a);
    } else {
        assert(desk::without_id(a, id) =~= a);
    }
}

/// A saved view takes the place of the first of its id, and no other; one that
/// is not there is not added.
pub proof fn saved_views_take_their_places(
    a: Seq<SavedViewV>,
    was: SavedViewV,
    b: Seq<SavedViewV>,
    v: SavedViewV,
)
    requires
        was.id == v.id,
        forall|k: int| 0 <= k < a.len() ==> (#[trigger] a[k]).id != v.id,
    ensures
        desk::replaced(a + seq![was] + b, v) == a + seq![v] + b,
        desk::replaced(a, v) == a,
{
    view_is(a, was, b);
    let s = a + seq![was] + b;
    assert(s.update(a.len() as int, v) =~= a + seq![v] + b);
    no_view_is(a, v.id);
}

/// A page has changes to save where it shows a view and its filter is not equal
/// to the saved one; it shows the timeline where that is asked for and the view
/// has one.
pub proof fn pages_tell_their_state(d: DeskV)
    ensures
        d.active is None ==> !desk::is_dirty(d) && !desk::shows_timeline(d),
        d.active is Some ==> desk::is_dirty(d) == !json::same_json(d.query, d.baseline),
        d.active matches Some(v) ==> desk::shows_timeline(d) == (d.timeline_mode && v.timeline
            is Some),
{
}

// ---------------------------------------------------------------------------
// The panel of an entry
// ---------------------------------------------------------------------------

/// An answer for another entry changes nothing. One with the entry shows it, and
/// fills the fields where they are to be overwritten and only there; an error,
/// or an entry that is not there, is told and leaves the fields.
pub proof fn answers_fill_the_panel(p: PanelV, code: Seq<char>, overwrite: bool, e: Entry, m: Seq<char>)
    ensures
        p.code != code ==> entry_panel::loaded(p, code, overwrite, Ok(Some(e))) == p
            && entry_panel::loaded(p, code, overwrite, Err(m)) == p,
        p.code == code ==> {
            let q = entry_panel::loaded(p, code, overwrite, Ok(Some(e)));
            &&& q.entry == Some(Ok::<Entry, Seq<char>>(e))
            &&& overwrite ==> q.title == e.title@ && q.detail == e.detail@
            &&& !overwrite ==> q.title == p.title && q.detail == p.detail
            &&& q.code == p.code && q.tab == p.tab && q.error == p.error && q.editing_title
                == p.editing_title
        },
        p.code == code ==> {
            let q = entry_panel::loaded(p, code, overwrite, Err(m));
            &&& q.entry == Some(Err::<Entry, Seq<char>>(m))
            &&& q.title == p.title && q.detail == p.detail && q.code == p.code && q.tab == p.tab
        },
        p.code == code ==> entry_panel::loaded(p, code, overwrite, Ok(None)).entry == Some(
            Err::<Entry, Seq<char>>("条目不存在"@),
        ),
{
}

/// Fields differ from an entry where the title, without the white space around
/// it, or the detail is another; before an entry is there they do not.
pub proof fn fields_differ(
    e: Entry,
    a: Seq<char>,
    m: Seq<char>,
    b: Seq<char>,
    detail: Seq<char>,
    err: Seq<char>,
)
    requires
        text::all_white(a),
        text::all_white(b),
        m.len() > 0 ==> !text::is_white(m[0]) && !text::is_white(m.last()),
    ensures
        entry_panel::differs(Some(Ok(e)), a + m + b, detail) == (e.title@ != m || e.detail@
            != detail),
        !entry_panel::differs(None, a + m + b, detail),
        !entry_panel::differs(Some(Err(err)), a + m + b, detail),
{
    text::trimmed_is_the_middle(a, m, b);
}

/// Loading from scratch empties the fields of an open panel and shows its first
/// tab; loading again keeps them.
pub proof fn loading_empties_the_panel(p: PanelV)
    ensures
        entry_panel::loading(p, false) == p,
        p.code.len() == 0 ==> entry_panel::loading(p, true) == p,
        p.code.len() > 0 ==> {
            let q = entry_panel::loading(p, true);
            &&& q.code == p.code
            &&& q.entry is None
            &&& q.title.len() == 0 && q.detail.len() == 0
            &&& !q.editing_title && q.error is None
            &&& q.tab == "detail"@
        },
{
    reveal_strlit("");
}

// ---------------------------------------------------------------------------
// Comments
// ---------------------------------------------------------------------------

/// Whether a role is one of some, whatever the case of its letters.
pub open spec fn is_role(role: Seq<char>, name: Seq<char>) -> bool {
    text::same_word(role, name)
}

/// Owners, maintainers and workers may write, and nobody else; owners and
/// maintainers may remove what others wrote, and nobody else.
pub proof fn roles_may_write(role: Seq<char>)
    ensures
        comments::may_write(role) == (is_role(role, "owner"@) || is_role(role, "maintainer"@)
            || is_role(role, "worker"@)),
        comments::may_moderate(role) == (is_role(role, "owner"@) || is_role(role, "maintainer"@)),
{
    let (o, m, w) = ("owner"@, "maintainer"@, "worker"@);
    reveal_strlit("owner");
    reveal_strlit("maintainer");
    reveal_strlit("worker");
    assert(o.len() == 5 && m.len() == 10 && w.len() == 6);
    assert(text::same_word(o, o) && text::same_word(m, m) && text::same_word(w, w));
    crate::component_laws::roles_rank(role, w);
    crate::component_laws::roles_rank(w, role);
    crate::component_laws::roles_rank(role, m);
    crate::component_laws::roles_rank(m, role);
}

/// What may be done with a comment: who wrote it may edit it while they may
/// write, and remove it; owners and maintainers may remove it too. It counts as
/// edited where it was changed after it was written.
pub proof fn comments_may_be_changed(b: CommentBoardV, c: Comment)
    ensures
        ({
            let r = comments::rights_of(b, c);
            let mine = c.created_by@ == b.my_id;
            let writes = is_role(b.role, "owner"@) || is_role(b.role, "maintainer"@) || is_role(
                b.role,
                "worker"@,
            );
            &&& r.can_edit == (mine && writes)
            &&& r.can_delete == (mine || is_role(b.role, "owner"@) || is_role(
                b.role,
                "maintainer"@,
            ))
            &&& r.edited == (c.updated_at@ != c.created_at@)
            &&& r.editing == (b.editing == Some(c.id@))
            &&& r.confirming == (b.confirm == Some(c.id@))
            &&& !writes ==> comments::composer_of(b) == Composer::Hidden
            &&& writes && b.editing is Some ==> comments::composer_of(b) == Composer::Busy
            &&& writes && b.editing is None && b.composer_ready ==> comments::composer_of(b)
                == Composer::Open
        }),
{
    roles_may_write(b.role);
}

/// An error tells of a change by somebody else where it says so anywhere.
pub proof fn conflicts_are_recognised(a: Seq<char>, b: Seq<char>, e: Seq<char>)
    ensures
        entry_panel::is_conflict(a + "内容已被他人修改"@ + b),
        entry_panel::is_conflict(e) ==> exists|i: int|
            0 <= i && i + "内容已被他人修改"@.len() <= e.len() && #[trigger] e.subrange(
                i,
                i + "内容已被他人修改"@.len(),
            ) == "内容已被他人修改"@,
{
    let w = "内容已被他人修改"@;
    let s = a + w + b;
    assert(s.subrange(a.len() as int, a.len() as int + w.len()) =~= w);
    assert(text::has_at(s, a.len() as int, w));
    if entry_panel::is_conflict(e) {
        let i = choose|i: int| #[trigger] text::has_at(e, i, w);
        assert(e.subrange(i, i + w.len()) == w);
    }
}

/// A panel sends its fields, based on the version that it shows, where they
/// differ from it, and nothing where they do not.
pub proof fn panels_send_their_fields(p: PanelV, e: Entry, c: entry_panel::Change)
    requires
        p.entry == Some(Ok::<Entry, Seq<char>>(e)),
    ensures
        entry_panel::sends(p, Some(c)) ==> c.title@ == p.title && c.detail@ == p.detail
            && c.expected@ == e.updated_at@ && (e.title@ != text::trimmed(p.title) || e.detail@
            != p.detail),
        e.title@ == text::trimmed(p.title) && e.detail@ == p.detail ==> entry_panel::sends(p, None)
            && !entry_panel::sends(p, Some(c)),
        e.title@ != text::trimmed(p.title) || e.detail@ != p.detail ==> !entry_panel::sends(
            p,
            None,
        ),
{
}

/// After a change was taken the panel shows the entry as it now is, without an
/// error, and the table is loaded again. After a refusal it keeps the entry and
/// what was typed, tells the error, and loads the entry again where somebody
/// else changed it.
pub proof fn changes_are_answered(p: PanelV, e: Entry, m: Seq<char>)
    ensures
        ({
            let (after, q) = entry_panel::after_change(p, Ok(e));
            &&& after == entry_panel::After::Refresh
            &&& q.entry == Some(Ok::<Entry, Seq<char>>(e))
            &&& q.error is None
            &&& q.title == p.title && q.detail == p.detail && q.code == p.code && q.tab == p.tab
        }),
        ({
            let (after, q) = entry_panel::after_change(p, Err(m));
            &&& after == (if entry_panel::is_conflict(m) {
                entry_panel::After::Reload
            } else {
                entry_panel::After::Nothing
            })
            &&& q.error == Some(m)
            &&& q.entry == p.entry
            &&& q.title == p.title && q.detail == p.detail && q.code == p.code && q.tab == p.tab
        }),
{
}

/// A panel closes where its entry was removed, and stays with the error where it
/// was not.
pub proof fn removals_are_answered(p: PanelV, m: Seq<char>, failed: Seq<char>)
    ensures
        ({
            let (after, q) = entry_panel::after_removal(p, Ok(true), failed);
            after == entry_panel::After::Refresh && q.code.len() == 0
        }),
        ({
            let (after, q) = entry_panel::after_removal(p, Ok(false), failed);
            after == entry_panel::After::Nothing && q.error == Some(failed) && q.code == p.code
                && q.entry == p.entry
        }),
        ({
            let (after, q) = entry_panel::after_removal(p, Err(m), failed);
            after == entry_panel::After::Nothing && q.error == Some(m) && q.code == p.code
                && q.entry == p.entry
        }),
{
    reveal_strlit("");
}

/// Escape closes an open panel without changes; with changes it is refused, and
/// nothing that was typed is lost. Any other key does nothing.
pub proof fn escape_closes_the_panel(p: PanelV, key: Seq<char>)
    ensures
        key != "Escape"@ ==> entry_panel::after_key(p, key) == (entry_panel::Closing::Ignored, p),
        p.code.len() == 0 ==> entry_panel::after_key(p, key) == (entry_panel::Closing::Ignored, p),
        p.code.len() > 0 && !entry_panel::is_dirty(p) ==> {
            let (c, q) = entry_panel::after_key(p, "Escape"@);
            c == entry_panel::Closing::Closed && q.code.len() == 0
        },
        p.code.len() > 0 && entry_panel::is_dirty(p) ==> {
            let (c, q) = entry_panel::after_key(p, "Escape"@);
            &&& c == entry_panel::Closing::Refused
            &&& q.code == p.code && q.title == p.title && q.detail == p.detail && q.entry == p.entry
            &&& q.error == Some("有未保存的改动，先保存再关闭"@)
        },
{
    reveal_strlit("");
}

/// On its own page, an entry that was changed is shown as it now is and counts
/// as saved; a refusal keeps it and tells the error.
pub proof fn page_changes_are_answered(
    p: entry_panel::EntryPageV,
    was: Entry,
    e: Entry,
    m: Seq<char>,
)
    ensures
        ({
            let (after, q) = entry_panel::page_after_change(p, Ok(e));
            &&& after == entry_panel::After::Nothing
            &&& q.saved && q.error is None
            &&& q.title == p.title && q.detail == p.detail
            &&& p.entry == Some(Ok::<Entry, Seq<char>>(was)) ==> q.entry == Some(
                Ok::<Entry, Seq<char>>(e),
            )
        }),
        ({
            let (after, q) = entry_panel::page_after_change(p, Err(m));
            &&& after == (if entry_panel::is_conflict(m) {
                entry_panel::After::Reload
            } else {
                entry_panel::After::Nothing
            })
            &&& q.error == Some(m) && q.entry == p.entry && q.saved == p.saved
            &&& q.title == p.title && q.detail == p.detail
        }),
{
}

/// Comments of another entry are dropped; those of the entry are shown, with the
/// role and the account that they came with. An error is told in their place.
pub proof fn comments_arrive(
    b: CommentBoardV,
    code: Seq<char>,
    l: comments::Loaded,
    id: String,
    m: String,
)
    ensures
        b.code != code ==> comments::with_loaded(b, code, Ok(l)) == b && comments::with_loaded(
            b,
            code,
            Err(m),
        ) == b,
        b.code == code ==> {
            let c = comments::with_loaded(b, code, Ok(l));
            &&& c.items == Some(Ok::<Seq<Comment>, Seq<char>>(l.list@))
            &&& c.role == l.role@
            &&& l.user_id == Some(id) ==> c.my_id == id@
            &&& l.user_id is None ==> c.my_id.len() == 0
            &&& c.editing == b.editing && c.edit_body == b.edit_body && c.confirm == b.confirm
        },
        b.code == code ==> comments::with_loaded(b, code, Err(m)).items == Some(
            Err::<Seq<Comment>, Seq<char>>(m@),
        ),
{
    reveal_strlit("");
}

/// What was answered well ends the editing, the deletion or the writing that it
/// answers and takes an error away; a refusal tells the error and ends nothing.
pub proof fn comment_answers_settle(b: CommentBoardV, m: Seq<char>)
    ensures
        comments::after_edit(b, None).editing is None,
        comments::after_edit(b, None).confirm == b.confirm,
        comments::after_delete(b, None).confirm is None,
        comments::after_delete(b, None).editing == b.editing,
        !comments::after_post(b, None).composer_ready,
        comments::after_post(b, None).editing == b.editing,
        comments::after_edit(b, None).error is None && comments::after_delete(b, None).error is None
            && comments::after_post(b, None).error is None,
        comments::after_edit(b, Some(m)).editing == b.editing && comments::after_edit(
            b,
            Some(m),
        ).edit_body == b.edit_body,
        comments::after_delete(b, Some(m)).confirm == b.confirm,
        comments::after_post(b, Some(m)).composer_ready == b.composer_ready,
        comments::after_edit(b, Some(m)).error == Some(m) && comments::after_delete(
            b,
            Some(m),
        ).error == Some(m) && comments::after_post(b, Some(m)).error == Some(m),
{
}

} // verus!
