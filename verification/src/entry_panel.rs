//! An entry that is open for editing: beside the table, and on a page of its
//! own.

use vstd::prelude::*;

use crate::entry_table::DASH;
use crate::graphql_client::{AccountBrief, Entry};
use crate::text;

verus! {

/// What the server says where somebody else changed an entry meanwhile.
pub const CONFLICT: &'static str = "内容已被他人修改";

/// What is said where an entry is not there.
pub const NO_ENTRY: &'static str = "条目不存在";

/// What is said where a workspace is not there.
pub const NO_WORKSPACE: &'static str = "工作空间不存在";

/// What is said where an entry could not be deleted.
pub const NOT_DELETED: &'static str = "删除失败";

/// What is said where an entry could not be archived.
pub const NOT_ARCHIVED: &'static str = "归档失败";

/// What is said where an entry with changes is to be closed.
pub const UNSAVED: &'static str = "有未保存的改动，先保存再关闭";

/// The tab that is open at first.
pub const FIRST_TAB: &'static str = "detail";

/// An entry open beside the table.
#[derive(Debug, Clone)]
pub struct Panel {
    /// The code of the entry; empty while none is open.
    pub code: String,
    /// The entry as the server has it, or why it is not there; none while it is
    /// being loaded.
    pub entry: Option<Result<Entry, String>>,
    /// The title field.
    pub title: String,
    /// The detail field.
    pub detail: String,
    pub editing_title: bool,
    pub tab: String,
    pub error: Option<String>,
}

/// The content of a panel.
pub struct PanelV {
    pub code: Seq<char>,
    pub entry: Option<Result<Entry, Seq<char>>>,
    pub title: Seq<char>,
    pub detail: Seq<char>,
    pub editing_title: bool,
    pub tab: Seq<char>,
    pub error: Option<Seq<char>>,
}

/// The content of an entry that may have failed to load.
pub open spec fn loaded_view(e: Option<Result<Entry, String>>) -> Option<Result<Entry, Seq<char>>> {
    match e {
        Some(Ok(e)) => Some(Ok(e)),
        Some(Err(e)) => Some(Err(e@)),
        None => None,
    }
}

impl View for Panel {
    type V = PanelV;

    open spec fn view(&self) -> PanelV {
        PanelV {
            code: self.code@,
            entry: loaded_view(self.entry),
            title: self.title@,
            detail: self.detail@,
            editing_title: self.editing_title,
            tab: self.tab@,
            error: text::opt_view(self.error),
        }
    }
}

/// The content of an answer of the server.
pub open spec fn found_view(r: Result<Option<Entry>, String>) -> Result<Option<Entry>, Seq<char>> {
    match r {
        Ok(e) => Ok(e),
        Err(e) => Err(e@),
    }
}

/// What an answer of the server makes of the entry: one that is not there is an
/// error.
pub open spec fn loaded_entry(r: Result<Option<Entry>, Seq<char>>) -> Result<Entry, Seq<char>> {
    match r {
        Ok(Some(e)) => Ok(e),
        Ok(None) => Err(NO_ENTRY@),
        Err(e) => Err(e),
    }
}

/// A panel while its entry is loaded: from scratch, all fields are emptied; else
/// they keep what was typed.
pub open spec fn loading(p: PanelV, overwrite: bool) -> PanelV {
    if overwrite && p.code.len() > 0 {
        PanelV {
            entry: None,
            title: ""@,
            detail: ""@,
            editing_title: false,
            tab: FIRST_TAB@,
            error: None,
            ..p
        }
    } else {
        p
    }
}

/// A panel after the answer for an entry: that for another entry is dropped.
pub open spec fn loaded(
    p: PanelV,
    code: Seq<char>,
    overwrite: bool,
    r: Result<Option<Entry>, Seq<char>>,
) -> PanelV {
    if p.code != code {
        p
    } else {
        match loaded_entry(r) {
            Ok(e) => PanelV {
                entry: Some(Ok(e)),
                title: if overwrite {
                    e.title@
                } else {
                    p.title
                },
                detail: if overwrite {
                    e.detail@
                } else {
                    p.detail
                },
                ..p
            },
            Err(e) => PanelV { entry: Some(Err(e)), ..p },
        }
    }
}

/// Whether fields differ from the entry that the server has; blanks around the
/// title do not count.
pub open spec fn differs(
    entry: Option<Result<Entry, Seq<char>>>,
    title: Seq<char>,
    detail: Seq<char>,
) -> bool {
    match entry {
        Some(Ok(e)) => e.title@ != text::trimmed(title) || e.detail@ != detail,
        _ => false,
    }
}

/// Whether a panel has changes that are not saved.
pub open spec fn is_dirty(p: PanelV) -> bool {
    differs(p.entry, p.title, p.detail)
}

/// Whether an error tells of a change by somebody else.
pub open spec fn is_conflict(e: Seq<char>) -> bool {
    text::occurs(e, CONFLICT@)
}

/// A change that is sent to the server.
#[derive(Debug, Clone)]
pub struct Change {
    /// The time of the version that it is based on.
    pub expected: String,
    pub title: String,
    pub detail: String,
}

/// Whether a change is the one that a panel sends: what its fields hold, based
/// on the version of the entry that it shows; none without changes.
pub open spec fn sends(p: PanelV, r: Option<Change>) -> bool {
    match r {
        Some(c) => is_dirty(p) && c.title@ == p.title && c.detail@ == p.detail && match p.entry {
            Some(Ok(e)) => c.expected@ == e.updated_at@,
            _ => false,
        },
        None => !is_dirty(p),
    }
}

/// What is to be done after an answer of the server.
#[derive(Debug, Clone, Copy, PartialEq, Eq, Structural)]
pub enum After {
    Nothing,
    /// The table is loaded again.
    Refresh,
    /// The entry is loaded again from scratch.
    Reload,
}

/// What a key does to a panel.
#[derive(Debug, Clone, Copy, PartialEq, Eq, Structural)]
pub enum Closing {
    /// The key is not for the panel.
    Ignored,
    /// There are changes; the panel stays.
    Refused,
    Closed,
}

/// The content of an answer with an entry.
pub open spec fn entry_answer(r: Result<Entry, String>) -> Result<Entry, Seq<char>> {
    match r {
        Ok(e) => Ok(e),
        Err(e) => Err(e@),
    }
}

/// The content of an answer of yes or no.
pub open spec fn flag_answer(r: Result<bool, String>) -> Result<bool, Seq<char>> {
    match r {
        Ok(b) => Ok(b),
        Err(e) => Err(e@),
    }
}

/// A panel after the answer to a change, and what is to be done.
pub open spec fn after_change(p: PanelV, answer: Result<Entry, Seq<char>>) -> (After, PanelV) {
    match answer {
        Ok(e) => (After::Refresh, PanelV { entry: Some(Ok(e)), error: None, ..p }),
        Err(e) => (
            if is_conflict(e) {
                After::Reload
            } else {
                After::Nothing
            },
            PanelV { error: Some(e), ..p },
        ),
    }
}

/// A panel after the answer to a deletion or an archiving, and what is to be
/// done.
pub open spec fn after_removal(
    p: PanelV,
    answer: Result<bool, Seq<char>>,
    failed: Seq<char>,
) -> (After, PanelV) {
    match answer {
        Ok(true) => (After::Refresh, PanelV { code: ""@, ..p }),
        Ok(false) => (After::Nothing, PanelV { error: Some(failed), ..p }),
        Err(e) => (After::Nothing, PanelV { error: Some(e), ..p }),
    }
}

/// A panel after a key, and what the key did.
pub open spec fn after_key(p: PanelV, key: Seq<char>) -> (Closing, PanelV) {
    if key != "Escape"@ || p.code.len() == 0 {
        (Closing::Ignored, p)
    } else if is_dirty(p) {
        (Closing::Refused, PanelV { error: Some(UNSAVED@), ..p })
    } else {
        (Closing::Closed, PanelV { code: ""@, ..p })
    }
}

/// Whether a key asks for saving.
pub fn is_save_key(ctrl: bool, meta: bool, key: &str) -> (r: bool)
    ensures
        r == ((ctrl || meta) && text::same_letters(key@, "s"@)),
{
    (ctrl || meta) && text::same(
        text::to_lower(key).as_str(),
        text::to_lower("s").as_str(),
    )
}

/// The name of an account that may be gone.
pub fn account_or_dash(a: &Option<AccountBrief>) -> (r: String)
    ensures
        r@ == (match a {
            Some(a) => a.name@,
            None => DASH@,
        }),
{
    match a {
        Some(a) => a.name.clone(),
        None => DASH.to_owned(),
    }
}

/// Tests [`differs`].
fn has_changes(entry: &Option<Result<Entry, String>>, title: &str, detail: &str) -> (r: bool)
    ensures
        r == differs(loaded_view(*entry), title@, detail@),
{
    match entry {
        Some(Ok(e)) => {
            let t = text::trim(title);
            !text::same(e.title.as_str(), t.as_str()) || !text::same(e.detail.as_str(), detail)
        },
        _ => false,
    }
}

impl Panel {
    /// A panel with no entry.
    pub fn new() -> (r: Panel)
        ensures
            r@ == (PanelV {
                code: ""@,
                entry: None,
                title: ""@,
                detail: ""@,
                editing_title: false,
                tab: FIRST_TAB@,
                error: None,
            }),
    {
        Panel {
            code: "".to_owned(),
            entry: None,
            title: "".to_owned(),
            detail: "".to_owned(),
            editing_title: false,
            tab: FIRST_TAB.to_owned(),
            error: None,
        }
    }

    /// Begins to load the entry; tells whether there is one to load.
    pub fn begin_load(&mut self, overwrite: bool) -> (r: bool)
        ensures
            r == (old(self)@.code.len() > 0),
            final(self)@ == loading(old(self)@, overwrite),
    {
        if self.code.as_str().is_empty() {
            return false;
        }
        if overwrite {
            self.entry = None;
            self.title = "".to_owned();
            self.detail = "".to_owned();
            self.editing_title = false;
            self.tab = FIRST_TAB.to_owned();
            self.error = None;
        }
        true
    }

    /// Takes in the answer for an entry.
    pub fn entry_loaded(&mut self, code: &str, overwrite: bool, r: Result<Option<Entry>, String>)
        ensures
            final(self)@ == loaded(old(self)@, code@, overwrite, found_view(r)),
    {
        if !text::same(self.code.as_str(), code) {
            return;
        }
        match r {
            Ok(Some(e)) => {
                if overwrite {
                    self.title = e.title.clone();
                    self.detail = e.detail.clone();
                }
                self.entry = Some(Ok(e));
            },
            Ok(None) => {
                self.entry = Some(Err(NO_ENTRY.to_owned()));
            },
            Err(e) => {
                self.entry = Some(Err(e));
            },
        }
    }

    /// Whether there are changes that are not saved.
    pub fn dirty(&self) -> (r: bool)
        ensures
            r == is_dirty(self@),
    {
        has_changes(&self.entry, self.title.as_str(), self.detail.as_str())
    }

    /// The change to send; none without changes.
    pub fn change(&self) -> (r: Option<Change>)
        ensures
            sends(self@, r),
    {
        if !self.dirty() {
            return None;
        }
        match &self.entry {
            Some(Ok(e)) => Some(
                Change {
                    expected: e.updated_at.clone(),
                    title: self.title.clone(),
                    detail: self.detail.clone(),
                },
            ),
            _ => None,
        }
    }

    /// Takes in the answer to a change.
    pub fn change_answered(&mut self, answer: Result<Entry, String>) -> (r: After)
        ensures
            (r, final(self)@) == after_change(old(self)@, entry_answer(answer)),
    {
        match answer {
            Ok(e) => {
                self.entry = Some(Ok(e));
                self.error = None;
                After::Refresh
            },
            Err(e) => {
                let conflict = text::contains(e.as_str(), CONFLICT);
                self.error = Some(e);
                if conflict {
                    After::Reload
                } else {
                    After::Nothing
                }
            },
        }
    }

    /// Takes in the answer to a request to delete or archive the entry; `failed`
    /// is what is said where it was refused.
    pub fn removal_answered(&mut self, answer: Result<bool, String>, failed: &str) -> (r: After)
        ensures
            (r, final(self)@) == after_removal(old(self)@, flag_answer(answer), failed@),
    {
        match answer {
            Ok(true) => {
                self.code = "".to_owned();
                After::Refresh
            },
            Ok(false) => {
                self.error = Some(failed.to_owned());
                After::Nothing
            },
            Err(e) => {
                self.error = Some(e);
                After::Nothing
            },
        }
    }

    /// Handles a key: escape closes the panel, unless there are changes.
    pub fn on_key(&mut self, key: &str) -> (r: Closing)
        ensures
            (r, final(self)@) == after_key(old(self)@, key@),
    {
        if !text::same(key, "Escape") || self.code.as_str().is_empty() {
            return Closing::Ignored;
        }
        if self.dirty() {
            self.error = Some(UNSAVED.to_owned());
            return Closing::Refused;
        }
        self.code = "".to_owned();
        Closing::Closed
    }
}

// ---------------------------------------------------------------------------
// A page of its own
// ---------------------------------------------------------------------------

/// A page after the answer to a change, and what is to be done.
pub open spec fn page_after_change(
    p: EntryPageV,
    answer: Result<Entry, Seq<char>>,
) -> (After, EntryPageV) {
    match answer {
        Ok(e) => (
            After::Nothing,
            EntryPageV {
                entry: match p.entry {
                    Some(Ok(_)) => Some(Ok(e)),
                    other => other,
                },
                saved: true,
                error: None,
                ..p
            },
        ),
        Err(e) => (
            if is_conflict(e) {
                After::Reload
            } else {
                After::Nothing
            },
            EntryPageV { error: Some(e), ..p },
        ),
    }
}

/// An entry on a page of its own.
#[derive(Debug, Clone)]
pub struct EntryPage {
    pub entry: Option<Result<Entry, String>>,
    pub title: String,
    pub detail: String,
    /// Whether the last thing that happened to the fields was a save.
    pub saved: bool,
    pub error: Option<String>,
}

/// The content of a page.
pub struct EntryPageV {
    pub entry: Option<Result<Entry, Seq<char>>>,
    pub title: Seq<char>,
    pub detail: Seq<char>,
    pub saved: bool,
    pub error: Option<Seq<char>>,
}

impl View for EntryPage {
    type V = EntryPageV;

    open spec fn view(&self) -> EntryPageV {
        EntryPageV {
            entry: loaded_view(self.entry),
            title: self.title@,
            detail: self.detail@,
            saved: self.saved,
            error: text::opt_view(self.error),
        }
    }
}

/// A value that must be there, or what is said where it is not.
pub fn required<T>(v: Option<T>, missing: &str) -> (r: Result<T, String>)
    ensures
        match v {
            Some(v) => r == Ok::<T, String>(v),
            None => match r {
                Ok(_) => false,
                Err(e) => e@ == missing@,
            },
        },
{
    match v {
        Some(v) => Ok(v),
        None => Err(missing.to_owned()),
    }
}

impl EntryPage {
    /// A page on which nothing has arrived.
    pub fn new() -> (r: EntryPage)
        ensures
            r@ == (EntryPageV { entry: None, title: ""@, detail: ""@, saved: false, error: None }),
    {
        EntryPage {
            entry: None,
            title: "".to_owned(),
            detail: "".to_owned(),
            saved: false,
            error: None,
        }
    }

    /// Begins to load the entry; tells whether there is one to load.
    pub fn begin_load(&mut self, code: &str, overwrite: bool) -> (r: bool)
        ensures
            r == (code@.len() > 0),
            final(self)@ == (if code@.len() > 0 && overwrite {
                EntryPageV { entry: None, title: ""@, detail: ""@, error: None, ..old(self)@ }
            } else {
                old(self)@
            }),
    {
        if code.is_empty() {
            return false;
        }
        if overwrite {
            self.entry = None;
            self.title = "".to_owned();
            self.detail = "".to_owned();
            self.error = None;
        }
        true
    }

    /// Takes in the entry, or why it could not be loaded.
    pub fn entry_loaded(&mut self, overwrite: bool, r: Result<Entry, String>)
        ensures
            final(self)@ == (match r {
                Ok(e) => EntryPageV {
                    entry: Some(Ok(e)),
                    title: if overwrite {
                        e.title@
                    } else {
                        old(self)@.title
                    },
                    detail: if overwrite {
                        e.detail@
                    } else {
                        old(self)@.detail
                    },
                    ..old(self)@
                },
                Err(e) => EntryPageV { entry: Some(Err(e@)), ..old(self)@ },
            }),
    {
        match r {
            Ok(e) => {
                if overwrite {
                    self.title = e.title.clone();
                    self.detail = e.detail.clone();
                }
                self.entry = Some(Ok(e));
            },
            Err(e) => {
                self.entry = Some(Err(e));
            },
        }
    }

    /// Takes in a new title.
    pub fn type_title(&mut self, title: String)
        ensures
            final(self)@ == (EntryPageV { title: title@, saved: false, ..old(self)@ }),
    {
        self.title = title;
        self.saved = false;
    }

    /// Takes in a new detail.
    pub fn type_detail(&mut self, detail: String)
        ensures
            final(self)@ == (EntryPageV { detail: detail@, saved: false, ..old(self)@ }),
    {
        self.detail = detail;
        self.saved = false;
    }

    /// The change to send; none before the entry is there.
    pub fn change(&self) -> (r: Option<Change>)
        ensures
            match self@.entry {
                Some(Ok(e)) => match r {
                    Some(c) => c.expected@ == e.updated_at@ && c.title@ == self@.title && c.detail@
                        == self@.detail,
                    None => false,
                },
                _ => r is None,
            },
    {
        match &self.entry {
            Some(Ok(e)) => Some(
                Change {
                    expected: e.updated_at.clone(),
                    title: self.title.clone(),
                    detail: self.detail.clone(),
                },
            ),
            _ => None,
        }
    }

    /// Takes in the answer to a change: an entry that is there is replaced.
    pub fn change_answered(&mut self, answer: Result<Entry, String>) -> (r: After)
        ensures
            (r, final(self)@) == page_after_change(old(self)@, entry_answer(answer)),
    {
        match answer {
            Ok(e) => {
                let there = match &self.entry {
                    Some(Ok(_)) => true,
                    _ => false,
                };
                if there {
                    self.entry = Some(Ok(e));
                }
                self.saved = true;
                self.error = None;
                After::Nothing
            },
            Err(e) => {
                let conflict = text::contains(e.as_str(), CONFLICT);
                self.error = Some(e);
                if conflict {
                    After::Reload
                } else {
                    After::Nothing
                }
            },
        }
    }

    /// Takes in the answer to a request to delete the entry; tells whether it is
    /// gone.
    pub fn deletion_answered(&mut self, answer: Result<bool, String>) -> (r: bool)
        ensures
            match answer {
                Ok(true) => r && final(self)@ == old(self)@,
                Ok(false) => !r && final(self)@ == (EntryPageV {
                    error: Some(NOT_DELETED@),
                    ..old(self)@
                }),
                Err(e) => !r && final(self)@ == (EntryPageV { error: Some(e@), ..old(self)@ }),
            },
    {
        match answer {
            Ok(true) => true,
            Ok(false) => {
                self.error = Some(NOT_DELETED.to_owned());
                false
            },
            Err(e) => {
                self.error = Some(e);
                false
            },
        }
    }
}

// ---------------------------------------------------------------------------
// Laws
// ---------------------------------------------------------------------------

/// An answer for an entry that is no longer open changes nothing.
pub proof fn late_answer_is_dropped(
    p: PanelV,
    code: Seq<char>,
    overwrite: bool,
    r: Result<Option<Entry>, Seq<char>>,
)
    requires
        p.code != code,
    ensures
        loaded(p, code, overwrite, r) == p,
{
}

/// An entry that was loaded from scratch has no changes, if its title has no
/// blanks around it.
pub proof fn fresh_panel_is_clean(p: PanelV, e: Entry)
    requires
        text::trimmed(e.title@) == e.title@,
    ensures
        !is_dirty(loaded(p, p.code, true, Ok(Some(e)))),
{
}

/// Loading again without emptying the fields keeps what was typed.
pub proof fn soft_load_keeps_typing(
    p: PanelV,
    code: Seq<char>,
    r: Result<Option<Entry>, Seq<char>>,
)
    ensures
        loading(p, false) == p,
        loaded(p, code, false, r).title == p.title,
        loaded(p, code, false, r).detail == p.detail,
{
}

/// After a save a panel has no changes, the server having kept the detail as it
/// was sent and the title without the blanks around it.
pub proof fn saved_panel_is_clean(p: PanelV, e: Entry)
    requires
        e.title@ == text::trimmed(p.title),
        e.detail@ == p.detail,
    ensures
        !is_dirty((PanelV { entry: Some(Ok(e)), error: None, ..p })),
{
}

} // verus!
