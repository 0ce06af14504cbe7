//! The comments and the attachments of an entry, and messages: who may do what,
//! and what is open for editing.

use vstd::prelude::*;

use crate::components;
use crate::decimal;
use crate::graphql_client::AccountBrief;
use crate::text;

verus! {

/// The name of an author whose account is gone.
pub const GONE_AUTHOR: &'static str = "已注销账号";

/// A comment on an entry.
#[derive(Debug, Clone)]
pub struct Comment {
    pub id: String,
    pub body: String,
    pub created_by: String,
    pub created_by_account: Option<AccountBrief>,
    pub created_at: String,
    pub updated_at: String,
}

/// What an account may do with a comment, and how the comment is shown.
#[derive(Debug, Clone, Copy, PartialEq, Eq, Structural)]
pub struct CommentRights {
    pub can_edit: bool,
    pub can_delete: bool,
    /// Whether the comment was changed after it was written.
    pub edited: bool,
    /// Whether the comment is open in an editor.
    pub editing: bool,
    /// Whether its deletion waits to be confirmed.
    pub confirming: bool,
}

/// Who may write: workers and above.
pub open spec fn may_write(role: Seq<char>) -> bool {
    components::role_rank(role) >= components::role_rank("worker"@)
}

/// Who may remove what others wrote: maintainers and above.
pub open spec fn may_moderate(role: Seq<char>) -> bool {
    components::role_rank(role) >= components::role_rank("maintainer"@)
}

/// Tests [`may_write`].
pub fn can_write(role: &str) -> (r: bool)
    ensures
        r == may_write(role@),
{
    components::role_at_least(role, "worker")
}

/// Tests [`may_moderate`].
pub fn can_moderate(role: &str) -> (r: bool)
    ensures
        r == may_moderate(role@),
{
    components::role_at_least(role, "maintainer")
}

/// Whether an account may remove what was written by an author.
pub fn can_remove(role: &str, me: &str, author: &str) -> (r: bool)
    ensures
        r == (author@ == me@ || may_moderate(role@)),
{
    text::same(author, me) || can_moderate(role)
}

/// The name of the author of a comment.
pub fn author_name(c: &Comment) -> (r: String)
    ensures
        r@ == (match c.created_by_account {
            Some(a) => a.name@,
            None => GONE_AUTHOR@,
        }),
{
    match &c.created_by_account {
        Some(a) => a.name.clone(),
        None => GONE_AUTHOR.to_owned(),
    }
}

/// The heading of the comments.
pub fn comments_heading(n: usize) -> (r: String)
    ensures
        r@ == "评论（"@ + decimal::numeral(n as int) + "）"@,
{
    let mut out = "评论（".to_owned();
    decimal::push_decimal(&mut out, n as u64);
    out.push_str("）");
    out
}

/// The heading of the attachments.
pub fn attachments_heading(n: usize) -> (r: String)
    ensures
        r@ == "附件（"@ + decimal::numeral(n as int) + "）"@,
{
    let mut out = "附件（".to_owned();
    decimal::push_decimal(&mut out, n as u64);
    out.push_str("）");
    out
}

/// The class of a message.
pub fn message_class(read: bool) -> (r: &'static str)
    ensures
        r@ == (if read {
            "msg-item"@
        } else {
            "msg-item unread"@
        }),
{
    if read {
        "msg-item"
    } else {
        "msg-item unread"
    }
}

/// The place below the comments where a new one is written.
#[derive(Debug, Clone, Copy, PartialEq, Eq, Structural)]
pub enum Composer {
    /// The account may not write.
    Hidden,
    /// A comment is open in an editor: it has to be saved or left first.
    Busy,
    /// The editor is taken away for a moment, to be emptied.
    Emptying,
    Open,
}

/// The comments of an entry that is shown.
#[derive(Debug, Clone)]
pub struct CommentBoard {
    /// The entry.
    pub code: String,
    /// The comments, or why they are not there; none before they arrive.
    pub items: Option<Result<Vec<Comment>, String>>,
    pub role: String,
    pub my_id: String,
    /// The comment that is open in an editor.
    pub editing: Option<String>,
    /// The content of that editor.
    pub edit_body: String,
    /// The comment whose deletion waits to be confirmed.
    pub confirm: Option<String>,
    pub error: Option<String>,
    /// Whether the editor of a new comment is there.
    pub composer_ready: bool,
}

/// The content of the board.
pub struct CommentBoardV {
    pub code: Seq<char>,
    pub items: Option<Result<Seq<Comment>, Seq<char>>>,
    pub role: Seq<char>,
    pub my_id: Seq<char>,
    pub editing: Option<Seq<char>>,
    pub edit_body: Seq<char>,
    pub confirm: Option<Seq<char>>,
    pub error: Option<Seq<char>>,
    pub composer_ready: bool,
}

/// The content of comments that may have failed to load.
pub open spec fn items_content(r: Option<Result<Vec<Comment>, String>>) -> Option<
    Result<Seq<Comment>, Seq<char>>,
> {
    match r {
        Some(Ok(v)) => Some(Ok(v@)),
        Some(Err(e)) => Some(Err(e@)),
        None => None,
    }
}

impl View for CommentBoard {
    type V = CommentBoardV;

    open spec fn view(&self) -> CommentBoardV {
        CommentBoardV {
            code: self.code@,
            items: items_content(self.items),
            role: self.role@,
            my_id: self.my_id@,
            editing: text::opt_view(self.editing),
            edit_body: self.edit_body@,
            confirm: text::opt_view(self.confirm),
            error: text::opt_view(self.error),
            composer_ready: self.composer_ready,
        }
    }
}

/// What loading the comments gives.
#[derive(Debug, Clone)]
pub struct Loaded {
    pub list: Vec<Comment>,
    /// The account that is signed in.
    pub user_id: Option<String>,
    pub role: String,
}

/// What a comment offers to the account that is signed in.
pub open spec fn rights_of(b: CommentBoardV, c: Comment) -> CommentRights {
    let mine = c.created_by@ == b.my_id;
    CommentRights {
        can_edit: may_write(b.role) && mine,
        can_delete: mine || may_moderate(b.role),
        edited: c.updated_at@ != c.created_at@,
        editing: b.editing == Some(c.id@),
        confirming: b.confirm == Some(c.id@),
    }
}

/// Where a new comment is written.
pub open spec fn composer_of(b: CommentBoardV) -> Composer {
    if !may_write(b.role) {
        Composer::Hidden
    } else if b.editing is Some {
        Composer::Busy
    } else if b.composer_ready {
        Composer::Open
    } else {
        Composer::Emptying
    }
}

/// Whether an optional id is a given one.
fn is_id(o: &Option<String>, id: &str) -> (r: bool)
    ensures
        r == (text::opt_view(*o) == Some(id@)),
{
    match o {
        Some(x) => text::same(x.as_str(), id),
        None => false,
    }
}

/// The board after comments arrived: those of another entry are dropped.
pub open spec fn with_loaded(
    b: CommentBoardV,
    code: Seq<char>,
    r: Result<Loaded, String>,
) -> CommentBoardV {
    if b.code != code {
        b
    } else {
        match r {
            Ok(l) => CommentBoardV {
                items: Some(Ok(l.list@)),
                my_id: match l.user_id {
                    Some(id) => id@,
                    None => ""@,
                },
                role: l.role@,
                ..b
            },
            Err(e) => CommentBoardV { items: Some(Err(e@)), ..b },
        }
    }
}

/// The board after the answer to a changed comment.
pub open spec fn after_edit(b: CommentBoardV, error: Option<Seq<char>>) -> CommentBoardV {
    match error {
        None => CommentBoardV { editing: None, error: None, ..b },
        Some(e) => CommentBoardV { error: Some(e), ..b },
    }
}

/// The board after the answer to a deletion.
pub open spec fn after_delete(b: CommentBoardV, error: Option<Seq<char>>) -> CommentBoardV {
    match error {
        None => CommentBoardV { confirm: None, error: None, ..b },
        Some(e) => CommentBoardV { error: Some(e), ..b },
    }
}

/// The board after the answer to a new comment.
pub open spec fn after_post(b: CommentBoardV, error: Option<Seq<char>>) -> CommentBoardV {
    match error {
        None => CommentBoardV { error: None, composer_ready: false, ..b },
        Some(e) => CommentBoardV { error: Some(e), ..b },
    }
}

impl CommentBoard {
    /// The board of an entry before its comments arrive.
    pub fn new(code: &str) -> (r: CommentBoard)
        ensures
            r@ == (CommentBoardV {
                code: code@,
                items: None,
                role: ""@,
                my_id: ""@,
                editing: None,
                edit_body: ""@,
                confirm: None,
                error: None,
                composer_ready: true,
            }),
    {
        CommentBoard {
            code: code.to_owned(),
            items: None,
            role: "".to_owned(),
            my_id: "".to_owned(),
            editing: None,
            edit_body: "".to_owned(),
            confirm: None,
            error: None,
            composer_ready: true,
        }
    }

    /// Takes in the comments of an entry; those of another one are dropped.
    pub fn loaded(&mut self, code: &str, r: Result<Loaded, String>)
        ensures
            final(self)@ == with_loaded(old(self)@, code@, r),
    {
        if !text::same(self.code.as_str(), code) {
            return;
        }
        match r {
            Ok(l) => {
                self.my_id = match l.user_id {
                    Some(id) => id,
                    None => "".to_owned(),
                };
                self.role = l.role;
                self.items = Some(Ok(l.list));
            },
            Err(e) => {
                self.items = Some(Err(e));
            },
        }
    }

    /// How many comments there are.
    pub fn count(&self) -> (r: usize)
        ensures
            r == (match self@.items {
                Some(Ok(v)) => v.len(),
                _ => 0,
            }),
    {
        match &self.items {
            Some(Ok(v)) => v.len(),
            _ => 0,
        }
    }

    /// What a comment offers.
    pub fn rights(&self, c: &Comment) -> (r: CommentRights)
        ensures
            r == rights_of(self@, *c),
    {
        let mine = text::same(c.created_by.as_str(), self.my_id.as_str());
        CommentRights {
            can_edit: can_write(self.role.as_str()) && mine,
            can_delete: mine || can_moderate(self.role.as_str()),
            edited: !text::same(c.updated_at.as_str(), c.created_at.as_str()),
            editing: is_id(&self.editing, c.id.as_str()),
            confirming: is_id(&self.confirm, c.id.as_str()),
        }
    }

    /// Where a new comment is written.
    pub fn composer(&self) -> (r: Composer)
        ensures
            r == composer_of(self@),
    {
        if !can_write(self.role.as_str()) {
            Composer::Hidden
        } else if self.editing.is_some() {
            Composer::Busy
        } else if self.composer_ready {
            Composer::Open
        } else {
            Composer::Emptying
        }
    }

    /// Opens a comment in an editor.
    pub fn start_edit(&mut self, id: &str, body: &str)
        ensures
            final(self)@ == (CommentBoardV {
                editing: Some(id@),
                edit_body: body@,
                ..old(self)@
            }),
    {
        self.editing = Some(id.to_owned());
        self.edit_body = body.to_owned();
    }

    /// Leaves the editor of a comment.
    pub fn cancel_edit(&mut self)
        ensures
            final(self)@ == (CommentBoardV { editing: None, ..old(self)@ }),
    {
        self.editing = None;
    }

    /// Takes in the answer to a changed comment; tells whether to load again.
    pub fn edit_answered(&mut self, error: Option<String>) -> (r: bool)
        ensures
            r == (error is None),
            final(self)@ == after_edit(old(self)@, text::opt_view(error)),
    {
        match error {
            None => {
                self.editing = None;
                self.error = None;
                true
            },
            Some(e) => {
                self.error = Some(e);
                false
            },
        }
    }

    /// Asks for the deletion of a comment to be confirmed.
    pub fn ask_delete(&mut self, id: &str)
        ensures
            final(self)@ == (CommentBoardV { confirm: Some(id@), ..old(self)@ }),
    {
        self.confirm = Some(id.to_owned());
    }

    /// Leaves a deletion.
    pub fn cancel_delete(&mut self)
        ensures
            final(self)@ == (CommentBoardV { confirm: None, ..old(self)@ }),
    {
        self.confirm = None;
    }

    /// Takes in the answer to a deletion; tells whether to load again.
    pub fn delete_answered(&mut self, error: Option<String>) -> (r: bool)
        ensures
            r == (error is None),
            final(self)@ == after_delete(old(self)@, text::opt_view(error)),
    {
        match error {
            None => {
                self.confirm = None;
                self.error = None;
                true
            },
            Some(e) => {
                self.error = Some(e);
                false
            },
        }
    }

    /// Takes in the answer to a new comment. Where it was taken, its editor goes
    /// away until [`CommentBoard::composer_emptied`], and the comments are to be
    /// loaded again after that.
    pub fn post_answered(&mut self, error: Option<String>) -> (r: bool)
        ensures
            r == (error is None),
            final(self)@ == after_post(old(self)@, text::opt_view(error)),
    {
        match error {
            None => {
                self.error = None;
                self.composer_ready = false;
                true
            },
            Some(e) => {
                self.error = Some(e);
                false
            },
        }
    }

    /// Brings the editor of a new comment back.
    pub fn composer_emptied(&mut self)
        ensures
            final(self)@ == (CommentBoardV { composer_ready: true, ..old(self)@ }),
    {
        self.composer_ready = true;
    }
}

// ---------------------------------------------------------------------------
// Laws
// ---------------------------------------------------------------------------

/// There is never more than one editor: where a comment is open in one, there is
/// none for a new comment, and no comment with another id is open.
pub proof fn one_editor_at_most(b: CommentBoardV, c: Comment, d: Comment)
    requires
        rights_of(b, c).editing,
    ensures
        composer_of(b) != Composer::Open,
        rights_of(b, d).editing ==> d.id@ == c.id@,
{
}

/// Authors who may write may edit and delete what they wrote; nobody else may
/// edit it, and only maintainers and above may delete it.
pub proof fn rights_of_authors(b: CommentBoardV, c: Comment)
    ensures
        rights_of(b, c).can_edit ==> rights_of(b, c).can_delete,
        c.created_by@ != b.my_id ==> !rights_of(b, c).can_edit,
        c.created_by@ != b.my_id && rights_of(b, c).can_delete ==> may_moderate(b.role),
{
}

/// Who may moderate may write.
pub proof fn moderators_write(role: Seq<char>)
    requires
        may_moderate(role),
    ensures
        may_write(role),
{
    components::roles_are_ordered(role, "maintainer"@, "worker"@);
}

} // verus!
