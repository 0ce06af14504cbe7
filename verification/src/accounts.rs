//! Signing in, the list of workspaces, and accounts.

use vstd::prelude::*;

use crate::components;
use crate::graphql_client::{Entry, LabelSchema, WorkspaceItem};
use crate::json;
use crate::query_eval;
use crate::text;
use crate::timeline;

verus! {

/// What is said where two new passwords differ.
pub const PASSWORDS_DIFFER: &'static str = "两次输入的新密码不一致";

/// What is said where a new account lacks an address or a name.
pub const ACCOUNT_FIELDS_MISSING: &'static str = "邮箱与姓名都要填";

/// Where one starts: at signing in, or at the workspaces.
pub fn home_path(logged_out: bool) -> (r: &'static str)
    ensures
        r@ == (if logged_out {
            "/login"@
        } else {
            "/workspaces"@
        }),
{
    if logged_out {
        "/login"
    } else {
        "/workspaces"
    }
}

/// Whether one has to sign in: without a session, or with one that the server
/// refused.
pub fn must_sign_in(logged_out: bool, session_lost: bool) -> (r: bool)
    ensures
        r == (logged_out || session_lost),
{
    logged_out || session_lost
}

/// The address of a workspace.
pub fn workspace_path(slug: &str) -> (r: String)
    ensures
        r@ == "/"@ + slug@,
{
    text::concat2("/", slug)
}

/// What the form for signing in offers below its fields.
#[derive(Debug, Clone, Copy, PartialEq, Eq, Structural)]
pub enum RegisterOffer {
    /// It is not known yet whether accounts may be registered.
    Unknown,
    Closed,
    /// To register.
    Register,
    /// To go back to signing in.
    SignIn,
}

/// What the form for signing in offers.
pub fn register_offer(allowed: Option<bool>, registering: bool) -> (r: RegisterOffer)
    ensures
        r == (match allowed {
            None => RegisterOffer::Unknown,
            Some(false) => RegisterOffer::Closed,
            Some(true) => if registering {
                RegisterOffer::SignIn
            } else {
                RegisterOffer::Register
            },
        }),
{
    match allowed {
        None => RegisterOffer::Unknown,
        Some(false) => RegisterOffer::Closed,
        Some(true) => if registering {
            RegisterOffer::SignIn
        } else {
            RegisterOffer::Register
        },
    }
}

/// What the button of the form says.
pub fn sign_in_text(registering: bool) -> (r: &'static str)
    ensures
        r@ == (if registering {
            "注册并登录"@
        } else {
            "登录"@
        }),
{
    if registering {
        "注册并登录"
    } else {
        "登录"
    }
}

// ---------------------------------------------------------------------------
// Workspaces
// ---------------------------------------------------------------------------

/// Whether a workspace is listed in the trash, or among those in use: the trash
/// holds those that the account owns.
pub open spec fn is_listed(w: WorkspaceItem, trash: bool) -> bool {
    if trash {
        w.workspace.deleted_at is Some && w.role@ == "owner"@
    } else {
        w.workspace.deleted_at is None
    }
}

/// The positions of the workspaces that are listed.
pub open spec fn listed(list: Seq<WorkspaceItem>, trash: bool) -> Seq<int>
    decreases list.len(),
{
    if list.len() == 0 {
        seq![]
    } else if is_listed(list.last(), trash) {
        listed(list.drop_last(), trash).push(list.len() - 1)
    } else {
        listed(list.drop_last(), trash)
    }
}

/// The workspaces that are listed, by their positions.
fn pick(list: &[WorkspaceItem], trash: bool) -> (r: Vec<usize>)
    ensures
        components::positions(r@) == listed(list@, trash),
{
    let mut out: Vec<usize> = Vec::new();
    let mut i: usize = 0;
    assert(components::positions(out@) =~= seq![]);
    while i < list.len()
        invariant
            i <= list@.len(),
            components::positions(out@) == listed(list@.take(i as int), trash),
        decreases list@.len() - i,
    {
        let ghost before = out@;
        assert(list@.take(i + 1).drop_last() =~= list@.take(i as int));
        let hit = if trash {
            list[i].workspace.deleted_at.is_some() && text::same(list[i].role.as_str(), "owner")
        } else {
            list[i].workspace.deleted_at.is_none()
        };
        if hit {
            out.push(i);
            assert(components::positions(out@) =~= components::positions(before).push(i as int));
        }
        i += 1;
    }
    assert(list@.take(i as int) =~= list@);
    out
}

/// The workspaces in use, by their positions.
pub fn live_workspaces(list: &[WorkspaceItem]) -> (r: Vec<usize>)
    ensures
        components::positions(r@) == listed(list@, false),
{
    pick(list, false)
}

/// The workspaces in the trash, by their positions.
pub fn trashed_workspaces(list: &[WorkspaceItem]) -> (r: Vec<usize>)
    ensures
        components::positions(r@) == listed(list@, true),
{
    pick(list, true)
}

/// What an invitation says.
pub fn invite_text(role: &str) -> (r: String)
    ensures
        r@ == "邀请你以 "@ + components::lower_role_name(text::ascii_lower(role@)) + " 身份加入"@,
{
    text::concat3("邀请你以 ", components::role_label(role).as_str(), " 身份加入")
}

/// What stands on a workspace in the trash, given the time in short.
pub fn deleted_text(at: &str) -> (r: String)
    ensures
        r@ == "删除于 "@ + at@,
{
    text::concat2("删除于 ", at)
}

/// The class of the chip of a role.
pub fn role_chip(role: &str) -> (r: String)
    ensures
        r@ == "chip "@ + components::lower_role_class(text::ascii_lower(role@)),
{
    text::concat2("chip ", components::role_chip_class(role))
}

// ---------------------------------------------------------------------------
// The list of entries of the plain page
// ---------------------------------------------------------------------------

/// The state of an entry: the text of its label `Task`.
pub fn task_of(entry: &Entry) -> (r: String)
    ensures
        r@ == (match json::opt_str_of(query_eval::label_named(entry.labels@, "Task"@)) {
            Some(s) => s,
            None => ""@,
        }),
{
    match query_eval::find_label(entry.labels.as_slice(), "Task") {
        Some(v) => match v.as_str() {
            Some(s) => s.to_owned(),
            None => "".to_owned(),
        },
        None => "".to_owned(),
    }
}

/// The states that an entry may have: the choices of the label `Task`.
pub fn task_choices(schemas: &[LabelSchema]) -> (r: Vec<String>)
    ensures
        text::contents(r@) == ({
            let i = timeline::schema_at(schemas@, "Task"@);
            if 0 <= i < schemas@.len() {
                text::contents(schemas@[i].enum_values@)
            } else {
                seq![]
            }
        }),
{
    match timeline::find_schema(schemas, "Task") {
        Some(s) => text::copy_list(&s.enum_values),
        None => {
            let none: Vec<String> = Vec::new();
            assert(text::contents(none@) =~= seq![]);
            none
        },
    }
}

// ---------------------------------------------------------------------------
// The page of the account
// ---------------------------------------------------------------------------

/// What the button to go back says.
pub fn back_label(from: Option<&str>) -> (r: &'static str)
    ensures
        r@ == (if text::opt_str(from) == Some("ws"@) {
            "工作空间"@
        } else {
            "工作空间列表"@
        }),
{
    match from {
        Some(f) => if text::same(f, "ws") {
            "工作空间"
        } else {
            "工作空间列表"
        },
        None => "工作空间列表",
    }
}

/// Where the button to go back leads: to the workspace that one came from, else
/// to the list.
pub fn back_href(from: Option<&str>, slug: Option<&str>) -> (r: String)
    ensures
        r@ == (match text::opt_str(slug) {
            Some(s) => if text::opt_str(from) == Some("ws"@) && s.len() > 0 {
                "/"@ + s
            } else {
                "/workspaces"@
            },
            None => "/workspaces"@,
        }),
{
    let from_ws = match from {
        Some(f) => text::same(f, "ws"),
        None => false,
    };
    match slug {
        Some(s) => if from_ws && !s.is_empty() {
            text::concat2("/", s)
        } else {
            "/workspaces".to_owned()
        },
        None => "/workspaces".to_owned(),
    }
}

/// A change of the password.
#[derive(Debug, Clone)]
pub struct PasswordForm {
    pub old: String,
    pub new: String,
    pub confirm: String,
    pub busy: bool,
    pub error: Option<String>,
    pub done: bool,
}

/// The content of the form.
pub struct PasswordFormV {
    pub old: Seq<char>,
    pub new: Seq<char>,
    pub confirm: Seq<char>,
    pub busy: bool,
    pub error: Option<Seq<char>>,
    pub done: bool,
}

impl View for PasswordForm {
    type V = PasswordFormV;

    open spec fn view(&self) -> PasswordFormV {
        PasswordFormV {
            old: self.old@,
            new: self.new@,
            confirm: self.confirm@,
            busy: self.busy,
            error: text::opt_view(self.error),
            done: self.done,
        }
    }
}

/// The content of two texts that are sent.
pub open spec fn pair_view(r: Option<(String, String)>) -> Option<(Seq<char>, Seq<char>)> {
    match r {
        Some((a, b)) => Some((a@, b@)),
        None => None,
    }
}

/// Whether a change of the password may be sent.
pub open spec fn password_ready(f: PasswordFormV) -> bool {
    !f.busy && f.old.len() > 0 && f.new.len() > 0 && f.confirm.len() > 0
}

/// What is sent of a change of the password, and the form after that.
pub open spec fn password_sent(f: PasswordFormV) -> (
    Option<(Seq<char>, Seq<char>)>,
    PasswordFormV,
) {
    if f.busy {
        (None, f)
    } else if f.new != f.confirm {
        (None, PasswordFormV { error: Some(PASSWORDS_DIFFER@), ..f })
    } else {
        (Some((f.old, f.new)), PasswordFormV { busy: true, error: None, done: false, ..f })
    }
}

/// The form after the answer to a change of the password.
pub open spec fn password_answered(f: PasswordFormV, error: Option<Seq<char>>) -> PasswordFormV {
    match error {
        None => PasswordFormV {
            old: ""@,
            new: ""@,
            confirm: ""@,
            busy: false,
            done: true,
            ..f
        },
        Some(e) => PasswordFormV { busy: false, error: Some(e), ..f },
    }
}

impl PasswordForm {
    /// An empty form.
    pub fn empty() -> (r: PasswordForm)
        ensures
            r@ == (PasswordFormV {
                old: ""@,
                new: ""@,
                confirm: ""@,
                busy: false,
                error: None,
                done: false,
            }),
    {
        PasswordForm {
            old: "".to_owned(),
            new: "".to_owned(),
            confirm: "".to_owned(),
            busy: false,
            error: None,
            done: false,
        }
    }

    /// Whether the form may be sent.
    pub fn can_submit(&self) -> (r: bool)
        ensures
            r == password_ready(self@),
    {
        !self.busy && !self.old.as_str().is_empty() && !self.new.as_str().is_empty()
            && !self.confirm.as_str().is_empty()
    }

    /// Sends the form: gives the two passwords to send. Nothing is sent while an
    /// answer is awaited, nor where the new passwords differ.
    pub fn submit(&mut self) -> (r: Option<(String, String)>)
        ensures
            (pair_view(r), final(self)@) == password_sent(old(self)@),
    {
        if self.busy {
            return None;
        }
        if !text::same(self.new.as_str(), self.confirm.as_str()) {
            self.error = Some(PASSWORDS_DIFFER.to_owned());
            return None;
        }
        self.busy = true;
        self.error = None;
        self.done = false;
        Some((self.old.clone(), self.new.clone()))
    }

    /// Takes in the answer: after a change the fields are emptied.
    pub fn answered(&mut self, error: Option<String>)
        ensures
            final(self)@ == password_answered(old(self)@, text::opt_view(error)),
    {
        match error {
            None => {
                self.old = "".to_owned();
                self.new = "".to_owned();
                self.confirm = "".to_owned();
                self.done = true;
            },
            Some(e) => {
                self.error = Some(e);
            },
        }
        self.busy = false;
    }
}

// ---------------------------------------------------------------------------
// The page of the administrator
// ---------------------------------------------------------------------------

/// Who may see the page of the administrator.
#[derive(Debug, Clone, Copy, PartialEq, Eq, Structural)]
pub enum Access {
    /// It is not known yet who is signed in.
    Unknown,
    Denied,
    Granted,
}

/// Who may see the page of the administrator.
pub fn admin_access(is_admin: Option<bool>) -> (r: Access)
    ensures
        r == (match is_admin {
            None => Access::Unknown,
            Some(true) => Access::Granted,
            Some(false) => Access::Denied,
        }),
{
    match is_admin {
        None => Access::Unknown,
        Some(true) => Access::Granted,
        Some(false) => Access::Denied,
    }
}

/// A new account.
#[derive(Debug, Clone)]
pub struct AccountForm {
    pub email: String,
    pub name: String,
    pub make_admin: bool,
    pub busy: bool,
    pub error: Option<String>,
}

/// The content of the form.
pub struct AccountFormV {
    pub email: Seq<char>,
    pub name: Seq<char>,
    pub make_admin: bool,
    pub busy: bool,
    pub error: Option<Seq<char>>,
}

impl View for AccountForm {
    type V = AccountFormV;

    open spec fn view(&self) -> AccountFormV {
        AccountFormV {
            email: self.email@,
            name: self.name@,
            make_admin: self.make_admin,
            busy: self.busy,
            error: text::opt_view(self.error),
        }
    }
}

/// Whether a new account may be sent.
pub open spec fn account_ready(f: AccountFormV) -> bool {
    !f.busy && !text::is_blank(f.email) && !text::is_blank(f.name)
}

/// What is sent of a new account, and the form after that.
pub open spec fn account_sent(f: AccountFormV) -> (
    Option<(Seq<char>, Seq<char>)>,
    AccountFormV,
) {
    if text::is_blank(f.email) || text::is_blank(f.name) {
        (None, AccountFormV { error: Some(ACCOUNT_FIELDS_MISSING@), ..f })
    } else if f.busy {
        (None, f)
    } else {
        (
            Some((text::trimmed(f.email), text::trimmed(f.name))),
            AccountFormV { busy: true, ..f },
        )
    }
}

/// The form after the answer to a new account.
pub open spec fn account_answered(f: AccountFormV, error: Option<Seq<char>>) -> AccountFormV {
    match error {
        None => AccountFormV {
            email: ""@,
            name: ""@,
            make_admin: false,
            busy: false,
            error: None,
        },
        Some(e) => AccountFormV { busy: false, error: Some(e), ..f },
    }
}

impl AccountForm {
    /// An empty form.
    pub fn empty() -> (r: AccountForm)
        ensures
            r@ == (AccountFormV {
                email: ""@,
                name: ""@,
                make_admin: false,
                busy: false,
                error: None,
            }),
    {
        AccountForm {
            email: "".to_owned(),
            name: "".to_owned(),
            make_admin: false,
            busy: false,
            error: None,
        }
    }

    /// Whether the form may be sent.
    pub fn can_submit(&self) -> (r: bool)
        ensures
            r == account_ready(self@),
    {
        !self.busy && !text::blank(self.email.as_str()) && !text::blank(self.name.as_str())
    }

    /// Sends the form: gives the address and the name to send, without blanks
    /// around them. Nothing is sent without either, nor while an answer is
    /// awaited.
    pub fn submit(&mut self) -> (r: Option<(String, String)>)
        ensures
            (pair_view(r), final(self)@) == account_sent(old(self)@),
    {
        let e = text::trim(self.email.as_str());
        let n = text::trim(self.name.as_str());
        if e.as_str().is_empty() || n.as_str().is_empty() {
            self.error = Some(ACCOUNT_FIELDS_MISSING.to_owned());
            return None;
        }
        if self.busy {
            return None;
        }
        self.busy = true;
        Some((e, n))
    }

    /// Takes in the answer: after an account was made the fields are emptied.
    pub fn answered(&mut self, error: Option<String>)
        ensures
            final(self)@ == account_answered(old(self)@, text::opt_view(error)),
    {
        match error {
            None => {
                self.error = None;
                self.email = "".to_owned();
                self.name = "".to_owned();
                self.make_admin = false;
            },
            Some(e) => {
                self.error = Some(e);
            },
        }
        self.busy = false;
    }
}

/// What is handed to the owner of a new account.
pub fn share_text(origin: &str, email: &str, password: &str) -> (r: String)
    ensures
        r@ == "你的 Rodeo 账号已创建\n登录地址："@ + origin@ + "/login\n邮箱："@ + email@
            + "\n初始密码："@ + password@
            + "\n首次登录后请尽快修改初始密码。这串密码只显示这一次，请妥善保管。"@,
{
    let mut out = "你的 Rodeo 账号已创建\n登录地址：".to_owned();
    out.push_str(origin);
    out.push_str("/login\n邮箱：");
    out.push_str(email);
    out.push_str("\n初始密码：");
    out.push_str(password);
    out.push_str("\n首次登录后请尽快修改初始密码。这串密码只显示这一次，请妥善保管。");
    out
}

// ---------------------------------------------------------------------------
// Laws
// ---------------------------------------------------------------------------

/// A workspace is listed once at most: in use, or in the trash.
pub proof fn listed_once(w: WorkspaceItem)
    ensures
        !(is_listed(w, true) && is_listed(w, false)),
        w.workspace.deleted_at is None || w.role@ == "owner"@ ==> is_listed(w, true) || is_listed(
            w,
            false,
        ),
{
}

/// Workspaces are listed in their order: those in use where they are not
/// deleted, and in the trash the deleted ones that the account owns.
pub proof fn workspaces_are_listed_in_order(list: Seq<WorkspaceItem>, w: WorkspaceItem)
    ensures
        listed(seq![], true) == Seq::<int>::empty(),
        listed(seq![], false) == Seq::<int>::empty(),
        listed(list.push(w), false) == (if w.workspace.deleted_at is None {
            listed(list, false).push(list.len() as int)
        } else {
            listed(list, false)
        }),
        listed(list.push(w), true) == (if w.workspace.deleted_at is Some && w.role@ == "owner"@ {
            listed(list, true).push(list.len() as int)
        } else {
            listed(list, true)
        }),
{
    assert(listed(seq![], true) =~= seq![]);
    assert(listed(seq![], false) =~= seq![]);
    assert(list.push(w).drop_last() =~= list);
    assert(list.push(w).last() == w);
}

/// A change of the password is sent with the old and the new one, where the new
/// one was typed twice alike; it is sent once until it is answered. A success
/// empties the fields, a refusal keeps them and tells the error.
pub proof fn passwords_are_sent_once(f: PasswordFormV, e: Seq<char>)
    ensures
        f.busy || f.new != f.confirm ==> password_sent(f).0 is None,
        !f.busy && f.new == f.confirm ==> password_sent(f).0 == Some((f.old, f.new)),
        password_sent(password_sent(f).1).0 is None,
        !f.busy && f.new != f.confirm ==> password_sent(f).1.error == Some(
            "两次输入的新密码不一致"@,
        ),
        password_sent(f).1.old == f.old && password_sent(f).1.new == f.new
            && password_sent(f).1.confirm == f.confirm,
        ({
            let g = password_answered(f, None);
            g.done && !g.busy && g.old.len() == 0 && g.new.len() == 0 && g.confirm.len() == 0
        }),
        ({
            let g = password_answered(f, Some(e));
            !g.busy && g.error == Some(e) && g.old == f.old && g.new == f.new && g.confirm
                == f.confirm && g.done == f.done
        }),
        password_ready(f) <==> !f.busy && f.old.len() > 0 && f.new.len() > 0 && f.confirm.len() > 0,
{
    reveal_strlit("");
}

/// A new account is sent with its address and its name, without the white space
/// around them, where neither is blank; it is sent once until it is answered. A
/// success empties the fields, a refusal keeps them and tells the error.
pub proof fn accounts_are_sent_once(
    f: AccountFormV,
    a: Seq<char>,
    m: Seq<char>,
    b: Seq<char>,
    n: Seq<char>,
    e: Seq<char>,
)
    requires
        text::all_white(a),
        text::all_white(b),
        m.len() > 0 ==> !text::is_white(m[0]) && !text::is_white(m.last()),
        n.len() > 0 ==> !text::is_white(n[0]) && !text::is_white(n.last()),
        f.email == a + m + b,
        f.name == a + n + b,
    ensures
        m.len() == 0 || n.len() == 0 ==> account_sent(f).0 is None && account_sent(f).1.error
            == Some("邮箱与姓名都要填"@),
        f.busy ==> account_sent(f).0 is None,
        !f.busy && m.len() > 0 && n.len() > 0 ==> account_sent(f).0 == Some((m, n))
            && account_sent(f).1.busy && account_sent(account_sent(f).1).0 is None,
        account_ready(f) <==> !f.busy && m.len() > 0 && n.len() > 0,
        ({
            let g = account_answered(f, None);
            !g.busy && g.error is None && g.email.len() == 0 && g.name.len() == 0 && !g.make_admin
        }),
        ({
            let g = account_answered(f, Some(e));
            !g.busy && g.error == Some(e) && g.email == f.email && g.name == f.name && g.make_admin
                == f.make_admin
        }),
{
    reveal_strlit("");
    text::trimmed_is_the_middle(a, m, b);
    text::trimmed_is_the_middle(a, n, b);
}

} // verus!
