//! Requests to the server and what is read from its answers.

use vstd::prelude::*;

use crate::json;
use crate::json::{Json, JsonV};
use crate::number;
use crate::text;

verus! {

/// Where requests go.
pub const ENDPOINT: &'static str = "/api/graphql";

/// What is said where an answer tells of an error without words.
pub const UNKNOWN_ERROR: &'static str = "GraphQL 错误";

/// What is said where there is no browser to send requests.
pub const NO_BROWSER: &'static str = "GraphQL 客户端仅在浏览器可用";

/// What is said where an answer lacks a session.
pub const NO_TOKEN: &'static str = "token 缺失";

/// What is said where there is no answer to signing in.
pub const NO_LOGIN: &'static str = "登录响应缺失";

/// What is said where there is no answer to registering.
pub const NO_REGISTER: &'static str = "注册响应缺失";

/// The fields of an entry.
pub const ENTRY_FIELDS: &'static str =
    "code title detail createdAt updatedAt createdBy updatedBy createdByAccount { id name \
    email } updatedByAccount { id name email } archivedAt labels { labelName value }";

/// The fields of a label.
pub const LABEL_SCHEMA_FIELDS: &'static str =
    "name title valueType enumValues color valueColors multi format currencySymbol unit \
    defaultValue";

/// The fields of the prompts of a workspace.
pub const AI_CONFIG_FIELDS: &'static str = "scenarios { name prompt } tones { name prompt }";

/// The fields of a member.
pub const MEMBER_FIELDS: &'static str = "accountId email name role joinedAt";

/// The fields of an invitation.
pub const INVITE_FIELDS: &'static str =
    "workspaceId workspaceName workspaceSlug accountId email name role invitedBy createdAt";

/// The fields of a view.
pub const VIEW_FIELDS: &'static str =
    "id name query queryExpr sort { field desc } columns isShared ownerId titleColors \
    entryCount isDefault";

/// A request: a query and its variables.
#[derive(Debug, Clone)]
pub struct Request {
    pub query: String,
    pub variables: Json,
}

/// A request with its variables.
fn make(query: String, members: Vec<(String, Json)>) -> (r: Request)
    ensures
        r.query == query,
        r.variables@ == JsonV::Object(json::members_view(members@)),
{
    Request { query, variables: json::object(members) }
}

impl Request {
    /// What is sent: the query and its variables as one object.
    pub fn body(&self) -> (r: Json)
        ensures
            r@ == JsonV::Object(
                seq![("query"@, JsonV::Text(self.query@)), ("variables"@, self.variables@)],
            ),
    {
        json::object2(
            "query",
            json::of_str(self.query.as_str()),
            "variables",
            self.variables.copy(),
        )
    }

    /// What is sent, as text.
    pub fn body_text(&self) -> (r: String)
        ensures
            r@ == json::json_text(
                JsonV::Object(
                    seq![("query"@, JsonV::Text(self.query@)), ("variables"@, self.variables@)],
                ),
            ),
    {
        let b = self.body();
        json::write(&b)
    }
}

/// The header that carries a session.
pub fn authorization(token: &str) -> (r: String)
    ensures
        r@ == "Bearer "@ + token@,
{
    text::concat2("Bearer ", token)
}

// ---------------------------------------------------------------------------
// Answers
// ---------------------------------------------------------------------------

/// The first error that an answer tells of.
pub open spec fn first_error(answer: JsonV) -> Option<Seq<char>> {
    match json::opt_items_of(json::member(answer, "errors"@)) {
        Some(a) => if a.len() == 0 {
            None
        } else {
            match json::opt_str_of(json::member(a[0], "message"@)) {
                Some(s) => Some(s),
                None => Some(UNKNOWN_ERROR@),
            }
        },
        None => None,
    }
}

/// A member, or null.
pub open spec fn field(j: JsonV, key: Seq<char>) -> JsonV {
    match json::member(j, key) {
        Some(v) => v,
        None => JsonV::Null,
    }
}

/// The data of an answer, or the first error that it tells of.
pub fn read_answer(answer: &Json) -> (r: Result<Json, String>)
    ensures
        match r {
            Ok(data) => first_error(answer@) is None && data@ == field(answer@, "data"@),
            Err(e) => first_error(answer@) == Some(e@),
        },
{
    if let Some(errors) = answer.get("errors") {
        if let Some(list) = errors.as_array() {
            if list.len() > 0 {
                assert(json::items_view(list@)[0] == list@[0]@);
                let first = &list[0];
                return match first.get("message") {
                    Some(m) => match m.as_str() {
                        Some(s) => Err(s.to_owned()),
                        None => Err(UNKNOWN_ERROR.to_owned()),
                    },
                    None => Err(UNKNOWN_ERROR.to_owned()),
                };
            }
        }
    }
    Ok(field_value(answer, "data"))
}

/// A member, or null.
pub fn field_value(data: &Json, key: &str) -> (r: Json)
    ensures
        r@ == field(data@, key@),
{
    match data.get(key) {
        Some(v) => v.copy(),
        None => Json::Null,
    }
}

/// A truth value in an answer; false where there is none.
pub fn bool_field(data: &Json, key: &str) -> (r: bool)
    ensures
        r == (match json::member(data@, key@) {
            Some(v) => json::bool_of(v) == Some(true),
            None => false,
        }),
{
    match data.get(key) {
        Some(v) => match v.as_bool() {
            Some(b) => b,
            None => false,
        },
        None => false,
    }
}

/// A number in an answer; zero where there is none.
pub fn int_field(data: &Json, key: &str) -> (r: i64)
    ensures
        r == (match json::member(data@, key@) {
            Some(v) => match json::i64_of(v) {
                Some(n) => n,
                None => 0,
            },
            None => 0,
        }),
{
    match data.get(key) {
        Some(v) => match v.as_i64() {
            Some(n) => n,
            None => 0,
        },
        None => 0,
    }
}

/// A text in an answer, or another where there is none.
pub fn text_field(data: &Json, key: &str, default: &str) -> (r: String)
    ensures
        r@ == (match json::opt_str_of(json::member(data@, key@)) {
            Some(s) => s,
            None => default@,
        }),
{
    match data.get(key) {
        Some(v) => match v.as_str() {
            Some(s) => s.to_owned(),
            None => default.to_owned(),
        },
        None => default.to_owned(),
    }
}

/// Whether accounts may be registered; not where the answer does not say.
pub fn registration_allowed(data: &Json) -> (r: bool)
    ensures
        r == (match json::member(data@, "serverConfig"@) {
            Some(c) => match json::member(c, "allowRegistration"@) {
                Some(v) => json::bool_of(v) == Some(true),
                None => false,
            },
            None => false,
        }),
{
    match data.get("serverConfig") {
        Some(c) => bool_field(c, "allowRegistration"),
        None => false,
    }
}

/// The role of the account in a workspace; `none` where the answer does not say.
pub fn role_field(data: &Json) -> (r: String)
    ensures
        r@ == (match json::opt_str_of(json::member(data@, "myRole"@)) {
            Some(s) => s,
            None => "none"@,
        }),
{
    text_field(data, "myRole", "none")
}

/// A session in an answer: its token and the account, or what is missing.
pub fn read_session(data: &Json, key: &str, missing: &'static str) -> (r: Result<
    (String, Json),
    &'static str,
>)
    ensures
        match json::member(data@, key@) {
            Some(s) => match json::opt_str_of(json::member(s, "token"@)) {
                Some(t) => match r {
                    Ok((token, account)) => token@ == t && account@ == field(s, "account"@),
                    Err(_) => false,
                },
                None => r == Err::<(String, Json), &'static str>(NO_TOKEN),
            },
            None => r == Err::<(String, Json), &'static str>(missing),
        },
{
    match data.get(key) {
        Some(s) => match s.get("token") {
            Some(t) => match t.as_str() {
                Some(token) => Ok((token.to_owned(), field_value(s, "account"))),
                None => Err(NO_TOKEN),
            },
            None => Err(NO_TOKEN),
        },
        None => Err(missing),
    }
}

// ---------------------------------------------------------------------------
// Requests
// ---------------------------------------------------------------------------

/// The attributes of a label, every key of them: the server replaces them all.
pub fn label_attrs(
    multi: bool,
    format: Option<&str>,
    currency_symbol: Option<&str>,
    unit: Option<&str>,
    default_value: &Json,
) -> (r: Json)
    ensures
        r@ == JsonV::Object(
            seq![
                ("multi"@, JsonV::Bool(multi)),
                ("format"@, json::opt_text(text::opt_str(format))),
                ("currencySymbol"@, json::opt_text(text::opt_str(currency_symbol))),
                ("unit"@, json::opt_text(text::opt_str(unit))),
                ("defaultValue"@, default_value@),
            ],
        ),
{
    let mut m: Vec<(String, Json)> = Vec::new();
    json::put(&mut m, "multi", Json::Bool(multi));
    json::put(&mut m, "format", json::of_opt_str(format));
    json::put(&mut m, "currencySymbol", json::of_opt_str(currency_symbol));
    json::put(&mut m, "unit", json::of_opt_str(unit));
    json::put(&mut m, "defaultValue", default_value.copy());
    assert(json::members_view(m@) =~= seq![
        ("multi"@, JsonV::Bool(multi)),
        ("format"@, json::opt_text(text::opt_str(format))),
        ("currencySymbol"@, json::opt_text(text::opt_str(currency_symbol))),
        ("unit"@, json::opt_text(text::opt_str(unit))),
        ("defaultValue"@, default_value@),
    ]);
    json::object(m)
}

/// The document of [`me`].
pub const ME: &'static str = "query { me { id email name } }";

/// Asks who is signed in.
pub fn me() -> (r: Request)
    ensures
        r.query@ == ME@,
        r.variables@ == JsonV::Object(seq![]),
{
    let m: Vec<(String, Json)> = Vec::new();
    assert(json::members_view(m@) =~= seq![]);
    make(ME.to_owned(), m)
}

/// The document of [`allow_registration`].
pub const ALLOW_REGISTRATION: &'static str = "query { serverConfig { allowRegistration } }";

/// Asks whether accounts may be registered.
pub fn allow_registration() -> (r: Request)
    ensures
        r.query@ == ALLOW_REGISTRATION@,
        r.variables@ == JsonV::Object(seq![]),
{
    let m: Vec<(String, Json)> = Vec::new();
    assert(json::members_view(m@) =~= seq![]);
    make(ALLOW_REGISTRATION.to_owned(), m)
}

/// The document of [`logout`].
pub const LOGOUT: &'static str = "mutation { logout }";

/// Asks to end the session.
pub fn logout() -> (r: Request)
    ensures
        r.query@ == LOGOUT@,
        r.variables@ == JsonV::Object(seq![]),
{
    let m: Vec<(String, Json)> = Vec::new();
    assert(json::members_view(m@) =~= seq![]);
    make(LOGOUT.to_owned(), m)
}

/// The document of [`login`].
pub const LOGIN: &'static str =
    "mutation($e: String!, $p: String!) { login(email: $e, password: $p) { token account { \
    id email name } } }";

/// Asks to sign in.
pub fn login(email: &str, password: &str) -> (r: Request)
    ensures
        r.query@ == LOGIN@,
        r.variables@ == JsonV::Object(
            seq![("e"@, JsonV::Text(email@)), ("p"@, JsonV::Text(password@))],
        ),
{
    let mut m: Vec<(String, Json)> = Vec::new();
    json::put(&mut m, "e", json::of_str(email));
    json::put(&mut m, "p", json::of_str(password));
    assert(json::members_view(m@) =~= seq![
        ("e"@, JsonV::Text(email@)),
        ("p"@, JsonV::Text(password@)),
    ]);
    make(LOGIN.to_owned(), m)
}

/// The document of [`register`].
pub const REGISTER: &'static str =
    "mutation($e: String!, $n: String!, $p: String!) { register(email: $e, name: $n, \
    password: $p) { token account { id email name } } }";

/// Asks for a new account.
pub fn register(email: &str, name: &str, password: &str) -> (r: Request)
    ensures
        r.query@ == REGISTER@,
        r.variables@ == JsonV::Object(
            seq![
                ("e"@, JsonV::Text(email@)),
                ("n"@, JsonV::Text(name@)),
                ("p"@, JsonV::Text(password@)),
            ],
        ),
{
    let mut m: Vec<(String, Json)> = Vec::new();
    json::put(&mut m, "e", json::of_str(email));
    json::put(&mut m, "n", json::of_str(name));
    json::put(&mut m, "p", json::of_str(password));
    assert(json::members_view(m@) =~= seq![
        ("e"@, JsonV::Text(email@)),
        ("n"@, JsonV::Text(name@)),
        ("p"@, JsonV::Text(password@)),
    ]);
    make(REGISTER.to_owned(), m)
}

/// The document of [`workspaces`].
pub const WORKSPACES: &'static str =
    "query { workspaces { workspace { id name slug description deletedAt } role } }";

/// Asks for the workspaces of the account.
pub fn workspaces() -> (r: Request)
    ensures
        r.query@ == WORKSPACES@,
        r.variables@ == JsonV::Object(seq![]),
{
    let m: Vec<(String, Json)> = Vec::new();
    assert(json::members_view(m@) =~= seq![]);
    make(WORKSPACES.to_owned(), m)
}

/// The document of [`create_workspace`].
pub const CREATE_WORKSPACE: &'static str =
    "mutation($n: String!, $d: String) { createWorkspace(name: $n, description: $d) { id \
    name slug description } }";

/// Asks for a new workspace.
pub fn create_workspace(name: &str, description: &str) -> (r: Request)
    ensures
        r.query@ == CREATE_WORKSPACE@,
        r.variables@ == JsonV::Object(
            seq![("n"@, JsonV::Text(name@)), ("d"@, JsonV::Text(description@))],
        ),
{
    let mut m: Vec<(String, Json)> = Vec::new();
    json::put(&mut m, "n", json::of_str(name));
    json::put(&mut m, "d", json::of_str(description));
    assert(json::members_view(m@) =~= seq![
        ("n"@, JsonV::Text(name@)),
        ("d"@, JsonV::Text(description@)),
    ]);
    make(CREATE_WORKSPACE.to_owned(), m)
}

/// The document of [`update_workspace`].
pub const UPDATE_WORKSPACE: &'static str =
    "mutation($id: ID!, $n: String!, $d: String!, $s: String) { updateWorkspace(workspaceId: \
    $id, name: $n, description: $d, slug: $s) { id name slug description } }";

/// Asks for a change of a workspace. The address is sent only where it changes.
pub fn update_workspace(
    workspace_id: &str,
    name: &str,
    description: &str,
    slug: Option<&str>,
) -> (r: Request)
    ensures
        r.query@ == UPDATE_WORKSPACE@,
        r.variables@ == JsonV::Object(
            seq![
                ("id"@, JsonV::Text(workspace_id@)),
                ("n"@, JsonV::Text(name@)),
                ("d"@, JsonV::Text(description@)),
                ("s"@, json::opt_text(text::opt_str(slug))),
            ],
        ),
{
    let mut m: Vec<(String, Json)> = Vec::new();
    json::put(&mut m, "id", json::of_str(workspace_id));
    json::put(&mut m, "n", json::of_str(name));
    json::put(&mut m, "d", json::of_str(description));
    json::put(&mut m, "s", json::of_opt_str(slug));
    assert(json::members_view(m@) =~= seq![
        ("id"@, JsonV::Text(workspace_id@)),
        ("n"@, JsonV::Text(name@)),
        ("d"@, JsonV::Text(description@)),
        ("s"@, json::opt_text(text::opt_str(slug))),
    ]);
    make(UPDATE_WORKSPACE.to_owned(), m)
}

/// The document of [`transfer_owner`].
pub const TRANSFER_OWNER: &'static str =
    "mutation($id: ID!, $a: ID!) { transferOwner(workspaceId: $id, accountId: $a) }";

/// Asks to hand a workspace over.
pub fn transfer_owner(workspace_id: &str, account_id: &str) -> (r: Request)
    ensures
        r.query@ == TRANSFER_OWNER@,
        r.variables@ == JsonV::Object(
            seq![("id"@, JsonV::Text(workspace_id@)), ("a"@, JsonV::Text(account_id@))],
        ),
{
    let mut m: Vec<(String, Json)> = Vec::new();
    json::put(&mut m, "id", json::of_str(workspace_id));
    json::put(&mut m, "a", json::of_str(account_id));
    assert(json::members_view(m@) =~= seq![
        ("id"@, JsonV::Text(workspace_id@)),
        ("a"@, JsonV::Text(account_id@)),
    ]);
    make(TRANSFER_OWNER.to_owned(), m)
}

/// The document of [`delete_workspace`].
pub const DELETE_WORKSPACE: &'static str =
    "mutation($id: ID!) { deleteWorkspace(workspaceId: $id) }";

/// Asks to put a workspace in the trash.
pub fn delete_workspace(workspace_id: &str) -> (r: Request)
    ensures
        r.query@ == DELETE_WORKSPACE@,
        r.variables@ == JsonV::Object(seq![("id"@, JsonV::Text(workspace_id@))]),
{
    let mut m: Vec<(String, Json)> = Vec::new();
    json::put(&mut m, "id", json::of_str(workspace_id));
    assert(json::members_view(m@) =~= seq![("id"@, JsonV::Text(workspace_id@))]);
    make(DELETE_WORKSPACE.to_owned(), m)
}

/// The document of [`restore_workspace`].
pub const RESTORE_WORKSPACE: &'static str =
    "mutation($id: ID!) { restoreWorkspace(workspaceId: $id) }";

/// Asks to take a workspace out of the trash.
pub fn restore_workspace(workspace_id: &str) -> (r: Request)
    ensures
        r.query@ == RESTORE_WORKSPACE@,
        r.variables@ == JsonV::Object(seq![("id"@, JsonV::Text(workspace_id@))]),
{
    let mut m: Vec<(String, Json)> = Vec::new();
    json::put(&mut m, "id", json::of_str(workspace_id));
    assert(json::members_view(m@) =~= seq![("id"@, JsonV::Text(workspace_id@))]);
    make(RESTORE_WORKSPACE.to_owned(), m)
}

/// The document of [`workspace_by_slug`].
pub const WORKSPACE_BY_SLUG: &'static str =
    "query($s: String!) { workspace(slug: $s) { id name slug description deletedAt } }";

/// Asks for a workspace by its address.
pub fn workspace_by_slug(slug: &str) -> (r: Request)
    ensures
        r.query@ == WORKSPACE_BY_SLUG@,
        r.variables@ == JsonV::Object(seq![("s"@, JsonV::Text(slug@))]),
{
    let mut m: Vec<(String, Json)> = Vec::new();
    json::put(&mut m, "s", json::of_str(slug));
    assert(json::members_view(m@) =~= seq![("s"@, JsonV::Text(slug@))]);
    make(WORKSPACE_BY_SLUG.to_owned(), m)
}

/// The document of [`entries`], up to the fields.
pub const ENTRIES: &'static str = "query($id: ID!) { entries(workspaceId: $id) { ";

/// Asks for the entries of a workspace.
pub fn entries(workspace_id: &str) -> (r: Request)
    ensures
        r.query@ == ENTRIES@ + ENTRY_FIELDS@ + " } }"@,
        r.variables@ == JsonV::Object(seq![("id"@, JsonV::Text(workspace_id@))]),
{
    let mut m: Vec<(String, Json)> = Vec::new();
    json::put(&mut m, "id", json::of_str(workspace_id));
    assert(json::members_view(m@) =~= seq![("id"@, JsonV::Text(workspace_id@))]);
    make(text::concat3(ENTRIES, ENTRY_FIELDS, " } }"), m)
}

/// The document of [`create_entry`], up to the fields.
pub const CREATE_ENTRY: &'static str =
    "mutation($id: ID!, $t: String!) { createEntry(workspaceId: $id, title: $t) { ";

/// Asks for a new entry.
pub fn create_entry(workspace_id: &str, title: &str) -> (r: Request)
    ensures
        r.query@ == CREATE_ENTRY@ + ENTRY_FIELDS@ + " } }"@,
        r.variables@ == JsonV::Object(
            seq![("id"@, JsonV::Text(workspace_id@)), ("t"@, JsonV::Text(title@))],
        ),
{
    let mut m: Vec<(String, Json)> = Vec::new();
    json::put(&mut m, "id", json::of_str(workspace_id));
    json::put(&mut m, "t", json::of_str(title));
    assert(json::members_view(m@) =~= seq![
        ("id"@, JsonV::Text(workspace_id@)),
        ("t"@, JsonV::Text(title@)),
    ]);
    make(text::concat3(CREATE_ENTRY, ENTRY_FIELDS, " } }"), m)
}

/// The document of [`label_schemas`], up to the fields.
pub const LABEL_SCHEMAS: &'static str = "query($id: ID!) { labelSchemas(workspaceId: $id) { ";

/// Asks for the labels of a workspace.
pub fn label_schemas(workspace_id: &str) -> (r: Request)
    ensures
        r.query@ == LABEL_SCHEMAS@ + LABEL_SCHEMA_FIELDS@ + " } }"@,
        r.variables@ == JsonV::Object(seq![("id"@, JsonV::Text(workspace_id@))]),
{
    let mut m: Vec<(String, Json)> = Vec::new();
    json::put(&mut m, "id", json::of_str(workspace_id));
    assert(json::members_view(m@) =~= seq![("id"@, JsonV::Text(workspace_id@))]);
    make(text::concat3(LABEL_SCHEMAS, LABEL_SCHEMA_FIELDS, " } }"), m)
}

/// The document of [`workspace_ai_config`], up to the fields.
pub const WORKSPACE_AI_CONFIG: &'static str =
    "query($id: ID!) { workspaceAiConfig(workspaceId: $id) { ";

/// Asks for the prompts of a workspace.
pub fn workspace_ai_config(workspace_id: &str) -> (r: Request)
    ensures
        r.query@ == WORKSPACE_AI_CONFIG@ + AI_CONFIG_FIELDS@ + " } }"@,
        r.variables@ == JsonV::Object(seq![("id"@, JsonV::Text(workspace_id@))]),
{
    let mut m: Vec<(String, Json)> = Vec::new();
    json::put(&mut m, "id", json::of_str(workspace_id));
    assert(json::members_view(m@) =~= seq![("id"@, JsonV::Text(workspace_id@))]);
    make(text::concat3(WORKSPACE_AI_CONFIG, AI_CONFIG_FIELDS, " } }"), m)
}

/// The document of [`update_workspace_ai_config`], up to the fields.
pub const UPDATE_WORKSPACE_AI_CONFIG: &'static str =
    "mutation($id: ID!, $s: [NamedPromptInput!]!, $t: [NamedPromptInput!]!) { \
    updateWorkspaceAiConfig(workspaceId: $id, scenarios: $s, tones: $t) { ";

/// Asks to replace the prompts of a workspace.
pub fn update_workspace_ai_config(
    workspace_id: &str,
    scenarios: &Json,
    tones: &Json,
) -> (r: Request)
    ensures
        r.query@ == UPDATE_WORKSPACE_AI_CONFIG@ + AI_CONFIG_FIELDS@ + " } }"@,
        r.variables@ == JsonV::Object(
            seq![("id"@, JsonV::Text(workspace_id@)), ("s"@, scenarios@), ("t"@, tones@)],
        ),
{
    let mut m: Vec<(String, Json)> = Vec::new();
    json::put(&mut m, "id", json::of_str(workspace_id));
    json::put(&mut m, "s", scenarios.copy());
    json::put(&mut m, "t", tones.copy());
    assert(json::members_view(m@) =~= seq![
        ("id"@, JsonV::Text(workspace_id@)),
        ("s"@, scenarios@),
        ("t"@, tones@),
    ]);
    make(text::concat3(UPDATE_WORKSPACE_AI_CONFIG, AI_CONFIG_FIELDS, " } }"), m)
}

/// The document of [`summarize_entries`], up to the fields.
pub const SUMMARIZE_ENTRIES: &'static str =
    "mutation($id: ID!, $c: [String!]!, $s: String, $t: String) { \
    summarizeEntries(workspaceId: $id, codes: $c, scenario: $s, tone: $t) { ";

/// Asks for an entry that sums up others.
pub fn summarize_entries(
    workspace_id: &str,
    codes: &Vec<String>,
    scenario: Option<&str>,
    tone: Option<&str>,
) -> (r: Request)
    ensures
        r.query@ == SUMMARIZE_ENTRIES@ + ENTRY_FIELDS@ + " } }"@,
        r.variables@ == JsonV::Object(
            seq![
                ("id"@, JsonV::Text(workspace_id@)),
                ("c"@, json::texts(text::contents(codes@))),
                ("s"@, json::opt_text(text::opt_str(scenario))),
                ("t"@, json::opt_text(text::opt_str(tone))),
            ],
        ),
{
    let mut m: Vec<(String, Json)> = Vec::new();
    json::put(&mut m, "id", json::of_str(workspace_id));
    json::put(&mut m, "c", json::of_list(codes));
    json::put(&mut m, "s", json::of_opt_str(scenario));
    json::put(&mut m, "t", json::of_opt_str(tone));
    assert(json::members_view(m@) =~= seq![
        ("id"@, JsonV::Text(workspace_id@)),
        ("c"@, json::texts(text::contents(codes@))),
        ("s"@, json::opt_text(text::opt_str(scenario))),
        ("t"@, json::opt_text(text::opt_str(tone))),
    ]);
    make(text::concat3(SUMMARIZE_ENTRIES, ENTRY_FIELDS, " } }"), m)
}

/// The document of [`set_labeling`].
pub const SET_LABELING: &'static str =
    "mutation($c: String!, $n: String!, $v: JSON) { setLabeling(entryCode: $c, labelName: \
    $n, value: $v) { labelName value } }";

/// Asks to write a label. The value may be null: a label without values has
/// that one.
pub fn set_labeling(entry_code: &str, label_name: &str, value: &Json) -> (r: Request)
    ensures
        r.query@ == SET_LABELING@,
        r.variables@ == JsonV::Object(
            seq![
                ("c"@, JsonV::Text(entry_code@)),
                ("n"@, JsonV::Text(label_name@)),
                ("v"@, value@),
            ],
        ),
{
    let mut m: Vec<(String, Json)> = Vec::new();
    json::put(&mut m, "c", json::of_str(entry_code));
    json::put(&mut m, "n", json::of_str(label_name));
    json::put(&mut m, "v", value.copy());
    assert(json::members_view(m@) =~= seq![
        ("c"@, JsonV::Text(entry_code@)),
        ("n"@, JsonV::Text(label_name@)),
        ("v"@, value@),
    ]);
    make(SET_LABELING.to_owned(), m)
}

/// The document of [`set_labelings`].
pub const SET_LABELINGS: &'static str =
    "mutation($c: [String!]!, $l: [LabelingInput!]!) { setLabelings(entryCodes: $c, \
    labelings: $l) }";

/// Asks to write labels to several entries at once.
pub fn set_labelings(entry_codes: &Vec<String>, labelings: &Json) -> (r: Request)
    ensures
        r.query@ == SET_LABELINGS@,
        r.variables@ == JsonV::Object(
            seq![("c"@, json::texts(text::contents(entry_codes@))), ("l"@, labelings@)],
        ),
{
    let mut m: Vec<(String, Json)> = Vec::new();
    json::put(&mut m, "c", json::of_list(entry_codes));
    json::put(&mut m, "l", labelings.copy());
    assert(json::members_view(m@) =~= seq![
        ("c"@, json::texts(text::contents(entry_codes@))),
        ("l"@, labelings@),
    ]);
    make(SET_LABELINGS.to_owned(), m)
}

/// The document of [`entry`], up to the fields.
pub const ENTRY: &'static str = "query($c: String!) { entry(code: $c) { ";

/// Asks for an entry.
pub fn entry(code: &str) -> (r: Request)
    ensures
        r.query@ == ENTRY@ + ENTRY_FIELDS@ + " } }"@,
        r.variables@ == JsonV::Object(seq![("c"@, JsonV::Text(code@))]),
{
    let mut m: Vec<(String, Json)> = Vec::new();
    json::put(&mut m, "c", json::of_str(code));
    assert(json::members_view(m@) =~= seq![("c"@, JsonV::Text(code@))]);
    make(text::concat3(ENTRY, ENTRY_FIELDS, " } }"), m)
}

/// The document of [`update_entry`], up to the fields.
pub const UPDATE_ENTRY: &'static str =
    "mutation($c: String!, $e: String!, $t: String!, $d: String!) { updateEntry(code: $c, \
    expectedUpdatedAt: $e, title: $t, detail: $d) { ";

/// Asks for a change of an entry, based on the version of a time.
pub fn update_entry(
    code: &str,
    expected_updated_at: &str,
    title: &str,
    detail: &str,
) -> (r: Request)
    ensures
        r.query@ == UPDATE_ENTRY@ + ENTRY_FIELDS@ + " } }"@,
        r.variables@ == JsonV::Object(
            seq![
                ("c"@, JsonV::Text(code@)),
                ("e"@, JsonV::Text(expected_updated_at@)),
                ("t"@, JsonV::Text(title@)),
                ("d"@, JsonV::Text(detail@)),
            ],
        ),
{
    let mut m: Vec<(String, Json)> = Vec::new();
    json::put(&mut m, "c", json::of_str(code));
    json::put(&mut m, "e", json::of_str(expected_updated_at));
    json::put(&mut m, "t", json::of_str(title));
    json::put(&mut m, "d", json::of_str(detail));
    assert(json::members_view(m@) =~= seq![
        ("c"@, JsonV::Text(code@)),
        ("e"@, JsonV::Text(expected_updated_at@)),
        ("t"@, JsonV::Text(title@)),
        ("d"@, JsonV::Text(detail@)),
    ]);
    make(text::concat3(UPDATE_ENTRY, ENTRY_FIELDS, " } }"), m)
}

/// The document of [`delete_entry`].
pub const DELETE_ENTRY: &'static str = "mutation($c: String!) { deleteEntry(code: $c) }";

/// Asks to delete an entry.
pub fn delete_entry(code: &str) -> (r: Request)
    ensures
        r.query@ == DELETE_ENTRY@,
        r.variables@ == JsonV::Object(seq![("c"@, JsonV::Text(code@))]),
{
    let mut m: Vec<(String, Json)> = Vec::new();
    json::put(&mut m, "c", json::of_str(code));
    assert(json::members_view(m@) =~= seq![("c"@, JsonV::Text(code@))]);
    make(DELETE_ENTRY.to_owned(), m)
}

/// The document of [`archive_entry`].
pub const ARCHIVE_ENTRY: &'static str = "mutation($c: String!) { archiveEntry(code: $c) }";

/// Asks to archive an entry.
pub fn archive_entry(code: &str) -> (r: Request)
    ensures
        r.query@ == ARCHIVE_ENTRY@,
        r.variables@ == JsonV::Object(seq![("c"@, JsonV::Text(code@))]),
{
    let mut m: Vec<(String, Json)> = Vec::new();
    json::put(&mut m, "c", json::of_str(code));
    assert(json::members_view(m@) =~= seq![("c"@, JsonV::Text(code@))]);
    make(ARCHIVE_ENTRY.to_owned(), m)
}

/// The document of [`unarchive_entry`].
pub const UNARCHIVE_ENTRY: &'static str = "mutation($c: String!) { unarchiveEntry(code: $c) }";

/// Asks to take an entry out of the archive.
pub fn unarchive_entry(code: &str) -> (r: Request)
    ensures
        r.query@ == UNARCHIVE_ENTRY@,
        r.variables@ == JsonV::Object(seq![("c"@, JsonV::Text(code@))]),
{
    let mut m: Vec<(String, Json)> = Vec::new();
    json::put(&mut m, "c", json::of_str(code));
    assert(json::members_view(m@) =~= seq![("c"@, JsonV::Text(code@))]);
    make(UNARCHIVE_ENTRY.to_owned(), m)
}

/// The document of [`archived_entries`], up to the fields.
pub const ARCHIVED_ENTRIES: &'static str = "query($id: ID!) { archivedEntries(workspaceId: $id) { ";

/// Asks for the archived entries.
pub fn archived_entries(workspace_id: &str) -> (r: Request)
    ensures
        r.query@ == ARCHIVED_ENTRIES@ + ENTRY_FIELDS@ + " } }"@,
        r.variables@ == JsonV::Object(seq![("id"@, JsonV::Text(workspace_id@))]),
{
    let mut m: Vec<(String, Json)> = Vec::new();
    json::put(&mut m, "id", json::of_str(workspace_id));
    assert(json::members_view(m@) =~= seq![("id"@, JsonV::Text(workspace_id@))]);
    make(text::concat3(ARCHIVED_ENTRIES, ENTRY_FIELDS, " } }"), m)
}

/// The document of [`remove_labeling`].
pub const REMOVE_LABELING: &'static str =
    "mutation($c: String!, $n: String!) { removeLabeling(entryCode: $c, labelName: $n) }";

/// Asks to take a label off an entry.
pub fn remove_labeling(entry_code: &str, label_name: &str) -> (r: Request)
    ensures
        r.query@ == REMOVE_LABELING@,
        r.variables@ == JsonV::Object(
            seq![("c"@, JsonV::Text(entry_code@)), ("n"@, JsonV::Text(label_name@))],
        ),
{
    let mut m: Vec<(String, Json)> = Vec::new();
    json::put(&mut m, "c", json::of_str(entry_code));
    json::put(&mut m, "n", json::of_str(label_name));
    assert(json::members_view(m@) =~= seq![
        ("c"@, JsonV::Text(entry_code@)),
        ("n"@, JsonV::Text(label_name@)),
    ]);
    make(REMOVE_LABELING.to_owned(), m)
}

/// The document of [`create_label_schema`], up to the fields.
pub const CREATE_LABEL_SCHEMA: &'static str =
    "mutation($id: ID!, $n: String!, $t: String!, $vt: String!, $ev: [String!]!, $attrs: \
    LabelSchemaAttrsInput!, $color: String, $vc: JSON!) { createLabelSchema(workspaceId: \
    $id, name: $n, title: $t, valueType: $vt, enumValues: $ev, attrs: $attrs, color: \
    $color, valueColors: $vc) { ";

/// Asks for a new label.
pub fn create_label_schema(
    workspace_id: &str,
    name: &str,
    title: &str,
    value_type: &str,
    enum_values: &Vec<String>,
    attrs: &Json,
    color: Option<&str>,
    value_colors: &Json,
) -> (r: Request)
    ensures
        r.query@ == CREATE_LABEL_SCHEMA@ + LABEL_SCHEMA_FIELDS@ + " } }"@,
        r.variables@ == JsonV::Object(
            seq![
                ("id"@, JsonV::Text(workspace_id@)),
                ("n"@, JsonV::Text(name@)),
                ("t"@, JsonV::Text(title@)),
                ("vt"@, JsonV::Text(value_type@)),
                ("ev"@, json::texts(text::contents(enum_values@))),
                ("attrs"@, attrs@),
                ("color"@, json::opt_text(text::opt_str(color))),
                ("vc"@, value_colors@),
            ],
        ),
{
    let mut m: Vec<(String, Json)> = Vec::new();
    json::put(&mut m, "id", json::of_str(workspace_id));
    json::put(&mut m, "n", json::of_str(name));
    json::put(&mut m, "t", json::of_str(title));
    json::put(&mut m, "vt", json::of_str(value_type));
    json::put(&mut m, "ev", json::of_list(enum_values));
    json::put(&mut m, "attrs", attrs.copy());
    json::put(&mut m, "color", json::of_opt_str(color));
    json::put(&mut m, "vc", value_colors.copy());
    assert(json::members_view(m@) =~= seq![
        ("id"@, JsonV::Text(workspace_id@)),
        ("n"@, JsonV::Text(name@)),
        ("t"@, JsonV::Text(title@)),
        ("vt"@, JsonV::Text(value_type@)),
        ("ev"@, json::texts(text::contents(enum_values@))),
        ("attrs"@, attrs@),
        ("color"@, json::opt_text(text::opt_str(color))),
        ("vc"@, value_colors@),
    ]);
    make(text::concat3(CREATE_LABEL_SCHEMA, LABEL_SCHEMA_FIELDS, " } }"), m)
}

/// The document of [`update_label_schema`], up to the fields.
pub const UPDATE_LABEL_SCHEMA: &'static str =
    "mutation($id: ID!, $n: String!, $t: String!, $ev: [String!]!, $attrs: \
    LabelSchemaAttrsInput!, $color: String, $vc: JSON!) { updateLabelSchema(workspaceId: \
    $id, name: $n, title: $t, enumValues: $ev, attrs: $attrs, color: $color, valueColors: \
    $vc) { ";

/// Asks for a change of a label. All attributes are sent: the server replaces
/// them.
pub fn update_label_schema(
    workspace_id: &str,
    name: &str,
    title: &str,
    enum_values: &Vec<String>,
    attrs: &Json,
    color: Option<&str>,
    value_colors: &Json,
) -> (r: Request)
    ensures
        r.query@ == UPDATE_LABEL_SCHEMA@ + LABEL_SCHEMA_FIELDS@ + " } }"@,
        r.variables@ == JsonV::Object(
            seq![
                ("id"@, JsonV::Text(workspace_id@)),
                ("n"@, JsonV::Text(name@)),
                ("t"@, JsonV::Text(title@)),
                ("ev"@, json::texts(text::contents(enum_values@))),
                ("attrs"@, attrs@),
                ("color"@, json::opt_text(text::opt_str(color))),
                ("vc"@, value_colors@),
            ],
        ),
{
    let mut m: Vec<(String, Json)> = Vec::new();
    json::put(&mut m, "id", json::of_str(workspace_id));
    json::put(&mut m, "n", json::of_str(name));
    json::put(&mut m, "t", json::of_str(title));
    json::put(&mut m, "ev", json::of_list(enum_values));
    json::put(&mut m, "attrs", attrs.copy());
    json::put(&mut m, "color", json::of_opt_str(color));
    json::put(&mut m, "vc", value_colors.copy());
    assert(json::members_view(m@) =~= seq![
        ("id"@, JsonV::Text(workspace_id@)),
        ("n"@, JsonV::Text(name@)),
        ("t"@, JsonV::Text(title@)),
        ("ev"@, json::texts(text::contents(enum_values@))),
        ("attrs"@, attrs@),
        ("color"@, json::opt_text(text::opt_str(color))),
        ("vc"@, value_colors@),
    ]);
    make(text::concat3(UPDATE_LABEL_SCHEMA, LABEL_SCHEMA_FIELDS, " } }"), m)
}

/// The document of [`audit_logs`].
pub const AUDIT_LOGS: &'static str =
    "query($id: ID!) { auditLogs(workspaceId: $id) { id action resourceType resourceId at \
    before after } }";

/// Asks for the audit log of a workspace.
pub fn audit_logs(workspace_id: &str) -> (r: Request)
    ensures
        r.query@ == AUDIT_LOGS@,
        r.variables@ == JsonV::Object(seq![("id"@, JsonV::Text(workspace_id@))]),
{
    let mut m: Vec<(String, Json)> = Vec::new();
    json::put(&mut m, "id", json::of_str(workspace_id));
    assert(json::members_view(m@) =~= seq![("id"@, JsonV::Text(workspace_id@))]);
    make(AUDIT_LOGS.to_owned(), m)
}

/// The document of [`my_role`].
pub const MY_ROLE: &'static str = "query($id: ID!) { myRole(workspaceId: $id) }";

/// Asks for the role of the account in a workspace.
pub fn my_role(workspace_id: &str) -> (r: Request)
    ensures
        r.query@ == MY_ROLE@,
        r.variables@ == JsonV::Object(seq![("id"@, JsonV::Text(workspace_id@))]),
{
    let mut m: Vec<(String, Json)> = Vec::new();
    json::put(&mut m, "id", json::of_str(workspace_id));
    assert(json::members_view(m@) =~= seq![("id"@, JsonV::Text(workspace_id@))]);
    make(MY_ROLE.to_owned(), m)
}

/// The document of [`members`], up to the fields.
pub const MEMBERS: &'static str = "query($id: ID!) { members(workspaceId: $id) { ";

/// Asks for the members of a workspace.
pub fn members(workspace_id: &str) -> (r: Request)
    ensures
        r.query@ == MEMBERS@ + MEMBER_FIELDS@ + " } }"@,
        r.variables@ == JsonV::Object(seq![("id"@, JsonV::Text(workspace_id@))]),
{
    let mut m: Vec<(String, Json)> = Vec::new();
    json::put(&mut m, "id", json::of_str(workspace_id));
    assert(json::members_view(m@) =~= seq![("id"@, JsonV::Text(workspace_id@))]);
    make(text::concat3(MEMBERS, MEMBER_FIELDS, " } }"), m)
}

/// The document of [`invite_member`], up to the fields.
pub const INVITE_MEMBER: &'static str =
    "mutation($id: ID!, $e: String!, $r: String!) { inviteMember(workspaceId: $id, email: \
    $e, role: $r) { ";

/// Asks to invite an account.
pub fn invite_member(workspace_id: &str, email: &str, role: &str) -> (r: Request)
    ensures
        r.query@ == INVITE_MEMBER@ + INVITE_FIELDS@ + " } }"@,
        r.variables@ == JsonV::Object(
            seq![
                ("id"@, JsonV::Text(workspace_id@)),
                ("e"@, JsonV::Text(email@)),
                ("r"@, JsonV::Text(role@)),
            ],
        ),
{
    let mut m: Vec<(String, Json)> = Vec::new();
    json::put(&mut m, "id", json::of_str(workspace_id));
    json::put(&mut m, "e", json::of_str(email));
    json::put(&mut m, "r", json::of_str(role));
    assert(json::members_view(m@) =~= seq![
        ("id"@, JsonV::Text(workspace_id@)),
        ("e"@, JsonV::Text(email@)),
        ("r"@, JsonV::Text(role@)),
    ]);
    make(text::concat3(INVITE_MEMBER, INVITE_FIELDS, " } }"), m)
}

/// The document of [`invites`], up to the fields.
pub const INVITES: &'static str = "query($id: ID!) { invites(workspaceId: $id) { ";

/// Asks for the invitations of a workspace.
pub fn invites(workspace_id: &str) -> (r: Request)
    ensures
        r.query@ == INVITES@ + INVITE_FIELDS@ + " } }"@,
        r.variables@ == JsonV::Object(seq![("id"@, JsonV::Text(workspace_id@))]),
{
    let mut m: Vec<(String, Json)> = Vec::new();
    json::put(&mut m, "id", json::of_str(workspace_id));
    assert(json::members_view(m@) =~= seq![("id"@, JsonV::Text(workspace_id@))]);
    make(text::concat3(INVITES, INVITE_FIELDS, " } }"), m)
}

/// The document of [`my_invites`], up to the fields.
pub const MY_INVITES: &'static str = "query { myInvites { ";

/// Asks for the invitations of the account.
pub fn my_invites() -> (r: Request)
    ensures
        r.query@ == MY_INVITES@ + INVITE_FIELDS@ + " } }"@,
        r.variables@ == JsonV::Object(seq![]),
{
    let m: Vec<(String, Json)> = Vec::new();
    assert(json::members_view(m@) =~= seq![]);
    make(text::concat3(MY_INVITES, INVITE_FIELDS, " } }"), m)
}

/// The document of [`accept_invite`], up to the fields.
pub const ACCEPT_INVITE: &'static str = "mutation($id: ID!) { acceptInvite(workspaceId: $id) { ";

/// Asks to accept an invitation.
pub fn accept_invite(workspace_id: &str) -> (r: Request)
    ensures
        r.query@ == ACCEPT_INVITE@ + MEMBER_FIELDS@ + " } }"@,
        r.variables@ == JsonV::Object(seq![("id"@, JsonV::Text(workspace_id@))]),
{
    let mut m: Vec<(String, Json)> = Vec::new();
    json::put(&mut m, "id", json::of_str(workspace_id));
    assert(json::members_view(m@) =~= seq![("id"@, JsonV::Text(workspace_id@))]);
    make(text::concat3(ACCEPT_INVITE, MEMBER_FIELDS, " } }"), m)
}

/// The document of [`decline_invite`].
pub const DECLINE_INVITE: &'static str = "mutation($id: ID!) { declineInvite(workspaceId: $id) }";

/// Asks to decline an invitation.
pub fn decline_invite(workspace_id: &str) -> (r: Request)
    ensures
        r.query@ == DECLINE_INVITE@,
        r.variables@ == JsonV::Object(seq![("id"@, JsonV::Text(workspace_id@))]),
{
    let mut m: Vec<(String, Json)> = Vec::new();
    json::put(&mut m, "id", json::of_str(workspace_id));
    assert(json::members_view(m@) =~= seq![("id"@, JsonV::Text(workspace_id@))]);
    make(DECLINE_INVITE.to_owned(), m)
}

/// The document of [`revoke_invite`].
pub const REVOKE_INVITE: &'static str =
    "mutation($id: ID!, $a: ID!) { revokeInvite(workspaceId: $id, accountId: $a) }";

/// Asks to take an invitation back.
pub fn revoke_invite(workspace_id: &str, account_id: &str) -> (r: Request)
    ensures
        r.query@ == REVOKE_INVITE@,
        r.variables@ == JsonV::Object(
            seq![("id"@, JsonV::Text(workspace_id@)), ("a"@, JsonV::Text(account_id@))],
        ),
{
    let mut m: Vec<(String, Json)> = Vec::new();
    json::put(&mut m, "id", json::of_str(workspace_id));
    json::put(&mut m, "a", json::of_str(account_id));
    assert(json::members_view(m@) =~= seq![
        ("id"@, JsonV::Text(workspace_id@)),
        ("a"@, JsonV::Text(account_id@)),
    ]);
    make(REVOKE_INVITE.to_owned(), m)
}

/// The document of [`update_member_role`], up to the fields.
pub const UPDATE_MEMBER_ROLE: &'static str =
    "mutation($id: ID!, $a: ID!, $r: String!) { updateMemberRole(workspaceId: $id, \
    accountId: $a, role: $r) { ";

/// Asks for a change of a role.
pub fn update_member_role(workspace_id: &str, account_id: &str, role: &str) -> (r: Request)
    ensures
        r.query@ == UPDATE_MEMBER_ROLE@ + MEMBER_FIELDS@ + " } }"@,
        r.variables@ == JsonV::Object(
            seq![
                ("id"@, JsonV::Text(workspace_id@)),
                ("a"@, JsonV::Text(account_id@)),
                ("r"@, JsonV::Text(role@)),
            ],
        ),
{
    let mut m: Vec<(String, Json)> = Vec::new();
    json::put(&mut m, "id", json::of_str(workspace_id));
    json::put(&mut m, "a", json::of_str(account_id));
    json::put(&mut m, "r", json::of_str(role));
    assert(json::members_view(m@) =~= seq![
        ("id"@, JsonV::Text(workspace_id@)),
        ("a"@, JsonV::Text(account_id@)),
        ("r"@, JsonV::Text(role@)),
    ]);
    make(text::concat3(UPDATE_MEMBER_ROLE, MEMBER_FIELDS, " } }"), m)
}

/// The document of [`remove_member`].
pub const REMOVE_MEMBER: &'static str =
    "mutation($id: ID!, $a: ID!) { removeMember(workspaceId: $id, accountId: $a) }";

/// Asks to remove a member.
pub fn remove_member(workspace_id: &str, account_id: &str) -> (r: Request)
    ensures
        r.query@ == REMOVE_MEMBER@,
        r.variables@ == JsonV::Object(
            seq![("id"@, JsonV::Text(workspace_id@)), ("a"@, JsonV::Text(account_id@))],
        ),
{
    let mut m: Vec<(String, Json)> = Vec::new();
    json::put(&mut m, "id", json::of_str(workspace_id));
    json::put(&mut m, "a", json::of_str(account_id));
    assert(json::members_view(m@) =~= seq![
        ("id"@, JsonV::Text(workspace_id@)),
        ("a"@, JsonV::Text(account_id@)),
    ]);
    make(REMOVE_MEMBER.to_owned(), m)
}

/// The document of [`views`], up to the fields.
pub const VIEWS: &'static str = "query($id: ID!) { views(workspaceId: $id) { ";

/// Asks for the views of a workspace.
pub fn views(workspace_id: &str) -> (r: Request)
    ensures
        r.query@ == VIEWS@ + VIEW_FIELDS@ + " } }"@,
        r.variables@ == JsonV::Object(seq![("id"@, JsonV::Text(workspace_id@))]),
{
    let mut m: Vec<(String, Json)> = Vec::new();
    json::put(&mut m, "id", json::of_str(workspace_id));
    assert(json::members_view(m@) =~= seq![("id"@, JsonV::Text(workspace_id@))]);
    make(text::concat3(VIEWS, VIEW_FIELDS, " } }"), m)
}

/// The document of [`query_entries`], up to the fields.
pub const QUERY_ENTRIES: &'static str =
    "query($id: ID!, $q: JSON, $s: SortInput, $p: PageInput) { queryEntries(workspaceId: \
    $id, query: $q, sort: $s, page: $p) { items { ";

/// Asks for a page of the entries that a query finds.
pub fn query_entries(
    workspace_id: &str,
    query: &Json,
    sort_field: &str,
    desc: bool,
    page: i64,
    page_size: i64,
) -> (r: Request)
    ensures
        r.query@ == QUERY_ENTRIES@ + ENTRY_FIELDS@ + " } total page pageSize labelNames } }"@,
        r.variables@ == JsonV::Object(
            seq![
                ("id"@, JsonV::Text(workspace_id@)),
                ("q"@, query@),
                (
                    "s"@,
                    JsonV::Object(
                        seq![
                            ("field"@, JsonV::Text(sort_field@)),
                            ("desc"@, JsonV::Bool(desc)),
                        ],
                    ),
                ),
                (
                    "p"@,
                    JsonV::Object(
                        seq![
                            ("page"@, JsonV::Number(number::int_number(page))),
                            ("pageSize"@, JsonV::Number(number::int_number(page_size))),
                        ],
                    ),
                ),
            ],
        ),
{
    let mut m: Vec<(String, Json)> = Vec::new();
    json::put(&mut m, "id", json::of_str(workspace_id));
    json::put(&mut m, "q", query.copy());
    let s_value = json::object2("field", json::of_str(sort_field), "desc", Json::Bool(desc));
    json::put(&mut m, "s", s_value);
    let p_value = json::object2("page", json::of_i64(page), "pageSize", json::of_i64(page_size));
    json::put(&mut m, "p", p_value);
    assert(json::members_view(m@) =~= seq![
        ("id"@, JsonV::Text(workspace_id@)),
        ("q"@, query@),
        (
            "s"@,
            JsonV::Object(
                seq![
                    ("field"@, JsonV::Text(sort_field@)),
                    ("desc"@, JsonV::Bool(desc)),
                ],
            ),
        ),
        (
            "p"@,
            JsonV::Object(
                seq![
                    ("page"@, JsonV::Number(number::int_number(page))),
                    ("pageSize"@, JsonV::Number(number::int_number(page_size))),
                ],
            ),
        ),
    ]);
    make(text::concat3(QUERY_ENTRIES, ENTRY_FIELDS, " } total page pageSize labelNames } }"), m)
}

/// The document of [`create_view`], up to the fields.
pub const CREATE_VIEW: &'static str =
    "mutation($id: ID!, $n: String!, $q: JSON!, $s: SortInput, $c: [String!]!, $sh: \
    Boolean!, $tc: JSON!) { createView(workspaceId: $id, name: $n, query: $q, sort: $s, \
    columns: $c, isShared: $sh, titleColors: $tc) { ";

/// Asks for a new view.
pub fn create_view(
    workspace_id: &str,
    name: &str,
    query: &Json,
    sort_field: &str,
    desc: bool,
    columns: &Vec<String>,
    is_shared: bool,
    title_colors: &Json,
) -> (r: Request)
    ensures
        r.query@ == CREATE_VIEW@ + VIEW_FIELDS@ + " } }"@,
        r.variables@ == JsonV::Object(
            seq![
                ("id"@, JsonV::Text(workspace_id@)),
                ("n"@, JsonV::Text(name@)),
                ("q"@, query@),
                (
                    "s"@,
                    JsonV::Object(
                        seq![
                            ("field"@, JsonV::Text(sort_field@)),
                            ("desc"@, JsonV::Bool(desc)),
                        ],
                    ),
                ),
                ("c"@, json::texts(text::contents(columns@))),
                ("sh"@, JsonV::Bool(is_shared)),
                ("tc"@, title_colors@),
            ],
        ),
{
    let mut m: Vec<(String, Json)> = Vec::new();
    json::put(&mut m, "id", json::of_str(workspace_id));
    json::put(&mut m, "n", json::of_str(name));
    json::put(&mut m, "q", query.copy());
    let s_value = json::object2("field", json::of_str(sort_field), "desc", Json::Bool(desc));
    json::put(&mut m, "s", s_value);
    json::put(&mut m, "c", json::of_list(columns));
    json::put(&mut m, "sh", Json::Bool(is_shared));
    json::put(&mut m, "tc", title_colors.copy());
    assert(json::members_view(m@) =~= seq![
        ("id"@, JsonV::Text(workspace_id@)),
        ("n"@, JsonV::Text(name@)),
        ("q"@, query@),
        (
            "s"@,
            JsonV::Object(
                seq![
                    ("field"@, JsonV::Text(sort_field@)),
                    ("desc"@, JsonV::Bool(desc)),
                ],
            ),
        ),
        ("c"@, json::texts(text::contents(columns@))),
        ("sh"@, JsonV::Bool(is_shared)),
        ("tc"@, title_colors@),
    ]);
    make(text::concat3(CREATE_VIEW, VIEW_FIELDS, " } }"), m)
}

/// The document of [`update_view`], up to the fields.
pub const UPDATE_VIEW: &'static str =
    "mutation($id: ID!, $n: String!, $q: JSON!, $s: SortInput, $c: [String!]!, $sh: \
    Boolean!, $tc: JSON!) { updateView(id: $id, name: $n, query: $q, sort: $s, columns: $c, \
    isShared: $sh, titleColors: $tc) { ";

/// Asks for a change of a view.
pub fn update_view(
    id: &str,
    name: &str,
    query: &Json,
    sort_field: &str,
    desc: bool,
    columns: &Vec<String>,
    is_shared: bool,
    title_colors: &Json,
) -> (r: Request)
    ensures
        r.query@ == UPDATE_VIEW@ + VIEW_FIELDS@ + " } }"@,
        r.variables@ == JsonV::Object(
            seq![
                ("id"@, JsonV::Text(id@)),
                ("n"@, JsonV::Text(name@)),
                ("q"@, query@),
                (
                    "s"@,
                    JsonV::Object(
                        seq![
                            ("field"@, JsonV::Text(sort_field@)),
                            ("desc"@, JsonV::Bool(desc)),
                        ],
                    ),
                ),
                ("c"@, json::texts(text::contents(columns@))),
                ("sh"@, JsonV::Bool(is_shared)),
                ("tc"@, title_colors@),
            ],
        ),
{
    let mut m: Vec<(String, Json)> = Vec::new();
    json::put(&mut m, "id", json::of_str(id));
    json::put(&mut m, "n", json::of_str(name));
    json::put(&mut m, "q", query.copy());
    let s_value = json::object2("field", json::of_str(sort_field), "desc", Json::Bool(desc));
    json::put(&mut m, "s", s_value);
    json::put(&mut m, "c", json::of_list(columns));
    json::put(&mut m, "sh", Json::Bool(is_shared));
    json::put(&mut m, "tc", title_colors.copy());
    assert(json::members_view(m@) =~= seq![
        ("id"@, JsonV::Text(id@)),
        ("n"@, JsonV::Text(name@)),
        ("q"@, query@),
        (
            "s"@,
            JsonV::Object(
                seq![
                    ("field"@, JsonV::Text(sort_field@)),
                    ("desc"@, JsonV::Bool(desc)),
                ],
            ),
        ),
        ("c"@, json::texts(text::contents(columns@))),
        ("sh"@, JsonV::Bool(is_shared)),
        ("tc"@, title_colors@),
    ]);
    make(text::concat3(UPDATE_VIEW, VIEW_FIELDS, " } }"), m)
}

/// The document of [`delete_view`].
pub const DELETE_VIEW: &'static str = "mutation($id: ID!) { deleteView(id: $id) }";

/// Asks to delete a view.
pub fn delete_view(id: &str) -> (r: Request)
    ensures
        r.query@ == DELETE_VIEW@,
        r.variables@ == JsonV::Object(seq![("id"@, JsonV::Text(id@))]),
{
    let mut m: Vec<(String, Json)> = Vec::new();
    json::put(&mut m, "id", json::of_str(id));
    assert(json::members_view(m@) =~= seq![("id"@, JsonV::Text(id@))]);
    make(DELETE_VIEW.to_owned(), m)
}

/// The document of [`parse_view_query`].
pub const PARSE_VIEW_QUERY: &'static str =
    "query($id: ID!, $e: String!) { parseViewQuery(workspaceId: $id, expr: $e) }";

/// Asks for an expression to be read.
pub fn parse_view_query(workspace_id: &str, expr: &str) -> (r: Request)
    ensures
        r.query@ == PARSE_VIEW_QUERY@,
        r.variables@ == JsonV::Object(
            seq![("id"@, JsonV::Text(workspace_id@)), ("e"@, JsonV::Text(expr@))],
        ),
{
    let mut m: Vec<(String, Json)> = Vec::new();
    json::put(&mut m, "id", json::of_str(workspace_id));
    json::put(&mut m, "e", json::of_str(expr));
    assert(json::members_view(m@) =~= seq![
        ("id"@, JsonV::Text(workspace_id@)),
        ("e"@, JsonV::Text(expr@)),
    ]);
    make(PARSE_VIEW_QUERY.to_owned(), m)
}

/// The document of [`format_view_query`].
pub const FORMAT_VIEW_QUERY: &'static str =
    "query($id: ID!, $q: JSON!) { formatViewQuery(workspaceId: $id, query: $q) }";

/// Asks for a query to be written as an expression.
pub fn format_view_query(workspace_id: &str, query: &Json) -> (r: Request)
    ensures
        r.query@ == FORMAT_VIEW_QUERY@,
        r.variables@ == JsonV::Object(seq![("id"@, JsonV::Text(workspace_id@)), ("q"@, query@)]),
{
    let mut m: Vec<(String, Json)> = Vec::new();
    json::put(&mut m, "id", json::of_str(workspace_id));
    json::put(&mut m, "q", query.copy());
    assert(json::members_view(m@) =~= seq![("id"@, JsonV::Text(workspace_id@)), ("q"@, query@)]);
    make(FORMAT_VIEW_QUERY.to_owned(), m)
}

// ---------------------------------------------------------------------------
// Laws
// ---------------------------------------------------------------------------

/// An answer with errors tells of the first, by its message, or in general words
/// where it has none. Without errors it tells of none, whatever its data.
pub proof fn first_errors_are_told(answer: JsonV, e: JsonV, more: Seq<JsonV>, m: Seq<char>)
    ensures
        json::member(answer, "errors"@) is None ==> first_error(answer) is None,
        json::member(answer, "errors"@) == Some(JsonV::Array(seq![])) ==> first_error(answer)
            is None,
        json::member(answer, "errors"@) == Some(JsonV::Array(seq![e] + more)) && json::member(
            e,
            "message"@,
        ) == Some(JsonV::Text(m)) ==> first_error(answer) == Some(m),
        json::member(answer, "errors"@) == Some(JsonV::Array(seq![e] + more)) && json::member(
            e,
            "message"@,
        ) is None ==> first_error(answer) == Some(UNKNOWN_ERROR@),
{
    assert((seq![e] + more)[0] == e);
}

/// A member of an answer is itself, and null where it is missing.
pub proof fn missing_members_are_null(j: JsonV, key: Seq<char>, v: JsonV)
    ensures
        json::member(j, key) == Some(v) ==> field(j, key) == v,
        json::member(j, key) is None ==> field(j, key) == JsonV::Null,
{
}

} // verus!
