//! What the server sends, and what is sent to it.

use vstd::prelude::*;

use crate::json::Json;

verus! {

/// The key under which the browser keeps the session token.
pub const TOKEN_KEY: &'static str = "rodeo_jwt";

/// The key under which the browser keeps whether the sidebar is collapsed.
pub const SIDEBAR_KEY: &'static str = "rodeo_sidebar_collapsed";

/// The account that is signed in.
#[derive(Debug, Clone)]
pub struct User {
    pub id: String,
    pub email: String,
    pub name: String,
}

/// A workspace; `deleted_at` is set while it is in the trash.
#[derive(Debug, Clone)]
pub struct Workspace {
    pub id: String,
    pub name: String,
    pub slug: String,
    pub description: String,
    pub deleted_at: Option<String>,
}

/// A workspace with the role that the account has in it.
#[derive(Debug, Clone)]
pub struct WorkspaceItem {
    pub workspace: Workspace,
    pub role: String,
}

/// An account that created or updated an entry.
#[derive(Debug, Clone)]
pub struct AccountBrief {
    pub id: String,
    pub email: String,
    pub name: String,
}

/// A named prompt of the writing assistant.
#[derive(Debug, Clone)]
pub struct NamedPrompt {
    pub name: String,
    pub prompt: String,
}

/// The prompts of the writing assistant of a workspace.
#[derive(Debug, Clone)]
pub struct WorkspaceAiConfig {
    pub scenarios: Vec<NamedPrompt>,
    pub tones: Vec<NamedPrompt>,
}

/// A label on an entry.
#[derive(Debug, Clone)]
pub struct Labeling {
    pub label_name: String,
    pub value: Json,
}

/// An entry of a workspace.
#[derive(Debug, Clone)]
pub struct Entry {
    pub code: String,
    pub title: String,
    pub detail: String,
    pub created_at: String,
    pub updated_at: String,
    pub created_by: String,
    pub updated_by: String,
    pub created_by_account: Option<AccountBrief>,
    pub updated_by_account: Option<AccountBrief>,
    pub archived_at: Option<String>,
    pub labels: Vec<Labeling>,
}

/// The definition of a label.
#[derive(Debug, Clone)]
pub struct LabelSchema {
    pub name: String,
    pub title: String,
    pub value_type: String,
    pub enum_values: Vec<String>,
    pub color: Option<String>,
    pub value_colors: Json,
    /// Whether a label may hold several values.
    pub multi: bool,
    /// How a time is written, as a pattern.
    pub format: Option<String>,
    /// The value filled in for a new label; null for none.
    pub default_value: Json,
    pub currency_symbol: Option<String>,
    pub unit: Option<String>,
}

/// A line of the audit log; the snapshots are JSON texts.
#[derive(Debug, Clone)]
pub struct AuditLog {
    pub id: String,
    pub action: String,
    pub resource_type: String,
    pub resource_id: String,
    pub at: String,
    pub before: Option<String>,
    pub after: Option<String>,
}

/// A member of a workspace.
#[derive(Debug, Clone)]
pub struct Member {
    pub account_id: String,
    pub email: String,
    pub name: String,
    pub role: String,
    pub joined_at: String,
}

/// An invitation to a workspace that is not answered yet.
#[derive(Debug, Clone)]
pub struct Invite {
    pub workspace_id: String,
    pub workspace_name: String,
    pub workspace_slug: String,
    pub account_id: String,
    pub email: String,
    pub name: String,
    pub role: String,
    pub invited_by: String,
    pub created_at: String,
}

/// A column that a view is sorted by.
#[derive(Debug, Clone)]
pub struct ViewSort {
    pub field: String,
    pub desc: bool,
}

/// The labels that the timeline of a view goes by.
#[derive(Debug, Clone)]
pub struct ViewTimeline {
    pub start: String,
    pub end: String,
    pub person: Option<String>,
}

/// A saved view.
#[derive(Debug, Clone)]
pub struct View {
    pub id: String,
    pub name: String,
    pub query: Json,
    pub query_expr: String,
    pub sort: ViewSort,
    pub columns: Vec<String>,
    pub is_shared: bool,
    pub owner_id: String,
    pub title_colors: Json,
    pub entry_count: i64,
    /// The view that always exists and stands first.
    pub is_default: bool,
}

/// One page of the entries that a query finds.
#[derive(Debug, Clone)]
pub struct EntryPage {
    pub items: Vec<Entry>,
    pub total: i64,
    pub page: i64,
    pub page_size: i64,
    pub label_names: Vec<String>,
}

} // verus!
