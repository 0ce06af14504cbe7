//! Client-side logic of a label-based task tracker: time layouts, query
//! evaluation, filters, timeline planning and the decisions behind each page.

pub mod accounts;
pub mod ai_prompt_editor;
pub mod arith;
pub mod audit;
pub mod automation_tab;
pub mod comments;
pub mod component_laws;
pub mod components;
pub mod decimal;
pub mod default_value;
pub mod desk;
pub mod draft;
pub mod draft_laws;
pub mod entry_panel;
pub mod entry_table;
pub mod expr_input;
pub mod form_laws;
pub mod golayout;
pub mod graphql_client;
pub mod json;
pub mod label_editor;
pub mod layout_laws;
pub mod number;
pub mod page_laws;
pub mod paging;
pub mod query_eval;
pub mod query_laws;
pub mod requests;
pub mod selection;
pub mod settings;
pub mod settings_laws;
pub mod sorting;
pub mod table_laws;
pub mod text;
pub mod timeline;
pub mod timeline_laws;
pub mod tiny_editor;
pub mod title_rules;
pub mod view_filter;
pub mod view_forms;
pub mod view_tree;
