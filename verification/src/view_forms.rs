//! The forms for a new view and for the settings of a view.

use vstd::prelude::*;

use crate::desk;
use crate::desk::{SavedView, SavedViewV};
use crate::graphql_client::ViewSort;
use crate::json::{Json, JsonV};
use crate::sorting;
use crate::text;
use crate::title_rules;
use crate::title_rules::{TitleRule, TitleRuleV};

verus! {

/// What is said before the workspace is loaded.
pub const NOT_LOADED: &'static str = "工作空间尚未加载完成";

/// What is said where no view is shown.
pub const NO_VIEW: &'static str = "请先选择或新建一个视图";

/// What is said where an expression cannot be read for want of a workspace.
pub const NO_PARSER: &'static str = "缺少工作空间，无法解析条件";

/// A view that is to be created.
#[derive(Debug, Clone)]
pub struct ViewForm {
    /// Whether the form keeps what another view shows.
    pub save_as: bool,
    pub name: String,
    pub query: Json,
    pub sorts: Vec<ViewSort>,
    pub columns: Vec<String>,
    pub shared: bool,
}

/// The content of a form.
pub struct ViewFormV {
    pub save_as: bool,
    pub name: Seq<char>,
    pub query: JsonV,
    pub sorts: Seq<(Seq<char>, bool)>,
    pub columns: Seq<Seq<char>>,
    pub shared: bool,
}

impl View for ViewForm {
    type V = ViewFormV;

    open spec fn view(&self) -> ViewFormV {
        ViewFormV {
            save_as: self.save_as,
            name: self.name@,
            query: self.query@,
            sorts: sorting::sorts_view(self.sorts@),
            columns: text::contents(self.columns@),
            shared: self.shared,
        }
    }
}

impl ViewForm {
    /// The form for a new view: everything, in the order of the server.
    pub fn new_view() -> (r: ViewForm)
        ensures
            r@ == (ViewFormV {
                save_as: false,
                name: ""@,
                query: desk::everything(),
                sorts: seq![],
                columns: seq![],
                shared: false,
            }),
    {
        let r = ViewForm {
            save_as: false,
            name: "".to_owned(),
            query: desk::empty_query(),
            sorts: Vec::new(),
            columns: Vec::new(),
            shared: false,
        };
        assert(r@.sorts =~= seq![]);
        assert(r@.columns =~= seq![]);
        r
    }

    /// The form to save what a view shows as another one: with the filter in
    /// force and the order and columns of the view.
    pub fn save_as(v: &SavedView, query: &Json) -> (r: ViewForm)
        ensures
            r@ == (ViewFormV {
                save_as: true,
                name: ""@,
                query: query@,
                sorts: v@.sorts,
                columns: v@.columns,
                shared: false,
            }),
    {
        ViewForm {
            save_as: true,
            name: "".to_owned(),
            query: query.copy(),
            sorts: sorting::copy_sorts(&v.sorts),
            columns: text::copy_list(&v.columns),
            shared: false,
        }
    }
}

/// The settings of a view.
#[derive(Debug, Clone)]
pub struct ConfigForm {
    pub name: String,
    pub columns: Vec<String>,
    pub shared: bool,
    /// The labels of the timeline; empty for none.
    pub tl_start: String,
    pub tl_end: String,
    pub tl_person: String,
    pub rules: Vec<TitleRule>,
}

/// The content of the settings.
pub struct ConfigFormV {
    pub name: Seq<char>,
    pub columns: Seq<Seq<char>>,
    pub shared: bool,
    pub tl_start: Seq<char>,
    pub tl_end: Seq<char>,
    pub tl_person: Seq<char>,
    pub rules: Seq<TitleRuleV>,
}

impl View for ConfigForm {
    type V = ConfigFormV;

    open spec fn view(&self) -> ConfigFormV {
        ConfigFormV {
            name: self.name@,
            columns: text::contents(self.columns@),
            shared: self.shared,
            tl_start: self.tl_start@,
            tl_end: self.tl_end@,
            tl_person: self.tl_person@,
            rules: title_rules::rules_view(self.rules@),
        }
    }
}

/// The settings of a view as they are opened.
pub open spec fn config_of(v: SavedViewV) -> ConfigFormV {
    ConfigFormV {
        name: v.name,
        columns: v.columns,
        shared: v.is_shared,
        tl_start: match v.timeline {
            Some((start, _, _)) => start,
            None => ""@,
        },
        tl_end: match v.timeline {
            Some((_, end, _)) => end,
            None => ""@,
        },
        tl_person: match v.timeline {
            Some((_, _, Some(person))) => person,
            _ => ""@,
        },
        rules: title_rules::rows_of(v.title_colors),
    }
}

impl ConfigForm {
    /// Opens the settings of a view.
    pub fn open(v: &SavedView) -> (r: ConfigForm)
        ensures
            r@ == config_of(v@),
    {
        let mut start = "".to_owned();
        let mut end = "".to_owned();
        let mut person = "".to_owned();
        if let Some(t) = &v.timeline {
            start = t.start.clone();
            end = t.end.clone();
            if let Some(p) = &t.person {
                person = p.clone();
            }
        }
        ConfigForm {
            name: v.name.clone(),
            columns: text::copy_list(&v.columns),
            shared: v.is_shared,
            tl_start: start,
            tl_end: end,
            tl_person: person,
            rules: title_rules::rule_rows(&v.title_colors),
        }
    }
}

/// The heading of the view that is shown.
pub fn view_heading(name: Option<&str>) -> (r: String)
    ensures
        r@ == (match text::opt_str(name) {
            Some(n) => n,
            None => "全部内容"@,
        }),
{
    match name {
        Some(n) => n.to_owned(),
        None => "全部内容".to_owned(),
    }
}

// ---------------------------------------------------------------------------
// Laws
// ---------------------------------------------------------------------------

/// The settings of a view open with its name, columns and sharing, and with the
/// labels of its timeline, empty where it has none.
pub proof fn settings_open_as_they_are(
    v: SavedViewV,
    start: Seq<char>,
    end: Seq<char>,
    person: Seq<char>,
)
    ensures
        config_of(v).name == v.name,
        config_of(v).columns == v.columns,
        config_of(v).shared == v.is_shared,
        v.timeline == Some((start, end, Some(person))) ==> config_of(v).tl_start == start
            && config_of(v).tl_end == end && config_of(v).tl_person == person,
        v.timeline == Some((start, end, None::<Seq<char>>)) ==> config_of(v).tl_start == start
            && config_of(v).tl_end == end && config_of(v).tl_person.len() == 0,
        v.timeline is None ==> config_of(v).tl_start.len() == 0 && config_of(v).tl_end.len() == 0
            && config_of(v).tl_person.len() == 0,
{
    reveal_strlit("");
}

} // verus!
