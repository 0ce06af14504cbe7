use rodeo::desk::{empty_query, Desk, SavedView};
use rodeo::expr_input::{
    detect_time_picker, insert_time, kind_input_type, kind_of, label_fragment, pick_label,
    rule_candidates, title_or_name, view_candidates, TimeKind,
};
use rodeo::graphql_client::{LabelSchema, ViewSort, ViewTimeline};
use rodeo::json::{self, Json};
use rodeo::paging::{
    after_row_click, batch_text, choice, condition_text, crumb_text, entry_path, last_offered,
    next_page, on_arrow, pages, prev_page, summary_text, takes_text, ticked_text, total_text,
    Archiving, Gate, Move,
};
use rodeo::selection::{all_ticked, find, join_lists, switch, tick, tick_visible};
use rodeo::sorting::{
    apply_sort, find_field, prio_mark, save_failed, sort_field_label, sort_mark, sort_summary,
    SaveQueue, SortRequest,
};
use rodeo::title_rules::{
    bad_rule, fill_in, new_rule, rule_fate, rule_rows, timeline_failed, RuleFate, RuleSave,
    RuleStep, RULE_COLOR,
};
use rodeo::view_forms::{view_heading, ConfigForm, ViewForm};
use rodeo::view_tree::{
    build_tree, group_hints, in_section, leaf_label, pick_group, section, Section, TreeNode,
};

fn j(s: &str) -> Json {
    json::read(s).unwrap()
}

fn list(items: &[&str]) -> Vec<String> {
    items.iter().map(|s| s.to_string()).collect()
}

fn schema(name: &str, title: &str, value_type: &str) -> LabelSchema {
    LabelSchema {
        name: name.into(),
        title: title.into(),
        value_type: value_type.into(),
        enum_values: vec![],
        color: None,
        value_colors: Json::Null,
        multi: false,
        format: None,
        default_value: Json::Null,
        currency_symbol: None,
        unit: None,
    }
}

fn saved(id: &str) -> SavedView {
    SavedView {
        id: id.into(),
        name: format!("视图 {id}"),
        query: j(&format!(r#"{{"and":[{{"text":"{id}"}}]}}"#)),
        query_expr: format!("text ~ {id}"),
        sorts: vec![ViewSort { field: "title".into(), desc: false }],
        columns: list(&["Task"]),
        is_shared: false,
        title_colors: Json::Null,
        is_default: false,
        timeline: None,
    }
}

fn tree_view(name: &str, shared: bool, default: bool) -> rodeo::graphql_client::View {
    rodeo::graphql_client::View {
        id: name.into(),
        name: name.into(),
        query: Json::Null,
        query_expr: String::new(),
        sort: ViewSort { field: "title".into(), desc: false },
        columns: vec![],
        is_shared: shared,
        owner_id: "u".into(),
        title_colors: Json::Null,
        entry_count: 0,
        is_default: default,
    }
}

fn click(field: &str, additive: bool, remove: bool) -> SortRequest {
    SortRequest { field: field.into(), additive, remove }
}

fn shape(sorts: &[ViewSort]) -> Vec<(String, bool)> {
    sorts.iter().map(|s| (s.field.clone(), s.desc)).collect()
}

#[test]
fn pages_are_counted() {
    assert_eq!(pages(0), 1);
    assert_eq!(pages(-5), 1);
    assert_eq!(pages(20), 1);
    assert_eq!(pages(21), 2);
    assert_eq!(pages(i64::MAX), i64::MAX / 20 + 1);
    assert_eq!(prev_page(1), 1);
    assert_eq!(prev_page(3), 2);
    assert_eq!(next_page(1, 41), 2);
    assert_eq!(next_page(3, 41), 3);
    assert_eq!(last_offered(500), 9);
    assert_eq!(last_offered(41), 3);
    assert_eq!(total_text(41), "共 41 条");
}

#[test]
fn arrow_keys_move_over_rows_and_pages() {
    let codes = list(&["a", "b"]);
    let to = |row, page| Some(Move { row, page });
    assert_eq!(on_arrow(&codes, "a", "ArrowDown", 1, 41), to(1, 1));
    assert_eq!(on_arrow(&codes, "b", "ArrowUp", 1, 41), to(0, 1));
    assert_eq!(on_arrow(&codes, "b", "ArrowDown", 1, 41), to(0, 2));
    assert_eq!(on_arrow(&codes, "b", "ArrowDown", 3, 41), to(1, 3));
    assert_eq!(on_arrow(&codes, "a", "ArrowUp", 2, 41), to(0, 1));
    assert_eq!(on_arrow(&codes, "a", "ArrowUp", 1, 41), to(0, 1));
    assert_eq!(on_arrow(&codes, "", "ArrowDown", 1, 41), to(0, 1));
    assert_eq!(on_arrow(&codes, "", "ArrowUp", 1, 41), to(1, 1));
    assert_eq!(on_arrow(&codes, "a", "Enter", 1, 41), None);
    assert_eq!(on_arrow(&vec![], "a", "ArrowDown", 1, 41), None);
    assert!(takes_text("search"));
    assert!(!takes_text("checkbox"));
}

#[test]
fn only_the_latest_answer_is_taken_in() {
    let mut gate = Gate::new();
    let first = gate.begin();
    let second = gate.begin();
    assert!(!gate.accepts(first));
    assert!(gate.accepts(second));
}

#[test]
fn archiving_stops_at_the_first_failure() {
    let mut work = Archiving::new();
    assert!(work.answered(Ok(true)));
    assert_eq!(work.message(), None);
    assert!(!work.answered(Ok(false)));
    assert_eq!(work.message().as_deref(), Some("已归档 1 个，其余失败：归档失败"));
    let mut work = Archiving::new();
    assert!(!work.answered(Err("断网".into())));
    assert_eq!(work.message().as_deref(), Some("已归档 0 个，其余失败：断网"));
}

#[test]
fn the_page_says_where_one_is() {
    assert_eq!(choice(""), None);
    assert_eq!(choice("a"), Some("a"));
    assert_eq!(ticked_text(3), "已选 3 项");
    assert_eq!(batch_text(2), "写入选中的 2 个条目；留空的标签不会改动。");
    assert_eq!(summary_text(2), "把选中的 2 个条目交给模型，生成一条新条目并全屏打开。");
    assert_eq!(entry_path("w", ""), None);
    assert_eq!(entry_path("w", "W-1").as_deref(), Some("/w/entry/W-1"));
    assert_eq!(crumb_text("w", None), "/w · 基础视图「全部内容」");
    assert_eq!(crumb_text("w", Some("我的")), "/w · 视图「我的」");
    assert_eq!(condition_text("  "), "条件：全部内容");
    assert_eq!(condition_text("a = 1"), "条件：a = 1");
    assert_eq!(after_row_click("a", "a"), "");
    assert_eq!(after_row_click("a", "b"), "b");
    assert_eq!(view_heading(None), "全部内容");
    assert_eq!(view_heading(Some("x")), "x");
}

#[test]
fn clicks_sort_and_turn() {
    let none: Vec<ViewSort> = vec![];
    let one = apply_sort(&none, &click("a", false, false));
    assert_eq!(shape(&one), vec![("a".to_string(), true)]);
    let turned = apply_sort(&one, &click("a", false, false));
    assert_eq!(shape(&turned), vec![("a".to_string(), false)]);
    assert_eq!(shape(&apply_sort(&turned, &click("a", false, false))), shape(&one));
    let two = apply_sort(&turned, &click("b", true, false));
    assert_eq!(shape(&two), vec![("a".to_string(), false), ("b".to_string(), true)]);
    assert_eq!(shape(&apply_sort(&two, &click("c", false, false))), vec![("c".to_string(), true)]);
    assert_eq!(shape(&apply_sort(&two, &click("a", false, true))), vec![("b".to_string(), true)]);
    assert_eq!(find_field(&two, "b"), Some(1));
    assert_eq!(find_field(&two, "c"), None);
}

#[test]
fn orders_have_marks_and_words() {
    let sorts = vec![
        ViewSort { field: "title".into(), desc: false },
        ViewSort { field: "Task".into(), desc: true },
    ];
    let schemas = vec![schema("Task", "任务", "enum")];
    assert_eq!(prio_mark(0), "①");
    assert_eq!(prio_mark(8), "⑨");
    assert_eq!(prio_mark(9), "(10)");
    assert_eq!(sort_mark(&sorts, "Task"), " ② ↓");
    assert_eq!(sort_mark(&sorts, "other"), "");
    assert_eq!(sort_field_label("createdBy", &schemas), "创建人");
    assert_eq!(sort_field_label("Nope", &schemas), "Nope");
    assert_eq!(sort_summary(&sorts, &schemas), "排序：① 标题 ↑  ② 任务 ↓");
    assert_eq!(sort_summary(&vec![], &schemas), "排序：默认");
    assert_eq!(save_failed("断网"), "排序未能保存：断网");
}

#[test]
fn orders_are_saved_one_after_the_other() {
    let mut queue: SaveQueue<u32> = SaveQueue::new();
    assert_eq!(queue.offer(1, true), None);
    assert_eq!(queue.offer(1, false), Some(1));
    assert_eq!(queue.offer(2, false), None);
    assert_eq!(queue.offer(3, false), None);
    assert_eq!(queue.done(), Some(3));
    assert_eq!(queue.done(), None);
    assert_eq!(queue.offer(4, false), Some(4));
}

#[test]
fn ticks_are_a_set() {
    let none: Vec<String> = vec![];
    let a = tick(&none, "a", true);
    assert_eq!(a, list(&["a"]));
    assert_eq!(tick(&a, "a", true), list(&["a"]));
    assert_eq!(tick(&a, "a", false), none);
    let all = tick_visible(&list(&["x", "a"]), &list(&["a", "b"]), true);
    assert!(all_ticked(&all, &list(&["a", "b"])));
    assert!(all.contains(&"x".to_string()));
    assert_eq!(tick_visible(&all, &list(&["a", "b"]), false), list(&["x"]));
    assert!(!all_ticked(&all, &list(&["c"])));
    assert_eq!(join_lists(&a, &list(&["a", "b"])), list(&["a", "b"]));
    assert_eq!(find(&list(&["a", "b"]), "b"), Some(1));
    assert_eq!(find(&a, "c"), None);
    assert_eq!(switch(&a, "a"), none);
    assert_eq!(switch(&a, "b"), list(&["a", "b"]));
}

#[test]
fn views_stand_in_a_tree() {
    let views = vec![
        tree_view("b/x", false, false),
        tree_view("a", true, false),
        tree_view("b/w", false, false),
        tree_view("all", false, true),
    ];
    let lines: Vec<String> = build_tree(&views)
        .iter()
        .map(|n| match n {
            TreeNode::Leaf(i, d) => format!("{d}:{}", views[*i].name),
            TreeNode::Group(p, d) => format!("{d}:[{p}]"),
        })
        .collect();
    assert_eq!(lines, vec!["0:a", "0:all", "0:[b]", "1:b/w", "1:b/x"]);
    assert_eq!(section(&views[0]), Section::Mine);
    assert_eq!(section(&views[1]), Section::Shared);
    assert_eq!(section(&views[3]), Section::Base);
    assert_eq!(in_section(&views, Section::Mine), vec![0, 2]);
    assert_eq!(leaf_label("b/x"), "x");
    assert_eq!(leaf_label("a"), "a");
}

#[test]
fn groups_are_offered_for_names() {
    let names = list(&["b", "b/x", "b/x/y", "c"]);
    assert_eq!(group_hints(&names, "b/n"), list(&["b", "b/x"]));
    assert_eq!(pick_group("b/n", "c"), "c/n");
    assert_eq!(pick_group("n", "c"), "c/");
}

#[test]
fn labels_are_offered_after_a_slash() {
    let schemas = vec![schema("Task", "任务", "enum"), schema("Due", " ", "date")];
    assert_eq!(label_fragment("a = 1"), None);
    assert_eq!(label_fragment("a and /Ta").as_deref(), Some("Ta"));
    let picked = pick_label("a and /Ta", "Task");
    assert_eq!(picked, "a and Task ");
    assert_eq!(label_fragment(&picked), None);
    let found: Vec<String> =
        rule_candidates(&schemas, "ta").into_iter().map(|c| c.name).collect();
    assert!(found.contains(&"Task".to_string()));
    let found: Vec<(String, String)> = view_candidates(&list(&["Due"]), &schemas, "due")
        .into_iter()
        .map(|c| (c.name, c.title))
        .collect();
    assert_eq!(found, vec![("Due".to_string(), "Due".to_string())]);
    assert_eq!(title_or_name(&schemas[0]), "任务");
    assert_eq!(title_or_name(&schemas[1]), "Due");
}

#[test]
fn times_are_picked_after_a_comparison() {
    let schemas = vec![schema("Due", "期限", "date"), schema("Task", "任务", "enum")];
    assert_eq!(kind_of(&schemas, "due"), Some(TimeKind::Date));
    assert_eq!(kind_of(&schemas, "Task"), None);
    assert_eq!(detect_time_picker("Due >= ", &schemas), Some((TimeKind::Date, 7)));
    assert_eq!(detect_time_picker("Task = ", &schemas), None);
    assert_eq!(kind_input_type(TimeKind::DateTime), "datetime-local");
    let done = insert_time("Due >= ", 7, TimeKind::Date, "2026-09-05").unwrap();
    assert_eq!(done, "Due >= \"2026-09-05\" ");
    assert_eq!(detect_time_picker(&done, &schemas), None);
    assert_eq!(insert_time("Due >= ", 7, TimeKind::Date, ""), None);
}

#[test]
fn the_desk_shows_views() {
    let mut d = Desk::new();
    assert!(!d.view_dirty());
    d.load_views(vec![saved("1"), saved("2")]);
    assert_eq!(d.active.as_ref().unwrap().id, "1");
    assert_eq!(d.expr, "text ~ 1");
    d.page = 4;
    d.select_view("1");
    assert_eq!(d.page, 4);
    d.select_view("2");
    assert_eq!((d.page, d.active.as_ref().unwrap().id.as_str()), (1, "2"));
    d.select_view("nope");
    assert_eq!(d.active.as_ref().unwrap().id, "2");
    d.load_views(vec![saved("2"), saved("3")]);
    assert_eq!(d.active.as_ref().unwrap().id, "2");
    d.view_deleted("2");
    assert_eq!(d.active.as_ref().unwrap().id, "3");
    assert!(d.views.iter().all(|v| v.id != "2"));
    d.view_deleted("3");
    assert!(d.active.is_none());
    assert!(json::same(&d.query, &empty_query()));
}

#[test]
fn the_desk_knows_unsaved_filters() {
    let mut d = Desk::new();
    d.load_views(vec![saved("1")]);
    assert!(!d.view_dirty());
    d.page = 3;
    d.search("foo");
    assert!(d.view_dirty());
    assert_eq!(d.page, 1);
    let query = d.query.copy();
    let mut v = saved("1");
    v.query = query.copy();
    d.view_saved(v, query);
    assert!(!d.view_dirty());
    d.filter_read(j(r#"{"or":[]}"#));
    assert!(d.view_dirty());
    d.reset();
    assert!(json::same(&d.query, &empty_query()) && d.expr.is_empty());
    assert!(d.view_dirty());
    d.view_created(saved("9"));
    assert_eq!(d.active.as_ref().unwrap().id, "9");
    assert!(!d.view_dirty());
}

#[test]
fn the_desk_sorts_and_keeps_the_filter() {
    let mut d = Desk::new();
    d.sort_by(&click("title", false, false));
    assert!(d.active.is_none());
    d.load_views(vec![saved("1")]);
    let before = d.query.copy();
    d.page = 2;
    d.sort_by(&click("title", false, false));
    assert_eq!(d.page, 1);
    assert!(json::same(&d.query, &before));
    assert_eq!(shape(&d.active.as_ref().unwrap().sorts), vec![("title".to_string(), true)]);
    let shown = d.active.as_ref().unwrap().copy();
    d.sort_saved(&shown);
    assert_eq!(shape(&d.views[0].sorts), vec![("title".to_string(), true)]);
    assert!(!d.tl_active());
    let mut v = saved("1");
    v.timeline = Some(ViewTimeline { start: "s".into(), end: "e".into(), person: None });
    d.view_configured(v);
    d.timeline_mode = true;
    assert!(d.tl_active());
}

#[test]
fn forms_start_from_the_view() {
    let form = ViewForm::new_view();
    assert!(!form.save_as && form.name.is_empty() && form.sorts.is_empty());
    let mut v = saved("1");
    v.timeline = Some(ViewTimeline { start: "s".into(), end: "e".into(), person: Some("p".into()) });
    v.title_colors = j(r##"[{"query":{"and":[]},"color":"#fff"},{"query":null}]"##);
    let form = ViewForm::save_as(&v, &j(r#"{"or":[]}"#));
    assert!(form.save_as);
    assert!(json::same(&form.query, &j(r#"{"or":[]}"#)));
    assert_eq!(form.columns, list(&["Task"]));
    assert_eq!(shape(&form.sorts), vec![("title".to_string(), false)]);
    let config = ConfigForm::open(&v);
    assert_eq!((config.tl_start.as_str(), config.tl_person.as_str()), ("s", "p"));
    assert_eq!(config.rules.len(), 2);
    assert_eq!(config.rules[1].color, RULE_COLOR);
}

#[test]
fn rules_are_saved_as_they_were_or_read_anew() {
    let colors = j(r##"[{"query":{"and":[]},"color":"#fff"},{"query":{"or":[]},"color":"#000"}]"##);
    let mut rows = rule_rows(&colors);
    let mut save = RuleSave::new();
    assert_eq!(save.go_on(&rows), RuleStep::Done);
    assert!(json::same(&save.result(), &colors));
    fill_in(&mut rows[0], "a = 1");
    fill_in(&mut rows[0], "late");
    assert_eq!(rows[0].expr, "a = 1");
    assert_eq!(rule_fate(&rows[0]), RuleFate::Keep);
    rows[0].expr = "b = 2".into();
    assert_eq!(rule_fate(&rows[0]), RuleFate::Read);
    fill_in(&mut rows[1], "c = 3");
    rows[1].expr = " ".into();
    assert_eq!(rule_fate(&rows[1]), RuleFate::Omit);
    rows.push(new_rule(2));
    assert_eq!(rule_fate(&rows[2]), RuleFate::Omit);
    let mut save = RuleSave::new();
    assert_eq!(save.go_on(&rows), RuleStep::Read(0));
    save.was_read(&rows, j(r#"{"b":2}"#));
    assert_eq!(save.go_on(&rows), RuleStep::Done);
    assert!(json::same(&save.result(), &j(r##"[{"query":{"b":2},"color":"#fff"}]"##)));
    assert_eq!(bad_rule("e"), "标题颜色规则条件无效：e");
    assert_eq!(timeline_failed("e"), "时间轴配置未保存：e");
}
