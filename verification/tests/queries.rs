use rodeo::graphql_client::{AccountBrief, Entry, Labeling};
use rodeo::json::{self, Json};
use rodeo::query_eval::{
    contains_ci, eval, find_label, match_value, parse_ts, query_label_names, resolve_label_color, scalar_string, title_color,
};
use rodeo::view_filter::{build_query, chips, is_flat, with_text, CondChip};

fn j(s: &str) -> Json {
    json::read(s).unwrap()
}

fn entry() -> Entry {
    Entry {
        code: "E1".into(),
        title: "登录失败".into(),
        detail: "找回密码报错".into(),
        created_at: "2026-08-01T12:00:00Z".into(),
        updated_at: "2026-09-01T12:00:00Z".into(),
        created_by: "01H".into(),
        updated_by: "01H".into(),
        created_by_account: Some(AccountBrief {
            id: "01H".into(),
            email: "zhangsan@example.com".into(),
            name: "张三".into(),
        }),
        updated_by_account: Some(AccountBrief {
            id: "01H".into(),
            email: "zhangsan@example.com".into(),
            name: "张三".into(),
        }),
        archived_at: None,
        labels: labels(),
    }
}

fn labels() -> Vec<Labeling> {
    vec![
        Labeling { label_name: "Task".into(), value: j(r#""Open""#) },
        Labeling { label_name: "Score".into(), value: j("75") },
    ]
}

#[test]
fn eval_boolean_and_label_ops() {
    let e = entry();
    let ls = labels();
    let q = j(r#"{"and": [
        {"cond": {"field": {"label": "Task"}, "op": "eq", "value": "Open"}},
        {"not": {"cond": {"field": {"label": "Score"}, "op": "lt", "value": 60}}}
    ]}"#);
    assert!(eval(&q, &e, &ls));
    assert!(eval(
        &j(r#"{"cond": {"field": {"label": "Priority"}, "op": "absent", "value": null}}"#),
        &e,
        &ls
    ));
    assert!(!eval(
        &j(r#"{"cond": {"field": {"label": "Priority"}, "op": "eq", "value": "P0"}}"#),
        &e,
        &ls
    ));
    assert!(eval(&j(r#"{"and": []}"#), &e, &ls));
    assert!(!eval(&j(r#"{"or": []}"#), &e, &ls));
}

#[test]
fn eval_time_and_text() {
    let e = entry();
    assert!(eval(
        &j(r#"{"cond": {"field": "updatedAt", "op": "ge", "value": "2026-09-01"}}"#),
        &e,
        &[]
    ));
    assert!(!eval(
        &j(r#"{"cond": {"field": "updatedAt", "op": "lt", "value": "2026-09-01"}}"#),
        &e,
        &[]
    ));
    assert!(eval(
        &j(r#"{"cond": {"field": "text", "op": "contains", "value": "密码"}}"#),
        &e,
        &[]
    ));
    assert!(eval(
        &j(r#"{"cond": {"field": "text", "op": "contains", "value": "open"}}"#),
        &e,
        &e.labels
    ));
    assert!(eval(
        &j(r#"{"cond": {"field": "text", "op": "contains", "value": "e1"}}"#),
        &e,
        &[]
    ));
    assert!(!eval(
        &j(r#"{"cond": {"field": "text", "op": "contains", "value": "e9"}}"#),
        &e,
        &[]
    ));
    assert!(eval(
        &j(r#"{"cond": {"field": "createdBy", "op": "eq", "value": "张三"}}"#),
        &e,
        &[]
    ));
    assert!(eval(
        &j(r#"{"cond": {"field": "updatedBy", "op": "eq", "value": "Zhangsan@Example.com"}}"#),
        &e,
        &[]
    ));
    assert!(!eval(
        &j(r#"{"cond": {"field": "createdBy", "op": "eq", "value": "李四"}}"#),
        &e,
        &[]
    ));
}

#[test]
fn resolve_and_title_colors() {
    let vcs = j(r##"[
        {"color": "#f00", "min": null, "max": 60.0, "value": null},
        {"color": "#0f0", "min": 60.0, "max": null, "value": null}
    ]"##);
    assert_eq!(
        resolve_label_color(Some(&j(r##""#999""##)), &vcs, &j("30")).as_deref(),
        Some("#f00")
    );
    assert_eq!(
        resolve_label_color(Some(&j(r##""#999""##)), &vcs, &j("60")).as_deref(),
        Some("#0f0")
    );
    assert_eq!(
        resolve_label_color(Some(&j(r##""#999""##)), &vcs, &j(r#""x""#)).as_deref(),
        Some("#999")
    );
    let enum_colors =
        j(r##"[{"color": "#00f", "min": null, "max": null, "value": "Open"}]"##);
    assert_eq!(
        resolve_label_color(None, &enum_colors, &j(r#""Open""#)).as_deref(),
        Some("#00f")
    );

    let e = entry();
    let rules = j(r##"[
        {"query": {"cond": {"field": {"label": "Score"}, "op": "ge", "value": 90}}, "color": "#0f0"},
        {"query": {"and": []}, "color": "#888"}
    ]"##);
    assert_eq!(title_color(&rules, &e, &e.labels).as_deref(), Some("#888"));
}

#[test]
fn chips_read_label_condition() {
    let q = j(r#"{"cond": {"field": {"label": "Task"}, "op": "eq", "value": "Open"}}"#);
    let chips = chips(&q);
    assert_eq!(chips.len(), 1);
    assert!(matches!(&chips[0], CondChip::Label { name, op, .. } if name == "Task" && op == "eq"));
}

fn at<'a>(j: &'a Json, path: &[&str]) -> &'a Json {
    let mut cur = j;
    for key in path {
        cur = cur.get(key).unwrap();
    }
    cur
}

#[test]
fn build_query_emits_and_tree() {
    let chips = vec![
        CondChip::Label { name: "Task".into(), op: "eq".into(), value: j(r#""Open""#) },
        CondChip::Text { keyword: "检索".into() },
    ];
    let q = build_query(&chips);
    let list = at(&q, &["and"]).as_array().unwrap();
    assert_eq!(list.len(), 2);
    assert_eq!(at(&list[0], &["cond", "field", "label"]).as_str(), Some("Task"));
    assert_eq!(at(&list[1], &["cond", "field"]).as_str(), Some("text"));
}

#[test]
fn with_text_replaces_previous_text_condition() {
    let base = j(r#"{"and": [
        {"cond": {"field": {"label": "Task"}, "op": "eq", "value": "Open"}},
        {"cond": {"field": "text", "op": "contains", "value": "旧词"}}
    ]}"#);
    let q = with_text(&base, "新词");
    let arr = at(&q, &["and"]).as_array().unwrap();
    assert_eq!(arr.len(), 2);
    assert_eq!(at(&arr[1], &["cond", "value"]).as_str(), Some("新词"));
}

#[test]
fn with_text_on_empty_query_yields_single_text_cond() {
    let q = with_text(&j(r#"{"and": []}"#), "词");
    assert_eq!(at(&q, &["and"]).as_array().unwrap().len(), 1);
}

#[test]
fn is_flat_recognizes_chip_editable_shapes() {
    assert!(is_flat(&j(r#"{"and": []}"#)));
    assert!(is_flat(&j(
        r#"{"and": [{"cond": {"field": "text", "op": "contains", "value": "x"}}]}"#
    )));
    assert!(is_flat(&j(
        r#"{"cond": {"field": {"label": "Task"}, "op": "eq", "value": "Open"}}"#
    )));
    assert!(is_flat(&Json::Null));
    assert!(is_flat(&j("{}")));

    assert!(!is_flat(&j(
        r#"{"or": [{"cond": {"field": {"label": "Task"}, "op": "eq", "value": "Open"}}]}"#
    )));
    assert!(!is_flat(&j(
        r#"{"not": {"cond": {"field": "text", "op": "contains", "value": "x"}}}"#
    )));
    assert!(!is_flat(&j(
        r#"{"and": [{"or": [{"cond": {"field": {"label": "Task"}, "op": "eq", "value": "Open"}}]}]}"#
    )));
}

#[test]
fn with_text_preserves_non_flat_or_tree() {
    let base = j(r#"{"or": [
        {"cond": {"field": {"label": "Task"}, "op": "eq", "value": "Open"}},
        {"cond": {"field": {"label": "Task"}, "op": "eq", "value": "Done"}}
    ]}"#);
    assert!(!is_flat(&base));

    let q = with_text(&base, "检索");
    let arr = at(&q, &["and"]).as_array().unwrap();
    assert_eq!(arr.len(), 2);
    assert!(arr[0].get("or").is_some());
    assert_eq!(at(&arr[0], &["or"]).as_array().unwrap().len(), 2);
    assert_eq!(at(&arr[1], &["cond", "field"]).as_str(), Some("text"));

    let unchanged = with_text(&base, "");
    assert_eq!(unchanged, base);
}

#[test]
fn chips_come_back_from_the_query_they_make() {
    let list = vec![
        CondChip::Label { name: "Score".into(), op: "ge".into(), value: j("60") },
        CondChip::Time { field: "updatedAt".into(), op: "lt".into(), value: j(r#""2026-01-02""#) },
        CondChip::Text { keyword: "词".into() },
    ];
    assert_eq!(chips(&build_query(&list)), list);
}

#[test]
fn a_later_keyword_replaces_an_earlier_one() {
    let base = j(r#"{"and": [{"cond": {"field": {"label": "Task"}, "op": "eq", "value": "Open"}}]}"#);
    let once = with_text(&base, "b");
    let twice = with_text(&with_text(&base, "a"), "b");
    assert!(json::same(&once, &twice));
    assert!(json::same(&with_text(&with_text(&base, "a"), "  "), &base));
}

#[test]
fn keyword_finds_what_it_searches() {
    let e = entry();
    let q = with_text(&j(r#"{"and": []}"#), " 密码 ");
    assert!(eval(&q, &e, &[]));
    assert!(!eval(&with_text(&j(r#"{"and": []}"#), "没有"), &e, &[]));
}

#[test]
fn double_negation_changes_nothing() {
    let e = entry();
    let q = j(r#"{"cond": {"field": {"label": "Score"}, "op": "gt", "value": 74.5}}"#);
    let twice = json::object1("not", json::object1("not", q.copy()));
    assert!(eval(&q, &e, &e.labels));
    assert!(eval(&twice, &e, &e.labels));
}

#[test]
fn labels_with_several_values_hold_each() {
    let got = j(r#"["a", "b"]"#);
    assert!(match_value(&got, "eq", Some(&j(r#""a""#))));
    assert!(!match_value(&got, "eq", Some(&j(r#""c""#))));
    assert!(match_value(&got, "in", Some(&j(r#"["c", "b"]"#))));
}

#[test]
fn time_stamps_are_read() {
    assert_eq!(parse_ts("1970-01-01"), Some(0));
    assert_eq!(parse_ts("1970-01-02T00:00:01Z"), Some(86_401));
    assert_eq!(parse_ts("2026-09-01"), parse_ts("2026-09-01T00:00:00Z"));
    assert_eq!(parse_ts("no time"), None);
}

#[test]
fn letters_are_found_whatever_their_case() {
    assert!(contains_ci("ÄPFEL", "äpfel"));
    assert!(contains_ci("Hello", "ell"));
    assert!(!contains_ci("Hello", "ELL"));
}

#[test]
fn scalars_have_texts() {
    assert_eq!(scalar_string(&j("1.5")).as_deref(), Some("1.5"));
    assert_eq!(scalar_string(&j("true")).as_deref(), Some("true"));
    assert_eq!(scalar_string(&j("[]")), None);
}

#[test]
fn first_label_of_a_name_counts() {
    let ls = vec![
        Labeling { label_name: "A".into(), value: j("1") },
        Labeling { label_name: "A".into(), value: j("2") },
    ];
    assert_eq!(find_label(&ls, "A").unwrap().as_i64(), Some(1));
    assert!(find_label(&ls, "B").is_none());
}

#[test]
fn conditions_without_a_whole_chip_are_not_flat() {
    assert!(!is_flat(&j(r#"{"and": [{"cond": {"field": "code", "op": "eq", "value": "A-1"}}]}"#)));
    assert!(!is_flat(&j(r#"{"cond": {"field": "text", "op": "notContains", "value": "x"}}"#)));
    assert!(!is_flat(&j(r#"{"cond": {"field": "text", "op": "contains", "value": 3}}"#)));
    assert!(!is_flat(&j(r#"{"cond": {"field": {"label": "Task"}, "op": "exists"}}"#)));
    assert!(is_flat(&j(r#"{"cond": {"field": "updatedAt", "op": "gt", "value": "2026-01-01"}}"#)));
}

#[test]
fn flat_queries_come_back_from_their_chips() {
    let q = j(
        r#"{"and": [{"cond": {"field": {"label": "Task"}, "op": "in", "value": ["a", 1]}},
            {"cond": {"field": "createdAt", "op": "lt", "value": "2026-01-01"}},
            {"cond": {"field": "text", "op": "contains", "value": "x"}}]}"#,
    );
    assert!(is_flat(&q));
    assert!(json::same(&build_query(&chips(&q)), &q));
}

#[test]
fn a_keyword_keeps_conditions_without_a_chip() {
    let q = j(r#"{"and": [{"cond": {"field": "code", "op": "eq", "value": "A-1"}}]}"#);
    let joined = with_text(&q, "x");
    let parts = joined.get("and").unwrap().as_array().unwrap();
    assert_eq!(parts.len(), 2);
    assert_eq!(at(&parts[0], &["cond", "field"]).as_str(), Some("code"));
}

#[test]
fn queries_name_labels_in_order_and_once() {
    let q = j(
        r#"{"and": [{"cond": {"field": {"label": "B"}, "op": "exists"}},
            {"not": {"or": [{"cond": {"field": {"label": "A"}, "op": "eq", "value": 1}},
                {"cond": {"field": {"label": "B"}, "op": "eq", "value": 2}},
                {"cond": {"field": "code", "op": "eq", "value": "x"}}]}}]}"#,
    );
    assert_eq!(query_label_names(&q), vec!["B".to_string(), "A".to_string()]);
    assert!(query_label_names(&Json::Null).is_empty());
}
