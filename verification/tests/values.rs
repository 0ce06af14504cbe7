use rodeo::audit::audit_change;
use rodeo::components::{
    account_hits, account_label, action_label, avatar_char, choices_value, display_enum_value,
    fmt_datetime, from_native, human_size, is_custom_format, is_native_time_layout,
    is_preset_color, label_chip_class, member_label, number_value, role_at_least, role_chip_class,
    role_label, short_time, shown_color, to_native, user_label, value_to_string, value_type_label,
    LocalTime, PRESET_COLORS,
};
use rodeo::decimal;
use rodeo::default_value;
use rodeo::draft::{self, DraftControl, DraftLabel};
use rodeo::graphql_client::{LabelSchema, Member, User};
use rodeo::json::{self, Json};
use rodeo::number::Number;
use rodeo::text;

fn j(s: &str) -> Json {
    json::read(s).unwrap()
}

fn schema(name: &str, value_type: &str) -> LabelSchema {
    LabelSchema {
        name: name.into(),
        title: format!("{name} 标题"),
        value_type: value_type.into(),
        enum_values: vec!["Open".into(), "Done".into()],
        color: None,
        value_colors: Json::Null,
        multi: false,
        format: None,
        default_value: Json::Null,
        currency_symbol: None,
        unit: None,
    }
}

fn member(id: &str, name: &str, email: &str) -> Member {
    Member {
        account_id: id.into(),
        email: email.into(),
        name: name.into(),
        role: "worker".into(),
        joined_at: "2026-01-01T00:00:00Z".into(),
    }
}

#[test]
fn audit_change_reports_only_changed_fields() {
    let b = r#"{"title":"旧","detail":"同","value":"Open"}"#;
    let a = r#"{"title":"新","detail":"同","value":"Open"}"#;
    assert_eq!(audit_change(Some(b), Some(a)), "标题: 旧 → 新");
}

#[test]
fn audit_change_summarizes_create_and_delete() {
    assert_eq!(audit_change(None, Some(r#"{"title":"条目0"}"#)), "创建「条目0」");
    assert_eq!(audit_change(Some(r#"{"name":"看板"}"#), None), "删除「看板」");
    assert_eq!(audit_change(None, None), "—");
}

#[test]
fn audit_change_marks_added_and_removed_fields() {
    let b = r#"{"a":1}"#;
    let a = r#"{"b":2}"#;
    assert_eq!(audit_change(Some(b), Some(a)), "b: — → 2；a: 1 → —");
}

#[test]
fn audit_change_of_equal_snapshots_reports_nothing() {
    let s = r#"{"b":[1,2],"a":{"x":null}}"#;
    assert_eq!(audit_change(Some(s), Some(r#"{"a":{"x":null},"b":[1,2]}"#)), "无字段变化");
    assert_eq!(audit_change(Some("no json"), Some("[]")), "—");
    assert_eq!(audit_change(None, Some("{}")), "创建「（无标题）」");
}

#[test]
fn audit_change_clips_long_values() {
    let long = "字".repeat(50);
    let a = format!(r#"{{"title":"{long}"}}"#);
    let shown = format!("创建「{}…」", "字".repeat(40));
    assert_eq!(audit_change(None, Some(&a)), shown);
}

#[test]
fn json_is_read_and_written() {
    assert_eq!(json::write(&j(r#" { "b" : 1 , "a" : [ true , null ] } "#)), r#"{"a":[true,null],"b":1}"#);
    assert_eq!(json::write(&j("1.50")), "1.5");
    assert_eq!(json::write(&j("-3")), "-3");
    assert_eq!(json::write(&Json::Text("a\"b".into())), r#""a\"b""#);
    assert!(json::read("{").is_none());
    assert!(json::read("").is_none());
}

#[test]
fn json_values_are_compared_without_order() {
    let a = json::object2("x", j("1"), "y", j("2"));
    let b = json::object2("y", j("2"), "x", j("1"));
    assert!(json::same(&a, &b));
    assert!(!json::same(&j("1"), &j("1.0")));
    assert!(json::same(&j("0.0"), &j("-0.0")));
}

#[test]
fn values_have_texts() {
    assert_eq!(value_to_string(&j(r#"["a", 1, null, true]"#)), "a, 1, , true");
    assert_eq!(value_to_string(&j(r#"{"b":1,"a":2}"#)), r#"{"a":2,"b":1}"#);
    assert_eq!(value_to_string(&j("1e300")), "1e+300");
    assert_eq!(value_to_string(&Json::Null), "");
}

#[test]
fn numbers_of_fields() {
    assert_eq!(number_value("integer", "12"), Some(Json::Number(Number::PosInt(12))));
    assert_eq!(number_value("integer", "-"), None);
    assert_eq!(number_value("integer", " "), Some(Json::Null));
    assert_eq!(
        number_value("float", "1.5"),
        Some(Json::Number(Number::Float(1.5f64.to_bits(), "1.5".into())))
    );
    assert_eq!(number_value("float", "inf"), None);
    assert_eq!(number_value("float", "x"), None);
}

#[test]
fn integers_are_written_and_read() {
    for n in [0, 7, -7, i64::MAX, i64::MIN] {
        assert_eq!(decimal::number_text(n), n.to_string());
        assert_eq!(decimal::parse_int(&n.to_string()), Some(n));
    }
    assert_eq!(decimal::parse_int("+5"), Some(5));
    assert_eq!(decimal::parse_int("9223372036854775808"), None);
    assert_eq!(decimal::padded_text(7, 3), "007");
}

#[test]
fn sizes_are_shown_like_doubles() {
    for n in [
        -1i64, 0, 1, 1023, 1024, 1535, 1536, 1537, 2560, 1048575, 1048576, 1101004, 1153433,
        5242880, 5295309, i64::MAX, 1 << 53, (1 << 53) + 1,
    ] {
        let b = n.max(0) as f64;
        let want = if b >= 1024.0 * 1024.0 {
            format!("{:.1} MB", b / (1024.0 * 1024.0))
        } else if b >= 1024.0 {
            format!("{:.0} KB", b / 1024.0)
        } else {
            format!("{} B", n.max(0))
        };
        assert_eq!(human_size(n), want, "{n}");
    }
}

#[test]
fn times_fit_browser_fields() {
    assert_eq!(to_native("datetime", "2026-09-15 14:30:00"), "2026-09-15T14:30");
    assert_eq!(from_native("datetime", "2026-09-15T14:30").as_deref(), Some("2026-09-15 14:30:00"));
    assert_eq!(to_native("time", "14:30:00"), "14:30");
    assert_eq!(from_native("time", "14:30").as_deref(), Some("14:30:00"));
    assert_eq!(from_native("time", "14:30:05").as_deref(), Some("14:30:05"));
    assert_eq!(from_native("date", "2026-09-15").as_deref(), Some("2026-09-15"));
    assert_eq!(from_native("date", ""), None);
    assert!(is_native_time_layout("date", None));
    assert!(is_native_time_layout("time", Some("HH:mm:ss")));
    assert!(!is_native_time_layout("date", Some("YYYY/MM/DD")));
    assert!(is_native_time_layout("datetime", Some("YYYY-MM-DD HH:mm:ss")));
    assert!(!is_native_time_layout("datetime", Some("YYYY-MM-DD")));
    assert!(!is_native_time_layout("date", Some("HH:mm:ss")));
    assert!(!is_native_time_layout("time", Some("YYYY-MM-DD HH:mm:ss")));
}

#[test]
fn times_are_shown() {
    let local = LocalTime { year: 2026, month: 9, day: 5, hour: 20, minute: 3, second: 9 };
    assert_eq!(short_time("2026-09-05T12:03:09Z", Some(local)), "2026-09-05 20:03");
    assert_eq!(short_time("2026-09-05T12:03:09Z", None), "2026-09-05 12:03");
    assert_eq!(fmt_datetime("2026-09-05T12:03:09Z", Some(local)), "2026-09-05 20:03:09");
    assert_eq!(fmt_datetime(" 2026-09-05T12:03:09Z ", None), "2026-09-05 12:03:09");
    assert_eq!(fmt_datetime("2026-09-05", None), "2026-09-05");
    assert_eq!(fmt_datetime("x", None), "x");
}

#[test]
fn roles_are_ranked() {
    assert!(role_at_least("Owner", "maintainer"));
    assert!(role_at_least("worker", "worker"));
    assert!(!role_at_least("reader", "worker"));
    assert!(!role_at_least("stranger", "worker"));
    assert_eq!(role_label("OWNER"), "Owner");
    assert_eq!(role_label("Guest"), "guest");
    assert_eq!(role_chip_class("maintainer"), "c-doing");
}

#[test]
fn names_of_things() {
    assert_eq!(action_label("EntryCreated"), "创建");
    assert_eq!(action_label("Other"), "变更");
    assert_eq!(value_type_label("date"), "日期");
    assert_eq!(value_type_label("x"), "x");
    assert_eq!(display_enum_value("InProgress"), "In progress");
    assert_eq!(label_chip_class("Priority", "P0"), "c-p0");
    assert_eq!(label_chip_class("Task", "Done"), "c-done");
    assert_eq!(avatar_char("张三"), '张');
    assert_eq!(avatar_char(""), '?');
    assert_eq!(user_label(Some(&User { id: "1".into(), email: "e".into(), name: " ".into() })), "e");
    assert_eq!(user_label(None), "");
}

#[test]
fn accounts_are_found_by_name_or_address() {
    let members: Vec<Member> = (0..10)
        .map(|i| member(&format!("{i}"), &format!("Ärzte {i}"), &format!("a{i}@x.org")))
        .collect();
    assert_eq!(account_hits(&members, "  "), Vec::<usize>::new());
    assert_eq!(account_hits(&members, "ärzte").len(), 8);
    assert_eq!(account_hits(&members, "A7@"), vec![7]);
    assert_eq!(account_label(&members, "3"), "Ärzte 3");
    assert_eq!(account_label(&members, "99"), "99");
    assert_eq!(member_label(&member("1", "  ", "e@x")), "e@x");
}

#[test]
fn colors_of_the_palette() {
    assert!(is_preset_color(PRESET_COLORS[0]));
    assert!(!is_preset_color("#EF4444"));
    assert_eq!(shown_color(""), "#3b82f6");
    assert_eq!(shown_color("#111111"), "#111111");
    assert!(default_value::is_set_color("#EF4444", "#ef4444"));
}

#[test]
fn letters_outside_ascii() {
    assert_eq!(choices_value(" Ä , b ,, "), j(r#"["Ä", "b"]"#));
    assert_eq!(text::trim("\u{3000}x\u{2003}"), "x");
    assert_eq!(text::to_lower("AÄ"), "aÄ");
    assert_eq!(choices_value(" , "), Json::Null);
}

#[test]
fn drafts_start_empty_or_from_the_default() {
    let mut s = schema("Task", "enum");
    s.default_value = j(r#""Open""#);
    assert_eq!(DraftLabel::from_schema(&s).to_value(), None);
    assert_eq!(DraftLabel::from_schema_preset(&s).to_value(), Some(j(r#""Open""#)));
    s.multi = true;
    s.default_value = j(r#"["Open", "Done"]"#);
    assert_eq!(DraftLabel::from_schema_preset(&s).to_value(), Some(j(r#"["Open", "Done"]"#)));
    let mark = schema("Mark", "null");
    assert_eq!(DraftLabel::from_schema_preset(&mark).to_value(), Some(Json::Null));
    assert_eq!(DraftLabel::from_schema(&mark).to_value(), None);
    let odd = DraftLabel::from_schema(&schema("Odd", "strange"));
    assert_eq!(odd.value_type, "string");
}

#[test]
fn drafts_give_values_by_type() {
    let mut d = DraftLabel::from_schema(&schema("N", "integer"));
    d.text = " 12 ".into();
    assert_eq!(d.to_value(), Some(j("12")));
    d.text = "1.5".into();
    assert_eq!(d.to_value(), None);
    let mut d = DraftLabel::from_schema(&schema("F", "currency"));
    d.text = " 1.5 ".into();
    assert_eq!(d.to_value(), Some(j("1.5")));
    let mut d = DraftLabel::from_schema(&schema("T", "datetime"));
    d.text = "2026-09-15T14:30".into();
    assert_eq!(d.to_value(), Some(j(r#""2026-09-15 14:30:00""#)));
    let mut d = DraftLabel::from_schema(&schema("B", "boolean"));
    d.flag = draft::flag_of("false");
    assert_eq!(d.to_value(), Some(Json::Bool(false)));
    let mut d = DraftLabel::from_schema(&schema("S", "string"));
    d.text = "  ".into();
    assert_eq!(d.to_value(), None);
    d.text = " a ".into();
    assert_eq!(d.to_value(), Some(j(r#"" a ""#)));
    let mut s = schema("A", "account");
    s.multi = true;
    let mut d = DraftLabel::from_schema(&s);
    d.many = vec![" 1 ".into(), " ".into()];
    assert_eq!(d.to_value(), Some(j(r#"["1"]"#)));
    let mut time = schema("T", "time");
    time.default_value = j(r#""14:30:00""#);
    assert_eq!(DraftLabel::from_schema_preset(&time).text, "14:30");
}

#[test]
fn new_entries_get_the_labels_of_the_view() {
    let query = j(
        r#"{"or": [{"cond": {"field": {"label": "B"}, "op": "exists"}}, {"cond": {"field": {"label": "C"}, "op": "exists"}}]}"#,
    );
    let auto = draft::auto_label_names(&vec!["A".into(), "B".into()], &query);
    assert_eq!(auto, vec!["A".to_string(), "B".to_string(), "C".to_string()]);
    let mut a = schema("A", "string");
    a.default_value = j(r#""x""#);
    let mut d = schema("D", "string");
    d.default_value = j(r#""y""#);
    d.title = "乙".into();
    d.format = Some("f".into());
    d.enum_values = vec!["x".into(), "y".into()];
    d.multi = true;
    let drafts = draft::entry_drafts(&[a, d], &auto);
    assert_eq!((drafts[1].title.as_str(), drafts[1].multi), ("乙", true));
    assert_eq!(drafts[1].format.as_deref(), Some("f"));
    assert_eq!(drafts[1].enum_values, vec!["x".to_string(), "y".to_string()]);
    let planned = draft::planned(&drafts);
    assert_eq!(planned.len(), 1);
    assert_eq!(planned[0].0, "A");
    assert_eq!(
        json::write(&draft::batch_pairs(&drafts).unwrap()),
        r#"[{"name":"A","value":"x"}]"#
    );
    assert!(draft::batch_pairs(&Vec::new()).is_none());
    assert_eq!(
        draft::label_write_failed("A", "e"),
        "条目已创建，但标签「A」写入失败：e"
    );
}

#[test]
fn controls_go_by_type() {
    assert_eq!(draft::draft_control("enum", true), DraftControl::Several);
    assert_eq!(draft::draft_control("float", false), DraftControl::Field);
    assert_eq!(draft::input_type("date", Some("YYYY/MM/DD")), "text");
    assert_eq!(draft::input_type("datetime", None), "datetime-local");
    assert_eq!(draft::input_type("email", None), "email");
    assert_eq!(draft::input_type("integer", None), "number");
    assert_eq!(draft::chosen_accounts("a, ,b", true), vec!["a".to_string(), "b".to_string()]);
    assert_eq!(draft::chosen_accounts("a,b", false), vec!["a,b".to_string()]);
    assert_eq!(draft::accounts_text(&vec!["a".into(), "b".into()], true), "a,b");
    assert_eq!(draft::accounts_text(&vec!["a".into(), "b".into()], false), "a");
    let list = [schema("a", "date"), schema("b", "account"), schema("c", "time")];
    assert_eq!(draft::label_options(&list, true), vec![0, 2]);
    assert_eq!(draft::label_options(&list, false), vec![1]);
}

#[test]
fn default_values_are_given_by_type() {
    assert_eq!(default_value::change("boolean", false, "", "true"), Some(Json::Bool(true)));
    assert_eq!(default_value::change("enum", true, "", "a, b"), Some(j(r#"["a","b"]"#)));
    assert_eq!(default_value::change("enum", false, "", ""), Some(Json::Null));
    assert_eq!(default_value::change("integer", false, "", "1.5"), None);
    assert_eq!(default_value::change("float", false, "", "2.5"), Some(j("2.5")));
    assert_eq!(default_value::change("date", false, "", "2026-09-15"), Some(j(r#""2026-09-15""#)));
    assert_eq!(default_value::change("date", false, "YYYY/MM/DD", "2026-09-15"), None);
    assert_eq!(default_value::change("null", false, "", "x"), None);
    assert_eq!(default_value::show("integer", false, &j("3")), "3");
    assert_eq!(default_value::show("boolean", false, &j("3")), "");
    assert_eq!(default_value::time_hint("date", ""), "YYYY-MM-DD");
}

#[test]
fn formats_are_chosen_or_given() {
    assert!(!is_custom_format("date", ""));
    assert!(!is_custom_format("date", "YYYY/MM/DD"));
    assert!(is_custom_format("date", "DD.MM.YYYY"));
    let mut f = default_value::FormatField::open("date", "YYYY/MM/DD");
    assert!(!f.custom);
    f.take_choice("__custom__");
    assert!(f.custom);
    assert_eq!(f.format, "YYYY/MM/DD");
    f.leave_custom();
    assert!(!f.custom);
    assert_eq!(f.format, "");
    f.take_choice("YYYYMMDD");
    assert_eq!(f.format, "YYYYMMDD");
}

#[test]
fn plain_values_have_plain_texts() {
    let plain = [
        (Json::Null, "null"),
        (Json::Bool(true), "true"),
        (Json::Bool(false), "false"),
        (Json::Number(Number::PosInt(0)), "0"),
        (Json::Number(Number::PosInt(u64::MAX)), "18446744073709551615"),
        (Json::Number(Number::NegInt(i64::MIN)), "-9223372036854775808"),
    ];
    for (value, text) in plain {
        assert_eq!(json::write(&value), text);
        assert!(json::same(&json::read(text).unwrap(), &value));
    }
}

#[test]
fn a_date_pattern_of_a_moment_is_written_as_text() {
    let mut s = schema("T", "datetime");
    s.format = Some("YYYY-MM-DD".into());
    let mut d = DraftLabel::from_schema(&s);
    assert_eq!(draft::input_type("datetime", Some("YYYY-MM-DD")), "text");
    d.text = "2026-09-15".into();
    assert_eq!(d.to_value(), Some(j(r#""2026-09-15""#)));
}
