use rodeo::audit::lines_of;
use rodeo::comments::{
    attachments_heading, author_name, can_moderate, can_remove, can_write, comments_heading,
    message_class, Comment, CommentBoard, Composer, Loaded, GONE_AUTHOR,
};
use rodeo::entry_panel::{
    account_or_dash, is_save_key, required, After, Closing, EntryPage, Panel, CONFLICT, NO_ENTRY,
    NOT_ARCHIVED, NOT_DELETED, UNSAVED,
};
use rodeo::entry_table::{
    cell, chip_style, column_title, comment_badge, creator_text, title_style, value_list_text,
    Cell, Inherited,
};
use rodeo::graphql_client::{
    AccountBrief, AuditLog, Entry, LabelSchema, Labeling, Member, ViewTimeline,
};
use rodeo::json::{self, Json};
use rodeo::label_editor::{
    adding, available, choice_change, control, current_text, field_change, option_change,
    row_color, row_style, row_title, Adding, Control, RowChange,
};
use rodeo::timeline::{
    block_color, family, person_name, plan, tick_label, tick_step, ticks, toggle_selected, truncated_text,
    unscheduled_text, Family,
};

fn j(s: &str) -> Json {
    json::read(s).unwrap()
}

fn schema(name: &str, title: &str, value_type: &str) -> LabelSchema {
    LabelSchema {
        name: name.into(),
        title: title.into(),
        value_type: value_type.into(),
        enum_values: vec![],
        color: None,
        value_colors: Json::Null,
        multi: false,
        format: None,
        default_value: Json::Null,
        currency_symbol: None,
        unit: None,
    }
}

fn label(name: &str, value: &str) -> Labeling {
    Labeling { label_name: name.into(), value: j(value) }
}

fn entry(code: &str, labels: Vec<Labeling>) -> Entry {
    Entry {
        code: code.into(),
        title: format!("标题 {code}"),
        detail: "详情".into(),
        created_at: "2026-08-01T12:00:00Z".into(),
        updated_at: "2026-09-01T12:00:00Z".into(),
        created_by: "u1".into(),
        updated_by: "u1".into(),
        created_by_account: None,
        updated_by_account: None,
        archived_at: None,
        labels,
    }
}

fn member(id: &str, name: &str) -> Member {
    Member {
        account_id: id.into(),
        email: format!("{id}@example.com"),
        name: name.into(),
        role: "worker".into(),
        joined_at: "2026-01-01T00:00:00Z".into(),
    }
}

fn comment(id: &str, author: &str) -> Comment {
    Comment {
        id: id.into(),
        body: "{}".into(),
        created_by: author.into(),
        created_by_account: None,
        created_at: "2026-01-01T00:00:00Z".into(),
        updated_at: "2026-01-01T00:00:00Z".into(),
    }
}

fn log(resource: &str, id: &str) -> AuditLog {
    AuditLog {
        id: "1".into(),
        action: "update".into(),
        resource_type: resource.into(),
        resource_id: id.into(),
        at: "2026-01-01T00:00:00Z".into(),
        before: None,
        after: None,
    }
}

#[test]
fn cells_show_values_by_type() {
    let mut colored = schema("Due", "期限", "date");
    colored.color = Some("#f00".into());
    let schemas = vec![
        schema("Task", "任务", "enum"),
        schema("Note", "备注", "string"),
        schema("Owner", "负责人", "account"),
        schema("Mark", "标记", "null"),
        colored,
    ];
    let members = vec![member("u1", "张三"), member("u2", "李四")];
    let labels = vec![
        label("Note", r#""x""#),
        label("Owner", r#"["u2","u1"]"#),
        label("Mark", "null"),
        label("Due", r#""2026-01-01""#),
    ];
    match cell(&schemas, &members, &labels, &[], "Note") {
        Cell::Plain { text, hint } => assert_eq!((text.as_str(), hint), ("x", None)),
        other => panic!("{other:?}"),
    }
    match cell(&schemas, &members, &labels, &[], "Owner") {
        Cell::Plain { text, .. } => assert_eq!(text, "李四, 张三"),
        other => panic!("{other:?}"),
    }
    match cell(&schemas, &members, &labels, &[], "Mark") {
        Cell::Chip { text, class, .. } => {
            assert_eq!((text.as_str(), class.as_str()), ("标记", "chip"))
        }
        other => panic!("{other:?}"),
    }
    match cell(&schemas, &members, &labels, &[], "Due") {
        Cell::Chip { style, .. } => assert_eq!(style, Some(chip_style("#f00"))),
        other => panic!("{other:?}"),
    }
    assert!(matches!(cell(&schemas, &members, &labels, &[], "Task"), Cell::Nothing));
}

#[test]
fn inherited_labels_come_second_and_say_so() {
    let schemas = vec![schema("Task", "任务", "string")];
    let given = [Inherited { name: "Task".into(), value: j(r#""b""#), source: "来源".into() }];
    match cell(&schemas, &[], &[], &given, "Task") {
        Cell::Plain { text, hint } => {
            assert_eq!(text, "b");
            assert_eq!(hint.as_deref(), Some("由「来源」继承而来，未直接打在本条上"));
        }
        other => panic!("{other:?}"),
    }
    match cell(&schemas, &[], &[label("Task", r#""a""#)], &given, "Task") {
        Cell::Plain { text, hint } => assert_eq!((text.as_str(), hint), ("a", None)),
        other => panic!("{other:?}"),
    }
}

#[test]
fn rows_of_the_table_have_texts() {
    let schemas = vec![schema("Task", "任务", "enum")];
    assert_eq!(column_title(&schemas, "Task"), "任务");
    assert_eq!(column_title(&schemas, "Nope"), "Nope");
    assert_eq!(value_list_text(&j(r#"["a","b"]"#)), "a, b");
    let mut e = entry("E", vec![]);
    assert_eq!(creator_text(&e, &[member("u1", "张三")]), "张三");
    assert_eq!(creator_text(&e, &[]), "—");
    e.created_by_account =
        Some(AccountBrief { id: "u1".into(), email: "e".into(), name: "服务器".into() });
    assert_eq!(creator_text(&e, &[member("u1", "张三")]), "服务器");
    assert_eq!(comment_badge(Some(3)), Some(3));
    assert_eq!(comment_badge(Some(0)), None);
    assert_eq!(comment_badge(None), None);
    assert!(title_style(Some("#f00")).contains("#f00"));
    assert!(!title_style(None).contains("#f00"));
}

#[test]
fn late_answers_are_dropped() {
    let mut p = Panel::new();
    p.code = "A".into();
    assert!(p.begin_load(true));
    p.entry_loaded("B", true, Ok(Some(entry("B", vec![]))));
    assert!(p.entry.is_none());
    p.entry_loaded("A", true, Ok(Some(entry("A", vec![]))));
    assert_eq!(p.title, "标题 A");
    assert!(!p.dirty());
    p.entry_loaded("A", true, Ok(None));
    assert!(matches!(&p.entry, Some(Err(e)) if e == NO_ENTRY));
}

#[test]
fn soft_loads_keep_what_is_typed() {
    let mut p = Panel::new();
    p.code = "A".into();
    p.begin_load(true);
    p.entry_loaded("A", true, Ok(Some(entry("A", vec![]))));
    p.title = "新标题".into();
    assert!(p.dirty());
    p.begin_load(false);
    p.entry_loaded("A", false, Ok(Some(entry("A", vec![]))));
    assert_eq!(p.title, "新标题");
    assert_eq!(p.on_key("Escape"), Closing::Refused);
    assert_eq!(p.error.as_deref(), Some(UNSAVED));
    let change = p.change().unwrap();
    assert_eq!((change.title.as_str(), change.expected.as_str()), ("新标题", "2026-09-01T12:00:00Z"));
    let mut stored = entry("A", vec![]);
    stored.title = "新标题".into();
    assert_eq!(p.change_answered(Ok(stored)), After::Refresh);
    assert!(!p.dirty());
    assert_eq!(p.on_key("Enter"), Closing::Ignored);
    assert_eq!(p.on_key("Escape"), Closing::Closed);
}

#[test]
fn conflicts_and_failures_are_told() {
    let mut p = Panel::new();
    p.code = "A".into();
    p.begin_load(true);
    p.entry_loaded("A", true, Ok(Some(entry("A", vec![]))));
    assert_eq!(p.change_answered(Err(format!("{CONFLICT}，请刷新"))), After::Reload);
    assert_eq!(p.change_answered(Err("断网".into())), After::Nothing);
    assert_eq!(p.error.as_deref(), Some("断网"));
    assert_eq!(p.removal_answered(Ok(false), NOT_ARCHIVED), After::Nothing);
    assert_eq!(p.error.as_deref(), Some(NOT_ARCHIVED));
    assert_eq!(p.removal_answered(Ok(true), NOT_DELETED), After::Refresh);
    assert!(is_save_key(true, false, "s"));
    assert!(!is_save_key(false, false, "s"));
    assert!(is_save_key(false, true, "S"));
    assert_eq!(account_or_dash(&None), "—");
    assert_eq!(required(Some(1), NO_ENTRY), Ok(1));
    assert_eq!(required::<u8>(None, NO_ENTRY), Err(NO_ENTRY.to_string()));
}

#[test]
fn the_page_of_an_entry_is_saved() {
    let mut p = EntryPage::new();
    assert!(!p.begin_load("", true));
    assert!(p.begin_load("A", true));
    p.entry_loaded(true, Ok(entry("A", vec![])));
    assert_eq!(p.title, "标题 A");
    p.type_title("新".into());
    assert!(!p.saved);
    assert_eq!(p.change().unwrap().title, "新");
    assert_eq!(p.change_answered(Err(format!("{CONFLICT}，请刷新"))), After::Reload);
    assert_eq!(p.change_answered(Ok(entry("A", vec![]))), After::Nothing);
    assert!(p.saved);
    p.type_detail("d".into());
    assert!(!p.saved);
    assert!(!p.deletion_answered(Ok(false)));
    assert_eq!(p.error.as_deref(), Some(NOT_DELETED));
    assert!(p.deletion_answered(Ok(true)));
}

#[test]
fn authors_and_moderators_have_rights() {
    let mut b = CommentBoard::new("A");
    let list = vec![comment("1", "me"), comment("2", "other")];
    b.loaded("B", Ok(Loaded { list: vec![], user_id: None, role: "owner".into() }));
    assert_eq!(b.count(), 0);
    b.loaded("A", Ok(Loaded { list, user_id: Some("me".into()), role: "worker".into() }));
    assert_eq!(b.count(), 2);
    let mine = b.rights(&comment("1", "me"));
    let theirs = b.rights(&comment("2", "other"));
    assert!(mine.can_edit && mine.can_delete && !mine.edited);
    assert!(!theirs.can_edit && !theirs.can_delete);
    assert!(can_write("worker") && !can_write("viewer"));
    assert!(can_moderate("owner") && !can_moderate("worker"));
    assert!(can_remove("owner", "me", "other") && can_remove("worker", "me", "me"));
    assert!(!can_remove("worker", "me", "other"));
    assert_eq!(author_name(&comment("1", "me")), GONE_AUTHOR);
    assert_eq!(comments_heading(2), "评论（2）");
    assert_eq!(attachments_heading(1), "附件（1）");
    assert_ne!(message_class(true), message_class(false));
}

#[test]
fn one_comment_is_edited_at_a_time() {
    let mut b = CommentBoard::new("A");
    b.loaded(
        "A",
        Ok(Loaded {
            list: vec![comment("1", "me"), comment("2", "me")],
            user_id: Some("me".into()),
            role: "worker".into(),
        }),
    );
    assert_eq!(b.composer(), Composer::Open);
    b.start_edit("1", "x");
    b.start_edit("2", "y");
    assert!(!b.rights(&comment("1", "me")).editing);
    assert!(b.rights(&comment("2", "me")).editing);
    assert_eq!(b.composer(), Composer::Busy);
    assert!(!b.edit_answered(Some("断网".into())));
    assert_eq!(b.error.as_deref(), Some("断网"));
    assert!(b.edit_answered(None));
    b.ask_delete("1");
    assert!(b.rights(&comment("1", "me")).confirming);
    b.cancel_delete();
    assert!(!b.rights(&comment("1", "me")).confirming);
    b.start_edit("1", "x");
    b.cancel_edit();
    assert!(b.editing.is_none());
    assert!(b.delete_answered(None));
    assert!(b.post_answered(None));
    assert_eq!(b.composer(), Composer::Emptying);
    b.composer_emptied();
    assert_eq!(b.composer(), Composer::Open);
    assert!(!b.post_answered(Some("e".into())));
}

#[test]
fn labels_are_offered_while_free() {
    let schemas = vec![
        schema("A", "甲", "string"),
        schema("B", "乙", "null"),
        schema("C", "丙", "enum"),
    ];
    let labels = vec![label("A", r#""x""#)];
    assert_eq!(available(&schemas, &labels, None), vec![1, 2]);
    assert_eq!(available(&schemas, &labels, Some("C")), vec![1]);
    assert_eq!(adding(&schemas, ""), Adding::Nothing);
    assert_eq!(adding(&schemas, "B"), Adding::Write);
    assert_eq!(adding(&schemas, "C"), Adding::Ask);
    assert_eq!(control(None), Control::Shown);
    assert_eq!(control(Some(&schemas[1])), Control::Bare);
    assert_eq!(control(Some(&schemas[2])), Control::Choice);
    assert_eq!(control(Some(&schema("D", "丁", "boolean"))), Control::Check);
    assert_eq!(row_title(Some(&schemas[0]), "A"), "甲");
    assert_eq!(row_title(None, "Z"), "Z");
    assert_eq!(current_text(Some(&j("3"))), "3");
    assert_eq!(current_text(None), "");
}

#[test]
fn fields_of_labels_change_values() {
    assert!(matches!(field_change("string", ""), RowChange::Remove));
    assert!(matches!(field_change("integer", "x"), RowChange::Keep));
    match field_change("integer", "7") {
        RowChange::Write(v) => assert!(json::same(&v, &j("7"))),
        other => panic!("{other:?}"),
    }
    match field_change("float", "0.5") {
        RowChange::Write(v) => assert!(json::same(&v, &j("0.5"))),
        other => panic!("{other:?}"),
    }
    match field_change("string", "7") {
        RowChange::Write(v) => assert!(json::same(&v, &j(r#""7""#))),
        other => panic!("{other:?}"),
    }
    assert!(option_change("").is_none());
    assert!(option_change("a").is_some());
    assert!(matches!(choice_change(""), RowChange::Remove));
    assert!(matches!(choice_change("a"), RowChange::Write(_)));
    let mut s = schema("A", "甲", "enum");
    s.color = Some("#111111".into());
    assert_eq!(row_color(Some(&s), &j(r#""x""#)).as_deref(), Some("#111111"));
    assert_eq!(row_color(None, &j("1")), None);
    assert_eq!(
        row_style(Some("red")),
        "border-color:red;background:color-mix(in srgb, red 12%, transparent);color:red"
    );
    assert_eq!(row_style(None), "");
}

#[test]
fn blocks_get_lanes() {
    let schemas = vec![schema("S", "开始", "date"), schema("E", "结束", "date")];
    let cfg = ViewTimeline { start: "S".into(), end: "E".into(), person: None };
    let entries = vec![
        entry("a", vec![label("S", r#""2026-01-01""#), label("E", r#""2026-01-05""#)]),
        entry("b", vec![label("S", r#""2026-01-03""#), label("E", r#""2026-01-02""#)]),
        entry("c", vec![label("S", r#""2026-01-05""#), label("E", r#""2026-01-06""#)]),
        entry("d", vec![]),
    ];
    let derived = vec![vec![], vec![], vec![], vec![]];
    let p = plan(&entries, &derived, &schemas, &cfg).unwrap();
    assert_eq!(p.family, Family::DateTime);
    let lanes: Vec<(usize, usize)> = p.placed.iter().map(|b| (b.idx, b.lane)).collect();
    assert_eq!(lanes, vec![(0, 0), (1, 1), (2, 0)]);
    assert_eq!(p.placed[1].start, p.placed[1].end);
    assert_eq!(p.lanes, 2);
    assert_eq!(p.unscheduled, vec![3]);
    assert_eq!(p.hi - p.lo, 5 * 86_400);
    assert_eq!(p.step, 21_600);
    let marks = ticks(p.lo, p.hi, p.step);
    assert_eq!(marks.len(), 20);
    assert!(marks.iter().all(|t| t % p.step == 0 && p.lo < *t && *t <= p.hi));
    let none = ViewTimeline { start: "S".into(), end: "X".into(), person: None };
    assert!(plan(&entries, &derived, &schemas, &none).is_none());
}

#[test]
fn derived_labels_give_times_too() {
    let schemas = vec![schema("S", "开始", "time"), schema("E", "结束", "time")];
    let cfg = ViewTimeline { start: "S".into(), end: "E".into(), person: None };
    let entries = vec![entry("a", vec![label("S", r#""08:00:00""#)])];
    let derived = vec![vec![label("E", r#""09:30:00""#)]];
    let p = plan(&entries, &derived, &schemas, &cfg).unwrap();
    assert_eq!((p.lo, p.hi, p.step), (0, 86_400, 3_600));
    assert_eq!(p.placed[0].end - p.placed[0].start, 5_400);
}

#[test]
fn one_moment_gets_a_day_around_it() {
    let schemas = vec![schema("S", "开始", "date"), schema("E", "结束", "date")];
    let cfg = ViewTimeline { start: "S".into(), end: "E".into(), person: None };
    let entries =
        vec![entry("a", vec![label("S", r#""1970-01-02""#), label("E", r#""1970-01-02""#)])];
    let p = plan(&entries, &[vec![]], &schemas, &cfg).unwrap();
    assert_eq!((p.lo, p.hi), (43_200, 129_600));
}

#[test]
fn the_axis_has_labels() {
    assert_eq!(family("date", "datetime"), Some(Family::DateTime));
    assert_eq!(family("time", "time"), Some(Family::TimeOfDay));
    assert_eq!(family("date", "time"), None);
    assert_eq!(tick_label(3_600, 3_600, Family::TimeOfDay), "01:00");
    assert_eq!(tick_label(86_400, 86_400, Family::DateTime), "1970-01-02");
    assert_eq!(block_color(0), block_color(0));
    assert_ne!(block_color(0), block_color(1));
    assert_eq!(toggle_selected("a", "a"), "");
    assert_eq!(toggle_selected("a", "b"), "b");
    assert!(unscheduled_text(3).contains('3'));
    assert_eq!(truncated_text(5, 10), None);
    assert!(truncated_text(10, 10).is_some());
    let e = entry("a", vec![label("Owner", r#""u1""#)]);
    assert_eq!(person_name(&e, &[], "Owner", &[member("u1", "张三")]).as_deref(), Some("张三"));
    assert_eq!(person_name(&e, &[], "Nobody", &[]), None);
}

#[test]
fn the_history_of_an_entry_is_picked_out() {
    let logs = vec![log("entry", "A"), log("entry", "B"), log("labeling", "A/Task")];
    assert_eq!(lines_of(&logs, "B"), vec![1]);
    assert!(lines_of(&logs, "A").contains(&0));
}

#[test]
fn ticks_stay_few() {
    let step = tick_step(147_600 - 3_599, Family::DateTime);
    assert_eq!(step, 21_600);
    assert!(ticks(3_599, 147_600, step).len() <= 40);
    assert_eq!(tick_step(144_000, Family::DateTime), 3_600);
    assert_eq!(ticks(3_599, 147_599, 3_600).len(), 40);
    assert_eq!(tick_step(i64::MAX, Family::DateTime), 1_576_800_000);
    assert_eq!(tick_step(0, Family::TimeOfDay), 300);
}

#[test]
fn there_are_as_many_lanes_as_blocks_at_once() {
    let schemas = vec![schema("S", "开始", "time"), schema("E", "结束", "time")];
    let cfg = ViewTimeline { start: "S".into(), end: "E".into(), person: None };
    let block = |from: &str, to: &str| {
        entry("a", vec![label("S", &format!("\"{from}\"")), label("E", &format!("\"{to}\""))])
    };
    let entries = vec![
        block("08:00:00", "10:00:00"),
        block("09:00:00", "11:00:00"),
        block("09:30:00", "09:30:00"),
        block("10:00:00", "12:00:00"),
    ];
    let derived = vec![vec![]; 4];
    assert_eq!(plan(&entries, &derived, &schemas, &cfg).unwrap().lanes, 3);
}
