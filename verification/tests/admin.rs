use rodeo::accounts::{
    admin_access, back_href, back_label, deleted_text, home_path, invite_text, live_workspaces,
    must_sign_in, register_offer, role_chip, share_text, sign_in_text, task_choices, task_of,
    trashed_workspaces, workspace_path, Access, AccountForm, PasswordForm, RegisterOffer,
    ACCOUNT_FIELDS_MISSING, PASSWORDS_DIFFER,
};
use rodeo::ai_prompt_editor::{remove_row, rows_from, rows_to_value, PromptRow};
use rodeo::automation_tab::{
    draft_write, rule_summary, AutomationRule, DraftWrite, RuleForm, RuleWrite, NAME_MISSING,
};
use rodeo::graphql_client::{Entry, LabelSchema, Labeling, Member, NamedPrompt, Workspace, WorkspaceItem};
use rodeo::json::{self, Json};
use rodeo::number::Number;
use rodeo::requests;
use rodeo::settings::{
    build_links, build_value_colors, can_manage, can_transfer, choose_other, delete_text,
    email_of, enum_values_of, find_valued, fmt_num, invite_error, is_builtin, is_owner,
    label_attrs_of, label_rights, link_value_of, link_value_text, links_text, links_to_rows,
    move_down, move_up, moved_to, new_label_attrs, new_link_row, new_vc_row, num_given, num_value,
    other_labels, remove_color, remove_link, slug_arg, transfer_text, vc_rows, AttrFields,
    LabelMeta, EMAIL_MISSING,
};
use rodeo::tiny_editor::{delta_given, normalize_delta};

fn j(s: &str) -> Json {
    json::read(s).unwrap()
}

fn same(a: &Json, b: &str) -> bool {
    json::same(a, &j(b))
}

fn schema(name: &str, value_type: &str) -> LabelSchema {
    LabelSchema {
        name: name.into(),
        title: format!("{name} 标题"),
        value_type: value_type.into(),
        enum_values: vec!["Open".into(), "Done".into()],
        color: None,
        value_colors: Json::Null,
        multi: false,
        format: None,
        default_value: Json::Null,
        currency_symbol: None,
        unit: None,
    }
}

fn member(id: &str) -> Member {
    Member {
        account_id: id.into(),
        email: format!("{id}@example.com"),
        name: id.into(),
        role: "worker".into(),
        joined_at: "2026-01-01T00:00:00Z".into(),
    }
}

fn workspace(slug: &str, role: &str, deleted: bool) -> WorkspaceItem {
    WorkspaceItem {
        workspace: Workspace {
            id: slug.into(),
            name: slug.into(),
            slug: slug.into(),
            description: String::new(),
            deleted_at: if deleted { Some("2026-01-01T00:00:00Z".into()) } else { None },
        },
        role: role.into(),
    }
}

#[test]
fn roles_have_rights() {
    assert!(can_manage("owner") && can_manage("maintainer") && !can_manage("worker"));
    assert!(is_owner("owner") && !is_owner("maintainer"));
    assert!(can_transfer("owner", "a", "b"));
    assert!(!can_transfer("owner", "a", "a") && !can_transfer("maintainer", "a", "b"));
    assert!(is_builtin(&schema("Task", "enum")) && !is_builtin(&schema("Due", "date")));
    let r = label_rights(&schema("Task", "enum"), true);
    assert!(r.basic && !r.all && !r.numeric && r.value_colors);
    let r = label_rights(&schema("Score", "integer"), true);
    assert!(r.all && r.numeric && r.value_colors);
    let r = label_rights(&schema("Score", "integer"), false);
    assert!(!r.basic && !r.all);
}

#[test]
fn settings_of_a_workspace_are_sent() {
    assert_eq!(slug_arg(" a ", "a"), None);
    assert_eq!(slug_arg("b", "a").as_deref(), Some("b"));
    assert_eq!(moved_to("a", "a"), None);
    assert_eq!(moved_to("a", "b").as_deref(), Some("/b/settings"));
    assert_eq!(invite_error(" "), Some(EMAIL_MISSING));
    assert_eq!(invite_error("a@b"), None);
    assert_eq!(email_of(&[member("u1")], "u1"), "u1@example.com");
    assert_eq!(email_of(&[member("u1")], "u2"), "u2");
    assert_eq!(transfer_text("x"), "转让后 x 成为 Owner，你降为 Maintainer。对方可以再转回给你。");
    assert_eq!(delete_text("x"), "「x」会被移入回收站，条目、标签、视图、成员全部保留，可随时恢复。");
    assert_eq!(links_text(0), "配置关系");
    assert_eq!(links_text(2), "配置关系（已 2 条）");
}

#[test]
fn attributes_go_by_type() {
    assert_eq!(enum_values_of(" a, ,b "), vec!["a".to_string(), "b".to_string()]);
    let f = AttrFields {
        multi: true,
        format: " YYYY ".into(),
        symbol: "¥".into(),
        unit: "".into(),
        default: j("1"),
    };
    assert!(same(
        &new_label_attrs("enum", &f),
        r#"{"multi":true,"format":null,"currencySymbol":null,"unit":null,"defaultValue":1,"links":[]}"#
    ));
    assert!(same(
        &new_label_attrs("date", &f),
        r#"{"multi":false,"format":"YYYY","currencySymbol":null,"unit":null,"defaultValue":1,"links":[]}"#
    ));
    assert!(same(
        &label_attrs_of(&f, j("[1]")),
        r#"{"multi":true,"format":"YYYY","currencySymbol":"¥","unit":null,"defaultValue":1,"links":[1]}"#
    ));
}

#[test]
fn numbers_go_in_and_out_of_fields() {
    let text = |s: &str| match j(s) {
        Json::Number(n) => fmt_num(&n),
        other => panic!("{other:?}"),
    };
    assert_eq!(text("60"), "60");
    assert_eq!(text("-3"), "-3");
    assert_eq!(text("60.0"), "60");
    assert_eq!(text("0.5"), "0.5");
    assert_eq!(text("1e16"), "10000000000000000");
    assert_eq!(text("1e-7"), "0.0000001");
    assert!(same(&num_value(" 12 "), "12"));
    assert!(same(&num_value("0.25"), "0.25"));
    assert!(num_value("").is_null());
    assert!(num_value("x").is_null());
    assert!(same(&num_given("x", Some(Number::PosInt(3))), "3"));
    for n in [0i64, 60, -7, 8_999_999_999_999_999] {
        assert!(json::same(&num_value(&fmt_num(&rodeo::number::number_of(n))), &json::of_i64(n)));
    }
}

#[test]
fn colors_of_values_are_edited() {
    let colors = j(r##"[{"color":"#111","min":1,"max":2.5,"value":null},{"color":"#222","value":"x"}]"##);
    let mut rows = vc_rows(&colors);
    assert_eq!((rows[0].min.as_str(), rows[0].max.as_str()), ("1", "2.5"));
    assert_eq!(rows[1].value, "x");
    assert!(same(
        &build_value_colors(&rows, "enum"),
        r##"[{"color":"#111","max":null,"min":null,"value":null},{"color":"#222","max":null,"min":null,"value":"x"}]"##
    ));
    assert!(same(
        &build_value_colors(&rows, "float"),
        r##"[{"color":"#111","max":2.5,"min":1,"value":null},{"color":"#222","max":null,"min":null,"value":null}]"##
    ));
    move_up(&mut rows, 1);
    assert_eq!(rows[0].id, 1);
    move_down(&mut rows, 1);
    assert_eq!(rows[0].id, 0);
    move_up(&mut rows, 0);
    assert_eq!(rows[0].id, 0);
    rows.push(new_vc_row(7, "enum", &vec!["Open".to_string()]));
    assert_eq!(rows[2].value, "Open");
    rows[2].color = "".into();
    assert!(same(
        &build_value_colors(&rows, "enum"),
        r##"[{"color":"#111","max":null,"min":null,"value":null},{"color":"#222","max":null,"min":null,"value":"x"}]"##
    ));
    remove_color(&mut rows, 0);
    assert_eq!(rows.iter().map(|r| r.id).collect::<Vec<_>>(), vec![1, 7]);
}

#[test]
fn relations_are_edited() {
    let metas = other_labels(&[schema("A", "integer"), schema("B", "null"), schema("C", "boolean")], "C");
    assert_eq!(metas.len(), 2);
    assert!(find_valued(&metas, "A").is_some());
    assert!(find_valued(&metas, "B").is_none());
    let own = LabelMeta::of(&schema("C", "boolean"));
    let links = j(r#"[{"kind":"override","other":"A","otherValue":3,"ownValue":true},{"kind":"x"}]"#);
    let mut rows = links_to_rows(&links);
    assert_eq!(rows.len(), 1);
    assert_eq!((rows[0].other_value.as_str(), rows[0].own_value.as_str()), ("3", "true"));
    assert!(same(
        &build_links(&rows, &metas, Some(&own)),
        r#"[{"kind":"override","other":"A","otherValue":3,"ownValue":true}]"#
    ));
    choose_other(&mut rows[0], "B");
    assert!(same(
        &build_links(&rows, &metas, Some(&own)),
        r#"[{"kind":"override","other":"B","otherValue":null,"ownValue":true}]"#
    ));
    rows[0].other_value = "stale".into();
    let mark = LabelMeta::of(&schema("N", "null"));
    assert!(same(
        &build_links(&rows, &metas, Some(&mark)),
        r#"[{"kind":"override","other":"B","otherValue":null,"ownValue":null}]"#
    ));
    rows.push(new_link_row(9));
    assert!(build_links(&rows, &metas, Some(&own)).as_array().unwrap().len() == 1);
    remove_link(&mut rows, 9);
    assert_eq!(rows.len(), 1);
    assert!(link_value_of("", Some(&own)).is_null());
    assert!(same(&link_value_of("false", Some(&own)), "false"));
    assert!(same(&link_value_of("yes", Some(&own)), r#""yes""#));
    assert_eq!(link_value_text(&j(r#"["a",1]"#)), "a,1");
}

#[test]
fn rules_are_edited_and_sent() {
    let schemas = vec![schema("Task", "enum"), schema("Score", "integer")];
    let form = RuleForm::open_new(&schemas);
    assert_eq!(form.trigger, "$label = \"Task\" AND $new = \"\"");
    assert_eq!(form.submit(&schemas).err(), Some(NAME_MISSING));
    let rule = AutomationRule {
        id: "r".into(),
        name: "规则".into(),
        enabled: true,
        trigger_expr: "t".into(),
        target_event_source: false,
        target_expr: "x".into(),
        writes: vec![
            RuleWrite { label_name: "Score".into(), op: "set".into(), value_kind: "literal".into(), value: j("5") },
            RuleWrite { label_name: "Task".into(), op: "remove".into(), value_kind: "".into(), value: Json::Null },
        ],
    };
    assert_eq!(rule_summary(&rule), "表达式圈定 → Score(set)、Task(remove)");
    let mut form = RuleForm::open_edit(&rule, &schemas);
    form.append_name("$new");
    assert_eq!(form.trigger, "t $new");
    let input = form.submit(&schemas).unwrap();
    assert_eq!(input.target.as_deref(), Some("x"));
    assert!(same(
        &input.writes,
        r#"[{"labelName":"Score","op":"set","valueKind":"literal","value":5},
            {"labelName":"Task","op":"remove","valueKind":"literal","value":""}]"#
    ));
    form.remove_write(0);
    form.remove_write(5);
    form.add_write(&schemas);
    assert_eq!(form.writes.len(), 2);
    form.event_source = true;
    assert_eq!(form.submit(&schemas).unwrap().target, None);
}

#[test]
fn writes_are_read_by_type() {
    let d = DraftWrite {
        label_name: "L".into(),
        op: "set".into(),
        value_kind: "literal".into(),
        value: "5".into(),
    };
    let value = |v: Json| v.get("value").unwrap().copy();
    assert!(same(&value(d.to_input(Some("integer"))), "5"));
    assert!(same(&value(d.to_input(Some("string"))), r#""5""#));
    assert!(same(&value(d.to_input(None)), r#""5""#));
    assert!(same(&value(d.input_given(Some("integer"), None)), r#""5""#));
    let w = RuleWrite { label_name: "L".into(), op: "set".into(), value_kind: "event".into(), value: j("[1]") };
    let d = draft_write(&w);
    assert_eq!(d.value, "[1]");
    assert!(value(d.to_input(Some("integer"))).is_null());
}

#[test]
fn prompts_survive_the_editor() {
    let list = [
        NamedPrompt { name: "周报".into(), prompt: "写".into() },
        NamedPrompt { name: "日报".into(), prompt: "短".into() },
    ];
    let mut rows = rows_from(&list);
    assert!(same(
        &Json::Array(rows_to_value(&rows)),
        r#"[{"name":"周报","prompt":"写"},{"name":"日报","prompt":"短"}]"#
    ));
    rows.push(PromptRow::new(" ".into(), "x".into()));
    assert!(rows[2].to_value().is_none());
    assert_eq!(rows_to_value(&rows).len(), 2);
    remove_row(&mut rows, 0);
    remove_row(&mut rows, 9);
    assert_eq!(rows.len(), 2);
}

#[test]
fn details_become_documents() {
    assert_eq!(normalize_delta("  "), "");
    assert_eq!(normalize_delta(r#" {"ops":[]} "#), r#"{"ops":[]}"#);
    assert_eq!(normalize_delta("[1]"), "[1]");
    assert_eq!(normalize_delta("hi"), r#"{"ops":[{"insert":"hi\n"}]}"#);
    assert_eq!(normalize_delta("{\"a\":1}"), r#"{"ops":[{"insert":"{\"a\":1}\n"}]}"#);
    let made = normalize_delta("hi");
    assert_eq!(normalize_delta(&made), made);
    assert_eq!(delta_given("x", Some(j("[]"))), "x");
}

#[test]
fn workspaces_are_listed_once() {
    let list = vec![
        workspace("a", "owner", false),
        workspace("b", "owner", true),
        workspace("c", "worker", true),
    ];
    assert_eq!(live_workspaces(&list), vec![0]);
    assert_eq!(trashed_workspaces(&list), vec![1]);
    assert_eq!(home_path(true), "/login");
    assert_eq!(home_path(false), "/workspaces");
    assert!(must_sign_in(false, true) && !must_sign_in(false, false));
    assert_eq!(workspace_path("a"), "/a");
    assert_eq!(register_offer(None, false), RegisterOffer::Unknown);
    assert_eq!(register_offer(Some(false), false), RegisterOffer::Closed);
    assert_eq!(register_offer(Some(true), false), RegisterOffer::Register);
    assert_eq!(register_offer(Some(true), true), RegisterOffer::SignIn);
    assert_eq!(sign_in_text(true), "注册并登录");
    assert_eq!(invite_text("OWNER"), "邀请你以 Owner 身份加入");
    assert_eq!(deleted_text("昨天"), "删除于 昨天");
    assert!(role_chip("owner").starts_with("chip "));
    assert_eq!(back_label(Some("ws")), "工作空间");
    assert_eq!(back_href(Some("ws"), Some("a")), "/a");
    assert_eq!(back_href(Some("ws"), Some("")), "/workspaces");
    assert_eq!(back_href(None, Some("a")), "/workspaces");
}

#[test]
fn states_of_entries_are_shown() {
    let e = Entry {
        code: "E".into(),
        title: String::new(),
        detail: String::new(),
        created_at: String::new(),
        updated_at: String::new(),
        created_by: String::new(),
        updated_by: String::new(),
        created_by_account: None,
        updated_by_account: None,
        archived_at: None,
        labels: vec![Labeling { label_name: "Task".into(), value: j(r#""Open""#) }],
    };
    assert_eq!(task_of(&e), "Open");
    assert_eq!(task_choices(&[schema("Task", "enum")]), vec!["Open".to_string(), "Done".to_string()]);
    assert!(task_choices(&[]).is_empty());
}

#[test]
fn passwords_are_changed() {
    let mut f = PasswordForm::empty();
    assert!(!f.can_submit());
    f.old = "a".into();
    f.new = "b".into();
    f.confirm = "c".into();
    assert!(f.can_submit());
    assert_eq!(f.submit(), None);
    assert_eq!(f.error.as_deref(), Some(PASSWORDS_DIFFER));
    f.confirm = "b".into();
    assert_eq!(f.submit(), Some(("a".to_string(), "b".to_string())));
    assert_eq!(f.submit(), None);
    f.answered(Some("错".into()));
    assert_eq!((f.busy, f.error.as_deref(), f.new.as_str()), (false, Some("错"), "b"));
    f.submit();
    f.answered(None);
    assert!(f.done && f.new.is_empty());
}

#[test]
fn accounts_are_made() {
    assert_eq!(admin_access(None), Access::Unknown);
    assert_eq!(admin_access(Some(false)), Access::Denied);
    assert_eq!(admin_access(Some(true)), Access::Granted);
    let mut f = AccountForm::empty();
    assert!(!f.can_submit());
    f.email = " a@b ".into();
    assert_eq!(f.submit(), None);
    assert_eq!(f.error.as_deref(), Some(ACCOUNT_FIELDS_MISSING));
    f.name = "张".into();
    assert_eq!(f.submit(), Some(("a@b".to_string(), "张".to_string())));
    f.answered(None);
    assert!(f.email.is_empty());
    let t = share_text("http://h", "e", "p");
    assert!(t.contains("http://h/login") && t.contains("初始密码：p"));
}

#[test]
fn requests_are_written() {
    let r = requests::login("a@b", "p\"w");
    assert!(r.query.starts_with("mutation"));
    assert!(same(&r.variables, r#"{"e":"a@b","p":"p\"w"}"#));
    let body = json::read(&r.body_text()).unwrap();
    assert!(json::same(&body, &r.body()));
    assert!(json::same(body.get("variables").unwrap(), &r.variables));
    assert_eq!(requests::authorization("t"), "Bearer t");
    let r = requests::query_entries("w", &j(r#"{"and":[]}"#), "title", true, 2, 20);
    assert!(same(
        &r.variables,
        r#"{"id":"w","q":{"and":[]},"s":{"field":"title","desc":true},"p":{"page":2,"pageSize":20}}"#
    ));
    let r = requests::update_workspace("w", "n", "d", None);
    assert!(r.variables.get("id").is_some());
    assert!(same(
        &requests::label_attrs(true, Some("f"), None, None, &j("1")),
        r#"{"multi":true,"format":"f","currencySymbol":null,"unit":null,"defaultValue":1}"#
    ));
}

#[test]
fn answers_are_read() {
    assert_eq!(
        requests::read_answer(&j(r#"{"errors":[{"message":"没权限"}],"data":null}"#)).err().as_deref(),
        Some("没权限")
    );
    assert_eq!(
        requests::read_answer(&j(r#"{"errors":[{}]}"#)).err().as_deref(),
        Some(requests::UNKNOWN_ERROR)
    );
    let data = requests::read_answer(&j(r#"{"errors":[],"data":{"x":1,"ok":true,"n":3}}"#)).unwrap();
    assert!(same(&requests::field_value(&data, "x"), "1"));
    assert!(requests::field_value(&data, "y").is_null());
    assert!(requests::bool_field(&data, "ok") && !requests::bool_field(&data, "x"));
    assert_eq!(requests::int_field(&data, "n"), 3);
    assert_eq!(requests::int_field(&data, "zz"), 0);
    assert_eq!(requests::text_field(&data, "t", "默认"), "默认");
    assert_eq!(requests::role_field(&j(r#"{"myRole":"owner"}"#)), "owner");
    assert_eq!(requests::role_field(&j("{}")), "none");
    assert!(requests::registration_allowed(&j(r#"{"serverConfig":{"allowRegistration":true}}"#)));
    assert!(!requests::registration_allowed(&j("{}")));
    let (token, account) = requests::read_session(
        &j(r#"{"login":{"token":"t","account":{"id":"1"}}}"#),
        "login",
        requests::NO_LOGIN,
    )
    .unwrap();
    assert_eq!(token, "t");
    assert!(same(&account, r#"{"id":"1"}"#));
    assert_eq!(
        requests::read_session(&j("{}"), "register", requests::NO_REGISTER).err(),
        Some(requests::NO_REGISTER)
    );
    assert_eq!(
        requests::read_session(&j(r#"{"login":{}}"#), "login", requests::NO_LOGIN).err(),
        Some(requests::NO_TOKEN)
    );
}
