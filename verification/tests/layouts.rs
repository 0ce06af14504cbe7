use rodeo::golayout::{
    days_from_civil, default_go, default_pattern, display_pattern, from_seconds, parse,
    presets, resolve, to_go, to_pattern, to_seconds, YmdHms, DATETIME_LAYOUT, DATE_LAYOUT,
    TIME_LAYOUT,
};

fn moment(year: i32, month: u32, day: u32, hour: u32, minute: u32, second: u32) -> YmdHms {
    YmdHms { year, month, day, hour, minute, second }
}

#[test]
fn patterns_become_layouts() {
    assert_eq!(to_go("YYYY-MM-DD").as_deref(), Some("2006-01-02"));
    assert_eq!(to_go("HH:mm:ss").as_deref(), Some("15:04:05"));
    assert_eq!(to_go("MMM D, YY hh:mm A").as_deref(), Some("Jan 2, 06 03:04 PM"));
    assert_eq!(to_go("MMMM dddd ddd a").as_deref(), Some("January Monday Mon pm"));
}

#[test]
fn letters_that_are_no_tokens_are_refused() {
    assert_eq!(to_go("YYYY/MM/DD at HH:mm"), None);
    assert_eq!(to_go("YYYY年MM月DD日"), None);
    assert_eq!(to_go("--"), None);
    assert_eq!(to_go(""), None);
    assert_eq!(resolve(Some("YYYY年MM月DD日"), DATE_LAYOUT), DATE_LAYOUT);
}

#[test]
fn names_and_half_days_are_written_and_read() {
    let t = moment(2026, 9, 5, 14, 3, 2);
    let layout = "Monday, Jan 2 2006 03:04 PM";
    let s = rodeo::golayout::format(layout, t);
    assert_eq!(s, "Saturday, Sep 5 2026 02:03 PM");
    assert_eq!(parse(layout, &s), Some(moment(2026, 9, 5, 14, 3, 0)));
    assert_eq!(parse("03:04 pm", "12:00 am"), Some(moment(0, 0, 0, 0, 0, 0)));
    assert_eq!(parse("03:04 pm", "12:00 xm"), None);
    assert_eq!(parse("Jan", "foo"), None);
}

#[test]
fn every_plain_preset_is_a_pattern_that_comes_back() {
    for vt in ["date", "time", "datetime"] {
        for p in presets(vt).iter().filter(|p| p.is_ascii()) {
            let go = to_go(p).unwrap();
            assert_eq!(to_pattern(&go), *p);
            let t = moment(2026, 9, 15, 14, 30, 45);
            let s = rodeo::golayout::format(&go, t);
            assert!(parse(&go, &s).is_some(), "{p}");
        }
    }
}

#[test]
fn defaults_agree() {
    for vt in ["date", "time", "datetime", "other"] {
        assert_eq!(to_go(default_pattern(vt)).as_deref(), Some(default_go(vt)));
    }
    assert_eq!(default_go("date"), DATE_LAYOUT);
    assert_eq!(default_go("time"), TIME_LAYOUT);
    assert_eq!(default_go("datetime"), DATETIME_LAYOUT);
}

#[test]
fn times_are_written() {
    let t = moment(2026, 9, 5, 4, 3, 2);
    assert_eq!(rodeo::golayout::format("2006-01-02 15:04:05", t), "2026-09-05 04:03:02");
    assert_eq!(rodeo::golayout::format(DATE_LAYOUT, t), "2026-09-05");
    assert_eq!(rodeo::golayout::format(TIME_LAYOUT, t), "04:03:02");
    assert_eq!(rodeo::golayout::format("no tokens", t), "no tokens");
}

#[test]
fn times_are_read() {
    assert_eq!(parse(DATE_LAYOUT, "2026-09-05"), Some(moment(2026, 9, 5, 0, 0, 0)));
    assert_eq!(parse(TIME_LAYOUT, "14:30:00"), Some(moment(
        YmdHms::default().year, YmdHms::default().month, YmdHms::default().day, 14, 30, 0)));
    assert_eq!(parse(DATETIME_LAYOUT, "2026-09-05 14:30:00"), Some(moment(2026, 9, 5, 14, 30, 0)));
    assert_eq!(parse(DATE_LAYOUT, "2026-13-05"), None);
    assert_eq!(parse(DATE_LAYOUT, "2026-02-30"), Some(moment(2026, 2, 30, 0, 0, 0)));
    assert_eq!(parse(DATE_LAYOUT, "2026-02-32"), None);
    assert_eq!(parse(DATE_LAYOUT, "2026-09-05 "), Some(moment(2026, 9, 5, 0, 0, 0)));
    assert_eq!(parse(DATE_LAYOUT, "2026-09-05 x"), None);
    assert_eq!(parse(TIME_LAYOUT, "24:00:00"), None);
    assert_eq!(parse(TIME_LAYOUT, "23:60:00"), None);
    assert_eq!(parse(TIME_LAYOUT, "23:59:60"), Some(moment(0, 0, 0, 23, 59, 60)));
    assert_eq!(parse(TIME_LAYOUT, "23:59:61"), None);
    assert_eq!(parse(DATE_LAYOUT, ""), None);
}

#[test]
fn reading_undoes_writing() {
    for t in [moment(1999, 12, 31, 23, 59, 59), moment(2024, 2, 29, 0, 0, 0)] {
        assert_eq!(parse(DATETIME_LAYOUT, &rodeo::golayout::format(DATETIME_LAYOUT, t)), Some(t));
    }
}

#[test]
fn days_are_counted() {
    assert_eq!(days_from_civil(1970, 1, 1), 0);
    assert_eq!(days_from_civil(1970, 1, 2), 1);
    assert_eq!(days_from_civil(2000, 3, 1), 11_017);
    assert_eq!(days_from_civil(1969, 12, 31), -1);
}

#[test]
fn seconds_go_both_ways() {
    assert_eq!(to_seconds(moment(1970, 1, 2, 0, 0, 1)), 86_401);
    assert_eq!(from_seconds(86_401), moment(1970, 1, 2, 0, 0, 1));
    assert_eq!(from_seconds(-1), moment(1969, 12, 31, 23, 59, 59));
    let t = moment(2026, 9, 5, 14, 30, 0);
    assert_eq!(from_seconds(to_seconds(t)), t);
}

#[test]
fn stored_formats_are_resolved() {
    assert_eq!(resolve(None, DATE_LAYOUT), DATE_LAYOUT);
    assert_eq!(resolve(Some(""), DATE_LAYOUT), DATE_LAYOUT);
    assert_eq!(resolve(Some("YYYY/MM/DD"), DATE_LAYOUT), "2006/01/02");
    assert_eq!(resolve(Some("2006/01/02"), DATE_LAYOUT), "2006/01/02");
    assert_eq!(display_pattern(None, "YYYY-MM-DD"), "YYYY-MM-DD");
    assert_eq!(display_pattern(Some("2006/01/02"), "YYYY-MM-DD"), "YYYY/MM/DD");
}

#[test]
fn half_days_are_read_back() {
    let layout = "2006-01-02 03:04:05 PM";
    for hour in 0..24 {
        let t = moment(2026, 9, 5, hour, 7, 60);
        assert_eq!(parse(layout, &rodeo::golayout::format(layout, t)), Some(t));
    }
    assert_eq!(rodeo::golayout::format(layout, moment(2026, 9, 5, 0, 7, 8)), "2026-09-05 12:07:08 AM");
}

#[test]
fn written_moments_compare_as_moments() {
    let early = rodeo::golayout::format(DATETIME_LAYOUT, moment(999, 12, 31, 23, 59, 59));
    let late = rodeo::golayout::format(DATETIME_LAYOUT, moment(1000, 1, 1, 0, 0, 0));
    assert_eq!((early.len(), late.len()), (19, 19));
    assert!(early < late);
}
