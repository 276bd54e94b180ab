use std::cmp::Ordering;
use dagskra::fetch::check_status;
use dagskra::listing::{schedule_day, schedule_from_records, Listing, ScheduleError, Status, WireListing};
use dagskra::text::{clean_description, trim};
use dagskra::timestamp::parse_start_time;

fn record(start_time: &str, title: &str, description: Option<&str>, live: bool) -> WireListing {
    WireListing {
        start_time: Some(start_time.to_string()),
        title: Some(title.to_string()),
        description: description.map(|d| d.to_string()),
        live: Some(live),
    }
}

fn listing(description: Option<&str>, live: bool) -> Listing {
    Listing::from_wire(&record("2023-05-01 20:00:00", "Fréttir", description, live)).unwrap()
}

#[test]
fn live_wins_over_repeat_marker() {
    assert_eq!(listing(Some("endursýnt e."), true).status(), Status::Live);
    assert_eq!(listing(Some("news"), true).status(), Status::Live);
    assert_eq!(listing(None, true).status(), Status::Live);
}

#[test]
fn repeat_iff_trimmed_description_ends_with_marker() {
    assert_eq!(listing(Some("  endursýnt e.  "), false).status(), Status::Repeat);
    assert_eq!(listing(Some("a e. e."), false).status(), Status::Repeat);
    assert_eq!(listing(Some("news"), false).status(), Status::Standard);
    assert_eq!(listing(Some("e."), false).status(), Status::Standard);
    assert_eq!(listing(Some(" e"), false).status(), Status::Standard);
    assert_eq!(listing(Some(""), false).status(), Status::Standard);
    assert_eq!(listing(None, false).status(), Status::Standard);
}

#[test]
fn description_drops_marker_and_space() {
    assert_eq!(listing(Some("  endursýnt e."), false).description(), "endursýnt");
    assert_eq!(listing(Some("x e. e."), false).description(), "x");
    assert_eq!(listing(Some(" e."), false).description(), "e.");
    assert_eq!(listing(Some("x  e."), false).description(), "x");
    assert_eq!(listing(Some("x e.  e."), false).description(), "x");
    assert_eq!(listing(Some("\tplain text \n"), false).description(), "plain text");
    assert_eq!(listing(None, false).description(), "");
    let d = listing(Some("abc  e."), false).description();
    assert!(!d.ends_with(" e."));
}

#[test]
fn description_same_for_pretrimmed_raw() {
    let raw = "  Þáttur um veður e.  ";
    let pre = raw.trim();
    assert_eq!(listing(Some(raw), false).description(), listing(Some(pre), false).description());
    assert_eq!(listing(Some(raw), false).status(), listing(Some(pre), false).status());
}

#[test]
fn has_description_only_with_visible_text() {
    assert!(!listing(None, false).has_description());
    assert!(!listing(Some(""), false).has_description());
    assert!(!listing(Some("  \t\n "), false).has_description());
    assert!(!listing(Some("\u{3000}\u{A0}"), false).has_description());
    assert!(listing(Some(" a "), false).has_description());
    assert!(listing(Some(" e."), false).has_description());
}

#[test]
fn date_and_time_of_parsed_start() {
    let l = Listing::from_wire(&record("2023-05-01 20:30:00", "x", None, false)).unwrap();
    assert_eq!(l.date(), "01.05.2023");
    assert_eq!(l.time(), "20:30");
}

#[test]
fn date_pads_small_years_and_hours() {
    let l = Listing::from_wire(&record("0023-01-02 03:04:05", "x", None, false)).unwrap();
    assert_eq!(l.date(), "02.01.0023");
    assert_eq!(l.time(), "03:04");
}

#[test]
fn start_time_fields_are_read() {
    let t = parse_start_time("2023-05-01 20:30:59").unwrap();
    assert_eq!((t.year, t.month, t.day, t.hour, t.minute, t.second), (2023, 5, 1, 20, 30, 59));
    assert!(parse_start_time("2023-05-01").is_none());
    assert!(parse_start_time("").is_none());
}

#[test]
fn start_time_must_have_exact_shape() {
    assert!(parse_start_time("2023-5-1 20:30:00").is_none());
    assert!(parse_start_time(" 2023-05-01 20:30:00").is_none());
    assert!(parse_start_time("+2023-05-01 20:30:00").is_none());
    assert!(parse_start_time("2023-05-01T20:30:00").is_none());
    assert!(parse_start_time("2023-05-01 20:30:00 ").is_none());
    assert!(parse_start_time("2023-02-30 20:30:00").is_none());
    assert!(parse_start_time("2024-02-29 00:00:00").is_some());
}

#[test]
fn missing_required_field_fails() {
    let mut no_title = record("2023-05-01 20:00:00", "a", None, false);
    no_title.title = None;
    assert_eq!(Listing::from_wire(&no_title).err(), Some(ScheduleError::FieldParse));
    let mut no_live = record("2023-05-01 20:00:00", "a", None, false);
    no_live.live = None;
    assert_eq!(Listing::from_wire(&no_live).err(), Some(ScheduleError::FieldParse));
    let mut no_start = record("2023-05-01 20:00:00", "a", None, false);
    no_start.start_time = None;
    let records = vec![record("2023-05-01 20:00:00", "b", None, false), no_start];
    assert_eq!(schedule_from_records(&records).err(), Some(ScheduleError::FieldParse));
}

#[test]
fn cleaned_description_is_stable() {
    for raw in ["x  e.", "x e.  e.", "  endursýnt e. ", " e.", "a e. b", ""] {
        let once = listing(Some(raw), false).description();
        assert_eq!(once.trim(), once);
        assert!(!once.ends_with(" e."));
        assert_eq!(listing(Some(&once), false).description(), once);
    }
}

#[test]
fn malformed_start_time_fails_fetch() {
    let records = vec![
        record("2023-05-01 20:00:00", "a", None, false),
        record("2023-13-40 99:99:00", "b", None, false),
    ];
    assert_eq!(schedule_from_records(&records).err(), Some(ScheduleError::FieldParse));
    let bad = record("2023-13-40 99:99:00", "b", None, false);
    assert_eq!(Listing::from_wire(&bad).err(), Some(ScheduleError::FieldParse));
}

#[test]
fn end_to_end_repeat_listing() {
    let records = vec![record("2023-05-01 20:00:00", "Fréttir", Some("  endursýnt e."), false)];
    let schedule = schedule_from_records(&records).unwrap();
    assert_eq!(schedule.len(), 1);
    let l = &schedule[0];
    assert_eq!(l.title(), "Fréttir");
    assert_eq!(l.status(), Status::Repeat);
    assert_eq!(l.description(), "endursýnt");
    assert_eq!(l.date(), "01.05.2023");
    assert_eq!(l.time(), "20:00");
    assert_eq!(schedule_day(&schedule), Some("01.05.2023".to_string()));
}

#[test]
fn empty_results_give_empty_schedule() {
    let schedule = schedule_from_records(&Vec::new()).unwrap();
    assert!(schedule.is_empty());
    assert_eq!(schedule_day(&schedule), None);
}

#[test]
fn schedule_keeps_wire_order() {
    let records = vec![
        record("2023-05-01 22:00:00", "Seinna", None, true),
        record("2023-05-01 08:15:00", "Fyrr", Some("Morgunþáttur"), false),
    ];
    let schedule = schedule_from_records(&records).unwrap();
    assert_eq!(schedule[0].title(), "Seinna");
    assert_eq!(schedule[0].time(), "22:00");
    assert!(schedule[0].is_live());
    assert_eq!(schedule[1].title(), "Fyrr");
    assert_eq!(schedule[1].time(), "08:15");
    assert_eq!(schedule[1].status(), Status::Standard);
}

#[test]
fn title_is_trimmed() {
    let l = Listing::from_wire(&record("2023-05-01 20:00:00", "  Kastljós \n", None, false)).unwrap();
    assert_eq!(l.title(), "Kastljós");
}

#[test]
fn text_helpers() {
    assert_eq!(trim("\u{2003} a b \u{205F}"), "a b");
    assert_eq!(trim("   "), "");
    assert_eq!(clean_description("a e. e."), "a");
    assert_eq!(clean_description(" a e.x "), "a e.x");
    assert_eq!(clean_description("a \t e. \n e. "), "a");
}

#[test]
fn order_is_by_start_time_first() {
    let early = Listing::from_wire(&record("2023-05-01 08:00:00", "Ö", Some("z"), true)).unwrap();
    let late = Listing::from_wire(&record("2023-05-01 20:00:00", "A", None, false)).unwrap();
    assert_eq!(early.compare(&late), Ordering::Less);
    assert_eq!(late.compare(&early), Ordering::Greater);
    assert_eq!(early.compare(&early), Ordering::Equal);
}

#[test]
fn order_ties_broken_by_title_description_live() {
    let a = Listing::from_wire(&record("2023-05-01 08:00:00", "Ab", None, true)).unwrap();
    let b = Listing::from_wire(&record("2023-05-01 08:00:00", "Ac", None, false)).unwrap();
    assert_eq!(a.compare(&b), Ordering::Less);
    let c = Listing::from_wire(&record("2023-05-01 08:00:00", "A", Some("x"), false)).unwrap();
    let d = Listing::from_wire(&record("2023-05-01 08:00:00", "A", None, false)).unwrap();
    assert_eq!(c.compare(&d), Ordering::Greater);
    let e = Listing::from_wire(&record("2023-05-01 08:00:00", "A", None, true)).unwrap();
    assert_eq!(d.compare(&e), Ordering::Less);
    let f = Listing::from_wire(&record("2023-05-01 08:00:00", "A", Some("xy"), false)).unwrap();
    assert_eq!(c.compare(&f), Ordering::Less);
}

#[test]
fn only_success_statuses_are_accepted() {
    assert_eq!(check_status(200), Ok(()));
    assert_eq!(check_status(204), Ok(()));
    assert_eq!(check_status(299), Ok(()));
    assert_eq!(check_status(199), Err(ScheduleError::Transport));
    assert_eq!(check_status(301), Err(ScheduleError::Transport));
    assert_eq!(check_status(404), Err(ScheduleError::Transport));
    assert_eq!(check_status(500), Err(ScheduleError::Transport));
}
