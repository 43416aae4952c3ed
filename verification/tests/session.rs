use gymbooking::book_type::{BookType, CLASSES_URL, GYM_URL, NANOS_PER_HOUR, NANOS_PER_MINUTE, NANOS_PER_SECOND};
use gymbooking::booking::{GymStage, CHEER};
use gymbooking::clock::{
    booking_time_of_day, sleep_until_book_time, wait_step, BookWait, WaitPhase, WaitStage, WaitStep,
};
use gymbooking::protocol::{Action, Event, FetchFailure, Step};
use gymbooking::session::{
    class_error_message, fault_message, join_names, main_loop, timeslot_error_message, Session,
    SessionStage, FOUND_NOTE, LINK_NOTE,
};
use gymbooking::table::{BookingTable, TableFault};

/// 2024-01-15 00:00 UTC, when Dublin keeps GMT.
const WINTER_MIDNIGHT: i128 = 1_705_276_800 * NANOS_PER_SECOND;
/// 2024-07-15 00:00 UTC, when Dublin keeps Irish Standard Time (UTC+1).
const SUMMER_MIDNIGHT: i128 = 1_721_001_600 * NANOS_PER_SECOND;

fn table_page(rows: &[(&str, &str, &str, &str)]) -> String {
    let mut body = String::from(
        "<html><body><table id=\"SW300-1Q\"><thead><tr><th>Time</th></tr></thead><tbody>",
    );
    for (time, class, kind, book) in rows {
        body.push_str(&format!(
            "<tr><td>{time}</td><td>{class}</td><td>60 mins</td><td>Poolside</td><td>{kind}</td><td>{book}</td></tr>"
        ));
    }
    body.push_str("</tbody></table></body></html>");
    body
}

const FORM_PAGE: &str = "<div class=\"panel-body\"><form><input name=\"a\"><input name=\"b\">\
    <input name=\"p_parameters\" value=\"P1\"></form></div>";
const MEMBER_PAGE: &str = "<head>\n<meta http-equiv=\"refresh\" content=\"0;url=NEXT?x=1\">\n</head>";

fn confirm_page() -> String {
    let mut body = String::from("<div>");
    for k in 1..9 {
        body.push_str(&format!("<a class=\"menubutton\" href=\"o{k}\">o</a>"));
    }
    body.push_str("<a class=\"menubutton\" href=\"CONFIRM?x=1\">Confirm</a></div>");
    body
}

fn fetched(a: &Action) -> String {
    match &a.step {
        Step::Fetch(u) => u.clone(),
        other => panic!("expected a fetch, got {:?}", other),
    }
}

fn finished_with(a: &Action) -> Result<(), String> {
    match &a.step {
        Step::Finish(r) => r.clone(),
        other => panic!("expected the end, got {:?}", other),
    }
}

fn reads_clock(a: &Action) -> bool {
    matches!(a.step, Step::ReadClock)
}

fn page(body: &str) -> Event {
    Event::Page(Ok(body.to_string()))
}

fn loaded_gym_session(time: &str, enabled: bool) -> Session {
    let (mut s, first) = main_loop(time, "12345678", None, enabled);
    assert_eq!(fetched(&first), GYM_URL);
    let a = s.step(page(&table_page(&[
        ("07:00", "Gym", "Public", "Full"),
        ("08:00", "Gym", "Public", ""),
    ])));
    assert!(reads_clock(&a));
    assert_eq!(s.stage, SessionStage::Waiting);
    s
}

#[test]
fn time_must_be_hours_and_minutes() {
    for bad in ["7:00", "24:00", "07:60", "07:00 ", "0700", "", "ab:cd"] {
        let (s, a) = main_loop(bad, "1", None, true);
        assert_eq!(s.stage, SessionStage::Done);
        assert_eq!(finished_with(&a), Err(format!("Cannot parse time '{bad}'.")));
    }
}

#[test]
fn a_run_starts_by_fetching_the_table() {
    let (s, a) = main_loop("07:30", "12345678", None, true);
    assert_eq!(s.stage, SessionStage::LoadTable);
    assert_eq!(s.timeslot, 7 * NANOS_PER_HOUR + 30 * NANOS_PER_MINUTE);
    assert_eq!(s.table.book_type, BookType::Gym);
    assert_eq!(fetched(&a), GYM_URL);
    let (s, a) = main_loop("23:59", "1", Some("Spin"), false);
    assert_eq!(s.timeslot, 23 * NANOS_PER_HOUR + 59 * NANOS_PER_MINUTE);
    assert_eq!(s.table.book_type, BookType::Classes);
    assert_eq!(s.table.book_class, Some("Spin".to_string()));
    assert_eq!(fetched(&a), CLASSES_URL);
}

#[test]
fn an_unknown_time_is_answered_with_the_valid_ones() {
    let (mut s, _) = main_loop("09:00", "1", None, true);
    let a = s.step(page(&table_page(&[
        ("07:00", "Gym", "Public", "Book"),
        ("08:00", "Gym", "Public", "Book"),
    ])));
    assert_eq!(
        finished_with(&a),
        Err("Time '09:00' is not a valid time slot.\nValid time slots: 07:00, 08:00".to_string())
    );
    assert_eq!(s.stage, SessionStage::Done);

    let (mut s, _) = main_loop("09:00", "1", None, true);
    let a = s.step(page(&table_page(&[])));
    assert_eq!(
        finished_with(&a),
        Err("Time '09:00' is not a valid time slot.\nToo late idiot! No more available time slots today.".to_string())
    );
}

#[test]
fn an_unknown_class_is_answered_with_the_valid_ones() {
    let rows = [
        ("18:00", "Spin", "Public", "Book"),
        ("07:00", "Boxing", "Public", "Book"),
        ("12:00", "Aqua", "Member", "Book"),
        ("19:00", "Spin", "Public", "Book"),
    ];
    let (mut s, _) = main_loop("18:00", "1", Some("Aqua"), true);
    let a = s.step(page(&table_page(&rows)));
    assert_eq!(
        finished_with(&a),
        Err("Class 'Aqua' is not a valid class.\nValid classes: Boxing, Spin".to_string())
    );

    let (mut s, _) = main_loop("17:00", "1", Some("Spin"), true);
    let a = s.step(page(&table_page(&rows)));
    assert_eq!(
        finished_with(&a),
        Err("Time '17:00' is not a valid time slot.\nValid time slots: 18:00, 19:00".to_string())
    );

    let (mut s, _) = main_loop("18:00", "1", Some("Yoga"), true);
    let a = s.step(page(&table_page(&[])));
    assert_eq!(
        finished_with(&a),
        Err("Class 'Yoga' is not a valid class.\nToo late idiot! No more available classes today.".to_string())
    );

    let (mut s, _) = main_loop("18:00", "1", Some("Spin"), true);
    let a = s.step(page(&table_page(&rows)));
    assert!(reads_clock(&a));
    assert_eq!(s.stage, SessionStage::Waiting);
    assert_eq!(s.wait.open, 15 * NANOS_PER_MINUTE);
}

#[test]
fn an_unreachable_table_ends_the_run() {
    let (mut s, _) = main_loop("07:00", "1", None, true);
    let a = s.step(Event::Page(Err(FetchFailure::NoResponse)));
    assert_eq!(finished_with(&a), Err(format!("{GYM_URL} did not respond")));
    assert_eq!(s.stage, SessionStage::Done);
}

#[test]
fn a_short_row_stops_the_run() {
    let (mut s, _) = main_loop("09:00", "1", None, true);
    let body = "<table id=\"SW300-1Q\"><thead></thead><tbody><tr><td>09:00</td><td>Gym</td></tr></tbody></table>";
    let a = s.step(page(body));
    match &a.step {
        Step::Abort(m, None) => assert_eq!(m, "index out of bounds: the len is 2 but the index is 2"),
        other => panic!("expected an abort, got {:?}", other),
    }
}

#[test]
fn an_open_slot_is_booked_at_once() {
    let mut s = loaded_gym_session("07:00", true);
    let a = s.step(Event::Clock(WINTER_MIDNIGHT + 6 * NANOS_PER_HOUR));
    assert_eq!(s.stage, SessionStage::Reload);
    assert!(a.notes.is_empty());
    assert_eq!(fetched(&a), GYM_URL);
}

#[test]
fn a_full_slot_ends_the_run() {
    let mut s = loaded_gym_session("07:00", true);
    s.step(Event::Clock(WINTER_MIDNIGHT + 6 * NANOS_PER_HOUR));
    let a = s.step(page(&table_page(&[("07:00", "Gym", "Public", "Full")])));
    assert_eq!(
        finished_with(&a),
        Err("The requested timeslot is Full! Next time pray to kapakoulak!".to_string())
    );
    assert_eq!(s.stage, SessionStage::Done);
}

#[test]
fn an_empty_table_on_reload_ends_the_run() {
    let mut s = loaded_gym_session("07:00", true);
    s.step(Event::Clock(WINTER_MIDNIGHT + 6 * NANOS_PER_HOUR));
    let a = s.step(page(&table_page(&[])));
    assert_eq!(
        finished_with(&a),
        Err("Unreachable (or not)! No rows found in book tabl!".to_string())
    );
}

#[test]
fn a_run_books_once_the_link_appears() {
    let mut s = loaded_gym_session("08:00", true);
    let a = s.step(Event::Clock(WINTER_MIDNIGHT + 7 * NANOS_PER_HOUR));
    assert_eq!(fetched(&a), GYM_URL);

    let a = s.step(page(&table_page(&[("08:00", "Gym", "Public", "")])));
    assert_eq!(a.notes, vec![LINK_NOTE.to_string()]);
    assert_eq!(fetched(&a), GYM_URL);
    assert_eq!(s.stage, SessionStage::Reload);

    let a = s.step(page(&table_page(&[("07:00", "Gym", "Public", "Book")])));
    assert!(a.notes.is_empty());
    assert_eq!(fetched(&a), GYM_URL);
    assert_eq!(s.stage, SessionStage::Reload);

    let a = s.step(page(&table_page(&[
        ("08:00", "Gym", "Public", "<a href=\"W_HU_BOOK?slot=8\">Book</a>"),
    ])));
    assert_eq!(a.notes, vec![FOUND_NOTE.to_string()]);
    assert_eq!(fetched(&a), "https://hub.ucd.ie/usis/W_HU_BOOK?slot=8");
    assert_eq!(s.stage, SessionStage::Booking);

    let a = s.step(page(FORM_PAGE));
    assert_eq!(
        fetched(&a),
        "https://hub.ucd.ie/usis/!W_HU_REPORTING.P_RUN_SQL?p_query=SW-GYMANON&p_confirmed=Y&p_parameters=P1&MEMBER_NO=12345678"
    );
    let a = s.step(page(MEMBER_PAGE));
    assert_eq!(fetched(&a), "https://hub.ucd.ie/usis/NEXT?x=1");
    let a = s.step(page(&confirm_page()));
    assert_eq!(fetched(&a), "https://hub.ucd.ie/usis/CONFIRM?x=1");
    assert_eq!(s.gym.stage, GymStage::ConfirmPage);
    let a = s.step(page("<p>done</p>"));
    assert_eq!(a.notes, vec!["Booked!".to_string(), CHEER.to_string()]);
    assert_eq!(finished_with(&a), Ok(()));
    assert_eq!(s.stage, SessionStage::Done);
}

#[test]
fn a_run_without_booking_enabled_fails_at_the_confirmation() {
    let mut s = loaded_gym_session("08:00", false);
    s.step(Event::Clock(WINTER_MIDNIGHT + 7 * NANOS_PER_HOUR));
    s.step(page(&table_page(&[("08:00", "Gym", "Public", "<a href=\"B\">Book</a>")])));
    s.step(page(FORM_PAGE));
    s.step(page(MEMBER_PAGE));
    let a = s.step(page(&confirm_page()));
    assert_eq!(finished_with(&a), Err("Booking failed.".to_string()));
    assert_eq!(s.stage, SessionStage::Done);
}

#[test]
fn a_run_waits_for_the_slot_to_open() {
    let mut s = loaded_gym_session("07:00", true);
    let four = WINTER_MIDNIGHT + 4 * NANOS_PER_HOUR;
    let a = s.step(Event::Clock(four));
    assert!(reads_clock(&a));
    assert!(a.notes.is_empty());
    let a = s.step(Event::Clock(four));
    assert_eq!(
        a.notes,
        vec!["Current time is 04:00. Sleeping for 01 hrs 00 mins 00 secs. Do not close this window.".to_string()]
    );
    assert!(reads_clock(&a));
    let a = s.step(Event::Clock(four));
    assert!(reads_clock(&a));
    let target = WINTER_MIDNIGHT + 5 * NANOS_PER_HOUR + 1_000_000;
    assert_eq!(s.wait.stage, WaitStage::Waiting(target, WaitPhase::Check));
    let a = s.step(Event::Clock(four));
    assert!(reads_clock(&a));
    let a = s.step(Event::Clock(four));
    assert!(matches!(a.step, Step::Sleep(d) if d == 5 * NANOS_PER_MINUTE));
    let a = s.step(Event::Slept);
    assert!(reads_clock(&a));
    assert_eq!(s.stage, SessionStage::Waiting);
    let a = s.step(Event::Clock(target - 1));
    assert!(reads_clock(&a));
    assert_eq!(s.stage, SessionStage::Waiting);
    let a = s.step(Event::Clock(target - 1));
    assert!(reads_clock(&a));
    let a = s.step(Event::Clock(target - 1));
    assert!(matches!(a.step, Step::Sleep(1)));
    s.step(Event::Slept);
    let a = s.step(Event::Clock(target));
    assert_eq!(fetched(&a), GYM_URL);
    assert_eq!(s.stage, SessionStage::Reload);
}

#[test]
fn the_waiting_loop_sleeps_less_as_the_target_nears() {
    let t = 1_000 * NANOS_PER_HOUR;
    assert_eq!(wait_step(t, WaitPhase::Check, t), WaitStep::Done);
    assert_eq!(wait_step(t, WaitPhase::Check, t + 5), WaitStep::Done);
    assert_eq!(wait_step(t, WaitPhase::Check, t - 1), WaitStep::ReadClock(WaitPhase::Measure));
    assert_eq!(wait_step(t, WaitPhase::Measure, t - 31 * NANOS_PER_MINUTE), WaitStep::Sleep(5 * NANOS_PER_MINUTE));
    assert_eq!(wait_step(t, WaitPhase::Measure, t - 30 * NANOS_PER_MINUTE), WaitStep::Sleep(NANOS_PER_MINUTE));
    assert_eq!(wait_step(t, WaitPhase::Measure, t - 11 * NANOS_PER_MINUTE), WaitStep::Sleep(NANOS_PER_MINUTE));
    assert_eq!(wait_step(t, WaitPhase::Measure, t - 10 * NANOS_PER_MINUTE), WaitStep::ReadClock(WaitPhase::Fine));
    assert_eq!(wait_step(t, WaitPhase::Fine, t - 10 * NANOS_PER_MINUTE), WaitStep::Sleep(1_000_000));
    assert_eq!(wait_step(t, WaitPhase::Fine, t - 500_000), WaitStep::Sleep(500_000));
    assert_eq!(wait_step(t, WaitPhase::Fine, t + 7), WaitStep::Sleep(-7));
}

#[test]
fn the_waiting_loop_never_sleeps_past_the_target() {
    let t = 50 * NANOS_PER_HOUR;
    for left in [1i128, 999_999, 1_000_000, 9 * NANOS_PER_MINUTE, 20 * NANOS_PER_MINUTE, 3 * NANOS_PER_HOUR] {
        for phase in [WaitPhase::Check, WaitPhase::Measure, WaitPhase::Fine] {
            match wait_step(t, phase, t - left) {
                WaitStep::Sleep(d) => assert!(d <= left),
                WaitStep::Done => panic!("stopped before the target"),
                WaitStep::ReadClock(_) => {}
            }
        }
    }
}

#[test]
fn local_time_follows_dublin_summer_time() {
    assert_eq!(booking_time_of_day(WINTER_MIDNIGHT + 12 * NANOS_PER_HOUR), Some(12 * NANOS_PER_HOUR));
    assert_eq!(booking_time_of_day(SUMMER_MIDNIGHT + 12 * NANOS_PER_HOUR), Some(13 * NANOS_PER_HOUR));
    assert_eq!(booking_time_of_day(SUMMER_MIDNIGHT + 23 * NANOS_PER_HOUR + 5), Some(5));
    assert_eq!(booking_time_of_day(WINTER_MIDNIGHT - 1), Some(24 * NANOS_PER_HOUR - 1));
}

#[test]
fn waiting_starts_with_a_clock_reading() {
    let table = BookingTable::new(Some("Spin"));
    let (w, a) = sleep_until_book_time(&table, 18 * NANOS_PER_HOUR);
    assert_eq!(w.timeslot, 18 * NANOS_PER_HOUR);
    assert_eq!(w.open, 15 * NANOS_PER_MINUTE);
    assert_eq!(w.stage, WaitStage::ClockForWait);
    assert!(reads_clock(&a));
    assert!(a.notes.is_empty());
}

#[test]
fn a_class_slot_opens_fifteen_minutes_ahead() {
    let mut w = BookWait { timeslot: 18 * NANOS_PER_HOUR, open: 15 * NANOS_PER_MINUTE, stage: WaitStage::ClockForWait };
    let a = w.step(Event::Clock(SUMMER_MIDNIGHT + 16 * NANOS_PER_HOUR + 46 * NANOS_PER_MINUTE));
    assert!(a.is_none());
    assert_eq!(w.stage, WaitStage::Done);

    let mut w = BookWait { timeslot: 18 * NANOS_PER_HOUR, open: 15 * NANOS_PER_MINUTE, stage: WaitStage::ClockForWait };
    let a = w.step(Event::Clock(SUMMER_MIDNIGHT + 16 * NANOS_PER_HOUR + 44 * NANOS_PER_MINUTE));
    assert!(reads_clock(&a.unwrap()));
    assert_eq!(w.stage, WaitStage::ClockForMessage(NANOS_PER_MINUTE + 1_000_000));

    let mut w = BookWait { timeslot: 18 * NANOS_PER_HOUR, open: 15 * NANOS_PER_MINUTE, stage: WaitStage::ClockForWait };
    let a = w.step(Event::Clock(SUMMER_MIDNIGHT + 16 * NANOS_PER_HOUR + 45 * NANOS_PER_MINUTE));
    assert!(reads_clock(&a.unwrap()));
    assert_eq!(w.stage, WaitStage::ClockForMessage(1_000_000));
}

#[test]
fn names_are_joined_with_a_separator() {
    assert_eq!(join_names(&vec![], ", "), "");
    assert_eq!(join_names(&vec!["a".to_string()], ", "), "a");
    assert_eq!(join_names(&vec!["a".to_string(), "b".to_string(), "c".to_string()], ", "), "a, b, c");
}

#[test]
fn error_messages_list_what_is_valid() {
    assert_eq!(
        class_error_message("Yoga", &vec!["Boxing".to_string()]),
        "Class 'Yoga' is not a valid class.\nValid classes: Boxing"
    );
    assert_eq!(
        timeslot_error_message("06:00", &vec![]),
        "Time '06:00' is not a valid time slot.\nToo late idiot! No more available time slots today."
    );
    assert_eq!(fault_message(TableFault::NotLoaded, false), "Html is not load. Call `BookingTable::load_html`.");
    assert_eq!(fault_message(TableFault::ShortRow(3), true), "index out of bounds: the len is 3 but the index is 3");
    assert_eq!(fault_message(TableFault::NoClassName, false), "Expected Some(&str) but found `None`");
    assert_eq!(fault_message(TableFault::NoClassName, true), "Expected  Some(&str) but found None");
}

#[test]
fn the_run_books_the_row_at_the_requested_time() {
    let mut s = loaded_gym_session("08:00", true);
    s.step(Event::Clock(WINTER_MIDNIGHT + 7 * NANOS_PER_HOUR));
    let a = s.step(page(&table_page(&[
        ("07:00", "Gym", "Public", "<a href=\"SLOT7\">Book</a>"),
        ("08:00", "Gym", "Public", "<a href=\"SLOT8\">Book</a>"),
        ("08:00", "Gym", "Public", "<a href=\"SLOT8B\">Book</a>"),
    ])));
    assert_eq!(fetched(&a), "https://hub.ucd.ie/usis/SLOT8");
    assert_eq!(s.gym.url, "https://hub.ucd.ie/usis/SLOT8");
    assert_eq!(s.gym.id, "12345678");
}

#[test]
fn a_class_run_books_its_own_class_at_that_time() {
    let rows = [
        ("18:00", "Boxing", "Public", "Full"),
        ("18:00", "Spin", "Public", "<a href=\"SPIN18\">Book</a>"),
    ];
    let (mut s, _) = main_loop("18:00", "12345678", Some("Spin"), true);
    let a = s.step(page(&table_page(&rows)));
    assert!(reads_clock(&a));
    let a = s.step(Event::Clock(SUMMER_MIDNIGHT + 17 * NANOS_PER_HOUR));
    assert_eq!(fetched(&a), CLASSES_URL);
    let a = s.step(page(&table_page(&rows)));
    assert_eq!(a.notes, vec![FOUND_NOTE.to_string()]);
    assert_eq!(fetched(&a), "https://hub.ucd.ie/usis/SPIN18");
    assert_eq!(s.stage, SessionStage::Booking);

    let (mut s, _) = main_loop("18:00", "12345678", Some("Spin"), true);
    s.step(page(&table_page(&rows)));
    s.step(Event::Clock(SUMMER_MIDNIGHT + 17 * NANOS_PER_HOUR));
    let a = s.step(page(&table_page(&[
        ("18:00", "Boxing", "Public", "<a href=\"BOX18\">Book</a>"),
        ("18:00", "Spin", "Public", ""),
    ])));
    assert_eq!(a.notes, vec![LINK_NOTE.to_string()]);
    assert_eq!(fetched(&a), CLASSES_URL);
    assert_eq!(s.stage, SessionStage::Reload);
}
