use gymbooking::booking::{book_gym, BookGym, GymStage, CHEER};
use gymbooking::protocol::{Action, FetchFailure, Step};
use gymbooking::redirect::find_redirect_url;

const FORM_PAGE: &str = "<html><body><div class=\"panel-body\"><form action=\"x\">\
    <input type=\"hidden\" name=\"p_query\" value=\"q\">\
    <input type=\"hidden\" name=\"p_confirmed\" value=\"Y\">\
    <input type=\"hidden\" name=\"p_parameters\" value=\"ABC123\">\
    <input type=\"text\" name=\"MEMBER_NO\"></form></div></body></html>";

const MEMBER_PAGE: &str = "<html>\n<head>\n<meta http-equiv=\"refresh\" content=\"0;url=W_HU_MENU.P_DISPLAY?p_id=9\">\n</head>\n</html>";

fn confirm_page() -> String {
    let mut body = String::from("<html><body><div>");
    for k in 1..9 {
        body.push_str(&format!("<a class=\"menubutton\" href=\"other{k}\">Other</a>"));
    }
    body.push_str("<a class=\"menubutton\" href=\"W_HU_BOOK.P_CONFIRM?p_id=9\">Confirm Booking</a>");
    body.push_str("</div></body></html>");
    body
}

fn fetched(a: &Action) -> String {
    match &a.step {
        Step::Fetch(u) => u.clone(),
        other => panic!("expected a fetch, got {:?}", other),
    }
}

fn finished_with(a: &Action) -> Result<(), String> {
    match &a.step {
        Step::Finish(r) => r.clone(),
        other => panic!("expected the end, got {:?}", other),
    }
}

fn aborted_with(a: &Action) -> (String, Option<String>) {
    match &a.step {
        Step::Abort(m, d) => (m.clone(), d.clone()),
        other => panic!("expected an abort, got {:?}", other),
    }
}

fn started(enabled: bool) -> BookGym {
    let (gym, first) = book_gym("https://hub.ucd.ie/usis/W_HU_BOOK?s=1", "12345678", enabled);
    assert_eq!(gym.stage, GymStage::FormPage);
    assert!(first.notes.is_empty());
    assert_eq!(fetched(&first), "https://hub.ucd.ie/usis/W_HU_BOOK?s=1");
    gym
}

#[test]
fn redirect_address_is_read_from_the_member_page() {
    assert_eq!(find_redirect_url(MEMBER_PAGE), Some(b"W_HU_MENU.P_DISPLAY?p_id=9".to_vec()));
    assert_eq!(find_redirect_url("<html>no redirect</html>"), None);
    assert_eq!(find_redirect_url(""), None);
}

#[test]
fn redirect_skips_the_pattern_length_from_the_line_start() {
    let page = "x\r\n  <meta http-equiv=\"refresh\" content=\"0;url=ABC\">\r\nz";
    assert_eq!(find_redirect_url(page), Some(b"l=ABC".to_vec()));
    let twice = "<meta http-equiv=\"refresh\" content=\"0;url=first\">\n<meta http-equiv=\"refresh\" content=\"0;url=second\">";
    assert_eq!(find_redirect_url(twice), Some(b"first".to_vec()));
}

#[test]
fn redirect_target_has_no_quotes_or_closing_brackets() {
    let page = "<meta http-equiv=\"refresh\" content=\"0;url=a\"b>c\"d>\" />";
    let target = find_redirect_url(page).unwrap();
    assert_eq!(target, b"abcd /".to_vec());
    assert!(!target.contains(&b'"') && !target.contains(&b'>'));
}

#[test]
fn a_full_booking_conversation() {
    let mut gym = started(true);

    let a = gym.step(Ok(FORM_PAGE.to_string()));
    assert_eq!(a.notes, vec!["Sending member ID...".to_string()]);
    assert_eq!(
        fetched(&a),
        "https://hub.ucd.ie/usis/!W_HU_REPORTING.P_RUN_SQL?p_query=SW-GYMANON&p_confirmed=Y&p_parameters=ABC123&MEMBER_NO=12345678"
    );
    assert_eq!(gym.stage, GymStage::MemberPage);

    let a = gym.step(Ok(MEMBER_PAGE.to_string()));
    assert!(a.notes.is_empty());
    assert_eq!(fetched(&a), "https://hub.ucd.ie/usis/W_HU_MENU.P_DISPLAY?p_id=9");
    assert_eq!(gym.stage, GymStage::RedirectPage);

    let a = gym.step(Ok(confirm_page()));
    assert_eq!(fetched(&a), "https://hub.ucd.ie/usis/W_HU_BOOK.P_CONFIRM?p_id=9");
    assert_eq!(gym.stage, GymStage::ConfirmPage);

    let a = gym.step(Ok("<html>ok</html>".to_string()));
    assert_eq!(a.notes, vec!["Booked!".to_string(), CHEER.to_string()]);
    assert_eq!(finished_with(&a), Ok(()));
    assert_eq!(gym.stage, GymStage::Done);
}

#[test]
fn without_booking_enabled_the_confirmation_is_not_sent() {
    let mut gym = started(false);
    gym.step(Ok(FORM_PAGE.to_string()));
    gym.step(Ok(MEMBER_PAGE.to_string()));
    let a = gym.step(Ok(confirm_page()));
    assert_eq!(finished_with(&a), Err("Booking failed.".to_string()));
    assert_eq!(gym.stage, GymStage::Done);
}

#[test]
fn the_form_page_must_hold_the_parameters() {
    let mut gym = started(true);
    let a = gym.step(Ok("<html><body></body></html>".to_string()));
    assert_eq!(aborted_with(&a), ("p_parameters element does not exist.".to_string(), None));
    assert_eq!(gym.stage, GymStage::Done);

    let mut gym = started(true);
    let page = "<div class=\"panel-body\"><form><input><input><input name=\"p\"></form></div>";
    let a = gym.step(Ok(page.to_string()));
    assert_eq!(aborted_with(&a), ("Value of p_parameters does not exist".to_string(), None));
}

#[test]
fn an_unreachable_form_page_stops_the_run() {
    let mut gym = started(true);
    let a = gym.step(Err(FetchFailure::NoResponse));
    assert_eq!(
        aborted_with(&a),
        (
            "Unable to get booking reponse".to_string(),
            Some("https://hub.ucd.ie/usis/W_HU_BOOK?s=1 did not respond".to_string())
        )
    );
}

#[test]
fn later_fetch_failures_end_the_booking_with_a_message() {
    let mut gym = started(true);
    gym.step(Ok(FORM_PAGE.to_string()));
    let a = gym.step(Err(FetchFailure::UnreadableBody));
    assert_eq!(
        finished_with(&a),
        Err("Could not read response body from https://hub.ucd.ie/usis/!W_HU_REPORTING.P_RUN_SQL?p_query=SW-GYMANON&p_confirmed=Y&p_parameters=ABC123&MEMBER_NO=12345678".to_string())
    );
}

#[test]
fn a_member_page_without_redirect_ends_the_booking() {
    let mut gym = started(true);
    gym.step(Ok(FORM_PAGE.to_string()));
    let a = gym.step(Ok("<html>sorry</html>".to_string()));
    assert_eq!(finished_with(&a), Err("Could not find redirect URL.".to_string()));
}

#[test]
fn a_redirect_that_cuts_a_character_stops_the_run() {
    let mut gym = started(true);
    gym.step(Ok(FORM_PAGE.to_string()));
    let page = "aééééééééééééééééééééé<meta http-equiv=\"refresh\" content=\"0;url=x\">";
    let a = gym.step(Ok(page.to_string()));
    let (msg, detail) = aborted_with(&a);
    assert_eq!(msg, "byte index 42 is not a char boundary");
    assert_eq!(detail, None);
    assert_eq!(gym.stage, GymStage::Done);
}

#[test]
fn a_page_without_the_confirm_button_ends_the_booking() {
    let mut gym = started(true);
    gym.step(Ok(FORM_PAGE.to_string()));
    gym.step(Ok(MEMBER_PAGE.to_string()));
    let a = gym.step(Ok("<div><a class=\"menubutton\" href=\"x\">Only</a></div>".to_string()));
    assert_eq!(
        finished_with(&a),
        Err("Cound not find 'Confirm Booking' button. Aborting.".to_string())
    );
}
