use gymbooking::book_type::{BookType, CLASSES_URL, GYM_URL, NANOS_PER_HOUR, NANOS_PER_MINUTE, NANOS_PER_SECOND};
use gymbooking::clock::{format_duration, pad2};
use gymbooking::protocol::{fetch_error_message, FetchFailure};
use gymbooking::row::get_href_url;
use gymbooking::scrape::AttrLookup;
use gymbooking::text::{str_lt, to_decimal};

#[test]
fn gym_and_classes_have_their_own_pages() {
    assert_eq!(BookType::Gym.get_url(), "https://hub.ucd.ie/usis/W_HU_MENU.P_PUBLISH?p_tag=GYMBOOK");
    assert_eq!(BookType::Classes.get_url(), "https://hub.ucd.ie/usis/W_HU_MENU.P_PUBLISH?p_tag=GYMKIOSK");
    assert_eq!(BookType::Gym.get_url(), GYM_URL);
    assert_eq!(BookType::Classes.get_url(), CLASSES_URL);
}

#[test]
fn gym_opens_two_hours_ahead_classes_fifteen_minutes() {
    assert_eq!(BookType::Gym.open_time(), 2 * NANOS_PER_HOUR);
    assert_eq!(BookType::Classes.open_time(), 15 * NANOS_PER_MINUTE);
    assert_eq!(BookType::Gym.open_time(), 7_200_000_000_000);
    assert_eq!(BookType::Classes.open_time(), 900_000_000_000);
}

#[test]
fn decimal_digits() {
    assert_eq!(to_decimal(0), "0");
    assert_eq!(to_decimal(7), "7");
    assert_eq!(to_decimal(10), "10");
    assert_eq!(to_decimal(40), "40");
    assert_eq!(to_decimal(u64::MAX), "18446744073709551615");
}

#[test]
fn pad2_matches_format_width_two() {
    for v in [-120i64, -10, -9, -1, 0, 1, 9, 10, 59, 99, 100, 12345] {
        assert_eq!(pad2(v), format!("{:02}", v));
    }
    assert_eq!(pad2(i64::MIN), format!("{:02}", i64::MIN));
    assert_eq!(pad2(i64::MAX), format!("{:02}", i64::MAX));
    assert_eq!(pad2(5), "05");
    assert_eq!(pad2(-5), "-5");
}

#[test]
fn duration_is_written_as_hours_minutes_seconds() {
    assert_eq!(format_duration(0), "00 hrs 00 mins 00 secs");
    assert_eq!(format_duration(3661 * NANOS_PER_SECOND), "01 hrs 01 mins 01 secs");
    assert_eq!(format_duration(NANOS_PER_HOUR + 1_000_000), "01 hrs 00 mins 00 secs");
    assert_eq!(format_duration(999_999_999), "00 hrs 00 mins 00 secs");
    assert_eq!(format_duration(26 * NANOS_PER_HOUR + 5 * NANOS_PER_MINUTE + 7 * NANOS_PER_SECOND), "26 hrs 05 mins 07 secs");
    assert_eq!(format_duration(100 * NANOS_PER_HOUR), "100 hrs 00 mins 00 secs");
}

#[test]
fn negative_durations_carry_the_sign_in_every_part() {
    assert_eq!(format_duration(-3661 * NANOS_PER_SECOND), "-1 hrs -1 mins -1 secs");
    assert_eq!(format_duration(-59 * NANOS_PER_SECOND), "00 hrs 00 mins -59 secs");
    assert_eq!(format_duration(-999_999_999), "00 hrs 00 mins 00 secs");
}

#[test]
fn duration_parts_add_back_up() {
    for secs in [0i128, 1, 59, 60, 61, 3599, 3600, 3601, 86399, 90061, -1, -61, -3601, -90061] {
        let text = format_duration(secs * NANOS_PER_SECOND);
        let parts: Vec<i128> = text
            .split(' ')
            .filter_map(|w| w.parse::<i128>().ok())
            .collect();
        assert_eq!(parts.len(), 3);
        assert_eq!(parts[0] * 3600 + parts[1] * 60 + parts[2], secs);
        assert!(parts[1].abs() < 60 && parts[2].abs() < 60);
    }
}

#[test]
fn string_order_is_lexicographic() {
    assert!(str_lt("Boxing", "Spin"));
    assert!(!str_lt("Spin", "Boxing"));
    assert!(str_lt("Spin", "Spinning"));
    assert!(!str_lt("Spinning", "Spin"));
    assert!(!str_lt("Yoga", "Yoga"));
    assert!(str_lt("", "a"));
    assert!(!str_lt("", ""));
    assert!(str_lt("Z", "a"));
    assert!(str_lt("é", "ü"));
    for (a, b) in [("abc", "abd"), ("b", "ab"), ("Pilates", "Pilates 2"), ("ä", "z")] {
        assert_eq!(str_lt(a, b), a.to_string() < b.to_string());
        assert_eq!(str_lt(b, a), b.to_string() < a.to_string());
    }
}

#[test]
fn href_becomes_an_absolute_address() {
    let found = AttrLookup::Value("W_HU_BOOK.P_BOOK?p_id=42".to_string());
    assert_eq!(
        get_href_url(&found, "a"),
        Ok("https://hub.ucd.ie/usis/W_HU_BOOK.P_BOOK?p_id=42".to_string())
    );
}

#[test]
fn missing_link_or_href_is_explained() {
    assert_eq!(
        get_href_url(&AttrLookup::NoElement, "a.menubutton:nth-child(9)"),
        Err("Cannot find element with css selector 'a.menubutton:nth-child(9)'".to_string())
    );
    assert_eq!(
        get_href_url(&AttrLookup::NoAttr, "a"),
        Err("href is missing from element with selector 'a'".to_string())
    );
}

#[test]
fn fetch_failures_name_the_address() {
    assert_eq!(
        fetch_error_message("https://example.org/x", FetchFailure::NoResponse),
        "https://example.org/x did not respond"
    );
    assert_eq!(
        fetch_error_message("https://example.org/x", FetchFailure::UnreadableBody),
        "Could not read response body from https://example.org/x"
    );
}
