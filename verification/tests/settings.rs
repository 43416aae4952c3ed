use gymbooking::settings::{
    booking_banner, check_member_id, check_submission, trim_member_number, Background, BookedData,
    Settings,
};

#[test]
fn settings_start_with_the_grizzly_and_no_sound() {
    let s = Settings::new();
    assert_eq!(s.backround, Background::Grizzly);
    assert!(!s.audio);
    assert_eq!(Settings::default(), s);
}

#[test]
fn background_is_chosen_by_name() {
    let mut s = Settings { backround: Background::Grizzly, audio: true };
    s.set_background("Ronnie");
    assert_eq!(s.backround, Background::Ronnie);
    assert!(s.audio);
    s.set_background("Grizzly");
    assert_eq!(s.backround, Background::Grizzly);
    s.set_background("Ronnie");
    s.set_background("Arnold");
    assert_eq!(s.backround, Background::Grizzly);
    s.set_background("ronnie");
    assert_eq!(s.backround, Background::Grizzly);
}

#[test]
fn backgrounds_are_numbered_in_order() {
    assert_eq!(Background::Grizzly.index(), 0);
    assert_eq!(Background::Ronnie.index(), 1);
}

#[test]
fn booked_data_starts_empty() {
    assert_eq!(BookedData::new().student_number, "");
}

#[test]
fn member_id_must_be_digits() {
    assert_eq!(check_member_id("12345678"), Ok(()));
    assert_eq!(check_member_id(""), Ok(()));
    assert_eq!(check_member_id("1234a"), Err("Student number is not a number!".to_string()));
    assert_eq!(check_member_id(" 123"), Err("Student number is not a number!".to_string()));
    assert_eq!(check_member_id("١٢٣"), Err("Student number is not a number!".to_string()));
}

#[test]
fn member_number_is_trimmed_like_str_trim() {
    for s in ["  123 ", "\t\n123\r\n", "123", "", "   ", "\u{3000}12 3\u{2009}", "\u{85}x\u{a0}"] {
        assert_eq!(trim_member_number(s), s.trim());
    }
}

#[test]
fn submissions_are_checked_in_order() {
    assert_eq!(check_submission(true, "123"), Err("You already submitted!".to_string()));
    assert_eq!(check_submission(true, ""), Err("You already submitted!".to_string()));
    assert_eq!(check_submission(false, "  "), Err("ERROR: Student number is empty!".to_string()));
    assert_eq!(check_submission(false, "12 3"), Err("ERROR: Student number is not a number!".to_string()));
    assert_eq!(check_submission(false, " 12345678\n"), Ok(()));
}

#[test]
fn the_banner_names_what_is_booked() {
    assert_eq!(
        booking_banner(None, "07:00", "123"),
        vec![
            "Booking Poolside gym:".to_string(),
            "    Time: 07:00".to_string(),
            "    Student number: 123".to_string()
        ]
    );
    assert_eq!(booking_banner(Some("Spin"), "18:00", "9")[0], "Booking Spin class:");
}
