use ortseam_gui::sample::{reference_date, reference_from, DateTime};

fn at(year: i32, month: u32, day: u32, hour: u32, minute: u32) -> DateTime {
    DateTime { year, month, day, hour, minute }
}

#[test]
fn a_date_and_time_is_read_to_the_minute() {
    assert_eq!(reference_date(" 2026-07-01 08:30 "), Ok(Some(at(2026, 7, 1, 8, 30))));
}

#[test]
fn a_date_alone_means_midnight() {
    assert_eq!(reference_date("2026-07-01"), Ok(Some(at(2026, 7, 1, 0, 0))));
}

#[test]
fn blank_text_clears_the_reference_date() {
    assert_eq!(reference_date(""), Ok(None));
    assert_eq!(reference_date(" \t "), Ok(None));
}

#[test]
fn other_text_is_refused_by_name() {
    assert_eq!(
        reference_date(" tomorrow "),
        Err("\"tomorrow\" is not YYYY-MM-DD or YYYY-MM-DD HH:MM".to_string())
    );
    assert!(reference_date("2026-13-01").is_err());
}

#[test]
fn the_first_reading_that_succeeds_wins() {
    let moment = at(2025, 1, 2, 3, 4);
    assert_eq!(reference_from(Some(moment), Some((1999, 9, 9)), "\"x\""), Ok(moment));
    assert_eq!(reference_from(None, Some((1999, 9, 9)), "\"x\""), Ok(at(1999, 9, 9, 0, 0)));
    assert_eq!(
        reference_from(None, None, "\"x\""),
        Err("\"x\" is not YYYY-MM-DD or YYYY-MM-DD HH:MM".to_string())
    );
}
