use shinbun::dates::{blank, format_entry_date};

#[test]
fn no_date_is_blank() {
    assert_eq!(blank(), "     ");
    assert_eq!(format_entry_date(None), "     ");
    assert_eq!(format_entry_date(Some("")), "     ");
    assert_eq!(format_entry_date(Some("yesterday")), "     ");
    assert_eq!(format_entry_date(Some("2024-13-01")), "     ");
}

#[test]
fn dates_with_a_time_show_day_and_month() {
    assert_eq!(format_entry_date(Some("2024-05-02T10:00:00Z")), "02 May");
    assert_eq!(format_entry_date(Some("1996-12-19T16:39:57-08:00")), "19 Dec");
    assert_eq!(format_entry_date(Some("Wed, 18 Feb 2015 23:16:09 GMT")), "18 Feb");
    assert_eq!(format_entry_date(Some("2024-05-02T23:30:00+02:00")), "02 May");
}

#[test]
fn dates_without_a_time_show_day_and_month() {
    assert_eq!(format_entry_date(Some("2024-06-01")), "01 Jun");
    assert_eq!(format_entry_date(Some("25/12/2023")), "25 Dec");
    assert_eq!(format_entry_date(Some("12/25/2023")), "25 Dec");
    assert_eq!(format_entry_date(Some("03/04/2023")), "03 Apr");
}
