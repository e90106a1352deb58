use basic_activitypub_server::date::{
    current_date, gmt_label, http_date, is_fresh, parse_http_date, DEFAULT_WINDOW_SECONDS,
};

#[test]
fn http_date_of_a_known_moment() {
    assert_eq!(http_date(1668488999).unwrap(), "Tue, 15 Nov 2022 05:09:59 GMT");
    assert_eq!(http_date(0).unwrap(), "Thu, 01 Jan 1970 00:00:00 GMT");
    assert_eq!(http_date(951782400).unwrap(), "Tue, 29 Feb 2000 00:00:00 GMT");
}

#[test]
fn http_date_ends_with_the_label_gmt() {
    for seconds in [1i64, 86399, 1234567890, 4102444800] {
        let text = http_date(seconds).unwrap();
        assert!(text.ends_with(" GMT"));
        assert!(!text.contains("+0000"));
    }
}

#[test]
fn http_date_has_no_text_for_moments_out_of_range() {
    assert_eq!(http_date(i64::MAX), None);
    assert_eq!(http_date(i64::MIN), None);
    assert_eq!(http_date(-2208988801), None);
    assert_eq!(http_date(-2208988800).unwrap(), "Mon, 01 Jan 1900 00:00:00 GMT");
}

#[test]
fn gmt_label_replaces_the_numeric_zone() {
    assert_eq!(gmt_label("Tue, 15 Nov 2022 05:09:59 +0000"), "Tue, 15 Nov 2022 05:09:59 GMT");
    assert_eq!(gmt_label("Tue, 15 Nov 2022 05:09:59 +0100"), "Tue, 15 Nov 2022 05:09:59 +0100");
    assert_eq!(gmt_label("+0000+0000"), "GMTGMT");
    assert_eq!(gmt_label("+000"), "+000");
    assert_eq!(gmt_label(""), "");
}

#[test]
fn parse_http_date_reads_both_zone_forms() {
    assert_eq!(parse_http_date("Tue, 15 Nov 2022 05:09:59 GMT"), Some(1668488999));
    assert_eq!(parse_http_date("Tue, 15 Nov 2022 05:09:59 +0000"), Some(1668488999));
    assert_eq!(parse_http_date("Tue, 15 Nov 2022 06:09:59 +0100"), Some(1668488999));
    assert_eq!(parse_http_date("Thu, 01 Jan 1970 00:00:00 GMT"), Some(0));
}

#[test]
fn parse_http_date_refuses_other_texts() {
    assert_eq!(parse_http_date(""), None);
    assert_eq!(parse_http_date("yesterday"), None);
    assert_eq!(parse_http_date("2022-11-15T05:09:59Z"), None);
    assert_eq!(parse_http_date("Tue, 15 Nov 2022 05:09:59"), None);
}

#[test]
fn parse_http_date_reads_what_http_date_wrote() {
    for seconds in [0i64, 1, 1668488999, 4102444800] {
        assert_eq!(parse_http_date(&http_date(seconds).unwrap()), Some(seconds));
    }
}

#[test]
fn current_date_names_the_present_moment() {
    let (now, text) = current_date();
    assert!(now > 1_600_000_000);
    assert_eq!(text, http_date(now));
    assert_eq!(parse_http_date(&text.unwrap()), Some(now));
}

#[test]
fn is_fresh_within_the_window_on_either_side() {
    assert_eq!(DEFAULT_WINDOW_SECONDS, 300);
    assert!(is_fresh(1000, 1000, 0));
    assert!(is_fresh(1000, 700, 300));
    assert!(is_fresh(700, 1000, 300));
    assert!(!is_fresh(1000, 699, 300));
    assert!(!is_fresh(699, 1000, 300));
    assert!(!is_fresh(1000, 400, 300));
    assert!(is_fresh(1000, 940, 300));
}

#[test]
fn is_fresh_at_the_limits_of_the_integers() {
    assert!(!is_fresh(i64::MAX, i64::MIN, 300));
    assert!(!is_fresh(i64::MIN, i64::MAX, 300));
    assert!(is_fresh(i64::MAX, i64::MIN, u64::MAX));
    assert!(is_fresh(i64::MIN, i64::MAX, u64::MAX));
    assert!(!is_fresh(i64::MAX, i64::MIN, u64::MAX - 1));
    assert!(is_fresh(i64::MAX, i64::MAX, 0));
}
