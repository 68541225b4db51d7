use csv2sh::text::split_lines;
use csv2sh::text::split_str;
use csv2sh::timestamp::format_timestamp;
use csv2sh::timestamp::parse_timestamp;
use csv2sh::timestamp::Timestamp;
use csv2sh::users::new_users;
use csv2sh::users::User;

#[test]
fn split_str_keeps_empty_fields() {
    let fields = split_str("tag,,,,docs/ios/1.0.0", ',');
    assert_eq!(fields, vec!["tag", "", "", "", "docs/ios/1.0.0"]);
    assert_eq!(split_str("", ','), vec![""]);
    assert_eq!(split_str(",", ','), vec!["", ""]);
}

#[test]
fn split_lines_drops_only_the_trailing_empty_line() {
    assert_eq!(split_lines("a\nb\n"), vec!["a", "b"]);
    assert_eq!(split_lines("a\nb"), vec!["a", "b"]);
    assert_eq!(split_lines(""), Vec::<String>::new());
    assert_eq!(split_lines("a\n\nb\n"), vec!["a", "", "b"]);
}

#[test]
fn timestamp_round_trip_preserves_fields() {
    let t = parse_timestamp("2014/02/03 03:40:00").unwrap();
    assert_eq!(
        t,
        Timestamp { year: 2014, month: 2, day: 3, hour: 3, minute: 40, second: 0 }
    );
    assert_eq!(format_timestamp(&t), "2014-02-03T03:40:00");
    let t2 = parse_timestamp("2015/01/12 23:59:59").unwrap();
    assert_eq!(format_timestamp(&t2), "2015-01-12T23:59:59");
}

#[test]
fn leap_years_follow_the_calendar() {
    assert!(parse_timestamp("2016/02/29 00:00:00").is_some());
    assert!(parse_timestamp("2000/02/29 00:00:00").is_some());
    assert!(parse_timestamp("2015/02/29 00:00:00").is_none());
    assert!(parse_timestamp("2100/02/29 00:00:00").is_none());
    assert!(parse_timestamp("2016/04/31 00:00:00").is_none());
}

#[test]
fn strict_pattern_rejects_any_deviation() {
    assert!(parse_timestamp("2014/02/03 03:40:00 ").is_none());
    assert!(parse_timestamp(" 2014/02/03 03:40:00").is_none());
    assert!(parse_timestamp("2014/02/03T03:40:00").is_none());
    assert!(parse_timestamp("14/02/03 03:40:00").is_none());
    assert!(parse_timestamp("2014/02/03 03:40").is_none());
    assert!(parse_timestamp("").is_none());
}

#[test]
fn user_new_keeps_its_fields() {
    let u = User::new("OSAKA Taro".to_string(), "taro@example.com".to_string());
    assert_eq!(u.name, "OSAKA Taro");
    assert_eq!(u.mail, "taro@example.com");
}

#[test]
fn new_users_builds_the_registry_in_table_order() {
    let reg = new_users("ID,NAME,EMAIL\ntaro,OSAKA Taro,taro@example.com\nhanako,Tokyo Hanako,hanako@example.org\n")
        .unwrap();
    let taro = reg.lookup(&"taro".to_string()).unwrap();
    assert_eq!(taro.name, "OSAKA Taro");
    assert_eq!(taro.mail, "taro@example.com");
    let hanako = reg.lookup(&"hanako".to_string()).unwrap();
    assert_eq!(hanako.name, "Tokyo Hanako");
    assert!(reg.lookup(&"nobody".to_string()).is_none());
}
