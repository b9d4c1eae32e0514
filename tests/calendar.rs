use tasker::calendar::{is_authenticated, next_meeting_at, parse_ical_datetime, get_next_meeting};
use tasker::task::Timestamp;

fn at(secs: i64) -> Timestamp {
    Timestamp { secs, nanos: 0 }
}

#[test]
fn parses_utc_date_time() {
    assert_eq!(parse_ical_datetime("20150515T000000Z"), Some(at(1431648000)));
    assert_eq!(parse_ical_datetime("19700101T000000"), Some(at(0)));
    assert_eq!(parse_ical_datetime("20240229T123456Z"), Some(at(1709210096)));
}

#[test]
fn rejects_short_or_invalid_date_times() {
    assert_eq!(parse_ical_datetime("20150515"), None);
    assert_eq!(parse_ical_datetime(""), None);
    assert_eq!(parse_ical_datetime("20230229T000000Z"), None);
    assert_eq!(parse_ical_datetime("20231301T000000Z"), None);
    assert_eq!(parse_ical_datetime("20230101T240000Z"), None);
    assert_eq!(parse_ical_datetime("20230101T000060Z"), None);
    assert_eq!(parse_ical_datetime("2023AB01T000000Z"), None);
    assert_eq!(parse_ical_datetime("2023-1-01T000000"), None);
}

#[test]
fn accepts_signs_as_integer_parsing_does() {
    assert_eq!(parse_ical_datetime("+970+1+1T+0+0+0"), parse_ical_datetime("09700101T000000"));
    assert!(parse_ical_datetime("-001+1+1T000000").is_some());
}

#[test]
fn authenticated_when_url_stored() {
    assert!(is_authenticated(&Some("https://example.com/cal.ics".to_string())));
    assert!(!is_authenticated(&None));
}

const FEED: &str = "BEGIN:VCALENDAR\r\nVERSION:2.0\r\n\
BEGIN:VEVENT\r\nSUMMARY:Past\r\nDTSTART:20000101T100000Z\r\nEND:VEVENT\r\n\
BEGIN:VEVENT\r\nSUMMARY:Later\r\nDTSTART:20300101T100000Z\r\nEND:VEVENT\r\n\
BEGIN:VEVENT\r\nSUMMARY:Sooner\r\nDTSTART:20290601T090000Z\r\nEND:VEVENT\r\n\
BEGIN:VEVENT\r\nDTSTART:20290101T090000Z\r\nEND:VEVENT\r\n\
BEGIN:VEVENT\r\nSUMMARY:Tie\r\nDTSTART:20290601T090000Z\r\nEND:VEVENT\r\n\
END:VCALENDAR\r\n";

#[test]
fn picks_earliest_future_meeting() {
    let now = parse_ical_datetime("20250101T000000Z").unwrap();
    let m = next_meeting_at(FEED, now).unwrap();
    assert_eq!(m.summary, "Sooner");
    assert_eq!(m.start_time, parse_ical_datetime("20290601T090000Z").unwrap());
}

#[test]
fn no_meeting_after_the_last_one() {
    let now = parse_ical_datetime("20310101T000000Z").unwrap();
    assert!(next_meeting_at(FEED, now).is_none());
    assert!(next_meeting_at("", now).is_none());
}

#[test]
fn current_time_skips_past_meetings() {
    let m = get_next_meeting(FEED);
    if let Some(m) = m {
        assert_ne!(m.summary, "Past");
    }
}
