use vstd::prelude::*;

use vstd::string::StringSliceAdditionalSpecFns;
use vstd::utf8::encode_utf8;

use crate::task::{later, now, Timestamp};

verus! {

/// The earliest upcoming event of the calendar feed.
pub struct NextMeeting {
    pub summary: String,
    pub start_time: Timestamp,
}

pub ghost struct MeetingView {
    pub summary: Seq<char>,
    pub start_time: Timestamp,
}

impl View for NextMeeting {
    type V = MeetingView;

    open spec fn view(&self) -> MeetingView {
        MeetingView { summary: self.summary@, start_time: self.start_time }
    }
}

pub open spec fn meeting_view(m: Option<NextMeeting>) -> Option<MeetingView> {
    match m {
        Some(m) => Some(m@),
        None => None,
    }
}

/// A calendar is configured when a feed address has been stored.
pub fn is_authenticated(stored_url: &Option<String>) -> (r: bool)
    ensures
        r == stored_url is Some,
{
    stored_url.is_some()
}

pub open spec fn is_digit(b: u8) -> bool {
    48 <= b <= 57
}

pub open spec fn all_digits(s: Seq<u8>) -> bool {
    forall|i: int| 0 <= i < s.len() ==> is_digit(#[trigger] s[i])
}

/// The number that a string of decimal digits denotes.
pub open spec fn digits_value(s: Seq<u8>) -> int
    decreases s.len(),
{
    if s.len() == 0 {
        0
    } else {
        digits_value(s.drop_last()) * 10 + (s.last() - 48)
    }
}

pub open spec fn pow10(n: nat) -> int
    decreases n,
{
    if n == 0 {
        1
    } else {
        10 * pow10((n - 1) as nat)
    }
}

/// The integer that the text `s` denotes: an optional `+` sign (or `-`, when
/// `signed`) followed by at least one decimal digit, and nothing else.
pub open spec fn decimal_value(s: Seq<u8>, signed: bool) -> Option<int> {
    if s.len() > 1 && s[0] == 43 && all_digits(s.drop_first()) {
        Some(digits_value(s.drop_first()))
    } else if signed && s.len() > 1 && s[0] == 45 && all_digits(s.drop_first()) {
        Some(-digits_value(s.drop_first()))
    } else if s.len() > 0 && all_digits(s) {
        Some(digits_value(s))
    } else {
        None
    }
}

/// Reads the integer in bytes `start..end` of `b`, as `decimal_value` says.
fn parse_decimal(b: &[u8], start: usize, end: usize, signed: bool) -> (r: Option<i32>)
    requires
        start <= end <= b@.len(),
        end - start <= 4,
    ensures
        match decimal_value(b@.subrange(start as int, end as int), signed) {
            Some(v) => -10000 < v < 10000 && r == Some(v as i32),
            None => r is None,
        },
{
    let ghost s = b@.subrange(start as int, end as int);
    let mut first = start;
    let mut negative = false;
    if start < end && b[start] == 43 {
        first = start + 1;
    } else if signed && start < end && b[start] == 45 {
        first = start + 1;
        negative = true;
    }
    if first == end {
        return None;
    }
    let mut value: i32 = 0;
    let mut k = first;
    while k < end
        invariant
            s == b@.subrange(start as int, end as int),
            first == start ==> !(s.len() > 0 && s[0] == 43) && !(signed && s.len() > 0 && s[0] == 45),
            first == start + 1 ==> (s[0] == 43 && !negative) || (signed && s[0] == 45 && negative),
            first == start ==> !negative,
            first == start || first == start + 1,
            start <= first < end <= b@.len(),
            end - start <= 4,
            first <= k <= end,
            value == digits_value(b@.subrange(first as int, k as int)),
            0 <= value < pow10((k - first) as nat),
            all_digits(b@.subrange(first as int, k as int)),
        decreases end - k,
    {
        let c = b[k];
        if !(48 <= c && c <= 57) {
            proof {
                assert(b@.subrange(first as int, end as int)[k - first] == c);
                assert(!all_digits(s)) by {
                    assert(s[k - start] == c);
                }
                if first == start + 1 {
                    assert(s.drop_first() =~= b@.subrange(first as int, end as int));
                    assert(s.drop_first()[k - first] == c);
                    assert(!all_digits(s.drop_first()));
                }
            }
            return None;
        }
        proof {
            assert(pow10(0) == 1);
            assert(pow10(1) == 10);
            assert(pow10(2) == 100);
            assert(pow10(3) == 1000);
            let p = pow10((k - first) as nat);
            assert(pow10((k + 1 - first) as nat) == 10 * p);
            assert(value * 10 + (c - 48) < 10 * p && value * 10 + (c - 48) < 10000) by (nonlinear_arith)
                requires
                    0 <= value < p,
                    p <= 1000,
                    0 <= c - 48 <= 9,
            ;
            assert(b@.subrange(first as int, k + 1).drop_last() =~= b@.subrange(first as int, k as int));
        }
        value = value * 10 + (c - 48) as i32;
        k += 1;
    }
    proof {
        assert(pow10(0) == 1);
        assert(pow10(1) == 10);
        assert(pow10(2) == 100);
        assert(pow10(3) == 1000);
        assert(pow10(4) == 10000);
        if first == start + 1 {
            assert(s.drop_first() =~= b@.subrange(first as int, end as int));
        } else {
            assert(s =~= b@.subrange(first as int, end as int));
        }
    }
    Some(
        if negative {
            -value
        } else {
            value
        },
    )
}

pub open spec fn is_leap_year(y: int) -> bool {
    (y % 4 == 0 && y % 100 != 0) || y % 400 == 0
}

pub open spec fn days_in_month(y: int, m: int) -> int {
    if m == 2 {
        if is_leap_year(y) {
            29
        } else {
            28
        }
    } else if m == 4 || m == 6 || m == 9 || m == 11 {
        30
    } else {
        31
    }
}

/// A day of the proleptic Gregorian calendar and a time of day without a
/// leap second.
pub open spec fn valid_date_time(y: int, mo: int, d: int, h: int, mi: int, s: int) -> bool {
    &&& 1 <= mo <= 12
    &&& 1 <= d <= days_in_month(y, mo)
    &&& 0 <= h < 24
    &&& 0 <= mi < 60
    &&& 0 <= s < 60
}

/// Days from 1970-01-01 to the given day of the proleptic Gregorian
/// calendar, counting years from March so that the leap day ends a year.
pub open spec fn days_from_civil(y: int, mo: int, d: int) -> int {
    let ya = if mo <= 2 {
        y - 1
    } else {
        y
    };
    let mp = (mo + 9) % 12;
    365 * ya + ya / 4 - ya / 100 + ya / 400 + (153 * mp + 2) / 5 + d - 1 - 719468
}

/// Seconds from the Unix epoch to the given UTC date and time.
pub open spec fn utc_seconds(y: int, mo: int, d: int, h: int, mi: int, s: int) -> int {
    days_from_civil(y, mo, d) * 86400 + h * 3600 + mi * 60 + s
}

/// Relies on chrono's `TimeZone::with_ymd_and_hms` for `Utc`: `None` unless the
/// date exists and the time is valid (no leap second), otherwise the one
/// instant at that date and time, whole seconds, read back with `timestamp`
/// (days since the epoch times 86400 plus the seconds of the day).
#[verifier::external_body]
fn utc_from_fields(year: i32, month: u32, day: u32, hour: u32, minute: u32, second: u32) -> (r: Option<
    Timestamp,
>)
    requires
        -10000 < year < 10000,
    ensures
        r is Some <==> valid_date_time(
            year as int,
            month as int,
            day as int,
            hour as int,
            minute as int,
            second as int,
        ),
        r matches Some(t) ==> t.nanos == 0 && t.secs == utc_seconds(
            year as int,
            month as int,
            day as int,
            hour as int,
            minute as int,
            second as int,
        ),
{
    chrono::TimeZone::with_ymd_and_hms(&chrono::Utc, year, month, day, hour, minute, second).single().map(
        |d| Timestamp { secs: d.timestamp(), nanos: d.timestamp_subsec_nanos() },
    )
}

/// The instant that an iCalendar date-time `YYYYMMDDTHHMMSS` denotes, read
/// from its first fifteen bytes; anything after them is ignored.
pub open spec fn ical_datetime(b: Seq<u8>) -> Option<Timestamp> {
    if b.len() < 15 {
        None
    } else {
        let y = decimal_value(b.subrange(0, 4), true);
        let mo = decimal_value(b.subrange(4, 6), false);
        let d = decimal_value(b.subrange(6, 8), false);
        let h = decimal_value(b.subrange(9, 11), false);
        let mi = decimal_value(b.subrange(11, 13), false);
        let s = decimal_value(b.subrange(13, 15), false);
        if y is Some && mo is Some && d is Some && h is Some && mi is Some && s is Some && valid_date_time(
            y->0,
            mo->0,
            d->0,
            h->0,
            mi->0,
            s->0,
        ) {
            Some(Timestamp { secs: utc_seconds(y->0, mo->0, d->0, h->0, mi->0, s->0) as i64, nanos: 0 })
        } else {
            None
        }
    }
}

/// Parses an iCalendar date-time such as `20250314T093000Z` as UTC.
pub fn parse_ical_datetime(dt_str: &str) -> (r: Option<Timestamp>)
    ensures
        r == ical_datetime(dt_str.spec_bytes()),
{
    let b = dt_str.as_bytes();
    if b.len() < 15 {
        return None;
    }
    let year = parse_decimal(b, 0, 4, true);
    let month = parse_decimal(b, 4, 6, false);
    let day = parse_decimal(b, 6, 8, false);
    let hour = parse_decimal(b, 9, 11, false);
    let minute = parse_decimal(b, 11, 13, false);
    let second = parse_decimal(b, 13, 15, false);
    match (year, month, day, hour, minute, second) {
        (Some(y), Some(mo), Some(d), Some(h), Some(mi), Some(s)) => {
            if mo < 0 || d < 0 || h < 0 || mi < 0 || s < 0 {
                return None;
            }
            utc_from_fields(y, mo as u32, d as u32, h as u32, mi as u32, s as u32)
        },
        _ => None,
    }
}

/// An event property as the feed gives it: a name and, maybe, a value.
pub open spec fn property_view(p: (String, Option<String>)) -> (Seq<char>, Option<Seq<char>>) {
    (
        p.0@,
        match p.1 {
            Some(v) => Some(v@),
            None => None,
        },
    )
}

pub open spec fn event_view(e: Vec<(String, Option<String>)>) -> Seq<(Seq<char>, Option<Seq<char>>)> {
    e@.map_values(|p: (String, Option<String>)| property_view(p))
}

pub open spec fn events_view(v: Seq<Vec<(String, Option<String>)>>) -> Seq<Seq<(Seq<char>, Option<Seq<char>>)>> {
    v.map_values(|e: Vec<(String, Option<String>)>| event_view(e))
}

/// The events of an iCalendar text, each as its list of properties, in the
/// order the text gives them.
pub uninterp spec fn ical_events(data: Seq<char>) -> Seq<Seq<(Seq<char>, Option<Seq<char>>)>>;

/// Relies on `ical::IcalParser`, which reads the calendars of the text one
/// after the other; those it cannot parse are skipped, and each event of the
/// others is handed out as its properties' names and values, in order.
#[verifier::external_body]
fn calendar_events(data: &str) -> (r: Vec<Vec<(String, Option<String>)>>)
    ensures
        events_view(r@) == ical_events(data@),
{
    let mut out = Vec::new();
    for calendar in ical::IcalParser::new(data.as_bytes()) {
        if let Ok(calendar) = calendar {
            for event in calendar.events {
                out.push(event.properties.into_iter().map(|p| (p.name, p.value)).collect());
            }
        }
    }
    out
}

pub open spec fn summary_key() -> Seq<char> {
    seq!['S', 'U', 'M', 'M', 'A', 'R', 'Y']
}

pub open spec fn start_key() -> Seq<char> {
    seq!['D', 'T', 'S', 'T', 'A', 'R', 'T']
}

/// The value of the last property named `key` that has a value.
pub open spec fn last_value(props: Seq<(Seq<char>, Option<Seq<char>>)>, key: Seq<char>) -> Option<Seq<char>>
    decreases props.len(),
{
    if props.len() == 0 {
        None
    } else if props.last().0 == key && props.last().1 is Some {
        props.last().1
    } else {
        last_value(props.drop_last(), key)
    }
}

/// An event's meeting: its summary, and the start read from its `DTSTART`,
/// when both are there.
pub open spec fn event_meeting(props: Seq<(Seq<char>, Option<Seq<char>>)>) -> Option<MeetingView> {
    match last_value(props, summary_key()) {
        Some(summary) => match last_value(props, start_key()) {
            Some(v) => match ical_datetime(encode_utf8(v)) {
                Some(t) => Some(MeetingView { summary, start_time: t }),
                None => None,
            },
            None => None,
        },
        None => None,
    }
}

/// The earliest meeting of `events` that starts after `now`; of meetings
/// starting at the same instant, the first.
pub open spec fn earliest_after(events: Seq<Seq<(Seq<char>, Option<Seq<char>>)>>, now: Timestamp) -> Option<
    MeetingView,
>
    decreases events.len(),
{
    if events.len() == 0 {
        None
    } else {
        let best = earliest_after(events.drop_last(), now);
        match event_meeting(events.last()) {
            Some(m) => if later(m.start_time, now) && (best is None || later(best->0.start_time, m.start_time)) {
                Some(m)
            } else {
                best
            },
            None => best,
        }
    }
}

fn event_meeting_of(props: &Vec<(String, Option<String>)>) -> (r: Option<NextMeeting>)
    ensures
        meeting_view(r) == event_meeting(event_view(*props)),
{
    let summary_name = "SUMMARY".to_owned();
    let start_name = "DTSTART".to_owned();
    proof {
        reveal_strlit("SUMMARY");
        reveal_strlit("DTSTART");
        assert(summary_name@ =~= summary_key());
        assert(start_name@ =~= start_key());
    }
    let ghost ps = event_view(*props);
    let mut summary: Option<String> = None;
    let mut start: Option<Timestamp> = None;
    let mut i: usize = 0;
    while i < props.len()
        invariant
            ps == event_view(*props),
            summary_name@ == summary_key(),
            start_name@ == start_key(),
            i <= props@.len(),
            match summary {
                Some(v) => last_value(ps.subrange(0, i as int), summary_key()) == Some(v@),
                None => last_value(ps.subrange(0, i as int), summary_key()) is None,
            },
            start == match last_value(ps.subrange(0, i as int), start_key()) {
                Some(v) => ical_datetime(encode_utf8(v)),
                None => None,
            },
        decreases props@.len() - i,
    {
        let p = &props[i];
        proof {
            assert(ps.subrange(0, i + 1).drop_last() =~= ps.subrange(0, i as int));
            assert(ps.subrange(0, i + 1).last() == property_view(*p));
        }
        if p.0 == summary_name {
            if let Some(v) = &p.1 {
                summary = Some(v.clone());
            }
        } else if p.0 == start_name {
            if let Some(v) = &p.1 {
                start = parse_ical_datetime(v.as_str());
            }
        }
        i += 1;
    }
    assert(ps.subrange(0, props@.len() as int) =~= ps);
    match (summary, start) {
        (Some(summary), Some(start_time)) => Some(NextMeeting { summary, start_time }),
        _ => None,
    }
}

/// The earliest meeting of `events` that starts after `now`.
pub fn next_meeting_from(events: &Vec<Vec<(String, Option<String>)>>, now: Timestamp) -> (r: Option<NextMeeting>)
    ensures
        meeting_view(r) == earliest_after(events_view(events@), now),
{
    let ghost es = events_view(events@);
    let mut best: Option<NextMeeting> = None;
    let mut i: usize = 0;
    while i < events.len()
        invariant
            es == events_view(events@),
            i <= events@.len(),
            meeting_view(best) == earliest_after(es.subrange(0, i as int), now),
        decreases events@.len() - i,
    {
        proof {
            assert(es.subrange(0, i + 1).drop_last() =~= es.subrange(0, i as int));
            assert(es.subrange(0, i + 1).last() == event_view(events@[i as int]));
        }
        if let Some(m) = event_meeting_of(&events[i]) {
            if m.start_time.is_after(&now) {
                let replace = match &best {
                    None => true,
                    Some(b) => b.start_time.is_after(&m.start_time),
                };
                if replace {
                    best = Some(m);
                }
            }
        }
        i += 1;
    }
    assert(es.subrange(0, events@.len() as int) =~= es);
    best
}

/// The earliest meeting after `now` in the iCalendar text `ical_data`.
pub fn next_meeting_at(ical_data: &str, now: Timestamp) -> (r: Option<NextMeeting>)
    ensures
        meeting_view(r) == earliest_after(ical_events(ical_data@), now),
{
    let events = calendar_events(ical_data);
    next_meeting_from(&events, now)
}

/// The earliest meeting in the iCalendar text `ical_data` that starts after
/// the current time.
pub fn get_next_meeting(ical_data: &str) -> (r: Option<NextMeeting>)
    ensures
        exists|t: Timestamp| t.nanos < 1_000_000_000 && meeting_view(r) == earliest_after(ical_events(ical_data@), t),
{
    let t = now();
    next_meeting_at(ical_data, t)
}

} // verus!
