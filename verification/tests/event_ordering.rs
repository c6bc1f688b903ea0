use calbridge::event::{Event, EventTime};
use calbridge::time::{Date, Timestamp};
use std::cmp::Ordering;

fn d(year: u16, month: u8, day: u8) -> Date {
    Date { year, month, day }
}

fn ts(year: u16, month: u8, day: u8, hour: u8, minute: u8, second: u8) -> Timestamp {
    Timestamp { date: d(year, month, day), hour, minute, second }
}

#[test]
fn date_pairs_order_chronologically() {
    let a = EventTime::Date(d(2024, 6, 17));
    let b = EventTime::Date(d(2024, 6, 18));
    assert_eq!(a.cmp(&b), Ordering::Less);
    assert_eq!(b.cmp(&a), Ordering::Greater);
    assert_eq!(a.cmp(&a), Ordering::Equal);
    let y = EventTime::Date(d(2023, 12, 31));
    assert_eq!(y.cmp(&a), Ordering::Less);
}

#[test]
fn instant_pairs_order_chronologically() {
    let a = EventTime::DateTime(ts(2024, 6, 17, 14, 0, 0));
    let b = EventTime::DateTime(ts(2024, 6, 17, 15, 0, 0));
    let c = EventTime::DateTime(ts(2024, 6, 18, 0, 0, 0));
    assert_eq!(a.cmp(&b), Ordering::Less);
    assert_eq!(b.cmp(&c), Ordering::Less);
    assert_eq!(a.cmp(&c), Ordering::Less);
    assert_eq!(c.cmp(&a), Ordering::Greater);
    assert_eq!(b.cmp(&b), Ordering::Equal);
}

#[test]
fn ordering_is_trichotomous_on_samples() {
    let times = [
        EventTime::Date(d(2024, 6, 17)),
        EventTime::Date(d(2024, 6, 18)),
        EventTime::DateTime(ts(2024, 6, 17, 0, 0, 0)),
        EventTime::DateTime(ts(2024, 6, 17, 23, 59, 59)),
        EventTime::DateTime(ts(2024, 6, 18, 0, 0, 1)),
    ];
    for a in &times {
        for b in &times {
            let ab = a.cmp(b);
            let ba = b.cmp(a);
            match ab {
                Ordering::Less => assert_eq!(ba, Ordering::Greater),
                Ordering::Equal => assert_eq!(ba, Ordering::Equal),
                Ordering::Greater => assert_eq!(ba, Ordering::Less),
            }
            for c in &times {
                if ab == Ordering::Less && b.cmp(c) == Ordering::Less {
                    assert_eq!(a.cmp(c), Ordering::Less);
                }
            }
        }
    }
}

#[test]
fn date_equals_midnight_instant() {
    let day = EventTime::Date(d(2024, 6, 17));
    let midnight = EventTime::DateTime(ts(2024, 6, 17, 0, 0, 0));
    assert_eq!(day.cmp(&midnight), Ordering::Equal);
    assert!(day == midnight);
    let one_second_in = EventTime::DateTime(ts(2024, 6, 17, 0, 0, 1));
    assert_eq!(day.cmp(&one_second_in), Ordering::Less);
}

#[test]
fn event_equality_is_uid_only() {
    let lm = ts(2024, 6, 1, 12, 0, 0);
    let a = Event::new_all_day(
        "Picnic".to_string(),
        "uid-1".to_string(),
        d(2024, 6, 17),
        d(2024, 6, 18),
        None,
        None,
        "https://cal.example/one".to_string(),
        lm,
        None,
    );
    let b = Event::new_all_day(
        "Completely different title".to_string(),
        "uid-1".to_string(),
        d(2025, 1, 2),
        d(2025, 1, 3),
        Some("elsewhere".to_string()),
        Some("notes".to_string()),
        "https://cal.example/two".to_string(),
        lm,
        None,
    );
    let c = Event::new_all_day(
        "Picnic".to_string(),
        "uid-2".to_string(),
        d(2024, 6, 17),
        d(2024, 6, 18),
        None,
        None,
        "https://cal.example/one".to_string(),
        lm,
        None,
    );
    assert!(a == b);
    assert!(a != c);
}

#[test]
fn event_order_is_start_only() {
    let lm = ts(2024, 6, 1, 12, 0, 0);
    let early = Event::new_timed(
        "zzz last alphabetically".to_string(),
        "uid-early".to_string(),
        ts(2024, 6, 17, 9, 0, 0),
        ts(2024, 6, 17, 23, 0, 0),
        None,
        None,
        "https://cal.example".to_string(),
        lm,
        None,
    );
    let late = Event::new_timed(
        "aaa first alphabetically".to_string(),
        "uid-late".to_string(),
        ts(2024, 6, 17, 10, 0, 0),
        ts(2024, 6, 17, 10, 30, 0),
        None,
        None,
        "https://cal.example".to_string(),
        lm,
        None,
    );
    assert_eq!(early.cmp(&late), Ordering::Less);
    assert_eq!(late.cmp(&early), Ordering::Greater);
    let same_start = Event::new_timed(
        "another".to_string(),
        "uid-other".to_string(),
        ts(2024, 6, 17, 9, 0, 0),
        ts(2024, 6, 18, 9, 0, 0),
        None,
        None,
        "https://cal.example".to_string(),
        lm,
        None,
    );
    assert_eq!(early.cmp(&same_start), Ordering::Equal);
}

#[test]
fn day_numbers_match_the_civil_calendar() {
    assert_eq!(d(1970, 1, 1).day_number(), 0);
    assert_eq!(d(1970, 1, 2).day_number(), 1);
    assert_eq!(d(1969, 12, 31).day_number(), -1);
    assert_eq!(d(2024, 6, 17).day_number(), 19891);
    assert_eq!(d(2000, 2, 29).day_number(), 11016);
    // weekday: 0 is Monday .. 6 is Sunday
    assert_eq!(d(1970, 1, 1).weekday(), 3); // a Thursday
    assert_eq!(d(2024, 6, 17).weekday(), 0); // a Monday
    assert_eq!(d(2024, 6, 16).weekday(), 6); // a Sunday
}

#[test]
fn validity_follows_the_calendar() {
    assert!(d(2024, 2, 29).is_valid()); // leap year
    assert!(!d(2023, 2, 29).is_valid());
    assert!(!d(1900, 2, 29).is_valid()); // century, not a leap year
    assert!(d(2000, 2, 29).is_valid()); // four-century leap year
    assert!(!d(2024, 13, 1).is_valid());
    assert!(!d(2024, 4, 31).is_valid());
    assert!(ts(2024, 6, 17, 23, 59, 59).is_valid());
    assert!(!ts(2024, 6, 17, 24, 0, 0).is_valid());
}
