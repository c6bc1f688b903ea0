//! Rendering events as text: single times, time ranges, and the digest
//! message posted to a room.
//!
//! A date renders as `Weekday, D Month, YYYY`; an instant as
//! `h:mm AM/PM Weekday, D Month, YYYY`. An all-day event of exactly one
//! day renders as `<start> – All Day`; a timed event within one calendar
//! day shows only the clock time on the left side. A start/end pair that
//! mixes the two variants renders a fixed warning string.

use crate::event::{Event, EventModel, EventTime};
use crate::time::{date_day_number, weekday_from_monday, Date, Timestamp};
use crate::util::push_char;
use vstd::prelude::*;
use vstd::string::StringExecFns;

verus! {

pub open spec fn digit_char(d: int) -> char {
    if d == 0 {
        '0'
    } else if d == 1 {
        '1'
    } else if d == 2 {
        '2'
    } else if d == 3 {
        '3'
    } else if d == 4 {
        '4'
    } else if d == 5 {
        '5'
    } else if d == 6 {
        '6'
    } else if d == 7 {
        '7'
    } else if d == 8 {
        '8'
    } else {
        '9'
    }
}

/// The decimal digits of `n`, without leading zeroes.
pub open spec fn dec_str(n: int) -> Seq<char>
    decreases n,
{
    if n < 10 {
        seq![digit_char(n)]
    } else {
        dec_str(n / 10).push(digit_char(n % 10))
    }
}

/// Two digits, zero-padded; `n` below 100.
pub open spec fn pad2(n: int) -> Seq<char> {
    if n < 10 {
        seq!['0', digit_char(n)]
    } else {
        dec_str(n)
    }
}

/// Four digits, zero-padded; `n` below 10000.
pub open spec fn pad4(n: int) -> Seq<char> {
    if n < 10 {
        seq!['0', '0', '0', digit_char(n)]
    } else if n < 100 {
        seq!['0', '0'] + dec_str(n)
    } else if n < 1000 {
        seq!['0'] + dec_str(n)
    } else {
        dec_str(n)
    }
}

/// The English weekday names, indexed from Monday.
pub open spec fn weekday_name(w: int) -> Seq<char> {
    if w == 0 {
        "Monday"@
    } else if w == 1 {
        "Tuesday"@
    } else if w == 2 {
        "Wednesday"@
    } else if w == 3 {
        "Thursday"@
    } else if w == 4 {
        "Friday"@
    } else if w == 5 {
        "Saturday"@
    } else {
        "Sunday"@
    }
}

/// The English month names; anything outside 1 through 12 renders empty.
pub open spec fn month_name(m: int) -> Seq<char> {
    if m == 1 {
        "January"@
    } else if m == 2 {
        "February"@
    } else if m == 3 {
        "March"@
    } else if m == 4 {
        "April"@
    } else if m == 5 {
        "May"@
    } else if m == 6 {
        "June"@
    } else if m == 7 {
        "July"@
    } else if m == 8 {
        "August"@
    } else if m == 9 {
        "September"@
    } else if m == 10 {
        "October"@
    } else if m == 11 {
        "November"@
    } else if m == 12 {
        "December"@
    } else {
        Seq::empty()
    }
}

/// `Weekday, D Month, YYYY`.
pub open spec fn fmt_date(d: Date) -> Seq<char> {
    weekday_name(weekday_from_monday(date_day_number(d))) + ", "@ + dec_str(d.day as int) + " "@
        + month_name(d.month as int) + ", "@ + pad4(d.year as int)
}

/// The clock part, `h:mm AM/PM`, twelve-hour.
pub open spec fn fmt_clock(t: Timestamp) -> Seq<char> {
    let h12 = if t.hour as int % 12 == 0 {
        12
    } else {
        t.hour as int % 12
    };
    dec_str(h12) + ":"@ + pad2(t.minute as int) + " "@ + (if t.hour < 12 {
        "AM"@
    } else {
        "PM"@
    })
}

/// `h:mm AM/PM Weekday, D Month, YYYY`.
pub open spec fn fmt_instant(t: Timestamp) -> Seq<char> {
    fmt_clock(t) + " "@ + fmt_date(t.date)
}

/// A single event time, whichever variant it is.
pub open spec fn fmt_event_time(t: EventTime) -> Seq<char> {
    match t {
        EventTime::Date(d) => fmt_date(d),
        EventTime::DateTime(ts) => fmt_instant(ts),
    }
}

/// A start/end pair, with the all-day, same-day and mixed-variant rules.
pub open spec fn fmt_event_times(start: EventTime, end: EventTime) -> Seq<char> {
    match (start, end) {
        (EventTime::Date(s), EventTime::Date(e)) => {
            if date_day_number(s) == date_day_number(e) - 1 {
                fmt_date(s) + " – All Day"@
            } else {
                fmt_date(s) + " – "@ + fmt_date(e) + "\n"@
            }
        },
        (EventTime::DateTime(s), EventTime::DateTime(e)) => {
            if s.date == e.date {
                fmt_clock(s) + " – "@ + fmt_instant(e) + "\n"@
            } else {
                fmt_instant(s) + " – "@ + fmt_instant(e) + "\n"@
            }
        },
        _ => "Invalid Date: Check Calendar"@,
    }
}

fn digit_char_exec(d: u32) -> (c: char)
    requires
        d < 10,
    ensures
        c == digit_char(d as int),
{
    if d == 0 {
        '0'
    } else if d == 1 {
        '1'
    } else if d == 2 {
        '2'
    } else if d == 3 {
        '3'
    } else if d == 4 {
        '4'
    } else if d == 5 {
        '5'
    } else if d == 6 {
        '6'
    } else if d == 7 {
        '7'
    } else if d == 8 {
        '8'
    } else {
        '9'
    }
}

/// Appends the decimal digits of `n`.
fn push_dec(s: &mut String, n: u32)
    ensures
        final(s)@ == old(s)@ + dec_str(n as int),
    decreases n,
{
    if n < 10 {
        push_char(s, digit_char_exec(n));
        proof {
            assert(old(s)@ + dec_str(n as int) =~= old(s)@.push(digit_char(n as int)));
        }
    } else {
        push_dec(s, n / 10);
        push_char(s, digit_char_exec(n % 10));
        proof {
            assert(old(s)@ + dec_str(n as int) =~= (old(s)@ + dec_str(n as int / 10)).push(
                digit_char(n as int % 10),
            ));
        }
    }
}

pub(crate) fn push_pad2(s: &mut String, n: u32)
    ensures
        final(s)@ == old(s)@ + pad2(n as int),
{
    if n < 10 {
        push_char(s, '0');
        push_char(s, digit_char_exec(n));
        proof {
            assert(old(s)@ + pad2(n as int) =~= old(s)@.push('0').push(digit_char(n as int)));
        }
    } else {
        push_dec(s, n);
    }
}

pub(crate) fn push_pad4(s: &mut String, n: u32)
    ensures
        final(s)@ == old(s)@ + pad4(n as int),
{
    if n < 10 {
        push_char(s, '0');
        push_char(s, '0');
        push_char(s, '0');
        push_char(s, digit_char_exec(n));
        proof {
            assert(old(s)@ + pad4(n as int) =~= old(s)@.push('0').push('0').push('0').push(
                digit_char(n as int),
            ));
        }
    } else if n < 100 {
        push_char(s, '0');
        push_char(s, '0');
        push_dec(s, n);
        proof {
            assert(old(s)@ + pad4(n as int) =~= old(s)@.push('0').push('0') + dec_str(n as int));
        }
    } else if n < 1000 {
        push_char(s, '0');
        push_dec(s, n);
        proof {
            assert(old(s)@ + pad4(n as int) =~= old(s)@.push('0') + dec_str(n as int));
        }
    } else {
        push_dec(s, n);
    }
}

fn push_weekday(s: &mut String, w: u8)
    requires
        w < 7,
    ensures
        final(s)@ == old(s)@ + weekday_name(w as int),
{
    if w == 0 {
        s.append("Monday");
    } else if w == 1 {
        s.append("Tuesday");
    } else if w == 2 {
        s.append("Wednesday");
    } else if w == 3 {
        s.append("Thursday");
    } else if w == 4 {
        s.append("Friday");
    } else if w == 5 {
        s.append("Saturday");
    } else {
        s.append("Sunday");
    }
}

fn push_month(s: &mut String, m: u8)
    ensures
        final(s)@ == old(s)@ + month_name(m as int),
{
    if m == 1 {
        s.append("January");
    } else if m == 2 {
        s.append("February");
    } else if m == 3 {
        s.append("March");
    } else if m == 4 {
        s.append("April");
    } else if m == 5 {
        s.append("May");
    } else if m == 6 {
        s.append("June");
    } else if m == 7 {
        s.append("July");
    } else if m == 8 {
        s.append("August");
    } else if m == 9 {
        s.append("September");
    } else if m == 10 {
        s.append("October");
    } else if m == 11 {
        s.append("November");
    } else if m == 12 {
        s.append("December");
    } else {
        proof {
            assert(old(s)@ + month_name(m as int) =~= old(s)@);
        }
    }
}

fn push_date(s: &mut String, d: &Date)
    ensures
        final(s)@ == old(s)@ + fmt_date(*d),
{
    let w = d.weekday();
    push_weekday(s, w);
    s.append(", ");
    push_dec(s, d.day as u32);
    s.append(" ");
    push_month(s, d.month);
    s.append(", ");
    push_pad4(s, d.year as u32);
}

fn push_clock(s: &mut String, t: &Timestamp)
    ensures
        final(s)@ == old(s)@ + fmt_clock(*t),
{
    let r = t.hour % 12;
    let h12: u32 = if r == 0 {
        12
    } else {
        r as u32
    };
    push_dec(s, h12);
    s.append(":");
    push_pad2(s, t.minute as u32);
    s.append(" ");
    if t.hour < 12 {
        s.append("AM");
    } else {
        s.append("PM");
    }
}

fn push_instant(s: &mut String, t: &Timestamp)
    ensures
        final(s)@ == old(s)@ + fmt_instant(*t),
{
    push_clock(s, t);
    s.append(" ");
    push_date(s, &t.date);
}

/// One event time as display text.
pub fn format_datetime(datetime: &EventTime) -> (r: String)
    ensures
        r@ == fmt_event_time(*datetime),
{
    let mut s = String::new();
    match datetime {
        EventTime::Date(d) => push_date(&mut s, d),
        EventTime::DateTime(t) => push_instant(&mut s, t),
    }
    s
}

/// A start/end pair as display text.
pub fn format_event_times(start: &EventTime, end: &EventTime) -> (r: String)
    ensures
        r@ == fmt_event_times(*start, *end),
{
    let mut s = String::new();
    match (start, end) {
        (EventTime::Date(sd), EventTime::Date(ed)) => {
            if sd.day_number() == ed.day_number() - 1 {
                push_date(&mut s, sd);
                s.append(" – All Day");
            } else {
                push_date(&mut s, sd);
                s.append(" – ");
                push_date(&mut s, ed);
                s.append("\n");
            }
        },
        (EventTime::DateTime(st), EventTime::DateTime(et)) => {
            if st.date.year == et.date.year && st.date.month == et.date.month && st.date.day
                == et.date.day {
                push_clock(&mut s, st);
                s.append(" – ");
                push_instant(&mut s, et);
                s.append("\n");
            } else {
                push_instant(&mut s, st);
                s.append(" – ");
                push_instant(&mut s, et);
                s.append("\n");
            }
        },
        _ => {
            s.append("Invalid Date: Check Calendar");
        },
    }
    s
}

// ---------------------------------------------------------------------
// The digest.
// ---------------------------------------------------------------------
/// The plain-text lines of the digest's event list.
pub open spec fn digest_items(ms: Seq<EventModel>) -> Seq<char>
    decreases ms.len(),
{
    if ms.len() == 0 {
        Seq::empty()
    } else {
        digest_items(ms.drop_last()) + ms.last().name + ": \n"@ + fmt_event_times(
            ms.last().dtstart,
            ms.last().dtend,
        ) + "\n\n"@
    }
}

/// The rich-text paragraphs of the digest's event list.
pub open spec fn digest_items_html(ms: Seq<EventModel>) -> Seq<char>
    decreases ms.len(),
{
    if ms.len() == 0 {
        Seq::empty()
    } else {
        digest_items_html(ms.drop_last()) + "<p><strong>"@ + ms.last().name + "</strong><br />"@
            + fmt_event_times(ms.last().dtstart, ms.last().dtend) + "</p>"@
    }
}

/// The whole plain-text digest.
pub open spec fn digest_body(ms: Seq<EventModel>) -> Seq<char> {
    "Upcoming Events"@ + (if ms.len() == 0 {
        "No events in the calendar this week"@
    } else {
        Seq::empty()
    }) + digest_items(ms)
}

/// The whole rich-text digest.
pub open spec fn digest_html(ms: Seq<EventModel>) -> Seq<char> {
    "<h3>Upcoming Events</h3><br />"@ + (if ms.len() == 0 {
        "<p>No events in the calendar this week</p>"@
    } else {
        Seq::empty()
    }) + digest_items_html(ms)
}

/// The digest message for a fetched event list: the plain-text body and
/// the rich-text body, exactly as `digest_body`/`digest_html` state.
#[verifier::rlimit(60)]
pub fn render_digest(events: &Vec<Event>) -> (r: (String, String))
    ensures
        r.0@ == digest_body(events@.map_values(|e: Event| e.model())),
        r.1@ == digest_html(events@.map_values(|e: Event| e.model())),
{
    let ghost ms = events@.map_values(|e: Event| e.model());
    let mut body = "Upcoming Events".to_owned();
    let mut html = "<h3>Upcoming Events</h3><br />".to_owned();
    if events.len() == 0 {
        body.append("No events in the calendar this week");
        html.append("<p>No events in the calendar this week</p>");
    }
    let ghost body0 = body@;
    let ghost html0 = html@;
    proof {
        assert(body0 + digest_items(ms.take(0int)) =~= body0);
        assert(html0 + digest_items_html(ms.take(0int)) =~= html0);
    }
    let n = events.len();
    let mut i: usize = 0;
    while i < n
        invariant
            i <= n,
            n == events@.len(),
            ms == events@.map_values(|e: Event| e.model()),
            ms.len() == n,
            body@ == body0 + digest_items(ms.take(i as int)),
            html@ == html0 + digest_items_html(ms.take(i as int)),
        decreases n - i,
    {
        let e = &events[i];
        proof {
            assert(ms.take(i + 1).drop_last() =~= ms.take(i as int));
            assert(ms.take(i + 1).last() == ms[i as int]);
            assert(ms[i as int] == events@[i as int].model());
        }
        let times = format_event_times(e.dtstart(), e.dtend());
        body.append(e.name());
        body.append(": \n");
        body.append(times.as_str());
        body.append("\n\n");
        html.append("<p><strong>");
        html.append(e.name());
        html.append("</strong><br />");
        html.append(times.as_str());
        html.append("</p>");
        proof {
            assert(body@ =~= body0 + digest_items(ms.take(i + 1)));
            assert(html@ =~= html0 + digest_items_html(ms.take(i + 1)));
        }
        i = i + 1;
    }
    proof {
        assert(ms.take(n as int) =~= ms);
    }
    (body, html)
}

/// The digest posted when the calendar fetch itself failed.
pub fn render_failure_digest() -> (r: (String, String))
    ensures
        r.0@ == "Failed to get calendar events"@,
        r.1@ == "<p>Failed to get calendar events</p>"@,
{
    ("Failed to get calendar events".to_owned(), "<p>Failed to get calendar events</p>".to_owned())
}

} // verus!
