//! The iCal payload parser: one raw calendar-object text blob in, one
//! `Event` out, or a `ParseError` that says exactly why.
//!
//! The accepted shape is one `BEGIN:VCALENDAR` block holding exactly one
//! `VEVENT` (and no to-do or journal). Lines are unfolded per RFC 5545
//! (a line starting with a space or tab continues the previous line), a
//! property line reads `NAME[;parameters]:VALUE` — a `:` inside a
//! double-quoted parameter value does not end the parameters — and
//! `DTSTART`/`DTEND`
//! values are a UTC timestamp `YYYYMMDDThhmmssZ`, a local timestamp
//! `YYYYMMDDThhmmss` (taken as UTC), or a bare date `YYYYMMDD`.
//!
//! The whole pipeline is mirrored by spec functions over `Seq<char>`;
//! `parse` returns exactly what `spec_parse` says, error for error.

use crate::event::{et_valid, Event, EventModel, EventTime};
use crate::time::{date_day_number, date_valid, ts_valid, Date, Timestamp};
use crate::util::{chars_eq_str, chars_to_string, sub_chars, to_chars};
use vstd::prelude::*;

verus! {

/// A mandatory VEVENT property that a payload failed to supply.
#[derive(Clone, Copy, Debug, PartialEq, Eq, Structural)]
pub enum Field {
    Name,
    Uid,
    DtStart,
    DtEnd,
    LastModified,
}

/// Why a payload was rejected.
#[derive(Clone, Copy, Debug, PartialEq, Eq, Structural)]
pub enum ParseError {
    /// No complete calendar object decodes from the text.
    Malformed,
    /// More than one top-level object, more than one event, or a to-do
    /// or journal where the event should be.
    Unsupported,
    /// A mandatory property is absent (or its value unreadable).
    MissingField(Field),
    /// `DTSTART` and `DTEND` mix a bare date with a timestamp.
    InconsistentTimes,
    /// An all-day range whose start date lies after its end date.
    InvertedRange,
}

// ---------------------------------------------------------------------
// Lines: splitting, unfolding, dropping blanks.
// ---------------------------------------------------------------------
/// A line with a trailing carriage return loses it.
pub open spec fn strip_cr(l: Seq<char>) -> Seq<char> {
    if l.len() > 0 && l.last() == '\r' {
        l.drop_last()
    } else {
        l
    }
}

/// Splitting at every newline: the finished lines, and the still-open one.
pub open spec fn split_acc(s: Seq<char>) -> (Seq<Seq<char>>, Seq<char>)
    decreases s.len(),
{
    if s.len() == 0 {
        (Seq::empty(), Seq::empty())
    } else {
        let prev = split_acc(s.drop_last());
        if s.last() == '\n' {
            (prev.0.push(strip_cr(prev.1)), Seq::empty())
        } else {
            (prev.0, prev.1.push(s.last()))
        }
    }
}

/// The text cut at newlines, each line without its trailing `\r`.
pub open spec fn split_lines(s: Seq<char>) -> Seq<Seq<char>> {
    split_acc(s).0.push(strip_cr(split_acc(s).1))
}

/// RFC 5545 unfolding: a line opening with a space or tab continues the
/// line before it, with that one folding character removed.
pub open spec fn unfold_lines(lines: Seq<Seq<char>>) -> Seq<Seq<char>>
    decreases lines.len(),
{
    if lines.len() == 0 {
        Seq::empty()
    } else {
        let prev = unfold_lines(lines.drop_last());
        let l = lines.last();
        if l.len() > 0 && (l[0] == ' ' || l[0] == '\t') {
            if prev.len() > 0 {
                prev.update(prev.len() - 1, prev.last() + l.skip(1))
            } else {
                prev.push(l.skip(1))
            }
        } else {
            prev.push(l)
        }
    }
}

/// Blank lines carry nothing and are dropped.
pub open spec fn drop_blanks(lines: Seq<Seq<char>>) -> Seq<Seq<char>>
    decreases lines.len(),
{
    if lines.len() == 0 {
        Seq::empty()
    } else {
        let prev = drop_blanks(lines.drop_last());
        if lines.last().len() > 0 {
            prev.push(lines.last())
        } else {
            prev
        }
    }
}

/// The content lines of a payload: split, unfolded, blanks dropped.
pub open spec fn content_lines(s: Seq<char>) -> Seq<Seq<char>> {
    drop_blanks(unfold_lines(split_lines(s)))
}

// ---------------------------------------------------------------------
// One property line: name, parameters, value.
// ---------------------------------------------------------------------
/// The first `;` or `:` at or after `i`, or the length if there is none.
pub open spec fn sep_pos(l: Seq<char>, i: int) -> int
    decreases l.len() - i,
{
    if i < 0 || i >= l.len() {
        l.len() as int
    } else if l[i] == ';' || l[i] == ':' {
        i
    } else {
        sep_pos(l, i + 1)
    }
}

/// The first `:` at or after `i` that stands outside a double-quoted
/// parameter value, or the length if there is none; `in_quotes` says
/// whether position `i` is already inside quotes.
pub open spec fn colon_pos(l: Seq<char>, i: int, in_quotes: bool) -> int
    decreases l.len() - i,
{
    if i < 0 || i >= l.len() {
        l.len() as int
    } else if l[i] == '"' {
        colon_pos(l, i + 1, in_quotes == false)
    } else if l[i] == ':' && in_quotes == false {
        i
    } else {
        colon_pos(l, i + 1, in_quotes)
    }
}

/// The property name: everything before the first `;` or `:`.
pub open spec fn line_name(l: Seq<char>) -> Seq<char> {
    l.take(sep_pos(l, 0))
}

/// Whether the line has a value at all: an unquoted `:` somewhere.
pub open spec fn line_has_value(l: Seq<char>) -> bool {
    colon_pos(l, 0, false) < l.len()
}

/// The property value: everything after the first unquoted `:`.
pub open spec fn line_value(l: Seq<char>) -> Seq<char> {
    l.skip(colon_pos(l, 0, false) + 1)
}

// ---------------------------------------------------------------------
// Date and timestamp values.
// ---------------------------------------------------------------------
pub open spec fn is_digit(c: char) -> bool {
    48 <= c as u32 <= 57
}

pub open spec fn all_digits(s: Seq<char>, i: int, j: int) -> bool {
    forall|k: int| i <= k < j ==> is_digit(#[trigger] s[k])
}

/// The decimal number the digits `s[i..j]` spell.
pub open spec fn dec_val(s: Seq<char>, i: int, j: int) -> int
    decreases j - i,
{
    if j <= i {
        0
    } else {
        dec_val(s, i, j - 1) * 10 + (s[j - 1] as u32 - 48)
    }
}

/// The date the eight digits at `s[i..i+8]` spell, `YYYYMMDD`.
pub open spec fn date_at(s: Seq<char>, i: int) -> Date {
    Date {
        year: dec_val(s, i, i + 4) as u16,
        month: dec_val(s, i + 4, i + 6) as u8,
        day: dec_val(s, i + 6, i + 8) as u8,
    }
}

/// The timestamp the fifteen characters at `s[i..i+15]` spell,
/// `YYYYMMDDThhmmss`.
pub open spec fn ts_at(s: Seq<char>, i: int) -> Timestamp {
    Timestamp {
        date: date_at(s, i),
        hour: dec_val(s, i + 9, i + 11) as u8,
        minute: dec_val(s, i + 11, i + 13) as u8,
        second: dec_val(s, i + 13, i + 15) as u8,
    }
}

/// Is `v` a well-formed timestamp body (digits around the `T`), with
/// every field in calendar range?
pub open spec fn ts_body_ok(v: Seq<char>) -> bool {
    &&& v[8] == 'T'
    &&& all_digits(v, 0, 8)
    &&& all_digits(v, 9, 15)
    &&& ts_valid(ts_at(v, 0))
}

/// A `DTSTART`/`DTEND` value: UTC timestamp, else local timestamp
/// (taken as UTC), else bare date; anything else is unreadable.
pub open spec fn event_time_of(v: Seq<char>) -> Option<EventTime> {
    if v.len() == 16 && v[15] == 'Z' && ts_body_ok(v.take(15)) {
        Some(EventTime::DateTime(ts_at(v, 0)))
    } else if v.len() == 15 && ts_body_ok(v) {
        Some(EventTime::DateTime(ts_at(v, 0)))
    } else if v.len() == 8 && all_digits(v, 0, 8) && date_valid(date_at(v, 0)) {
        Some(EventTime::Date(date_at(v, 0)))
    } else {
        None
    }
}

/// A `LAST-MODIFIED`/`CREATED` value: only the UTC form is accepted.
pub open spec fn utc_ts_of(v: Seq<char>) -> Option<Timestamp> {
    if v.len() == 16 && v[15] == 'Z' && ts_body_ok(v.take(15)) {
        Some(ts_at(v, 0))
    } else {
        None
    }
}

// ---------------------------------------------------------------------
// The component scan.
// ---------------------------------------------------------------------
/// Where the scan stands within the payload's block structure.
#[derive(Clone, Copy, Debug, PartialEq, Eq, Structural)]
pub enum ScanMode {
    /// Before `BEGIN:VCALENDAR`.
    Top,
    /// Directly inside the calendar.
    InCal,
    /// Inside the event being read.
    InEvent,
    /// Inside a skipped component directly under the calendar.
    SkipCal,
    /// Inside a skipped component nested in the event.
    SkipEvent,
    /// After `END:VCALENDAR`.
    Done,
}

/// The scan state: mode, nesting depth while skipping, how many events,
/// to-dos and journals were seen, the first event's properties, whether
/// a second top-level object appeared, and whether the structure broke.
pub ghost struct ScanState {
    pub mode: ScanMode,
    pub depth: int,
    pub events: int,
    pub todos: int,
    pub journals: int,
    pub props: Seq<(Seq<char>, Seq<char>)>,
    pub extra: bool,
    pub failed: bool,
}

pub open spec fn scan_init() -> ScanState {
    ScanState {
        mode: ScanMode::Top,
        depth: 0,
        events: 0,
        todos: 0,
        journals: 0,
        props: Seq::empty(),
        extra: false,
        failed: false,
    }
}

/// One line moves the scan one step.
pub open spec fn scan_step(st: ScanState, l: Seq<char>) -> ScanState {
    if st.failed {
        st
    } else {
        let name = line_name(l);
        let value = line_value(l);
        if st.mode == ScanMode::Done {
            if line_has_value(l) && name == "BEGIN"@ && value == "VCALENDAR"@ {
                ScanState { extra: true, ..st }
            } else {
                st
            }
        } else if !line_has_value(l) {
            ScanState { failed: true, ..st }
        } else if st.mode == ScanMode::Top {
            if name == "BEGIN"@ && value == "VCALENDAR"@ {
                ScanState { mode: ScanMode::InCal, ..st }
            } else {
                ScanState { failed: true, ..st }
            }
        } else if st.mode == ScanMode::InCal {
            if name == "BEGIN"@ {
                if value == "VEVENT"@ {
                    ScanState { mode: ScanMode::InEvent, events: st.events + 1, ..st }
                } else if value == "VTODO"@ {
                    ScanState { mode: ScanMode::SkipCal, depth: 1, todos: st.todos + 1, ..st }
                } else if value == "VJOURNAL"@ {
                    ScanState { mode: ScanMode::SkipCal, depth: 1, journals: st.journals + 1, ..st }
                } else {
                    ScanState { mode: ScanMode::SkipCal, depth: 1, ..st }
                }
            } else if name == "END"@ {
                if value == "VCALENDAR"@ {
                    ScanState { mode: ScanMode::Done, ..st }
                } else {
                    ScanState { failed: true, ..st }
                }
            } else {
                st
            }
        } else if st.mode == ScanMode::InEvent {
            if name == "BEGIN"@ {
                ScanState { mode: ScanMode::SkipEvent, depth: 1, ..st }
            } else if name == "END"@ {
                if value == "VEVENT"@ {
                    ScanState { mode: ScanMode::InCal, ..st }
                } else {
                    ScanState { failed: true, ..st }
                }
            } else if st.events == 1 {
                ScanState { props: st.props.push((name, value)), ..st }
            } else {
                st
            }
        } else if st.mode == ScanMode::SkipCal {
            if name == "BEGIN"@ {
                ScanState { depth: st.depth + 1, ..st }
            } else if name == "END"@ {
                if st.depth <= 1 {
                    ScanState { mode: ScanMode::InCal, depth: 0, ..st }
                } else {
                    ScanState { depth: st.depth - 1, ..st }
                }
            } else {
                st
            }
        } else {
            if name == "BEGIN"@ {
                ScanState { depth: st.depth + 1, ..st }
            } else if name == "END"@ {
                if st.depth <= 1 {
                    ScanState { mode: ScanMode::InEvent, depth: 0, ..st }
                } else {
                    ScanState { depth: st.depth - 1, ..st }
                }
            } else {
                st
            }
        }
    }
}

/// The scan state after all lines.
pub open spec fn scan_lines(lines: Seq<Seq<char>>) -> ScanState
    decreases lines.len(),
{
    if lines.len() == 0 {
        scan_init()
    } else {
        scan_step(scan_lines(lines.drop_last()), lines.last())
    }
}

// ---------------------------------------------------------------------
// The event's properties.
// ---------------------------------------------------------------------
/// What the recognized properties have said so far, and the
/// unrecognized ones verbatim, in order; a later occurrence of a
/// recognized property overwrites an earlier one, and an unreadable
/// time value counts as absent.
pub ghost struct FieldsAcc {
    pub name: Option<Seq<char>>,
    pub uid: Option<Seq<char>>,
    pub dtstart: Option<EventTime>,
    pub dtend: Option<EventTime>,
    pub location: Option<Seq<char>>,
    pub description: Option<Seq<char>>,
    pub last_modified: Option<Timestamp>,
    pub creation_date: Option<Timestamp>,
    pub extra: Seq<(Seq<char>, Seq<char>)>,
}

pub open spec fn fields_init() -> FieldsAcc {
    FieldsAcc {
        name: None,
        uid: None,
        dtstart: None,
        dtend: None,
        location: None,
        description: None,
        last_modified: None,
        creation_date: None,
        extra: Seq::empty(),
    }
}

pub open spec fn fields_step(a: FieldsAcc, p: (Seq<char>, Seq<char>)) -> FieldsAcc {
    if p.0 == "SUMMARY"@ {
        FieldsAcc { name: Some(p.1), ..a }
    } else if p.0 == "UID"@ {
        FieldsAcc { uid: Some(p.1), ..a }
    } else if p.0 == "DTSTART"@ {
        FieldsAcc { dtstart: event_time_of(p.1), ..a }
    } else if p.0 == "DTEND"@ {
        FieldsAcc { dtend: event_time_of(p.1), ..a }
    } else if p.0 == "LOCATION"@ {
        FieldsAcc { location: Some(p.1), ..a }
    } else if p.0 == "DESCRIPTION"@ {
        FieldsAcc { description: Some(p.1), ..a }
    } else if p.0 == "LAST-MODIFIED"@ {
        FieldsAcc { last_modified: utc_ts_of(p.1), ..a }
    } else if p.0 == "CREATED"@ {
        FieldsAcc { creation_date: utc_ts_of(p.1), ..a }
    } else {
        FieldsAcc { extra: a.extra.push(p), ..a }
    }
}

pub open spec fn collect_fields(props: Seq<(Seq<char>, Seq<char>)>) -> FieldsAcc
    decreases props.len(),
{
    if props.len() == 0 {
        fields_init()
    } else {
        fields_step(collect_fields(props.drop_last()), props.last())
    }
}

// ---------------------------------------------------------------------
// The verdict.
// ---------------------------------------------------------------------
/// What a finished scan means: the error owed, or the event's attributes.
pub open spec fn finish(st: ScanState, url: Seq<char>) -> Result<EventModel, ParseError> {
    if st.failed {
        Err(ParseError::Malformed)
    } else if st.mode != ScanMode::Done {
        Err(ParseError::Malformed)
    } else if st.extra {
        Err(ParseError::Unsupported)
    } else if st.events != 1 || st.todos != 0 || st.journals != 0 {
        Err(ParseError::Unsupported)
    } else {
        let a = collect_fields(st.props);
        if a.name is None {
            Err(ParseError::MissingField(Field::Name))
        } else if a.uid is None {
            Err(ParseError::MissingField(Field::Uid))
        } else if a.dtstart is None {
            Err(ParseError::MissingField(Field::DtStart))
        } else if a.dtend is None {
            Err(ParseError::MissingField(Field::DtEnd))
        } else if a.last_modified is None {
            Err(ParseError::MissingField(Field::LastModified))
        } else {
            let model = EventModel {
                name: a.name.unwrap(),
                uid: a.uid.unwrap(),
                dtstart: a.dtstart.unwrap(),
                dtend: a.dtend.unwrap(),
                location: a.location,
                description: a.description,
                last_modified: a.last_modified.unwrap(),
                creation_date: a.creation_date,
                url: url,
                extra_properties: a.extra,
            };
            match (a.dtstart.unwrap(), a.dtend.unwrap()) {
                (EventTime::DateTime(_), EventTime::DateTime(_)) => Ok(model),
                (EventTime::Date(s), EventTime::Date(e)) => {
                    if date_day_number(s) > date_day_number(e) {
                        Err(ParseError::InvertedRange)
                    } else {
                        Ok(model)
                    }
                },
                _ => Err(ParseError::InconsistentTimes),
            }
        }
    }
}

/// The whole parse, as a mathematical function of the payload text.
pub open spec fn spec_parse(content: Seq<char>, url: Seq<char>) -> Result<EventModel, ParseError> {
    finish(scan_lines(content_lines(content)), url)
}

/// Every time an accepted payload carries is calendar-valid.
pub open spec fn model_times_valid(m: EventModel) -> bool {
    &&& et_valid(m.dtstart)
    &&& et_valid(m.dtend)
    &&& ts_valid(m.last_modified)
    &&& (m.creation_date matches Some(t) ==> ts_valid(t))
}

/// A readable time value is a valid one: the three accepted layouts all
/// check their calendar ranges.
proof fn lemma_event_time_of_valid(v: Seq<char>)
    ensures
        event_time_of(v) matches Some(t) ==> et_valid(t),
        utc_ts_of(v) matches Some(t) ==> ts_valid(t),
{
    if v.len() == 16 && v[15] == 'Z' && ts_body_ok(v.take(15)) {
        lemma_dec_val_shift(v, 0, 0, 4);
        lemma_dec_val_shift(v, 0, 4, 6);
        lemma_dec_val_shift(v, 0, 6, 8);
        lemma_dec_val_shift(v, 0, 9, 11);
        lemma_dec_val_shift(v, 0, 11, 13);
        lemma_dec_val_shift(v, 0, 13, 15);
        assert(v.take(15) =~= v.subrange(0, 15));
        assert(ts_at(v.take(15), 0) == ts_at(v, 0));
    }
}

/// Whatever the property fold reads into a time field is valid.
proof fn lemma_fields_valid(props: Seq<(Seq<char>, Seq<char>)>)
    ensures
        collect_fields(props).dtstart matches Some(t) ==> et_valid(t),
        collect_fields(props).dtend matches Some(t) ==> et_valid(t),
        collect_fields(props).last_modified matches Some(t) ==> ts_valid(t),
        collect_fields(props).creation_date matches Some(t) ==> ts_valid(t),
    decreases props.len(),
{
    if props.len() > 0 {
        lemma_fields_valid(props.drop_last());
        lemma_event_time_of_valid(props.last().1);
    }
}

/// Validity of accepted payloads: whenever `spec_parse` — and so
/// `parse` — accepts, the start, the end, the modification time and
/// the creation time are all calendar-valid.
pub proof fn lemma_parse_times_valid(content: Seq<char>, url: Seq<char>)
    ensures
        spec_parse(content, url) matches Ok(m) ==> model_times_valid(m),
{
    lemma_fields_valid(scan_lines(content_lines(content)).props);
}

// ---------------------------------------------------------------------
// The executable parser, stage by stage.
// ---------------------------------------------------------------------
/// The views of a sequence of character vectors.
pub open spec fn views(s: Seq<Vec<char>>) -> Seq<Seq<char>> {
    s.map_values(|v: Vec<char>| v@)
}

fn sep_pos_exec(l: &Vec<char>) -> (p: usize)
    ensures
        p == sep_pos(l@, 0),
        p <= l@.len(),
{
    let n = l.len();
    let mut i: usize = 0;
    while i < n
        invariant
            i <= n,
            n == l@.len(),
            sep_pos(l@, 0) == sep_pos(l@, i as int),
        decreases n - i,
    {
        let c = l[i];
        if c == ';' || c == ':' {
            return i;
        }
        i = i + 1;
    }
    i
}

fn colon_pos_exec(l: &Vec<char>) -> (p: usize)
    ensures
        p == colon_pos(l@, 0, false),
        p <= l@.len(),
{
    let n = l.len();
    let mut i: usize = 0;
    let mut in_quotes = false;
    while i < n
        invariant
            i <= n,
            n == l@.len(),
            colon_pos(l@, 0, false) == colon_pos(l@, i as int, in_quotes),
        decreases n - i,
    {
        let c = l[i];
        if c == '"' {
            in_quotes = !(in_quotes);
        } else if c == ':' && in_quotes == false {
            return i;
        }
        i = i + 1;
    }
    i
}

fn split_exec(cs: &Vec<char>) -> (r: Vec<Vec<char>>)
    ensures
        views(r@) == split_lines(cs@),
{
    let mut lines: Vec<Vec<char>> = Vec::new();
    let mut cur: Vec<char> = Vec::new();
    let n = cs.len();
    let mut i: usize = 0;
    while i < n
        invariant
            i <= n,
            n == cs@.len(),
            views(lines@) == split_acc(cs@.take(i as int)).0,
            cur@ == split_acc(cs@.take(i as int)).1,
        decreases n - i,
    {
        let c = cs[i];
        proof {
            assert(cs@.take(i + 1).drop_last() =~= cs@.take(i as int));
            assert(cs@.take(i + 1).last() == cs@[i as int]);
        }
        if c == '\n' {
            if cur.len() > 0 && cur[cur.len() - 1] == '\r' {
                cur.pop();
            }
            let ghost done = split_acc(cs@.take(i as int)).0;
            lines.push(cur);
            proof {
                assert(views(lines@) =~= done.push(strip_cr(split_acc(cs@.take(i as int)).1)));
            }
            cur = Vec::new();
        } else {
            cur.push(c);
        }
        i = i + 1;
    }
    proof {
        assert(cs@.take(n as int) =~= cs@);
    }
    if cur.len() > 0 && cur[cur.len() - 1] == '\r' {
        cur.pop();
    }
    let ghost done = split_acc(cs@).0;
    lines.push(cur);
    proof {
        assert(views(lines@) =~= done.push(strip_cr(split_acc(cs@).1)));
    }
    lines
}

fn unfold_exec(lines: &Vec<Vec<char>>) -> (r: Vec<Vec<char>>)
    ensures
        views(r@) == unfold_lines(views(lines@)),
{
    let ghost full = views(lines@);
    let mut out: Vec<Vec<char>> = Vec::new();
    let n = lines.len();
    let mut i: usize = 0;
    while i < n
        invariant
            i <= n,
            n == lines@.len(),
            full == views(lines@),
            views(out@) == unfold_lines(full.take(i as int)),
        decreases n - i,
    {
        let l = &lines[i];
        proof {
            assert(full.take(i + 1).drop_last() =~= full.take(i as int));
            assert(full.take(i + 1).last() == full[i as int]);
            assert(full[i as int] == l@);
        }
        let ghost prev = unfold_lines(full.take(i as int));
        if l.len() > 0 && (l[0] == ' ' || l[0] == '\t') {
            if out.len() > 0 {
                let mut last = out.pop().unwrap();
                let mut j: usize = 1;
                let ghost base = last@;
                while j < l.len()
                    invariant
                        1 <= j <= l@.len(),
                        last@ == base + l@.subrange(1, j as int),
                    decreases l@.len() - j,
                {
                    last.push(l[j]);
                    proof {
                        assert(base + l@.subrange(1, j + 1) =~= (base + l@.subrange(
                            1,
                            j as int,
                        )).push(l@[j as int]));
                    }
                    j = j + 1;
                }
                out.push(last);
                proof {
                    assert(l@.subrange(1, l@.len() as int) =~= l@.skip(1));
                    assert(views(out@) =~= prev.update(prev.len() - 1, prev.last() + l@.skip(1)));
                }
            } else {
                let piece = sub_chars(l, 1, l.len());
                out.push(piece);
                proof {
                    assert(l@.subrange(1, l@.len() as int) =~= l@.skip(1));
                    assert(views(out@) =~= prev.push(l@.skip(1)));
                }
            }
        } else {
            let piece = sub_chars(l, 0, l.len());
            out.push(piece);
            proof {
                assert(l@.subrange(0, l@.len() as int) =~= l@);
                assert(views(out@) =~= prev.push(l@));
            }
        }
        i = i + 1;
    }
    proof {
        assert(full.take(n as int) =~= full);
    }
    out
}

fn drop_blanks_exec(lines: &Vec<Vec<char>>) -> (r: Vec<Vec<char>>)
    ensures
        views(r@) == drop_blanks(views(lines@)),
{
    let ghost full = views(lines@);
    let mut out: Vec<Vec<char>> = Vec::new();
    let n = lines.len();
    let mut i: usize = 0;
    while i < n
        invariant
            i <= n,
            n == lines@.len(),
            full == views(lines@),
            views(out@) == drop_blanks(full.take(i as int)),
        decreases n - i,
    {
        let l = &lines[i];
        proof {
            assert(full.take(i + 1).drop_last() =~= full.take(i as int));
            assert(full.take(i + 1).last() == full[i as int]);
            assert(full[i as int] == l@);
        }
        let ghost prev = drop_blanks(full.take(i as int));
        if l.len() > 0 {
            let piece = sub_chars(l, 0, l.len());
            out.push(piece);
            proof {
                assert(l@.subrange(0, l@.len() as int) =~= l@);
                assert(views(out@) =~= prev.push(l@));
            }
        }
        i = i + 1;
    }
    proof {
        assert(full.take(n as int) =~= full);
    }
    out
}

// ---------------------------------------------------------------------
// Digits, dates and timestamps.
// ---------------------------------------------------------------------
spec fn pow10(n: int) -> int
    decreases n,
{
    if n <= 0 {
        1
    } else {
        10 * pow10(n - 1)
    }
}

fn digits_range(v: &Vec<char>, from: usize, to: usize) -> (r: bool)
    requires
        from <= to <= v@.len(),
    ensures
        r == all_digits(v@, from as int, to as int),
{
    let mut i: usize = from;
    while i < to
        invariant
            from <= i <= to <= v@.len(),
            forall|k: int| from <= k < i ==> is_digit(#[trigger] v@[k]),
        decreases to - i,
    {
        let c = v[i];
        if (c as u32) < 48 || (c as u32) > 57 {
            return false;
        }
        i = i + 1;
    }
    true
}

/// The number spelled by the (at most four) digits `v[from..to]`.
fn dec_exec(v: &Vec<char>, from: usize, to: usize) -> (r: u32)
    requires
        from <= to <= v@.len(),
        to - from <= 4,
        all_digits(v@, from as int, to as int),
    ensures
        r == dec_val(v@, from as int, to as int),
        r < 10000,
{
    let mut acc: u32 = 0;
    let mut i: usize = from;
    while i < to
        invariant
            from <= i <= to <= v@.len(),
            to - from <= 4,
            all_digits(v@, from as int, to as int),
            acc == dec_val(v@, from as int, i as int),
            acc < pow10(i - from),
        decreases to - i,
    {
        let c = v[i];
        proof {
            assert(is_digit(v@[i as int]));
            lemma_pow10_small(i - from);
            assert(pow10(i - from + 1) == 10 * pow10(i - from));
        }
        acc = acc * 10 + ((c as u32) - 48);
        i = i + 1;
    }
    proof {
        lemma_pow10_small(to - from);
    }
    acc
}

/// The small powers of ten, concretely.
proof fn lemma_pow10_small(k: int)
    requires
        0 <= k <= 4,
    ensures
        pow10(k) <= 10000,
        pow10(k) >= 1,
{
    reveal_with_fuel(pow10, 5);
    if k == 0 {
        assert(pow10(0) == 1);
    } else if k == 1 {
        assert(pow10(1) == 10);
    } else if k == 2 {
        assert(pow10(2) == 100);
    } else if k == 3 {
        assert(pow10(3) == 1000);
    } else {
        assert(pow10(4) == 10000);
    }
}




/// The date spelled at `v[base..base+8]`, if its digits make a
/// calendar date.
fn date_exec(v: &Vec<char>, base: usize) -> (r: Option<Date>)
    requires
        base + 8 <= v@.len(),
        all_digits(v@, base as int, base + 8),
    ensures
        r == if date_valid(date_at(v@, base as int)) {
            Some(date_at(v@, base as int))
        } else {
            None
        },
{
    let n = v.len();
    let year = dec_exec(v, base, base + 4) as u16;
    let month = dec_exec(v, base + 4, base + 6) as u8;
    let day = dec_exec(v, base + 6, base + 8) as u8;
    let d = Date { year, month, day };
    if d.is_valid() {
        Some(d)
    } else {
        None
    }
}

/// The timestamp spelled at `v[base..base+15]`, if well formed.
fn ts_exec(v: &Vec<char>, base: usize) -> (r: Option<Timestamp>)
    requires
        base + 15 <= v@.len(),
    ensures
        r == if ts_body_ok(v@.subrange(base as int, base + 15)) {
            Some(ts_at(v@, base as int))
        } else {
            None
        },
{
    let n = v.len();
    let ghost body = v@.subrange(base as int, base + 15);
    if v[base + 8] != 'T' {
        return None;
    }
    if !digits_range(v, base, base + 8) {
        proof {
            assert(all_digits(body, 0, 8) ==> all_digits(v@, base as int, base + 8)) by {
                if all_digits(body, 0, 8) {
                    assert forall|k: int| base <= k < base + 8 implies is_digit(#[trigger] v@[k]) by {
                        assert(body[k - base] == v@[k]);
                    };
                }
            };
        }
        return None;
    }
    if !digits_range(v, base + 9, base + 15) {
        proof {
            assert(all_digits(body, 9, 15) ==> all_digits(v@, base + 9, base + 15)) by {
                if all_digits(body, 9, 15) {
                    assert forall|k: int|
                        base + 9 <= k < base + 15 implies is_digit(#[trigger] v@[k]) by {
                        assert(body[k - base] == v@[k]);
                    };
                }
            };
        }
        return None;
    }
    proof {
        assert forall|k: int| 0 <= k < 8 implies is_digit(#[trigger] body[k]) by {
            assert(body[k] == v@[base + k]);
        };
        assert forall|k: int| 9 <= k < 15 implies is_digit(#[trigger] body[k]) by {
            assert(body[k] == v@[base + k]);
        };
    }
    let year = dec_exec(v, base, base + 4) as u16;
    let month = dec_exec(v, base + 4, base + 6) as u8;
    let day = dec_exec(v, base + 6, base + 8) as u8;
    let hour = dec_exec(v, base + 9, base + 11) as u8;
    let minute = dec_exec(v, base + 11, base + 13) as u8;
    let second = dec_exec(v, base + 13, base + 15) as u8;
    let t = Timestamp { date: Date { year, month, day }, hour, minute, second };
    proof {
        lemma_dec_val_shift(v@, base as int, 0, 4);
        lemma_dec_val_shift(v@, base as int, 4, 6);
        lemma_dec_val_shift(v@, base as int, 6, 8);
        lemma_dec_val_shift(v@, base as int, 9, 11);
        lemma_dec_val_shift(v@, base as int, 11, 13);
        lemma_dec_val_shift(v@, base as int, 13, 15);
        assert(body[8] == v@[base + 8]);
        assert(t == ts_at(v@, base as int));
        assert(ts_at(body, 0) == ts_at(v@, base as int));
    }
    if t.is_valid() {
        Some(t)
    } else {
        None
    }
}

/// Reading digits through an offset window reads the same number.
proof fn lemma_dec_val_shift(s: Seq<char>, base: int, i: int, j: int)
    requires
        0 <= base,
        0 <= i <= j <= 15,
        base + 15 <= s.len(),
    ensures
        dec_val(s.subrange(base, base + 15), i, j) == dec_val(s, base + i, base + j),
    decreases j - i,
{
    if j > i {
        lemma_dec_val_shift(s, base, i, j - 1);
        if base + j <= base + 15 {
            assert(s.subrange(base, base + 15)[j - 1] == s[base + j - 1]);
        }
    }
}

/// A `DTSTART`/`DTEND` value, per the three accepted layouts.
fn event_time_exec(v: &Vec<char>) -> (r: Option<EventTime>)
    ensures
        r == event_time_of(v@),
{
    let n = v.len();
    if n == 16 && v[15] == 'Z' {
        proof {
            assert(v@.take(15) =~= v@.subrange(0, 15));
        }
        if let Some(t) = ts_exec(v, 0) {
            return Some(EventTime::DateTime(t));
        }
        return None;
    }
    if n == 15 {
        proof {
            assert(v@ =~= v@.subrange(0, 15));
        }
        if let Some(t) = ts_exec(v, 0) {
            return Some(EventTime::DateTime(t));
        }
        return None;
    }
    if n == 8 {
        if digits_range(v, 0, 8) {
            if let Some(d) = date_exec(v, 0) {
                return Some(EventTime::Date(d));
            }
        }
        return None;
    }
    None
}

/// A `LAST-MODIFIED`/`CREATED` value: the UTC layout only.
fn utc_ts_exec(v: &Vec<char>) -> (r: Option<Timestamp>)
    ensures
        r == utc_ts_of(v@),
{
    let n = v.len();
    if n == 16 && v[15] == 'Z' {
        proof {
            assert(v@.take(15) =~= v@.subrange(0, 15));
        }
        ts_exec(v, 0)
    } else {
        None
    }
}

// ---------------------------------------------------------------------
// The scan and the property fold, executably.
// ---------------------------------------------------------------------
struct Scanner {
    mode: ScanMode,
    depth: usize,
    events: usize,
    todos: usize,
    journals: usize,
    props: Vec<(Vec<char>, Vec<char>)>,
    extra: bool,
    failed: bool,
}

spec fn scanner_matches(sc: Scanner, st: ScanState) -> bool {
    &&& sc.mode == st.mode
    &&& sc.depth as int == st.depth
    &&& sc.events as int == st.events
    &&& sc.todos as int == st.todos
    &&& sc.journals as int == st.journals
    &&& sc.props@.len() == st.props.len()
    &&& forall|k: int|
        0 <= k < st.props.len() ==> (#[trigger] sc.props@[k]).0@ == st.props[k].0
            && sc.props@[k].1@ == st.props[k].1
    &&& sc.extra == st.extra
    &&& sc.failed == st.failed
}

fn scan_exec(lines: &Vec<Vec<char>>) -> (sc: Scanner)
    ensures
        scanner_matches(sc, scan_lines(views(lines@))),
{
    let mut sc = Scanner {
        mode: ScanMode::Top,
        depth: 0,
        events: 0,
        todos: 0,
        journals: 0,
        props: Vec::new(),
        extra: false,
        failed: false,
    };
    let ghost full = views(lines@);
    let n = lines.len();
    let mut i: usize = 0;
    while i < n
        invariant
            i <= n,
            n == lines@.len(),
            full == views(lines@),
            scanner_matches(sc, scan_lines(full.take(i as int))),
            sc.depth <= i,
            sc.events <= i,
            sc.todos <= i,
            sc.journals <= i,
        decreases n - i,
    {
        let l = &lines[i];
        proof {
            assert(full.take(i + 1).drop_last() =~= full.take(i as int));
            assert(full.take(i + 1).last() == full[i as int]);
            assert(full[i as int] == l@);
        }
        let ghost st = scan_lines(full.take(i as int));
        if !sc.failed {
            let sep = sep_pos_exec(l);
            let colon = colon_pos_exec(l);
            let has = colon < l.len();
            let is_begin = chars_eq_str(l, 0, sep, "BEGIN");
            let is_end = chars_eq_str(l, 0, sep, "END");
            proof {
                assert(l@.subrange(0, sep as int) =~= line_name(l@));
            }
            let mut is_vcalendar = false;
            let mut is_vevent = false;
            let mut is_vtodo = false;
            let mut is_vjournal = false;
            if has {
                proof {
                    assert(l@.subrange(colon + 1, l@.len() as int) =~= line_value(l@));
                }
                is_vcalendar = chars_eq_str(l, colon + 1, l.len(), "VCALENDAR");
                is_vevent = chars_eq_str(l, colon + 1, l.len(), "VEVENT");
                is_vtodo = chars_eq_str(l, colon + 1, l.len(), "VTODO");
                is_vjournal = chars_eq_str(l, colon + 1, l.len(), "VJOURNAL");
            }
            match sc.mode {
                ScanMode::Done => {
                    if has && is_begin && is_vcalendar {
                        sc.extra = true;
                    }
                },
                ScanMode::Top => {
                    if !(has) {
                        sc.failed = true;
                    } else if is_begin && is_vcalendar {
                        sc.mode = ScanMode::InCal;
                    } else {
                        sc.failed = true;
                    }
                },
                ScanMode::InCal => {
                    if !(has) {
                        sc.failed = true;
                    } else if is_begin {
                        if is_vevent {
                            sc.mode = ScanMode::InEvent;
                            sc.events = sc.events + 1;
                        } else if is_vtodo {
                            sc.mode = ScanMode::SkipCal;
                            sc.depth = 1;
                            sc.todos = sc.todos + 1;
                        } else if is_vjournal {
                            sc.mode = ScanMode::SkipCal;
                            sc.depth = 1;
                            sc.journals = sc.journals + 1;
                        } else {
                            sc.mode = ScanMode::SkipCal;
                            sc.depth = 1;
                        }
                    } else if is_end {
                        if is_vcalendar {
                            sc.mode = ScanMode::Done;
                        } else {
                            sc.failed = true;
                        }
                    }
                },
                ScanMode::InEvent => {
                    if !(has) {
                        sc.failed = true;
                    } else if is_begin {
                        sc.mode = ScanMode::SkipEvent;
                        sc.depth = 1;
                    } else if is_end {
                        if is_vevent {
                            sc.mode = ScanMode::InCal;
                        } else {
                            sc.failed = true;
                        }
                    } else if sc.events == 1 {
                        let pname = sub_chars(l, 0, sep);
                        let pvalue = sub_chars(l, colon + 1, l.len());
                        let ghost old_props = sc.props@;
                        sc.props.push((pname, pvalue));
                        proof {
                            assert(sc.props@.len() == st.props.push(
                                (line_name(l@), line_value(l@)),
                            ).len());
                        }
                    }
                },
                ScanMode::SkipCal => {
                    if !(has) {
                        sc.failed = true;
                    } else if is_begin {
                        sc.depth = sc.depth + 1;
                    } else if is_end {
                        if sc.depth <= 1 {
                            sc.mode = ScanMode::InCal;
                            sc.depth = 0;
                        } else {
                            sc.depth = sc.depth - 1;
                        }
                    }
                },
                ScanMode::SkipEvent => {
                    if !(has) {
                        sc.failed = true;
                    } else if is_begin {
                        sc.depth = sc.depth + 1;
                    } else if is_end {
                        if sc.depth <= 1 {
                            sc.mode = ScanMode::InEvent;
                            sc.depth = 0;
                        } else {
                            sc.depth = sc.depth - 1;
                        }
                    }
                },
            }
        }
        proof {
            assert(scanner_matches(sc, scan_step(st, full[i as int])));
        }
        i = i + 1;
    }
    proof {
        assert(full.take(n as int) =~= full);
    }
    sc
}

struct FieldVals {
    name: Option<Vec<char>>,
    uid: Option<Vec<char>>,
    dtstart: Option<EventTime>,
    dtend: Option<EventTime>,
    location: Option<Vec<char>>,
    description: Option<Vec<char>>,
    last_modified: Option<Timestamp>,
    creation_date: Option<Timestamp>,
    extra: Vec<(Vec<char>, Vec<char>)>,
}

spec fn ov(o: Option<Vec<char>>) -> Option<Seq<char>> {
    match o {
        Some(v) => Some(v@),
        None => None,
    }
}

spec fn fields_match(f: FieldVals, a: FieldsAcc) -> bool {
    &&& ov(f.name) == a.name
    &&& ov(f.uid) == a.uid
    &&& f.dtstart == a.dtstart
    &&& f.dtend == a.dtend
    &&& ov(f.location) == a.location
    &&& ov(f.description) == a.description
    &&& f.last_modified == a.last_modified
    &&& f.creation_date == a.creation_date
    &&& f.extra@.len() == a.extra.len()
    &&& forall|k: int|
        0 <= k < a.extra.len() ==> (#[trigger] f.extra@[k]).0@ == a.extra[k].0
            && f.extra@[k].1@ == a.extra[k].1
}

fn fields_exec(
    props: &Vec<(Vec<char>, Vec<char>)>,
    Ghost(p): Ghost<Seq<(Seq<char>, Seq<char>)>>,
) -> (f: FieldVals)
    requires
        props@.len() == p.len(),
        forall|k: int|
            0 <= k < p.len() ==> (#[trigger] props@[k]).0@ == p[k].0 && props@[k].1@ == p[k].1,
    ensures
        fields_match(f, collect_fields(p)),
{
    let mut f = FieldVals {
        name: None,
        uid: None,
        dtstart: None,
        dtend: None,
        location: None,
        description: None,
        last_modified: None,
        creation_date: None,
        extra: Vec::new(),
    };
    let n = props.len();
    let mut i: usize = 0;
    while i < n
        invariant
            i <= n,
            n == props@.len(),
            n == p.len(),
            forall|k: int|
                0 <= k < p.len() ==> (#[trigger] props@[k]).0@ == p[k].0 && props@[k].1@
                    == p[k].1,
            fields_match(f, collect_fields(p.take(i as int))),
        decreases n - i,
    {
        let pr = &props[i];
        proof {
            assert(p.take(i + 1).drop_last() =~= p.take(i as int));
            assert(p.take(i + 1).last() == p[i as int]);
            assert(pr.0@ == p[i as int].0);
            assert(pr.1@ == p[i as int].1);
        }
        let nlen = pr.0.len();
        let vlen = pr.1.len();
        proof {
            assert(pr.0@.subrange(0, nlen as int) =~= pr.0@);
            assert(pr.1@.subrange(0, vlen as int) =~= pr.1@);
        }
        if chars_eq_str(&pr.0, 0, nlen, "SUMMARY") {
            f.name = Some(sub_chars(&pr.1, 0, vlen));
        } else if chars_eq_str(&pr.0, 0, nlen, "UID") {
            f.uid = Some(sub_chars(&pr.1, 0, vlen));
        } else if chars_eq_str(&pr.0, 0, nlen, "DTSTART") {
            f.dtstart = event_time_exec(&pr.1);
        } else if chars_eq_str(&pr.0, 0, nlen, "DTEND") {
            f.dtend = event_time_exec(&pr.1);
        } else if chars_eq_str(&pr.0, 0, nlen, "LOCATION") {
            f.location = Some(sub_chars(&pr.1, 0, vlen));
        } else if chars_eq_str(&pr.0, 0, nlen, "DESCRIPTION") {
            f.description = Some(sub_chars(&pr.1, 0, vlen));
        } else if chars_eq_str(&pr.0, 0, nlen, "LAST-MODIFIED") {
            f.last_modified = utc_ts_exec(&pr.1);
        } else if chars_eq_str(&pr.0, 0, nlen, "CREATED") {
            f.creation_date = utc_ts_exec(&pr.1);
        } else {
            let pname = sub_chars(&pr.0, 0, nlen);
            let pvalue = sub_chars(&pr.1, 0, vlen);
            f.extra.push((pname, pvalue));
            proof {
                assert(f.extra@.len() == collect_fields(p.take(i + 1)).extra.len());
            }
        }
        i = i + 1;
    }
    proof {
        assert(p.take(n as int) =~= p);
    }
    f
}

/// Parse one iCal payload into an `Event`, against the resource URL it
/// came from. Returns exactly what `spec_parse` says of the text: the
/// event's attributes on success, the owed `ParseError` otherwise.
pub fn parse(content: &str, item_url: &str) -> (r: Result<Event, ParseError>)
    ensures
        ({
            let sp = spec_parse(content@, item_url@);
            match r {
                Ok(e) => sp == Ok::<EventModel, ParseError>(e.model()),
                Err(pe) => sp == Err::<EventModel, ParseError>(pe),
            }
        }),
{
    let cs = to_chars(content);
    let lines = split_exec(&cs);
    let unfolded = unfold_exec(&lines);
    let live = drop_blanks_exec(&unfolded);
    let sc = scan_exec(&live);
    let ghost st = scan_lines(content_lines(content@));
    proof {
        assert(views(live@) == content_lines(content@));
        assert(scanner_matches(sc, st));
    }
    if sc.failed {
        return Err(ParseError::Malformed);
    }
    if !(matches!(sc.mode, ScanMode::Done)) {
        return Err(ParseError::Malformed);
    }
    if sc.extra {
        return Err(ParseError::Unsupported);
    }
    if sc.events != 1 || sc.todos != 0 || sc.journals != 0 {
        return Err(ParseError::Unsupported);
    }
    let f = fields_exec(&sc.props, Ghost(st.props));
    let ghost a = collect_fields(st.props);
    let name = match f.name {
        Some(v) => v,
        None => {
            return Err(ParseError::MissingField(Field::Name));
        },
    };
    let uid = match f.uid {
        Some(v) => v,
        None => {
            return Err(ParseError::MissingField(Field::Uid));
        },
    };
    let dtstart = match f.dtstart {
        Some(t) => t,
        None => {
            return Err(ParseError::MissingField(Field::DtStart));
        },
    };
    let dtend = match f.dtend {
        Some(t) => t,
        None => {
            return Err(ParseError::MissingField(Field::DtEnd));
        },
    };
    let last_modified = match f.last_modified {
        Some(t) => t,
        None => {
            return Err(ParseError::MissingField(Field::LastModified));
        },
    };
    let name_s = chars_to_string(&name, 0, name.len());
    let uid_s = chars_to_string(&uid, 0, uid.len());
    let location_s = match f.location {
        Some(v) => {
            let s2 = chars_to_string(&v, 0, v.len());
            proof {
                assert(s2@ =~= v@);
            }
            Some(s2)
        },
        None => None,
    };
    let description_s = match f.description {
        Some(v) => {
            let s2 = chars_to_string(&v, 0, v.len());
            proof {
                assert(s2@ =~= v@);
            }
            Some(s2)
        },
        None => None,
    };
    let url_s = item_url.to_owned();
    proof {
        assert(name_s@ =~= name@);
        assert(uid_s@ =~= uid@);
        assert(location_s.deep_view() == a.location);
        assert(description_s.deep_view() == a.description);
        assert(a.name == Some(name@));
        assert(a.uid == Some(uid@));
        assert(a.dtstart == Some(dtstart));
        assert(a.dtend == Some(dtend));
        assert(a.last_modified == Some(last_modified));
    }
    let ghost m = EventModel {
        name: name@,
        uid: uid@,
        dtstart: dtstart,
        dtend: dtend,
        location: a.location,
        description: a.description,
        last_modified: last_modified,
        creation_date: f.creation_date,
        url: item_url@,
        extra_properties: a.extra,
    };
    let mut extras: Vec<(String, String)> = Vec::new();
    let ne = f.extra.len();
    let mut ei: usize = 0;
    while ei < ne
        invariant
            ei <= ne,
            ne == f.extra@.len(),
            ne == a.extra.len(),
            forall|k: int|
                0 <= k < a.extra.len() ==> (#[trigger] f.extra@[k]).0@ == a.extra[k].0
                    && f.extra@[k].1@ == a.extra[k].1,
            extras@.len() == ei,
            forall|k: int|
                0 <= k < ei ==> (#[trigger] extras@[k]).0@ == a.extra[k].0 && extras@[k].1@
                    == a.extra[k].1,
        decreases ne - ei,
    {
        let pr = &f.extra[ei];
        let pn = chars_to_string(&pr.0, 0, pr.0.len());
        let pv = chars_to_string(&pr.1, 0, pr.1.len());
        proof {
            assert(pr.0@.subrange(0, pr.0@.len() as int) =~= pr.0@);
            assert(pr.1@.subrange(0, pr.1@.len() as int) =~= pr.1@);
        }
        extras.push((pn, pv));
        ei = ei + 1;
    }
    proof {
        assert(extras@.map_values(|p: (String, String)| (p.0@, p.1@)) =~= a.extra);
    }
    match (dtstart, dtend) {
        (EventTime::DateTime(ts), EventTime::DateTime(te)) => {
            let e = Event::new_timed(
                name_s,
                uid_s,
                ts,
                te,
                location_s,
                description_s,
                url_s,
                last_modified,
                f.creation_date,
            );
            let mut e = e;
            e.set_extra_properties(extras);
            proof {
                assert(e.model() == m);
            }
            Ok(e)
        },
        (EventTime::Date(ds), EventTime::Date(de)) => {
            if ds.day_number() > de.day_number() {
                Err(ParseError::InvertedRange)
            } else {
                let e = Event::new_all_day(
                    name_s,
                    uid_s,
                    ds,
                    de,
                    location_s,
                    description_s,
                    url_s,
                    last_modified,
                    f.creation_date,
                );
                let mut e = e;
                e.set_extra_properties(extras);
                proof {
                    assert(e.model() == m);
                }
                Ok(e)
            }
        },
        _ => Err(ParseError::InconsistentTimes),
    }
}

} // verus!

