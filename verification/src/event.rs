//! Calendar events and their total order.
//!
//! An `EventTime` is either a bare calendar date (an all-day event) or a
//! UTC timestamp. The two variants share one total order: a date counts
//! as midnight UTC of that day. An `Event` orders by its start time alone
//! and compares equal by its `uid` alone.

use crate::time::{date_day_number, date_valid, ts_seconds, ts_valid, Date, Timestamp};
use core::cmp::Ordering;
use vstd::prelude::*;
use vstd::std_specs::cmp::{PartialEqSpec, PartialOrdSpec};

verus! {

/// The start or end of a calendar event: an all-day date, or an instant.
#[derive(Clone, Copy, Debug)]
pub enum EventTime {
    Date(Date),
    DateTime(Timestamp),
}

/// The number of seconds since the epoch that an `EventTime` stands for;
/// a bare date stands for midnight UTC of that day. The whole order on
/// event times, and on events, is the order of this value. The mapping
/// is total — every date, even one whose fields fall outside the
/// calendar, has a midnight value — so a cross-variant comparison is
/// never undefined.
pub open spec fn time_value(t: EventTime) -> int {
    match t {
        EventTime::Date(d) => date_day_number(d) * 86400,
        EventTime::DateTime(ts) => ts_seconds(ts),
    }
}

/// Calendar validity of an event time: the date is a real calendar
/// date, and a timestamp's clock fields are in range.
pub open spec fn et_valid(t: EventTime) -> bool {
    match t {
        EventTime::Date(d) => date_valid(d),
        EventTime::DateTime(ts) => ts_valid(ts),
    }
}

/// The ordering of two event times: the ordering of their numeric values.
pub open spec fn et_cmp(a: EventTime, b: EventTime) -> Ordering {
    if time_value(a) < time_value(b) {
        Ordering::Less
    } else if time_value(a) == time_value(b) {
        Ordering::Equal
    } else {
        Ordering::Greater
    }
}

impl EventTime {
    pub fn as_date(&self) -> (r: Option<&Date>)
        ensures
            match r {
                Some(d) => *self matches EventTime::Date(x) && x == *d,
                None => !(*self matches EventTime::Date(_)),
            },
    {
        match self {
            EventTime::Date(date) => Some(date),
            _ => None,
        }
    }

    /// The seconds-since-epoch value that fixes this time's place in the
    /// total order.
    pub fn value_seconds(&self) -> (s: i64)
        ensures
            s == time_value(*self),
    {
        match self {
            EventTime::Date(d) => d.day_number() * 86400,
            EventTime::DateTime(ts) => ts.epoch_seconds(),
        }
    }

    /// Total comparison across both variants.
    pub fn cmp(&self, other: &Self) -> (r: Ordering)
        ensures
            r == et_cmp(*self, *other),
    {
        let a = self.value_seconds();
        let b = other.value_seconds();
        if a < b {
            Ordering::Less
        } else if a == b {
            Ordering::Equal
        } else {
            Ordering::Greater
        }
    }
}

impl PartialEq for EventTime {
    fn eq(&self, other: &Self) -> (r: bool) {
        matches!(self.cmp(other), Ordering::Equal)
    }
}

impl vstd::std_specs::cmp::PartialEqSpecImpl for EventTime {
    open spec fn obeys_eq_spec() -> bool {
        true
    }

    open spec fn eq_spec(&self, other: &Self) -> bool {
        time_value(*self) == time_value(*other)
    }
}

impl Eq for EventTime {}

impl PartialOrd for EventTime {
    fn partial_cmp(&self, other: &Self) -> (r: Option<Ordering>) {
        Some(self.cmp(other))
    }
}

impl vstd::std_specs::cmp::PartialOrdSpecImpl for EventTime {
    open spec fn obeys_partial_cmp_spec() -> bool {
        true
    }

    open spec fn partial_cmp_spec(&self, other: &Self) -> Option<Ordering> {
        Some(et_cmp(*self, *other))
    }
}

/// The order on event times is total: any two compare, in exactly one way.
pub proof fn lemma_et_order_total(a: EventTime, b: EventTime)
    ensures
        et_cmp(a, b) == Ordering::Less <==> time_value(a) < time_value(b),
        et_cmp(a, b) == Ordering::Equal <==> time_value(a) == time_value(b),
        et_cmp(a, b) == Ordering::Greater <==> time_value(a) > time_value(b),
{
}

/// Antisymmetry: comparisons in the two directions mirror each other.
pub proof fn lemma_et_order_antisymmetric(a: EventTime, b: EventTime)
    ensures
        et_cmp(a, b) == Ordering::Less <==> et_cmp(b, a) == Ordering::Greater,
        et_cmp(a, b) == Ordering::Equal <==> et_cmp(b, a) == Ordering::Equal,
{
}

/// Transitivity of the strict order and of equality.
pub proof fn lemma_et_order_transitive(a: EventTime, b: EventTime, c: EventTime)
    ensures
        et_cmp(a, b) == Ordering::Less && et_cmp(b, c) == Ordering::Less ==> et_cmp(a, c)
            == Ordering::Less,
        et_cmp(a, b) == Ordering::Equal && et_cmp(b, c) == Ordering::Equal ==> et_cmp(a, c)
            == Ordering::Equal,
{
}

/// A bare date compares equal to the instant at midnight UTC of that date.
pub proof fn lemma_date_equals_midnight(d: Date)
    ensures
        et_cmp(
            EventTime::Date(d),
            EventTime::DateTime(Timestamp { date: d, hour: 0, minute: 0, second: 0 }),
        ) == Ordering::Equal,
{
}

/// The attributes of an `Event`, as mathematical values: what contracts
/// about events are stated over.
pub ghost struct EventModel {
    pub name: Seq<char>,
    pub uid: Seq<char>,
    pub dtstart: EventTime,
    pub dtend: EventTime,
    pub location: Option<Seq<char>>,
    pub description: Option<Seq<char>>,
    pub last_modified: Timestamp,
    pub creation_date: Option<Timestamp>,
    pub url: Seq<char>,
    pub extra_properties: Seq<(Seq<char>, Seq<char>)>,
}

/// One calendar entry. Identity is the `uid`; the order is the start time.
#[derive(Clone, Debug)]
pub struct Event {
    uid: String,
    name: String,
    dtstart: EventTime,
    dtend: EventTime,
    location: Option<String>,
    description: Option<String>,
    last_modified: Timestamp,
    creation_date: Option<Timestamp>,
    url: String,
    extra_properties: Vec<(String, String)>,
}

impl Event {
    pub closed spec fn uid_spec(&self) -> Seq<char> {
        self.uid@
    }

    pub closed spec fn name_spec(&self) -> Seq<char> {
        self.name@
    }

    pub closed spec fn dtstart_spec(&self) -> EventTime {
        self.dtstart
    }

    pub closed spec fn dtend_spec(&self) -> EventTime {
        self.dtend
    }

    pub closed spec fn location_spec(&self) -> Option<Seq<char>> {
        match self.location {
            Some(ref s) => Some(s@),
            None => None,
        }
    }

    pub closed spec fn description_spec(&self) -> Option<Seq<char>> {
        match self.description {
            Some(ref s) => Some(s@),
            None => None,
        }
    }

    pub closed spec fn last_modified_spec(&self) -> Timestamp {
        self.last_modified
    }

    pub closed spec fn creation_date_spec(&self) -> Option<Timestamp> {
        self.creation_date
    }

    pub closed spec fn url_spec(&self) -> Seq<char> {
        self.url@
    }

    /// The unrecognized properties the parser preserved, as name/value
    /// pairs in source order.
    pub closed spec fn extra_properties_spec(&self) -> Seq<(Seq<char>, Seq<char>)> {
        self.extra_properties@.map_values(|p: (String, String)| (p.0@, p.1@))
    }

    /// All attributes of this event at once.
    pub open spec fn model(&self) -> EventModel {
        EventModel {
            name: self.name_spec(),
            uid: self.uid_spec(),
            dtstart: self.dtstart_spec(),
            dtend: self.dtend_spec(),
            location: self.location_spec(),
            description: self.description_spec(),
            last_modified: self.last_modified_spec(),
            creation_date: self.creation_date_spec(),
            url: self.url_spec(),
            extra_properties: self.extra_properties_spec(),
        }
    }

    /// Both bounds are instants.
    pub fn new_timed(
        name: String,
        uid: String,
        dtstart: Timestamp,
        dtend: Timestamp,
        location: Option<String>,
        description: Option<String>,
        url: String,
        last_modified: Timestamp,
        creation_date: Option<Timestamp>,
    ) -> (e: Event)
        ensures
            e.name_spec() == name@,
            e.uid_spec() == uid@,
            e.dtstart_spec() == EventTime::DateTime(dtstart),
            e.dtend_spec() == EventTime::DateTime(dtend),
            e.location_spec() == location.deep_view(),
            e.description_spec() == description.deep_view(),
            e.url_spec() == url@,
            e.last_modified_spec() == last_modified,
            e.creation_date_spec() == creation_date,
            e.extra_properties_spec() == Seq::<(Seq<char>, Seq<char>)>::empty(),
    {
        let e = Event {
            name,
            uid,
            dtstart: EventTime::DateTime(dtstart),
            dtend: EventTime::DateTime(dtend),
            location,
            description,
            last_modified,
            creation_date,
            url,
            extra_properties: Vec::new(),
        };
        proof {
            assert(e.extra_properties_spec() =~= Seq::<(Seq<char>, Seq<char>)>::empty());
        }
        e
    }

    /// Both bounds are bare dates.
    pub fn new_all_day(
        name: String,
        uid: String,
        dtstart: Date,
        dtend: Date,
        location: Option<String>,
        description: Option<String>,
        url: String,
        last_modified: Timestamp,
        creation_date: Option<Timestamp>,
    ) -> (e: Event)
        ensures
            e.name_spec() == name@,
            e.uid_spec() == uid@,
            e.dtstart_spec() == EventTime::Date(dtstart),
            e.dtend_spec() == EventTime::Date(dtend),
            e.location_spec() == location.deep_view(),
            e.description_spec() == description.deep_view(),
            e.url_spec() == url@,
            e.last_modified_spec() == last_modified,
            e.creation_date_spec() == creation_date,
            e.extra_properties_spec() == Seq::<(Seq<char>, Seq<char>)>::empty(),
    {
        let e = Event {
            name,
            uid,
            dtstart: EventTime::Date(dtstart),
            dtend: EventTime::Date(dtend),
            location,
            description,
            last_modified,
            creation_date,
            url,
            extra_properties: Vec::new(),
        };
        proof {
            assert(e.extra_properties_spec() =~= Seq::<(Seq<char>, Seq<char>)>::empty());
        }
        e
    }

    pub fn name(&self) -> (r: &str)
        ensures
            r@ == self.name_spec(),
    {
        self.name.as_str()
    }

    pub fn uid(&self) -> (r: &str)
        ensures
            r@ == self.uid_spec(),
    {
        self.uid.as_str()
    }

    pub fn dtstart(&self) -> (r: &EventTime)
        ensures
            *r == self.dtstart_spec(),
    {
        &self.dtstart
    }

    pub fn dtend(&self) -> (r: &EventTime)
        ensures
            *r == self.dtend_spec(),
    {
        &self.dtend
    }

    /// The unrecognized properties preserved from the source, as
    /// name/value pairs in source order.
    pub fn extra_properties(&self) -> (r: &Vec<(String, String)>)
        ensures
            r@.len() == self.extra_properties_spec().len(),
            forall|k: int|
                0 <= k < r@.len() ==> (#[trigger] r@[k]).0@ == self.extra_properties_spec()[k].0
                    && r@[k].1@ == self.extra_properties_spec()[k].1,
    {
        &self.extra_properties
    }

    /// Attaches the unrecognized properties the parser collected; every
    /// other attribute stays as it was.
    pub(crate) fn set_extra_properties(&mut self, extra: Vec<(String, String)>)
        ensures
            final(self).model() == (EventModel {
                extra_properties: extra@.map_values(|p: (String, String)| (p.0@, p.1@)),
                ..old(self).model()
            }),
    {
        self.extra_properties = extra;
    }

    /// Comparison by start time alone.
    pub fn cmp(&self, other: &Self) -> (r: Ordering)
        ensures
            r == et_cmp(self.dtstart_spec(), other.dtstart_spec()),
    {
        self.dtstart.cmp(&other.dtstart)
    }
}

impl PartialEq for Event {
    fn eq(&self, other: &Self) -> (r: bool) {
        self.uid.eq(&other.uid)
    }
}

impl vstd::std_specs::cmp::PartialEqSpecImpl for Event {
    open spec fn obeys_eq_spec() -> bool {
        true
    }

    closed spec fn eq_spec(&self, other: &Self) -> bool {
        self.uid@ == other.uid@
    }
}

impl Eq for Event {}

impl PartialOrd for Event {
    fn partial_cmp(&self, other: &Self) -> (r: Option<Ordering>) {
        Some(self.cmp(other))
    }
}

impl vstd::std_specs::cmp::PartialOrdSpecImpl for Event {
    open spec fn obeys_partial_cmp_spec() -> bool {
        true
    }

    closed spec fn partial_cmp_spec(&self, other: &Self) -> Option<Ordering> {
        Some(et_cmp(self.dtstart_spec(), other.dtstart_spec()))
    }
}

/// Event equality is the `uid` alone: every other attribute may differ.
pub proof fn lemma_event_eq_is_uid_only(a: Event, b: Event)
    ensures
        a.eq_spec(&b) <==> a.uid_spec() == b.uid_spec(),
{
}

/// Event ordering is the start time alone: events whose starts carry the
/// same numeric value compare equal, every other attribute notwithstanding.
pub proof fn lemma_event_order_is_start_only(a: Event, b: Event)
    ensures
        a.partial_cmp_spec(&b) == Some(et_cmp(a.dtstart_spec(), b.dtstart_spec())),
        time_value(a.dtstart_spec()) == time_value(b.dtstart_spec()) ==> a.partial_cmp_spec(&b)
            == Some(Ordering::Equal),
{
}

} // verus!
