//! The calendar query client's verifiable half: building the REPORT
//! query body, walking a parsed response document for the embedded
//! calendar payloads, parsing each payload, and sorting the events.
//!
//! Issuing the HTTP request itself is I/O and lives outside the
//! library; `events_from_report` takes the response body it produced.

use crate::event::{time_value, Event, EventModel};
use crate::format::{pad2, pad4, push_pad2, push_pad4};
use crate::parser::{parse, spec_parse};
use crate::time::Timestamp;
use crate::util::str_eq;
use crate::xml::{find_elems, find_in_forest, parse_xml, xml_of, XmlNode};
use vstd::prelude::*;
use vstd::seq_lib::lemma_multiset_commutative;
use vstd::string::StringExecFns;

verus! {

/// Where the calendar lives and how to authenticate against it.
#[derive(Clone, Debug)]
pub struct CalDavCredentials {
    url: String,
    username: String,
    password: String,
}

impl CalDavCredentials {
    pub closed spec fn url_spec(&self) -> Seq<char> {
        self.url@
    }

    pub closed spec fn username_spec(&self) -> Seq<char> {
        self.username@
    }

    pub closed spec fn password_spec(&self) -> Seq<char> {
        self.password@
    }

    pub fn new(url: String, username: String, password: String) -> (c: CalDavCredentials)
        ensures
            c.url_spec() == url@,
            c.username_spec() == username@,
            c.password_spec() == password@,
    {
        CalDavCredentials { url, username, password }
    }

    pub fn url(&self) -> (r: &String)
        ensures
            r@ == self.url_spec(),
    {
        &self.url
    }

    pub fn username(&self) -> (r: &String)
        ensures
            r@ == self.username_spec(),
    {
        &self.username
    }

    pub fn password(&self) -> (r: &String)
        ensures
            r@ == self.password_spec(),
    {
        &self.password
    }
}

// ---------------------------------------------------------------------
// The query body.
// ---------------------------------------------------------------------
/// A timestamp in the on-the-wire form `YYYYMMDDThhmmssZ`.
pub open spec fn caldav_stamp(t: Timestamp) -> Seq<char> {
    pad4(t.date.year as int) + pad2(t.date.month as int) + pad2(t.date.day as int) + "T"@ + pad2(
        t.hour as int,
    ) + pad2(t.minute as int) + pad2(t.second as int) + "Z"@
}

/// The full calendar-query body for a time window.
pub open spec fn query_body_spec(start: Timestamp, end: Timestamp) -> Seq<char> {
    "<?xml version=\"1.0\" encoding=\"UTF-8\" ?>\n<C:calendar-query xmlns:C=\"urn:ietf:params:xml:ns:caldav\">\n  <D:prop xmlns:D=\"DAV:\">\n    <D:getetag/>\n    <C:calendar-data>\n      <C:comp name=\"VCALENDAR\">\n        <C:comp name=\"VEVENT\"/>\n      </C:comp>\n    </C:calendar-data>\n  </D:prop>\n  <C:filter>\n    <C:comp-filter name=\"VCALENDAR\">\n      <C:comp-filter name=\"VEVENT\">\n        <C:time-range start=\""@
        + caldav_stamp(start) + "\" end=\""@ + caldav_stamp(end)
        + "\"/>\n      </C:comp-filter>\n    </C:comp-filter>\n  </C:filter>\n</C:calendar-query>\n"@
}

fn push_stamp(s: &mut String, t: &Timestamp)
    ensures
        final(s)@ == old(s)@ + caldav_stamp(*t),
{
    push_pad4(s, t.date.year as u32);
    push_pad2(s, t.date.month as u32);
    push_pad2(s, t.date.day as u32);
    s.append("T");
    push_pad2(s, t.hour as u32);
    push_pad2(s, t.minute as u32);
    push_pad2(s, t.second as u32);
    s.append("Z");
}

/// The REPORT body asking for events overlapping `start..end`. No order
/// between the two bounds is required: the window is passed through to
/// the server as given.
pub fn build_query_body(start: &Timestamp, end: &Timestamp) -> (r: String)
    ensures
        r@ == query_body_spec(*start, *end),
{
    let mut s =
        "<?xml version=\"1.0\" encoding=\"UTF-8\" ?>\n<C:calendar-query xmlns:C=\"urn:ietf:params:xml:ns:caldav\">\n  <D:prop xmlns:D=\"DAV:\">\n    <D:getetag/>\n    <C:calendar-data>\n      <C:comp name=\"VCALENDAR\">\n        <C:comp name=\"VEVENT\"/>\n      </C:comp>\n    </C:calendar-data>\n  </D:prop>\n  <C:filter>\n    <C:comp-filter name=\"VCALENDAR\">\n      <C:comp-filter name=\"VEVENT\">\n        <C:time-range start=\"".to_owned();
    push_stamp(&mut s, start);
    s.append("\" end=\"");
    push_stamp(&mut s, end);
    s.append(
        "\"/>\n      </C:comp-filter>\n    </C:comp-filter>\n  </C:filter>\n</C:calendar-query>\n",
    );
    s
}

// ---------------------------------------------------------------------
// Extracting the calendar payloads from a response document.
// ---------------------------------------------------------------------
/// The text of one `calendar-data` element, if that is what `c` is.
pub open spec fn data_of(c: XmlNode) -> Seq<String> {
    if c.name@ == "calendar-data"@ && c.ns@ == "urn:ietf:params:xml:ns:caldav"@ {
        seq![c.text]
    } else {
        Seq::empty()
    }
}

pub open spec fn datas_of(cs: Seq<XmlNode>) -> Seq<String>
    decreases cs.len(),
{
    if cs.len() == 0 {
        Seq::empty()
    } else {
        datas_of(cs.drop_last()) + data_of(cs.last())
    }
}

/// The payload texts under one `prop` element, if that is what `c` is.
pub open spec fn prop_data(c: XmlNode) -> Seq<String> {
    if c.name@ == "prop"@ && c.ns@ == "DAV:"@ {
        datas_of(c.children@)
    } else {
        Seq::empty()
    }
}

pub open spec fn props_data(cs: Seq<XmlNode>) -> Seq<String>
    decreases cs.len(),
{
    if cs.len() == 0 {
        Seq::empty()
    } else {
        props_data(cs.drop_last()) + prop_data(cs.last())
    }
}

/// The payload texts under one `propstat` element, if that is what `c` is.
pub open spec fn propstat_data(c: XmlNode) -> Seq<String> {
    if c.name@ == "propstat"@ && c.ns@ == "DAV:"@ {
        props_data(c.children@)
    } else {
        Seq::empty()
    }
}

pub open spec fn propstats_data(cs: Seq<XmlNode>) -> Seq<String>
    decreases cs.len(),
{
    if cs.len() == 0 {
        Seq::empty()
    } else {
        propstats_data(cs.drop_last()) + propstat_data(cs.last())
    }
}

/// The payload texts under one `response` element, if that is what it is.
pub open spec fn response_data(c: XmlNode) -> Seq<String> {
    if c.name@ == "response"@ && c.ns@ == "DAV:"@ {
        propstats_data(c.children@)
    } else {
        Seq::empty()
    }
}

/// Every calendar payload under the given `response` elements, walking
/// `response` then `propstat` then `prop` then `calendar-data`, each
/// level namespace-checked, in document order.
pub open spec fn responses_data(rs: Seq<XmlNode>) -> Seq<String>
    decreases rs.len(),
{
    if rs.len() == 0 {
        Seq::empty()
    } else {
        responses_data(rs.drop_last()) + response_data(rs.last())
    }
}

fn collect_datas(c: &XmlNode, out: &mut Vec<String>)
    ensures
        final(out)@ == old(out)@ + data_of(*c),
{
    if str_eq(c.name.as_str(), "calendar-data") && str_eq(
        c.ns.as_str(),
        "urn:ietf:params:xml:ns:caldav",
    ) {
        out.push(c.text.clone());
        proof {
            assert(final(out)@ =~= old(out)@ + data_of(*c));
        }
    } else {
        proof {
            assert(old(out)@ + data_of(*c) =~= old(out)@);
        }
    }
}

fn collect_prop(c: &XmlNode, out: &mut Vec<String>)
    ensures
        final(out)@ == old(out)@ + prop_data(*c),
{
    if str_eq(c.name.as_str(), "prop") && str_eq(c.ns.as_str(), "DAV:") {
        let n = c.children.len();
        let mut i: usize = 0;
        proof {
            assert(old(out)@ + datas_of(c.children@.take(0int)) =~= old(out)@);
        }
        while i < n
            invariant
                i <= n,
                n == c.children@.len(),
                out@ == old(out)@ + datas_of(c.children@.take(i as int)),
            decreases n - i,
        {
            proof {
                assert(c.children@.take(i + 1).drop_last() =~= c.children@.take(i as int));
                assert(c.children@.take(i + 1).last() == c.children@[i as int]);
            }
            collect_datas(&c.children[i], out);
            i = i + 1;
        }
        proof {
            assert(c.children@.take(n as int) =~= c.children@);
        }
    } else {
        proof {
            assert(old(out)@ + prop_data(*c) =~= old(out)@);
        }
    }
}

fn collect_propstat(c: &XmlNode, out: &mut Vec<String>)
    ensures
        final(out)@ == old(out)@ + propstat_data(*c),
{
    if str_eq(c.name.as_str(), "propstat") && str_eq(c.ns.as_str(), "DAV:") {
        let n = c.children.len();
        let mut i: usize = 0;
        proof {
            assert(old(out)@ + props_data(c.children@.take(0int)) =~= old(out)@);
        }
        while i < n
            invariant
                i <= n,
                n == c.children@.len(),
                out@ == old(out)@ + props_data(c.children@.take(i as int)),
            decreases n - i,
        {
            proof {
                assert(c.children@.take(i + 1).drop_last() =~= c.children@.take(i as int));
                assert(c.children@.take(i + 1).last() == c.children@[i as int]);
            }
            collect_prop(&c.children[i], out);
            i = i + 1;
        }
        proof {
            assert(c.children@.take(n as int) =~= c.children@);
        }
    } else {
        proof {
            assert(old(out)@ + propstat_data(*c) =~= old(out)@);
        }
    }
}

fn collect_response(c: &XmlNode, out: &mut Vec<String>)
    ensures
        final(out)@ == old(out)@ + response_data(*c),
{
    if str_eq(c.name.as_str(), "response") && str_eq(c.ns.as_str(), "DAV:") {
        let n = c.children.len();
        let mut i: usize = 0;
        proof {
            assert(old(out)@ + propstats_data(c.children@.take(0int)) =~= old(out)@);
        }
        while i < n
            invariant
                i <= n,
                n == c.children@.len(),
                out@ == old(out)@ + propstats_data(c.children@.take(i as int)),
            decreases n - i,
        {
            proof {
                assert(c.children@.take(i + 1).drop_last() =~= c.children@.take(i as int));
                assert(c.children@.take(i + 1).last() == c.children@[i as int]);
            }
            collect_propstat(&c.children[i], out);
            i = i + 1;
        }
        proof {
            assert(c.children@.take(n as int) =~= c.children@);
        }
    } else {
        proof {
            assert(old(out)@ + response_data(*c) =~= old(out)@);
        }
    }
}

/// Collects every payload under the given `response` elements, walking
/// `response/propstat/prop/calendar-data` with the namespace checks.
fn extract_calendar_data(responses: &Vec<&XmlNode>, Ghost(rs): Ghost<Seq<XmlNode>>) -> (r: Vec<
    String,
>)
    requires
        responses@.len() == rs.len(),
        forall|k: int| 0 <= k < rs.len() ==> *(#[trigger] responses@[k]) == rs[k],
    ensures
        r@ == responses_data(rs),
{
    let mut out: Vec<String> = Vec::new();
    let n = responses.len();
    let mut i: usize = 0;
    proof {
        assert(out@ =~= responses_data(rs.take(0int)));
    }
    while i < n
        invariant
            i <= n,
            n == responses@.len(),
            n == rs.len(),
            forall|k: int| 0 <= k < rs.len() ==> *(#[trigger] responses@[k]) == rs[k],
            out@ == responses_data(rs.take(i as int)),
        decreases n - i,
    {
        proof {
            assert(rs.take(i + 1).drop_last() =~= rs.take(i as int));
            assert(rs.take(i + 1).last() == rs[i as int]);
        }
        collect_response(responses[i], &mut out);
        i = i + 1;
    }
    proof {
        assert(rs.take(n as int) =~= rs);
    }
    out
}

// ---------------------------------------------------------------------
// Parsing the payloads and sorting the events.
// ---------------------------------------------------------------------
/// The parsed response document, or nothing when the body is not
/// well-formed XML: the caller's cue to log that hard error before
/// treating the fetch as empty.
pub fn report_document(body: &str) -> (r: Option<XmlNode>)
    ensures
        r == xml_of(body@),
{
    parse_xml(body)
}

/// The calendar payloads of a parsed REPORT response document: the text
/// of every `calendar-data` element reached by walking any `response`
/// element (found at any depth) through `propstat` and `prop`, each
/// level checked for its name and namespace, in document order.
pub fn extract_event_payloads(root: &XmlNode) -> (r: Vec<String>)
    ensures
        r@ == responses_data(find_in_forest(root.children@, "response"@)),
{
    let responses = find_elems(root, "response");
    let ghost rs = find_in_forest(root.children@, "response"@);
    extract_calendar_data(&responses, Ghost(rs))
}

/// The events that parse out of the payloads, in order, failures skipped.
pub open spec fn payload_events(ps: Seq<String>, url: Seq<char>) -> Seq<EventModel>
    decreases ps.len(),
{
    if ps.len() == 0 {
        Seq::empty()
    } else {
        payload_events(ps.drop_last(), url) + (match spec_parse(ps.last()@, url) {
            Ok(m) => seq![m],
            Err(_) => Seq::empty(),
        })
    }
}

/// Everything a REPORT response body yields: the events of every
/// payload found by the extraction walk, or nothing at all when the
/// body is not well-formed XML.
pub open spec fn report_models(body: Seq<char>, url: Seq<char>) -> Seq<EventModel> {
    match xml_of(body) {
        None => Seq::empty(),
        Some(root) => payload_events(
            responses_data(find_in_forest(root.children@, "response"@)),
            url,
        ),
    }
}

/// Events in ascending start order.
pub open spec fn events_sorted(s: Seq<Event>) -> bool {
    forall|i: int, j: int|
        0 <= i < j < s.len() ==> time_value(#[trigger] s[i].dtstart_spec()) <= time_value(
            #[trigger] s[j].dtstart_spec(),
        )
}

/// Inserting anywhere adds one occurrence to the multiset.
proof fn lemma_insert_to_multiset(s: Seq<Event>, p: int, x: Event)
    requires
        0 <= p <= s.len(),
    ensures
        s.insert(p, x).to_multiset() == s.to_multiset().insert(x),
{
    let left = s.subrange(0, p);
    let right = s.subrange(p, s.len() as int);
    assert(s.insert(p, x) == left.push(x) + right);
    lemma_multiset_commutative(left.push(x), right);
    lemma_multiset_commutative(left, right);
    left.to_multiset_ensures();
    assert(left + right =~= s);
    assert(s.insert(p, x).to_multiset() =~= s.to_multiset().insert(x));
}

/// Sorts events by their start time: the result is ordered and holds
/// exactly the same events, multiplicity included.
pub fn sort_events(v: Vec<Event>) -> (r: Vec<Event>)
    ensures
        events_sorted(r@),
        r@.to_multiset() == v@.to_multiset(),
{
    let mut src = v;
    let mut out: Vec<Event> = Vec::new();
    let ghost whole = src@;
    proof {
        whole.to_multiset_ensures();
        out@.to_multiset_ensures();
        assert(out@.to_multiset().add(src@.to_multiset()) =~= whole.to_multiset());
    }
    while src.len() > 0
        invariant
            events_sorted(out@),
            out@.to_multiset().add(src@.to_multiset()) == whole.to_multiset(),
        decreases src@.len(),
    {
        let ghost src0 = src@;
        let ghost out0 = out@;
        let e = src.remove(0);
        proof {
            src0.to_multiset_ensures();
            assert(src@.to_multiset() =~= src0.to_multiset().remove(e));
        }
        let ev = e.dtstart().value_seconds();
        let mut p: usize = 0;
        let mut scanning = true;
        while scanning
            invariant
                p <= out@.len(),
                out@ == out0,
                events_sorted(out@),
                ev == time_value(e.dtstart_spec()),
                forall|k: int|
                    0 <= k < p ==> time_value(#[trigger] out@[k].dtstart_spec()) <= time_value(
                        e.dtstart_spec(),
                    ),
                !scanning ==> p == out@.len() || time_value(out@[p as int].dtstart_spec())
                    > time_value(e.dtstart_spec()),
            decreases out@.len() - p + (if scanning {
                1int
            } else {
                0int
            }),
        {
            if p < out.len() {
                let cur = out[p].dtstart().value_seconds();
                if cur <= ev {
                    p = p + 1;
                } else {
                    scanning = false;
                }
            } else {
                scanning = false;
            }
        }
        let ghost pp = p as int;
        proof {
            assert forall|k: int| pp <= k < out0.len() implies time_value(
                #[trigger] out0[k].dtstart_spec(),
            ) > time_value(e.dtstart_spec()) by {
                assert(time_value(out0[pp].dtstart_spec()) > time_value(e.dtstart_spec()));
                if k > pp {
                    assert(time_value(out0[pp].dtstart_spec()) <= time_value(
                        out0[k].dtstart_spec(),
                    ));
                }
            };
        }
        out.insert(p, e);
        proof {
            lemma_insert_to_multiset(out0, pp, e);
            assert(out@.to_multiset().add(src@.to_multiset()) =~= whole.to_multiset());
            assert forall|i: int, j: int| 0 <= i < j < out@.len() implies time_value(
                #[trigger] out@[i].dtstart_spec(),
            ) <= time_value(#[trigger] out@[j].dtstart_spec()) by {
                assert(out@ == out0.insert(pp, e));
                if i < pp {
                    assert(out@[i] == out0[i]);
                } else if i == pp {
                    assert(out@[i] == e);
                } else {
                    assert(out@[i] == out0[i - 1]);
                }
                if j < pp {
                    assert(out@[j] == out0[j]);
                } else if j == pp {
                    assert(out@[j] == e);
                } else {
                    assert(out@[j] == out0[j - 1]);
                }
            };
        }
    }
    proof {
        src@.to_multiset_ensures();
        assert(src@.to_multiset().len() == 0);
        assert(out@.to_multiset().add(src@.to_multiset()) =~= out@.to_multiset());
    }
    out
}

/// Two event lists with the same events have models with the same
/// multiset.
proof fn lemma_models_multiset(a: Seq<Event>, b: Seq<Event>)
    requires
        a.to_multiset() == b.to_multiset(),
    ensures
        a.map_values(|e: Event| e.model()).to_multiset() == b.map_values(
            |e: Event| e.model(),
        ).to_multiset(),
    decreases a.len(),
{
    a.to_multiset_ensures();
    b.to_multiset_ensures();
    a.map_values(|e: Event| e.model()).to_multiset_ensures();
    b.map_values(|e: Event| e.model()).to_multiset_ensures();
    if a.len() == 0 {
        assert(b.len() == 0);
        assert(a.map_values(|e: Event| e.model()) =~= b.map_values(|e: Event| e.model()));
    } else {
        let x = a.last();
        assert(a.drop_last().push(x) =~= a);
        a.drop_last().to_multiset_ensures();
        assert(a.to_multiset().count(x) > 0);
        assert(b.to_multiset().count(x) > 0);
        assert(b.contains(x));
        let j = choose|j: int| 0 <= j < b.len() && b[j] == x;
        assert(a.drop_last().to_multiset() =~= b.remove(j).to_multiset()) by {
            assert(a.to_multiset() =~= a.drop_last().to_multiset().insert(x));
            assert(b.remove(j).to_multiset() =~= b.to_multiset().remove(x));
        };
        lemma_models_multiset(a.drop_last(), b.remove(j));
        let fa = a.map_values(|e: Event| e.model());
        let fb = b.map_values(|e: Event| e.model());
        let fa1 = a.drop_last().map_values(|e: Event| e.model());
        let fb1 = b.remove(j).map_values(|e: Event| e.model());
        fa1.to_multiset_ensures();
        fb1.to_multiset_ensures();
        fb.to_multiset_ensures();
        assert(fa =~= fa1.push(x.model()));
        assert(fb1 =~= fb.remove(j));
        assert(fb.remove(j).to_multiset() =~= fb.to_multiset().remove(fb[j]));
        assert(fb[j] == x.model());
        assert(fb.to_multiset().count(x.model()) > 0) by {
            assert(fb.contains(fb[j]));
        };
        assert(fa.to_multiset() =~= fa1.to_multiset().insert(x.model()));
        assert(fb.to_multiset() =~= fb1.to_multiset().insert(x.model()));
    }
}

/// Everything the client does with a REPORT response body: parse it as
/// XML (a malformed document yields no events), walk out the payloads,
/// parse each one (a payload that fails to parse is skipped), and sort
/// the events by start time.
pub fn events_from_report(body: &str, url: &str) -> (r: Vec<Event>)
    ensures
        events_sorted(r@),
        r@.map_values(|e: Event| e.model()).to_multiset() == report_models(
            body@,
            url@,
        ).to_multiset(),
{
    let doc = parse_xml(body);
    match doc {
        None => {
            let r: Vec<Event> = Vec::new();
            proof {
                r@.map_values(|e: Event| e.model()).to_multiset_ensures();
                report_models(body@, url@).to_multiset_ensures();
                assert(r@.map_values(|e: Event| e.model()) =~= Seq::<EventModel>::empty());
                assert(report_models(body@, url@) =~= Seq::<EventModel>::empty());
            }
            r
        },
        Some(root) => {
            let ghost rs = find_in_forest(root.children@, "response"@);
            let payloads = extract_event_payloads(&root);
            let mut events: Vec<Event> = Vec::new();
            let n = payloads.len();
            let mut i: usize = 0;
            proof {
                assert(events@.map_values(|e: Event| e.model()) =~= payload_events(
                    payloads@.take(0int),
                    url@,
                ));
            }
            while i < n
                invariant
                    i <= n,
                    n == payloads@.len(),
                    payloads@ == responses_data(rs),
                    events@.map_values(|e: Event| e.model()) == payload_events(
                        payloads@.take(i as int),
                        url@,
                    ),
                decreases n - i,
            {
                proof {
                    assert(payloads@.take(i + 1).drop_last() =~= payloads@.take(i as int));
                    assert(payloads@.take(i + 1).last() == payloads@[i as int]);
                }
                let ghost before = events@.map_values(|e: Event| e.model());
                match parse(payloads[i].as_str(), url) {
                    Ok(e) => {
                        events.push(e);
                        proof {
                            assert(events@.map_values(|e: Event| e.model()) =~= before.push(
                                e.model(),
                            ));
                        }
                    },
                    Err(_) => {
                        proof {
                            assert(payload_events(payloads@.take(i + 1), url@) =~= before);
                        }
                    },
                }
                i = i + 1;
            }
            proof {
                assert(payloads@.take(n as int) =~= payloads@);
            }
            let r = sort_events(events);
            proof {
                lemma_models_multiset(r@, events@);
            }
            r
        },
    }
}

} // verus!
