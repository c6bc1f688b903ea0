use calbridge::cal::{
    build_query_body, events_from_report, extract_event_payloads, CalDavCredentials,
};
use calbridge::time::{Date, Timestamp};
use calbridge::xml::{find_elems, XmlNode};

fn ts(year: u16, month: u8, day: u8, hour: u8, minute: u8, second: u8) -> Timestamp {
    Timestamp { date: Date { year, month, day }, hour, minute, second }
}

fn expected_body(start: &str, end: &str) -> String {
    format!(
        "<?xml version=\"1.0\" encoding=\"UTF-8\" ?>\n<C:calendar-query xmlns:C=\"urn:ietf:params:xml:ns:caldav\">\n  <D:prop xmlns:D=\"DAV:\">\n    <D:getetag/>\n    <C:calendar-data>\n      <C:comp name=\"VCALENDAR\">\n        <C:comp name=\"VEVENT\"/>\n      </C:comp>\n    </C:calendar-data>\n  </D:prop>\n  <C:filter>\n    <C:comp-filter name=\"VCALENDAR\">\n      <C:comp-filter name=\"VEVENT\">\n        <C:time-range start=\"{}\" end=\"{}\"/>\n      </C:comp-filter>\n    </C:comp-filter>\n  </C:filter>\n</C:calendar-query>\n",
        start, end
    )
}

#[test]
fn query_body_embeds_the_window() {
    let start = ts(2024, 6, 17, 0, 0, 0);
    let end = ts(2024, 6, 24, 23, 59, 59);
    assert_eq!(
        build_query_body(&start, &end),
        expected_body("20240617T000000Z", "20240624T235959Z")
    );
}

#[test]
fn query_body_accepts_an_inverted_window() {
    // The window is passed through as given; the server decides what an
    // end before the start means.
    let start = ts(2024, 6, 24, 0, 0, 0);
    let end = ts(2024, 6, 10, 0, 0, 0);
    assert_eq!(
        build_query_body(&start, &end),
        expected_body("20240624T000000Z", "20240610T000000Z")
    );
}

#[test]
fn credentials_hand_back_their_parts() {
    let c = CalDavCredentials::new(
        "https://cal.example/user/calendar/".to_string(),
        "user".to_string(),
        "SECRET-REDACTED".to_string(),
    );
    assert_eq!(c.url().as_str(), "https://cal.example/user/calendar/");
    assert_eq!(c.username().as_str(), "user");
    assert_eq!(c.password().as_str(), "SECRET-REDACTED");
}

fn leaf(name: &str, ns: &str, text: &str) -> XmlNode {
    XmlNode {
        name: name.to_string(),
        ns: ns.to_string(),
        text: text.to_string(),
        children: Vec::new(),
    }
}

fn node(name: &str, ns: &str, children: Vec<XmlNode>) -> XmlNode {
    XmlNode { name: name.to_string(), ns: ns.to_string(), text: String::new(), children }
}

#[test]
fn find_elems_walks_depth_first_in_document_order() {
    let tree = node(
        "root",
        "",
        vec![
            node("wrap", "", vec![leaf("hit", "", "first"), leaf("other", "", "x")]),
            leaf("hit", "", "second"),
            node(
                "deep",
                "",
                vec![node("deeper", "", vec![leaf("hit", "", "third")])],
            ),
            // a match nested inside a match is found too, after its parent
            node("hit", "", vec![leaf("hit", "", "inner")]),
        ],
    );
    let found = find_elems(&tree, "hit");
    let texts: Vec<&str> = found.iter().map(|n| n.text.as_str()).collect();
    assert_eq!(texts, vec!["first", "second", "third", "", "inner"]);
}

#[test]
fn extraction_collects_nested_payload_texts_in_document_order() {
    let caldav = "urn:ietf:params:xml:ns:caldav";
    let tree = node(
        "multistatus",
        "DAV:",
        vec![
            node(
                "response",
                "DAV:",
                vec![
                    leaf("href", "DAV:", "/cal/1.ics"),
                    node(
                        "propstat",
                        "DAV:",
                        vec![
                            leaf("status", "DAV:", "HTTP/1.1 200 OK"),
                            node(
                                "prop",
                                "DAV:",
                                vec![
                                    leaf("getetag", "DAV:", "\"e1\""),
                                    leaf("calendar-data", caldav, "payload-one"),
                                    leaf("calendar-data", "DAV:", "wrong namespace"),
                                    leaf("calendar-data", caldav, "payload-two"),
                                ],
                            ),
                        ],
                    ),
                ],
            ),
            // a response nested deeper is still found by the walk
            node(
                "wrapper",
                "DAV:",
                vec![node(
                    "response",
                    "DAV:",
                    vec![node(
                        "propstat",
                        "DAV:",
                        vec![node("prop", "DAV:", vec![leaf("calendar-data", caldav, "payload-three")])],
                    )],
                )],
            ),
            // a calendar-data outside the response/propstat/prop chain is not
            leaf("calendar-data", caldav, "stray"),
        ],
    );
    let payloads = extract_event_payloads(&tree);
    assert_eq!(payloads, vec!["payload-one", "payload-two", "payload-three"]);
}

fn event_payload(uid: &str, start: &str, end: &str) -> String {
    format!(
        "BEGIN:VCALENDAR\nBEGIN:VEVENT\nSUMMARY:Event {}\nUID:{}\nDTSTART:{}\nDTEND:{}\nLAST-MODIFIED:20240601T120000Z\nEND:VEVENT\nEND:VCALENDAR\n",
        uid, uid, start, end
    )
}

#[test]
fn report_response_yields_sorted_events() {
    let later = event_payload("later", "20240620T100000Z", "20240620T110000Z");
    let earlier = event_payload("earlier", "20240617T090000Z", "20240617T100000Z");
    let body = format!(
        "<multistatus xmlns=\"DAV:\" xmlns:C=\"urn:ietf:params:xml:ns:caldav\">\
         <response><href>/cal/1.ics</href><propstat><status>HTTP/1.1 200 OK</status>\
         <prop><getetag>\"e1\"</getetag><C:calendar-data>{}</C:calendar-data></prop>\
         </propstat></response>\
         <wrapper><response><propstat><prop>\
         <C:calendar-data>{}</C:calendar-data></prop></propstat></response></wrapper>\
         </multistatus>",
        later, earlier
    );
    let events = events_from_report(&body, "https://cal.example/");
    assert_eq!(events.len(), 2);
    assert_eq!(events[0].uid(), "earlier");
    assert_eq!(events[1].uid(), "later");
}

#[test]
fn elements_outside_the_expected_chain_are_ignored() {
    let good = event_payload("good", "20240617T090000Z", "20240617T100000Z");
    // calendar-data in the wrong namespace, and one outside a prop: both skipped
    let body = format!(
        "<multistatus xmlns=\"DAV:\" xmlns:C=\"urn:ietf:params:xml:ns:caldav\">\
         <response><C:calendar-data>{}</C:calendar-data>\
         <propstat><prop><calendar-data>{}</calendar-data>\
         <C:calendar-data>{}</C:calendar-data></prop></propstat></response>\
         </multistatus>",
        good, good, good
    );
    let events = events_from_report(&body, "https://cal.example/");
    assert_eq!(events.len(), 1);
}

#[test]
fn unparseable_payloads_are_skipped() {
    let good = event_payload("good", "20240617T090000Z", "20240617T100000Z");
    let body = format!(
        "<multistatus xmlns=\"DAV:\" xmlns:C=\"urn:ietf:params:xml:ns:caldav\">\
         <response><propstat><prop><C:calendar-data>this is not iCal</C:calendar-data>\
         <C:calendar-data>{}</C:calendar-data></prop></propstat></response>\
         </multistatus>",
        good
    );
    let events = events_from_report(&body, "https://cal.example/");
    assert_eq!(events.len(), 1);
    assert_eq!(events[0].uid(), "good");
}

#[test]
fn malformed_xml_yields_no_events() {
    let events = events_from_report("<multistatus><unclosed>", "https://cal.example/");
    assert!(events.is_empty());
    let events2 = events_from_report("plain text", "https://cal.example/");
    assert!(events2.is_empty());
}

#[test]
fn a_document_without_responses_yields_no_events() {
    let body = "<multistatus xmlns=\"DAV:\"></multistatus>";
    let events = events_from_report(body, "https://cal.example/");
    assert!(events.is_empty());
}
