use calbridge::event::EventTime;
use calbridge::parser::{parse, Field, ParseError};
use calbridge::time::{Date, Timestamp};

const URL: &str = "https://cal.example/item.ics";

fn payload(event_lines: &str) -> String {
    let mut s = String::new();
    s.push_str("BEGIN:VCALENDAR\r\n");
    s.push_str("VERSION:2.0\r\n");
    s.push_str("BEGIN:VEVENT\r\n");
    s.push_str(event_lines);
    s.push_str("END:VEVENT\r\n");
    s.push_str("END:VCALENDAR\r\n");
    s
}

#[test]
fn well_formed_vevent_round_trips() {
    let text = payload(
        "SUMMARY:Team lunch\r\nUID:abc-123\r\nDTSTART:20240617T140000Z\r\nDTEND:20240617T150000Z\r\nLOCATION:Garden\r\nDESCRIPTION:Bring a plate\r\nLAST-MODIFIED:20240601T120000Z\r\nCREATED:20240530T080000Z\r\n",
    );
    let e = parse(&text, URL).unwrap();
    assert_eq!(e.name(), "Team lunch");
    assert_eq!(e.uid(), "abc-123");
    match e.dtstart() {
        EventTime::DateTime(t) => {
            assert_eq!(
                *t,
                Timestamp {
                    date: Date { year: 2024, month: 6, day: 17 },
                    hour: 14,
                    minute: 0,
                    second: 0
                }
            );
        }
        EventTime::Date(_) => panic!("expected a timestamp start"),
    }
    match e.dtend() {
        EventTime::DateTime(t) => {
            assert_eq!(t.hour, 15);
        }
        EventTime::Date(_) => panic!("expected a timestamp end"),
    }
}

#[test]
fn all_day_event_parses_dates() {
    let text = payload(
        "SUMMARY:Fair\r\nUID:fair-1\r\nDTSTART:20240617\r\nDTEND:20240618\r\nLAST-MODIFIED:20240601T120000Z\r\n",
    );
    let e = parse(&text, URL).unwrap();
    match e.dtstart() {
        EventTime::Date(dt) => assert_eq!(*dt, Date { year: 2024, month: 6, day: 17 }),
        EventTime::DateTime(_) => panic!("expected a bare date"),
    }
}

#[test]
fn local_timestamps_are_taken_as_utc() {
    let text = payload(
        "SUMMARY:Call\r\nUID:call-1\r\nDTSTART:20240617T090000\r\nDTEND:20240617T093000\r\nLAST-MODIFIED:20240601T120000Z\r\n",
    );
    let e = parse(&text, URL).unwrap();
    match e.dtstart() {
        EventTime::DateTime(t) => assert_eq!((t.hour, t.minute), (9, 0)),
        EventTime::Date(_) => panic!("expected a timestamp"),
    }
}

#[test]
fn folded_lines_are_unfolded() {
    let text = payload(
        "SUMMARY:A very long\r\n  title indeed\r\nUID:fold-1\r\nDTSTART:20240617\r\nDTEND:20240618\r\nLAST-MODIFIED:20240601T120000Z\r\n",
    );
    let e = parse(&text, URL).unwrap();
    assert_eq!(e.name(), "A very long title indeed");
}

#[test]
fn parameters_are_skipped_in_the_property_name() {
    let text = payload(
        "SUMMARY;LANGUAGE=en:Fete\r\nUID:param-1\r\nDTSTART;VALUE=DATE:20240617\r\nDTEND;VALUE=DATE:20240618\r\nLAST-MODIFIED:20240601T120000Z\r\n",
    );
    let e = parse(&text, URL).unwrap();
    assert_eq!(e.name(), "Fete");
    assert!(matches!(e.dtstart(), EventTime::Date(_)));
}

#[test]
fn zero_events_is_unsupported() {
    let text = "BEGIN:VCALENDAR\r\nVERSION:2.0\r\nEND:VCALENDAR\r\n";
    assert_eq!(parse(text, URL).unwrap_err(), ParseError::Unsupported);
}

#[test]
fn two_events_is_unsupported() {
    let mut s = String::new();
    s.push_str("BEGIN:VCALENDAR\r\n");
    for uid in ["a", "b"] {
        s.push_str("BEGIN:VEVENT\r\n");
        s.push_str(&format!(
            "SUMMARY:x\r\nUID:{}\r\nDTSTART:20240617\r\nDTEND:20240618\r\nLAST-MODIFIED:20240601T120000Z\r\n",
            uid
        ));
        s.push_str("END:VEVENT\r\n");
    }
    s.push_str("END:VCALENDAR\r\n");
    assert_eq!(parse(&s, URL).unwrap_err(), ParseError::Unsupported);
}

#[test]
fn a_todo_beside_the_event_is_unsupported() {
    let text = "BEGIN:VCALENDAR\r\nBEGIN:VEVENT\r\nSUMMARY:x\r\nUID:u\r\nDTSTART:20240617\r\nDTEND:20240618\r\nLAST-MODIFIED:20240601T120000Z\r\nEND:VEVENT\r\nBEGIN:VTODO\r\nUID:t\r\nEND:VTODO\r\nEND:VCALENDAR\r\n";
    assert_eq!(parse(text, URL).unwrap_err(), ParseError::Unsupported);
}

#[test]
fn a_second_calendar_object_is_unsupported() {
    let one = payload(
        "SUMMARY:x\r\nUID:u\r\nDTSTART:20240617\r\nDTEND:20240618\r\nLAST-MODIFIED:20240601T120000Z\r\n",
    );
    let text = format!("{}{}", one, one);
    assert_eq!(parse(&text, URL).unwrap_err(), ParseError::Unsupported);
}

#[test]
fn garbage_is_malformed() {
    assert_eq!(parse("not a calendar at all", URL).unwrap_err(), ParseError::Malformed);
    assert_eq!(parse("", URL).unwrap_err(), ParseError::Malformed);
    assert_eq!(
        parse("BEGIN:VCALENDAR\r\nBEGIN:VEVENT\r\nUID:u\r\n", URL).unwrap_err(),
        ParseError::Malformed
    );
}

#[test]
fn missing_fields_are_reported_each_by_name() {
    let no_summary = payload(
        "UID:u\r\nDTSTART:20240617\r\nDTEND:20240618\r\nLAST-MODIFIED:20240601T120000Z\r\n",
    );
    assert_eq!(parse(&no_summary, URL).unwrap_err(), ParseError::MissingField(Field::Name));
    let no_uid = payload(
        "SUMMARY:x\r\nDTSTART:20240617\r\nDTEND:20240618\r\nLAST-MODIFIED:20240601T120000Z\r\n",
    );
    assert_eq!(parse(&no_uid, URL).unwrap_err(), ParseError::MissingField(Field::Uid));
    let no_start = payload("SUMMARY:x\r\nUID:u\r\nDTEND:20240618\r\nLAST-MODIFIED:20240601T120000Z\r\n");
    assert_eq!(parse(&no_start, URL).unwrap_err(), ParseError::MissingField(Field::DtStart));
    let no_end = payload("SUMMARY:x\r\nUID:u\r\nDTSTART:20240617\r\nLAST-MODIFIED:20240601T120000Z\r\n");
    assert_eq!(parse(&no_end, URL).unwrap_err(), ParseError::MissingField(Field::DtEnd));
    let no_lm = payload("SUMMARY:x\r\nUID:u\r\nDTSTART:20240617\r\nDTEND:20240618\r\n");
    assert_eq!(parse(&no_lm, URL).unwrap_err(), ParseError::MissingField(Field::LastModified));
}

#[test]
fn unreadable_start_counts_as_missing() {
    let text = payload(
        "SUMMARY:x\r\nUID:u\r\nDTSTART:yesterday-ish\r\nDTEND:20240618\r\nLAST-MODIFIED:20240601T120000Z\r\n",
    );
    assert_eq!(parse(&text, URL).unwrap_err(), ParseError::MissingField(Field::DtStart));
    let bad_date = payload(
        "SUMMARY:x\r\nUID:u\r\nDTSTART:20241347\r\nDTEND:20240618\r\nLAST-MODIFIED:20240601T120000Z\r\n",
    );
    assert_eq!(parse(&bad_date, URL).unwrap_err(), ParseError::MissingField(Field::DtStart));
}

#[test]
fn mixed_variants_are_inconsistent() {
    let date_then_instant = payload(
        "SUMMARY:x\r\nUID:u\r\nDTSTART:20240617\r\nDTEND:20240618T100000Z\r\nLAST-MODIFIED:20240601T120000Z\r\n",
    );
    assert_eq!(parse(&date_then_instant, URL).unwrap_err(), ParseError::InconsistentTimes);
    let instant_then_date = payload(
        "SUMMARY:x\r\nUID:u\r\nDTSTART:20240617T100000Z\r\nDTEND:20240618\r\nLAST-MODIFIED:20240601T120000Z\r\n",
    );
    assert_eq!(parse(&instant_then_date, URL).unwrap_err(), ParseError::InconsistentTimes);
}

#[test]
fn inverted_all_day_range_is_rejected() {
    let text = payload(
        "SUMMARY:x\r\nUID:u\r\nDTSTART:20240618\r\nDTEND:20240617\r\nLAST-MODIFIED:20240601T120000Z\r\n",
    );
    assert_eq!(parse(&text, URL).unwrap_err(), ParseError::InvertedRange);
    let equal = payload(
        "SUMMARY:x\r\nUID:u\r\nDTSTART:20240617\r\nDTEND:20240617\r\nLAST-MODIFIED:20240601T120000Z\r\n",
    );
    assert!(parse(&equal, URL).is_ok());
}

#[test]
fn nested_components_inside_the_event_are_skipped() {
    let text = payload(
        "SUMMARY:x\r\nUID:u\r\nBEGIN:VALARM\r\nTRIGGER:-PT15M\r\nEND:VALARM\r\nDTSTART:20240617\r\nDTEND:20240618\r\nLAST-MODIFIED:20240601T120000Z\r\n",
    );
    let e = parse(&text, URL).unwrap();
    assert_eq!(e.uid(), "u");
}

#[test]
fn unrecognized_properties_are_preserved_in_order() {
    let text = payload(
        "SUMMARY:Team lunch\r\nX-CUSTOM;FOO=bar:hello\r\nUID:abc-123\r\nSTATUS:CONFIRMED\r\nDTSTART:20240617\r\nDTEND:20240618\r\nLAST-MODIFIED:20240601T120000Z\r\nSEQUENCE:3\r\n",
    );
    let e = parse(&text, URL).unwrap();
    let extras: Vec<(&str, &str)> = e
        .extra_properties()
        .iter()
        .map(|p| (p.0.as_str(), p.1.as_str()))
        .collect();
    assert_eq!(
        extras,
        vec![("X-CUSTOM", "hello"), ("STATUS", "CONFIRMED"), ("SEQUENCE", "3")]
    );
}

#[test]
fn recognized_properties_leave_no_extras() {
    let text = payload(
        "SUMMARY:x\r\nUID:u\r\nDTSTART:20240617\r\nDTEND:20240618\r\nLAST-MODIFIED:20240601T120000Z\r\n",
    );
    let e = parse(&text, URL).unwrap();
    assert!(e.extra_properties().is_empty());
}

#[test]
fn quoted_parameter_values_may_hold_colons() {
    let text = payload(
        "SUMMARY;X-NOTE=\"see:here\":Real title\r\nUID:u\r\nX-REF;ALTREP=\"cid:part1\":kept value\r\nDTSTART:20240617\r\nDTEND:20240618\r\nLAST-MODIFIED:20240601T120000Z\r\n",
    );
    let e = parse(&text, URL).unwrap();
    assert_eq!(e.name(), "Real title");
    let extras: Vec<(&str, &str)> = e
        .extra_properties()
        .iter()
        .map(|p| (p.0.as_str(), p.1.as_str()))
        .collect();
    assert_eq!(extras, vec![("X-REF", "kept value")]);
}

#[test]
fn later_occurrences_overwrite_earlier_ones() {
    let text = payload(
        "SUMMARY:first\r\nSUMMARY:second\r\nUID:u\r\nDTSTART:20240617\r\nDTEND:20240618\r\nLAST-MODIFIED:20240601T120000Z\r\n",
    );
    let e = parse(&text, URL).unwrap();
    assert_eq!(e.name(), "second");
}
