use onvif::error::ParseError;
use onvif::extract::{classify, from_events, Extractor, Progress, Tag};
use onvif::xml::XmlEvent;

fn open(name: &str) -> XmlEvent {
    XmlEvent::Open(name.to_string())
}

fn close(name: &str) -> XmlEvent {
    XmlEvent::Close(name.to_string())
}

fn text(content: &str) -> XmlEvent {
    XmlEvent::Text(content.to_string())
}

fn header() -> Vec<XmlEvent> {
    vec![
        XmlEvent::Other,
        open("s:Envelope"),
        open("s:Header"),
        open("a:Action"),
        text("http://schemas.xmlsoap.org/ws/2005/04/discovery/ProbeMatches"),
        close("a:Action"),
        close("s:Header"),
    ]
}

fn body() -> Vec<XmlEvent> {
    vec![
        open("s:Body"),
        open("d:ProbeMatches"),
        open("d:ProbeMatch"),
        open("a:EndpointReference"),
        open("a:Address"),
        text("urn:uuid:0001"),
        close("a:Address"),
        close("a:EndpointReference"),
        open("d:Types"),
        text("tdn:NetworkVideoTransmitter tds:Device"),
        close("d:Types"),
        open("d:Scopes"),
        text("onvif://www.onvif.org/name/Cam onvif://www.onvif.org/hardware/H1"),
        close("d:Scopes"),
        open("d:XAddrs"),
        text("http://10.0.0.9/a http://[fe80::1]/a"),
        close("d:XAddrs"),
        close("d:ProbeMatch"),
        close("d:ProbeMatches"),
        close("s:Body"),
        close("s:Envelope"),
        XmlEvent::End,
    ]
}

fn reply() -> Vec<XmlEvent> {
    let mut events = header();
    events.extend(body());
    events
}

#[test]
fn elements_are_told_apart_by_local_name() {
    assert_eq!(classify("SOAP-ENV:Header"), Tag::Header);
    assert_eq!(classify("Header"), Tag::Header);
    assert_eq!(classify("s:Body"), Tag::Body);
    assert_eq!(classify("wsa:Address"), Tag::Address);
    assert_eq!(classify("d:Types"), Tag::Types);
    assert_eq!(classify("d:Scopes"), Tag::Scopes);
    assert_eq!(classify("d:XAddrs"), Tag::XAddrs);
    assert_eq!(classify("d:MetadataVersion"), Tag::Unknown);
    assert_eq!(classify("d:types"), Tag::Unknown);
    assert_eq!(classify("Types:d"), Tag::Unknown);
    assert_eq!(classify(""), Tag::Unknown);
}

#[test]
fn events_of_a_reply_give_the_record() {
    let found = from_events(&reply()).unwrap();
    assert_eq!(found.urn(), "urn:uuid:0001");
    assert_eq!(found.types(), &vec!["tdn:NetworkVideoTransmitter".to_string(), "tds:Device".to_string()]);
    assert_eq!(found.scopes().len(), 2);
    assert_eq!(found.xaddrs(), &vec!["http://10.0.0.9/a".to_string(), "http://[fe80::1]/a".to_string()]);
    assert_eq!(found.name(), "Cam");
    assert_eq!(found.hardware(), "H1");
    assert_eq!(found.location(), "");
}

#[test]
fn an_unknown_element_changes_nothing() {
    let plain = from_events(&reply()).unwrap();
    for at in 0..reply().len() - 1 {
        let mut events = reply();
        events.insert(at, close("v:Vendor"));
        events.insert(at, text("onvif://www.onvif.org/name/Other urn:uuid:9999"));
        events.insert(at, open("v:Vendor"));
        assert_eq!(from_events(&events).unwrap(), plain);
    }
}

#[test]
fn no_events_miss_the_header() {
    assert_eq!(from_events(&Vec::new()).unwrap_err(), ParseError::MissingHeader);
}

#[test]
fn a_header_that_is_not_closed_is_missing() {
    let mut events = header();
    events.pop();
    events.push(XmlEvent::End);
    assert_eq!(from_events(&events).unwrap_err(), ParseError::MissingHeader);
    events.pop();
    assert_eq!(from_events(&events).unwrap_err(), ParseError::MissingHeader);
}

#[test]
fn a_body_without_a_header_section_misses_the_header() {
    let mut events = vec![open("s:Envelope")];
    events.extend(body());
    assert_eq!(from_events(&events).unwrap_err(), ParseError::MissingHeader);
}

#[test]
fn a_malformed_place_in_the_header_is_malformed() {
    let mut events = header();
    events.insert(3, XmlEvent::Malformed);
    events.extend(body());
    assert_eq!(from_events(&events).unwrap_err(), ParseError::MalformedXml);
}

#[test]
fn a_malformed_place_in_the_body_is_malformed() {
    let mut events = reply();
    let at = events.len() - 4;
    events.insert(at, XmlEvent::Malformed);
    assert_eq!(from_events(&events).unwrap_err(), ParseError::MalformedXml);
}

#[test]
fn a_body_that_is_not_closed_is_malformed() {
    let mut events = reply();
    events.truncate(events.len() - 3);
    assert_eq!(from_events(&events).unwrap_err(), ParseError::MalformedXml);
    events.push(XmlEvent::End);
    assert_eq!(from_events(&events).unwrap_err(), ParseError::MalformedXml);
}

#[test]
fn nothing_is_read_after_the_body() {
    let plain = from_events(&reply()).unwrap();
    let mut events = reply();
    events.truncate(events.len() - 2);
    events.push(XmlEvent::Malformed);
    events.push(open("d:Types"));
    events.push(text("late"));
    assert_eq!(from_events(&events).unwrap(), plain);
}

#[test]
fn text_in_the_header_is_passed_over() {
    let mut events = vec![
        open("s:Envelope"),
        open("s:Header"),
        open("a:Address"),
        text("urn:uuid:header"),
        close("a:Address"),
        close("s:Header"),
    ];
    events.extend(body());
    assert_eq!(from_events(&events).unwrap().urn(), "urn:uuid:0001");
}

#[test]
fn text_belongs_to_the_innermost_open_element() {
    let mut events = header();
    events.extend(vec![
        open("s:Body"),
        text("urn:uuid:loose"),
        open("d:Types"),
        open("v:Inner"),
        text("inner"),
        close("v:Inner"),
        text("after"),
        close("d:Types"),
        text("d:Types again"),
        close("s:Body"),
    ]);
    let found = from_events(&events).unwrap();
    assert_eq!(found.urn(), "");
    assert_eq!(found.types(), &vec!["after".to_string()]);
}

#[test]
fn later_text_replaces_earlier_and_blank_text_does_not() {
    let mut events = header();
    events.extend(vec![
        open("s:Body"),
        open("a:Address"),
        text("  urn:uuid:first "),
        XmlEvent::Other,
        text("\n  urn:uuid:second\n"),
        text(" \n "),
        close("a:Address"),
        open("d:XAddrs"),
        text("http://a"),
        text("\t"),
        close("d:XAddrs"),
        open("d:Scopes"),
        text("s1 s2"),
        text("s3"),
        close("d:Scopes"),
        close("s:Body"),
    ]);
    let found = from_events(&events).unwrap();
    assert_eq!(found.urn(), "urn:uuid:second");
    assert_eq!(found.xaddrs(), &vec!["http://a".to_string()]);
    assert_eq!(found.scopes(), &vec!["s3".to_string()]);
    assert_eq!(found.types(), &Vec::<String>::new());
}

#[test]
fn an_end_tag_with_nothing_open_is_passed_over() {
    let mut events = header();
    events.extend(vec![
        close("d:Stray"),
        open("d:Types"),
        text("t"),
        close("d:Types"),
        close("Body"),
    ]);
    assert_eq!(from_events(&events).unwrap().types(), &vec!["t".to_string()]);
}

#[test]
fn feeding_event_by_event_goes_the_same_way() {
    let mut scan = Extractor::new();
    let events = reply();
    let mut outcome = None;
    for event in events.iter() {
        match scan.feed(event) {
            Progress::Going(next) => scan = next,
            Progress::Done(result) => {
                outcome = Some(result);
                break;
            }
        }
    }
    assert_eq!(outcome.unwrap().unwrap(), from_events(&events).unwrap());
}

#[test]
fn giving_out_depends_on_the_section() {
    let scan = Extractor::new();
    assert_eq!(scan.give_out().unwrap_err(), ParseError::MissingHeader);
    let scan = match scan.feed(&close("s:Header")) {
        Progress::Going(next) => next,
        Progress::Done(_) => panic!("the header's end tag ends nothing"),
    };
    assert_eq!(scan.give_out().unwrap_err(), ParseError::MalformedXml);
    match scan.feed(&XmlEvent::End) {
        Progress::Done(Err(e)) => assert_eq!(e, ParseError::MalformedXml),
        _ => panic!("the end of the document ends the extraction"),
    }
}
