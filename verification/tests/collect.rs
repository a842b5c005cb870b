use onvif::collect::{Arrival, Collector, Verdict};
use onvif::error::{ParseError, ProbeError};
use onvif::extract::parse;
use onvif::probe_match::ProbeMatch;

fn reply_text(urn: &str) -> String {
    format!(
        "<e:Envelope><e:Header><a:Action>x</a:Action></e:Header><e:Body><d:ProbeMatches><d:ProbeMatch><a:EndpointReference><a:Address>{}</a:Address></a:EndpointReference><d:Types>tdn:NetworkVideoTransmitter</d:Types><d:Scopes>onvif://www.onvif.org/name/N</d:Scopes><d:XAddrs>http://10.0.0.1/onvif</d:XAddrs></d:ProbeMatch></d:ProbeMatches></e:Body></e:Envelope>",
        urn
    )
}

fn device(urn: &str) -> ProbeMatch {
    parse(&reply_text(urn)).unwrap()
}

#[test]
fn the_same_reply_many_times_is_kept_once() {
    let text = reply_text("urn:uuid:aa");
    let mut collector = Collector::new(None);
    for _ in 0..5 {
        let (next, verdict) = collector.take(Arrival::Reply(parse(&text)));
        assert_eq!(verdict, Verdict::Wait);
        collector = next;
    }
    assert_eq!(collector.len(), 1);
    let (collector, verdict) = collector.take(Arrival::Quiet);
    let found = collector.conclude(verdict).unwrap();
    assert_eq!(found, vec![device("urn:uuid:aa")]);
}

#[test]
fn quiet_from_the_start_is_an_empty_result() {
    let collector = Collector::new(None);
    let (collector, verdict) = collector.take(Arrival::Quiet);
    assert_eq!(verdict, Verdict::Finished);
    assert_eq!(collector.conclude(verdict), Ok(Vec::new()));
}

#[test]
fn channel_closed_before_any_reply_is_a_fault() {
    let (collector, verdict) = Collector::new(Some(4)).take(Arrival::Closed);
    assert_eq!(verdict, Verdict::Failed(ProbeError::Channel));
    assert_eq!(collector.conclude(verdict), Err(ProbeError::Channel));
}

#[test]
fn channel_closed_after_a_reply_ends_the_session() {
    let (collector, verdict) =
        Collector::new(None).take(Arrival::Reply(Err(ParseError::MalformedXml)));
    assert_eq!(verdict, Verdict::Wait);
    assert_eq!(collector.len(), 0);
    let (collector, verdict) = collector.take(Arrival::Closed);
    assert_eq!(verdict, Verdict::Finished);
    assert_eq!(collector.conclude(verdict), Ok(Vec::new()));
}

#[test]
fn lost_socket_fails_the_session() {
    let (collector, _) = Collector::new(None).take(Arrival::Reply(Ok(device("urn:uuid:a"))));
    let (collector, verdict) = collector.take(Arrival::SocketLost);
    assert_eq!(verdict, Verdict::Failed(ProbeError::Socket));
    assert_eq!(collector.conclude(verdict), Err(ProbeError::Socket));
}

#[test]
fn unusable_replies_are_dropped() {
    let mut collector = Collector::new(None);
    for outcome in [
        Err(ParseError::MissingHeader),
        Ok(device("urn:uuid:a")),
        Err(ParseError::MalformedXml),
    ] {
        let (next, verdict) = collector.take(Arrival::Reply(outcome));
        assert_eq!(verdict, Verdict::Wait);
        collector = next;
    }
    assert_eq!(collector.matches(), &vec![device("urn:uuid:a")]);
}

#[test]
fn the_session_ends_at_its_limit_of_distinct_devices() {
    let collector = Collector::new(Some(2));
    assert!(!collector.full());
    let (collector, verdict) = collector.take(Arrival::Reply(Ok(device("urn:uuid:a"))));
    assert_eq!(verdict, Verdict::Wait);
    let (collector, verdict) = collector.take(Arrival::Reply(Ok(device("urn:uuid:a"))));
    assert_eq!(verdict, Verdict::Wait);
    assert!(!collector.full());
    let (collector, verdict) = collector.take(Arrival::Reply(Ok(device("urn:uuid:b"))));
    assert_eq!(verdict, Verdict::Finished);
    assert!(collector.full());
    assert_eq!(
        collector.conclude(verdict),
        Ok(vec![device("urn:uuid:a"), device("urn:uuid:b")])
    );
}

#[test]
fn a_limit_of_none_is_full_at_once() {
    let collector = Collector::new(Some(0));
    assert!(collector.full());
    let (collector, verdict) = collector.take(Arrival::Reply(Err(ParseError::MissingHeader)));
    assert_eq!(verdict, Verdict::Finished);
    assert_eq!(collector.len(), 0);
}

#[test]
fn records_stay_in_the_order_of_first_arrival() {
    let mut collector = Collector::new(None);
    for urn in ["urn:c", "urn:a", "urn:c", "urn:b", "urn:a"] {
        let (next, _) = collector.take(Arrival::Reply(Ok(device(urn))));
        collector = next;
    }
    assert_eq!(
        collector.matches(),
        &vec![device("urn:c"), device("urn:a"), device("urn:b")]
    );
}

#[test]
fn note_tells_whether_the_record_is_new() {
    let collector = Collector::new(None);
    assert!(!collector.holds(&device("urn:a")));
    let (collector, new) = collector.note(device("urn:a"));
    assert!(new);
    assert!(collector.holds(&device("urn:a")));
    assert!(!collector.holds(&device("urn:b")));
    let (collector, new) = collector.note(device("urn:a"));
    assert!(!new);
    assert_eq!(collector.len(), 1);
}

#[test]
fn concluding_with_a_fault_gives_the_fault() {
    let (collector, _) = Collector::new(None).note(device("urn:a"));
    assert_eq!(
        collector.conclude(Verdict::Failed(ProbeError::Bind)),
        Err(ProbeError::Bind)
    );
}
