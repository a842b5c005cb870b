use onvif::error::{ParseError, SocketFault};
use onvif::extract::parse;
use onvif::listen::{react, Heard, Reaction};

const SMALL_REPLY: &str = "<e:Envelope><e:Header/><e:Header></e:Header><e:Body><d:XAddrs>http://10.0.0.1/onvif</d:XAddrs></e:Body></e:Envelope>";

#[test]
fn a_datagram_is_read_and_forwarded() {
    match react(Heard::Datagram(SMALL_REPLY.as_bytes())) {
        Reaction::Forward(Ok(found)) => {
            assert_eq!(found, parse(SMALL_REPLY).unwrap());
            assert_eq!(found.xaddrs(), &vec!["http://10.0.0.1/onvif".to_string()]);
        }
        other => panic!("{:?}", other),
    }
}

#[test]
fn a_datagram_that_cannot_be_read_is_forwarded_as_such() {
    assert!(matches!(
        react(Heard::Datagram(&[0xff, 0xfe, 0x00])),
        Reaction::Forward(Err(ParseError::MalformedXml))
    ));
    assert!(matches!(
        react(Heard::Datagram(b"<a><b></a>")),
        Reaction::Forward(Err(ParseError::MalformedXml))
    ));
    assert!(matches!(
        react(Heard::Datagram(b"hello")),
        Reaction::Forward(Err(ParseError::MissingHeader))
    ));
}

#[test]
fn a_read_that_times_out_is_tried_again() {
    assert!(matches!(react(Heard::Failed(SocketFault::TimedOut)), Reaction::Again));
}

#[test]
fn a_failed_read_is_reported() {
    assert!(matches!(react(Heard::Failed(SocketFault::Interrupted)), Reaction::Complain));
    assert!(matches!(react(Heard::Failed(SocketFault::Refused)), Reaction::Complain));
}

#[test]
fn the_stop_signal_and_a_lost_socket_end_the_loop() {
    assert!(matches!(react(Heard::Stop), Reaction::Leave));
    assert!(matches!(react(Heard::Failed(SocketFault::Other)), Reaction::Leave));
}

#[test]
fn only_a_fault_without_a_name_costs_the_socket() {
    assert!(SocketFault::TimedOut.passes());
    assert!(SocketFault::Interrupted.passes());
    assert!(SocketFault::Refused.passes());
    assert!(!SocketFault::Other.passes());
}
