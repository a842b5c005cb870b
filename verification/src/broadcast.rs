//! The sending side of a probe session: the text of a probe, the identifier
//! it carries, and the order in which probes go out.

use crate::error::SocketFault;
use crate::text::text_of;
use vstd::prelude::*;

verus! {

/// The kinds of device that a probe asks for.
#[derive(Debug, Clone, Copy, PartialEq, Eq, Structural)]
pub enum DeviceType {
    NetworkVideoTransmitter,
    Device,
    NetworkVideoDisplay,
}

impl DeviceType {
    /// The name of the device type in the ONVIF network namespace.
    pub open spec fn qualifier_text(self) -> Seq<char> {
        match self {
            DeviceType::NetworkVideoTransmitter => "NetworkVideoTransmitter"@,
            DeviceType::Device => "Device"@,
            DeviceType::NetworkVideoDisplay => "NetworkVideoDisplay"@,
        }
    }

    /// The name of the device type in the ONVIF network namespace.
    pub fn qualifier(self) -> (r: &'static str)
        ensures
            r@ == self.qualifier_text(),
    {
        match self {
            DeviceType::NetworkVideoTransmitter => "NetworkVideoTransmitter",
            DeviceType::Device => "Device",
            DeviceType::NetworkVideoDisplay => "NetworkVideoDisplay",
        }
    }
}

/// A probe up to its message identifier.
pub const PROBE_HEAD: &'static str =
    "<?xml version=\"1.0\" encoding=\"UTF-8\"?><s:Envelope xmlns:s=\"http://www.w3.org/2003/05/soap-envelope\" xmlns:a=\"http://schemas.xmlsoap.org/ws/2004/08/addressing\"><s:Header><a:Action s:mustUnderstand=\"1\">http://schemas.xmlsoap.org/ws/2005/04/discovery/Probe</a:Action><a:MessageID>uuid:";

/// A probe between its message identifier and the device type it asks for.
pub const PROBE_NECK: &'static str =
    "</a:MessageID><a:ReplyTo><a:Address>http://schemas.xmlsoap.org/ws/2004/08/addressing/role/anonymous</a:Address></a:ReplyTo><a:To s:mustUnderstand=\"1\">urn:schemas-xmlsoap-org:ws:2005:04:discovery</a:To></s:Header><s:Body><Probe xmlns=\"http://schemas.xmlsoap.org/ws/2005/04/discovery\"><d:Types xmlns:d=\"http://schemas.xmlsoap.org/ws/2005/04/discovery\" xmlns:dp0=\"http://www.onvif.org/ver10/network/wsdl\">dp0:";

/// A probe after the device type it asks for.
pub const PROBE_TAIL: &'static str = "</d:Types></Probe></s:Body></s:Envelope>";

/// The text of the probe that carries `message_id` and asks for devices of
/// `device_type`: a SOAP envelope whose header holds the probe action, the
/// message identifier, the reply address and the discovery address, and
/// whose body holds the probe for that one type.
pub open spec fn probe_text(message_id: Seq<char>, device_type: DeviceType) -> Seq<char> {
    PROBE_HEAD@ + message_id + PROBE_NECK@ + device_type.qualifier_text() + PROBE_TAIL@
}

/// Writes the probe that carries `message_id` and asks for `device_type`.
pub fn probe_message(message_id: &str, device_type: DeviceType) -> (r: String)
    ensures
        r@ == probe_text(message_id@, device_type),
{
    let mut out = String::from_str(PROBE_HEAD);
    out.append(message_id);
    out.append(PROBE_NECK);
    out.append(device_type.qualifier());
    out.append(PROBE_TAIL);
    out
}

/// The hexadecimal digit for `n`, in lower case.
pub open spec fn hex_digit(n: int) -> char {
    if n == 0 {
        '0'
    } else if n == 1 {
        '1'
    } else if n == 2 {
        '2'
    } else if n == 3 {
        '3'
    } else if n == 4 {
        '4'
    } else if n == 5 {
        '5'
    } else if n == 6 {
        '6'
    } else if n == 7 {
        '7'
    } else if n == 8 {
        '8'
    } else if n == 9 {
        '9'
    } else if n == 10 {
        'a'
    } else if n == 11 {
        'b'
    } else if n == 12 {
        'c'
    } else if n == 13 {
        'd'
    } else if n == 14 {
        'e'
    } else {
        'f'
    }
}

/// The last `count` hexadecimal digits of `value`, most significant first.
pub open spec fn hex_digits(value: int, count: nat) -> Seq<char>
    decreases count,
{
    if count == 0 {
        Seq::empty()
    } else {
        hex_digits(value / 16, (count - 1) as nat).push(hex_digit(value % 16))
    }
}

/// The 128 bits of `bits` in the customary form of a UUID: thirty-two
/// hexadecimal digits in groups of eight, four, four, four and twelve, with
/// hyphens between the groups.
pub open spec fn uuid_text(bits: u128) -> Seq<char> {
    let digits = hex_digits(bits as int, 32);
    digits.subrange(0, 8) + "-"@ + digits.subrange(8, 12) + "-"@ + digits.subrange(12, 16) + "-"@
        + digits.subrange(16, 20) + "-"@ + digits.subrange(20, 32)
}

fn digit_of(n: u128) -> (r: char)
    requires
        n < 16,
    ensures
        r == hex_digit(n as int),
{
    if n == 0 {
        '0'
    } else if n == 1 {
        '1'
    } else if n == 2 {
        '2'
    } else if n == 3 {
        '3'
    } else if n == 4 {
        '4'
    } else if n == 5 {
        '5'
    } else if n == 6 {
        '6'
    } else if n == 7 {
        '7'
    } else if n == 8 {
        '8'
    } else if n == 9 {
        '9'
    } else if n == 10 {
        'a'
    } else if n == 11 {
        'b'
    } else if n == 12 {
        'c'
    } else if n == 13 {
        'd'
    } else if n == 14 {
        'e'
    } else {
        'f'
    }
}

/// Writes `bits` as a UUID. A session that draws `bits` afresh gets a
/// message identifier of its own: see [`lemma_uuid_text_tells_apart`].
pub fn uuid(bits: u128) -> (r: String)
    ensures
        r@ == uuid_text(bits),
{
    let mut digits: Vec<char> = Vec::new();
    while digits.len() < 32
        invariant
            digits.len() <= 32,
        decreases 32 - digits.len(),
    {
        digits.push('0');
    }
    let mut rest: u128 = bits;
    let mut done: usize = 0;
    assert(digits@.subrange(32, 32) == Seq::<char>::empty());
    while done < 32
        invariant
            done <= 32,
            digits.len() == 32,
            hex_digits(bits as int, 32) == hex_digits(rest as int, (32 - done) as nat)
                + digits@.subrange(32 - done, 32),
        decreases 32 - done,
    {
        let ghost before = digits@;
        let digit = digit_of(rest % 16);
        digits.set(31 - done, digit);
        assert(digits@.subrange(31 - done, 32) == seq![digit] + before.subrange(32 - done, 32));
        assert(hex_digits(rest as int / 16, (31 - done) as nat).push(digit) + before.subrange(
            32 - done,
            32,
        ) == hex_digits(rest as int / 16, (31 - done) as nat) + (seq![digit] + before.subrange(
            32 - done,
            32,
        )));
        rest = rest / 16;
        done += 1;
    }
    assert(digits@.subrange(0, 32) == digits@);
    let mut out = text_of(&digits, 0, 8);
    out.append("-");
    out.append(text_of(&digits, 8, 12).as_str());
    out.append("-");
    out.append(text_of(&digits, 12, 16).as_str());
    out.append("-");
    out.append(text_of(&digits, 16, 20).as_str());
    out.append("-");
    out.append(text_of(&digits, 20, 32).as_str());
    out
}

/// Sixteen to the power of `n`.
pub open spec fn sixteen_to(n: nat) -> int
    decreases n,
{
    if n == 0 {
        1
    } else {
        16 * sixteen_to((n - 1) as nat)
    }
}

proof fn lemma_hex_digits_len(value: int, count: nat)
    ensures
        hex_digits(value, count).len() == count,
    decreases count,
{
    if count > 0 {
        lemma_hex_digits_len(value / 16, (count - 1) as nat);
    }
}

/// Two numbers of at most `count` hexadecimal digits that are written with
/// the same digits are the same number.
pub proof fn lemma_hex_digits_tell_apart(a: int, b: int, count: nat)
    requires
        0 <= a < sixteen_to(count),
        0 <= b < sixteen_to(count),
        hex_digits(a, count) == hex_digits(b, count),
    ensures
        a == b,
    decreases count,
{
    if count > 0 {
        let shorter = (count - 1) as nat;
        let high_a = hex_digits(a / 16, shorter);
        let high_b = hex_digits(b / 16, shorter);
        assert(hex_digits(a, count).last() == hex_digit(a % 16));
        assert(hex_digits(b, count).last() == hex_digit(b % 16));
        assert(hex_digits(a, count).drop_last() == high_a);
        assert(hex_digits(b, count).drop_last() == high_b);
        assert(a % 16 == b % 16);
        lemma_hex_digits_tell_apart(a / 16, b / 16, shorter);
    }
}

/// Different bits give different identifiers.
pub proof fn lemma_uuid_text_tells_apart(a: u128, b: u128)
    requires
        uuid_text(a) == uuid_text(b),
    ensures
        a == b,
{
    reveal_strlit("-");
    let digits_a = hex_digits(a as int, 32);
    let digits_b = hex_digits(b as int, 32);
    lemma_hex_digits_len(a as int, 32);
    lemma_hex_digits_len(b as int, 32);
    let text_a = uuid_text(a);
    let text_b = uuid_text(b);
    assert(digits_a == text_a.subrange(0, 8) + text_a.subrange(9, 13) + text_a.subrange(14, 18)
        + text_a.subrange(19, 23) + text_a.subrange(24, 36));
    assert(digits_b == text_b.subrange(0, 8) + text_b.subrange(9, 13) + text_b.subrange(14, 18)
        + text_b.subrange(19, 23) + text_b.subrange(24, 36));
    assert(sixteen_to(32) == 0x1_0000_0000_0000_0000_0000_0000_0000_0000) by {
        reveal_with_fuel(sixteen_to, 33);
    }
    lemma_hex_digits_tell_apart(a as int, b as int, 32);
}

/// The order in which the device types are asked for within one round.
pub open spec fn device_type_at(slot: int) -> DeviceType {
    if slot % 3 == 0 {
        DeviceType::NetworkVideoTransmitter
    } else if slot % 3 == 1 {
        DeviceType::Device
    } else {
        DeviceType::NetworkVideoDisplay
    }
}

/// The probes of a whole session, in the order in which they go out: in
/// each round one for every device type.
pub open spec fn schedule(rounds: nat) -> Seq<DeviceType> {
    Seq::new(3 * rounds, |k: int| device_type_at(k))
}

/// Every round asks for every device type, in the same order.
pub proof fn lemma_round_asks_every_type(rounds: nat, round: int)
    requires
        0 <= round < rounds,
    ensures
        3 * round + 2 < schedule(rounds).len(),
        schedule(rounds)[3 * round] == DeviceType::NetworkVideoTransmitter,
        schedule(rounds)[3 * round + 1] == DeviceType::Device,
        schedule(rounds)[3 * round + 2] == DeviceType::NetworkVideoDisplay,
{
}

/// How sending one probe went.
#[derive(Debug, Clone, Copy, PartialEq, Eq, Structural)]
pub enum SendOutcome {
    /// The probe is on the wire.
    Sent,
    /// This probe could not be sent; the socket is still good.
    Failed,
    /// The socket is of no use any more.
    SocketLost,
}

impl SendOutcome {
    /// How a send went that returned `result`: a fault that leaves the
    /// socket good costs one probe, any other costs the socket.
    pub open spec fn of(result: Result<(), SocketFault>) -> SendOutcome {
        match result {
            Ok(()) => SendOutcome::Sent,
            Err(fault) => if fault.passing() {
                SendOutcome::Failed
            } else {
                SendOutcome::SocketLost
            },
        }
    }

    /// Decides [`SendOutcome::of`].
    pub fn from_result(result: Result<(), SocketFault>) -> (r: SendOutcome)
        ensures
            r == SendOutcome::of(result),
    {
        match result {
            Ok(()) => SendOutcome::Sent,
            Err(fault) => if fault.passes() {
                SendOutcome::Failed
            } else {
                SendOutcome::SocketLost
            },
        }
    }
}

/// The state of the sending side.
#[derive(Debug)]
pub struct Broadcaster {
    rounds: u32,
    handed_out: u64,
    failures: u64,
    lost: bool,
}

/// The mathematical value of a [`Broadcaster`].
pub struct BroadcasterView {
    /// The number of rounds that the session sends.
    pub rounds: nat,
    /// The number of probes handed out for sending so far.
    pub handed_out: nat,
    /// The number of probes that could not be sent, as far as a `u64`
    /// counts.
    pub failures: nat,
    /// Whether the socket was lost.
    pub lost: bool,
}

impl BroadcasterView {
    /// Nothing is left to send: every round is through, or the socket is
    /// lost.
    pub open spec fn done(self) -> bool {
        self.lost || self.handed_out >= schedule(self.rounds).len()
    }

    /// The state after the outcome of one send is known. One probe that
    /// fails is counted and the rest still go out; a lost socket ends the
    /// sending.
    pub open spec fn after(self, outcome: SendOutcome) -> BroadcasterView {
        match outcome {
            SendOutcome::Sent => self,
            SendOutcome::Failed => BroadcasterView {
                failures: if self.failures < u64::MAX {
                    self.failures + 1
                } else {
                    self.failures
                },
                ..self
            },
            SendOutcome::SocketLost => BroadcasterView { lost: true, ..self },
        }
    }
}

impl View for Broadcaster {
    type V = BroadcasterView;

    closed spec fn view(&self) -> BroadcasterView {
        BroadcasterView {
            rounds: self.rounds as nat,
            handed_out: self.handed_out as nat,
            failures: self.failures as nat,
            lost: self.lost,
        }
    }
}

impl Broadcaster {
    /// The sending side of a session of `rounds` rounds, before the first
    /// probe.
    pub fn new(rounds: u32) -> (r: Self)
        ensures
            r@ == (BroadcasterView { rounds: rounds as nat, handed_out: 0, failures: 0, lost: false }),
    {
        Broadcaster { rounds, handed_out: 0, failures: 0, lost: false }
    }

    /// The device type that the next probe asks for, or nothing once the
    /// sending is done.
    pub fn next(&mut self) -> (r: Option<DeviceType>)
        ensures
            old(self)@.done() ==> r is None && final(self)@ == old(self)@,
            !old(self)@.done() ==> r == Some(schedule(old(self)@.rounds)[old(self)@.handed_out as int])
                && final(self)@ == (BroadcasterView {
                handed_out: old(self)@.handed_out + 1,
                ..old(self)@
            }),
    {
        let total: u64 = 3 * (self.rounds as u64);
        if self.lost || self.handed_out >= total {
            None
        } else {
            let slot = self.handed_out % 3;
            self.handed_out = self.handed_out + 1;
            if slot == 0 {
                Some(DeviceType::NetworkVideoTransmitter)
            } else if slot == 1 {
                Some(DeviceType::Device)
            } else {
                Some(DeviceType::NetworkVideoDisplay)
            }
        }
    }

    /// Takes note of how the last send went.
    pub fn report(&mut self, outcome: SendOutcome)
        ensures
            final(self)@ == old(self)@.after(outcome),
    {
        match outcome {
            SendOutcome::Sent => {},
            SendOutcome::Failed => {
                if self.failures < u64::MAX {
                    self.failures = self.failures + 1;
                }
            },
            SendOutcome::SocketLost => {
                self.lost = true;
            },
        }
    }

    /// Whether nothing is left to send.
    pub fn done(&self) -> (r: bool)
        ensures
            r == self@.done(),
    {
        self.lost || self.handed_out >= 3 * (self.rounds as u64)
    }

    /// The number of probes that could not be sent.
    pub fn failures(&self) -> (r: u64)
        ensures
            r == self@.failures,
    {
        self.failures
    }

    /// Whether the socket was lost, which the session has to be told.
    pub fn socket_lost(&self) -> (r: bool)
        ensures
            r == self@.lost,
    {
        self.lost
    }
}

} // verus!
