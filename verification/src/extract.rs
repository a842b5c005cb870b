//! The extraction of a probe match from one reply.
//!
//! A reply is a SOAP envelope. Its header section is passed over; in its
//! body the character data of four elements is kept, whatever else stands
//! beside them. Elements are told apart by their local names, so that the
//! prefixes a device chooses for its namespaces do not matter.

use crate::error::ParseError;
use crate::probe_match::{advert, ProbeMatch, ProbeMatchView};
use crate::text::{local_name, local_part, split_words, trim, trimmed, utf8_text, words};
use crate::xml::{
    open_reader, read_event, reader_document, reader_position, xml_events, Token, XmlEvent,
};
use vstd::prelude::*;
use vstd::utf8::{decode_utf8, valid_utf8};

verus! {

/// The elements that the extraction tells apart.
#[derive(Debug, Clone, Copy, PartialEq, Eq, Structural)]
pub enum Tag {
    /// The header section of the envelope.
    Header,
    /// The body of the envelope.
    Body,
    /// The address of the endpoint reference: the device's identifier.
    Address,
    /// The list of device types.
    Types,
    /// The list of scopes.
    Scopes,
    /// The list of service addresses.
    XAddrs,
    /// Any other element.
    Unknown,
}

/// The element that a qualified name stands for.
pub open spec fn tag_of(name: Seq<char>) -> Tag {
    let local = local_name(name);
    if local == "Header"@ {
        Tag::Header
    } else if local == "Body"@ {
        Tag::Body
    } else if local == "Address"@ {
        Tag::Address
    } else if local == "Types"@ {
        Tag::Types
    } else if local == "Scopes"@ {
        Tag::Scopes
    } else if local == "XAddrs"@ {
        Tag::XAddrs
    } else {
        Tag::Unknown
    }
}

/// What has been gathered from the part of a reply read so far.
pub struct Scan {
    /// Whether the header section has been closed.
    pub in_body: bool,
    /// The elements opened since then and not yet closed, innermost last.
    pub open: Seq<Tag>,
    pub urn: Seq<char>,
    pub types: Seq<Seq<char>>,
    pub scopes: Seq<Seq<char>>,
    pub xaddrs: Seq<Seq<char>>,
}

/// What one token leads to.
pub enum Step {
    /// The reply is read on.
    Next(Scan),
    /// The extraction ends with this result; nothing more is read.
    Stop(Result<ProbeMatchView, ParseError>),
}

impl Scan {
    /// Before anything is read.
    pub open spec fn start() -> Scan {
        Scan {
            in_body: false,
            open: Seq::empty(),
            urn: Seq::empty(),
            types: Seq::empty(),
            scopes: Seq::empty(),
            xaddrs: Seq::empty(),
        }
    }

    /// The record that the gathered fields make up.
    pub open spec fn record(self) -> ProbeMatchView {
        advert(self.urn, self.types, self.scopes, self.xaddrs)
    }

    /// Character data in an element of kind `tag` replaces what the field
    /// of that element held, unless it is blank. In any other element it is
    /// passed over.
    pub open spec fn with_field(self, tag: Tag, text: Seq<char>) -> Scan {
        match tag {
            Tag::Address => if trimmed(text).len() == 0 {
                self
            } else {
                Scan { urn: trimmed(text), ..self }
            },
            Tag::Types => if words(text).len() == 0 {
                self
            } else {
                Scan { types: words(text), ..self }
            },
            Tag::Scopes => if words(text).len() == 0 {
                self
            } else {
                Scan { scopes: words(text), ..self }
            },
            Tag::XAddrs => if words(text).len() == 0 {
                self
            } else {
                Scan { xaddrs: words(text), ..self }
            },
            _ => self,
        }
    }

    /// Character data belongs to the innermost open element; with no
    /// element open it is passed over.
    pub open spec fn with_text(self, text: Seq<char>) -> Scan {
        if self.open.len() == 0 {
            self
        } else {
            self.with_field(self.open.last(), text)
        }
    }

    /// The result where the reply gives out: without its header section
    /// closed the header is missing, inside the body the reply is cut off.
    pub open spec fn starved(self) -> Result<ProbeMatchView, ParseError> {
        if self.in_body {
            Err(ParseError::MalformedXml)
        } else {
            Err(ParseError::MissingHeader)
        }
    }

    /// The effect of one token.
    pub open spec fn advance(self, token: Token) -> Step {
        match token {
            Token::Malformed => Step::Stop(Err(ParseError::MalformedXml)),
            Token::End => Step::Stop(self.starved()),
            Token::Other => Step::Next(self),
            Token::Open(name) => if self.in_body {
                Step::Next(Scan { open: self.open.push(tag_of(name)), ..self })
            } else {
                Step::Next(self)
            },
            Token::Close(name) => if !self.in_body {
                Step::Next(Scan { in_body: tag_of(name) == Tag::Header, ..self })
            } else if tag_of(name) == Tag::Body {
                Step::Stop(Ok(self.record()))
            } else if self.open.len() == 0 {
                Step::Next(self)
            } else {
                Step::Next(Scan { open: self.open.drop_last(), ..self })
            },
            Token::Text(text) => if self.in_body {
                Step::Next(self.with_text(text))
            } else {
                Step::Next(self)
            },
        }
    }

    /// The result of reading `tokens` from here, one after the other, until
    /// one of them stops the extraction or none is left.
    pub open spec fn run(self, tokens: Seq<Token>) -> Result<ProbeMatchView, ParseError>
        decreases tokens.len(),
    {
        if tokens.len() == 0 {
            self.starved()
        } else {
            match self.advance(tokens[0]) {
                Step::Next(next) => next.run(tokens.drop_first()),
                Step::Stop(result) => result,
            }
        }
    }
}

/// The result of extracting a probe match from a reply given as tokens.
pub open spec fn extract(tokens: Seq<Token>) -> Result<ProbeMatchView, ParseError> {
    Scan::start().run(tokens)
}

/// The mathematical value of the result of an extraction.
pub open spec fn outcome_view(outcome: Result<ProbeMatch, ParseError>) -> Result<
    ProbeMatchView,
    ParseError,
> {
    match outcome {
        Ok(found) => Ok(found@),
        Err(e) => Err(e),
    }
}

/// Tells the elements apart by their names.
pub fn classify(name: &str) -> (tag: Tag)
    ensures
        tag == tag_of(name@),
{
    let local = local_part(name);
    if local == String::from_str("Header") {
        Tag::Header
    } else if local == String::from_str("Body") {
        Tag::Body
    } else if local == String::from_str("Address") {
        Tag::Address
    } else if local == String::from_str("Types") {
        Tag::Types
    } else if local == String::from_str("Scopes") {
        Tag::Scopes
    } else if local == String::from_str("XAddrs") {
        Tag::XAddrs
    } else {
        Tag::Unknown
    }
}

/// The state of an extraction that is under way.
#[derive(Debug)]
pub struct Extractor {
    in_body: bool,
    open: Vec<Tag>,
    urn: String,
    types: Vec<String>,
    scopes: Vec<String>,
    xaddrs: Vec<String>,
}

/// An extraction after one more event.
#[derive(Debug)]
pub enum Progress {
    /// More of the reply is wanted.
    Going(Extractor),
    /// The extraction is over.
    Done(Result<ProbeMatch, ParseError>),
}

impl View for Extractor {
    type V = Scan;

    closed spec fn view(&self) -> Scan {
        Scan {
            in_body: self.in_body,
            open: self.open@,
            urn: self.urn@,
            types: self.types.deep_view(),
            scopes: self.scopes.deep_view(),
            xaddrs: self.xaddrs.deep_view(),
        }
    }
}

impl View for Progress {
    type V = Step;

    open spec fn view(&self) -> Step {
        match self {
            Progress::Going(extractor) => Step::Next(extractor@),
            Progress::Done(outcome) => Step::Stop(outcome_view(*outcome)),
        }
    }
}

impl Extractor {
    /// An extraction that has read nothing yet.
    pub fn new() -> (r: Self)
        ensures
            r@ == Scan::start(),
    {
        let r = Extractor {
            in_body: false,
            open: Vec::new(),
            urn: String::new(),
            types: Vec::new(),
            scopes: Vec::new(),
            xaddrs: Vec::new(),
        };
        assert(r.types.deep_view() =~= Seq::<Seq<char>>::empty());
        assert(r.scopes.deep_view() =~= Seq::<Seq<char>>::empty());
        assert(r.xaddrs.deep_view() =~= Seq::<Seq<char>>::empty());
        r
    }

    /// Takes the next event of the reply.
    pub fn feed(self, event: &XmlEvent) -> (r: Progress)
        ensures
            r@ == self@.advance(event@),
    {
        let mut scan = self;
        match event {
            XmlEvent::Malformed => Progress::Done(Err(ParseError::MalformedXml)),
            XmlEvent::End => Progress::Done(scan.give_out()),
            XmlEvent::Other => Progress::Going(scan),
            XmlEvent::Open(name) => {
                if scan.in_body {
                    scan.open.push(classify(name.as_str()));
                }
                Progress::Going(scan)
            },
            XmlEvent::Close(name) => {
                let tag = classify(name.as_str());
                if !scan.in_body {
                    scan.in_body = tag == Tag::Header;
                    Progress::Going(scan)
                } else if tag == Tag::Body {
                    let found = ProbeMatch::new(scan.urn, scan.types, scan.scopes, scan.xaddrs);
                    Progress::Done(Ok(found))
                } else {
                    if scan.open.len() > 0 {
                        scan.open.pop();
                    }
                    Progress::Going(scan)
                }
            },
            XmlEvent::Text(text) => {
                if scan.in_body && scan.open.len() > 0 {
                    match scan.open[scan.open.len() - 1] {
                        Tag::Address => {
                            let urn = trim(text.as_str());
                            if !urn.as_str().is_empty() {
                                scan.urn = urn;
                            }
                        },
                        Tag::Types => {
                            let list = split_words(text.as_str());
                            if list.len() > 0 {
                                scan.types = list;
                            }
                        },
                        Tag::Scopes => {
                            let list = split_words(text.as_str());
                            if list.len() > 0 {
                                scan.scopes = list;
                            }
                        },
                        Tag::XAddrs => {
                            let list = split_words(text.as_str());
                            if list.len() > 0 {
                                scan.xaddrs = list;
                            }
                        },
                        _ => {},
                    }
                }
                Progress::Going(scan)
            },
        }
    }

    /// The result where no event is left.
    pub fn give_out(&self) -> (r: Result<ProbeMatch, ParseError>)
        ensures
            outcome_view(r) == self@.starved(),
    {
        if self.in_body {
            Err(ParseError::MalformedXml)
        } else {
            Err(ParseError::MissingHeader)
        }
    }
}

/// Extracts the probe match from a reply that has been read into events.
pub fn from_events(events: &Vec<XmlEvent>) -> (r: Result<ProbeMatch, ParseError>)
    ensures
        outcome_view(r) == extract(events.deep_view()),
{
    let ghost tokens = events.deep_view();
    let mut scan = Extractor::new();
    let mut i: usize = 0;
    assert(tokens.skip(0) == tokens);
    while i < events.len()
        invariant
            i <= events.len(),
            tokens == events.deep_view(),
            scan@.run(tokens.skip(i as int)) == extract(tokens),
        decreases events.len() - i,
    {
        assert(tokens.skip(i as int)[0] == events@[i as int]@);
        assert(tokens.skip(i as int).drop_first() == tokens.skip(i + 1));
        match scan.feed(&events[i]) {
            Progress::Going(next) => {
                scan = next;
            },
            Progress::Done(outcome) => {
                return outcome;
            },
        }
        i += 1;
    }
    scan.give_out()
}

/// Extracts the probe match from the text of a reply.
///
/// The text is read event by event, and no further than the event that
/// decides the result.
pub fn parse(text: &str) -> (r: Result<ProbeMatch, ParseError>)
    ensures
        outcome_view(r) == extract(xml_events(text@)),
{
    let ghost tokens = xml_events(text@);
    let mut reader = open_reader(text);
    let mut scan = Extractor::new();
    assert(tokens.skip(0) == tokens);
    loop
        invariant
            tokens == xml_events(text@),
            reader_document(reader) == text@,
            reader_position(reader) < tokens.len(),
            scan@.run(tokens.skip(reader_position(reader) as int)) == extract(tokens),
        decreases tokens.len() - reader_position(reader),
    {
        let ghost at = reader_position(reader) as int;
        let event = read_event(&mut reader);
        assert(tokens.skip(at)[0] == event@);
        assert(tokens.skip(at).drop_first() == tokens.skip(at + 1));
        match scan.feed(&event) {
            Progress::Going(next) => {
                scan = next;
            },
            Progress::Done(outcome) => {
                return outcome;
            },
        }
    }
}

/// The result of reading a reply as it came off the wire: that of its text
/// where the bytes are UTF-8.
pub open spec fn reply_of(datagram: Seq<u8>) -> Result<ProbeMatchView, ParseError> {
    if valid_utf8(datagram) {
        extract(xml_events(decode_utf8(datagram)))
    } else {
        Err(ParseError::MalformedXml)
    }
}

/// Extracts the probe match from a reply as it came off the wire. Bytes that
/// are not UTF-8 are no document at all.
pub fn parse_bytes(datagram: &[u8]) -> (r: Result<ProbeMatch, ParseError>)
    ensures
        outcome_view(r) == reply_of(datagram@),
{
    match utf8_text(datagram) {
        Some(text) => {
            proof {
                vstd::utf8::encode_utf8_decode_utf8(text@);
            }
            parse(text)
        },
        None => Err(ParseError::MalformedXml),
    }
}

/// A token that neither closes the header section nor is malformed.
pub open spec fn leaves_header_open(token: Token) -> bool {
    !(token is Malformed) && !(token matches Token::Close(name) && tag_of(name) == Tag::Header)
}

/// A reply that never closes its header section, and is well-formed as far
/// as it goes, misses its header.
pub proof fn lemma_unclosed_header_is_missing(tokens: Seq<Token>)
    requires
        forall|i: int| 0 <= i < tokens.len() ==> leaves_header_open(#[trigger] tokens[i]),
    ensures
        extract(tokens) == Err::<ProbeMatchView, ParseError>(ParseError::MissingHeader),
{
    lemma_header_stays_open(Scan::start(), tokens);
}

proof fn lemma_header_stays_open(scan: Scan, tokens: Seq<Token>)
    requires
        !scan.in_body,
        forall|i: int| 0 <= i < tokens.len() ==> leaves_header_open(#[trigger] tokens[i]),
    ensures
        scan.run(tokens) == Err::<ProbeMatchView, ParseError>(ParseError::MissingHeader),
    decreases tokens.len(),
{
    if tokens.len() > 0 {
        assert(leaves_header_open(tokens[0]));
        let rest = tokens.drop_first();
        assert forall|i: int| 0 <= i < rest.len() implies leaves_header_open(
            #[trigger] rest[i],
        ) by {
            assert(rest[i] == tokens[i + 1]);
        }
        match scan.advance(tokens[0]) {
            Step::Next(next) => {
                lemma_header_stays_open(next, rest);
            },
            Step::Stop(_) => {},
        }
    }
}

/// An element with nothing but character data in it.
pub open spec fn element(name: Seq<char>, text: Seq<char>) -> Seq<Token> {
    seq![Token::Open(name), Token::Text(text), Token::Close(name)]
}

/// An element that the extraction does not know changes nothing, wherever in
/// the reply it stands: the result is that of the reply without it.
pub proof fn lemma_unknown_element_is_ignored(
    before: Seq<Token>,
    name: Seq<char>,
    text: Seq<char>,
    after: Seq<Token>,
)
    requires
        tag_of(name) == Tag::Unknown,
    ensures
        extract(before + element(name, text) + after) == extract(before + after),
{
    lemma_unknown_element_from(Scan::start(), before, name, text, after);
}

proof fn lemma_unknown_element_from(
    scan: Scan,
    before: Seq<Token>,
    name: Seq<char>,
    text: Seq<char>,
    after: Seq<Token>,
)
    requires
        tag_of(name) == Tag::Unknown,
    ensures
        scan.run(before + element(name, text) + after) == scan.run(before + after),
    decreases before.len(),
{
    let element = element(name, text);
    let with = before + element + after;
    let without = before + after;
    if before.len() == 0 {
        let second = with.drop_first();
        let third = second.drop_first();
        assert(with[0] == Token::Open(name));
        assert(second[0] == Token::Text(text));
        assert(third[0] == Token::Close(name));
        assert(third.drop_first() == after);
        assert(without == after);
        if scan.in_body {
            let opened = Scan { open: scan.open.push(tag_of(name)), ..scan };
            assert(scan.advance(with[0]) == Step::Next(opened));
            assert(opened.open.last() == Tag::Unknown);
            assert(opened.advance(second[0]) == Step::Next(opened));
            assert(opened.open.drop_last() == scan.open);
            assert(opened.advance(third[0]) == Step::Next(scan));
            assert(opened.run(second) == opened.run(third));
            assert(opened.run(third) == scan.run(after));
        } else {
            assert(scan.advance(with[0]) == Step::Next(scan));
            assert(scan.advance(second[0]) == Step::Next(scan));
            assert(scan.advance(third[0]) == Step::Next(scan));
            assert(scan.run(second) == scan.run(third));
            assert(scan.run(third) == scan.run(after));
        }
    } else {
        assert(with[0] == before[0]);
        assert(without[0] == before[0]);
        assert(with.drop_first() == before.drop_first() + element + after);
        assert(without.drop_first() == before.drop_first() + after);
        match scan.advance(before[0]) {
            Step::Next(next) => {
                lemma_unknown_element_from(next, before.drop_first(), name, text, after);
            },
            Step::Stop(_) => {},
        }
    }
}

/// Nothing that follows the token at which the extraction stops changes its
/// result.
pub proof fn lemma_nothing_is_read_after_the_end(tokens: Seq<Token>, more: Seq<Token>)
    requires
        tokens.len() > 0,
        tokens.last().ends_document(),
    ensures
        extract(tokens + more) == extract(tokens),
{
    lemma_run_ends_with_document(Scan::start(), tokens, more);
}

proof fn lemma_run_ends_with_document(scan: Scan, tokens: Seq<Token>, more: Seq<Token>)
    requires
        tokens.len() > 0,
        tokens.last().ends_document(),
    ensures
        scan.run(tokens + more) == scan.run(tokens),
    decreases tokens.len(),
{
    let whole = tokens + more;
    assert(whole[0] == tokens[0]);
    assert(whole.drop_first() == tokens.drop_first() + more);
    match scan.advance(tokens[0]) {
        Step::Next(next) => {
            assert(tokens.len() > 1);
            assert(tokens.drop_first().last() == tokens.last());
            lemma_run_ends_with_document(next, tokens.drop_first(), more);
        },
        Step::Stop(_) => {},
    }
}

/// In the body, an element with character data sets the field that its
/// name stands for, however deep it is nested, and leaves the rest as it is.
pub proof fn lemma_element_sets_its_field(
    scan: Scan,
    name: Seq<char>,
    text: Seq<char>,
    after: Seq<Token>,
)
    requires
        scan.in_body,
        tag_of(name) != Tag::Body,
    ensures
        scan.run(element(name, text) + after) == scan.with_field(tag_of(name), text).run(after),
{
    let first = element(name, text) + after;
    let second = first.drop_first();
    let third = second.drop_first();
    assert(first[0] == Token::Open(name));
    assert(second[0] == Token::Text(text));
    assert(third[0] == Token::Close(name));
    assert(third.drop_first() == after);
    let opened = Scan { open: scan.open.push(tag_of(name)), ..scan };
    let filled = opened.with_text(text);
    assert(opened.open.last() == tag_of(name));
    assert(filled.open == opened.open);
    assert(filled.open.drop_last() == scan.open);
    assert(scan.advance(first[0]) == Step::Next(opened));
    assert(opened.advance(second[0]) == Step::Next(filled));
    assert(filled.advance(third[0]) == Step::Next(scan.with_field(tag_of(name), text)));
    assert(opened.run(second) == filled.run(third));
}

/// A reply is over with the end tag of its body: the record is made of what
/// was gathered till then.
pub proof fn lemma_body_end_gives_the_record(scan: Scan, name: Seq<char>, after: Seq<Token>)
    requires
        scan.in_body,
        tag_of(name) == Tag::Body,
    ensures
        scan.run(seq![Token::Close(name)] + after) == Ok::<ProbeMatchView, ParseError>(
            scan.record(),
        ),
{
    assert((seq![Token::Close(name)] + after)[0] == Token::Close(name));
}

} // verus!
