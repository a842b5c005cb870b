//! The boundary to the XML tokenizer. A document is read as a sequence of
//! events; everything that is decided on those events is decided elsewhere.

use quick_xml::events::Event;
use quick_xml::Reader;
use vstd::prelude::*;

verus! {

/// One item of an XML document, reduced to what the extraction reads.
#[derive(Debug, PartialEq, Eq)]
pub enum XmlEvent {
    /// A start tag, with the element's qualified name.
    Open(String),
    /// An end tag, with the element's qualified name.
    Close(String),
    /// Character data, with entity references resolved.
    Text(String),
    /// Markup that carries nothing of interest: an empty element, a comment,
    /// a declaration, a processing instruction, a CDATA section.
    Other,
    /// The end of the document.
    End,
    /// A place at which the document is not well-formed.
    Malformed,
}

/// The mathematical value of an [`XmlEvent`].
pub enum Token {
    Open(Seq<char>),
    Close(Seq<char>),
    Text(Seq<char>),
    Other,
    End,
    Malformed,
}

impl Token {
    /// Nothing is read after this token.
    pub open spec fn ends_document(self) -> bool {
        self is End || self is Malformed
    }
}

impl View for XmlEvent {
    type V = Token;

    open spec fn view(&self) -> Token {
        match self {
            XmlEvent::Open(name) => Token::Open(name@),
            XmlEvent::Close(name) => Token::Close(name@),
            XmlEvent::Text(text) => Token::Text(text@),
            XmlEvent::Other => Token::Other,
            XmlEvent::End => Token::End,
            XmlEvent::Malformed => Token::Malformed,
        }
    }
}

impl Clone for XmlEvent {
    fn clone(&self) -> (r: Self)
        ensures
            r@ == self@,
    {
        match self {
            XmlEvent::Open(name) => XmlEvent::Open(name.clone()),
            XmlEvent::Close(name) => XmlEvent::Close(name.clone()),
            XmlEvent::Text(text) => XmlEvent::Text(text.clone()),
            XmlEvent::Other => XmlEvent::Other,
            XmlEvent::End => XmlEvent::End,
            XmlEvent::Malformed => XmlEvent::Malformed,
        }
    }
}

impl DeepView for XmlEvent {
    type V = Token;

    open spec fn deep_view(&self) -> Token {
        self@
    }
}

/// `quick_xml::Reader`, the pull tokenizer. Nothing inside it is visible.
#[verifier::external_type_specification]
#[verifier::external_body]
#[verifier::reject_recursive_types(R)]
pub struct ExReader<R>(Reader<R>);

/// The events that a tokenizer hands out for `document`, one per read, up to
/// and including the first that ends the document: the end of the input or
/// a place where it is malformed.
pub uninterp spec fn xml_events(document: Seq<char>) -> Seq<Token>;

/// The document that `reader` was opened on.
pub uninterp spec fn reader_document(reader: Reader<&[u8]>) -> Seq<char>;

/// The number of events that `reader` has handed out.
pub uninterp spec fn reader_position(reader: Reader<&[u8]>) -> nat;

/// `Reader::from_str`: a tokenizer at the beginning of `document`, with the
/// default configuration. Believed: it has handed out nothing yet, and every
/// document has at least one event, since the end of the input is one.
#[verifier::external_body]
pub(crate) fn open_reader<'a>(document: &'a str) -> (reader: Reader<&'a [u8]>)
    ensures
        reader_document(reader) == document@,
        reader_position(reader) == 0,
        xml_events(reader_document(reader)).len() > 0,
{
    Reader::from_str(document)
}

/// `Reader::read_event`, with the event reduced to an [`XmlEvent`]: names are
/// copied out of start and end tags, character data is unescaped with
/// `BytesText::unescape`, and an error of either call counts as malformed.
/// Believed: the tokenizer is deterministic, so that what it hands out is the
/// next of [`xml_events`] for its document, and only the last of them ends
/// the document. It is not read again after that.
#[verifier::external_body]
pub(crate) fn read_event(reader: &mut Reader<&[u8]>) -> (event: XmlEvent)
    requires
        reader_position(*old(reader)) < xml_events(reader_document(*old(reader))).len(),
    ensures
        reader_document(*final(reader)) == reader_document(*old(reader)),
        reader_position(*final(reader)) == reader_position(*old(reader)) + 1,
        event@ == xml_events(reader_document(*old(reader)))[reader_position(
            *old(reader),
        ) as int],
        event@.ends_document() <==> reader_position(*final(reader)) == xml_events(
            reader_document(*final(reader)),
        ).len(),
{
    match reader.read_event() {
        Ok(Event::Start(e)) => XmlEvent::Open(String::from_utf8_lossy(e.name().0).into_owned()),
        Ok(Event::End(e)) => XmlEvent::Close(String::from_utf8_lossy(e.name().0).into_owned()),
        Ok(Event::Text(e)) => match e.unescape() {
            Ok(text) => XmlEvent::Text(text.into_owned()),
            Err(_) => XmlEvent::Malformed,
        },
        Ok(Event::Eof) => XmlEvent::End,
        Ok(_) => XmlEvent::Other,
        Err(_) => XmlEvent::Malformed,
    }
}

} // verus!
