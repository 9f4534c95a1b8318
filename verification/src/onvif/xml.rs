//! The XML tokens from which a SOAP envelope is assembled, and the pull
//! reader that delivers them.

use crate::text::pair_views;
use quick_xml::events::Event;
use quick_xml::Reader;
use vstd::prelude::*;

verus! {

/// One step of a pull parse, with the text that the envelope codec reads.
#[derive(Debug, Clone)]
pub enum XmlEvent {
    /// An opening tag: its qualified name and its attributes, keys and raw values.
    Start { name: String, attributes: Vec<(String, String)> },
    /// A closing tag and its qualified name.
    End { name: String },
    /// Character data between tags: as it is written, and with its
    /// entities resolved.
    Text { raw: String, text: String },
    /// A declaration, comment, processing instruction, CDATA or doctype.
    Other,
    /// The reader rejected the document; nothing follows.
    Fault { message: String },
    /// The document ended; nothing follows.
    Eof,
}

/// The mathematical value of an `XmlEvent`.
pub enum XmlToken {
    Start { name: Seq<char>, attributes: Seq<(Seq<char>, Seq<char>)> },
    End { name: Seq<char> },
    Text { raw: Seq<char>, text: Seq<char> },
    Other,
    Fault { message: Seq<char> },
    Eof,
}

impl View for XmlEvent {
    type V = XmlToken;

    open spec fn view(&self) -> XmlToken {
        match self {
            XmlEvent::Start { name, attributes } => XmlToken::Start {
                name: name@,
                attributes: pair_views(attributes@),
            },
            XmlEvent::End { name } => XmlToken::End { name: name@ },
            XmlEvent::Text { raw, text } => XmlToken::Text { raw: raw@, text: text@ },
            XmlEvent::Other => XmlToken::Other,
            XmlEvent::Fault { message } => XmlToken::Fault { message: message@ },
            XmlEvent::Eof => XmlToken::Eof,
        }
    }
}

/// The views of a list of events.
pub open spec fn token_views(events: Seq<XmlEvent>) -> Seq<XmlToken> {
    Seq::new(events.len(), |i: int| events[i]@)
}

impl XmlToken {
    /// After this token the reader delivers nothing more.
    pub open spec fn is_last(self) -> bool {
        self is Eof || self is Fault
    }
}

/// A token stream that stops at its first `Eof` or `Fault`, and has one.
pub open spec fn terminated(tokens: Seq<XmlToken>) -> bool {
    &&& tokens.len() > 0
    &&& tokens.last().is_last()
    &&& forall|i: int| 0 <= i < tokens.len() - 1 ==> !(#[trigger] tokens[i]).is_last()
}

/// `quick_xml::Reader`, the pull reader. Its state is opaque here; what
/// it has yet to yield is named by `pending_tokens`.
#[verifier::external_type_specification]
#[verifier::external_body]
#[verifier::reject_recursive_types(R)]
pub struct ExReader<R>(Reader<R>);

/// The tokens that a pull reader yields for the document `xml`, text
/// trimmed and empty elements expanded, up to and including the first
/// `Eof` or `Fault`.
pub uninterp spec fn xml_tokens(xml: Seq<char>) -> Seq<XmlToken>;

/// The tokens that `reader` has yet to yield, up to and including the
/// first `Eof` or `Fault`.
pub uninterp spec fn pending_tokens(reader: &Reader<&[u8]>) -> Seq<XmlToken>;

/// A reader at the start of `xml`.
///
/// Trusted: `quick_xml::Reader::from_str`, configured with `trim_text(true)`
/// and `expand_empty_elements`. The contract names the tokens that the
/// reader will yield and claims that reading a finite document ends: the
/// stream has a first `Eof` or error.
#[verifier::external_body]
fn open_reader(xml: &str) -> (reader: Reader<&[u8]>)
    ensures
        pending_tokens(&reader) == xml_tokens(xml@),
        terminated(pending_tokens(&reader)),
{
    let mut reader = Reader::from_str(xml);
    reader.config_mut().trim_text(true);
    reader.config_mut().expand_empty_elements = true;
    reader
}

/// The next token of `reader`.
///
/// Trusted: `quick_xml::Reader::read_event`. The body copies out of the
/// event the name (`BytesStart::name`, `BytesEnd`'s content), the attributes
/// that parse (`BytesStart::attributes`), the text as written (`BytesText`'s
/// content) and unescaped (`BytesText::unescape`, empty where that fails),
/// and the error's message.
/// The contract says that this is the head of what was pending, and that
/// the rest stays pending unless the token is the last: of a reader that
/// has delivered its `Eof` or a fault nothing is said.
#[verifier::external_body]
fn next_event(reader: &mut Reader<&[u8]>) -> (event: XmlEvent)
    requires
        pending_tokens(old(reader)).len() > 0,
    ensures
        event@ == pending_tokens(old(reader))[0],
        !event@.is_last() ==> pending_tokens(final(reader)) == pending_tokens(
            old(reader),
        ).drop_first(),
{
    let text = |b: &[u8]| String::from_utf8_lossy(b).into_owned();
    match reader.read_event() {
        Ok(Event::Start(e)) => XmlEvent::Start {
            name: text(e.name().0),
            attributes: e.attributes().flatten().map(|a| (text(a.key.0), text(&a.value))).collect()
        },
        Ok(Event::End(e)) => XmlEvent::End { name: text(&e) },
        Ok(Event::Text(e)) => XmlEvent::Text {
            raw: text(&e),
            text: e.unescape().unwrap_or_default().into_owned()
        },
        Ok(Event::Eof) => XmlEvent::Eof,
        Ok(_) => XmlEvent::Other,
        Err(e) => XmlEvent::Fault { message: e.to_string() }
    }
}

/// All tokens of the document `xml`, in order.
pub fn read_events(xml: &str) -> (events: Vec<XmlEvent>)
    ensures
        token_views(events@) == xml_tokens(xml@),
        terminated(token_views(events@)),
{
    let mut reader = open_reader(xml);
    let mut events: Vec<XmlEvent> = Vec::new();
    loop
        invariant
            terminated(xml_tokens(xml@)),
            token_views(events@) + pending_tokens(&reader) == xml_tokens(xml@),
            pending_tokens(&reader).len() > 0,
        decreases pending_tokens(&reader).len(),
    {
        let ghost before = pending_tokens(&reader);
        let ghost done = token_views(events@);
        let event = next_event(&mut reader);
        let last = match &event {
            XmlEvent::Eof => true,
            XmlEvent::Fault { .. } => true,
            _ => false,
        };
        events.push(event);
        proof {
            assert(token_views(events@) == done.push(before[0]));
            assert(done.push(before[0]) + before.drop_first() == done + before);
            assert(xml_tokens(xml@)[done.len() as int] == before[0]);
        }
        if last {
            assert(done.len() == xml_tokens(xml@).len() - 1);
            assert(before.drop_first().len() == 0);
            assert(done.push(before[0]) + before.drop_first() == done.push(before[0]));
            return events;
        }
    }
}

} // verus!
