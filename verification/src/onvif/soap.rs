//! The SOAP envelope codec: a parsed envelope, how it is assembled from XML
//! tokens, and how an envelope is written out.

use crate::onvif::xml::{read_events, token_views, xml_tokens, XmlEvent, XmlToken};
use crate::text::{
    begins_with, find, find_in, from_chars, lemma_find_from, pair, pair_views, push_all,
    push_range, push_str, same_chars, starts_with, to_chars,
};
use vstd::prelude::*;

verus! {

/// A parsed or freshly built SOAP envelope.
#[derive(Debug, Clone)]
pub struct SoapEnvelope {
    pub header: Option<SoapHeader>,
    pub body: SoapBody,
    pub namespaces: Vec<(String, String)>,
}

/// The header block of an envelope, kept as XML text.
#[derive(Debug, Clone)]
pub struct SoapHeader {
    pub security: Option<WsSecurity>,
    pub raw_xml: String,
}

/// The fields of a WS-Security username token.
#[derive(Debug, Clone)]
pub struct WsSecurity {
    pub username: String,
    pub password_digest: String,
    pub nonce: String,
    pub created: String,
}

/// The body of an envelope: the invoked action, the text inside the action
/// element, and the body's content as XML text.
#[derive(Debug, Clone)]
pub struct SoapBody {
    pub action: String,
    pub content: String,
    pub raw_xml: String,
}

/// Why a document is no SOAP envelope.
#[derive(Debug, Clone)]
pub enum SoapError {
    /// The reader rejected the document outside header and body.
    Xml { message: String },
    /// The reader rejected the document inside the header.
    Header { message: String },
    /// The reader rejected the document inside the body.
    Body { message: String },
    /// The document ended inside the header.
    UnclosedHeader,
    /// The document ended inside the body.
    UnclosedBody,
    /// The document ended inside an element outside header and body.
    UnclosedElement,
    /// The document has no `Body` element.
    MissingBody,
}

pub struct WsSecurityView {
    pub username: Seq<char>,
    pub password_digest: Seq<char>,
    pub nonce: Seq<char>,
    pub created: Seq<char>,
}

pub struct SoapHeaderView {
    pub security: Option<WsSecurityView>,
    pub raw_xml: Seq<char>,
}

pub struct SoapBodyView {
    pub action: Seq<char>,
    pub content: Seq<char>,
    pub raw_xml: Seq<char>,
}

pub struct SoapEnvelopeView {
    pub header: Option<SoapHeaderView>,
    pub body: SoapBodyView,
    pub namespaces: Seq<(Seq<char>, Seq<char>)>,
}

pub enum SoapFault {
    Xml { message: Seq<char> },
    Header { message: Seq<char> },
    Body { message: Seq<char> },
    UnclosedHeader,
    UnclosedBody,
    UnclosedElement,
    MissingBody,
}

impl View for WsSecurity {
    type V = WsSecurityView;

    open spec fn view(&self) -> WsSecurityView {
        WsSecurityView {
            username: self.username@,
            password_digest: self.password_digest@,
            nonce: self.nonce@,
            created: self.created@,
        }
    }
}

impl View for SoapHeader {
    type V = SoapHeaderView;

    open spec fn view(&self) -> SoapHeaderView {
        SoapHeaderView {
            security: match self.security {
                Some(s) => Some(s@),
                None => None,
            },
            raw_xml: self.raw_xml@,
        }
    }
}

impl View for SoapBody {
    type V = SoapBodyView;

    open spec fn view(&self) -> SoapBodyView {
        SoapBodyView { action: self.action@, content: self.content@, raw_xml: self.raw_xml@ }
    }
}

impl View for SoapEnvelope {
    type V = SoapEnvelopeView;

    open spec fn view(&self) -> SoapEnvelopeView {
        SoapEnvelopeView {
            header: match self.header {
                Some(h) => Some(h@),
                None => None,
            },
            body: self.body@,
            namespaces: pair_views(self.namespaces@),
        }
    }
}

impl View for SoapError {
    type V = SoapFault;

    open spec fn view(&self) -> SoapFault {
        match self {
            SoapError::Xml { message } => SoapFault::Xml { message: message@ },
            SoapError::Header { message } => SoapFault::Header { message: message@ },
            SoapError::Body { message } => SoapFault::Body { message: message@ },
            SoapError::UnclosedHeader => SoapFault::UnclosedHeader,
            SoapError::UnclosedBody => SoapFault::UnclosedBody,
            SoapError::UnclosedElement => SoapFault::UnclosedElement,
            SoapError::MissingBody => SoapFault::MissingBody,
        }
    }
}

/// The view of a parse result.
pub open spec fn result_view(r: Result<SoapEnvelope, SoapError>) -> Result<
    SoapEnvelopeView,
    SoapFault,
> {
    match r {
        Ok(e) => Ok(e@),
        Err(e) => Err(e@),
    }
}

/// A qualified name without its namespace prefix: what follows the first
/// colon, or the whole name where there is none.
pub open spec fn local_name(name: Seq<char>) -> Seq<char> {
    match find(name, seq![':']) {
        Some(i) => name.skip(i + 1),
        None => name,
    }
}

/// Attributes as they are written inside a tag: a space, the key, `="`, the
/// value and `"`, for each in order.
pub open spec fn render_attributes(attributes: Seq<(Seq<char>, Seq<char>)>) -> Seq<char>
    decreases attributes.len(),
{
    if attributes.len() == 0 {
        Seq::empty()
    } else {
        render_attributes(attributes.drop_last()) + seq![' '] + attributes.last().0 + seq![
            '=',
            '"',
        ] + attributes.last().1 + seq!['"']
    }
}

/// A token as XML text. Tokens that are neither tag nor text leave no text.
pub open spec fn render_token(token: XmlToken) -> Seq<char> {
    match token {
        XmlToken::Start { name, attributes } => seq!['<'] + name + render_attributes(attributes)
            + seq!['>'],
        XmlToken::End { name } => seq!['<', '/'] + name + seq!['>'],
        XmlToken::Text { raw, .. } => raw,
        _ => Seq::empty(),
    }
}

/// Those attributes whose key begins with `xmlns`.
pub open spec fn namespace_declarations(attributes: Seq<(Seq<char>, Seq<char>)>) -> Seq<
    (Seq<char>, Seq<char>),
>
    decreases attributes.len(),
{
    if attributes.len() == 0 {
        Seq::empty()
    } else if starts_with(attributes.last().0, "xmlns"@) {
        namespace_declarations(attributes.drop_last()).push(attributes.last())
    } else {
        namespace_declarations(attributes.drop_last())
    }
}

/// What has been gathered of an element's content while walking its tokens.
pub struct Walk {
    /// Open elements, the walked element included.
    pub depth: int,
    /// The content so far, as XML text: tags rebuilt, text as written.
    pub raw: Seq<char>,
    /// Local name of the first child element, once seen.
    pub action: Seq<char>,
    /// The text inside the first child element so far, entities resolved.
    pub content: Seq<char>,
    /// A child element has been seen.
    pub seen_child: bool,
    /// The walk is inside the first child element.
    pub in_child: bool,
}

/// How the walk of an element's content ended.
pub enum WalkEnd {
    /// The element's closing tag was met; `next` is the index after it.
    Closed { walk: Walk, next: int },
    /// The tokens ran out first.
    Unclosed,
    /// The reader rejected the document first.
    Fault { message: Seq<char> },
}

impl Walk {
    /// The walk just inside an element's opening tag.
    pub open spec fn start() -> Walk {
        Walk {
            depth: 1,
            raw: Seq::empty(),
            action: Seq::empty(),
            content: Seq::empty(),
            seen_child: false,
            in_child: false,
        }
    }

    /// The walk after `token`, which does not close the walked element.
    pub open spec fn step(self, token: XmlToken) -> Walk {
        match token {
            XmlToken::Start { name, attributes } => {
                let first = self.depth == 1 && !self.seen_child;
                Walk {
                    depth: self.depth + 1,
                    raw: self.raw + render_token(token),
                    action: if first {
                        local_name(name)
                    } else {
                        self.action
                    },
                    content: self.content,
                    seen_child: self.seen_child || self.depth == 1,
                    in_child: self.in_child || first,
                }
            },
            XmlToken::End { name } => Walk {
                depth: self.depth - 1,
                raw: self.raw + render_token(token),
                in_child: self.in_child && self.depth != 2,
                ..self
            },
            XmlToken::Text { raw, text } => Walk {
                raw: self.raw + raw,
                content: if self.in_child {
                    self.content + text
                } else {
                    self.content
                },
                ..self
            },
            _ => self,
        }
    }
}

/// Whether `token` closes the element that `walk` is inside.
pub open spec fn closes(walk: Walk, token: XmlToken) -> bool {
    token is End && walk.depth <= 1
}

/// Walks the content of an element whose opening tag precedes index `i`.
pub open spec fn walk_from(tokens: Seq<XmlToken>, i: int, walk: Walk) -> WalkEnd
    decreases tokens.len() - i,
{
    if i < 0 || i >= tokens.len() {
        WalkEnd::Unclosed
    } else {
        match tokens[i] {
            XmlToken::Eof => WalkEnd::Unclosed,
            XmlToken::Fault { message } => WalkEnd::Fault { message },
            token => if closes(walk, token) {
                WalkEnd::Closed { walk, next: i + 1 }
            } else {
                walk_from(tokens, i + 1, walk.step(token))
            },
        }
    }
}

/// A closed walk ends after where it began.
pub proof fn lemma_walk_advances(tokens: Seq<XmlToken>, i: int, walk: Walk)
    requires
        0 <= i,
    ensures
        walk_from(tokens, i, walk) matches WalkEnd::Closed { next, .. } ==> i < next
            <= tokens.len(),
    decreases tokens.len() - i,
{
    if i < tokens.len() {
        match tokens[i] {
            XmlToken::Eof => {},
            XmlToken::Fault { .. } => {},
            token => {
                if !closes(walk, token) {
                    lemma_walk_advances(tokens, i + 1, walk.step(token));
                }
            },
        }
    }
}

/// What has been gathered of an envelope while reading its tokens.
pub struct Draft {
    pub namespaces: Seq<(Seq<char>, Seq<char>)>,
    pub header: Option<SoapHeaderView>,
    pub body: Option<SoapBodyView>,
    /// How many elements outside header and body are open.
    pub open: int,
}

impl Draft {
    /// Nothing gathered yet, nothing open.
    pub open spec fn empty() -> Draft {
        Draft { namespaces: Seq::empty(), header: None, body: None, open: 0 }
    }

    /// The draft behind an opening tag.
    pub open spec fn opened(self) -> Draft {
        Draft { open: self.open + 1, ..self }
    }

    /// The draft behind a closing tag. A closing tag where nothing is open
    /// closes nothing.
    pub open spec fn closed(self) -> Draft {
        Draft {
            open: if self.open > 0 {
                self.open - 1
            } else {
                0
            },
            ..self
        }
    }

    /// The envelope of a draft at the end of the document: no element may
    /// be open, and there must be a body.
    pub open spec fn finish(self) -> Result<SoapEnvelopeView, SoapFault> {
        if self.open > 0 {
            Err(SoapFault::UnclosedElement)
        } else {
            match self.body {
                Some(body) => Ok(
                    SoapEnvelopeView { header: self.header, body, namespaces: self.namespaces },
                ),
                None => Err(SoapFault::MissingBody),
            }
        }
    }
}

/// The header gathered by a closed walk.
pub open spec fn header_of(walk: Walk) -> SoapHeaderView {
    SoapHeaderView { security: None, raw_xml: walk.raw }
}

/// The body gathered by a closed walk.
pub open spec fn body_of(walk: Walk) -> SoapBodyView {
    SoapBodyView { action: walk.action, content: walk.content, raw_xml: walk.raw }
}

/// Reads an envelope from `tokens[i..]`, given what was gathered before.
///
/// An opening tag with local name `Envelope` contributes its namespace
/// declarations; one named `Header` or `Body` is walked to its closing tag
/// and replaces what an earlier one gave. Every other opening tag opens an
/// element and every closing tag closes one. A fault rejects the document,
/// and so does an element that the end of the document leaves open, and
/// the lack of a body.
pub open spec fn assemble_from(tokens: Seq<XmlToken>, i: int, draft: Draft) -> Result<
    SoapEnvelopeView,
    SoapFault,
>
    decreases tokens.len() - i,
{
    if i < 0 || i >= tokens.len() {
        draft.finish()
    } else {
        match tokens[i] {
            XmlToken::Eof => draft.finish(),
            XmlToken::Fault { message } => Err(SoapFault::Xml { message }),
            XmlToken::Start { name, attributes } => {
                if local_name(name) == "Envelope"@ {
                    assemble_from(
                        tokens,
                        i + 1,
                        Draft {
                            namespaces: draft.namespaces + namespace_declarations(attributes),
                            ..draft.opened()
                        },
                    )
                } else if local_name(name) == "Header"@ {
                    match walk_from(tokens, i + 1, Walk::start()) {
                        WalkEnd::Closed { walk, next } => {
                            proof {
                                lemma_walk_advances(tokens, i + 1, Walk::start());
                            }
                            assemble_from(
                                tokens,
                                next,
                                Draft { header: Some(header_of(walk)), ..draft },
                            )
                        },
                        WalkEnd::Unclosed => Err(SoapFault::UnclosedHeader),
                        WalkEnd::Fault { message } => Err(SoapFault::Header { message }),
                    }
                } else if local_name(name) == "Body"@ {
                    match walk_from(tokens, i + 1, Walk::start()) {
                        WalkEnd::Closed { walk, next } => {
                            proof {
                                lemma_walk_advances(tokens, i + 1, Walk::start());
                            }
                            assemble_from(
                                tokens,
                                next,
                                Draft { body: Some(body_of(walk)), ..draft },
                            )
                        },
                        WalkEnd::Unclosed => Err(SoapFault::UnclosedBody),
                        WalkEnd::Fault { message } => Err(SoapFault::Body { message }),
                    }
                } else {
                    assemble_from(tokens, i + 1, draft.opened())
                }
            },
            XmlToken::End { .. } => assemble_from(tokens, i + 1, draft.closed()),
            _ => assemble_from(tokens, i + 1, draft),
        }
    }
}

/// The envelope that a token stream describes, or why it describes none.
pub open spec fn envelope_of(tokens: Seq<XmlToken>) -> Result<SoapEnvelopeView, SoapFault> {
    assemble_from(tokens, 0, Draft::empty())
}


/// The local part of a qualified name.
pub fn local_part(name: &Vec<char>) -> (r: Vec<char>)
    ensures
        r@ == local_name(name@),
{
    let colon: Vec<char> = vec![':'];
    assert(colon@ == seq![':']);
    assert(colon@.len() == 1);
    let mut out: Vec<char> = Vec::new();
    match find_in(name, &colon, 0) {
        Some(i) => {
            assert(i + colon@.len() <= name@.len());
            assert(i + 1 <= name.len());
            push_range(&mut out, name, i + 1, name.len());
            assert(name@.subrange(i + 1, name@.len() as int) == name@.skip(i + 1));
        },
        None => {
            push_all(&mut out, name);
        },
    }
    out
}

/// Whether the local part of `name` is `wanted`.
fn local_name_is(name: &String, wanted: &str) -> (r: bool)
    ensures
        r == (local_name(name@) == wanted@),
{
    let chars = to_chars(name.as_str());
    let local = local_part(&chars);
    let want = to_chars(wanted);
    same_chars(&local, &want)
}

/// Appends attributes, as written inside a tag, to `raw`.
fn push_attributes(raw: &mut Vec<char>, attributes: &Vec<(String, String)>)
    ensures
        final(raw)@ == old(raw)@ + render_attributes(pair_views(attributes@)),
{
    let ghost all = pair_views(attributes@);
    let mut k: usize = 0;
    assert(all.take(0) == Seq::<(Seq<char>, Seq<char>)>::empty());
    assert(raw@ + render_attributes(all.take(0)) == raw@);
    while k < attributes.len()
        invariant
            k <= attributes.len(),
            all == pair_views(attributes@),
            raw@ == old(raw)@ + render_attributes(all.take(k as int)),
        decreases attributes.len() - k,
    {
        let ghost before = raw@;
        raw.push(' ');
        push_str(raw, attributes[k].0.as_str());
        raw.push('=');
        raw.push('"');
        push_str(raw, attributes[k].1.as_str());
        raw.push('"');
        proof {
            let upto = all.take(k + 1);
            assert(upto.drop_last() == all.take(k as int));
            assert(upto.last() == all[k as int]);
            assert(raw@ == before + (seq![' '] + all[k as int].0 + seq!['=', '"'] + all[k as int].1
                + seq!['"']));
            assert(render_attributes(upto) == render_attributes(all.take(k as int)) + (seq![' ']
                + all[k as int].0 + seq!['=', '"'] + all[k as int].1 + seq!['"']));
        }
        k += 1;
    }
    assert(all.take(k as int) == all);
}

/// Appends an opening tag to `raw`.
fn push_start_tag(raw: &mut Vec<char>, name: &String, attributes: &Vec<(String, String)>)
    ensures
        final(raw)@ == old(raw)@ + render_token(
            XmlToken::Start { name: name@, attributes: pair_views(attributes@) },
        ),
{
    let mut tag: Vec<char> = Vec::new();
    tag.push('<');
    push_str(&mut tag, name.as_str());
    push_attributes(&mut tag, attributes);
    tag.push('>');
    assert(tag@ == seq!['<'] + name@ + render_attributes(pair_views(attributes@)) + seq!['>']);
    push_all(raw, &tag);
}

/// Appends a closing tag to `raw`.
fn push_end_tag(raw: &mut Vec<char>, name: &String)
    ensures
        final(raw)@ == old(raw)@ + render_token(XmlToken::End { name: name@ }),
{
    let mut tag: Vec<char> = Vec::new();
    tag.push('<');
    tag.push('/');
    push_str(&mut tag, name.as_str());
    tag.push('>');
    assert(tag@ == seq!['<', '/'] + name@ + seq!['>']);
    push_all(raw, &tag);
}

/// The namespace declarations among `attributes`, appended to `namespaces`.
fn push_namespaces(namespaces: &mut Vec<(String, String)>, attributes: &Vec<(String, String)>)
    ensures
        pair_views(final(namespaces)@) == pair_views(old(namespaces)@) + namespace_declarations(
            pair_views(attributes@),
        ),
{
    let ghost all = pair_views(attributes@);
    let ghost before = pair_views(namespaces@);
    let prefix = to_chars("xmlns");
    let mut k: usize = 0;
    assert(all.take(0) == Seq::<(Seq<char>, Seq<char>)>::empty());
    assert(before + namespace_declarations(all.take(0)) == before);
    while k < attributes.len()
        invariant
            k <= attributes.len(),
            all == pair_views(attributes@),
            prefix@ == "xmlns"@,
            pair_views(namespaces@) == before + namespace_declarations(all.take(k as int)),
        decreases attributes.len() - k,
    {
        let ghost held = pair_views(namespaces@);
        let key = to_chars(attributes[k].0.as_str());
        proof {
            let upto = all.take(k + 1);
            assert(upto.drop_last() == all.take(k as int));
            assert(upto.last() == all[k as int]);
        }
        if begins_with(&key, &prefix) {
            let pair = (attributes[k].0.clone(), attributes[k].1.clone());
            namespaces.push(pair);
            assert(pair_views(namespaces@) == held.push(all[k as int]));
        }
        k += 1;
    }
    assert(all.take(k as int) == all);
}

/// How an executable walk ended.
enum Walked {
    Closed { raw: Vec<char>, action: Vec<char>, content: Vec<char>, next: usize },
    Unclosed,
    Fault { message: String },
}

/// Walks the content of an element from index `start`, just behind its
/// opening tag.
fn walk(events: &Vec<XmlEvent>, start: usize) -> (r: Walked)
    ensures
        match walk_from(token_views(events@), start as int, Walk::start()) {
            WalkEnd::Closed { walk, next } => r matches Walked::Closed {
                raw,
                action,
                content,
                next: n,
            } && raw@ == walk.raw && action@ == walk.action && content@ == walk.content && n
                == next && start < n <= events@.len(),
            WalkEnd::Unclosed => r is Unclosed,
            WalkEnd::Fault { message } => r matches Walked::Fault { message: m } && m@ == message,
        },
{
    let ghost tokens = token_views(events@);
    let mut raw: Vec<char> = Vec::new();
    let mut action: Vec<char> = Vec::new();
    let mut content: Vec<char> = Vec::new();
    let mut depth: u128 = 1;
    let mut seen_child = false;
    let mut in_child = false;
    let mut i: usize = start;
    proof {
        lemma_walk_advances(tokens, start as int, Walk::start());
    }
    while i < events.len()
        invariant
            start <= i,
            tokens == token_views(events@),
            1 <= depth <= i - start + 1,
            walk_from(tokens, start as int, Walk::start()) == walk_from(
                tokens,
                i as int,
                Walk {
                    depth: depth as int,
                    raw: raw@,
                    action: action@,
                    content: content@,
                    seen_child,
                    in_child,
                },
            ),
        decreases events.len() - i,
    {
        assert(tokens[i as int] == events@[i as int]@);
        match &events[i] {
            XmlEvent::Start { name, attributes } => {
                if depth == 1 && !seen_child {
                    let chars = to_chars(name.as_str());
                    action = local_part(&chars);
                    in_child = true;
                }
                if depth == 1 {
                    seen_child = true;
                }
                push_start_tag(&mut raw, name, attributes);
                depth += 1;
            },
            XmlEvent::End { name } => {
                if depth == 1 {
                    return Walked::Closed { raw, action, content, next: i + 1 };
                }
                if depth == 2 {
                    in_child = false;
                }
                push_end_tag(&mut raw, name);
                depth -= 1;
            },
            XmlEvent::Text { raw: written, text } => {
                push_str(&mut raw, written.as_str());
                if in_child {
                    push_str(&mut content, text.as_str());
                }
            },
            XmlEvent::Other => {},
            XmlEvent::Fault { message } => {
                return Walked::Fault { message: message.clone() };
            },
            XmlEvent::Eof => {
                return Walked::Unclosed;
            },
        }
        i += 1;
    }
    Walked::Unclosed
}

impl SoapEnvelope {
    /// Parses a SOAP envelope.
    ///
    /// The result is what `envelope_of` makes of the tokens of `xml`: the
    /// action is the local name of the body's first child element, and a
    /// document without a body, or one that the reader rejects, or one that
    /// ends inside header or body, is an error.
    pub fn parse(xml: &str) -> (r: Result<SoapEnvelope, SoapError>)
        ensures
            result_view(r) == envelope_of(xml_tokens(xml@)),
    {
        let events = read_events(xml);
        SoapEnvelope::from_events(&events)
    }

    /// Reads the content of a header from the tokens behind its opening
    /// tag, and returns it with the index behind its closing tag.
    pub fn parse_header(events: &Vec<XmlEvent>, start: usize) -> (r: Result<
        (SoapHeader, usize),
        SoapError,
    >)
        ensures
            match walk_from(token_views(events@), start as int, Walk::start()) {
                WalkEnd::Closed { walk, next } => r matches Ok(found) && found.0@ == header_of(
                    walk,
                ) && found.1 == next && start < next <= events@.len(),
                WalkEnd::Unclosed => r matches Err(e) && e@ == SoapFault::UnclosedHeader,
                WalkEnd::Fault { message } => r matches Err(e) && e@ == SoapFault::Header {
                    message,
                },
            },
    {
        match walk(events, start) {
            Walked::Closed { raw, action, content, next } => Ok(
                (SoapHeader { security: None, raw_xml: from_chars(&raw) }, next),
            ),
            Walked::Unclosed => Err(SoapError::UnclosedHeader),
            Walked::Fault { message } => Err(SoapError::Header { message }),
        }
    }

    /// Reads the content of a body from the tokens behind its opening tag,
    /// and returns it with the index behind its closing tag. The action is
    /// the local name of the first child element, the content the text
    /// inside that element.
    pub fn parse_body(events: &Vec<XmlEvent>, start: usize) -> (r: Result<
        (SoapBody, usize),
        SoapError,
    >)
        ensures
            match walk_from(token_views(events@), start as int, Walk::start()) {
                WalkEnd::Closed { walk, next } => r matches Ok(found) && found.0@ == body_of(walk)
                    && found.1 == next && start < next <= events@.len(),
                WalkEnd::Unclosed => r matches Err(e) && e@ == SoapFault::UnclosedBody,
                WalkEnd::Fault { message } => r matches Err(e) && e@ == SoapFault::Body { message },
            },
    {
        match walk(events, start) {
            Walked::Closed { raw, action, content, next } => Ok(
                (
                    SoapBody {
                        action: from_chars(&action),
                        content: from_chars(&content),
                        raw_xml: from_chars(&raw),
                    },
                    next,
                ),
            ),
            Walked::Unclosed => Err(SoapError::UnclosedBody),
            Walked::Fault { message } => Err(SoapError::Body { message }),
        }
    }

    /// Assembles an envelope from the tokens of a document.
    pub fn from_events(events: &Vec<XmlEvent>) -> (r: Result<SoapEnvelope, SoapError>)
        ensures
            result_view(r) == envelope_of(token_views(events@)),
    {
        let ghost tokens = token_views(events@);
        let mut namespaces: Vec<(String, String)> = Vec::new();
        let mut header: Option<SoapHeader> = None;
        let mut body: Option<SoapBody> = None;
        let mut open: usize = 0;
        let mut i: usize = 0;
        assert(pair_views(namespaces@) == Seq::<(Seq<char>, Seq<char>)>::empty());
        while i < events.len()
            invariant
                tokens == token_views(events@),
                open <= i,
                envelope_of(tokens) == assemble_from(
                    tokens,
                    i as int,
                    Draft {
                        open: open as int,
                        namespaces: pair_views(namespaces@),
                        header: match header {
                            Some(h) => Some(h@),
                            None => None,
                        },
                        body: match body {
                            Some(b) => Some(b@),
                            None => None,
                        },
                    },
                ),
            decreases events.len() - i,
        {
            assert(tokens[i as int] == events@[i as int]@);
            match &events[i] {
                XmlEvent::Start { name, attributes } => {
                    if local_name_is(name, "Envelope") {
                        push_namespaces(&mut namespaces, attributes);
                        open += 1;
                        i += 1;
                    } else if local_name_is(name, "Header") {
                        match SoapEnvelope::parse_header(events, i + 1) {
                            Ok(found) => {
                                header = Some(found.0);
                                i = found.1;
                            },
                            Err(error) => {
                                return Err(error);
                            },
                        }
                    } else if local_name_is(name, "Body") {
                        match SoapEnvelope::parse_body(events, i + 1) {
                            Ok(found) => {
                                body = Some(found.0);
                                i = found.1;
                            },
                            Err(error) => {
                                return Err(error);
                            },
                        }
                    } else {
                        open += 1;
                        i += 1;
                    }
                },
                XmlEvent::End { .. } => {
                    if open > 0 {
                        open -= 1;
                    }
                    i += 1;
                },
                XmlEvent::Fault { message } => {
                    return Err(SoapError::Xml { message: message.clone() });
                },
                XmlEvent::Eof => {
                    i = events.len();
                },
                _ => {
                    i += 1;
                },
            }
        }
        if open > 0 {
            return Err(SoapError::UnclosedElement);
        }
        match body {
            Some(body) => Ok(SoapEnvelope { header, body, namespaces }),
            None => Err(SoapError::MissingBody),
        }
    }
}


/// The six namespaces that a response envelope declares.
pub open spec fn response_namespaces() -> Seq<(Seq<char>, Seq<char>)> {
    seq![
        ("xmlns:SOAP-ENV"@, "http://www.w3.org/2003/05/soap-envelope"@),
        ("xmlns:tds"@, "http://www.onvif.org/ver10/device/wsdl"@),
        ("xmlns:trt"@, "http://www.onvif.org/ver10/media/wsdl"@),
        ("xmlns:tev"@, "http://www.onvif.org/ver10/events/wsdl"@),
        ("xmlns:tt"@, "http://www.onvif.org/ver10/schema"@),
        ("xmlns:tns1"@, "http://www.onvif.org/ver10/topics"@),
    ]
}

/// The envelope that answers `action` with `content`.
pub open spec fn response_envelope(action: Seq<char>, content: Seq<char>) -> SoapEnvelopeView {
    SoapEnvelopeView {
        header: None,
        body: SoapBodyView {
            action: action + "Response"@,
            content,
            raw_xml: seq!['<'] + action + "Response>"@ + content + seq!['<', '/'] + action
                + "Response>"@,
        },
        namespaces: response_namespaces(),
    }
}

/// The header block of an envelope as XML text, empty where there is none.
pub open spec fn header_xml(header: Option<SoapHeaderView>) -> Seq<char> {
    match header {
        Some(h) => "<SOAP-ENV:Header>"@ + h.raw_xml + "</SOAP-ENV:Header>"@,
        None => Seq::empty(),
    }
}

/// An envelope as XML text: the declaration, the root with the namespace
/// declarations as attributes, the header block if any, and the body block.
pub open spec fn envelope_xml(envelope: SoapEnvelopeView) -> Seq<char> {
    "<?xml version=\"1.0\" encoding=\"UTF-8\"?>"@ + "<SOAP-ENV:Envelope"@ + render_attributes(
        envelope.namespaces,
    ) + seq!['>'] + header_xml(envelope.header) + "<SOAP-ENV:Body>"@ + envelope.body.raw_xml
        + "</SOAP-ENV:Body>"@ + "</SOAP-ENV:Envelope>"@
}

/// What a `SoapFault` says.
pub open spec fn fault_text(fault: SoapFault) -> Seq<char> {
    match fault {
        SoapFault::Xml { message } => "XML parsing error: "@ + message,
        SoapFault::Header { message } => "Header parsing error: "@ + message,
        SoapFault::Body { message } => "Body parsing error: "@ + message,
        SoapFault::UnclosedHeader => "SOAP Header is not closed"@,
        SoapFault::UnclosedBody => "SOAP Body is not closed"@,
        SoapFault::UnclosedElement => "XML document ends inside an element"@,
        SoapFault::MissingBody => "SOAP Body not found"@,
    }
}

impl SoapError {
    /// The error as a sentence.
    pub fn message(&self) -> (r: String)
        ensures
            r@ == fault_text(self@),
    {
        let mut out: Vec<char> = Vec::new();
        match self {
            SoapError::Xml { message } => {
                push_str(&mut out, "XML parsing error: ");
                push_str(&mut out, message.as_str());
            },
            SoapError::Header { message } => {
                push_str(&mut out, "Header parsing error: ");
                push_str(&mut out, message.as_str());
            },
            SoapError::Body { message } => {
                push_str(&mut out, "Body parsing error: ");
                push_str(&mut out, message.as_str());
            },
            SoapError::UnclosedHeader => {
                push_str(&mut out, "SOAP Header is not closed");
            },
            SoapError::UnclosedBody => {
                push_str(&mut out, "SOAP Body is not closed");
            },
            SoapError::UnclosedElement => {
                push_str(&mut out, "XML document ends inside an element");
            },
            SoapError::MissingBody => {
                push_str(&mut out, "SOAP Body not found");
            },
        }
        from_chars(&out)
    }
}

impl SoapEnvelope {
    /// The envelope that answers `action` with `body_content`.
    pub fn create_response(action: String, body_content: String) -> (r: SoapEnvelope)
        ensures
            r@ == response_envelope(action@, body_content@),
    {
        let mut namespaces: Vec<(String, String)> = Vec::new();
        namespaces.push(pair("xmlns:SOAP-ENV", "http://www.w3.org/2003/05/soap-envelope"));
        namespaces.push(pair("xmlns:tds", "http://www.onvif.org/ver10/device/wsdl"));
        namespaces.push(pair("xmlns:trt", "http://www.onvif.org/ver10/media/wsdl"));
        namespaces.push(pair("xmlns:tev", "http://www.onvif.org/ver10/events/wsdl"));
        namespaces.push(pair("xmlns:tt", "http://www.onvif.org/ver10/schema"));
        namespaces.push(pair("xmlns:tns1", "http://www.onvif.org/ver10/topics"));
        assert(pair_views(namespaces@) == response_namespaces());
        let mut name: Vec<char> = Vec::new();
        push_str(&mut name, action.as_str());
        push_str(&mut name, "Response");
        let mut raw: Vec<char> = Vec::new();
        raw.push('<');
        push_str(&mut raw, action.as_str());
        push_str(&mut raw, "Response>");
        push_str(&mut raw, body_content.as_str());
        raw.push('<');
        raw.push('/');
        push_str(&mut raw, action.as_str());
        push_str(&mut raw, "Response>");
        assert(raw@ == seq!['<'] + action@ + "Response>"@ + body_content@ + seq!['<', '/']
            + action@ + "Response>"@);
        SoapEnvelope {
            header: None,
            body: SoapBody {
                action: from_chars(&name),
                content: body_content,
                raw_xml: from_chars(&raw),
            },
            namespaces,
        }
    }

    /// The envelope as XML text. It never fails.
    pub fn to_xml(&self) -> (r: Result<String, SoapError>)
        ensures
            r matches Ok(xml) && xml@ == envelope_xml(self@),
    {
        let mut xml: Vec<char> = Vec::new();
        push_str(&mut xml, "<?xml version=\"1.0\" encoding=\"UTF-8\"?>");
        push_str(&mut xml, "<SOAP-ENV:Envelope");
        push_attributes(&mut xml, &self.namespaces);
        xml.push('>');
        let ghost head = xml@;
        assert(head == "<?xml version=\"1.0\" encoding=\"UTF-8\"?>"@ + "<SOAP-ENV:Envelope"@
            + render_attributes(self@.namespaces) + seq!['>']);
        match &self.header {
            Some(header) => {
                push_str(&mut xml, "<SOAP-ENV:Header>");
                push_str(&mut xml, header.raw_xml.as_str());
                push_str(&mut xml, "</SOAP-ENV:Header>");
                assert(xml@ == head + ("<SOAP-ENV:Header>"@ + header.raw_xml@
                    + "</SOAP-ENV:Header>"@));
            },
            None => {
                assert(xml@ == head + Seq::<char>::empty());
            },
        }
        assert(xml@ == head + header_xml(self@.header));
        push_str(&mut xml, "<SOAP-ENV:Body>");
        push_str(&mut xml, self.body.raw_xml.as_str());
        push_str(&mut xml, "</SOAP-ENV:Body>");
        push_str(&mut xml, "</SOAP-ENV:Envelope>");
        Ok(from_chars(&xml))
    }

    /// The name of the invoked action.
    pub fn extract_action(&self) -> (r: String)
        ensures
            r@ == self.body.action@,
    {
        self.body.action.clone()
    }
}

/// Once a child element has been seen, the walk's action is settled.
pub proof fn lemma_action_settled(tokens: Seq<XmlToken>, i: int, walk: Walk)
    requires
        0 <= i,
        walk.seen_child,
    ensures
        walk_from(tokens, i, walk) matches WalkEnd::Closed { walk: end, .. } ==> end.action
            == walk.action,
    decreases tokens.len() - i,
{
    if i < tokens.len() {
        match tokens[i] {
            XmlToken::Eof => {},
            XmlToken::Fault { .. } => {},
            token => {
                if !closes(walk, token) {
                    lemma_action_settled(tokens, i + 1, walk.step(token));
                }
            },
        }
    }
}

/// The action of an element's content is the local name of its first child
/// element: if only text and tokens without text stand between index `i`,
/// just inside the element's opening tag, and an opening tag at `k`, then
/// a closed walk reports the local part of that tag's name.
pub proof fn law_action_is_first_child(tokens: Seq<XmlToken>, i: int, k: int)
    requires
        0 <= i <= k < tokens.len(),
        forall|j: int| i <= j < k ==> (#[trigger] tokens[j]) is Text || tokens[j] is Other,
        tokens[k] is Start,
    ensures
        walk_from(tokens, i, Walk::start()) matches WalkEnd::Closed { walk, .. } ==> walk.action
            == local_name(tokens[k]->Start_name),
{
    lemma_action_before_child(tokens, i, k, Walk::start());
}

/// The inductive form of `law_action_is_first_child`, for any walk that is
/// at the element's own level and has seen no child.
proof fn lemma_action_before_child(tokens: Seq<XmlToken>, i: int, k: int, walk: Walk)
    requires
        0 <= i <= k < tokens.len(),
        forall|j: int| i <= j < k ==> (#[trigger] tokens[j]) is Text || tokens[j] is Other,
        tokens[k] is Start,
        walk.depth == 1,
        !walk.seen_child,
    ensures
        walk_from(tokens, i, walk) matches WalkEnd::Closed { walk: end, .. } ==> end.action
            == local_name(tokens[k]->Start_name),
    decreases k - i,
{
    if i == k {
        lemma_action_settled(tokens, i + 1, walk.step(tokens[i]));
    } else {
        assert(tokens[i] is Text || tokens[i] is Other);
        lemma_action_before_child(tokens, i + 1, k, walk.step(tokens[i]));
    }
}

/// A name of the form `prefix:local` has the local part `local`.
pub proof fn law_local_name_strips_prefix(prefix: Seq<char>, local: Seq<char>)
    requires
        !prefix.contains(':'),
    ensures
        local_name(prefix + seq![':'] + local) == local,
{
    let name = prefix + seq![':'] + local;
    let colon = seq![':'];
    let at = prefix.len() as int;
    lemma_find_from(name, colon, 0);
    assert(name.subrange(at, at + 1) == colon);
    assert(crate::text::matches_at(name, colon, at));
    assert forall|j: int| 0 <= j < at implies !crate::text::matches_at(name, colon, j) by {
        if crate::text::matches_at(name, colon, j) {
            assert(name.subrange(j, j + 1)[0] == ':');
            assert(prefix[j] == ':');
        }
    }
    assert(find(name, colon) == Some(at));
    assert(name.skip(at + 1) == local);
}

/// A name without a colon is its own local part.
pub proof fn law_local_name_unprefixed(name: Seq<char>)
    requires
        !name.contains(':'),
    ensures
        local_name(name) == name,
{
    let colon = seq![':'];
    lemma_find_from(name, colon, 0);
    if find(name, colon) is Some {
        let j = find(name, colon)->0;
        assert(name.subrange(j, j + 1)[0] == ':');
        assert(name[j] == ':');
    }
}

/// A document without a `Body` element is no envelope: where no opening
/// tag has the local name `Body`, reading the tokens fails.
pub proof fn law_missing_body_is_rejected(tokens: Seq<XmlToken>)
    requires
        forall|i: int|
            0 <= i < tokens.len() && (#[trigger] tokens[i]) is Start ==> local_name(
                tokens[i]->Start_name,
            ) != "Body"@,
    ensures
        envelope_of(tokens) is Err,
{
    lemma_no_body_from(tokens, 0, Draft::empty());
}

/// The inductive form of `law_missing_body_is_rejected`.
proof fn lemma_no_body_from(tokens: Seq<XmlToken>, i: int, draft: Draft)
    requires
        0 <= i,
        draft.body is None,
        forall|j: int|
            0 <= j < tokens.len() && (#[trigger] tokens[j]) is Start ==> local_name(
                tokens[j]->Start_name,
            ) != "Body"@,
    ensures
        assemble_from(tokens, i, draft) is Err,
    decreases tokens.len() - i,
{
    if i < tokens.len() {
        match tokens[i] {
            XmlToken::Eof => {},
            XmlToken::Fault { .. } => {},
            XmlToken::Start { name, attributes } => {
                if local_name(name) == "Envelope"@ {
                    lemma_no_body_from(
                        tokens,
                        i + 1,
                        Draft {
                            namespaces: draft.namespaces + namespace_declarations(attributes),
                            ..draft.opened()
                        },
                    );
                } else if local_name(name) == "Header"@ {
                    lemma_walk_advances(tokens, i + 1, Walk::start());
                    match walk_from(tokens, i + 1, Walk::start()) {
                        WalkEnd::Closed { walk, next } => {
                            lemma_no_body_from(
                                tokens,
                                next,
                                Draft { header: Some(header_of(walk)), ..draft },
                            );
                        },
                        _ => {},
                    }
                } else {
                    lemma_no_body_from(tokens, i + 1, draft.opened());
                }
            },
            XmlToken::End { .. } => {
                lemma_no_body_from(tokens, i + 1, draft.closed());
            },
            _ => {
                lemma_no_body_from(tokens, i + 1, draft);
            },
        }
    }
}

/// Reading the tokens from index `i` on comes to index `at`: no fault and
/// no end of the document lies before, and every header or body that
/// begins before is closed before.
pub open spec fn arrives(tokens: Seq<XmlToken>, i: int, at: int) -> bool
    decreases tokens.len() - i,
{
    if i == at {
        true
    } else if i < 0 || i > at || i >= tokens.len() {
        false
    } else {
        match tokens[i] {
            XmlToken::Eof => false,
            XmlToken::Fault { .. } => false,
            XmlToken::Start { name, .. } => {
                if local_name(name) != "Envelope"@ && (local_name(name) == "Header"@
                    || local_name(name) == "Body"@) {
                    match walk_from(tokens, i + 1, Walk::start()) {
                        WalkEnd::Closed { next, .. } => {
                            proof {
                                lemma_walk_advances(tokens, i + 1, Walk::start());
                            }
                            arrives(tokens, next, at)
                        },
                        _ => false,
                    }
                } else {
                    arrives(tokens, i + 1, at)
                }
            },
            _ => arrives(tokens, i + 1, at),
        }
    }
}

/// How many elements outside header and body are open where reading from
/// index `i`, with `open` of them open, arrives at index `at`.
pub open spec fn open_on_arrival(tokens: Seq<XmlToken>, i: int, at: int, open: int) -> int
    decreases tokens.len() - i,
{
    if i == at || i < 0 || i > at || i >= tokens.len() {
        open
    } else {
        match tokens[i] {
            XmlToken::Eof => open,
            XmlToken::Fault { .. } => open,
            XmlToken::Start { name, .. } => {
                if local_name(name) != "Envelope"@ && (local_name(name) == "Header"@
                    || local_name(name) == "Body"@) {
                    match walk_from(tokens, i + 1, Walk::start()) {
                        WalkEnd::Closed { next, .. } => {
                            proof {
                                lemma_walk_advances(tokens, i + 1, Walk::start());
                            }
                            open_on_arrival(tokens, next, at, open)
                        },
                        _ => open,
                    }
                } else {
                    open_on_arrival(tokens, i + 1, at, open + 1)
                }
            },
            XmlToken::End { .. } => open_on_arrival(
                tokens,
                i + 1,
                at,
                if open > 0 {
                    open - 1
                } else {
                    0
                },
            ),
            _ => open_on_arrival(tokens, i + 1, at, open),
        }
    }
}

/// From index `i` on, with `open` elements open, the document only closes
/// what is open and ends: text and closing tags, as many closing tags as
/// elements are open, then the end.
pub open spec fn closes_and_ends(tokens: Seq<XmlToken>, i: int, open: int) -> bool
    decreases tokens.len() - i,
{
    if i < 0 || i >= tokens.len() {
        false
    } else {
        match tokens[i] {
            XmlToken::Eof => open == 0,
            XmlToken::End { .. } => open > 0 && closes_and_ends(tokens, i + 1, open - 1),
            XmlToken::Text { .. } => closes_and_ends(tokens, i + 1, open),
            XmlToken::Other => closes_and_ends(tokens, i + 1, open),
            _ => false,
        }
    }
}

/// Where reading arrives, the envelope is what is read from there on,
/// with some draft.
proof fn lemma_arrival(tokens: Seq<XmlToken>, i: int, at: int, draft: Draft) -> (there: Draft)
    requires
        0 <= i,
        arrives(tokens, i, at),
    ensures
        assemble_from(tokens, i, draft) == assemble_from(tokens, at, there),
        there.open == open_on_arrival(tokens, i, at, draft.open),
    decreases tokens.len() - i,
{
    reveal_strlit("Envelope");
    reveal_strlit("Header");
    reveal_strlit("Body");
    if i == at {
        draft
    } else {
        match tokens[i] {
            XmlToken::Start { name, attributes } => {
                if local_name(name) == "Envelope"@ {
                    lemma_arrival(
                        tokens,
                        i + 1,
                        at,
                        Draft {
                            namespaces: draft.namespaces + namespace_declarations(attributes),
                            ..draft.opened()
                        },
                    )
                } else if local_name(name) == "Header"@ {
                    lemma_walk_advances(tokens, i + 1, Walk::start());
                    match walk_from(tokens, i + 1, Walk::start()) {
                        WalkEnd::Closed { walk, next } => lemma_arrival(
                            tokens,
                            next,
                            at,
                            Draft { header: Some(header_of(walk)), ..draft },
                        ),
                        _ => draft,
                    }
                } else if local_name(name) == "Body"@ {
                    lemma_walk_advances(tokens, i + 1, Walk::start());
                    match walk_from(tokens, i + 1, Walk::start()) {
                        WalkEnd::Closed { walk, next } => lemma_arrival(
                            tokens,
                            next,
                            at,
                            Draft { body: Some(body_of(walk)), ..draft },
                        ),
                        _ => draft,
                    }
                } else {
                    lemma_arrival(tokens, i + 1, at, draft.opened())
                }
            },
            XmlToken::End { .. } => lemma_arrival(tokens, i + 1, at, draft.closed()),
            _ => lemma_arrival(tokens, i + 1, at, draft),
        }
    }
}

/// A body that no later body replaces is the envelope's body.
proof fn lemma_body_stays(tokens: Seq<XmlToken>, i: int, draft: Draft)
    requires
        0 <= i,
        draft.body is Some,
        forall|j: int|
            i <= j < tokens.len() && (#[trigger] tokens[j]) is Start ==> local_name(
                tokens[j]->Start_name,
            ) != "Body"@,
    ensures
        assemble_from(tokens, i, draft) matches Ok(envelope) ==> envelope.body == draft.body->0,
    decreases tokens.len() - i,
{
    if i < tokens.len() {
        match tokens[i] {
            XmlToken::Eof => {},
            XmlToken::Fault { .. } => {},
            XmlToken::Start { name, attributes } => {
                if local_name(name) == "Envelope"@ {
                    lemma_body_stays(
                        tokens,
                        i + 1,
                        Draft {
                            namespaces: draft.namespaces + namespace_declarations(attributes),
                            ..draft.opened()
                        },
                    );
                } else if local_name(name) == "Header"@ {
                    lemma_walk_advances(tokens, i + 1, Walk::start());
                    match walk_from(tokens, i + 1, Walk::start()) {
                        WalkEnd::Closed { walk, next } => {
                            lemma_body_stays(
                                tokens,
                                next,
                                Draft { header: Some(header_of(walk)), ..draft },
                            );
                        },
                        _ => {},
                    }
                } else {
                    lemma_body_stays(tokens, i + 1, draft.opened());
                }
            },
            XmlToken::End { .. } => {
                lemma_body_stays(tokens, i + 1, draft.closed());
            },
            _ => {
                lemma_body_stays(tokens, i + 1, draft);
            },
        }
    }
}

/// A walk closes behind an opening tag that it meets at its own level.
proof fn lemma_walk_passes(tokens: Seq<XmlToken>, i: int, k: int, walk: Walk)
    requires
        0 <= i <= k < tokens.len(),
        forall|j: int| i <= j < k ==> (#[trigger] tokens[j]) is Text || tokens[j] is Other,
        tokens[k] is Start,
    ensures
        walk_from(tokens, i, walk) matches WalkEnd::Closed { next, .. } ==> k < next,
    decreases k - i,
{
    if i == k {
        lemma_walk_advances(tokens, i + 1, walk.step(tokens[i]));
    } else {
        assert(tokens[i] is Text || tokens[i] is Other);
        lemma_walk_passes(tokens, i + 1, k, walk.step(tokens[i]));
    }
}

/// The action of an envelope is the local name of the first child element
/// of its body, whether that element is written `<Foo>`, `<ns:Foo>` or
/// `<ns:Foo/>`: where reading arrives at a body's opening tag at `body`,
/// only text and tokens without text stand between it and an opening tag
/// at `child`, and no body begins behind, an envelope that is read has
/// the local part of the child's name as its action.
pub proof fn law_envelope_action_is_first_child(tokens: Seq<XmlToken>, body: int, child: int)
    requires
        0 <= body < child < tokens.len(),
        arrives(tokens, 0, body),
        tokens[body] is Start,
        local_name(tokens[body]->Start_name) == "Body"@,
        forall|j: int| body < j < child ==> (#[trigger] tokens[j]) is Text || tokens[j] is Other,
        tokens[child] is Start,
        forall|j: int|
            child <= j < tokens.len() && (#[trigger] tokens[j]) is Start ==> local_name(
                tokens[j]->Start_name,
            ) != "Body"@,
    ensures
        envelope_of(tokens) matches Ok(envelope) ==> envelope.body.action == local_name(
            tokens[child]->Start_name,
        ),
{
    reveal_strlit("Envelope");
    reveal_strlit("Header");
    reveal_strlit("Body");
    let there = lemma_arrival(tokens, 0, body, Draft::empty());
    law_action_is_first_child(tokens, body + 1, child);
    lemma_walk_passes(tokens, body + 1, child, Walk::start());
    match walk_from(tokens, body + 1, Walk::start()) {
        WalkEnd::Closed { walk, next } => {
            lemma_body_stays(tokens, next, Draft { body: Some(body_of(walk)), ..there });
        },
        _ => {},
    }
}

/// A document that only closes what is open and ends is read to its end.
proof fn lemma_closing_is_read(tokens: Seq<XmlToken>, i: int, draft: Draft)
    requires
        0 <= i,
        draft.body is Some,
        closes_and_ends(tokens, i, draft.open),
    ensures
        assemble_from(tokens, i, draft) is Ok,
    decreases tokens.len() - i,
{
    match tokens[i] {
        XmlToken::End { .. } => {
            lemma_closing_is_read(tokens, i + 1, draft.closed());
        },
        XmlToken::Text { .. } => {
            lemma_closing_is_read(tokens, i + 1, draft);
        },
        XmlToken::Other => {
            lemma_closing_is_read(tokens, i + 1, draft);
        },
        _ => {},
    }
}

/// A closed envelope is read: where reading arrives at a body's opening
/// tag at `body`, the body is closed, and what follows only closes the
/// elements that are open and ends the document, the tokens describe an
/// envelope.
pub proof fn law_closed_envelope_is_read(tokens: Seq<XmlToken>, body: int)
    requires
        0 <= body < tokens.len(),
        arrives(tokens, 0, body),
        tokens[body] is Start,
        local_name(tokens[body]->Start_name) == "Body"@,
        walk_from(tokens, body + 1, Walk::start()) is Closed,
        closes_and_ends(
            tokens,
            walk_from(tokens, body + 1, Walk::start())->Closed_next,
            open_on_arrival(tokens, 0, body, 0),
        ),
    ensures
        envelope_of(tokens) is Ok,
{
    reveal_strlit("Envelope");
    reveal_strlit("Header");
    reveal_strlit("Body");
    let there = lemma_arrival(tokens, 0, body, Draft::empty());
    lemma_walk_advances(tokens, body + 1, Walk::start());
    match walk_from(tokens, body + 1, Walk::start()) {
        WalkEnd::Closed { walk, next } => {
            lemma_closing_is_read(tokens, next, Draft { body: Some(body_of(walk)), ..there });
        },
        _ => {},
    }
}

} // verus!
