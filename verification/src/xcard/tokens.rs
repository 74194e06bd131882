//! The XML events that the xCard reader works on, read from text with
//! `quick_xml`, and the resolution of XML references.

use vstd::prelude::*;

use quick_xml::events::Event;
use quick_xml::reader::Reader;
use quick_xml::XmlVersion;
use quick_xml::Error as XmlError;

use crate::error;
use crate::text::{chars_of, owned};

verus! {

/// An attribute of a start tag: its local name, and its value with
/// references resolved and whitespace normalized, or the raw value when a
/// reference in it cannot be resolved.
pub struct XmlAttribute {
    pub key: String,
    pub value: Result<String, String>,
}

/// A start tag: its local name (the part after any namespace prefix) and
/// its attributes.
pub struct XmlTag {
    pub name: String,
    pub attributes: Vec<XmlAttribute>,
}

/// One XML event. An empty-element tag `<x/>` is a `Start` followed by an
/// `End`; the end of the input is the end of the list.
pub enum XmlToken {
    Start(XmlTag),
    End,
    /// Character data, with end-of-line normalization applied.
    Text(String),
    /// A reference `&body;`, holding its body.
    Ref(String),
    /// A comment, declaration, processing instruction or document type.
    Other,
}

pub struct SpecAttribute {
    pub key: Seq<char>,
    pub value: Result<Seq<char>, Seq<char>>,
}

pub struct SpecTag {
    pub name: Seq<char>,
    pub attributes: Seq<SpecAttribute>,
}

pub enum SpecToken {
    Start(SpecTag),
    End,
    Text(Seq<char>),
    Ref(Seq<char>),
    Other,
}

impl View for XmlAttribute {
    type V = SpecAttribute;

    open spec fn view(&self) -> SpecAttribute {
        SpecAttribute {
            key: self.key@,
            value: match self.value {
                Ok(v) => Ok(v@),
                Err(raw) => Err(raw@),
            },
        }
    }
}

impl View for XmlTag {
    type V = SpecTag;

    open spec fn view(&self) -> SpecTag {
        SpecTag {
            name: self.name@,
            attributes: self.attributes@.map_values(|a: XmlAttribute| a@),
        }
    }
}

impl View for XmlToken {
    type V = SpecToken;

    open spec fn view(&self) -> SpecToken {
        match self {
            XmlToken::Start(t) => SpecToken::Start(t@),
            XmlToken::End => SpecToken::End,
            XmlToken::Text(s) => SpecToken::Text(s@),
            XmlToken::Ref(s) => SpecToken::Ref(s@),
            XmlToken::Other => SpecToken::Other,
        }
    }
}

pub open spec fn tokens_view(ts: Seq<XmlToken>) -> Seq<SpecToken> {
    ts.map_values(|t: XmlToken| t@)
}

// ---------------------------------------------------------------------------
// quick_xml
// ---------------------------------------------------------------------------
#[verifier::external_type_specification]
#[verifier::external_body]
#[verifier::reject_recursive_types(R)]
pub struct ExReader<R>(Reader<R>);

#[verifier::external_type_specification]
#[verifier::external_body]
pub struct ExEvent<'i>(Event<'i>);

/// The kind of a `quick_xml` event.
pub enum EventKind {
    Start,
    Empty,
    End,
    Text,
    Ref,
    Eof,
    Other,
}

/// An event of the reader in plain values: a start or empty-element tag
/// (its local name and attributes, as [`XmlTag`] holds them), an end tag,
/// character data (`xml_content` of a text or CDATA event), a general
/// reference (its body), the end of the input, or any other event.
pub enum SpecEvent {
    Start(SpecTag),
    Empty(SpecTag),
    End,
    Text(Seq<char>),
    Ref(Seq<char>),
    Eof,
    Other,
}

/// What the call of `Reader::read_event` numbered `i` (counting from 0)
/// gives on the reader that [`xml_reader`] makes over `text`, as a plain
/// event; `None` when that call returns an error.
pub uninterp spec fn xml_event(text: Seq<char>, i: nat) -> Option<SpecEvent>;

pub open spec fn kind_of(ev: SpecEvent) -> EventKind {
    match ev {
        SpecEvent::Start(_) => EventKind::Start,
        SpecEvent::Empty(_) => EventKind::Empty,
        SpecEvent::End => EventKind::End,
        SpecEvent::Text(_) => EventKind::Text,
        SpecEvent::Ref(_) => EventKind::Ref,
        SpecEvent::Eof => EventKind::Eof,
        SpecEvent::Other => EventKind::Other,
    }
}

/// The text an event carries: character data, or a reference's body.
pub open spec fn text_of(ev: SpecEvent) -> Seq<char> {
    match ev {
        SpecEvent::Text(s) => s,
        SpecEvent::Ref(s) => s,
        _ => Seq::empty(),
    }
}

/// The tag of a start or empty-element event.
pub open spec fn tag_of(ev: SpecEvent) -> SpecTag {
    match ev {
        SpecEvent::Start(t) => t,
        SpecEvent::Empty(t) => t,
        _ => SpecTag { name: Seq::empty(), attributes: Seq::empty() },
    }
}

/// `quick_xml::reader::Reader::from_str` over `xml`, with
/// `allow_dangling_amp` set so that a lone `&` comes back as text instead of
/// failing the document. Nothing is claimed of the reader.
#[verifier::external_body]
fn xml_reader<'a>(xml: &'a str) -> Reader<&'a [u8]> {
    let mut reader = Reader::from_str(xml);
    reader.config_mut().allow_dangling_amp = true;
    reader
}

#[verifier::external_type_specification]
#[verifier::external_body]
pub struct ExXmlError(XmlError);

/// A `quick_xml` reader over a text, with the event it gave last; it
/// records the text and how many events were asked of it.
pub struct XmlEvents<'a> {
    reader: Reader<&'a [u8]>,
    current: Option<Event<'a>>,
    text: Ghost<Seq<char>>,
    count: Ghost<nat>,
}

impl<'a> XmlEvents<'a> {
    pub closed spec fn text(&self) -> Seq<char> {
        self.text@
    }

    pub closed spec fn count(&self) -> nat {
        self.count@
    }

    /// The event that the reader gave last, if it gave one.
    pub open spec fn last_event(&self) -> Option<SpecEvent> {
        if self.count() > 0 {
            xml_event(self.text(), (self.count() - 1) as nat)
        } else {
            None
        }
    }
}

/// A reader over `xml` that has given no event yet.
fn open_events<'a>(xml: &'a str) -> (r: XmlEvents<'a>)
    ensures
        r.text() == xml@,
        r.count() == 0,
{
    XmlEvents { reader: xml_reader(xml), current: None, text: Ghost(xml@), count: Ghost(0) }
}

/// `Reader::read_event`: the next event, kept as the last one, or the
/// reader's error. Either way the call is counted, and it succeeds exactly
/// when the event of that number is not an error.
#[verifier::external_body]
fn advance<'a>(events: &mut XmlEvents<'a>) -> (r: Result<(), XmlError>)
    ensures
        final(events).text() == old(events).text(),
        final(events).count() == old(events).count() + 1,
        r is Ok <==> xml_event(old(events).text(), old(events).count()) is Some,
{
    let e = events.reader.read_event()?;
    events.current = Some(e);
    Ok(())
}

/// The message of a `quick_xml::Error`, as its `Display` writes it.
/// Nothing is claimed of the text.
#[verifier::external_body]
fn xml_error_text(e: &XmlError) -> String {
    e.to_string()
}

/// The library's error for a `quick_xml` error: `InvalidXml`, with the
/// reader's message.
pub fn xml_err(e: XmlError) -> (r: error::Error)
    ensures
        r is InvalidXml,
{
    error::Error::InvalidXml(xml_error_text(&e))
}

/// The variant of the last `quick_xml::events::Event`; text and CDATA are
/// both character data.
#[verifier::external_body]
fn event_kind(events: &XmlEvents<'_>) -> (r: EventKind)
    requires
        events.last_event() is Some,
    ensures
        r == kind_of(events.last_event()->0),
{
    match &events.current {
        Some(Event::Start(_)) => EventKind::Start,
        Some(Event::Empty(_)) => EventKind::Empty,
        Some(Event::End(_)) => EventKind::End,
        Some(Event::Text(_)) | Some(Event::CData(_)) => EventKind::Text,
        Some(Event::GeneralRef(_)) => EventKind::Ref,
        Some(Event::Eof) => EventKind::Eof,
        _ => EventKind::Other,
    }
}

/// The character data of the last event, when it is text or CDATA
/// (`xml_content` with XML 1.0 end-of-line normalization), the body of a
/// reference event, and an empty string for any other event.
#[verifier::external_body]
fn event_text(events: &XmlEvents<'_>) -> (r: String)
    requires
        events.last_event() is Some,
    ensures
        r@ == text_of(events.last_event()->0),
{
    match &events.current {
        Some(Event::Text(t)) => t.xml_content(XmlVersion::Implicit1_0).into_owned(),
        Some(Event::CData(t)) => t.xml_content(XmlVersion::Implicit1_0).into_owned(),
        Some(Event::GeneralRef(r)) => r.as_ref().to_owned(),
        _ => String::new(),
    }
}

/// The local name (`BytesStart::local_name`) of the last event's tag, when
/// it is a start or empty tag, and an empty string for any other event.
#[verifier::external_body]
fn event_tag_name(events: &XmlEvents<'_>) -> (r: String)
    requires
        events.last_event() is Some,
    ensures
        r@ == tag_of(events.last_event()->0).name,
{
    match &events.current {
        Some(Event::Start(t)) | Some(Event::Empty(t)) => t.local_name().into_inner().to_owned(),
        _ => String::new(),
    }
}

/// The well-formed attributes (`BytesStart::attributes`, malformed ones
/// skipped) of the last event's tag: each local name with its
/// `normalized_value` for XML 1.0, or its raw value when that fails; none
/// for any other event.
#[verifier::external_body]
fn event_tag_attributes(events: &XmlEvents<'_>) -> (r: Vec<XmlAttribute>)
    requires
        events.last_event() is Some,
    ensures
        r@.map_values(|a: XmlAttribute| a@) == tag_of(events.last_event()->0).attributes,
{
    let t = match &events.current {
        Some(Event::Start(t)) | Some(Event::Empty(t)) => t,
        _ => return Vec::new(),
    };
    let mut out = Vec::new();
    for a in t.attributes().flatten() {
        let key = a.key.local_name().into_inner().to_owned();
        let value = match a.normalized_value(XmlVersion::Implicit1_0) {
            Ok(v) => Ok(v.into_owned()),
            Err(_) => Err(a.value.clone().into_owned()),
        };
        out.push(XmlAttribute { key, value });
    }
    out
}

/// The tag of the last event.
fn event_tag(events: &XmlEvents<'_>) -> (r: XmlTag)
    requires
        events.last_event() is Some,
    ensures
        r@ == tag_of(events.last_event()->0),
{
    let r = XmlTag { name: event_tag_name(events), attributes: event_tag_attributes(events) };
    assert(r@ =~= tag_of(events.last_event()->0));
    r
}

/// The tokens of one event: an empty-element tag is a start followed by an
/// end; the end of the input gives none.
pub open spec fn event_tokens(ev: SpecEvent) -> Seq<SpecToken> {
    match ev {
        SpecEvent::Start(t) => seq![SpecToken::Start(t)],
        SpecEvent::Empty(t) => seq![SpecToken::Start(t), SpecToken::End],
        SpecEvent::End => seq![SpecToken::End],
        SpecEvent::Text(s) => seq![SpecToken::Text(s)],
        SpecEvent::Ref(s) => seq![SpecToken::Ref(s)],
        SpecEvent::Eof => Seq::empty(),
        SpecEvent::Other => seq![SpecToken::Other],
    }
}

/// The tokens of the events of `text` from number `i` up to the end of the
/// input; `None` when the reader fails first, or when event `limit` is
/// reached without the end.
pub open spec fn tokens_from(text: Seq<char>, i: nat, limit: nat) -> Option<Seq<SpecToken>>
    decreases limit + 1 - i,
{
    if i > limit {
        None
    } else {
        match xml_event(text, i) {
            None => None,
            Some(SpecEvent::Eof) => Some(Seq::empty()),
            Some(ev) => match tokens_from(text, i + 1, limit) {
                Some(rest) => Some(event_tokens(ev) + rest),
                None => None,
            },
        }
    }
}

/// The tokens of an XML text: the events that the reader gives, up to the
/// end of the input, or `None` when it reports the text as ill-formed.
/// Every event before the end consumes at least one character, so more than
/// one event per character (and one for the end) never comes.
pub open spec fn xml_tokens(text: Seq<char>) -> Option<Seq<SpecToken>> {
    tokens_from(text, 0, text.len())
}

proof fn lemma_tokens_step(
    text: Seq<char>,
    i: nat,
    limit: nat,
    done: Seq<SpecToken>,
    ev: SpecEvent,
)
    requires
        i <= limit,
        xml_event(text, i) == Some(ev),
        ev !is Eof,
    ensures
        match tokens_from(text, i, limit) {
            Some(rest) => Some(done + rest),
            None => None,
        } == match tokens_from(text, i + 1, limit) {
            Some(rest) => Some((done + event_tokens(ev)) + rest),
            None => None::<Seq<SpecToken>>,
        },
{
    match tokens_from(text, i + 1, limit) {
        Some(rest) => {
            assert(done + (event_tokens(ev) + rest) =~= (done + event_tokens(ev)) + rest);
        },
        None => {},
    }
}

/// The tokens of an XML document, read with `quick_xml` until the end of the
/// input; `Err(InvalidXml)` with the reader's message as soon as it reports
/// ill-formed input.
pub fn tokenize(xml: &str) -> (r: Result<Vec<XmlToken>, error::Error>)
    ensures
        match xml_tokens(xml@) {
            Some(ts) => r is Ok && tokens_view(r->Ok_0@) == ts,
            None => r is Err && r->Err_0 is InvalidXml,
        },
{
    let ghost text = xml@;
    let mut events = open_events(xml);
    let limit: u128 = chars_of(xml).len() as u128;
    let mut tokens: Vec<XmlToken> = Vec::new();
    let mut count: u128 = 0;
    assert(tokens_view(tokens@) =~= Seq::<SpecToken>::empty());
    assert(match tokens_from(text, 0, limit as nat) {
        Some(rest) => Some(Seq::<SpecToken>::empty() + rest),
        None => None::<Seq<SpecToken>>,
    } =~= tokens_from(text, 0, limit as nat)) by {
        match tokens_from(text, 0, limit as nat) {
            Some(rest) => assert(Seq::<SpecToken>::empty() + rest =~= rest),
            None => {},
        }
    }
    while count <= limit
        invariant
            text == xml@,
            limit == text.len(),
            limit < 0x1_0000_0000_0000_0000,
            events.text() == text,
            events.count() == count,
            xml_tokens(text) == match tokens_from(text, count as nat, limit as nat) {
                Some(rest) => Some(tokens_view(tokens@) + rest),
                None => None,
            },
        decreases limit + 1 - count,
    {
        match advance(&mut events) {
            Ok(()) => {},
            Err(err) => return Err(xml_err(err)),
        }
        let ghost ev = events.last_event()->0;
        let ghost before = tokens_view(tokens@);
        match event_kind(&events) {
            EventKind::Eof => {
                assert(before + Seq::<SpecToken>::empty() =~= before);
                return Ok(tokens);
            },
            EventKind::Start => tokens.push(XmlToken::Start(event_tag(&events))),
            EventKind::Empty => {
                tokens.push(XmlToken::Start(event_tag(&events)));
                tokens.push(XmlToken::End);
            },
            EventKind::End => tokens.push(XmlToken::End),
            EventKind::Text => tokens.push(XmlToken::Text(event_text(&events))),
            EventKind::Ref => tokens.push(XmlToken::Ref(event_text(&events))),
            EventKind::Other => tokens.push(XmlToken::Other),
        }
        proof {
            assert(tokens_view(tokens@) =~= before + event_tokens(ev));
            lemma_tokens_step(text, count as nat, limit as nat, before, ev);
        }
        count = count + 1;
    }
    Err(error::Error::InvalidXml(owned("more events than characters of input")))
}

// ---------------------------------------------------------------------------
// References
// ---------------------------------------------------------------------------
/// The value of a digit in the given radix (10 or 16).
pub open spec fn radix_digit(c: char, radix: nat) -> Option<nat> {
    if '0' <= c && c <= '9' && (c as int) - 48 < radix {
        Some(((c as int) - 48) as nat)
    } else if radix == 16 && 'a' <= c && c <= 'f' {
        Some(((c as int) - 87) as nat)
    } else if radix == 16 && 'A' <= c && c <= 'F' {
        Some(((c as int) - 55) as nat)
    } else {
        None
    }
}

pub open spec fn radix_value(s: Seq<char>, radix: nat) -> Option<nat>
    decreases s.len(),
{
    if s.len() == 0 {
        Some(0)
    } else {
        match (radix_value(s.drop_last(), radix), radix_digit(s.last(), radix)) {
            (Some(v), Some(d)) => Some(v * radix + d),
            _ => None,
        }
    }
}

/// A character reference body `#123` or `#x1F` gives `Some(Some(c))` for a
/// non-zero Unicode scalar value, `None` (an error) for any other number or
/// malformed digits; a body not starting with `#` gives `Some(None)`.
pub open spec fn char_reference(body: Seq<char>) -> Option<Option<char>> {
    if !(body.len() > 0 && body[0] == '#') {
        Some(None)
    } else {
        let num = body.drop_first();
        let hex = num.len() > 0 && num[0] == 'x';
        let digits = if hex {
            num.drop_first()
        } else {
            num
        };
        let radix: nat = if hex {
            16
        } else {
            10
        };
        if digits.len() == 0 || digits[0] == '+' || digits[0] == '-' {
            None
        } else {
            match radix_value(digits, radix) {
                Some(v) => if v == 0 || v > 0x10FFFF || (0xD800 <= v && v <= 0xDFFF) {
                    None
                } else {
                    Some(Some(v as char))
                },
                None => None,
            }
        }
    }
}

/// The five entities that XML predefines.
pub open spec fn xml_entity(body: Seq<char>) -> Option<Seq<char>> {
    if body == "lt"@ {
        Some("<"@)
    } else if body == "gt"@ {
        Some(">"@)
    } else if body == "amp"@ {
        Some("&"@)
    } else if body == "apos"@ {
        Some("'"@)
    } else if body == "quot"@ {
        Some("\""@)
    } else {
        None
    }
}

/// `BytesRef::resolve_char_ref`: for a body starting with `#`, the character
/// its decimal (or, after `x`, hexadecimal) digits stand for, an error for a
/// sign, bad digits, zero, or no Unicode scalar value; `Ok(None)` for a body
/// not starting with `#`.
#[verifier::external_body]
fn resolve_char_ref(body: &str) -> (r: Result<Option<char>, XmlError>)
    ensures
        match char_reference(body@) {
            Some(o) => r matches Ok(c) && c == o,
            None => r is Err,
        },
{
    quick_xml::events::BytesRef::new(body).resolve_char_ref()
}

/// `quick_xml::escape::resolve_xml_entity`: the replacement text of `lt`,
/// `gt`, `amp`, `apos` and `quot`, nothing for any other name.
pub assume_specification[ quick_xml::escape::resolve_xml_entity ](entity: &str) -> (r: Option<
    &'static str,
>)
    ensures
        match xml_entity(entity@) {
            Some(t) => r is Some && r.unwrap()@ == t,
            None => r is None,
        },
;

/// The text a reference body stands for: a character reference, or one of
/// the predefined entities; nothing for any other entity or a malformed
/// character reference.
pub open spec fn resolve_reference(body: Seq<char>) -> Option<Seq<char>> {
    match char_reference(body) {
        Some(Some(c)) => Some(seq![c]),
        Some(None) => xml_entity(body),
        None => None,
    }
}

/// The text a reference body stands for, if it resolves.
pub fn resolve_reference_exec(body: &str) -> (r: Option<String>)
    ensures
        match resolve_reference(body@) {
            Some(t) => r is Some && r.unwrap()@ == t,
            None => r is None,
        },
{
    match resolve_char_ref(body) {
        Ok(Some(ch)) => {
            let mut s = String::new();
            s.push(ch);
            Some(s)
        },
        Ok(None) => match quick_xml::escape::resolve_xml_entity(body) {
            Some(t) => Some(owned(t)),
            None => None,
        },
        Err(_) => None,
    }
}

} // verus!
