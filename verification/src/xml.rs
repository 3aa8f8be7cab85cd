//! The XML events that this library reads and writes, and the calls into
//! quick-xml that produce and consume them.

use quick_xml::events::attributes::Attributes;
use quick_xml::events::{BytesEnd, BytesRef, BytesStart, BytesText, Event};
use quick_xml::escape::resolve_predefined_entity;
use quick_xml::Reader;
use quick_xml::Writer;
use quick_xml::Error as XmlError;
use crate::context::pairs_text;
use vstd::prelude::*;
use vstd::utf8::encode_utf8;

verus! {

#[verifier::external_type_specification]
#[verifier::external_body]
#[verifier::reject_recursive_types(R)]
pub struct ExReader<R>(Reader<R>);

#[verifier::external_type_specification]
#[verifier::external_body]
pub struct ExAttributes<'a>(Attributes<'a>);

/// The item and error types of [`Attributes`] are declared as well.
#[verifier::external_type_specification]
#[verifier::external_body]
pub struct ExAttribute<'a>(quick_xml::events::attributes::Attribute<'a>);

#[verifier::external_type_specification]
#[verifier::external_body]
pub struct ExAttrError(quick_xml::events::attributes::AttrError);

#[verifier::external_type_specification]
#[verifier::external_body]
pub struct ExXmlError(XmlError);

#[verifier::external_type_specification]
#[verifier::external_body]
pub struct ExIoError(std::io::Error);

/// One event of an XML stream, reduced to the plain values that this
/// library reads: the name of a tag, or the text of a text section.
#[derive(Debug, Clone, PartialEq)]
pub enum XmlEvent {
    /// A start tag `<name ...>`, by the name and the attributes, each as its
    /// name and normalized value; `None` if the attributes are malformed.
    Start(String, Option<Vec<(String, String)>>),
    /// An end tag `</name>`, by the name.
    End(String),
    /// An empty-element tag `<name .../>`, by the name.
    Empty(String),
    /// Character data between tags.
    Text(String),
    /// The content of a `<![CDATA[...]]>` section.
    CData(String),
    /// A general reference `&name;`, by the text between `&` and `;`.
    GeneralRef(String),
    /// The end of the document.
    Eof,
    /// Any other markup (comments, declarations, processing instructions).
    Other,
}

/// The abstract value of an [`XmlEvent`]: the same event over character sequences.
pub enum EventView {
    Start(Seq<char>, Option<Seq<(Seq<char>, Seq<char>)>>),
    End(Seq<char>),
    Empty(Seq<char>),
    Text(Seq<char>),
    CData(Seq<char>),
    GeneralRef(Seq<char>),
    Eof,
    Other,
}

impl View for XmlEvent {
    type V = EventView;

    open spec fn view(&self) -> EventView {
        match self {
            XmlEvent::Start(n, a) => EventView::Start(
                n@,
                match a {
                    Some(v) => Some(pairs_text(v@)),
                    None => None,
                },
            ),
            XmlEvent::End(n) => EventView::End(n@),
            XmlEvent::Empty(n) => EventView::Empty(n@),
            XmlEvent::Text(t) => EventView::Text(t@),
            XmlEvent::CData(t) => EventView::CData(t@),
            XmlEvent::GeneralRef(g) => EventView::GeneralRef(g@),
            XmlEvent::Eof => EventView::Eof,
            XmlEvent::Other => EventView::Other,
        }
    }
}

/// The abstract values of a sequence of events.
pub open spec fn events_view(evs: Seq<XmlEvent>) -> Seq<EventView> {
    evs.map_values(|e: XmlEvent| e@)
}

/// Reads the next event of the stream, reduced to an [`XmlEvent`].
///
/// Calls `quick_xml::Reader::read_event_into`; a start tag's attributes are
/// read with [`attribute_pairs`]. What comes back depends on the state of the
/// reader, which is opaque here: nothing is stated of it.
#[verifier::external_body]
pub(crate) fn read_event<'a>(reader: &mut Reader<&'a [u8]>) -> (r: Result<XmlEvent, XmlError>) {
    let mut buf = Vec::new();
    Ok(match reader.read_event_into(&mut buf)? {
        Event::Start(e) => XmlEvent::Start(e.name().0.to_owned(), attribute_pairs(e.attributes())),
        Event::End(e) => XmlEvent::End(e.name().0.to_owned()),
        Event::Empty(e) => XmlEvent::Empty(e.name().0.to_owned()),
        Event::Text(e) => XmlEvent::Text(e.to_string()),
        Event::CData(e) => XmlEvent::CData(e.to_string()),
        Event::GeneralRef(e) => XmlEvent::GeneralRef(e.to_string()),
        Event::Eof => XmlEvent::Eof,
        _ => XmlEvent::Other,
    })
}

/// The number of input bytes that the reader has not consumed yet.
///
/// Calls `quick_xml::Reader::get_ref` and takes the length of the unread
/// slice; nothing is stated of the number.
#[verifier::external_body]
pub(crate) fn unread_len<'a>(reader: &Reader<&'a [u8]>) -> usize {
    reader.get_ref().len()
}

/// The error that quick-xml reports when the end tag of `name` is missing.
///
/// Builds `XmlError::IllFormed(IllFormedError::MissingEndTag(name))`,
/// the value that `Reader::read_to_end_into` returns when the stream ends first.
#[verifier::external_body]
pub(crate) fn missing_end_tag(name: &str) -> XmlError {
    XmlError::IllFormed(quick_xml::errors::IllFormedError::MissingEndTag(name.to_owned()))
}

/// The attributes of a tag, each as its name and its value.
///
/// Iterates quick-xml's `Attributes` and takes each value by
/// `Attribute::normalized_value(XmlVersion::Implicit1_0)`, which resolves the
/// predefined entities and character references and normalizes white space
/// as XML 1.0 requires. If an attribute is malformed (quick-xml reports an
/// error for it or for its value), the result is `None`. Nothing is stated of
/// the pairs: the attributes are opaque here.
#[verifier::external_body]
pub(crate) fn attribute_pairs(attributes: Attributes) -> Option<Vec<(String, String)>> {
    let mut pairs = Vec::new();
    for attribute in attributes {
        let attribute = attribute.ok()?;
        let value = attribute.normalized_value(quick_xml::XmlVersion::Implicit1_0).ok()?;
        pairs.push((attribute.key.0.to_owned(), value.into_owned()));
    }
    Some(pairs)
}

/// The error that quick-xml reports for a reference to an entity it does not
/// know.
///
/// Builds `XmlError::Escape(EscapeError::UnrecognizedEntity(..))` with the
/// name, the error that quick-xml's own unescaping gives for such a reference.
#[verifier::external_body]
pub(crate) fn unrecognized_entity(name: &str) -> XmlError {
    XmlError::Escape(quick_xml::escape::EscapeError::UnrecognizedEntity(0..name.len(), name.to_owned()))
}

/// The replacement text of the five entities that XML predefines.
pub open spec fn predefined_entity(name: Seq<char>) -> Option<Seq<char>> {
    if name == seq!['l', 't'] {
        Some(seq!['<'])
    } else if name == seq!['g', 't'] {
        Some(seq!['>'])
    } else if name == seq!['a', 'm', 'p'] {
        Some(seq!['&'])
    } else if name == seq!['a', 'p', 'o', 's'] {
        Some(seq!['\''])
    } else if name == seq!['q', 'u', 'o', 't'] {
        Some(seq!['"'])
    } else {
        None
    }
}

/// Resolves one of the entities that XML predefines.
///
/// Calls `quick_xml::escape::resolve_predefined_entity` (built without the
/// `escape-html` feature, so it resolves `lt`, `gt`, `amp`, `apos` and `quot`
/// and nothing else); the contract states that table.
#[verifier::external_body]
pub(crate) fn resolve_entity(name: &str) -> (r: Option<&'static str>)
    ensures
        match r {
            Some(s) => predefined_entity(name@) == Some(s@),
            None => predefined_entity(name@) is None,
        },
{
    resolve_predefined_entity(name)
}

/// The value of a digit in the given radix (10 or 16).
pub open spec fn digit_value(c: char, radix: nat) -> Option<nat> {
    if '0' <= c <= '9' {
        Some((c as nat - '0' as nat) as nat)
    } else if radix == 16 && 'a' <= c <= 'f' {
        Some((c as nat - 'a' as nat + 10) as nat)
    } else if radix == 16 && 'A' <= c <= 'F' {
        Some((c as nat - 'A' as nat + 10) as nat)
    } else {
        None
    }
}

/// The number that a non-empty string of digits denotes.
pub open spec fn digits_value(s: Seq<char>, radix: nat) -> Option<nat>
    decreases s.len(),
{
    if s.len() == 0 {
        None
    } else {
        match digit_value(s.last(), radix) {
            None => None,
            Some(d) => if s.len() == 1 {
                Some(d)
            } else {
                match digits_value(s.drop_last(), radix) {
                    Some(v) => Some(v * radix + d),
                    None => None,
                }
            },
        }
    }
}

/// The code point of a character reference, given the text after `#`:
/// `x` and hexadecimal digits, or decimal digits; no sign; at most
/// `u32::MAX`; not zero.
pub open spec fn char_ref_code(num: Seq<char>) -> Option<nat> {
    let hex = num.len() > 0 && num[0] == 'x';
    let digits = if hex { num.drop_first() } else { num };
    let radix: nat = if hex { 16 } else { 10 };
    match digits_value(digits, radix) {
        Some(v) => if 0 < v <= u32::MAX { Some(v) } else { None },
        None => None,
    }
}

/// Whether a reference names a character (`&#...;`) rather than an entity.
pub open spec fn is_char_ref(name: Seq<char>) -> bool {
    name.len() > 0 && name[0] == '#'
}

/// Resolves a character reference `&#...;`.
///
/// Calls `quick_xml::events::BytesRef::resolve_char_ref` on `name`. As its
/// source shows: a name that does not start with `#` gives `Ok(None)`; else the
/// rest is parsed by `u32::from_str_radix` (radix 16 after `x`, else 10, a sign
/// refused), zero is refused, and the number must be a Unicode scalar value.
#[verifier::external_body]
pub(crate) fn resolve_char_ref(name: &str) -> (r: Result<Option<char>, XmlError>)
    ensures
        !is_char_ref(name@) ==> r matches Ok(None),
        is_char_ref(name@) ==> match r {
            Ok(Some(c)) => char_ref_code(name@.drop_first()) == Some((c as u32) as nat),
            Ok(None) => false,
            Err(_) => match char_ref_code(name@.drop_first()) {
                Some(v) => !vstd::utf8::is_scalar(v as u32),
                None => true,
            },
        },
{
    BytesRef::new(name).resolve_char_ref()
}

/// Whether two strings are equal.
///
/// Calls `<str as PartialEq>::eq`.
#[verifier::external_body]
pub(crate) fn str_eq(a: &str, b: &str) -> (r: bool)
    ensures
        r == (a@ == b@),
{
    a == b
}

/// The text that `quick_xml::escape::escape` puts in place of one character.
pub open spec fn escape_char(c: char) -> Seq<char> {
    if c == '<' {
        seq!['&', 'l', 't', ';']
    } else if c == '>' {
        seq!['&', 'g', 't', ';']
    } else if c == '&' {
        seq!['&', 'a', 'm', 'p', ';']
    } else if c == '\'' {
        seq!['&', 'a', 'p', 'o', 's', ';']
    } else if c == '"' {
        seq!['&', 'q', 'u', 'o', 't', ';']
    } else if c == '\r' {
        seq!['&', '#', '1', '3', ';']
    } else {
        seq![c]
    }
}

/// The text with every special character escaped.
pub open spec fn escape_text(s: Seq<char>) -> Seq<char>
    decreases s.len(),
{
    if s.len() == 0 {
        seq![]
    } else {
        escape_text(s.drop_last()) + escape_char(s.last())
    }
}

/// Whether escaping replaces the character by a reference.
pub open spec fn is_escaped(c: char) -> bool {
    c == '<' || c == '>' || c == '&' || c == '\'' || c == '"' || c == '\r'
}

/// The name of the reference that escaping puts in place of a character:
/// the text of [`escape_char`] between `&` and `;`.
pub open spec fn escape_ref(c: char) -> Seq<char> {
    if c == '<' {
        seq!['l', 't']
    } else if c == '>' {
        seq!['g', 't']
    } else if c == '&' {
        seq!['a', 'm', 'p']
    } else if c == '\'' {
        seq!['a', 'p', 'o', 's']
    } else if c == '"' {
        seq!['q', 'u', 'o', 't']
    } else {
        seq!['#', '1', '3']
    }
}

/// The end of the run of characters from `i` on that escaping leaves as
/// they are.
pub open spec fn run_end(s: Seq<char>, i: int) -> int
    decreases s.len() - i,
{
    if i < 0 || i >= s.len() || is_escaped(s[i]) {
        i
    } else {
        run_end(s, i + 1)
    }
}

/// A run ends after its start, within the text, before an escaped character.
pub proof fn lemma_run_end(s: Seq<char>, i: int)
    requires
        0 <= i <= s.len(),
    ensures
        i <= run_end(s, i) <= s.len(),
        forall|k: int| i <= k < run_end(s, i) ==> !is_escaped(#[trigger] s[k]),
        run_end(s, i) < s.len() ==> is_escaped(s[run_end(s, i)]),
    decreases s.len() - i,
{
    if i < s.len() && !is_escaped(s[i]) {
        lemma_run_end(s, i + 1);
    }
}

/// The events in which quick-xml's reader hands back the escaped text of `s`
/// from index `i` on, as it stands between two tags: each run of characters
/// that escaping leaves as they are is one text event, and each escaped
/// character is a reference event.
pub open spec fn text_read_events(s: Seq<char>, i: int) -> Seq<EventView>
    decreases s.len() - i,
{
    if i < 0 || i >= s.len() {
        seq![]
    } else if is_escaped(s[i]) {
        seq![EventView::GeneralRef(escape_ref(s[i]))] + text_read_events(s, i + 1)
    } else {
        proof {
            lemma_run_end(s, i + 1);
        }
        seq![EventView::Text(s.subrange(i, run_end(s, i + 1)))] + text_read_events(s, run_end(s, i + 1))
    }
}

/// The characters that a writer without indentation emits for an event.
pub open spec fn event_chars(ev: EventView) -> Seq<char> {
    match ev {
        EventView::Start(n, _) => seq!['<'] + n + seq!['>'],
        EventView::End(n) => seq!['<', '/'] + n + seq!['>'],
        EventView::Text(t) => escape_text(t),
        _ => seq![],
    }
}

/// Whether the event is one that this library writes: a start tag without
/// attributes, an end tag, or text.
pub open spec fn is_written_event(ev: EventView) -> bool {
    (ev matches EventView::Start(_, Some(a)) && a.len() == 0) || ev is End || ev is Text
}

/// The bytes of a sequence of written events, one after the other.
pub open spec fn events_bytes(evs: Seq<EventView>) -> Seq<u8>
    decreases evs.len(),
{
    if evs.len() == 0 {
        seq![]
    } else {
        events_bytes(evs.drop_last()) + encode_utf8(event_chars(evs.last()))
    }
}

/// Appends one event to `out` as XML.
///
/// Calls `quick_xml::Writer::write_event` on a writer without indentation;
/// text goes through `BytesText::new`, which escapes it with
/// `quick_xml::escape::escape`. As the source shows, a start tag is written as
/// `<` name `>`, an end tag as `</` name `>`, and text as its escaped form,
/// all in UTF-8. The writer's only errors are those of the `Write` it wraps
/// (`write_all`), and `Write` for `Vec<u8>` appends to the vector, growing it
/// as needed: the write succeeds.
#[verifier::external_body]
pub(crate) fn write_event(out: &mut Vec<u8>, ev: &XmlEvent) -> (r: Result<(), std::io::Error>)
    requires
        is_written_event(ev@),
    ensures
        r is Ok,
        final(out)@ == old(out)@ + encode_utf8(event_chars(ev@)),
{
    let mut writer = Writer::new(out);
    match ev {
        XmlEvent::Start(n, _) => writer.write_event(Event::Start(BytesStart::new(n.as_str()))),
        XmlEvent::End(n) => writer.write_event(Event::End(BytesEnd::new(n.as_str()))),
        XmlEvent::Text(t) => writer.write_event(Event::Text(BytesText::new(t.as_str()))),
        _ => Ok(()),
    }
}

/// The quick-xml error that wraps an I/O error.
///
/// Calls `<XmlError as From<std::io::Error>>::from`.
#[verifier::external_body]
pub(crate) fn xml_error_from_io(e: std::io::Error) -> XmlError {
    XmlError::from(e)
}

} // verus!
