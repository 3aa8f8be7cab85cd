//! Reading the text of elements from a stream of XML events.

use crate::error::Error;
use crate::text::{opt_view, push_char, push_str, trim, trim_str};
use crate::xml::{
    char_ref_code, digits_value, escape_ref, events_view, is_char_ref, is_escaped, lemma_run_end,
    missing_end_tag, predefined_entity, read_event, resolve_char_ref, resolve_entity, run_end, str_eq,
    text_read_events, unread_len, unrecognized_entity, EventView, XmlEvent,
};
use crate::context::{declared_entity, ReadContext};
use quick_xml::Reader;
use vstd::prelude::*;

verus! {

/// Why reading an element failed, in the abstract.
pub enum ReadFailure {
    /// The XML was not well-formed, or a character reference named no character.
    Xml,
    /// The stream ended inside the element.
    Eof,
}

/// Whether a code point is a Unicode scalar value.
pub open spec fn is_scalar_code(v: nat) -> bool {
    v <= u32::MAX && vstd::utf8::is_scalar(v as u32)
}

/// The position just after the end tag that closes an element named `name`,
/// starting at `i` inside it with `depth` nested elements of the same name
/// still open; `None` if the stream ends first. Elements of other names are
/// not counted, as `quick_xml::Reader::read_to_end_into` does.
pub open spec fn skip_end(evs: Seq<EventView>, i: int, name: Seq<char>, depth: nat) -> Option<int>
    decreases evs.len() - i,
{
    if i < 0 || i >= evs.len() {
        None
    } else {
        match evs[i] {
            EventView::Start(n, _) => if n == name {
                skip_end(evs, i + 1, name, depth + 1)
            } else {
                skip_end(evs, i + 1, name, depth)
            },
            EventView::End(n) => if n == name {
                if depth == 0 {
                    Some(i + 1)
                } else {
                    skip_end(evs, i + 1, name, (depth - 1) as nat)
                }
            } else {
                skip_end(evs, i + 1, name, depth)
            },
            EventView::Eof => None,
            _ => skip_end(evs, i + 1, name, depth),
        }
    }
}

/// The text gathered from position `i` up to the next end tag (or the end of
/// the stream), appended to `acc`, with the position after it; `None` if a
/// nested element is not closed or a character reference names no character.
/// Text and CDATA are taken as they are; the predefined entities, character
/// references and the entities declared in `ents` are resolved, the last to
/// their replacement text as it stands; a reference to an undeclared entity
/// fails; nested elements are skipped.
pub open spec fn gather_text(
    evs: Seq<EventView>,
    i: int,
    acc: Seq<char>,
    ents: Seq<(Seq<char>, Seq<char>)>,
) -> Option<(Seq<char>, int)>
    decreases evs.len() - i,
{
    if i < 0 || i >= evs.len() {
        Some((acc, evs.len() as int))
    } else {
        match evs[i] {
            EventView::Start(n, _) => match skip_end(evs, i + 1, n, 0) {
                Some(j) => if i < j <= evs.len() {
                    gather_text(evs, j, acc, ents)
                } else {
                    None
                },
                None => None,
            },
            EventView::Text(t) => gather_text(evs, i + 1, acc + t, ents),
            EventView::CData(t) => gather_text(evs, i + 1, acc + t, ents),
            EventView::GeneralRef(g) => match predefined_entity(g) {
                Some(s) => gather_text(evs, i + 1, acc + s, ents),
                None => if is_char_ref(g) {
                    match char_ref_code(g.drop_first()) {
                        Some(v) => if is_scalar_code(v) {
                            gather_text(evs, i + 1, acc.push((v as u32) as char), ents)
                        } else {
                            None
                        },
                        None => None,
                    }
                } else {
                    match declared_entity(ents, g) {
                        Some(r) => gather_text(evs, i + 1, acc + r, ents),
                        None => None,
                    }
                },
            },
            EventView::End(_) => Some((acc, i + 1)),
            EventView::Eof => Some((acc, i + 1)),
            _ => gather_text(evs, i + 1, acc, ents),
        }
    }
}

/// The reference that escaping puts in place of a character resolves to that
/// character.
proof fn lemma_escape_ref_resolves(
    c: char,
    evs: Seq<EventView>,
    i: int,
    acc: Seq<char>,
    ents: Seq<(Seq<char>, Seq<char>)>,
)
    requires
        is_escaped(c),
        0 <= i < evs.len(),
        evs[i] == EventView::GeneralRef(escape_ref(c)),
    ensures
        gather_text(evs, i, acc, ents) == gather_text(evs, i + 1, acc.push(c), ents),
{
    let g = escape_ref(c);
    if c == '\r' {
        assert(g.drop_first() =~= seq!['1', '3']);
        assert(seq!['1', '3'].drop_last() =~= seq!['1']);
        assert(digits_value(seq!['1'], 10) == Some(1nat));
        assert(digits_value(seq!['1', '3'], 10) == Some(13nat));
        assert(char_ref_code(g.drop_first()) == Some(13nat));
        assert(vstd::utf8::is_scalar(13u32));
        assert((13u32) as char == '\r');
    } else {
        assert(predefined_entity(g) == Some(seq![c]));
        assert(acc + seq![c] =~= acc.push(c));
    }
}

/// The escaped text of `s` from index `k` on, as the reader hands it back and
/// followed by an end tag, is gathered back as that text.
pub proof fn lemma_gather_read_text(
    evs: Seq<EventView>,
    i: int,
    s: Seq<char>,
    k: int,
    acc: Seq<char>,
    ents: Seq<(Seq<char>, Seq<char>)>,
)
    requires
        0 <= i,
        0 <= k <= s.len(),
        i + text_read_events(s, k).len() < evs.len(),
        evs.subrange(i, i + text_read_events(s, k).len()) == text_read_events(s, k),
        evs[i + text_read_events(s, k).len()] is End,
    ensures
        gather_text(evs, i, acc, ents) == Some(
            (acc + s.subrange(k, s.len() as int), i + text_read_events(s, k).len() + 1),
        ),
    decreases s.len() - k,
{
    let r = text_read_events(s, k);
    if k == s.len() {
        assert(acc + s.subrange(k, s.len() as int) =~= acc);
    } else if is_escaped(s[k]) {
        let rest = text_read_events(s, k + 1);
        assert(evs[i] == evs.subrange(i, i + r.len())[0]);
        assert(evs.subrange(i + 1, i + 1 + rest.len()) =~= rest) by {
            assert forall|m: int| 0 <= m < rest.len() implies evs[i + 1 + m] == rest[m] by {
                assert(evs[i + 1 + m] == evs.subrange(i, i + r.len())[1 + m]);
            }
        }
        lemma_gather_read_text(evs, i + 1, s, k + 1, acc.push(s[k]), ents);
        lemma_escape_ref_resolves(s[k], evs, i, acc, ents);
        assert(acc.push(s[k]) + s.subrange(k + 1, s.len() as int) =~= acc + s.subrange(k, s.len() as int));
    } else {
        lemma_run_end(s, k + 1);
        let j = run_end(s, k + 1);
        let rest = text_read_events(s, j);
        assert(evs[i] == evs.subrange(i, i + r.len())[0]);
        assert(evs.subrange(i + 1, i + 1 + rest.len()) =~= rest) by {
            assert forall|m: int| 0 <= m < rest.len() implies evs[i + 1 + m] == rest[m] by {
                assert(evs[i + 1 + m] == evs.subrange(i, i + r.len())[1 + m]);
            }
        }
        lemma_gather_read_text(evs, i + 1, s, j, acc + s.subrange(k, j), ents);
        assert((acc + s.subrange(k, j)) + s.subrange(j, s.len() as int) =~= acc + s.subrange(k, s.len() as int));
    }
}

/// The trimmed text of an element whose start tag was just read, `None` if
/// it is empty after trimming, with the position after the element.
pub open spec fn element_text_spec(
    evs: Seq<EventView>,
    i: int,
    ents: Seq<(Seq<char>, Seq<char>)>,
) -> Option<(Option<Seq<char>>, int)> {
    match gather_text(evs, i, seq![], ents) {
        Some((acc, j)) => {
            let t = trim(acc);
            Some((if t.len() == 0 { None } else { Some(t) }, j))
        },
        None => None,
    }
}

/// Whether the element that was open before the stream `evs` is still open
/// after it, and how deeply nested the stream then is; `None` once the
/// element's end tag, or the end of the document, has been read.
pub open spec fn open_depth(evs: Seq<EventView>) -> Option<nat>
    decreases evs.len(),
{
    if evs.len() == 0 {
        Some(0)
    } else {
        match open_depth(evs.drop_last()) {
            None => None,
            Some(d) => match evs.last() {
                EventView::Start(_, _) => Some(d + 1),
                EventView::End(_) => if d == 0 {
                    None
                } else {
                    Some((d - 1) as nat)
                },
                EventView::Eof => None,
                _ => Some(d),
            },
        }
    }
}

/// Whether `evs` is the rest of an element up to and including the event that
/// closes it: its end tag or the end of the document.
pub open spec fn is_element_rest(evs: Seq<EventView>) -> bool {
    &&& evs.len() > 0
    &&& open_depth(evs.drop_last()) is Some
    &&& open_depth(evs) is None
}

pub proof fn lemma_skip_end_bounds(evs: Seq<EventView>, i: int, name: Seq<char>, depth: nat)
    ensures
        skip_end(evs, i, name, depth) matches Some(j) ==> i < j <= evs.len(),
    decreases evs.len() - i,
{
    if 0 <= i < evs.len() {
        lemma_skip_end_bounds(evs, i + 1, name, depth + 1);
        lemma_skip_end_bounds(evs, i + 1, name, depth);
        if depth > 0 {
            lemma_skip_end_bounds(evs, i + 1, name, (depth - 1) as nat);
        }
    }
}

/// Skips the rest of an element named `name`, up to and including its end tag.
///
/// Returns the position after the end tag; the error that
/// `Reader::read_to_end_into` gives if the stream ends first.
pub fn skip(evs: &[XmlEvent], start: usize, name: &str) -> (r: Result<usize, Error>)
    requires
        start <= evs@.len(),
    ensures
        match skip_end(events_view(evs@), start as int, name@, 0) {
            Some(j) => r matches Ok(k) && k == j,
            None => r matches Err(Error::Xml(_)),
        },
{
    let ghost ev = events_view(evs@);
    let mut i = start;
    let mut depth: usize = 0;
    while i < evs.len()
        invariant
            start <= i <= evs@.len(),
            depth <= i - start,
            ev == events_view(evs@),
            skip_end(ev, i as int, name@, depth as nat) == skip_end(ev, start as int, name@, 0),
        decreases evs@.len() - i,
    {
        match &evs[i] {
            XmlEvent::Start(n, _) => {
                if str_eq(n.as_str(), name) {
                    depth = depth + 1;
                }
            },
            XmlEvent::End(n) => {
                if str_eq(n.as_str(), name) {
                    if depth == 0 {
                        return Ok(i + 1);
                    }
                    depth = depth - 1;
                }
            },
            XmlEvent::Eof => {
                return Err(Error::Xml(missing_end_tag(name)));
            },
            _ => {},
        }
        i = i + 1;
    }
    Err(Error::Xml(missing_end_tag(name)))
}

/// Gathers the text of an element whose start tag was just read, up to its
/// end tag or the end of the stream, untrimmed, with the entities that
/// `context` declares.
pub fn gather(evs: &[XmlEvent], start: usize, context: &ReadContext) -> (r: Result<(String, usize), Error>)
    requires
        start <= evs@.len(),
    ensures
        match gather_text(events_view(evs@), start as int, seq![], context@.entities) {
            Some((acc, j)) => r matches Ok((s, k)) && s@ == acc && k == j,
            None => r matches Err(Error::Xml(_)),
        },
{
    let ghost ev = events_view(evs@);
    let mut acc = String::new();
    let mut i = start;
    while i < evs.len()
        invariant
            start <= i <= evs@.len(),
            ev == events_view(evs@),
            gather_text(ev, i as int, acc@, context@.entities) == gather_text(ev, start as int, seq![], context@.entities),
        decreases evs@.len() - i,
    {
        assert(ev[i as int] == evs@[i as int]@);
        match &evs[i] {
            XmlEvent::Start(n, _) => {
                let j = skip(evs, i + 1, n.as_str())?;
                proof {
                    lemma_skip_end_bounds(ev, i + 1, n@, 0);
                }
                i = j;
            },
            XmlEvent::Text(t) => {
                push_str(&mut acc, t.as_str());
                i = i + 1;
            },
            XmlEvent::CData(t) => {
                push_str(&mut acc, t.as_str());
                i = i + 1;
            },
            XmlEvent::GeneralRef(g) => {
                match resolve_entity(g.as_str()) {
                    Some(s) => {
                        push_str(&mut acc, s);
                    },
                    None => {
                        match resolve_char_ref(g.as_str()) {
                            Ok(Some(c)) => {
                                proof {
                                    let u = c as u32;
                                    vstd::utf8::char_is_scalar(c);
                                    vstd::utf8::char_u32_cast(c, u);
                                    assert(vstd::utf8::is_scalar(u));
                                    assert((u as nat) as u32 == u);
                                    assert(is_scalar_code(u as nat));
                                    assert((((c as u32) as nat) as u32) as char == c);
                                }
                                push_char(&mut acc, c);
                            },
                            Ok(None) => {
                                match context.entity(g.as_str()) {
                                    Some(text) => {
                                        push_str(&mut acc, text);
                                    },
                                    None => {
                                        return Err(Error::Xml(unrecognized_entity(g.as_str())));
                                    },
                                }
                            },
                            Err(e) => {
                                return Err(Error::Xml(e));
                            },
                        }
                    },
                }
                i = i + 1;
            },
            XmlEvent::End(_) => {
                return Ok((acc, i + 1));
            },
            XmlEvent::Eof => {
                return Ok((acc, i + 1));
            },
            _ => {
                i = i + 1;
            },
        }
    }
    Ok((acc, evs.len()))
}

/// The trimmed text of an element whose start tag was just read, `None` if
/// that is empty, and the position after the element.
pub fn element_text_at(evs: &[XmlEvent], start: usize, context: &ReadContext) -> (r: Result<
    (Option<String>, usize),
    Error,
>)
    requires
        start <= evs@.len(),
    ensures
        match element_text_spec(events_view(evs@), start as int, context@.entities) {
            Some((t, j)) => r matches Ok((s, k)) && opt_view(s) == t && k == j,
            None => r matches Err(Error::Xml(_)),
        },
{
    let (content, j) = gather(evs, start, context)?;
    let t = trim_str(content.as_str());
    if t.is_empty() {
        Ok((None, j))
    } else {
        Ok((Some(t.to_owned()), j))
    }
}

/// Reads the rest of the element whose start tag was just read: every event
/// up to and including its end tag, or up to the end of the document.
///
/// Fails with the reader's error, or with [`Error::NoProgress`] should the
/// reader return an event other than the end of the document without
/// consuming input.
pub fn read_element_events<'a>(reader: &mut Reader<&'a [u8]>) -> (r: Result<Vec<XmlEvent>, Error>)
    ensures
        r matches Ok(evs) ==> is_element_rest(events_view(evs@)),
        r matches Err(e) ==> (e is Xml || e is NoProgress),
{
    let mut evs: Vec<XmlEvent> = Vec::new();
    let mut depth: usize = 0;
    let mut left = unread_len(reader);
    loop
        invariant
            open_depth(events_view(evs@)) == Some(depth as nat),
            depth + left <= usize::MAX,
        decreases left,
    {
        let ev = match read_event(reader) {
            Ok(e) => e,
            Err(e) => {
                return Err(Error::Xml(e));
            },
        };
        let now = unread_len(reader);
        let ghost prev = evs@;
        let ghost pv = events_view(prev);
        let closes = match &ev {
            XmlEvent::End(_) => depth == 0,
            XmlEvent::Eof => true,
            _ => false,
        };
        if closes {
            evs.push(ev);
            assert(events_view(evs@).drop_last() =~= pv);
            return Ok(evs);
        }
        if now >= left {
            return Err(Error::NoProgress);
        }
        match &ev {
            XmlEvent::Start(_, _) => {
                depth = depth + 1;
            },
            XmlEvent::End(_) => {
                depth = depth - 1;
            },
            _ => {},
        }
        evs.push(ev);
        assert(events_view(evs@).drop_last() =~= pv);
        left = now;
    }
}

/// Reads the text of an element whose start tag was just read: the text,
/// CDATA and references up to its end tag, nested elements skipped, trimmed;
/// `None` if that is empty. References resolve to the predefined entities,
/// to characters, or to the entities that `context` declares; a reference to
/// any other entity fails.
pub fn element_text<'a>(reader: &mut Reader<&'a [u8]>, context: &ReadContext) -> (r: Result<Option<String>, Error>)
    ensures
        r matches Ok(t) ==> exists|evs: Seq<EventView>|
            is_element_rest(evs) && (element_text_spec(evs, 0, context@.entities) matches Some((s, _)) && s == opt_view(
                t,
            )),
        r matches Err(e) ==> (e is Xml || e is NoProgress),
{
    let evs = read_element_events(reader)?;
    let (t, _) = element_text_at(evs.as_slice(), 0, context)?;
    assert(is_element_rest(events_view(evs@)) && (element_text_spec(events_view(evs@), 0, context@.entities) matches Some(
        (s, _),
    ) && s == opt_view(t)));
    Ok(t)
}

} // verus!
