//! Elements made of optional text fields, such as `<image>` and
//! `<textInput>`: reading them from XML events and writing them as XML.

use crate::context::{
    declared_entity, lemma_match_name_plain, match_name, pairs_text, start_prefixes, ContextView, ReadContext,
};
use crate::error::Error;
use crate::text::{chars_of, opt_view};
use crate::util::{
    element_text_at, element_text_spec, lemma_gather_read_text, lemma_skip_end_bounds, skip, skip_end, ReadFailure,
};
use crate::xml::{
    events_bytes, events_view, str_eq, text_read_events, write_event, xml_error_from_io, EventView, XmlEvent,
};
use quick_xml::Error as XmlError;
use vstd::prelude::*;
use vstd::utf8::encode_utf8;

verus! {

/// The character sequences of a list of names.
pub open spec fn strs_view(s: Seq<&str>) -> Seq<Seq<char>> {
    s.map_values(|x: &str| x@)
}

/// The abstract values of a list of optional strings.
pub open spec fn opts_view(v: Seq<Option<String>>) -> Seq<Option<Seq<char>>> {
    v.map_values(|o: Option<String>| opt_view(o))
}

/// `n` fields, none of them set.
pub open spec fn no_fields(n: nat) -> Seq<Option<Seq<char>>> {
    Seq::new(n, |i: int| None)
}

/// The index of the first of `names`, from `k` on, that equals `n`; -1 if none does.
pub open spec fn field_index(names: Seq<Seq<char>>, n: Seq<char>, k: int) -> int
    decreases names.len() - k,
{
    if k < 0 || k >= names.len() {
        -1
    } else if names[k] == n {
        k
    } else {
        field_index(names, n, k + 1)
    }
}

/// The value that a field takes from the text of its element: a field that
/// keeps empty text holds `""` when the element has no text, another holds
/// nothing then.
pub open spec fn field_value(keep_empty: bool, t: Option<Seq<char>>) -> Option<Seq<char>> {
    if keep_empty {
        match t {
            Some(s) => Some(s),
            None => Some(seq![]),
        }
    } else {
        t
    }
}

/// Reads the children of an element from position `i` on into the fields
/// `vals`, up to the end tag that closes the element. A child whose name is
/// matched (see [`match_name`]) as the `k`-th of `names` sets field `k` from
/// its trimmed text, with the entities that `cx` declares (the last such
/// child wins); other children are skipped. Returns the fields and the
/// position after the end tag.
pub open spec fn record_fields(
    evs: Seq<EventView>,
    i: int,
    names: Seq<Seq<char>>,
    keep_empty: Seq<bool>,
    vals: Seq<Option<Seq<char>>>,
    cx: ContextView,
) -> Result<(Seq<Option<Seq<char>>>, int), ReadFailure>
    decreases evs.len() - i,
{
    if i < 0 || i >= evs.len() {
        Err(ReadFailure::Eof)
    } else {
        match evs[i] {
            EventView::Start(n, attrs) => {
                let k = field_index(names, match_name(n, start_prefixes(cx.rss_prefixes, attrs)), 0);
                if 0 <= k < keep_empty.len() {
                    match element_text_spec(evs, i + 1, cx.entities) {
                        Some((t, j)) => if i < j <= evs.len() {
                            record_fields(evs, j, names, keep_empty, vals.update(k, field_value(keep_empty[k], t)), cx)
                        } else {
                            Err(ReadFailure::Xml)
                        },
                        None => Err(ReadFailure::Xml),
                    }
                } else {
                    match skip_end(evs, i + 1, n, 0) {
                        Some(j) => if i < j <= evs.len() {
                            record_fields(evs, j, names, keep_empty, vals, cx)
                        } else {
                            Err(ReadFailure::Xml)
                        },
                        None => Err(ReadFailure::Xml),
                    }
                }
            },
            EventView::End(_) => Ok((vals, i + 1)),
            EventView::Eof => Err(ReadFailure::Eof),
            _ => record_fields(evs, i + 1, names, keep_empty, vals, cx),
        }
    }
}

/// Only the end tag of the element ends the reading of its children: when
/// reading from position `i` succeeds, it stops just after an end tag, and
/// after `i`.
pub proof fn reading_children_ends_at_an_end_tag(
    evs: Seq<EventView>,
    i: int,
    names: Seq<Seq<char>>,
    keep_empty: Seq<bool>,
    vals: Seq<Option<Seq<char>>>,
    cx: ContextView,
)
    requires
        0 <= i,
    ensures
        record_fields(evs, i, names, keep_empty, vals, cx) matches Ok((_, j)) ==> i < j <= evs.len() && evs[j - 1] is End,
    decreases evs.len() - i,
{
    if i < evs.len() {
        match evs[i] {
            EventView::Start(n, attrs) => {
                let k = field_index(names, match_name(n, start_prefixes(cx.rss_prefixes, attrs)), 0);
                if 0 <= k < keep_empty.len() {
                    match element_text_spec(evs, i + 1, cx.entities) {
                        Some((t, j)) => if i < j <= evs.len() {
                            reading_children_ends_at_an_end_tag(
                                evs,
                                j,
                                names,
                                keep_empty,
                                vals.update(k, field_value(keep_empty[k], t)),
                                cx,
                            );
                        },
                        None => {},
                    }
                } else {
                    match skip_end(evs, i + 1, n, 0) {
                        Some(j) => if i < j <= evs.len() {
                            reading_children_ends_at_an_end_tag(evs, j, names, keep_empty, vals, cx);
                        },
                        None => {},
                    }
                }
            },
            EventView::End(_) => {},
            EventView::Eof => {},
            _ => {
                reading_children_ends_at_an_end_tag(evs, i + 1, names, keep_empty, vals, cx);
            },
        }
    }
}

/// Text, CDATA, references, empty elements and other markup between the
/// children of an element are passed over: reading from such an event reads
/// as from the next one.
pub proof fn markup_between_children_is_passed_over(
    evs: Seq<EventView>,
    i: int,
    names: Seq<Seq<char>>,
    keep_empty: Seq<bool>,
    vals: Seq<Option<Seq<char>>>,
    cx: ContextView,
)
    requires
        0 <= i < evs.len(),
        !(evs[i] is Start || evs[i] is End || evs[i] is Eof),
    ensures
        record_fields(evs, i, names, keep_empty, vals, cx) == record_fields(evs, i + 1, names, keep_empty, vals, cx),
{
}

/// The fields read from the rest of an element, all unset at first.
pub open spec fn read_fields_spec(
    evs: Seq<EventView>,
    names: Seq<Seq<char>>,
    keep_empty: Seq<bool>,
    cx: ContextView,
) -> Result<Seq<Option<Seq<char>>>, ReadFailure> {
    match record_fields(evs, 0, names, keep_empty, no_fields(names.len()), cx) {
        Ok((vals, _)) => Ok(vals),
        Err(e) => Err(e),
    }
}

/// Whether a result of this library matches its abstract description.
pub open spec fn result_matches<T, V>(r: Result<T, Error>, s: Result<V, ReadFailure>, view: spec_fn(T) -> V) -> bool {
    match s {
        Ok(v) => r matches Ok(x) && view(x) == v,
        Err(ReadFailure::Eof) => r matches Err(Error::Eof),
        Err(ReadFailure::Xml) => r matches Err(Error::Xml(_)),
    }
}

/// The index of the field named `n`, if any.
pub fn find_field(names: &[&str], n: &str) -> (r: Option<usize>)
    ensures
        match r {
            Some(k) => k < names@.len() && field_index(strs_view(names@), n@, 0) == k,
            None => field_index(strs_view(names@), n@, 0) == -1,
        },
{
    let ghost nv = strs_view(names@);
    let mut k: usize = 0;
    while k < names.len()
        invariant
            k <= names@.len(),
            nv == strs_view(names@),
            field_index(nv, n@, k as int) == field_index(nv, n@, 0),
        decreases names@.len() - k,
    {
        if str_eq(names[k], n) {
            return Some(k);
        }
        k = k + 1;
    }
    None
}

proof fn lemma_gather_bounds(evs: Seq<EventView>, i: int, acc: Seq<char>, ents: Seq<(Seq<char>, Seq<char>)>)
    requires
        0 <= i,
    ensures
        crate::util::gather_text(evs, i, acc, ents) matches Some((_, j)) ==> (if i < evs.len() {
            i < j <= evs.len()
        } else {
            j == evs.len()
        }),
    decreases evs.len() - i,
{
    if i < evs.len() {
        match evs[i] {
            EventView::Start(n, _) => {
                lemma_skip_end_bounds(evs, i + 1, n, 0);
                match skip_end(evs, i + 1, n, 0) {
                    Some(j) => if i < j <= evs.len() {
                        lemma_gather_bounds(evs, j, acc, ents);
                    },
                    None => {},
                }
            },
            EventView::Text(t) => lemma_gather_bounds(evs, i + 1, acc + t, ents),
            EventView::CData(t) => lemma_gather_bounds(evs, i + 1, acc + t, ents),
            EventView::GeneralRef(g) => {
                match crate::xml::predefined_entity(g) {
                    Some(s) => lemma_gather_bounds(evs, i + 1, acc + s, ents),
                    None => {
                        match crate::xml::char_ref_code(g.drop_first()) {
                            Some(v) => lemma_gather_bounds(evs, i + 1, acc.push((v as u32) as char), ents),
                            None => {},
                        }
                        match declared_entity(ents, g) {
                            Some(r) => lemma_gather_bounds(evs, i + 1, acc + r, ents),
                            None => {},
                        }
                    },
                }
            },
            EventView::End(_) => {},
            EventView::Eof => {},
            _ => lemma_gather_bounds(evs, i + 1, acc, ents),
        }
    }
}

/// Reads the children of an element, whose start tag was read already, into
/// one optional text per name of `names`, in `context`; see [`record_fields`].
pub fn read_fields(evs: &[XmlEvent], names: &[&str], keep_empty: &[bool], context: &ReadContext) -> (r: Result<
    Vec<Option<String>>,
    Error,
>)
    requires
        names@.len() == keep_empty@.len(),
    ensures
        result_matches(
            r,
            read_fields_spec(events_view(evs@), strs_view(names@), keep_empty@, context@),
            |v: Vec<Option<String>>| opts_view(v@),
        ),
        r matches Ok(v) ==> v@.len() == names@.len(),
{
    let ghost ev = events_view(evs@);
    let ghost nv = strs_view(names@);
    let mut vals: Vec<Option<String>> = Vec::new();
    let mut k: usize = 0;
    while k < names.len()
        invariant
            k <= names@.len(),
            vals@.len() == k,
            forall|m: int| 0 <= m < k ==> vals@[m] is None,
        decreases names@.len() - k,
    {
        vals.push(None);
        k = k + 1;
    }
    assert(opts_view(vals@) =~= no_fields(names@.len()));
    let mut i: usize = 0;
    while i < evs.len()
        invariant
            i <= evs@.len(),
            ev == events_view(evs@),
            nv == strs_view(names@),
            names@.len() == keep_empty@.len(),
            vals@.len() == names@.len(),
            record_fields(ev, i as int, nv, keep_empty@, opts_view(vals@), context@) == record_fields(
                ev,
                0,
                nv,
                keep_empty@,
                no_fields(names@.len()),
                context@,
            ),
        decreases evs@.len() - i,
    {
        assert(ev[i as int] == evs@[i as int]@);
        match &evs[i] {
            XmlEvent::Start(n, attrs) => {
                let matched = match attrs {
                    Some(a) => context.in_element(a).matched_name(n.as_str()),
                    None => context.matched_name(n.as_str()),
                };
                match find_field(names, matched.as_str()) {
                    Some(k) => {
                        proof {
                            lemma_gather_bounds(ev, i + 1, seq![], context@.entities);
                        }
                        let (t, j) = element_text_at(evs, i + 1, context)?;
                        let value = if keep_empty[k] {
                            match t {
                                Some(s) => Some(s),
                                None => Some(String::new()),
                            }
                        } else {
                            t
                        };
                        let ghost before = opts_view(vals@);
                        vals.set(k, value);
                        assert(opts_view(vals@) =~= before.update(k as int, field_value(keep_empty@[k as int], opt_view(t))));
                        i = j;
                    },
                    None => {
                        proof {
                            lemma_skip_end_bounds(ev, i + 1, n@, 0);
                        }
                        i = skip(evs, i + 1, n.as_str())?;
                    },
                }
            },
            XmlEvent::End(_) => {
                return Ok(vals);
            },
            XmlEvent::Eof => {
                return Err(Error::Eof);
            },
            _ => {
                i = i + 1;
            },
        }
    }
    Err(Error::Eof)
}

/// A start tag without attributes.
fn start_tag(name: &str) -> (r: XmlEvent)
    ensures
        r@ == EventView::Start(name@, Some(seq![])),
{
    let attrs: Vec<(String, String)> = Vec::new();
    assert(pairs_text(attrs@) =~= seq![]);
    XmlEvent::Start(name.to_owned(), Some(attrs))
}

/// The events of a list of fields: a start tag, the text and an end tag for
/// each field that is set, in the order of `names`.
pub open spec fn fields_events(names: Seq<Seq<char>>, vals: Seq<Option<Seq<char>>>) -> Seq<EventView>
    decreases vals.len(),
{
    if vals.len() == 0 {
        seq![]
    } else {
        let k = vals.len() - 1;
        fields_events(names, vals.drop_last()) + match vals[k] {
            Some(v) => seq![EventView::Start(names[k], Some(seq![])), EventView::Text(v), EventView::End(names[k])],
            None => seq![],
        }
    }
}

/// The events of an element `tag` made of the given fields.
pub open spec fn record_events(tag: Seq<char>, names: Seq<Seq<char>>, vals: Seq<Option<Seq<char>>>) -> Seq<EventView> {
    seq![EventView::Start(tag, Some(seq![]))] + fields_events(names, vals) + seq![EventView::End(tag)]
}

/// The events in which quick-xml's reader hands back, after the start tag,
/// what [`write_fields`] writes for the fields: each set field as its start
/// tag, the events of its escaped text ([`text_read_events`]), and its end tag.
pub open spec fn fields_read_events(names: Seq<Seq<char>>, vals: Seq<Option<Seq<char>>>) -> Seq<EventView>
    decreases vals.len(),
{
    if vals.len() == 0 {
        seq![]
    } else {
        let k = vals.len() - 1;
        fields_read_events(names, vals.drop_last()) + match vals[k] {
            Some(v) => seq![EventView::Start(names[k], Some(seq![]))] + text_read_events(v, 0) + seq![EventView::End(names[k])],
            None => seq![],
        }
    }
}

/// The events in which quick-xml's reader hands back the element `tag` that
/// [`write_fields`] writes.
pub open spec fn record_read_events(tag: Seq<char>, names: Seq<Seq<char>>, vals: Seq<Option<Seq<char>>>) -> Seq<EventView> {
    seq![EventView::Start(tag, Some(seq![]))] + fields_read_events(names, vals) + seq![EventView::End(tag)]
}

proof fn lemma_events_bytes_push(evs: Seq<EventView>, e: EventView)
    ensures
        events_bytes(evs.push(e)) == events_bytes(evs) + encode_utf8(crate::xml::event_chars(e)),
{
    assert(evs.push(e).drop_last() =~= evs);
}

/// Writes one event to `out`, with the contract of the write and the
/// sequence of events written so far.
fn write_one(
    out: &mut Vec<u8>,
    ev: XmlEvent,
    Ghost(prefix): Ghost<Seq<u8>>,
    Ghost(done): Ghost<Seq<EventView>>,
) -> (r: Result<(), Error>)
    requires
        crate::xml::is_written_event(ev@),
        old(out)@ == prefix + events_bytes(done),
    ensures
        r is Ok,
        final(out)@ == prefix + events_bytes(done.push(ev@)),
{
    match write_event(out, &ev) {
        Ok(()) => {
            proof {
                lemma_events_bytes_push(done, ev@);
                assert(final(out)@ =~= prefix + events_bytes(done.push(ev@)));
            }
            Ok(())
        },
        Err(e) => Err(Error::Xml(xml_error_from_io(e))),
    }
}

/// Whether XML 1.0 allows the character in a document: tab, line feed,
/// carriage return, and the code points from U+20 up, but for the surrogates
/// and U+FFFE, U+FFFF.
pub open spec fn is_xml_char(c: char) -> bool {
    ||| c == '\t'
    ||| c == '\n'
    ||| c == '\r'
    ||| ('\u{20}' <= c <= '\u{D7FF}')
    ||| ('\u{E000}' <= c <= '\u{FFFD}')
    ||| ('\u{10000}' <= c <= '\u{10FFFF}')
}

/// The first character of `s` from index `i` on that XML 1.0 does not allow.
pub open spec fn first_illegal_from(s: Seq<char>, i: int) -> Option<char>
    decreases s.len() - i,
{
    if i < 0 || i >= s.len() {
        None
    } else if !is_xml_char(s[i]) {
        Some(s[i])
    } else {
        first_illegal_from(s, i + 1)
    }
}

/// The first character, over the fields from index `k` on in order, that XML
/// 1.0 does not allow.
pub open spec fn first_illegal_field(vals: Seq<Option<Seq<char>>>, k: int) -> Option<char>
    decreases vals.len() - k,
{
    if k < 0 || k >= vals.len() {
        None
    } else {
        match vals[k] {
            Some(s) => match first_illegal_from(s, 0) {
                Some(c) => Some(c),
                None => first_illegal_field(vals, k + 1),
            },
            None => first_illegal_field(vals, k + 1),
        }
    }
}

proof fn lemma_first_illegal_from(s: Seq<char>, i: int)
    requires
        0 <= i <= s.len(),
    ensures
        first_illegal_from(s, i) is None <==> forall|j: int| i <= j < s.len() ==> is_xml_char(#[trigger] s[j]),
        first_illegal_from(s, i) matches Some(c) ==> !is_xml_char(c) && exists|j: int| i <= j < s.len() && s[j] == c,
    decreases s.len() - i,
{
    if i < s.len() {
        lemma_first_illegal_from(s, i + 1);
        if is_xml_char(s[i]) {
            assert forall|j: int| i <= j < s.len() && (forall|q: int| i + 1 <= q < s.len() ==> is_xml_char(#[trigger] s[q]))
                implies is_xml_char(s[j]) by {
                if j > i {
                    assert(is_xml_char(s[j]));
                }
            }
        }
    }
}

proof fn lemma_first_illegal_field(vals: Seq<Option<Seq<char>>>, k: int)
    requires
        0 <= k <= vals.len(),
    ensures
        first_illegal_field(vals, k) is None <==> forall|m: int, j: int|
            k <= m < vals.len() && vals[m] is Some && 0 <= j < vals[m]->0.len() ==> is_xml_char(
                #[trigger] vals[m]->0[j],
            ),
        first_illegal_field(vals, k) matches Some(c) ==> !is_xml_char(c),
    decreases vals.len() - k,
{
    if k < vals.len() {
        lemma_first_illegal_field(vals, k + 1);
        match vals[k] {
            Some(s) => {
                lemma_first_illegal_from(s, 0);
                if first_illegal_from(s, 0) is Some {
                    let c = first_illegal_from(s, 0)->0;
                    let j = choose|j: int| 0 <= j < s.len() && s[j] == c;
                    assert(vals[k]->0[j] == c);
                }
            },
            None => {},
        }
    }
}

/// The characters that XML 1.0 allows are exactly those of its `Char`
/// production: `#x9 | #xA | #xD | [#x20-#xD7FF] | [#xE000-#xFFFD] |
/// [#x10000-#x10FFFF]`. Fields are refused exactly when one of their
/// characters is outside it, and the character reported is outside it.
pub proof fn illegal_characters_are_those_outside_xml_char(vals: Seq<Option<Seq<char>>>)
    ensures
        first_illegal_field(vals, 0) is None <==> forall|m: int, j: int|
            0 <= m < vals.len() && vals[m] is Some && 0 <= j < vals[m]->0.len() ==> {
                let u = (#[trigger] vals[m]->0[j]) as int;
                u == 0x9 || u == 0xA || u == 0xD || (0x20 <= u <= 0xD7FF) || (0xE000 <= u <= 0xFFFD) || (0x10000
                    <= u <= 0x10FFFF)
            },
        first_illegal_field(vals, 0) matches Some(c) ==> {
            let u = c as int;
            !(u == 0x9 || u == 0xA || u == 0xD || (0x20 <= u <= 0xD7FF) || (0xE000 <= u <= 0xFFFD) || (0x10000 <= u
                <= 0x10FFFF))
        },
{
    lemma_first_illegal_field(vals, 0);
    assert forall|c: char| #[trigger] is_xml_char(c) <==> {
        let u = c as int;
        u == 0x9 || u == 0xA || u == 0xD || (0x20 <= u <= 0xD7FF) || (0xE000 <= u <= 0xFFFD) || (0x10000 <= u
            <= 0x10FFFF)
    } by {
        assert(('\t' as int) == 0x9);
        assert(('\n' as int) == 0xA);
        assert(('\r' as int) == 0xD);
    }
}

/// Whether XML 1.0 allows the character.
fn xml_char(c: char) -> (r: bool)
    ensures
        r == is_xml_char(c),
{
    c == '\t' || c == '\n' || c == '\r' || ('\u{20}' <= c && c <= '\u{D7FF}') || ('\u{E000}' <= c && c
        <= '\u{FFFD}') || ('\u{10000}' <= c && c <= '\u{10FFFF}')
}

/// The first character of the fields, in order, that XML 1.0 does not allow.
fn first_illegal_char(vals: &[Option<String>]) -> (r: Option<char>)
    ensures
        r == first_illegal_field(opts_view(vals@), 0),
{
    let ghost vv = opts_view(vals@);
    let mut k: usize = 0;
    while k < vals.len()
        invariant
            k <= vals@.len(),
            vv == opts_view(vals@),
            first_illegal_field(vv, k as int) == first_illegal_field(vv, 0),
        decreases vals@.len() - k,
    {
        assert(vv[k as int] == opt_view(vals@[k as int]));
        match &vals[k] {
            Some(s) => {
                let cs = chars_of(s.as_str());
                let mut i: usize = 0;
                while i < cs.len()
                    invariant
                        i <= cs@.len(),
                        cs@ == s@,
                        first_illegal_from(cs@, i as int) == first_illegal_from(cs@, 0),
                        k < vv.len(),
                        vv == opts_view(vals@),
                        vv[k as int] == Some(s@),
                        first_illegal_field(vv, k as int) == first_illegal_field(vv, 0),
                    decreases cs@.len() - i,
                {
                    if !xml_char(cs[i]) {
                        return Some(cs[i]);
                    }
                    i = i + 1;
                }
            },
            None => {},
        }
        k = k + 1;
    }
    None
}

/// Writes an element `tag` made of the given fields to `out`: a start tag,
/// then for each field that is set, in order, its name as a start tag, its
/// escaped text and its end tag, and last the end tag of `tag`. Fails, and
/// writes nothing, if a field holds a character that XML 1.0 does not allow;
/// else writing into a vector does not fail.
pub fn write_fields(out: &mut Vec<u8>, tag: &str, names: &[&str], vals: &[Option<String>]) -> (r: Result<(), Error>)
    requires
        names@.len() == vals@.len(),
    ensures
        match first_illegal_field(opts_view(vals@), 0) {
            Some(c) => r matches Err(Error::InvalidCharacter(d)) && d == c && final(out)@ == old(out)@,
            None => r is Ok && final(out)@ == old(out)@ + events_bytes(
                record_events(tag@, strs_view(names@), opts_view(vals@)),
            ),
        },
{
    match first_illegal_char(vals) {
        Some(c) => {
            return Err(Error::InvalidCharacter(c));
        },
        None => {},
    }
    let ghost start = out@;
    let ghost nv = strs_view(names@);
    let ghost vv = opts_view(vals@);
    let ghost empty: Seq<EventView> = seq![];
    assert(out@ =~= start + events_bytes(empty));
    write_one(out, start_tag(tag), Ghost(start), Ghost(empty))?;
    let ghost mut done: Seq<EventView> = seq![EventView::Start(tag@, Some(seq![]))];
    assert(seq![EventView::Start(tag@, Some(seq![]))] =~= empty.push(EventView::Start(tag@, Some(seq![]))));
    let mut k: usize = 0;
    while k < vals.len()
        invariant
            k <= vals@.len(),
            names@.len() == vals@.len(),
            nv == strs_view(names@),
            vv == opts_view(vals@),
            out@ == start + events_bytes(done),
            done == seq![EventView::Start(tag@, Some(seq![]))] + fields_events(nv, vv.subrange(0, k as int)),
        decreases vals@.len() - k,
    {
        assert(vv.subrange(0, k + 1).drop_last() =~= vv.subrange(0, k as int));
        match &vals[k] {
            Some(v) => {
                let name = names[k];
                write_one(out, start_tag(name), Ghost(start), Ghost(done))?;
                proof { done = done.push(EventView::Start(name@, Some(seq![]))); }
                write_one(out, XmlEvent::Text(v.clone()), Ghost(start), Ghost(done))?;
                proof { done = done.push(EventView::Text(v@)); }
                write_one(out, XmlEvent::End(name.to_owned()), Ghost(start), Ghost(done))?;
                proof { done = done.push(EventView::End(name@)); }
                assert(done =~= seq![EventView::Start(tag@, Some(seq![]))] + fields_events(nv, vv.subrange(0, k + 1)));
            },
            None => {
                assert(done =~= seq![EventView::Start(tag@, Some(seq![]))] + fields_events(nv, vv.subrange(0, k + 1)));
            },
        }
        k = k + 1;
    }
    write_one(out, XmlEvent::End(tag.to_owned()), Ghost(start), Ghost(done))?;
    assert(vv.subrange(0, vals@.len() as int) =~= vv);
    assert(done.push(EventView::End(tag@)) =~= record_events(tag@, nv, vv));
    Ok(())
}

/// The value of a field after its text has been written and read back: the
/// text is trimmed, and an empty text counts as no text.
pub open spec fn normalize_field(keep_empty: bool, v: Option<Seq<char>>) -> Option<Seq<char>> {
    match v {
        None => None,
        Some(s) => field_value(keep_empty, if crate::text::trim(s).len() == 0 {
            None
        } else {
            Some(crate::text::trim(s))
        }),
    }
}

/// The fields after being written and read back, one by one.
pub open spec fn normalize_fields(keep_empty: Seq<bool>, vals: Seq<Option<Seq<char>>>) -> Seq<Option<Seq<char>>> {
    Seq::new(vals.len(), |k: int| normalize_field(keep_empty[k], vals[k]))
}

/// Whether no name holds a colon, so that each is matched as it is written.
pub open spec fn plain_names(names: Seq<Seq<char>>) -> bool {
    forall|k: int| 0 <= k < names.len() ==> crate::metadata::find_char_from(#[trigger] names[k], ':', 0) is None
}

/// Whether no two names are equal.
pub open spec fn distinct_names(names: Seq<Seq<char>>) -> bool {
    forall|a: int, b: int| 0 <= a < names.len() && 0 <= b < names.len() && a != b ==> names[a] != names[b]
}

proof fn lemma_field_index_distinct(names: Seq<Seq<char>>, k: int, j: int)
    requires
        distinct_names(names),
        0 <= j <= k < names.len(),
    ensures
        field_index(names, names[k], j) == k,
    decreases k - j,
{
    if j < k {
        lemma_field_index_distinct(names, k, j + 1);
    }
}

proof fn lemma_fields_events_prefix(names: Seq<Seq<char>>, vals: Seq<Option<Seq<char>>>, k: int)
    requires
        0 <= k <= vals.len(),
    ensures
        fields_read_events(names, vals.take(k)).len() <= fields_read_events(names, vals).len(),
        fields_read_events(names, vals).take(fields_read_events(names, vals.take(k)).len() as int)
            == fields_read_events(names, vals.take(k)),
    decreases vals.len() - k,
{
    if k == vals.len() {
        assert(vals.take(k) =~= vals);
        assert(fields_read_events(names, vals).take(fields_read_events(names, vals).len() as int) =~= fields_read_events(names, vals));
    } else {
        let d = vals.drop_last();
        assert(d.take(k) =~= vals.take(k));
        lemma_fields_events_prefix(names, d, k);
        let a = fields_read_events(names, d);
        let b = fields_read_events(names, vals.take(k));
        assert(fields_read_events(names, vals).take(b.len() as int) =~= a.take(b.len() as int));
    }
}

/// The step of the round trip: the events of field `k` set its value.
proof fn lemma_roundtrip_step(
    tag: Seq<char>,
    names: Seq<Seq<char>>,
    keep_empty: Seq<bool>,
    vals: Seq<Option<Seq<char>>>,
    k: int,
    acc: Seq<Option<Seq<char>>>,
    cx: ContextView,
)
    requires
        distinct_names(names),
        plain_names(names),
        names.len() == keep_empty.len(),
        names.len() == vals.len(),
        0 <= k < vals.len(),
        acc.len() == vals.len(),
    ensures
        ({
            let evs = fields_read_events(names, vals) + seq![EventView::End(tag)];
            let p = fields_read_events(names, vals.take(k)).len() as int;
            let q = fields_read_events(names, vals.take(k + 1)).len() as int;
            record_fields(evs, p, names, keep_empty, acc, cx) == record_fields(
                evs,
                q,
                names,
                keep_empty,
                acc.update(k, normalize_field(keep_empty[k], vals[k])),
                cx,
            ) || (vals[k] is None && record_fields(evs, p, names, keep_empty, acc, cx) == record_fields(
                evs,
                q,
                names,
                keep_empty,
                acc,
                cx,
            ))
        }),
{
    let evs = fields_read_events(names, vals) + seq![EventView::End(tag)];
    let pre = fields_read_events(names, vals.take(k));
    let pre1 = fields_read_events(names, vals.take(k + 1));
    assert(vals.take(k + 1).drop_last() =~= vals.take(k));
    lemma_fields_events_prefix(names, vals, k + 1);
    match vals[k] {
        None => {
            assert(pre1 =~= pre);
        },
        Some(s) => {
            let p = pre.len() as int;
            let tx = text_read_events(s, 0);
            let block = seq![EventView::Start(names[k], Some(seq![]))] + tx + seq![EventView::End(names[k])];
            assert(pre1 =~= pre + block);
            let fe = fields_read_events(names, vals);
            assert forall|m: int| 0 <= m < pre1.len() implies evs[m] == pre1[m] by {
                assert(fe.take(pre1.len() as int)[m] == fe[m]);
            }
            assert(evs[p] == EventView::Start(names[k], Some(seq![])));
            assert(evs.subrange(p + 1, p + 1 + tx.len()) =~= tx) by {
                assert forall|m: int| 0 <= m < tx.len() implies evs[p + 1 + m] == tx[m] by {
                    assert(evs[p + 1 + m] == pre1[p + 1 + m]);
                    assert(pre1[p + 1 + m] == block[1 + m]);
                }
            }
            assert(evs[p + 1 + tx.len()] == pre1[p + 1 + tx.len()]);
            assert(evs[p + 1 + tx.len()] == EventView::End(names[k]));
            lemma_gather_read_text(evs, p + 1, s, 0, seq![], cx.entities);
            lemma_match_name_plain(names[k], cx.rss_prefixes);
            assert(seq![] + s.subrange(0, s.len() as int) =~= s);
            lemma_field_index_distinct(names, k, 0);
        },
    }
}

/// Reading back what [`write_fields`] writes, from the events in which
/// quick-xml's reader hands it back after the start tag, gives each field its
/// written text, trimmed, an empty text counting as none for a field that
/// does not keep empty texts; fields that were not set stay unset. This holds
/// whatever entities and namespace bindings are in force. The names must
/// differ and hold no colon.
pub proof fn lemma_fields_roundtrip(
    tag: Seq<char>,
    names: Seq<Seq<char>>,
    keep_empty: Seq<bool>,
    vals: Seq<Option<Seq<char>>>,
    cx: ContextView,
)
    requires
        distinct_names(names),
        plain_names(names),
        names.len() == keep_empty.len(),
        names.len() == vals.len(),
    ensures
        read_fields_spec(record_read_events(tag, names, vals).drop_first(), names, keep_empty, cx)
            == Ok::<Seq<Option<Seq<char>>>, ReadFailure>(normalize_fields(keep_empty, vals)),
{
    let evs = fields_read_events(names, vals) + seq![EventView::End(tag)];
    assert(record_read_events(tag, names, vals).drop_first() =~= evs);
    let n = vals.len() as int;
    let last = fields_read_events(names, vals).len() as int;
    assert(vals.take(n) =~= vals);
    assert(evs[last] == EventView::End(tag));
    lemma_roundtrip_from(tag, names, keep_empty, vals, 0, cx);
    assert(Seq::new(vals.len(), |m: int| if m < 0 { normalize_field(keep_empty[m], vals[m]) } else { None }) =~= no_fields(names.len()));
    assert(vals.take(0) =~= Seq::<Option<Seq<char>>>::empty());
}

/// The fields after the first `k` have been read back.
pub open spec fn partly_read(keep_empty: Seq<bool>, vals: Seq<Option<Seq<char>>>, k: int) -> Seq<Option<Seq<char>>> {
    Seq::new(vals.len(), |m: int| if m < k { normalize_field(keep_empty[m], vals[m]) } else { None })
}

proof fn lemma_roundtrip_from(
    tag: Seq<char>,
    names: Seq<Seq<char>>,
    keep_empty: Seq<bool>,
    vals: Seq<Option<Seq<char>>>,
    k: int,
    cx: ContextView,
)
    requires
        distinct_names(names),
        plain_names(names),
        names.len() == keep_empty.len(),
        names.len() == vals.len(),
        0 <= k <= vals.len(),
    ensures
        record_fields(
            fields_read_events(names, vals) + seq![EventView::End(tag)],
            fields_read_events(names, vals.take(k)).len() as int,
            names,
            keep_empty,
            partly_read(keep_empty, vals, k),
            cx,
        ) == Ok::<(Seq<Option<Seq<char>>>, int), ReadFailure>(
            (normalize_fields(keep_empty, vals), fields_read_events(names, vals).len() as int + 1),
        ),
    decreases vals.len() - k,
{
    let evs = fields_read_events(names, vals) + seq![EventView::End(tag)];
    if k == vals.len() {
        assert(vals.take(k) =~= vals);
        let last = fields_read_events(names, vals).len() as int;
        assert(evs[last] == EventView::End(tag));
        assert(partly_read(keep_empty, vals, k) =~= normalize_fields(keep_empty, vals));
    } else {
        lemma_roundtrip_from(tag, names, keep_empty, vals, k + 1, cx);
        let acc = partly_read(keep_empty, vals, k);
        lemma_roundtrip_step(tag, names, keep_empty, vals, k, acc, cx);
        assert(acc.update(k, normalize_field(keep_empty[k], vals[k])) =~= partly_read(keep_empty, vals, k + 1));
        if vals[k] is None {
            assert(acc =~= partly_read(keep_empty, vals, k + 1));
        }
    }
}

/// Whether a field is left as it is by writing and reading back: its text is
/// trimmed, and not empty unless the field keeps empty texts.
pub open spec fn canonical_field(keep_empty: bool, v: Option<Seq<char>>) -> bool {
    match v {
        None => true,
        Some(s) => crate::text::trim(s) == s && (keep_empty || s.len() > 0),
    }
}

/// A canonical field is read back as it was written.
pub proof fn lemma_canonical_field(keep_empty: bool, v: Option<Seq<char>>)
    requires
        canonical_field(keep_empty, v),
    ensures
        normalize_field(keep_empty, v) == v,
{
    if let Some(s) = v {
        if s.len() == 0 {
            assert(crate::text::trim(s) =~= seq![]);
            assert(s =~= seq![]);
        }
    }
}

/// A copy of an optional string.
pub fn clone_opt(o: &Option<String>) -> (r: Option<String>)
    ensures
        opt_view(r) == opt_view(*o),
{
    match o {
        Some(s) => Some(s.clone()),
        None => None,
    }
}

} // verus!
