//! The internal general entities that a document type declaration declares,
//! read from the text of its `<!DOCTYPE ...>` tag.

use crate::context::{ReadContext, pairs_text};
use crate::metadata::find_char_from;
use crate::text::{chars_of, is_white_space, push_char, push_str, string_of};
use crate::util::is_scalar_code;
use crate::xml::{char_ref_code, is_char_ref, predefined_entity, resolve_char_ref, resolve_entity};
use vstd::prelude::*;

verus! {

/// The index of the first character from `i` on that is not white space.
pub open spec fn skip_space(s: Seq<char>, i: int) -> int
    decreases s.len() - i,
{
    if 0 <= i < s.len() && is_white_space(s[i]) {
        skip_space(s, i + 1)
    } else {
        i
    }
}

/// Whether a character may stand in the name of an entity as it is read
/// here: anything but white space, quotes, `%`, `<` and `>`.
pub open spec fn is_name_char(c: char) -> bool {
    !is_white_space(c) && c != '"' && c != '\'' && c != '%' && c != '<' && c != '>'
}

/// The end of the name that starts at `i`.
pub open spec fn name_end(s: Seq<char>, i: int) -> int
    decreases s.len() - i,
{
    if 0 <= i < s.len() && is_name_char(s[i]) {
        name_end(s, i + 1)
    } else {
        i
    }
}

/// The declaration that follows `<!ENTITY` at index `k`: white space, a
/// name, white space, a quoted replacement text, optional white space and
/// `>`. Gives the name, the replacement text ([`value_text_from`]) and the
/// index after `>`; none for anything else, such as a parameter entity (`%`),
/// an external one (`SYSTEM`, `PUBLIC`), or a value whose character reference
/// names no character.
pub open spec fn entity_decl_at(s: Seq<char>, k: int) -> Option<(Seq<char>, Seq<char>, int)> {
    let a = skip_space(s, k);
    let b = name_end(s, a);
    let c = skip_space(s, b);
    if a == k || b == a || c == b || c >= s.len() || !(s[c] == '"' || s[c] == '\'') {
        None
    } else {
        match find_char_from(s, s[c], c + 1) {
            None => None,
            Some(d) => {
                let e = skip_space(s, d + 1);
                if e < s.len() && s[e] == '>' {
                    match value_text_from(s.subrange(c + 1, d), 0) {
                        Some(text) => Some((s.subrange(a, b), text, e + 1)),
                        None => None,
                    }
                } else {
                    None
                }
            },
        }
    }
}

/// The replacement text of an entity value from index `i` on: character
/// references and the predefined entities are resolved, other references are
/// kept as written; none if a character reference names no character.
pub open spec fn value_text_from(v: Seq<char>, i: int) -> Option<Seq<char>>
    decreases v.len() - i,
{
    if i < 0 || i >= v.len() {
        Some(seq![])
    } else if v[i] == '&' {
        match find_char_from(v, ';', i + 1) {
            Some(j) => if i < j < v.len() {
                let name = v.subrange(i + 1, j);
                let head = if is_char_ref(name) {
                    match char_ref_code(name.drop_first()) {
                        Some(c) => if is_scalar_code(c) {
                            Some(seq![(c as u32) as char])
                        } else {
                            None
                        },
                        None => None,
                    }
                } else {
                    match predefined_entity(name) {
                        Some(s) => Some(s),
                        None => Some(v.subrange(i, j + 1)),
                    }
                };
                match (head, value_text_from(v, j + 1)) {
                    (Some(h), Some(rest)) => Some(h + rest),
                    _ => None,
                }
            } else {
                None
            },
            None => Some(v.subrange(i, v.len() as int)),
        }
    } else {
        match value_text_from(v, i + 1) {
            Some(rest) => Some(seq![v[i]] + rest),
            None => None,
        }
    }
}

/// The keyword that opens an entity declaration.
pub open spec fn entity_keyword() -> Seq<char> {
    seq!['<', '!', 'E', 'N', 'T', 'I', 'T', 'Y']
}

/// The internal general entities declared from index `i` on, in order.
pub open spec fn entity_decls_from(s: Seq<char>, i: int) -> Seq<(Seq<char>, Seq<char>)>
    decreases s.len() - i,
{
    if i < 0 || i >= s.len() {
        seq![]
    } else if i + 8 <= s.len() && s.subrange(i, i + 8) == entity_keyword() {
        match entity_decl_at(s, i + 8) {
            Some((n, v, j)) => if i < j <= s.len() {
                seq![(n, v)] + entity_decls_from(s, j)
            } else {
                seq![]
            },
            None => entity_decls_from(s, i + 1),
        }
    } else {
        entity_decls_from(s, i + 1)
    }
}

proof fn lemma_skip_space(s: Seq<char>, i: int)
    requires
        0 <= i <= s.len(),
    ensures
        i <= skip_space(s, i) <= s.len(),
    decreases s.len() - i,
{
    if i < s.len() && is_white_space(s[i]) {
        lemma_skip_space(s, i + 1);
    }
}

proof fn lemma_name_end(s: Seq<char>, i: int)
    requires
        0 <= i <= s.len(),
    ensures
        i <= name_end(s, i) <= s.len(),
    decreases s.len() - i,
{
    if i < s.len() && is_name_char(s[i]) {
        lemma_name_end(s, i + 1);
    }
}

proof fn lemma_find_char(s: Seq<char>, c: char, i: int)
    requires
        0 <= i,
    ensures
        find_char_from(s, c, i) matches Some(d) ==> i <= d < s.len() && s[d] == c,
    decreases s.len() - i,
{
    if i < s.len() && s[i] != c {
        lemma_find_char(s, c, i + 1);
    }
}

/// Whether the character is white space, as `str::trim` takes it.
fn white_space(c: char) -> (r: bool)
    ensures
        r == is_white_space(c),
{
    ('\u{9}' <= c && c <= '\u{D}') || c == ' ' || c == '\u{85}' || c == '\u{A0}' || c == '\u{1680}' || ('\u{2000}'
        <= c && c <= '\u{200A}') || c == '\u{2028}' || c == '\u{2029}' || c == '\u{202F}' || c == '\u{205F}' || c
        == '\u{3000}'
}

fn skip_space_at(cs: &Vec<char>, i: usize) -> (r: usize)
    requires
        i <= cs@.len(),
    ensures
        r == skip_space(cs@, i as int),
        i <= r <= cs@.len(),
{
    let mut j = i;
    while j < cs.len() && white_space(cs[j])
        invariant
            i <= j <= cs@.len(),
            skip_space(cs@, j as int) == skip_space(cs@, i as int),
        decreases cs@.len() - j,
    {
        j = j + 1;
    }
    j
}

fn name_end_at(cs: &Vec<char>, i: usize) -> (r: usize)
    requires
        i <= cs@.len(),
    ensures
        r == name_end(cs@, i as int),
        i <= r <= cs@.len(),
{
    let mut j = i;
    while j < cs.len() && !white_space(cs[j]) && cs[j] != '"' && cs[j] != '\'' && cs[j] != '%' && cs[j] != '<'
        && cs[j] != '>'
        invariant
            i <= j <= cs@.len(),
            name_end(cs@, j as int) == name_end(cs@, i as int),
        decreases cs@.len() - j,
    {
        j = j + 1;
    }
    j
}

fn find_char_at(cs: &Vec<char>, c: char, i: usize) -> (r: Option<usize>)
    requires
        i <= cs@.len(),
    ensures
        match r {
            Some(d) => find_char_from(cs@, c, i as int) == Some(d as int),
            None => find_char_from(cs@, c, i as int) is None,
        },
{
    let mut j = i;
    while j < cs.len()
        invariant
            i <= j <= cs@.len(),
            find_char_from(cs@, c, j as int) == find_char_from(cs@, c, i as int),
        decreases cs@.len() - j,
    {
        if cs[j] == c {
            return Some(j);
        }
        j = j + 1;
    }
    None
}

/// The declaration after `<!ENTITY` at index `k`, as [`entity_decl_at`].
fn entity_decl(cs: &Vec<char>, k: usize) -> (r: Option<(String, String, usize)>)
    requires
        k <= cs@.len(),
    ensures
        match entity_decl_at(cs@, k as int) {
            Some((n, v, j)) => r matches Some((rn, rv, rj)) && rn@ == n && rv@ == v && rj == j,
            None => r is None,
        },
{
    let a = skip_space_at(cs, k);
    let b = name_end_at(cs, a);
    let c = skip_space_at(cs, b);
    if a == k || b == a || c == b || c >= cs.len() || !(cs[c] == '"' || cs[c] == '\'') {
        return None;
    }
    match find_char_at(cs, cs[c], c + 1) {
        None => None,
        Some(d) => {
            proof {
                lemma_find_char(cs@, cs@[c as int], c + 1);
            }
            let e = skip_space_at(cs, d + 1);
            if e < cs.len() && cs[e] == '>' {
                let name = string_of(cs, a, b);
                let raw = string_of(cs, c + 1, d);
                match value_text(raw.as_str()) {
                    Some(value) => Some((name, value, e + 1)),
                    None => None,
                }
            } else {
                None
            }
        },
    }
}

/// The replacement text of an entity value, as [`value_text_from`].
fn value_text(v: &str) -> (r: Option<String>)
    ensures
        match value_text_from(v@, 0) {
            Some(t) => r matches Some(s) && s@ == t,
            None => r is None,
        },
{
    let cs = chars_of(v);
    let mut acc = String::new();
    let mut i: usize = 0;
    while i < cs.len()
        invariant
            i <= cs@.len(),
            cs@ == v@,
            value_text_from(v@, 0) == match value_text_from(v@, i as int) {
                Some(rest) => Some(acc@ + rest),
                None => None::<Seq<char>>,
            },
        decreases cs@.len() - i,
    {
        let ghost before = acc@;
        if cs[i] == '&' {
            match find_char_at(&cs, ';', i + 1) {
                Some(j) => {
                    proof {
                        lemma_find_char(cs@, ';', i + 1);
                    }
                    let name = string_of(&cs, i + 1, j);
                    match resolve_entity(name.as_str()) {
                        Some(s) => {
                            push_str(&mut acc, s);
                        },
                        None => {
                            match resolve_char_ref(name.as_str()) {
                                Ok(Some(c)) => {
                                    proof {
                                        let u = c as u32;
                                        vstd::utf8::char_is_scalar(c);
                                        vstd::utf8::char_u32_cast(c, u);
                                        assert(vstd::utf8::is_scalar(u));
                                        assert((u as nat) as u32 == u);
                                        assert(is_scalar_code(u as nat));
                                        assert((((c as u32) as nat) as u32) as char == c);
                                    }
                                    push_char(&mut acc, c);
                                },
                                Ok(None) => {
                                    let whole = string_of(&cs, i, j + 1);
                                    push_str(&mut acc, whole.as_str());
                                },
                                Err(_) => {
                                    return None;
                                },
                            }
                        },
                    }
                    proof {
                        let name_s = v@.subrange(i + 1, j as int);
                        if is_char_ref(name_s) {
                            assert(predefined_entity(name_s) is None);
                        }
                        assert(acc@ =~= before + (acc@.subrange(before.len() as int, acc@.len() as int)));
                    }
                    i = j + 1;
                },
                None => {
                    let rest = string_of(&cs, i, cs.len());
                    push_str(&mut acc, rest.as_str());
                    assert(value_text_from(v@, cs@.len() as int) == Some(Seq::<char>::empty()));
                    assert(acc@ + Seq::<char>::empty() =~= acc@);
                    return Some(acc);
                },
            }
        } else {
            push_char(&mut acc, cs[i]);
            assert(before + (seq![cs@[i as int]] + Seq::<char>::empty()) =~= acc@ + Seq::<char>::empty());
            proof {
                assert forall|rest: Seq<char>| before + (seq![cs@[i as int]] + rest) == acc@ + rest by {
                    assert(before + (seq![cs@[i as int]] + rest) =~= acc@ + rest);
                }
            }
            i = i + 1;
        }
    }
    assert(acc@ + Seq::<char>::empty() =~= acc@);
    Some(acc)
}

/// Whether `cs` holds `<!ENTITY` at index `i`.
fn keyword_at(cs: &Vec<char>, i: usize) -> (r: bool)
    requires
        i + 8 <= cs@.len(),
    ensures
        r == (cs@.subrange(i as int, i + 8) == entity_keyword()),
{
    let kw: Vec<char> = vec!['<', '!', 'E', 'N', 'T', 'I', 'T', 'Y'];
    assert(kw@ =~= entity_keyword());
    let mut m: usize = 0;
    while m < 8
        invariant
            m <= 8,
            i + 8 <= cs@.len(),
            kw@ == entity_keyword(),
            forall|q: int| 0 <= q < m ==> cs@[i + q] == kw@[q],
        decreases 8 - m,
    {
        assert(i + m < cs.len());
        if cs[i + m] != kw[m] {
            assert(cs@.subrange(i as int, i + 8)[m as int] != entity_keyword()[m as int]);
            return false;
        }
        m = m + 1;
    }
    assert(cs@.subrange(i as int, i + 8) =~= entity_keyword());
    true
}

/// The internal general entities that the text of a document type
/// declaration declares, in order: each `<!ENTITY name "text">` (or with
/// single quotes) gives its name and its replacement text as it is written.
/// Parameter entities and external entities are left out.
pub fn doctype_entities(doctype: &str) -> (r: Vec<(String, String)>)
    ensures
        pairs_text(r@) == entity_decls_from(doctype@, 0),
{
    let cs = chars_of(doctype);
    let mut out: Vec<(String, String)> = Vec::new();
    let mut i: usize = 0;
    while i < cs.len()
        invariant
            i <= cs@.len(),
            cs@ == doctype@,
            pairs_text(out@) + entity_decls_from(cs@, i as int) == entity_decls_from(cs@, 0),
        decreases cs@.len() - i,
    {
        if cs.len() - i >= 8 && keyword_at(&cs, i) {
            match entity_decl(&cs, i + 8) {
                Some((name, value, j)) => {
                    if i < j && j <= cs.len() {
                        let ghost before = pairs_text(out@);
                        let ghost nv = (name@, value@);
                        out.push((name, value));
                        assert(pairs_text(out@) =~= before.push(nv));
                        assert(before + entity_decls_from(cs@, i as int) == before + (seq![nv]
                            + entity_decls_from(cs@, j as int)));
                        assert(pairs_text(out@) + entity_decls_from(cs@, j as int) =~= before + (seq![nv]
                            + entity_decls_from(cs@, j as int)));
                        i = j;
                    } else {
                        assert(entity_decls_from(cs@, i as int) =~= seq![]);
                        assert(pairs_text(out@) + seq![] =~= pairs_text(out@));
                        return out;
                    }
                },
                None => {
                    i = i + 1;
                },
            }
        } else {
            i = i + 1;
        }
    }
    assert(pairs_text(out@) + seq![] =~= pairs_text(out@));
    out
}

impl ReadContext {
    /// Declares the internal general entities of a document type
    /// declaration, given its text, after those declared already.
    pub fn declare_doctype(&mut self, doctype: &str)
        ensures
            final(self)@.entities == old(self)@.entities + entity_decls_from(doctype@, 0),
            final(self)@.rss_prefixes == old(self)@.rss_prefixes,
    {
        let decls = doctype_entities(doctype);
        let mut k: usize = 0;
        let ghost start = self@.entities;
        while k < decls.len()
            invariant
                k <= decls@.len(),
                self@.entities == start + pairs_text(decls@).take(k as int),
                self@.rss_prefixes == old(self)@.rss_prefixes,
            decreases decls@.len() - k,
        {
            self.declare_entity(decls[k].0.as_str(), decls[k].1.as_str());
            assert(pairs_text(decls@).take(k + 1) =~= pairs_text(decls@).take(k as int).push(pairs_text(decls@)[k as int]));
            k = k + 1;
        }
        assert(pairs_text(decls@).take(decls@.len() as int) =~= pairs_text(decls@));
    }
}

} // verus!
