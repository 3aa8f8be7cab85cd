//! What the reader of an element knows from the document around it: the
//! general entities that the document type declares, and the prefixes that
//! are bound to the RSS 1.0 namespace.

use crate::metadata::find_char_from;
use crate::text::{chars_of, has_prefix, starts_with, string_of, strings_view};
use crate::xml::str_eq;
use vstd::prelude::*;

verus! {

/// The namespace URI of RSS 1.0.
pub open spec fn rss1_namespace() -> Seq<char> {
    "http://purl.org/rss/1.0/"@
}

/// The declarations and namespace bindings in force where an element is read.
pub struct ReadContext {
    /// The internal general entities, by name and replacement text, in the
    /// order of their declarations.
    pub entities: Vec<(String, String)>,
    /// The prefixes bound to the RSS 1.0 namespace.
    pub rss_prefixes: Vec<String>,
}

/// The abstract value of a [`ReadContext`].
pub struct ContextView {
    pub entities: Seq<(Seq<char>, Seq<char>)>,
    pub rss_prefixes: Seq<Seq<char>>,
}

/// The character sequences of a list of name and text pairs.
pub open spec fn pairs_text(v: Seq<(String, String)>) -> Seq<(Seq<char>, Seq<char>)> {
    v.map_values(|p: (String, String)| (p.0@, p.1@))
}

impl View for ReadContext {
    type V = ContextView;

    open spec fn view(&self) -> ContextView {
        ContextView { entities: pairs_text(self.entities@), rss_prefixes: strings_view(self.rss_prefixes@) }
    }
}

/// The replacement text of the first declaration of `name` from index `i`
/// on; XML binds an entity by its first declaration.
pub open spec fn entity_from(ents: Seq<(Seq<char>, Seq<char>)>, name: Seq<char>, i: int) -> Option<Seq<char>>
    decreases ents.len() - i,
{
    if i < 0 || i >= ents.len() {
        None
    } else if ents[i].0 == name {
        Some(ents[i].1)
    } else {
        entity_from(ents, name, i + 1)
    }
}

/// The replacement text of the entity `name`, if it is declared.
pub open spec fn declared_entity(ents: Seq<(Seq<char>, Seq<char>)>, name: Seq<char>) -> Option<Seq<char>> {
    entity_from(ents, name, 0)
}

/// The name by which an element is matched against the names of RSS
/// elements: a name `p:local` whose prefix `p` is bound to the RSS 1.0
/// namespace is matched by `local`; any other name as it is written.
pub open spec fn match_name(n: Seq<char>, rss_prefixes: Seq<Seq<char>>) -> Seq<char> {
    match find_char_from(n, ':', 0) {
        Some(p) => if rss_prefixes.contains(n.subrange(0, p)) {
            n.subrange(p + 1, n.len() as int)
        } else {
            n
        },
        None => n,
    }
}

/// A name without a colon is matched as it is written.
pub proof fn lemma_match_name_plain(n: Seq<char>, rss_prefixes: Seq<Seq<char>>)
    requires
        find_char_from(n, ':', 0) is None,
    ensures
        match_name(n, rss_prefixes) == n,
{
}

/// A context with no declarations and no bindings.
pub open spec fn empty_context() -> ContextView {
    ContextView { entities: seq![], rss_prefixes: seq![] }
}

/// The prefixes `ps` without `p`.
pub open spec fn without(ps: Seq<Seq<char>>, p: Seq<char>) -> Seq<Seq<char>>
    decreases ps.len(),
{
    if ps.len() == 0 {
        seq![]
    } else if ps.last() == p {
        without(ps.drop_last(), p)
    } else {
        without(ps.drop_last(), p).push(ps.last())
    }
}

/// The prefixes bound to the RSS 1.0 namespace after the attribute `key` with
/// the value `value`: a declaration `xmlns:p` binds `p` to that namespace if
/// its value is that namespace, and unbinds it otherwise; any other
/// attribute changes nothing.
pub open spec fn rebind(ps: Seq<Seq<char>>, key: Seq<char>, value: Seq<char>) -> Seq<Seq<char>> {
    if has_prefix(key, "xmlns:"@) {
        let p = key.subrange("xmlns:"@.len() as int, key.len() as int);
        if value == rss1_namespace() {
            ps.push(p)
        } else {
            without(ps, p)
        }
    } else {
        ps
    }
}

/// The prefixes bound to the RSS 1.0 namespace after a tag's attributes, in
/// order.
pub open spec fn rebind_all(ps: Seq<Seq<char>>, attrs: Seq<(Seq<char>, Seq<char>)>) -> Seq<Seq<char>>
    decreases attrs.len(),
{
    if attrs.len() == 0 {
        ps
    } else {
        rebind(rebind_all(ps, attrs.drop_last()), attrs.last().0, attrs.last().1)
    }
}

/// The prefixes bound to the RSS 1.0 namespace for an element whose start tag
/// has the attributes `attrs`; malformed attributes (`None`) change nothing.
pub open spec fn start_prefixes(ps: Seq<Seq<char>>, attrs: Option<Seq<(Seq<char>, Seq<char>)>>) -> Seq<Seq<char>> {
    match attrs {
        Some(a) => rebind_all(ps, a),
        None => ps,
    }
}

/// The context inside an element whose attributes are `attrs`.
pub open spec fn element_context(cx: ContextView, attrs: Seq<(Seq<char>, Seq<char>)>) -> ContextView {
    ContextView { entities: cx.entities, rss_prefixes: rebind_all(cx.rss_prefixes, attrs) }
}

impl ReadContext {
    /// A context with no declarations and no bindings.
    pub fn new() -> (r: ReadContext)
        ensures
            r@ == empty_context(),
    {
        let r = ReadContext { entities: Vec::new(), rss_prefixes: Vec::new() };
        assert(r@.entities =~= Seq::<(Seq<char>, Seq<char>)>::empty());
        assert(r@.rss_prefixes =~= Seq::<Seq<char>>::empty());
        r
    }

    /// Adds the declaration of the internal general entity `name` with the
    /// replacement text `value`.
    pub fn declare_entity(&mut self, name: &str, value: &str)
        ensures
            final(self)@.entities == old(self)@.entities.push((name@, value@)),
            final(self)@.rss_prefixes == old(self)@.rss_prefixes,
    {
        let ghost before = self.entities@;
        self.entities.push((name.to_owned(), value.to_owned()));
        assert(pairs_text(self.entities@) =~= pairs_text(before).push((name@, value@)));
    }

    /// Takes in an attribute of an element: see [`rebind`].
    pub fn bind_namespace(&mut self, key: &str, value: &str)
        ensures
            final(self)@.entities == old(self)@.entities,
            final(self)@.rss_prefixes == rebind(old(self)@.rss_prefixes, key@, value@),
    {
        if starts_with(key, "xmlns:") {
            let cs = chars_of(key);
            let pl = chars_of("xmlns:");
            let prefix = string_of(&cs, pl.len(), cs.len());
            if str_eq(value, "http://purl.org/rss/1.0/") {
                let ghost before = self.rss_prefixes@;
                self.rss_prefixes.push(prefix);
                assert(strings_view(self.rss_prefixes@) =~= strings_view(before).push(prefix@));
            } else {
                let ghost ps = strings_view(self.rss_prefixes@);
                let mut kept: Vec<String> = Vec::new();
                let mut i: usize = 0;
                while i < self.rss_prefixes.len()
                    invariant
                        i <= self.rss_prefixes@.len(),
                        ps == strings_view(self.rss_prefixes@),
                        strings_view(kept@) == without(ps.take(i as int), prefix@),
                    decreases self.rss_prefixes@.len() - i,
                {
                    assert(ps.take(i + 1).drop_last() =~= ps.take(i as int));
                    if !str_eq(self.rss_prefixes[i].as_str(), prefix.as_str()) {
                        let ghost before = kept@;
                        kept.push(self.rss_prefixes[i].clone());
                        assert(strings_view(kept@) =~= strings_view(before).push(ps[i as int]));
                    }
                    i = i + 1;
                }
                assert(ps.take(ps.len() as int) =~= ps);
                self.rss_prefixes = kept;
            }
        }
    }

    /// The replacement text of the entity `name`, if it is declared.
    pub fn entity(&self, name: &str) -> (r: Option<&str>)
        ensures
            match r {
                Some(s) => declared_entity(self@.entities, name@) == Some(s@),
                None => declared_entity(self@.entities, name@) is None,
            },
    {
        let ghost ev = self@.entities;
        let mut i: usize = 0;
        while i < self.entities.len()
            invariant
                i <= self.entities@.len(),
                ev == self@.entities,
                entity_from(ev, name@, i as int) == entity_from(ev, name@, 0),
            decreases self.entities@.len() - i,
        {
            if str_eq(self.entities[i].0.as_str(), name) {
                return Some(self.entities[i].1.as_str());
            }
            i = i + 1;
        }
        None
    }

    /// Whether `p` is bound to the RSS 1.0 namespace.
    fn is_rss_prefix(&self, p: &str) -> (r: bool)
        ensures
            r == self@.rss_prefixes.contains(p@),
    {
        let ghost pv = self@.rss_prefixes;
        let mut i: usize = 0;
        while i < self.rss_prefixes.len()
            invariant
                i <= self.rss_prefixes@.len(),
                pv == self@.rss_prefixes,
                forall|k: int| 0 <= k < i ==> pv[k] != p@,
            decreases self.rss_prefixes@.len() - i,
        {
            if str_eq(self.rss_prefixes[i].as_str(), p) {
                assert(pv[i as int] == p@);
                return true;
            }
            i = i + 1;
        }
        false
    }

    /// The name by which the element `n` is matched: see [`match_name`].
    pub fn matched_name(&self, n: &str) -> (r: String)
        ensures
            r@ == match_name(n@, self@.rss_prefixes),
    {
        let cs = chars_of(n);
        let mut p: usize = 0;
        while p < cs.len()
            invariant
                p <= cs@.len(),
                cs@ == n@,
                find_char_from(n@, ':', p as int) == find_char_from(n@, ':', 0),
            decreases cs@.len() - p,
        {
            if cs[p] == ':' {
                let prefix = string_of(&cs, 0, p);
                if self.is_rss_prefix(prefix.as_str()) {
                    return string_of(&cs, p + 1, cs.len());
                } else {
                    return n.to_owned();
                }
            }
            p = p + 1;
        }
        n.to_owned()
    }

    /// The context inside an element whose attributes are `attrs`: see
    /// [`element_context`].
    pub fn in_element(&self, attrs: &Vec<(String, String)>) -> (r: ReadContext)
        ensures
            r@ == element_context(self@, pairs_text(attrs@)),
    {
        let mut r = ReadContext::new();
        let mut i: usize = 0;
        while i < self.entities.len()
            invariant
                i <= self.entities@.len(),
                r@.entities == self@.entities.take(i as int),
                r@.rss_prefixes == Seq::<Seq<char>>::empty(),
            decreases self.entities@.len() - i,
        {
            r.declare_entity(self.entities[i].0.as_str(), self.entities[i].1.as_str());
            assert(self@.entities.take(i + 1) =~= self@.entities.take(i as int).push(self@.entities[i as int]));
            i = i + 1;
        }
        assert(self@.entities.take(self@.entities.len() as int) =~= self@.entities);
        let mut j: usize = 0;
        while j < self.rss_prefixes.len()
            invariant
                j <= self.rss_prefixes@.len(),
                r@.entities == self@.entities,
                r@.rss_prefixes == self@.rss_prefixes.take(j as int),
            decreases self.rss_prefixes@.len() - j,
        {
            let ghost before = r.rss_prefixes@;
            r.rss_prefixes.push(self.rss_prefixes[j].clone());
            assert(strings_view(r.rss_prefixes@) =~= strings_view(before).push(self@.rss_prefixes[j as int]));
            assert(self@.rss_prefixes.take(j + 1) =~= self@.rss_prefixes.take(j as int).push(self@.rss_prefixes[j as int]));
            j = j + 1;
        }
        assert(self@.rss_prefixes.take(self@.rss_prefixes.len() as int) =~= self@.rss_prefixes);
        let ghost av = pairs_text(attrs@);
        let mut k: usize = 0;
        while k < attrs.len()
            invariant
                k <= attrs@.len(),
                av == pairs_text(attrs@),
                r@.entities == self@.entities,
                r@.rss_prefixes == rebind_all(self@.rss_prefixes, av.take(k as int)),
            decreases attrs@.len() - k,
        {
            r.bind_namespace(attrs[k].0.as_str(), attrs[k].1.as_str());
            assert(av.take(k + 1).drop_last() =~= av.take(k as int));
            assert(av.take(k + 1).last() == av[k as int]);
            k = k + 1;
        }
        assert(av.take(attrs@.len() as int) =~= av);
        r
    }
}

} // verus!
