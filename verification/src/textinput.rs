use crate::context::{element_context, empty_context, pairs_text, ContextView, ReadContext};
use crate::error::Error;
use crate::record::{
    canonical_field, clone_opt, first_illegal_field, plain_names, lemma_canonical_field, lemma_fields_roundtrip, normalize_field,
    normalize_fields, opts_view, read_fields, read_fields_spec, record_events, record_read_events,
    result_matches, strs_view, write_fields,
};
use crate::text::{opt_as_str, opt_str_view, opt_view};
use crate::util::{is_element_rest, read_element_events, ReadFailure};
use crate::xml::{attribute_pairs, events_bytes, events_view, EventView, XmlEvent};
use quick_xml::events::attributes::Attributes;
use quick_xml::Error as XmlError;
use quick_xml::Reader;
use vstd::prelude::*;

verus! {

/// Represents a text input for an RSS channel.
#[derive(Debug, Clone, PartialEq)]
pub struct TextInput {
    /// The label of the Submit button for the text input.
    pub title: Option<String>,
    /// A description of the text input.
    pub description: Option<String>,
    /// The name of the text object.
    pub name: Option<String>,
    /// The URL of the CGI script that processes the text input request.
    pub link: Option<String>,
}

/// The abstract value of a [`TextInput`]: its four optional texts.
pub struct TextInputView {
    pub title: Option<Seq<char>>,
    pub description: Option<Seq<char>>,
    pub name: Option<Seq<char>>,
    pub link: Option<Seq<char>>,
}

impl View for TextInput {
    type V = TextInputView;

    open spec fn view(&self) -> TextInputView {
        TextInputView {
            title: opt_view(self.title),
            description: opt_view(self.description),
            name: opt_view(self.name),
            link: opt_view(self.link),
        }
    }
}

impl Default for TextInput {
    fn default() -> (r: TextInput)
        ensures
            r.title is None,
            r.description is None,
            r.name is None,
            r.link is None,
    {
        TextInput { title: None, description: None, name: None, link: None }
    }
}

impl TextInput {
    /// Return the title for this text field.
    pub fn title(&self) -> (r: Option<&str>)
        ensures
            opt_str_view(r) == self@.title,
    {
        opt_as_str(&self.title)
    }

    /// Set the title for this text field.
    pub fn set_title<V: Into<String>>(&mut self, title: V)
        ensures
            final(self).title is Some,
            call_ensures(V::into, (title,), final(self).title->0),
            final(self).description == old(self).description,
            final(self).name == old(self).name,
            final(self).link == old(self).link,
    {
        self.title = Some(title.into());
    }

    /// Return the description of this text field.
    pub fn description(&self) -> (r: Option<&str>)
        ensures
            opt_str_view(r) == self@.description,
    {
        opt_as_str(&self.description)
    }

    /// Set the description of this text field.
    pub fn set_description<V: Into<String>>(&mut self, description: V)
        ensures
            final(self).description is Some,
            call_ensures(V::into, (description,), final(self).description->0),
            final(self).title == old(self).title,
            final(self).name == old(self).name,
            final(self).link == old(self).link,
    {
        self.description = Some(description.into());
    }

    /// Return the name of the text object in this input.
    pub fn name(&self) -> (r: Option<&str>)
        ensures
            opt_str_view(r) == self@.name,
    {
        opt_as_str(&self.name)
    }

    /// Set the name of the text object in this input.
    pub fn set_name<V: Into<String>>(&mut self, name: V)
        ensures
            final(self).name is Some,
            call_ensures(V::into, (name,), final(self).name->0),
            final(self).title == old(self).title,
            final(self).description == old(self).description,
            final(self).link == old(self).link,
    {
        self.name = Some(name.into());
    }

    /// Return the URL of the GCI script that processes the text input request.
    pub fn link(&self) -> (r: Option<&str>)
        ensures
            opt_str_view(r) == self@.link,
    {
        opt_as_str(&self.link)
    }

    /// Set the URL of the GCI script that processes the text input request.
    pub fn set_link<V: Into<String>>(&mut self, link: V)
        ensures
            final(self).link is Some,
            call_ensures(V::into, (link,), final(self).link->0),
            final(self).title == old(self).title,
            final(self).description == old(self).description,
            final(self).name == old(self).name,
    {
        self.link = Some(link.into());
    }
}

/// The names of the children of `<textInput>`, in the order in which they are written.
pub open spec fn text_input_names() -> Seq<Seq<char>> {
    seq!["title"@, "description"@, "name"@, "link"@]
}

/// Every child of `<textInput>` gives its field `""` when it holds no text.
pub open spec fn text_input_keep_empty() -> Seq<bool> {
    seq![true, true, true, true]
}

/// The fields of a text input, in the order of [`text_input_names`].
pub open spec fn text_input_fields(v: TextInputView) -> Seq<Option<Seq<char>>> {
    seq![v.title, v.description, v.name, v.link]
}

/// The text input with the given fields, in the order of [`text_input_names`].
pub open spec fn text_input_of_fields(f: Seq<Option<Seq<char>>>) -> TextInputView {
    TextInputView { title: f[0], description: f[1], name: f[2], link: f[3] }
}

/// The text input that the rest of a `<textInput>` element gives, read
/// after its start tag: see [`crate::record::record_fields`].
pub open spec fn text_input_from_events(evs: Seq<EventView>, cx: ContextView) -> Result<TextInputView, ReadFailure> {
    match read_fields_spec(evs, text_input_names(), text_input_keep_empty(), cx) {
        Ok(f) => Ok(text_input_of_fields(f)),
        Err(e) => Err(e),
    }
}

/// The events of a text input written as XML: `<textInput>`, then each field
/// that is set as a child element, in the order of [`text_input_names`], then
/// `</textInput>`.
pub open spec fn text_input_events(v: TextInputView) -> Seq<EventView> {
    record_events("textInput"@, text_input_names(), text_input_fields(v))
}

/// The events in which quick-xml's reader hands back what [`TextInput::to_xml`]
/// writes: as [`text_input_events`], with the text of each field as the reader splits its
/// escaped form (see [`crate::record::fields_read_events`]).
pub open spec fn text_input_read_events(v: TextInputView) -> Seq<EventView> {
    record_read_events("textInput"@, text_input_names(), text_input_fields(v))
}

impl TextInput {
    /// Builds a text input from the rest of a `<textInput>` element, given as
    /// events that follow its start tag, with the entities and namespace
    /// bindings of `context`.
    pub fn from_events(evs: &[XmlEvent], context: &ReadContext) -> (r: Result<TextInput, Error>)
        ensures
            result_matches(r, text_input_from_events(events_view(evs@), context@), |t: TextInput| t@),
    {
        let names: Vec<&str> = vec!["title", "description", "name", "link"];
        let keep: Vec<bool> = vec![true, true, true, true];
        assert(strs_view(names@) =~= text_input_names());
        assert(keep@ =~= text_input_keep_empty());
        let mut vals = read_fields(evs, names.as_slice(), keep.as_slice(), context)?;
        let ghost f = opts_view(vals@);
        let link = vals.pop().unwrap();
        let name = vals.pop().unwrap();
        let description = vals.pop().unwrap();
        let title = vals.pop().unwrap();
        let text_input = TextInput { title, description, name, link };
        assert(text_input@ == text_input_of_fields(f));
        Ok(text_input)
    }

    /// Builds a text input from XML, after the start tag `<textInput>` has been read,
    /// with the entities that the document declares and the prefixes bound to
    /// the RSS 1.0 namespace around the element, as its own attributes bind
    /// and unbind them (see [`element_context`]): reads up to and including the end tag that
    /// closes the element. If its attributes are malformed, none of them binds a
    /// prefix, and reading goes on.
    pub fn from_xml<'a>(reader: &mut Reader<&'a [u8]>, attributes: Attributes, context: &ReadContext) -> (r: Result<
        TextInput,
        Error,
    >)
        ensures
            r matches Ok(v) ==> exists|evs: Seq<EventView>, attrs: Seq<(Seq<char>, Seq<char>)>|
                is_element_rest(evs) && text_input_from_events(evs, element_context(context@, attrs)) == Ok::<TextInputView, ReadFailure>(
                    v@,
                ),
            r matches Err(Error::Eof) ==> exists|evs: Seq<EventView>, attrs: Seq<(Seq<char>, Seq<char>)>|
                is_element_rest(evs) && text_input_from_events(evs, element_context(context@, attrs)) == Err::<
                    TextInputView,
                    ReadFailure,
                >(ReadFailure::Eof),
    {
        let pairs = match attribute_pairs(attributes) {
            Some(p) => p,
            None => Vec::new(),
        };
        let inner = context.in_element(&pairs);
        let ghost attrs = pairs_text(pairs@);
        assert(inner@ == element_context(context@, attrs));
        let evs = read_element_events(reader)?;
        let r = TextInput::from_events(evs.as_slice(), &inner);
        assert(is_element_rest(events_view(evs@)));
        assert(r matches Ok(v) ==> text_input_from_events(events_view(evs@), element_context(context@, attrs)) == Ok::<TextInputView, ReadFailure>(v@));
        r
    }

    /// Writes this text input as XML to `out`: `<textInput>`, each field that is set
    /// as a child element with its escaped text, and `</textInput>`. Fails, and
    /// writes nothing, if a field holds a character that XML 1.0 does not
    /// allow (the first such character is reported); else writing into a
    /// vector does not fail.
    pub fn to_xml(&self, out: &mut Vec<u8>) -> (r: Result<(), Error>)
        ensures
            match first_illegal_field(text_input_fields(self@), 0) {
                Some(c) => r matches Err(Error::InvalidCharacter(d)) && d == c && final(out)@ == old(out)@,
                None => r is Ok && final(out)@ == old(out)@ + events_bytes(text_input_events(self@)),
            },
    {
        let names: Vec<&str> = vec!["title", "description", "name", "link"];
        let vals: Vec<Option<String>> = vec![
            clone_opt(&self.title),
            clone_opt(&self.description),
            clone_opt(&self.name),
            clone_opt(&self.link),
        ];
        assert(strs_view(names@) =~= text_input_names());
        assert(opts_view(vals@) =~= text_input_fields(self@));
        write_fields(out, "textInput", names.as_slice(), vals.as_slice())
    }
}

/// The text input that writing `v` and reading it back gives: every text trimmed;
/// an empty text stays an empty text.
pub open spec fn text_input_read_back(v: TextInputView) -> TextInputView {
    TextInputView {
        title: normalize_field(true, v.title),
        description: normalize_field(true, v.description),
        name: normalize_field(true, v.name),
        link: normalize_field(true, v.link),
    }
}

/// Whether `v` is one that writing and reading back leaves as it is.
pub open spec fn text_input_is_canonical(v: TextInputView) -> bool {
    &&& canonical_field(true, v.title)
    &&& canonical_field(true, v.description)
    &&& canonical_field(true, v.name)
    &&& canonical_field(true, v.link)
}

/// Reading back what [`TextInput::to_xml`] writes gives the same text input with every
/// text trimmed: the events in which the reader hands back the written
/// element, after its start tag `<textInput>`, give [`text_input_read_back`] of the text input that
/// was written.
pub proof fn text_input_roundtrip(v: TextInputView, cx: ContextView)
    ensures
        text_input_from_events(text_input_read_events(v).drop_first(), cx) == Ok::<TextInputView, ReadFailure>(text_input_read_back(v)),
{
    let ns = text_input_names();
    assert forall|a: int, b: int| 0 <= a < ns.len() && 0 <= b < ns.len() && a != b implies ns[a] != ns[b] by {
        reveal_strlit("title");
        reveal_strlit("description");
        reveal_strlit("name");
        reveal_strlit("link");
        assert(ns[0].len() == 5 && ns[0][0] == 't' && ns[0][1] == 'i');
        assert(ns[1].len() == 11 && ns[1][0] == 'd' && ns[1][1] == 'e');
        assert(ns[2].len() == 4 && ns[2][0] == 'n' && ns[2][1] == 'a');
        assert(ns[3].len() == 4 && ns[3][0] == 'l' && ns[3][1] == 'i');
        assert(a == 0 || a == 1 || a == 2 || a == 3);
        assert(b == 0 || b == 1 || b == 2 || b == 3);
    }
    assert(plain_names(ns)) by {
        reveal_strlit("title");
        reveal_strlit("description");
        reveal_strlit("name");
        reveal_strlit("link");
        reveal_with_fuel(crate::metadata::find_char_from, 12);
    }
    lemma_fields_roundtrip("textInput"@, text_input_names(), text_input_keep_empty(), text_input_fields(v), cx);
    assert(text_input_of_fields(normalize_fields(text_input_keep_empty(), text_input_fields(v))) == text_input_read_back(v));
}

/// A text input whose texts are trimmed, and not empty where an empty text would be
/// read back as none, is read back exactly as it was written.
pub proof fn text_input_roundtrip_canonical(v: TextInputView, cx: ContextView)
    requires
        text_input_is_canonical(v),
    ensures
        text_input_from_events(text_input_read_events(v).drop_first(), cx) == Ok::<TextInputView, ReadFailure>(v),
{
    text_input_roundtrip(v, cx);
    lemma_canonical_field(true, v.title);
    lemma_canonical_field(true, v.description);
    lemma_canonical_field(true, v.name);
    lemma_canonical_field(true, v.link);
    assert(text_input_read_back(v) == v);
}

/// Builds a [`TextInput`] field by field; a field that is not set stays unset.
#[derive(Debug, Clone)]
pub struct TextInputBuilder {
    text_input: TextInput,
}

impl View for TextInputBuilder {
    type V = TextInputView;

    closed spec fn view(&self) -> TextInputView {
        self.text_input@
    }
}

impl Default for TextInputBuilder {
    fn default() -> (r: TextInputBuilder)
        ensures
            r@.title is None,
            r@.description is None,
            r@.name is None,
            r@.link is None,
    {
        TextInputBuilder { text_input: TextInput::default() }
    }
}

impl TextInputBuilder {
    /// Sets the label of the Submit button.
    pub fn title<V: Into<String>>(&mut self, value: V) -> (r: &mut TextInputBuilder)
        ensures
            exists|s: String| call_ensures(V::into, (value,), s) && r@.title == Some(s@),
            r@.description == old(self)@.description,
            r@.name == old(self)@.name,
            r@.link == old(self)@.link,
            *final(self) == *final(r),
    {
        self.text_input.title = Some(value.into());
        self
    }

    /// Sets the description of the text input.
    pub fn description<V: Into<String>>(&mut self, value: V) -> (r: &mut TextInputBuilder)
        ensures
            exists|s: String| call_ensures(V::into, (value,), s) && r@.description == Some(s@),
            r@.title == old(self)@.title,
            r@.name == old(self)@.name,
            r@.link == old(self)@.link,
            *final(self) == *final(r),
    {
        self.text_input.description = Some(value.into());
        self
    }

    /// Sets the name of the text object.
    pub fn name<V: Into<String>>(&mut self, value: V) -> (r: &mut TextInputBuilder)
        ensures
            exists|s: String| call_ensures(V::into, (value,), s) && r@.name == Some(s@),
            r@.title == old(self)@.title,
            r@.description == old(self)@.description,
            r@.link == old(self)@.link,
            *final(self) == *final(r),
    {
        self.text_input.name = Some(value.into());
        self
    }

    /// Sets the URL of the CGI script that processes the request.
    pub fn link<V: Into<String>>(&mut self, value: V) -> (r: &mut TextInputBuilder)
        ensures
            exists|s: String| call_ensures(V::into, (value,), s) && r@.link == Some(s@),
            r@.title == old(self)@.title,
            r@.description == old(self)@.description,
            r@.name == old(self)@.name,
            *final(self) == *final(r),
    {
        self.text_input.link = Some(value.into());
        self
    }

    /// Builds a new `TextInput`.
    pub fn build(&self) -> (r: TextInput)
        ensures
            r@ == self@,
    {
        TextInput {
            title: clone_opt(&self.text_input.title),
            description: clone_opt(&self.text_input.description),
            name: clone_opt(&self.text_input.name),
            link: clone_opt(&self.text_input.link),
        }
    }
}

} // verus!
