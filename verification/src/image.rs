use crate::context::{element_context, empty_context, pairs_text, ContextView, ReadContext};
use crate::error::Error;
use crate::record::{
    canonical_field, clone_opt, first_illegal_field, plain_names, lemma_canonical_field, lemma_fields_roundtrip, normalize_field,
    normalize_fields, opts_view, read_fields, read_fields_spec, record_events, record_read_events,
    result_matches, strs_view, write_fields,
};
use crate::text::{opt_as_str, opt_str_view, opt_view};
use crate::util::{is_element_rest, read_element_events, ReadFailure};
use crate::xml::{attribute_pairs, events_bytes, events_view, EventView, XmlEvent};
use quick_xml::events::attributes::Attributes;
use quick_xml::Error as XmlError;
use quick_xml::Reader;
use vstd::prelude::*;

verus! {

/// Represents an image in an RSS feed.
#[derive(Debug, Clone, PartialEq)]
pub struct Image {
    /// The URL of the image.
    pub url: Option<String>,
    /// A description of the image. This is used in the HTML `alt` attribute.
    pub title: Option<String>,
    /// The URL that the image links to.
    pub link: Option<String>,
    /// The width of the image.
    pub width: Option<String>,
    /// The height of the image.
    pub height: Option<String>,
    /// The text for the HTML `title` attribute of the link formed around the image.
    pub description: Option<String>,
}

/// The abstract value of an [`Image`]: its six optional texts.
pub struct ImageView {
    pub url: Option<Seq<char>>,
    pub title: Option<Seq<char>>,
    pub link: Option<Seq<char>>,
    pub width: Option<Seq<char>>,
    pub height: Option<Seq<char>>,
    pub description: Option<Seq<char>>,
}

impl View for Image {
    type V = ImageView;

    open spec fn view(&self) -> ImageView {
        ImageView {
            url: opt_view(self.url),
            title: opt_view(self.title),
            link: opt_view(self.link),
            width: opt_view(self.width),
            height: opt_view(self.height),
            description: opt_view(self.description),
        }
    }
}

impl Default for Image {
    fn default() -> (r: Image)
        ensures
            r.url is None,
            r.title is None,
            r.link is None,
            r.width is None,
            r.height is None,
            r.description is None,
    {
        Image { url: None, title: None, link: None, width: None, height: None, description: None }
    }
}

impl Image {
    /// Return the URL of this image.
    pub fn url(&self) -> (r: Option<&str>)
        ensures
            opt_str_view(r) == self@.url,
    {
        opt_as_str(&self.url)
    }

    /// Set the URL of this image.
    pub fn set_url<V: Into<String>>(&mut self, url: V)
        ensures
            final(self).url is Some,
            call_ensures(V::into, (url,), final(self).url->0),
            final(self).title == old(self).title,
            final(self).link == old(self).link,
            final(self).width == old(self).width,
            final(self).height == old(self).height,
            final(self).description == old(self).description,
    {
        self.url = Some(url.into());
    }

    /// Return the description of this image.
    ///
    /// This is used in the HTML `alt` attribute.
    pub fn title(&self) -> (r: Option<&str>)
        ensures
            opt_str_view(r) == self@.title,
    {
        opt_as_str(&self.title)
    }

    /// Set the description of this image.
    ///
    /// This is used in the HTML `alt` attribute.
    pub fn set_title<V: Into<String>>(&mut self, title: V)
        ensures
            final(self).title is Some,
            call_ensures(V::into, (title,), final(self).title->0),
            final(self).url == old(self).url,
            final(self).link == old(self).link,
            final(self).width == old(self).width,
            final(self).height == old(self).height,
            final(self).description == old(self).description,
    {
        self.title = Some(title.into());
    }

    /// Return the URL that this image links to.
    pub fn link(&self) -> (r: Option<&str>)
        ensures
            opt_str_view(r) == self@.link,
    {
        opt_as_str(&self.link)
    }

    /// Set the URL that this image links to.
    pub fn set_link<V: Into<String>>(&mut self, link: V)
        ensures
            final(self).link is Some,
            call_ensures(V::into, (link,), final(self).link->0),
            final(self).url == old(self).url,
            final(self).title == old(self).title,
            final(self).width == old(self).width,
            final(self).height == old(self).height,
            final(self).description == old(self).description,
    {
        self.link = Some(link.into());
    }

    /// Return the width of this image.
    ///
    /// If the width is `None` the default value should be considered to be `80`.
    pub fn width(&self) -> (r: Option<&str>)
        ensures
            opt_str_view(r) == self@.width,
    {
        opt_as_str(&self.width)
    }

    /// Set the width of this image.
    pub fn set_width<V: Into<Option<String>>>(&mut self, width: V)
        ensures
            call_ensures(V::into, (width,), final(self).width),
            final(self).url == old(self).url,
            final(self).title == old(self).title,
            final(self).link == old(self).link,
            final(self).height == old(self).height,
            final(self).description == old(self).description,
    {
        self.width = width.into();
    }

    /// Return the height of this image.
    ///
    /// If the height is `None` the default value should be considered to be `31`.
    pub fn height(&self) -> (r: Option<&str>)
        ensures
            opt_str_view(r) == self@.height,
    {
        opt_as_str(&self.height)
    }

    /// Set the height of this image.
    ///
    /// If the height is `None` the default value should be considered to be `31`.
    pub fn set_height<V: Into<Option<String>>>(&mut self, height: V)
        ensures
            call_ensures(V::into, (height,), final(self).height),
            final(self).url == old(self).url,
            final(self).title == old(self).title,
            final(self).link == old(self).link,
            final(self).width == old(self).width,
            final(self).description == old(self).description,
    {
        self.height = height.into();
    }

    /// Return the title for the link formed around this image.
    pub fn description(&self) -> (r: Option<&str>)
        ensures
            opt_str_view(r) == self@.description,
    {
        opt_as_str(&self.description)
    }

    /// Set the title for the link formed around this image.
    pub fn set_description<V: Into<Option<String>>>(&mut self, description: V)
        ensures
            call_ensures(V::into, (description,), final(self).description),
            final(self).url == old(self).url,
            final(self).title == old(self).title,
            final(self).link == old(self).link,
            final(self).width == old(self).width,
            final(self).height == old(self).height,
    {
        self.description = description.into();
    }
}

/// The names of the children of `<image>`, in the order in which they are written.
pub open spec fn image_names() -> Seq<Seq<char>> {
    seq!["url"@, "title"@, "link"@, "width"@, "height"@, "description"@]
}

/// Which children of `<image>` give their field `""` when they hold no text:
/// `url`, `title` and `link`; `width`, `height` and `description` give nothing.
pub open spec fn image_keep_empty() -> Seq<bool> {
    seq![true, true, true, false, false, false]
}

/// The fields of an image, in the order of [`image_names`].
pub open spec fn image_fields(v: ImageView) -> Seq<Option<Seq<char>>> {
    seq![v.url, v.title, v.link, v.width, v.height, v.description]
}

/// The image with the given fields, in the order of [`image_names`].
pub open spec fn image_of_fields(f: Seq<Option<Seq<char>>>) -> ImageView {
    ImageView { url: f[0], title: f[1], link: f[2], width: f[3], height: f[4], description: f[5] }
}

/// The image that the rest of an `<image>` element gives, read after its
/// start tag: see [`crate::record::record_fields`].
pub open spec fn image_from_events(evs: Seq<EventView>, cx: ContextView) -> Result<ImageView, ReadFailure> {
    match read_fields_spec(evs, image_names(), image_keep_empty(), cx) {
        Ok(f) => Ok(image_of_fields(f)),
        Err(e) => Err(e),
    }
}

/// The events of an image written as XML: `<image>`, then each field that is
/// set as a child element, in the order of [`image_names`], then `</image>`.
pub open spec fn image_events(v: ImageView) -> Seq<EventView> {
    record_events("image"@, image_names(), image_fields(v))
}

/// The events in which quick-xml's reader hands back what [`Image::to_xml`]
/// writes: as [`image_events`], with the text of each field as the reader splits its
/// escaped form (see [`crate::record::fields_read_events`]).
pub open spec fn image_read_events(v: ImageView) -> Seq<EventView> {
    record_read_events("image"@, image_names(), image_fields(v))
}

impl Image {
    /// Builds an image from the rest of an `<image>` element, given as events
    /// that follow its start tag, with the entities and namespace bindings
    /// of `context`.
    pub fn from_events(evs: &[XmlEvent], context: &ReadContext) -> (r: Result<Image, Error>)
        ensures
            result_matches(r, image_from_events(events_view(evs@), context@), |i: Image| i@),
    {
        let names: Vec<&str> = vec!["url", "title", "link", "width", "height", "description"];
        let keep: Vec<bool> = vec![true, true, true, false, false, false];
        assert(strs_view(names@) =~= image_names());
        assert(keep@ =~= image_keep_empty());
        let mut vals = read_fields(evs, names.as_slice(), keep.as_slice(), context)?;
        let ghost f = opts_view(vals@);
        let description = vals.pop().unwrap();
        let height = vals.pop().unwrap();
        let width = vals.pop().unwrap();
        let link = vals.pop().unwrap();
        let title = vals.pop().unwrap();
        let url = vals.pop().unwrap();
        let image = Image { url, title, link, width, height, description };
        assert(image@ == image_of_fields(f));
        Ok(image)
    }

    /// Builds an image from XML, after the start tag `<image>` has been read,
    /// with the entities that the document declares and the prefixes bound to
    /// the RSS 1.0 namespace around the element, as its own attributes bind
    /// and unbind them (see [`element_context`]): reads up to and including the end tag that
    /// closes the element. If its attributes are malformed, none of them binds a
    /// prefix, and reading goes on.
    pub fn from_xml<'a>(reader: &mut Reader<&'a [u8]>, attributes: Attributes, context: &ReadContext) -> (r: Result<
        Image,
        Error,
    >)
        ensures
            r matches Ok(v) ==> exists|evs: Seq<EventView>, attrs: Seq<(Seq<char>, Seq<char>)>|
                is_element_rest(evs) && image_from_events(evs, element_context(context@, attrs)) == Ok::<ImageView, ReadFailure>(
                    v@,
                ),
            r matches Err(Error::Eof) ==> exists|evs: Seq<EventView>, attrs: Seq<(Seq<char>, Seq<char>)>|
                is_element_rest(evs) && image_from_events(evs, element_context(context@, attrs)) == Err::<
                    ImageView,
                    ReadFailure,
                >(ReadFailure::Eof),
    {
        let pairs = match attribute_pairs(attributes) {
            Some(p) => p,
            None => Vec::new(),
        };
        let inner = context.in_element(&pairs);
        let ghost attrs = pairs_text(pairs@);
        assert(inner@ == element_context(context@, attrs));
        let evs = read_element_events(reader)?;
        let r = Image::from_events(evs.as_slice(), &inner);
        assert(is_element_rest(events_view(evs@)));
        assert(r matches Ok(v) ==> image_from_events(events_view(evs@), element_context(context@, attrs)) == Ok::<ImageView, ReadFailure>(v@));
        r
    }

    /// Writes this image as XML to `out`: `<image>`, each field that is set
    /// as a child element with its escaped text, and `</image>`. Fails, and
    /// writes nothing, if a field holds a character that XML 1.0 does not
    /// allow (the first such character is reported); else writing into a
    /// vector does not fail.
    pub fn to_xml(&self, out: &mut Vec<u8>) -> (r: Result<(), Error>)
        ensures
            match first_illegal_field(image_fields(self@), 0) {
                Some(c) => r matches Err(Error::InvalidCharacter(d)) && d == c && final(out)@ == old(out)@,
                None => r is Ok && final(out)@ == old(out)@ + events_bytes(image_events(self@)),
            },
    {
        let names: Vec<&str> = vec!["url", "title", "link", "width", "height", "description"];
        let vals: Vec<Option<String>> = vec![
            clone_opt(&self.url),
            clone_opt(&self.title),
            clone_opt(&self.link),
            clone_opt(&self.width),
            clone_opt(&self.height),
            clone_opt(&self.description),
        ];
        assert(strs_view(names@) =~= image_names());
        assert(opts_view(vals@) =~= image_fields(self@));
        write_fields(out, "image", names.as_slice(), vals.as_slice())
    }
}

/// The image that writing `v` and reading it back gives: every text trimmed;
/// for `width`, `height`, `description`, an empty text counts as none.
pub open spec fn image_read_back(v: ImageView) -> ImageView {
    ImageView {
        url: normalize_field(true, v.url),
        title: normalize_field(true, v.title),
        link: normalize_field(true, v.link),
        width: normalize_field(false, v.width),
        height: normalize_field(false, v.height),
        description: normalize_field(false, v.description),
    }
}

/// Whether `v` is one that writing and reading back leaves as it is.
pub open spec fn image_is_canonical(v: ImageView) -> bool {
    &&& canonical_field(true, v.url)
    &&& canonical_field(true, v.title)
    &&& canonical_field(true, v.link)
    &&& canonical_field(false, v.width)
    &&& canonical_field(false, v.height)
    &&& canonical_field(false, v.description)
}

/// Reading back what [`Image::to_xml`] writes gives the same image with every
/// text trimmed: the events in which the reader hands back the written
/// element, after its start tag `<image>`, give [`image_read_back`] of the image that
/// was written.
pub proof fn image_roundtrip(v: ImageView, cx: ContextView)
    ensures
        image_from_events(image_read_events(v).drop_first(), cx) == Ok::<ImageView, ReadFailure>(image_read_back(v)),
{
    let ns = image_names();
    assert forall|a: int, b: int| 0 <= a < ns.len() && 0 <= b < ns.len() && a != b implies ns[a] != ns[b] by {
        reveal_strlit("url");
        reveal_strlit("title");
        reveal_strlit("link");
        reveal_strlit("width");
        reveal_strlit("height");
        reveal_strlit("description");
        assert(ns[0].len() == 3 && ns[0][0] == 'u' && ns[0][1] == 'r');
        assert(ns[1].len() == 5 && ns[1][0] == 't' && ns[1][1] == 'i');
        assert(ns[2].len() == 4 && ns[2][0] == 'l' && ns[2][1] == 'i');
        assert(ns[3].len() == 5 && ns[3][0] == 'w' && ns[3][1] == 'i');
        assert(ns[4].len() == 6 && ns[4][0] == 'h' && ns[4][1] == 'e');
        assert(ns[5].len() == 11 && ns[5][0] == 'd' && ns[5][1] == 'e');
        assert(a == 0 || a == 1 || a == 2 || a == 3 || a == 4 || a == 5);
        assert(b == 0 || b == 1 || b == 2 || b == 3 || b == 4 || b == 5);
    }
    assert(plain_names(ns)) by {
        reveal_strlit("url");
        reveal_strlit("title");
        reveal_strlit("link");
        reveal_strlit("width");
        reveal_strlit("height");
        reveal_strlit("description");
        reveal_with_fuel(crate::metadata::find_char_from, 12);
    }
    lemma_fields_roundtrip("image"@, image_names(), image_keep_empty(), image_fields(v), cx);
    assert(image_of_fields(normalize_fields(image_keep_empty(), image_fields(v))) == image_read_back(v));
}

/// A image whose texts are trimmed, and not empty where an empty text would be
/// read back as none, is read back exactly as it was written.
pub proof fn image_roundtrip_canonical(v: ImageView, cx: ContextView)
    requires
        image_is_canonical(v),
    ensures
        image_from_events(image_read_events(v).drop_first(), cx) == Ok::<ImageView, ReadFailure>(v),
{
    image_roundtrip(v, cx);
    lemma_canonical_field(true, v.url);
    lemma_canonical_field(true, v.title);
    lemma_canonical_field(true, v.link);
    lemma_canonical_field(false, v.width);
    lemma_canonical_field(false, v.height);
    lemma_canonical_field(false, v.description);
    assert(image_read_back(v) == v);
}

/// Builds an [`Image`] field by field; a field that is not set stays unset.
#[derive(Debug, Clone)]
pub struct ImageBuilder {
    image: Image,
}

impl View for ImageBuilder {
    type V = ImageView;

    closed spec fn view(&self) -> ImageView {
        self.image@
    }
}

impl Default for ImageBuilder {
    fn default() -> (r: ImageBuilder)
        ensures
            r@.url is None,
            r@.title is None,
            r@.link is None,
            r@.width is None,
            r@.height is None,
            r@.description is None,
    {
        ImageBuilder { image: Image::default() }
    }
}

impl ImageBuilder {
    /// Sets the URL of the image.
    pub fn url<V: Into<String>>(&mut self, value: V) -> (r: &mut ImageBuilder)
        ensures
            exists|s: String| call_ensures(V::into, (value,), s) && r@.url == Some(s@),
            r@.title == old(self)@.title,
            r@.link == old(self)@.link,
            r@.width == old(self)@.width,
            r@.height == old(self)@.height,
            r@.description == old(self)@.description,
            *final(self) == *final(r),
    {
        self.image.url = Some(value.into());
        self
    }

    /// Sets the description of the image (the HTML `alt` attribute).
    pub fn title<V: Into<String>>(&mut self, value: V) -> (r: &mut ImageBuilder)
        ensures
            exists|s: String| call_ensures(V::into, (value,), s) && r@.title == Some(s@),
            r@.url == old(self)@.url,
            r@.link == old(self)@.link,
            r@.width == old(self)@.width,
            r@.height == old(self)@.height,
            r@.description == old(self)@.description,
            *final(self) == *final(r),
    {
        self.image.title = Some(value.into());
        self
    }

    /// Sets the URL that the image links to.
    pub fn link<V: Into<String>>(&mut self, value: V) -> (r: &mut ImageBuilder)
        ensures
            exists|s: String| call_ensures(V::into, (value,), s) && r@.link == Some(s@),
            r@.url == old(self)@.url,
            r@.title == old(self)@.title,
            r@.width == old(self)@.width,
            r@.height == old(self)@.height,
            r@.description == old(self)@.description,
            *final(self) == *final(r),
    {
        self.image.link = Some(value.into());
        self
    }

    /// Sets the width of the image.
    pub fn width<V: Into<Option<String>>>(&mut self, value: V) -> (r: &mut ImageBuilder)
        ensures
            exists|o: Option<String>| call_ensures(V::into, (value,), o) && r@.width == opt_view(o),
            r@.url == old(self)@.url,
            r@.title == old(self)@.title,
            r@.link == old(self)@.link,
            r@.height == old(self)@.height,
            r@.description == old(self)@.description,
            *final(self) == *final(r),
    {
        self.image.width = value.into();
        self
    }

    /// Sets the height of the image.
    pub fn height<V: Into<Option<String>>>(&mut self, value: V) -> (r: &mut ImageBuilder)
        ensures
            exists|o: Option<String>| call_ensures(V::into, (value,), o) && r@.height == opt_view(o),
            r@.url == old(self)@.url,
            r@.title == old(self)@.title,
            r@.link == old(self)@.link,
            r@.width == old(self)@.width,
            r@.description == old(self)@.description,
            *final(self) == *final(r),
    {
        self.image.height = value.into();
        self
    }

    /// Sets the title for the link formed around the image.
    pub fn description<V: Into<Option<String>>>(&mut self, value: V) -> (r: &mut ImageBuilder)
        ensures
            exists|o: Option<String>| call_ensures(V::into, (value,), o) && r@.description == opt_view(o),
            r@.url == old(self)@.url,
            r@.title == old(self)@.title,
            r@.link == old(self)@.link,
            r@.width == old(self)@.width,
            r@.height == old(self)@.height,
            *final(self) == *final(r),
    {
        self.image.description = value.into();
        self
    }

    /// Builds a new `Image`.
    pub fn build(&self) -> (r: Image)
        ensures
            r@ == self@,
    {
        Image {
            url: clone_opt(&self.image.url),
            title: clone_opt(&self.image.title),
            link: clone_opt(&self.image.link),
            width: clone_opt(&self.image.width),
            height: clone_opt(&self.image.height),
            description: clone_opt(&self.image.description),
        }
    }
}

} // verus!
