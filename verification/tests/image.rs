use quick_xml::events::{BytesStart, Event};
use quick_xml::Reader;
use rss::XmlEvent::{End, Eof, Start, Text};
use rss::context::ReadContext;
use rss::dtd::doctype_entities;
use rss::{Error, Image, ImageBuilder};

fn read_image(xml: &str) -> Result<Image, Error> {
    let mut reader = Reader::from_str(xml);
    match reader.read_event().unwrap() {
        Event::Start(_) => {}
        other => panic!("expected a start tag, got {:?}", other),
    }
    let tag = BytesStart::new("image");
    Image::from_xml(&mut reader, tag.attributes(), &ReadContext::new())
}

fn read_image_in(xml: &str, context: &ReadContext) -> Result<Image, Error> {
    let mut reader = Reader::from_str(xml);
    match reader.read_event().unwrap() {
        Event::Start(_) => {}
        other => panic!("expected a start tag, got {:?}", other),
    }
    let tag = BytesStart::new("image");
    Image::from_xml(&mut reader, tag.attributes(), context)
}

fn written(image: &Image) -> String {
    let mut out = Vec::new();
    image.to_xml(&mut out).unwrap();
    String::from_utf8(out).unwrap()
}

#[test]
fn url_getter_and_setter() {
    let mut image = Image::default();
    image.set_url("http://example.com/image.png");
    assert_eq!(image.url(), Some("http://example.com/image.png"));
    image.set_url("http://example.com/other.png".to_string());
    assert_eq!(image.url(), Some("http://example.com/other.png"));
}

#[test]
fn title_getter_and_setter() {
    let mut image = Image::default();
    image.set_title("Example image");
    assert_eq!(image.title(), Some("Example image"));
}

#[test]
fn link_getter_and_setter() {
    let mut image = Image::default();
    image.set_link("http://example.com");
    assert_eq!(image.link(), Some("http://example.com"));
}

#[test]
fn width_getter_and_setter() {
    let mut image = Image::default();
    image.set_width("80".to_string());
    assert_eq!(image.width(), Some("80"));
    image.set_width(None);
    assert_eq!(image.width(), None);
}

#[test]
fn height_getter_and_setter() {
    let mut image = Image::default();
    image.set_height("31".to_string());
    assert_eq!(image.height(), Some("31"));
}

#[test]
fn description_getter_and_setter() {
    let mut image = Image::default();
    image.set_description("Example Title".to_string());
    assert_eq!(image.description(), Some("Example Title"));
}

#[test]
fn setters_leave_other_fields() {
    let mut image = Image::default();
    image.set_url("u");
    image.set_title("t");
    assert_eq!(image.url(), Some("u"));
    assert_eq!(image.link(), None);
    assert_eq!(image.height(), None);
}

#[test]
fn builder_builds_the_set_fields() {
    let image = ImageBuilder::default()
        .url("http://example.com/image.png")
        .title("Image")
        .link("http://example.com/")
        .height(Some("31".to_string()))
        .build();
    assert_eq!(
        image,
        Image {
            url: Some("http://example.com/image.png".to_string()),
            title: Some("Image".to_string()),
            link: Some("http://example.com/".to_string()),
            width: None,
            height: Some("31".to_string()),
            description: None,
        }
    );
    assert_eq!(ImageBuilder::default().build(), Image::default());
}

#[test]
fn reads_the_children_trimmed() {
    let image = read_image(
        "<image><url> http://example.com/a.png </url><title>A &amp; B</title>\
         <link>http://example.com</link><width>88</width><height>\n31\n</height>\
         <description>Desc</description></image>",
    )
    .unwrap();
    assert_eq!(image.url(), Some("http://example.com/a.png"));
    assert_eq!(image.title(), Some("A & B"));
    assert_eq!(image.link(), Some("http://example.com"));
    assert_eq!(image.width(), Some("88"));
    assert_eq!(image.height(), Some("31"));
    assert_eq!(image.description(), Some("Desc"));
}

#[test]
fn empty_children_keep_or_drop_their_text() {
    let image = read_image(
        "<image><url></url><title>  </title><link/><width></width><height> </height><description/></image>",
    )
    .unwrap();
    assert_eq!(image.url(), Some(""));
    assert_eq!(image.title(), Some(""));
    assert_eq!(image.link(), None);
    assert_eq!(image.width(), None);
    assert_eq!(image.height(), None);
    assert_eq!(image.description(), None);
}

#[test]
fn unknown_and_nested_children_are_skipped() {
    let image = read_image(
        "<image><foo><url>no</url><foo>x</foo></foo><url>a<b>skipped</b>c</url><!-- note --></image>",
    )
    .unwrap();
    assert_eq!(image.url(), Some("ac"));
    assert_eq!(image.title(), None);
}

#[test]
fn the_last_child_of_a_name_wins() {
    let image = read_image("<image><title>one</title><title>two</title></image>").unwrap();
    assert_eq!(image.title(), Some("two"));
}

#[test]
fn references_and_cdata() {
    let image = read_image(
        "<image><title>&lt;&#x41;&#66;&quot;&apos;&gt;<![CDATA[<raw>]]></title></image>",
    )
    .unwrap();
    assert_eq!(image.title(), Some("<AB\"'><raw>"));
}

#[test]
fn a_character_reference_to_no_character_fails() {
    assert!(matches!(read_image("<image><title>&#0;</title></image>"), Err(Error::Xml(_))));
    assert!(matches!(read_image("<image><title>&#xD800;</title></image>"), Err(Error::Xml(_))));
    assert!(matches!(read_image("<image><title>&#-1;</title></image>"), Err(Error::Xml(_))));
}

#[test]
fn the_end_of_input_inside_the_image_fails() {
    assert!(matches!(read_image("<image><url>u</url>"), Err(Error::Eof)));
    assert!(matches!(read_image("<image><url>u"), Err(Error::Eof)));
}

#[test]
fn an_unclosed_unknown_child_fails() {
    assert!(matches!(read_image("<image><foo>"), Err(Error::Xml(_))));
}

#[test]
fn malformed_xml_fails() {
    assert!(matches!(read_image("<image><url>u</link></image>"), Err(Error::Xml(_))));
}

#[test]
fn writes_set_fields_in_order() {
    let image = Image {
        url: Some("u".into()),
        title: None,
        link: Some("l".into()),
        width: Some("1".into()),
        height: None,
        description: Some("d".into()),
    };
    assert_eq!(
        written(&image),
        "<image><url>u</url><link>l</link><width>1</width><description>d</description></image>"
    );
    assert_eq!(written(&Image::default()), "<image></image>");
}

#[test]
fn writes_escaped_text() {
    let image = Image { title: Some("a<b>&'\"\r".into()), ..Image::default() };
    assert_eq!(written(&image), "<image><title>a&lt;b&gt;&amp;&apos;&quot;&#13;</title></image>");
}

#[test]
fn written_images_read_back_trimmed() {
    let image = Image {
        url: Some(" http://example.com/<a>.png ".into()),
        title: Some("A & \"B\"".into()),
        link: Some("".into()),
        width: Some("  ".into()),
        height: Some("31".into()),
        description: None,
    };
    let xml = written(&image);
    let back = read_image(&xml).unwrap();
    assert_eq!(
        back,
        Image {
            url: Some("http://example.com/<a>.png".into()),
            title: Some("A & \"B\"".into()),
            link: Some("".into()),
            width: None,
            height: Some("31".into()),
            description: None,
        }
    );
}

#[test]
fn events_after_the_start_tag() {
    let evs = vec![
        Start("url".into(), Some(vec![])),
        Text(" a ".into()),
        End("url".into()),
        Start("width".into(), Some(vec![])),
        End("width".into()),
        End("image".into()),
    ];
    let image = Image::from_events(&evs, &ReadContext::new()).unwrap();
    assert_eq!(image.url(), Some("a"));
    assert_eq!(image.width(), None);
    assert!(matches!(Image::from_events(&[Start("url".into(), Some(vec![])), Eof], &ReadContext::new()), Err(Error::Eof)));
}

#[test]
fn escaped_characters_read_back() {
    let image = Image { title: Some("a\rb<c>&d'e\"f".into()), url: Some("".into()), ..Image::default() };
    let xml = written(&image);
    assert_eq!(xml, "<image><url></url><title>a&#13;b&lt;c&gt;&amp;d&apos;e&quot;f</title></image>");
    assert_eq!(read_image(&xml).unwrap(), image);
}

#[test]
fn undeclared_entities_are_rejected() {
    assert!(matches!(read_image("<image><title>&notDeclared;</title></image>"), Err(Error::Xml(_))));
    assert!(matches!(read_image("<image><x>&notDeclared;</x></image>"), Ok(_)));
}

#[test]
fn declared_entities_are_expanded() {
    let mut context = ReadContext::new();
    context.declare_doctype("rss [<!ENTITY project \"RSS\"> <!ENTITY % p 'x'> <!ENTITY e SYSTEM \"u\"> <!ENTITY project 'Other'>]");
    let image = read_image_in("<image><title>&project; feed</title></image>", &context).unwrap();
    assert_eq!(image.title(), Some("RSS feed"));
    assert!(matches!(read_image_in("<image><title>&e;</title></image>", &context), Err(Error::Xml(_))));
}

#[test]
fn doctype_entities_are_read() {
    assert_eq!(
        doctype_entities("rss [<!ENTITY project \"RSS\"><!ENTITY  q  'a \"b\"' ><!ENTITY % p 'x'><!ENTITY e SYSTEM \"u\">]"),
        vec![("project".to_string(), "RSS".to_string()), ("q".to_string(), "a \"b\"".to_string())]
    );
    assert!(doctype_entities("rss").is_empty());
    assert!(doctype_entities("<!ENTITY x \"unterminated>").is_empty());
}

#[test]
fn rss1_prefixes_are_matched_by_namespace() {
    let mut context = ReadContext::new();
    context.bind_namespace("xmlns:rdf", "http://www.w3.org/1999/02/22-rdf-syntax-ns#");
    context.bind_namespace("xmlns:r", "http://purl.org/rss/1.0/");
    context.bind_namespace("r", "http://purl.org/rss/1.0/");
    assert_eq!(context.rss_prefixes, vec!["r".to_string()]);
    let xml = "<r:image><r:url>u</r:url><dc:title>t</dc:title><rdf:link>l</rdf:link><r:link>k</r:link></r:image>";
    let image = read_image_in(xml, &context).unwrap();
    assert_eq!(image.url(), Some("u"));
    assert_eq!(image.title(), None);
    assert_eq!(image.link(), Some("k"));
    let plain = read_image(xml).unwrap();
    assert_eq!(plain.url(), None);
    assert_eq!(plain.link(), None);
}

#[test]
fn illegal_characters_are_not_written() {
    let image = Image { url: Some("u".into()), title: Some("bad\u{8}title".into()), link: Some("\u{1}".into()), ..Image::default() };
    let mut out = b"kept".to_vec();
    assert!(matches!(image.to_xml(&mut out), Err(Error::InvalidCharacter('\u{8}'))));
    assert_eq!(out, b"kept".to_vec());
    let image = Image { description: Some("\u{FFFE}".into()), ..Image::default() };
    assert!(matches!(image.to_xml(&mut Vec::new()), Err(Error::InvalidCharacter('\u{FFFE}'))));
    let image = Image { title: Some("tab\there\u{10000}".into()), ..Image::default() };
    assert!(image.to_xml(&mut Vec::new()).is_ok());
}

#[test]
fn prefixes_bound_on_the_element_itself() {
    let xml = r#"<r:image xmlns:r="http://purl.org/rss/1.0/" xmlns:o="http://example.com/"><r:title>T</r:title><o:url>x</o:url></r:image>"#;
    let mut reader = Reader::from_str(xml);
    let start = match reader.read_event().unwrap() {
        Event::Start(e) => e.into_owned(),
        other => panic!("expected a start tag, got {:?}", other),
    };
    let image = Image::from_xml(&mut reader, start.attributes(), &ReadContext::new()).unwrap();
    assert_eq!(image.title(), Some("T"));
    assert_eq!(image.url(), None);
}

#[test]
fn a_child_that_rebinds_a_prefix_is_skipped() {
    let mut context = ReadContext::new();
    context.bind_namespace("xmlns:a", "http://purl.org/rss/1.0/");
    let xml = r#"<image><a:url xmlns:a="urn:x">no</a:url><a:title>T</a:title><b:link xmlns:b="http://purl.org/rss/1.0/">L</b:link></image>"#;
    let image = read_image_in(xml, &context).unwrap();
    assert_eq!(image.url(), None);
    assert_eq!(image.title(), Some("T"));
    assert_eq!(image.link(), Some("L"));
    context.bind_namespace("xmlns:a", "urn:y");
    assert!(context.rss_prefixes.is_empty());
}

#[test]
fn malformed_attributes_are_ignored() {
    let xml = r#"<r:image xmlns:r="http://purl.org/rss/1.0/" x="1" x="2"><r:url>u</r:url><url>v</url></r:image>"#;
    let mut reader = Reader::from_str(xml);
    let start = match reader.read_event().unwrap() {
        Event::Start(e) => e.into_owned(),
        other => panic!("expected a start tag, got {:?}", other),
    };
    let image = Image::from_xml(&mut reader, start.attributes(), &ReadContext::new()).unwrap();
    assert_eq!(image.url(), Some("v"));
}

#[test]
fn entity_values_resolve_character_references() {
    assert_eq!(
        doctype_entities("rss [<!ENTITY nbsp \"&#160;\"><!ENTITY both 'a&amp;b&#x41;'><!ENTITY other \"x&y;z\"><!ENTITY bad \"&#0;\"><!ENTITY open \"a&b\">]"),
        vec![
            ("nbsp".to_string(), "\u{A0}".to_string()),
            ("both".to_string(), "a&bA".to_string()),
            ("other".to_string(), "x&y;z".to_string()),
            ("open".to_string(), "a&b".to_string()),
        ]
    );
}
