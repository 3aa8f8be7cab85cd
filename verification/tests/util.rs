use quick_xml::Reader;
use rss::util::{element_text, read_element_events};
use rss::context::ReadContext;
use rss::{Error, XmlEvent};

#[test]
fn element_text_reads_to_the_end_tag() {
    let mut reader = Reader::from_str("<a> x <b>y</b>&amp;z </a><c/>");
    reader.read_event().unwrap();
    assert_eq!(element_text(&mut reader, &ReadContext::new()).unwrap(), Some("x &z".to_string()));
    let mut reader = Reader::from_str("<a>  </a>");
    reader.read_event().unwrap();
    assert_eq!(element_text(&mut reader, &ReadContext::new()).unwrap(), None);
}

#[test]
fn element_events_stop_at_the_closing_tag() {
    let mut reader = Reader::from_str("<a><b>t</b></a><c/>");
    reader.read_event().unwrap();
    let evs = read_element_events(&mut reader).unwrap();
    assert_eq!(
        evs,
        vec![
            XmlEvent::Start("b".into(), Some(vec![])),
            XmlEvent::Text("t".into()),
            XmlEvent::End("b".into()),
            XmlEvent::End("a".into()),
        ]
    );
    let mut reader = Reader::from_str("<a>t");
    reader.read_event().unwrap();
    assert_eq!(read_element_events(&mut reader).unwrap(), vec![XmlEvent::Text("t".into()), XmlEvent::Eof]);
}

#[test]
fn reader_errors_are_reported() {
    let mut reader = Reader::from_str("<a></b>");
    reader.read_event().unwrap();
    assert!(matches!(read_element_events(&mut reader), Err(Error::Xml(_))));
}

#[test]
fn element_text_uses_the_declared_entities() {
    let mut context = ReadContext::new();
    context.declare_entity("project", "RSS");
    let mut reader = Reader::from_str("<title>&project;</title>");
    reader.read_event().unwrap();
    assert_eq!(element_text(&mut reader, &context).unwrap(), Some("RSS".to_string()));
    let mut reader = Reader::from_str("<title>&notDeclared;</title>");
    reader.read_event().unwrap();
    assert!(matches!(element_text(&mut reader, &context), Err(Error::Xml(_))));
}
