use quick_xml::events::{BytesStart, Event};
use quick_xml::Reader;
use rss::context::ReadContext;
use rss::{Error, TextInput, TextInputBuilder};

fn read_text_input(xml: &str) -> Result<TextInput, Error> {
    let mut reader = Reader::from_str(xml);
    match reader.read_event().unwrap() {
        Event::Start(_) => {}
        other => panic!("expected a start tag, got {:?}", other),
    }
    let tag = BytesStart::new("textInput");
    TextInput::from_xml(&mut reader, tag.attributes(), &ReadContext::new())
}

fn written(t: &TextInput) -> String {
    let mut out = Vec::new();
    t.to_xml(&mut out).unwrap();
    String::from_utf8(out).unwrap()
}

#[test]
fn text_input_title_getter_and_setter() {
    let mut text_input = TextInput::default();
    text_input.set_title("Input Title");
    assert_eq!(text_input.title(), Some("Input Title"));
}

#[test]
fn text_input_description_getter_and_setter() {
    let mut text_input = TextInput::default();
    text_input.set_description("Input description");
    assert_eq!(text_input.description(), Some("Input description"));
}

#[test]
fn text_input_name_getter_and_setter() {
    let mut text_input = TextInput::default();
    text_input.set_name("Input name");
    assert_eq!(text_input.name(), Some("Input name"));
}

#[test]
fn text_input_link_getter_and_setter() {
    let mut text_input = TextInput::default();
    text_input.set_link("http://example.com/submit");
    assert_eq!(text_input.link(), Some("http://example.com/submit"));
}

#[test]
fn text_input_builder() {
    let t = TextInputBuilder::default().title("Search").name("query").build();
    assert_eq!(
        t,
        TextInput { title: Some("Search".into()), description: None, name: Some("query".into()), link: None }
    );
}

#[test]
fn reads_a_text_input() {
    let t = read_text_input(
        "<textInput><title>Search</title><description></description><name> q </name><link/><link>http://example.com/search</link><x/></textInput>",
    )
    .unwrap();
    assert_eq!(
        t,
        TextInput {
            title: Some("Search".into()),
            description: Some("".into()),
            name: Some("q".into()),
            link: Some("http://example.com/search".into()),
        }
    );
}

#[test]
fn a_text_input_without_end_fails() {
    assert!(matches!(read_text_input("<textInput><title>x</title>"), Err(Error::Eof)));
}

#[test]
fn writes_a_text_input() {
    let t = TextInput { title: Some("S & S".into()), description: None, name: Some("q".into()), link: None };
    assert_eq!(written(&t), "<textInput><title>S &amp; S</title><name>q</name></textInput>");
    assert_eq!(read_text_input(&written(&t)).unwrap(), t);
}

#[test]
fn text_input_illegal_characters_are_not_written() {
    let t = TextInput { name: Some("a\u{0}".into()), ..TextInput::default() };
    assert!(matches!(t.to_xml(&mut Vec::new()), Err(Error::InvalidCharacter('\u{0}'))));
}
