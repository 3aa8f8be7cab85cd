use rss::corpus::{
    compare_categories, compare_channel, compare_cloud, compare_guid, compare_image, compare_item, compare_map_str,
    compare_optional_object, compare_source, compare_str, compare_string_array, compare_text_input, mismatch, Category,
    Channel, Cloud, Enclosure, Guid, Item, Source,
};
use rss::json::{json_get, map_get, JsonValue};
use rss::{Image, TextInput};

fn s(text: &str) -> JsonValue {
    JsonValue::String(text.to_string())
}

fn entries(pairs: Vec<(&str, JsonValue)>) -> Vec<(String, JsonValue)> {
    pairs.into_iter().map(|(k, v)| (k.to_string(), v)).collect()
}

fn obj(pairs: Vec<(&str, JsonValue)>) -> JsonValue {
    JsonValue::Object(entries(pairs))
}

fn empty_item() -> Item {
    Item {
        title: None,
        link: None,
        description: None,
        content: None,
        author: None,
        comments: None,
        pub_date: None,
        categories: vec![],
        enclosure: None,
        guid: None,
        source: None,
    }
}

fn channel(title: &str) -> Channel {
    Channel {
        title: title.to_string(),
        link: "http://example.com/".to_string(),
        description: "D".to_string(),
        language: None,
        copyright: None,
        managing_editor: None,
        webmaster: None,
        pub_date: None,
        last_build_date: None,
        generator: None,
        docs: None,
        ttl: None,
        rating: None,
        skip_hours: vec![],
        skip_days: vec![],
        categories: vec![],
        image: None,
        cloud: None,
        text_input: None,
        items: vec![],
    }
}

#[test]
fn mismatch_writes_one_line() {
    let mut out = vec!["before".to_string()];
    mismatch(&mut out, "channel.title", "a", "b");
    assert_eq!(out, vec!["before".to_string(), "channel.title: actual=a expected=b".to_string()]);
}

#[test]
fn compare_str_reports_only_expected_differences() {
    let expected = obj(vec![("title", s("T")), ("ttl", JsonValue::Number("60".into()))]);
    let mut out = Vec::new();
    compare_str(&mut out, "channel.title", Some("T"), &expected, "title");
    assert!(out.is_empty());
    compare_str(&mut out, "channel.title", Some("U"), &expected, "title");
    compare_str(&mut out, "channel.title", None, &expected, "title");
    compare_str(&mut out, "channel.ttl", Some("5"), &expected, "ttl");
    compare_str(&mut out, "channel.docs", Some("x"), &expected, "docs");
    compare_str(&mut out, "channel.title", Some("U"), &s("T"), "title");
    assert_eq!(
        out,
        vec!["channel.title: actual=U expected=T".to_string(), "channel.title: actual= expected=T".to_string()]
    );
}

#[test]
fn compare_map_str_looks_up_entries() {
    let expected = entries(vec![("url", s("u")), ("title", JsonValue::Null)]);
    let mut out = Vec::new();
    compare_map_str(&mut out, "x.url", Some("v"), &expected, "url");
    compare_map_str(&mut out, "x.title", Some("v"), &expected, "title");
    assert_eq!(out, vec!["x.url: actual=v expected=u".to_string()]);
}

#[test]
fn compare_string_array_writes_debug_lists() {
    let expected = obj(vec![(
        "skipHours",
        JsonValue::Array(vec![s("1"), JsonValue::Number("2".into()), s("3\"")]),
    )]);
    let mut out = Vec::new();
    compare_string_array(&mut out, "channel.skipHours", &vec!["1".to_string(), "3\"".to_string()], &expected, "skipHours");
    assert!(out.is_empty());
    compare_string_array(&mut out, "channel.skipHours", &vec!["1".to_string()], &expected, "skipHours");
    compare_string_array(&mut out, "channel.skipDays", &vec!["1".to_string()], &expected, "skipDays");
    assert_eq!(out, vec![r#"channel.skipHours: actual=["1"] expected=["1", "3\""]"#.to_string()]);
}

#[test]
fn compare_optional_object_reports_a_missing_part() {
    let expected = obj(vec![("url", s("u"))]);
    let mut out = Vec::new();
    assert!(compare_optional_object(&mut out, "channel.image", false, Some(&expected)).is_none());
    assert_eq!(out, vec!["channel.image: actual=<missing> expected=<object>".to_string()]);
    let found = compare_optional_object(&mut out, "channel.image", true, Some(&expected)).unwrap();
    assert_eq!(found.len(), 1);
    assert!(compare_optional_object(&mut out, "channel.image", false, Some(&s("u"))).is_none());
    assert!(compare_optional_object(&mut out, "channel.image", false, None).is_none());
    assert_eq!(out.len(), 1);
}

#[test]
fn compare_categories_reports_length_and_pairs() {
    let actual = vec![
        Category { name: "a".into(), domain: None },
        Category { name: "b".into(), domain: Some("d".into()) },
    ];
    let expected = JsonValue::Array(vec![obj(vec![("value", s("a")), ("domain", s("x"))])]);
    let mut out = Vec::new();
    compare_categories(&mut out, "channel.categories", &actual, Some(&expected));
    assert_eq!(
        out,
        vec![
            "channel.categories.length: actual=2 expected=1".to_string(),
            "channel.categories[0].domain: actual= expected=x".to_string(),
        ]
    );
    let mut out = Vec::new();
    compare_categories(&mut out, "channel.categories", &actual, None);
    compare_categories(&mut out, "channel.categories", &actual, Some(&s("a")));
    assert!(out.is_empty());
}

#[test]
fn compare_parts_field_by_field() {
    let mut out = Vec::new();
    let image = Image { url: Some("u".into()), title: None, link: Some("l".into()), ..Image::default() };
    compare_image(&image, &entries(vec![("url", s("u")), ("title", s("T")), ("width", s("8"))]), "channel.image", &mut out);
    let cloud = Cloud {
        domain: "rpc.sys.com".into(),
        port: "80".into(),
        path: "/RPC2".into(),
        register_procedure: "pingMe".into(),
        protocol: "soap".into(),
    };
    compare_cloud(&cloud, &entries(vec![("port", s("81")), ("registerProcedure", s("pingMe"))]), "channel.cloud", &mut out);
    let text_input = TextInput { title: Some("S".into()), ..TextInput::default() };
    compare_text_input(&text_input, &entries(vec![("name", s("q"))]), "channel.textInput", &mut out);
    let guid = Guid { value: "g".into(), permalink: true };
    compare_guid(&guid, &entries(vec![("isPermalink", s("false"))]), "g", &mut out);
    let source = Source { url: "http://s".into(), title: None };
    compare_source(&source, &entries(vec![("title", s("S")), ("url", s("http://s"))]), "src", &mut out);
    assert_eq!(
        out,
        vec![
            "channel.image.title: actual= expected=T".to_string(),
            "channel.image.width: actual= expected=8".to_string(),
            "channel.cloud.port: actual=80 expected=81".to_string(),
            "channel.textInput.name: actual= expected=q".to_string(),
            "g.isPermalink: actual=true expected=false".to_string(),
            "src.title: actual= expected=S".to_string(),
        ]
    );
}

#[test]
fn compare_item_uses_the_index_in_paths() {
    let mut item = empty_item();
    item.title = Some("t".into());
    item.enclosure = Some(Enclosure { url: "e".into(), length: "1".into(), mime_type: "audio/mpeg".into() });
    let expected = obj(vec![
        ("title", s("T")),
        ("enclosure", obj(vec![("type", s("audio/ogg")), ("length", s("1"))])),
        ("guid", obj(vec![])),
    ]);
    let mut out = Vec::new();
    compare_item(&item, &expected, 12, &mut out);
    assert_eq!(
        out,
        vec![
            "channel.items[12].title: actual=t expected=T".to_string(),
            "channel.items[12].enclosure.type: actual=audio/mpeg expected=audio/ogg".to_string(),
            "channel.items[12].guid: actual=<missing> expected=<object>".to_string(),
        ]
    );
}

#[test]
fn compare_channel_in_order() {
    let mut c = channel("Title");
    c.skip_days = vec!["Monday".into()];
    c.items = vec![empty_item(), empty_item()];
    let expected = obj(vec![
        ("title", s("Other")),
        ("skipDays", JsonValue::Array(vec![])),
        ("textInput", obj(vec![])),
        ("items", JsonValue::Array(vec![obj(vec![("author", s("a"))])])),
    ]);
    let mut out = Vec::new();
    compare_channel(&c, &expected, &mut out);
    assert_eq!(
        out,
        vec![
            "channel.title: actual=Title expected=Other".to_string(),
            r#"channel.skipDays: actual=["Monday"] expected=[]"#.to_string(),
            "channel.textInput: actual=<missing> expected=<object>".to_string(),
            "channel.items.length: actual=2 expected=1".to_string(),
            "channel.items[0].author: actual= expected=a".to_string(),
        ]
    );
    let mut out = Vec::new();
    compare_channel(&channel("Title"), &obj(vec![("title", s("Title"))]), &mut out);
    assert!(out.is_empty());
}

#[test]
fn json_lookups() {
    let v = obj(vec![("a", s("1")), ("b", JsonValue::Bool(true))]);
    assert!(matches!(json_get(&v, "b"), Some(JsonValue::Bool(true))));
    assert!(json_get(&v, "c").is_none());
    assert!(json_get(&s("a"), "a").is_none());
    assert!(matches!(map_get(&entries(vec![("k", JsonValue::Null)]), "k"), Some(JsonValue::Null)));
}
