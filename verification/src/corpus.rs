//! Comparing a parsed channel with the expectations of a test corpus: each
//! field that the corpus expects is compared with the parsed one, and every
//! difference is reported as a line `path: actual=... expected=...`.

use crate::image::Image;
use crate::json::{entry_value, json_get, json_get_spec, map_get, JsonValue};
use crate::text::{
    decimal, decimal_string, has_prefix, join2, opt_as_str, opt_str_view, opt_view, push_str, strings_view,
};
use crate::textinput::TextInput;
use crate::xml::str_eq;
use vstd::prelude::*;

verus! {

/// A category of a channel or an item.
pub struct Category {
    pub name: String,
    pub domain: Option<String>,
}

/// The cloud of a channel.
pub struct Cloud {
    pub domain: String,
    pub port: String,
    pub path: String,
    pub register_procedure: String,
    pub protocol: String,
}

/// The enclosure of an item.
pub struct Enclosure {
    pub url: String,
    pub length: String,
    pub mime_type: String,
}

/// The GUID of an item.
pub struct Guid {
    pub value: String,
    pub permalink: bool,
}

/// The source of an item.
pub struct Source {
    pub url: String,
    pub title: Option<String>,
}

/// The fields of an item that the comparison reads.
pub struct Item {
    pub title: Option<String>,
    pub link: Option<String>,
    pub description: Option<String>,
    pub content: Option<String>,
    pub author: Option<String>,
    pub comments: Option<String>,
    pub pub_date: Option<String>,
    pub categories: Vec<Category>,
    pub enclosure: Option<Enclosure>,
    pub guid: Option<Guid>,
    pub source: Option<Source>,
}

/// The fields of a channel that the comparison reads.
pub struct Channel {
    pub title: String,
    pub link: String,
    pub description: String,
    pub language: Option<String>,
    pub copyright: Option<String>,
    pub managing_editor: Option<String>,
    pub webmaster: Option<String>,
    pub pub_date: Option<String>,
    pub last_build_date: Option<String>,
    pub generator: Option<String>,
    pub docs: Option<String>,
    pub ttl: Option<String>,
    pub rating: Option<String>,
    pub skip_hours: Vec<String>,
    pub skip_days: Vec<String>,
    pub categories: Vec<Category>,
    pub image: Option<Image>,
    pub cloud: Option<Cloud>,
    pub text_input: Option<TextInput>,
    pub items: Vec<Item>,
}

/// The line that reports a difference.
pub open spec fn mismatch_text(path: Seq<char>, actual: Seq<char>, expected: Seq<char>) -> Seq<char> {
    path + ": actual="@ + actual + " expected="@ + expected
}

/// Reports a difference: appends `path: actual=... expected=...` to `out`.
pub fn mismatch(out: &mut Vec<String>, path: &str, actual: &str, expected: &str)
    ensures
        strings_view(final(out)@) == strings_view(old(out)@).push(mismatch_text(path@, actual@, expected@)),
{
    let mut line = String::new();
    push_str(&mut line, path);
    push_str(&mut line, ": actual=");
    push_str(&mut line, actual);
    push_str(&mut line, " expected=");
    push_str(&mut line, expected);
    assert(line@ =~= mismatch_text(path@, actual@, expected@));
    let ghost before = out@;
    out.push(line);
    assert(strings_view(out@) =~= strings_view(before).push(mismatch_text(path@, actual@, expected@)));
}

/// Appending to a report in two steps is appending the two parts at once.
proof fn lemma_extend(before: Seq<Seq<char>>, acc: Seq<Seq<char>>, next: Seq<Seq<char>>)
    ensures
        (before + acc) + next == before + (acc + next),
{
    vstd::seq_lib::lemma_concat_associative(before, acc, next);
}

/// The text of an optional text, empty if there is none.
pub open spec fn or_empty(o: Option<Seq<char>>) -> Seq<char> {
    match o {
        Some(s) => s,
        None => seq![],
    }
}

/// The report of comparing a text (none counting as empty) with the string
/// that the corpus expects, if it expects one.
pub open spec fn text_messages(path: Seq<char>, actual: Option<Seq<char>>, expected: Option<JsonValue>) -> Seq<Seq<char>> {
    match expected {
        Some(JsonValue::String(e)) => if or_empty(actual) != e@ {
            seq![mismatch_text(path, or_empty(actual), e@)]
        } else {
            seq![]
        },
        _ => seq![],
    }
}

fn compare_text(out: &mut Vec<String>, path: &str, actual: Option<&str>, expected: Option<&JsonValue>)
    ensures
        strings_view(final(out)@) == strings_view(old(out)@) + text_messages(
            path@,
            opt_str_view(actual),
            match expected {
                Some(e) => Some(*e),
                None => None,
            },
        ),
{
    proof {
        reveal_strlit("");
    }
    let ghost before = strings_view(out@);
    match expected {
        Some(JsonValue::String(e)) => {
            let a = match actual {
                Some(a) => a,
                None => "",
            };
            assert(a@ == or_empty(opt_str_view(actual)));
            if !str_eq(a, e.as_str()) {
                mismatch(out, path, a, e.as_str());
                assert(strings_view(out@) =~= before + seq![mismatch_text(path@, a@, e@)]);
            } else {
                assert(strings_view(out@) =~= before + seq![]);
            }
        },
        _ => {
            assert(strings_view(out@) =~= before + seq![]);
        },
    }
}

/// Compares a text with the string that the JSON object `expected` holds
/// under `key`, if it holds one there.
pub fn compare_str(out: &mut Vec<String>, path: &str, actual: Option<&str>, expected: &JsonValue, key: &str)
    ensures
        strings_view(final(out)@) == strings_view(old(out)@) + text_messages(
            path@,
            opt_str_view(actual),
            json_get_spec(*expected, key@),
        ),
{
    compare_text(out, path, actual, json_get(expected, key));
}

/// Compares a text with the string that the entries `expected` hold under
/// `key`, if they hold one there.
pub fn compare_map_str(
    out: &mut Vec<String>,
    path: &str,
    actual: Option<&str>,
    expected: &Vec<(String, JsonValue)>,
    key: &str,
)
    ensures
        strings_view(final(out)@) == strings_view(old(out)@) + text_messages(
            path@,
            opt_str_view(actual),
            entry_value(expected@, key@, 0),
        ),
{
    compare_text(out, path, actual, map_get(expected, key));
}

/// How `Debug` writes a list of strings, such as `["a", "b"]`.
pub uninterp spec fn debug_str_list(items: Seq<Seq<char>>) -> Seq<char>;

/// Writes a list of strings as `Debug` does.
///
/// Calls `format!("{:?}", ..)` on the list: brackets, `, ` between items, and
/// each item quoted and escaped as `str::escape_debug` does. The result is
/// named, not spelled out.
#[verifier::external_body]
fn debug_list(items: &Vec<String>) -> (r: String)
    ensures
        r@ == debug_str_list(strings_view(items@)),
{
    format!("{:?}", items)
}

/// The strings among JSON values, in order; other values are left out.
pub open spec fn json_strings(items: Seq<JsonValue>) -> Seq<Seq<char>>
    decreases items.len(),
{
    if items.len() == 0 {
        seq![]
    } else {
        let rest = json_strings(items.drop_last());
        match items.last() {
            JsonValue::String(s) => rest.push(s@),
            _ => rest,
        }
    }
}

/// The report of comparing a list of strings with the strings of the array
/// that the corpus expects under `key`, if it expects an array.
pub open spec fn string_array_messages(path: Seq<char>, actual: Seq<Seq<char>>, expected: Option<JsonValue>) -> Seq<Seq<char>> {
    match expected {
        Some(JsonValue::Array(items)) => if actual != json_strings(items@) {
            seq![mismatch_text(path, debug_str_list(actual), debug_str_list(json_strings(items@)))]
        } else {
            seq![]
        },
        _ => seq![],
    }
}

/// Compares a list of strings with the strings of the array that the JSON
/// object `expected` holds under `key`, if it holds an array there.
pub fn compare_string_array(out: &mut Vec<String>, path: &str, actual: &Vec<String>, expected: &JsonValue, key: &str)
    ensures
        strings_view(final(out)@) == strings_view(old(out)@) + string_array_messages(
            path@,
            strings_view(actual@),
            json_get_spec(*expected, key@),
        ),
{
    let ghost before = strings_view(out@);
    match json_get(expected, key) {
        Some(JsonValue::Array(items)) => {
            let mut wanted: Vec<String> = Vec::new();
            let mut i: usize = 0;
            while i < items.len()
                invariant
                    i <= items@.len(),
                    strings_view(wanted@) == json_strings(items@.take(i as int)),
                decreases items@.len() - i,
            {
                assert(items@.take(i + 1).drop_last() =~= items@.take(i as int));
                match &items[i] {
                    JsonValue::String(s) => {
                        let ghost w = wanted@;
                        wanted.push(s.clone());
                        assert(strings_view(wanted@) =~= strings_view(w).push(s@));
                    },
                    _ => {},
                }
                i = i + 1;
            }
            assert(items@.take(items@.len() as int) =~= items@);
            let same = strings_equal(actual, &wanted);
            if !same {
                let a = debug_list(actual);
                let w = debug_list(&wanted);
                mismatch(out, path, a.as_str(), w.as_str());
            } else {
                assert(strings_view(out@) =~= before + seq![]);
            }
        },
        _ => {
            assert(strings_view(out@) =~= before + seq![]);
        },
    }
}

/// Whether two lists of strings are equal.
fn strings_equal(a: &Vec<String>, b: &Vec<String>) -> (r: bool)
    ensures
        r == (strings_view(a@) == strings_view(b@)),
{
    if a.len() != b.len() {
        assert(strings_view(a@).len() != strings_view(b@).len());
        return false;
    }
    let mut i: usize = 0;
    while i < a.len()
        invariant
            i <= a@.len(),
            a@.len() == b@.len(),
            forall|k: int| 0 <= k < i ==> a@[k]@ == b@[k]@,
        decreases a@.len() - i,
    {
        if !str_eq(a[i].as_str(), b[i].as_str()) {
            assert(strings_view(a@)[i as int] != strings_view(b@)[i as int]);
            return false;
        }
        i = i + 1;
    }
    assert(strings_view(a@) =~= strings_view(b@));
    true
}

/// The line that reports an expected object that is missing.
pub open spec fn missing_object_text(path: Seq<char>) -> Seq<char> {
    path + ": actual=<missing> expected=<object>"@
}

/// The report of an optional part, by whether it is there and what the
/// corpus expects of it: a line if an object is expected and the part is
/// missing, nothing else.
pub open spec fn object_messages(path: Seq<char>, present: bool, expected: Option<JsonValue>) -> Seq<Seq<char>> {
    match expected {
        Some(JsonValue::Object(_)) => if present {
            seq![]
        } else {
            seq![missing_object_text(path)]
        },
        _ => seq![],
    }
}

/// Checks an optional part against what the corpus expects of it. Returns
/// the expected object when there is one and the part is there, to be
/// compared field by field; reports the part as missing when an object is
/// expected and the part is not there.
pub fn compare_optional_object<'a>(
    out: &mut Vec<String>,
    path: &str,
    present: bool,
    expected: Option<&'a JsonValue>,
) -> (r: Option<&'a Vec<(String, JsonValue)>>)
    ensures
        strings_view(final(out)@) == strings_view(old(out)@) + object_messages(
            path@,
            present,
            match expected {
                Some(e) => Some(*e),
                None => None,
            },
        ),
        match r {
            Some(m) => present && (expected matches Some(e) && *e == JsonValue::Object(*m)),
            None => !(present && (expected matches Some(e) && *e is Object)),
        },
{
    let ghost before = strings_view(out@);
    match expected {
        Some(JsonValue::Object(m)) => {
            if present {
                assert(strings_view(out@) =~= before + seq![]);
                Some(m)
            } else {
                let mut line = String::new();
                push_str(&mut line, path);
                push_str(&mut line, ": actual=<missing> expected=<object>");
                assert(line@ =~= missing_object_text(path@));
                let ghost v = out@;
                out.push(line);
                assert(strings_view(out@) =~= before + seq![missing_object_text(path@)]);
                None
            }
        },
        _ => {
            assert(strings_view(out@) =~= before + seq![]);
            None
        },
    }
}

/// The report of comparing an image with the expected entries.
pub open spec fn image_messages(a: Image, m: Seq<(String, JsonValue)>, base: Seq<char>) -> Seq<Seq<char>> {
    text_messages(base + ".url"@, opt_view(a.url), entry_value(m, "url"@, 0))
        + text_messages(base + ".link"@, opt_view(a.link), entry_value(m, "link"@, 0))
        + text_messages(base + ".title"@, opt_view(a.title), entry_value(m, "title"@, 0))
        + text_messages(base + ".width"@, opt_view(a.width), entry_value(m, "width"@, 0))
        + text_messages(base + ".height"@, opt_view(a.height), entry_value(m, "height"@, 0))
        + text_messages(base + ".description"@, opt_view(a.description), entry_value(m, "description"@, 0))
}

/// Compares an image with the expected entries: URL, link, title, width,
/// height and description.
pub fn compare_image(actual: &Image, expected: &Vec<(String, JsonValue)>, base: &str, out: &mut Vec<String>)
    ensures
        strings_view(final(out)@) == strings_view(old(out)@) + image_messages(*actual, expected@, base@),
{
    let ghost before = strings_view(out@);
    compare_map_str(out, join2(base, ".url").as_str(), opt_as_str(&actual.url), expected, "url");
    compare_map_str(out, join2(base, ".link").as_str(), opt_as_str(&actual.link), expected, "link");
    compare_map_str(out, join2(base, ".title").as_str(), opt_as_str(&actual.title), expected, "title");
    compare_map_str(out, join2(base, ".width").as_str(), opt_as_str(&actual.width), expected, "width");
    compare_map_str(out, join2(base, ".height").as_str(), opt_as_str(&actual.height), expected, "height");
    compare_map_str(out, join2(base, ".description").as_str(), opt_as_str(&actual.description), expected, "description");
    assert(strings_view(out@) =~= before + image_messages(*actual, expected@, base@));
}

/// The report of comparing a cloud with the expected entries.
pub open spec fn cloud_messages(a: Cloud, m: Seq<(String, JsonValue)>, base: Seq<char>) -> Seq<Seq<char>> {
    text_messages(base + ".domain"@, Some(a.domain@), entry_value(m, "domain"@, 0))
        + text_messages(base + ".port"@, Some(a.port@), entry_value(m, "port"@, 0))
        + text_messages(base + ".path"@, Some(a.path@), entry_value(m, "path"@, 0))
        + text_messages(base + ".registerProcedure"@, Some(a.register_procedure@), entry_value(m, "registerProcedure"@, 0))
        + text_messages(base + ".protocol"@, Some(a.protocol@), entry_value(m, "protocol"@, 0))
}

/// Compares a cloud with the expected entries: domain, port, path,
/// registered procedure and protocol.
pub fn compare_cloud(actual: &Cloud, expected: &Vec<(String, JsonValue)>, base: &str, out: &mut Vec<String>)
    ensures
        strings_view(final(out)@) == strings_view(old(out)@) + cloud_messages(*actual, expected@, base@),
{
    let ghost before = strings_view(out@);
    compare_map_str(out, join2(base, ".domain").as_str(), Some(actual.domain.as_str()), expected, "domain");
    compare_map_str(out, join2(base, ".port").as_str(), Some(actual.port.as_str()), expected, "port");
    compare_map_str(out, join2(base, ".path").as_str(), Some(actual.path.as_str()), expected, "path");
    compare_map_str(
        out,
        join2(base, ".registerProcedure").as_str(),
        Some(actual.register_procedure.as_str()),
        expected,
        "registerProcedure",
    );
    compare_map_str(out, join2(base, ".protocol").as_str(), Some(actual.protocol.as_str()), expected, "protocol");
    assert(strings_view(out@) =~= before + cloud_messages(*actual, expected@, base@));
}

/// The report of comparing a text input with the expected entries.
pub open spec fn text_input_messages(a: TextInput, m: Seq<(String, JsonValue)>, base: Seq<char>) -> Seq<Seq<char>> {
    text_messages(base + ".title"@, opt_view(a.title), entry_value(m, "title"@, 0))
        + text_messages(base + ".description"@, opt_view(a.description), entry_value(m, "description"@, 0))
        + text_messages(base + ".name"@, opt_view(a.name), entry_value(m, "name"@, 0))
        + text_messages(base + ".link"@, opt_view(a.link), entry_value(m, "link"@, 0))
}

/// Compares a text input with the expected entries: title, description,
/// name and link.
pub fn compare_text_input(actual: &TextInput, expected: &Vec<(String, JsonValue)>, base: &str, out: &mut Vec<String>)
    ensures
        strings_view(final(out)@) == strings_view(old(out)@) + text_input_messages(*actual, expected@, base@),
{
    let ghost before = strings_view(out@);
    compare_map_str(out, join2(base, ".title").as_str(), opt_as_str(&actual.title), expected, "title");
    compare_map_str(out, join2(base, ".description").as_str(), opt_as_str(&actual.description), expected, "description");
    compare_map_str(out, join2(base, ".name").as_str(), opt_as_str(&actual.name), expected, "name");
    compare_map_str(out, join2(base, ".link").as_str(), opt_as_str(&actual.link), expected, "link");
    assert(strings_view(out@) =~= before + text_input_messages(*actual, expected@, base@));
}

/// The report of comparing an enclosure with the expected entries.
pub open spec fn enclosure_messages(a: Enclosure, m: Seq<(String, JsonValue)>, base: Seq<char>) -> Seq<Seq<char>> {
    text_messages(base + ".url"@, Some(a.url@), entry_value(m, "url"@, 0))
        + text_messages(base + ".length"@, Some(a.length@), entry_value(m, "length"@, 0))
        + text_messages(base + ".type"@, Some(a.mime_type@), entry_value(m, "type"@, 0))
}

/// Compares an enclosure with the expected entries: URL, length and type.
pub fn compare_enclosure(actual: &Enclosure, expected: &Vec<(String, JsonValue)>, base: &str, out: &mut Vec<String>)
    ensures
        strings_view(final(out)@) == strings_view(old(out)@) + enclosure_messages(*actual, expected@, base@),
{
    let ghost before = strings_view(out@);
    compare_map_str(out, join2(base, ".url").as_str(), Some(actual.url.as_str()), expected, "url");
    compare_map_str(out, join2(base, ".length").as_str(), Some(actual.length.as_str()), expected, "length");
    compare_map_str(out, join2(base, ".type").as_str(), Some(actual.mime_type.as_str()), expected, "type");
    assert(strings_view(out@) =~= before + enclosure_messages(*actual, expected@, base@));
}

/// How `bool` is written: `true` or `false`.
pub open spec fn bool_text(b: bool) -> Seq<char> {
    if b { "true"@ } else { "false"@ }
}

/// The report of comparing a GUID with the expected entries.
pub open spec fn guid_messages(a: Guid, m: Seq<(String, JsonValue)>, base: Seq<char>) -> Seq<Seq<char>> {
    text_messages(base + ".value"@, Some(a.value@), entry_value(m, "value"@, 0))
        + text_messages(base + ".isPermalink"@, Some(bool_text(a.permalink)), entry_value(m, "isPermalink"@, 0))
}

/// Compares a GUID with the expected entries: value, and whether it is a
/// permalink, written as `true` or `false`.
pub fn compare_guid(actual: &Guid, expected: &Vec<(String, JsonValue)>, base: &str, out: &mut Vec<String>)
    ensures
        strings_view(final(out)@) == strings_view(old(out)@) + guid_messages(*actual, expected@, base@),
{
    let ghost before = strings_view(out@);
    compare_map_str(out, join2(base, ".value").as_str(), Some(actual.value.as_str()), expected, "value");
    let permalink = if actual.permalink { "true" } else { "false" };
    compare_map_str(out, join2(base, ".isPermalink").as_str(), Some(permalink), expected, "isPermalink");
    assert(strings_view(out@) =~= before + guid_messages(*actual, expected@, base@));
}

/// The report of comparing a source with the expected entries.
pub open spec fn source_messages(a: Source, m: Seq<(String, JsonValue)>, base: Seq<char>) -> Seq<Seq<char>> {
    text_messages(base + ".title"@, opt_view(a.title), entry_value(m, "title"@, 0))
        + text_messages(base + ".url"@, Some(a.url@), entry_value(m, "url"@, 0))
}

/// Compares a source with the expected entries: title and URL.
pub fn compare_source(actual: &Source, expected: &Vec<(String, JsonValue)>, base: &str, out: &mut Vec<String>)
    ensures
        strings_view(final(out)@) == strings_view(old(out)@) + source_messages(*actual, expected@, base@),
{
    let ghost before = strings_view(out@);
    compare_map_str(out, join2(base, ".title").as_str(), opt_as_str(&actual.title), expected, "title");
    compare_map_str(out, join2(base, ".url").as_str(), Some(actual.url.as_str()), expected, "url");
    assert(strings_view(out@) =~= before + source_messages(*actual, expected@, base@));
}

/// `path[i]`.
pub open spec fn index_path(path: Seq<char>, i: nat) -> Seq<char> {
    path + "["@ + decimal(i) + "]"@
}

/// Writes `path[i]`.
fn index_path_string(path: &str, i: usize) -> (r: String)
    ensures
        r@ == index_path(path@, i as nat),
{
    let mut s = String::new();
    push_str(&mut s, path);
    push_str(&mut s, "[");
    let d = decimal_string(i);
    push_str(&mut s, d.as_str());
    push_str(&mut s, "]");
    assert(s@ =~= index_path(path@, i as nat));
    s
}

/// The smaller of two numbers.
pub open spec fn min_nat(a: nat, b: nat) -> nat {
    if a <= b { a } else { b }
}

/// The report of comparing the category at index `i` with its expectation.
pub open spec fn category_messages(a: Category, e: JsonValue, path: Seq<char>, i: nat) -> Seq<Seq<char>> {
    text_messages(index_path(path, i) + ".value"@, Some(a.name@), json_get_spec(e, "value"@))
        + text_messages(index_path(path, i) + ".domain"@, opt_view(a.domain), json_get_spec(e, "domain"@))
}

/// The reports of the first `n` categories.
pub open spec fn category_pairs(path: Seq<char>, a: Seq<Category>, e: Seq<JsonValue>, n: nat) -> Seq<Seq<char>>
    decreases n,
{
    if n == 0 {
        seq![]
    } else {
        category_pairs(path, a, e, (n - 1) as nat) + category_messages(a[n - 1], e[n - 1], path, (n - 1) as nat)
    }
}

/// The report of a length that differs.
pub open spec fn length_messages(path: Seq<char>, actual: nat, expected: nat) -> Seq<Seq<char>> {
    if actual != expected {
        seq![mismatch_text(path + ".length"@, decimal(actual), decimal(expected))]
    } else {
        seq![]
    }
}

/// The report of comparing categories with the array that the corpus
/// expects, if it expects one: the lengths, then each pair up to the shorter.
pub open spec fn categories_messages(path: Seq<char>, a: Seq<Category>, expected: Option<JsonValue>) -> Seq<Seq<char>> {
    match expected {
        Some(JsonValue::Array(items)) => length_messages(path, a.len(), items@.len())
            + category_pairs(path, a, items@, min_nat(a.len(), items@.len())),
        _ => seq![],
    }
}

/// Reports a differing length: `path.length: actual=.. expected=..`.
fn compare_length(out: &mut Vec<String>, path: &str, actual: usize, expected: usize)
    ensures
        strings_view(final(out)@) == strings_view(old(out)@) + length_messages(path@, actual as nat, expected as nat),
{
    let ghost before = strings_view(out@);
    if actual != expected {
        let p = join2(path, ".length");
        let a = decimal_string(actual);
        let e = decimal_string(expected);
        mismatch(out, p.as_str(), a.as_str(), e.as_str());
        assert(strings_view(out@) =~= before + length_messages(path@, actual as nat, expected as nat));
    } else {
        assert(strings_view(out@) =~= before + seq![]);
    }
}

/// Compares categories with the array that the corpus expects, if it expects
/// one: the lengths, then the name (as `value`) and the domain of each pair.
pub fn compare_categories(out: &mut Vec<String>, path: &str, actual: &Vec<Category>, expected: Option<&JsonValue>)
    ensures
        strings_view(final(out)@) == strings_view(old(out)@) + categories_messages(
            path@,
            actual@,
            match expected {
                Some(e) => Some(*e),
                None => None,
            },
        ),
{
    let ghost before = strings_view(out@);
    match expected {
        Some(JsonValue::Array(items)) => {
            compare_length(out, path, actual.len(), items.len());
            let ghost mid = strings_view(out@);
            let n = if actual.len() <= items.len() { actual.len() } else { items.len() };
            let mut i: usize = 0;
            while i < n
                invariant
                    i <= n,
                    n == min_nat(actual@.len(), items@.len()),
                    strings_view(out@) == mid + category_pairs(path@, actual@, items@, i as nat),
                decreases n - i,
            {
                let ghost o = strings_view(out@);
                let p = index_path_string(path, i);
                compare_str(out, join2(p.as_str(), ".value").as_str(), Some(actual[i].name.as_str()), &items[i], "value");
                compare_str(out, join2(p.as_str(), ".domain").as_str(), opt_as_str(&actual[i].domain), &items[i], "domain");
                assert(strings_view(out@) =~= mid + category_pairs(path@, actual@, items@, (i + 1) as nat));
                i = i + 1;
            }
            assert(strings_view(out@) =~= before + categories_messages(path@, actual@, Some(*expected.unwrap())));
        },
        _ => {
            assert(strings_view(out@) =~= before + seq![]);
        },
    }
}

/// The report of an optional enclosure.
pub open spec fn enclosure_part(a: Option<Enclosure>, e: Option<JsonValue>, path: Seq<char>) -> Seq<Seq<char>> {
    object_messages(path, a is Some, e) + match (a, e) {
        (Some(x), Some(JsonValue::Object(m))) => enclosure_messages(x, m@, path),
        _ => seq![],
    }
}

/// The report of an optional GUID.
pub open spec fn guid_part(a: Option<Guid>, e: Option<JsonValue>, path: Seq<char>) -> Seq<Seq<char>> {
    object_messages(path, a is Some, e) + match (a, e) {
        (Some(x), Some(JsonValue::Object(m))) => guid_messages(x, m@, path),
        _ => seq![],
    }
}

/// The report of an optional source.
pub open spec fn source_part(a: Option<Source>, e: Option<JsonValue>, path: Seq<char>) -> Seq<Seq<char>> {
    object_messages(path, a is Some, e) + match (a, e) {
        (Some(x), Some(JsonValue::Object(m))) => source_messages(x, m@, path),
        _ => seq![],
    }
}

/// The report of an optional image.
pub open spec fn image_part(a: Option<Image>, e: Option<JsonValue>, path: Seq<char>) -> Seq<Seq<char>> {
    object_messages(path, a is Some, e) + match (a, e) {
        (Some(x), Some(JsonValue::Object(m))) => image_messages(x, m@, path),
        _ => seq![],
    }
}

/// The report of an optional cloud.
pub open spec fn cloud_part(a: Option<Cloud>, e: Option<JsonValue>, path: Seq<char>) -> Seq<Seq<char>> {
    object_messages(path, a is Some, e) + match (a, e) {
        (Some(x), Some(JsonValue::Object(m))) => cloud_messages(x, m@, path),
        _ => seq![],
    }
}

/// The report of an optional text input.
pub open spec fn text_input_part(a: Option<TextInput>, e: Option<JsonValue>, path: Seq<char>) -> Seq<Seq<char>> {
    object_messages(path, a is Some, e) + match (a, e) {
        (Some(x), Some(JsonValue::Object(m))) => text_input_messages(x, m@, path),
        _ => seq![],
    }
}

/// The report of comparing the texts of the item under `base`.
pub open spec fn item_text_messages(a: Item, e: JsonValue, base: Seq<char>) -> Seq<Seq<char>> {
    text_messages(base + ".title"@, opt_view(a.title), json_get_spec(e, "title"@))
        + text_messages(base + ".link"@, opt_view(a.link), json_get_spec(e, "link"@))
        + text_messages(base + ".description"@, opt_view(a.description), json_get_spec(e, "description"@))
        + text_messages(base + ".content"@, opt_view(a.content), json_get_spec(e, "content"@))
        + text_messages(base + ".author"@, opt_view(a.author), json_get_spec(e, "author"@))
        + text_messages(base + ".comments"@, opt_view(a.comments), json_get_spec(e, "comments"@))
        + text_messages(base + ".pubDate"@, opt_view(a.pub_date), json_get_spec(e, "pubDate"@))
}

/// The report of comparing the categories and optional parts of the item
/// under `base`.
pub open spec fn item_part_messages(a: Item, e: JsonValue, base: Seq<char>) -> Seq<Seq<char>> {
    categories_messages(base + ".categories"@, a.categories@, json_get_spec(e, "categories"@))
        + enclosure_part(a.enclosure, json_get_spec(e, "enclosure"@), base + ".enclosure"@)
        + guid_part(a.guid, json_get_spec(e, "guid"@), base + ".guid"@)
        + source_part(a.source, json_get_spec(e, "source"@), base + ".source"@)
}

/// The report of comparing the item at index `i` with its expectation, under
/// `channel.items[i]`.
pub open spec fn item_messages(a: Item, e: JsonValue, i: nat) -> Seq<Seq<char>> {
    item_text_messages(a, e, index_path("channel.items"@, i)) + item_part_messages(a, e, index_path("channel.items"@, i))
}

/// Compares an optional enclosure with what the corpus expects of it: reports it
/// missing if an object is expected, else compares it with the object.
fn compare_enclosure_part(out: &mut Vec<String>, path: &str, actual: &Option<Enclosure>, expected: Option<&JsonValue>)
    ensures
        strings_view(final(out)@) == strings_view(old(out)@) + enclosure_part(
            *actual,
            match expected {
                Some(e) => Some(*e),
                None => None,
            },
            path@,
        ),
{
    let ghost before = strings_view(out@);
    match compare_optional_object(out, path, actual.is_some(), expected) {
        Some(m) => match actual {
            Some(x) => {
                let ghost mid = strings_view(out@);
                compare_enclosure(x, m, path, out);
                assert(strings_view(out@) =~= before + (seq![] + enclosure_messages(*x, m@, path@)));
            },
            None => {},
        },
        None => {
            assert(strings_view(out@) =~= before + enclosure_part(*actual, match expected { Some(e) => Some(*e), None => None }, path@));
        },
    }
}

/// Compares an optional guid with what the corpus expects of it: reports it
/// missing if an object is expected, else compares it with the object.
fn compare_guid_part(out: &mut Vec<String>, path: &str, actual: &Option<Guid>, expected: Option<&JsonValue>)
    ensures
        strings_view(final(out)@) == strings_view(old(out)@) + guid_part(
            *actual,
            match expected {
                Some(e) => Some(*e),
                None => None,
            },
            path@,
        ),
{
    let ghost before = strings_view(out@);
    match compare_optional_object(out, path, actual.is_some(), expected) {
        Some(m) => match actual {
            Some(x) => {
                let ghost mid = strings_view(out@);
                compare_guid(x, m, path, out);
                assert(strings_view(out@) =~= before + (seq![] + guid_messages(*x, m@, path@)));
            },
            None => {},
        },
        None => {
            assert(strings_view(out@) =~= before + guid_part(*actual, match expected { Some(e) => Some(*e), None => None }, path@));
        },
    }
}

/// Compares an optional source with what the corpus expects of it: reports it
/// missing if an object is expected, else compares it with the object.
fn compare_source_part(out: &mut Vec<String>, path: &str, actual: &Option<Source>, expected: Option<&JsonValue>)
    ensures
        strings_view(final(out)@) == strings_view(old(out)@) + source_part(
            *actual,
            match expected {
                Some(e) => Some(*e),
                None => None,
            },
            path@,
        ),
{
    let ghost before = strings_view(out@);
    match compare_optional_object(out, path, actual.is_some(), expected) {
        Some(m) => match actual {
            Some(x) => {
                let ghost mid = strings_view(out@);
                compare_source(x, m, path, out);
                assert(strings_view(out@) =~= before + (seq![] + source_messages(*x, m@, path@)));
            },
            None => {},
        },
        None => {
            assert(strings_view(out@) =~= before + source_part(*actual, match expected { Some(e) => Some(*e), None => None }, path@));
        },
    }
}

/// Compares an optional image with what the corpus expects of it: reports it
/// missing if an object is expected, else compares it with the object.
fn compare_image_part(out: &mut Vec<String>, path: &str, actual: &Option<Image>, expected: Option<&JsonValue>)
    ensures
        strings_view(final(out)@) == strings_view(old(out)@) + image_part(
            *actual,
            match expected {
                Some(e) => Some(*e),
                None => None,
            },
            path@,
        ),
{
    let ghost before = strings_view(out@);
    match compare_optional_object(out, path, actual.is_some(), expected) {
        Some(m) => match actual {
            Some(x) => {
                let ghost mid = strings_view(out@);
                compare_image(x, m, path, out);
                assert(strings_view(out@) =~= before + (seq![] + image_messages(*x, m@, path@)));
            },
            None => {},
        },
        None => {
            assert(strings_view(out@) =~= before + image_part(*actual, match expected { Some(e) => Some(*e), None => None }, path@));
        },
    }
}

/// Compares an optional cloud with what the corpus expects of it: reports it
/// missing if an object is expected, else compares it with the object.
fn compare_cloud_part(out: &mut Vec<String>, path: &str, actual: &Option<Cloud>, expected: Option<&JsonValue>)
    ensures
        strings_view(final(out)@) == strings_view(old(out)@) + cloud_part(
            *actual,
            match expected {
                Some(e) => Some(*e),
                None => None,
            },
            path@,
        ),
{
    let ghost before = strings_view(out@);
    match compare_optional_object(out, path, actual.is_some(), expected) {
        Some(m) => match actual {
            Some(x) => {
                let ghost mid = strings_view(out@);
                compare_cloud(x, m, path, out);
                assert(strings_view(out@) =~= before + (seq![] + cloud_messages(*x, m@, path@)));
            },
            None => {},
        },
        None => {
            assert(strings_view(out@) =~= before + cloud_part(*actual, match expected { Some(e) => Some(*e), None => None }, path@));
        },
    }
}

/// Compares an optional text input with what the corpus expects of it: reports it
/// missing if an object is expected, else compares it with the object.
fn compare_text_input_part(out: &mut Vec<String>, path: &str, actual: &Option<TextInput>, expected: Option<&JsonValue>)
    ensures
        strings_view(final(out)@) == strings_view(old(out)@) + text_input_part(
            *actual,
            match expected {
                Some(e) => Some(*e),
                None => None,
            },
            path@,
        ),
{
    let ghost before = strings_view(out@);
    match compare_optional_object(out, path, actual.is_some(), expected) {
        Some(m) => match actual {
            Some(x) => {
                let ghost mid = strings_view(out@);
                compare_text_input(x, m, path, out);
                assert(strings_view(out@) =~= before + (seq![] + text_input_messages(*x, m@, path@)));
            },
            None => {},
        },
        None => {
            assert(strings_view(out@) =~= before + text_input_part(*actual, match expected { Some(e) => Some(*e), None => None }, path@));
        },
    }
}

fn compare_item_texts(item: &Item, expected: &JsonValue, base: &str, out: &mut Vec<String>)
    ensures
        strings_view(final(out)@) == strings_view(old(out)@) + item_text_messages(*item, *expected, base@),
{
    let ghost before = strings_view(out@);
    compare_str(out, join2(base, ".title").as_str(), opt_as_str(&item.title), expected, "title");
    let ghost acc = text_messages(base@ + ".title"@, opt_view(item.title), json_get_spec(*expected, "title"@));
    compare_str(out, join2(base, ".link").as_str(), opt_as_str(&item.link), expected, "link");
    proof {
        lemma_extend(before, acc, text_messages(base@ + ".link"@, opt_view(item.link), json_get_spec(*expected, "link"@)));
    }
    let ghost acc = acc + text_messages(base@ + ".link"@, opt_view(item.link), json_get_spec(*expected, "link"@));
    compare_str(out, join2(base, ".description").as_str(), opt_as_str(&item.description), expected, "description");
    proof {
        lemma_extend(before, acc, text_messages(base@ + ".description"@, opt_view(item.description), json_get_spec(*expected, "description"@)));
    }
    let ghost acc = acc + text_messages(base@ + ".description"@, opt_view(item.description), json_get_spec(*expected, "description"@));
    compare_str(out, join2(base, ".content").as_str(), opt_as_str(&item.content), expected, "content");
    proof {
        lemma_extend(before, acc, text_messages(base@ + ".content"@, opt_view(item.content), json_get_spec(*expected, "content"@)));
    }
    let ghost acc = acc + text_messages(base@ + ".content"@, opt_view(item.content), json_get_spec(*expected, "content"@));
    compare_str(out, join2(base, ".author").as_str(), opt_as_str(&item.author), expected, "author");
    proof {
        lemma_extend(before, acc, text_messages(base@ + ".author"@, opt_view(item.author), json_get_spec(*expected, "author"@)));
    }
    let ghost acc = acc + text_messages(base@ + ".author"@, opt_view(item.author), json_get_spec(*expected, "author"@));
    compare_str(out, join2(base, ".comments").as_str(), opt_as_str(&item.comments), expected, "comments");
    proof {
        lemma_extend(before, acc, text_messages(base@ + ".comments"@, opt_view(item.comments), json_get_spec(*expected, "comments"@)));
    }
    let ghost acc = acc + text_messages(base@ + ".comments"@, opt_view(item.comments), json_get_spec(*expected, "comments"@));
    compare_str(out, join2(base, ".pubDate").as_str(), opt_as_str(&item.pub_date), expected, "pubDate");
    proof {
        lemma_extend(before, acc, text_messages(base@ + ".pubDate"@, opt_view(item.pub_date), json_get_spec(*expected, "pubDate"@)));
    }
    let ghost acc = acc + text_messages(base@ + ".pubDate"@, opt_view(item.pub_date), json_get_spec(*expected, "pubDate"@));
    assert(acc == item_text_messages(*item, *expected, base@));
}

fn compare_item_parts(item: &Item, expected: &JsonValue, base: &str, out: &mut Vec<String>)
    ensures
        strings_view(final(out)@) == strings_view(old(out)@) + item_part_messages(*item, *expected, base@),
{
    let ghost before = strings_view(out@);
    compare_categories(out, join2(base, ".categories").as_str(), &item.categories, json_get(expected, "categories"));
    let ghost acc = categories_messages(base@ + ".categories"@, item.categories@, json_get_spec(*expected, "categories"@));
    compare_enclosure_part(out, join2(base, ".enclosure").as_str(), &item.enclosure, json_get(expected, "enclosure"));
    proof {
        lemma_extend(before, acc, enclosure_part(item.enclosure, json_get_spec(*expected, "enclosure"@), base@ + ".enclosure"@));
    }
    let ghost acc = acc + enclosure_part(item.enclosure, json_get_spec(*expected, "enclosure"@), base@ + ".enclosure"@);
    compare_guid_part(out, join2(base, ".guid").as_str(), &item.guid, json_get(expected, "guid"));
    proof {
        lemma_extend(before, acc, guid_part(item.guid, json_get_spec(*expected, "guid"@), base@ + ".guid"@));
    }
    let ghost acc = acc + guid_part(item.guid, json_get_spec(*expected, "guid"@), base@ + ".guid"@);
    compare_source_part(out, join2(base, ".source").as_str(), &item.source, json_get(expected, "source"));
    proof {
        lemma_extend(before, acc, source_part(item.source, json_get_spec(*expected, "source"@), base@ + ".source"@));
    }
    let ghost acc = acc + source_part(item.source, json_get_spec(*expected, "source"@), base@ + ".source"@);
    assert(acc == item_part_messages(*item, *expected, base@));
}

/// Compares the item at index `index` with its expectation: title, link,
/// description, content, author, comments, publication date, categories,
/// enclosure, GUID and source, under the path `channel.items[index]`.
pub fn compare_item(item: &Item, expected: &JsonValue, index: usize, out: &mut Vec<String>)
    ensures
        strings_view(final(out)@) == strings_view(old(out)@) + item_messages(*item, *expected, index as nat),
{
    let ghost before = strings_view(out@);
    let base = index_path_string("channel.items", index);
    compare_item_texts(item, expected, base.as_str(), out);
    compare_item_parts(item, expected, base.as_str(), out);
    assert(strings_view(out@) =~= before + item_messages(*item, *expected, index as nat));
}

/// The reports of the first `n` items.
pub open spec fn item_pairs(a: Seq<Item>, e: Seq<JsonValue>, n: nat) -> Seq<Seq<char>>
    decreases n,
{
    if n == 0 {
        seq![]
    } else {
        item_pairs(a, e, (n - 1) as nat) + item_messages(a[n - 1], e[n - 1], (n - 1) as nat)
    }
}

/// The report of comparing the items with the array that the corpus
/// expects, if it expects one: the lengths, then each pair up to the shorter.
pub open spec fn items_messages(a: Seq<Item>, expected: Option<JsonValue>) -> Seq<Seq<char>> {
    match expected {
        Some(JsonValue::Array(items)) => length_messages("channel.items"@, a.len(), items@.len())
            + item_pairs(a, items@, min_nat(a.len(), items@.len())),
        _ => seq![],
    }
}

/// The report of comparing the texts of a channel.
pub open spec fn channel_text_messages(c: Channel, e: JsonValue) -> Seq<Seq<char>> {
    text_messages("channel.title"@, Some(c.title@), json_get_spec(e, "title"@))
        + text_messages("channel.link"@, Some(c.link@), json_get_spec(e, "link"@))
        + text_messages("channel.description"@, Some(c.description@), json_get_spec(e, "description"@))
        + text_messages("channel.language"@, opt_view(c.language), json_get_spec(e, "language"@))
        + text_messages("channel.copyright"@, opt_view(c.copyright), json_get_spec(e, "copyright"@))
        + text_messages("channel.managingEditor"@, opt_view(c.managing_editor), json_get_spec(e, "managingEditor"@))
        + text_messages("channel.webMaster"@, opt_view(c.webmaster), json_get_spec(e, "webMaster"@))
        + text_messages("channel.pubDate"@, opt_view(c.pub_date), json_get_spec(e, "pubDate"@))
        + text_messages("channel.lastBuildDate"@, opt_view(c.last_build_date), json_get_spec(e, "lastBuildDate"@))
        + text_messages("channel.generator"@, opt_view(c.generator), json_get_spec(e, "generator"@))
        + text_messages("channel.docs"@, opt_view(c.docs), json_get_spec(e, "docs"@))
        + text_messages("channel.ttl"@, opt_view(c.ttl), json_get_spec(e, "ttl"@))
        + text_messages("channel.rating"@, opt_view(c.rating), json_get_spec(e, "rating"@))
}

/// The report of comparing the lists of a channel: skip hours, skip days
/// and categories.
pub open spec fn channel_list_messages(c: Channel, e: JsonValue) -> Seq<Seq<char>> {
    string_array_messages("channel.skipHours"@, strings_view(c.skip_hours@), json_get_spec(e, "skipHours"@))
        + string_array_messages("channel.skipDays"@, strings_view(c.skip_days@), json_get_spec(e, "skipDays"@))
        + categories_messages("channel.categories"@, c.categories@, json_get_spec(e, "categories"@))
}

/// The report of comparing the optional parts of a channel: image, cloud
/// and text input.
pub open spec fn channel_part_messages(c: Channel, e: JsonValue) -> Seq<Seq<char>> {
    image_part(c.image, json_get_spec(e, "image"@), "channel.image"@)
        + cloud_part(c.cloud, json_get_spec(e, "cloud"@), "channel.cloud"@)
        + text_input_part(c.text_input, json_get_spec(e, "textInput"@), "channel.textInput"@)
}

/// The report of comparing a channel with the corpus's expectation.
pub open spec fn channel_messages(c: Channel, e: JsonValue) -> Seq<Seq<char>> {
    channel_text_messages(c, e) + channel_list_messages(c, e) + channel_part_messages(c, e)
        + items_messages(c.items@, json_get_spec(e, "items"@))
}

fn compare_channel_texts(channel: &Channel, expected: &JsonValue, out: &mut Vec<String>)
    ensures
        strings_view(final(out)@) == strings_view(old(out)@) + channel_text_messages(*channel, *expected),
{
    let ghost before = strings_view(out@);
    compare_str(out, "channel.title", Some(channel.title.as_str()), expected, "title");
    let ghost acc = text_messages("channel.title"@, Some(channel.title@), json_get_spec(*expected, "title"@));
    compare_str(out, "channel.link", Some(channel.link.as_str()), expected, "link");
    proof {
        lemma_extend(before, acc, text_messages("channel.link"@, Some(channel.link@), json_get_spec(*expected, "link"@)));
    }
    let ghost acc = acc + text_messages("channel.link"@, Some(channel.link@), json_get_spec(*expected, "link"@));
    compare_str(out, "channel.description", Some(channel.description.as_str()), expected, "description");
    proof {
        lemma_extend(before, acc, text_messages("channel.description"@, Some(channel.description@), json_get_spec(*expected, "description"@)));
    }
    let ghost acc = acc + text_messages("channel.description"@, Some(channel.description@), json_get_spec(*expected, "description"@));
    compare_str(out, "channel.language", opt_as_str(&channel.language), expected, "language");
    proof {
        lemma_extend(before, acc, text_messages("channel.language"@, opt_view(channel.language), json_get_spec(*expected, "language"@)));
    }
    let ghost acc = acc + text_messages("channel.language"@, opt_view(channel.language), json_get_spec(*expected, "language"@));
    compare_str(out, "channel.copyright", opt_as_str(&channel.copyright), expected, "copyright");
    proof {
        lemma_extend(before, acc, text_messages("channel.copyright"@, opt_view(channel.copyright), json_get_spec(*expected, "copyright"@)));
    }
    let ghost acc = acc + text_messages("channel.copyright"@, opt_view(channel.copyright), json_get_spec(*expected, "copyright"@));
    compare_str(out, "channel.managingEditor", opt_as_str(&channel.managing_editor), expected, "managingEditor");
    proof {
        lemma_extend(before, acc, text_messages("channel.managingEditor"@, opt_view(channel.managing_editor), json_get_spec(*expected, "managingEditor"@)));
    }
    let ghost acc = acc + text_messages("channel.managingEditor"@, opt_view(channel.managing_editor), json_get_spec(*expected, "managingEditor"@));
    compare_str(out, "channel.webMaster", opt_as_str(&channel.webmaster), expected, "webMaster");
    proof {
        lemma_extend(before, acc, text_messages("channel.webMaster"@, opt_view(channel.webmaster), json_get_spec(*expected, "webMaster"@)));
    }
    let ghost acc = acc + text_messages("channel.webMaster"@, opt_view(channel.webmaster), json_get_spec(*expected, "webMaster"@));
    compare_str(out, "channel.pubDate", opt_as_str(&channel.pub_date), expected, "pubDate");
    proof {
        lemma_extend(before, acc, text_messages("channel.pubDate"@, opt_view(channel.pub_date), json_get_spec(*expected, "pubDate"@)));
    }
    let ghost acc = acc + text_messages("channel.pubDate"@, opt_view(channel.pub_date), json_get_spec(*expected, "pubDate"@));
    compare_str(out, "channel.lastBuildDate", opt_as_str(&channel.last_build_date), expected, "lastBuildDate");
    proof {
        lemma_extend(before, acc, text_messages("channel.lastBuildDate"@, opt_view(channel.last_build_date), json_get_spec(*expected, "lastBuildDate"@)));
    }
    let ghost acc = acc + text_messages("channel.lastBuildDate"@, opt_view(channel.last_build_date), json_get_spec(*expected, "lastBuildDate"@));
    compare_str(out, "channel.generator", opt_as_str(&channel.generator), expected, "generator");
    proof {
        lemma_extend(before, acc, text_messages("channel.generator"@, opt_view(channel.generator), json_get_spec(*expected, "generator"@)));
    }
    let ghost acc = acc + text_messages("channel.generator"@, opt_view(channel.generator), json_get_spec(*expected, "generator"@));
    compare_str(out, "channel.docs", opt_as_str(&channel.docs), expected, "docs");
    proof {
        lemma_extend(before, acc, text_messages("channel.docs"@, opt_view(channel.docs), json_get_spec(*expected, "docs"@)));
    }
    let ghost acc = acc + text_messages("channel.docs"@, opt_view(channel.docs), json_get_spec(*expected, "docs"@));
    compare_str(out, "channel.ttl", opt_as_str(&channel.ttl), expected, "ttl");
    proof {
        lemma_extend(before, acc, text_messages("channel.ttl"@, opt_view(channel.ttl), json_get_spec(*expected, "ttl"@)));
    }
    let ghost acc = acc + text_messages("channel.ttl"@, opt_view(channel.ttl), json_get_spec(*expected, "ttl"@));
    compare_str(out, "channel.rating", opt_as_str(&channel.rating), expected, "rating");
    proof {
        lemma_extend(before, acc, text_messages("channel.rating"@, opt_view(channel.rating), json_get_spec(*expected, "rating"@)));
    }
    let ghost acc = acc + text_messages("channel.rating"@, opt_view(channel.rating), json_get_spec(*expected, "rating"@));
    assert(acc == channel_text_messages(*channel, *expected));
}

fn compare_channel_lists(channel: &Channel, expected: &JsonValue, out: &mut Vec<String>)
    ensures
        strings_view(final(out)@) == strings_view(old(out)@) + channel_list_messages(*channel, *expected),
{
    let ghost before = strings_view(out@);
    compare_string_array(out, "channel.skipHours", &channel.skip_hours, expected, "skipHours");
    compare_string_array(out, "channel.skipDays", &channel.skip_days, expected, "skipDays");
    compare_categories(out, "channel.categories", &channel.categories, json_get(expected, "categories"));
    assert(strings_view(out@) =~= before + channel_list_messages(*channel, *expected));
}

fn compare_channel_parts(channel: &Channel, expected: &JsonValue, out: &mut Vec<String>)
    ensures
        strings_view(final(out)@) == strings_view(old(out)@) + channel_part_messages(*channel, *expected),
{
    let ghost before = strings_view(out@);
    compare_image_part(out, "channel.image", &channel.image, json_get(expected, "image"));
    compare_cloud_part(out, "channel.cloud", &channel.cloud, json_get(expected, "cloud"));
    compare_text_input_part(out, "channel.textInput", &channel.text_input, json_get(expected, "textInput"));
    assert(strings_view(out@) =~= before + channel_part_messages(*channel, *expected));
}

fn compare_items(channel: &Channel, expected: &JsonValue, out: &mut Vec<String>)
    ensures
        strings_view(final(out)@) == strings_view(old(out)@) + items_messages(
            channel.items@,
            json_get_spec(*expected, "items"@),
        ),
{
    let ghost before = strings_view(out@);
    match json_get(expected, "items") {
        Some(JsonValue::Array(items)) => {
            compare_length(out, "channel.items", channel.items.len(), items.len());
            let ghost mid = strings_view(out@);
            let n = if channel.items.len() <= items.len() { channel.items.len() } else { items.len() };
            let mut i: usize = 0;
            while i < n
                invariant
                    i <= n,
                    n == min_nat(channel.items@.len(), items@.len()),
                    strings_view(out@) == mid + item_pairs(channel.items@, items@, i as nat),
                decreases n - i,
            {
                compare_item(&channel.items[i], &items[i], i, out);
                assert(strings_view(out@) =~= mid + item_pairs(channel.items@, items@, (i + 1) as nat));
                i = i + 1;
            }
            assert(strings_view(out@) =~= before + items_messages(channel.items@, json_get_spec(*expected, "items"@)));
        },
        _ => {
            assert(strings_view(out@) =~= before + seq![]);
        },
    }
}

/// Compares a channel with the corpus's expectation: its texts, skip hours
/// and days, categories, image, cloud, text input and items, in that order.
pub fn compare_channel(channel: &Channel, expected: &JsonValue, out: &mut Vec<String>)
    ensures
        strings_view(final(out)@) == strings_view(old(out)@) + channel_messages(*channel, *expected),
{
    let ghost before = strings_view(out@);
    compare_channel_texts(channel, expected, out);
    compare_channel_lists(channel, expected, out);
    compare_channel_parts(channel, expected, out);
    compare_items(channel, expected, out);
    assert(strings_view(out@) =~= before + channel_messages(*channel, *expected));
}

/// Whether every line of a report starts with `p`.
pub open spec fn lines_start_with(lines: Seq<Seq<char>>, p: Seq<char>) -> bool {
    forall|j: int| 0 <= j < lines.len() ==> has_prefix(#[trigger] lines[j], p)
}

proof fn lemma_prefix_extend(q: Seq<char>, p: Seq<char>, s: Seq<char>)
    requires
        has_prefix(q, p),
    ensures
        has_prefix(q + s, p),
{
    assert((q + s).subrange(0, p.len() as int) =~= q.subrange(0, p.len() as int));
}

proof fn lemma_lines_concat(x: Seq<Seq<char>>, y: Seq<Seq<char>>, p: Seq<char>)
    requires
        lines_start_with(x, p),
        lines_start_with(y, p),
    ensures
        lines_start_with(x + y, p),
{
    assert forall|j: int| 0 <= j < (x + y).len() implies has_prefix(#[trigger] (x + y)[j], p) by {
        if j < x.len() {
            assert((x + y)[j] == x[j]);
        } else {
            assert((x + y)[j] == y[j - x.len()]);
        }
    }
}

proof fn lemma_text_messages_prefix(path: Seq<char>, a: Option<Seq<char>>, e: Option<JsonValue>, p: Seq<char>)
    requires
        has_prefix(path, p),
    ensures
        lines_start_with(text_messages(path, a, e), p),
{
    match e {
        Some(JsonValue::String(s)) => {
            let x = or_empty(a);
            lemma_prefix_extend(path, p, ": actual="@);
            lemma_prefix_extend(path + ": actual="@, p, x);
            lemma_prefix_extend(path + ": actual="@ + x, p, " expected="@);
            lemma_prefix_extend(path + ": actual="@ + x + " expected="@, p, s@);
        },
        _ => {},
    }
}

proof fn lemma_object_messages_prefix(path: Seq<char>, present: bool, e: Option<JsonValue>, p: Seq<char>)
    requires
        has_prefix(path, p),
    ensures
        lines_start_with(object_messages(path, present, e), p),
{
    lemma_prefix_extend(path, p, ": actual=<missing> expected=<object>"@);
}

proof fn lemma_category_pairs_prefix(path: Seq<char>, a: Seq<Category>, e: Seq<JsonValue>, n: nat, p: Seq<char>)
    requires
        has_prefix(path, p),
    ensures
        lines_start_with(category_pairs(path, a, e, n), p),
    decreases n,
{
    if n > 0 {
        let k = (n - 1) as nat;
        lemma_category_pairs_prefix(path, a, e, k, p);
        let ip = index_path(path, k);
        lemma_prefix_extend(path, p, "["@);
        lemma_prefix_extend(path + "["@, p, decimal(k));
        lemma_prefix_extend(path + "["@ + decimal(k), p, "]"@);
        lemma_prefix_extend(ip, p, ".value"@);
        lemma_prefix_extend(ip, p, ".domain"@);
        lemma_text_messages_prefix(ip + ".value"@, Some(a[k as int].name@), json_get_spec(e[k as int], "value"@), p);
        lemma_text_messages_prefix(ip + ".domain"@, opt_view(a[k as int].domain), json_get_spec(e[k as int], "domain"@), p);
        lemma_lines_concat(
            text_messages(ip + ".value"@, Some(a[k as int].name@), json_get_spec(e[k as int], "value"@)),
            text_messages(ip + ".domain"@, opt_view(a[k as int].domain), json_get_spec(e[k as int], "domain"@)),
            p,
        );
        lemma_lines_concat(category_pairs(path, a, e, k), category_messages(a[k as int], e[k as int], path, k), p);
    }
}

proof fn lemma_categories_prefix(path: Seq<char>, a: Seq<Category>, e: Option<JsonValue>, p: Seq<char>)
    requires
        has_prefix(path, p),
    ensures
        lines_start_with(categories_messages(path, a, e), p),
{
    match e {
        Some(JsonValue::Array(items)) => {
            lemma_prefix_extend(path, p, ".length"@);
            let lp = path + ".length"@;
            if a.len() != items@.len() {
                let x = decimal(a.len());
                lemma_prefix_extend(lp, p, ": actual="@);
                lemma_prefix_extend(lp + ": actual="@, p, x);
                lemma_prefix_extend(lp + ": actual="@ + x, p, " expected="@);
                lemma_prefix_extend(lp + ": actual="@ + x + " expected="@, p, decimal(items@.len()));
            }
            lemma_category_pairs_prefix(path, a, items@, min_nat(a.len(), items@.len()), p);
            lemma_lines_concat(
                length_messages(path, a.len(), items@.len()),
                category_pairs(path, a, items@, min_nat(a.len(), items@.len())),
                p,
            );
        },
        _ => {},
    }
}

proof fn lemma_dot_prefix(b: Seq<char>, s: Seq<char>)
    requires
        s.len() > 0,
        s[0] == '.',
    ensures
        has_prefix(b + s, b + seq!['.']),
{
    assert((b + s).subrange(0, b.len() + 1 as int) =~= b + seq!['.']);
}

/// Every line that [`compare_item`] reports for the item at index `i` starts
/// with that item's path and a dot, `channel.items[i].`.
pub proof fn item_lines_start_with_its_path(a: Item, e: JsonValue, i: nat)
    ensures
        lines_start_with(item_messages(a, e, i), index_path("channel.items"@, i) + seq!['.']),
{
    let b = index_path("channel.items"@, i);
    let bd = b + seq!['.'];
    reveal_strlit(".title");
    reveal_strlit(".link");
    reveal_strlit(".description");
    reveal_strlit(".content");
    reveal_strlit(".author");
    reveal_strlit(".comments");
    reveal_strlit(".pubDate");
    reveal_strlit(".categories");
    reveal_strlit(".enclosure");
    reveal_strlit(".guid");
    reveal_strlit(".source");
    lemma_dot_prefix(b, ".title"@);
    lemma_dot_prefix(b, ".link"@);
    lemma_dot_prefix(b, ".description"@);
    lemma_dot_prefix(b, ".content"@);
    lemma_dot_prefix(b, ".author"@);
    lemma_dot_prefix(b, ".comments"@);
    lemma_dot_prefix(b, ".pubDate"@);
    lemma_text_messages_prefix(b + ".title"@, opt_view(a.title), json_get_spec(e, "title"@), bd);
    lemma_text_messages_prefix(b + ".link"@, opt_view(a.link), json_get_spec(e, "link"@), bd);
    lemma_text_messages_prefix(b + ".description"@, opt_view(a.description), json_get_spec(e, "description"@), bd);
    lemma_text_messages_prefix(b + ".content"@, opt_view(a.content), json_get_spec(e, "content"@), bd);
    lemma_text_messages_prefix(b + ".author"@, opt_view(a.author), json_get_spec(e, "author"@), bd);
    lemma_text_messages_prefix(b + ".comments"@, opt_view(a.comments), json_get_spec(e, "comments"@), bd);
    lemma_text_messages_prefix(b + ".pubDate"@, opt_view(a.pub_date), json_get_spec(e, "pubDate"@), bd);
    let t1 = text_messages(b + ".title"@, opt_view(a.title), json_get_spec(e, "title"@));
    let t2 = text_messages(b + ".link"@, opt_view(a.link), json_get_spec(e, "link"@));
    let t3 = text_messages(b + ".description"@, opt_view(a.description), json_get_spec(e, "description"@));
    let t4 = text_messages(b + ".content"@, opt_view(a.content), json_get_spec(e, "content"@));
    let t5 = text_messages(b + ".author"@, opt_view(a.author), json_get_spec(e, "author"@));
    let t6 = text_messages(b + ".comments"@, opt_view(a.comments), json_get_spec(e, "comments"@));
    let t7 = text_messages(b + ".pubDate"@, opt_view(a.pub_date), json_get_spec(e, "pubDate"@));
    lemma_lines_concat(t1, t2, bd);
    lemma_lines_concat(t1 + t2, t3, bd);
    lemma_lines_concat(t1 + t2 + t3, t4, bd);
    lemma_lines_concat(t1 + t2 + t3 + t4, t5, bd);
    lemma_lines_concat(t1 + t2 + t3 + t4 + t5, t6, bd);
    lemma_lines_concat(t1 + t2 + t3 + t4 + t5 + t6, t7, bd);
    assert(item_text_messages(a, e, b) == t1 + t2 + t3 + t4 + t5 + t6 + t7);

    lemma_dot_prefix(b, ".categories"@);
    lemma_categories_prefix(b + ".categories"@, a.categories@, json_get_spec(e, "categories"@), bd);
    let ep = b + ".enclosure"@;
    let gp = b + ".guid"@;
    let sp = b + ".source"@;
    lemma_dot_prefix(b, ".enclosure"@);
    lemma_dot_prefix(b, ".guid"@);
    lemma_dot_prefix(b, ".source"@);
    let ee = json_get_spec(e, "enclosure"@);
    let ge = json_get_spec(e, "guid"@);
    let se = json_get_spec(e, "source"@);
    lemma_object_messages_prefix(ep, a.enclosure is Some, ee, bd);
    lemma_object_messages_prefix(gp, a.guid is Some, ge, bd);
    lemma_object_messages_prefix(sp, a.source is Some, se, bd);
    match (a.enclosure, ee) {
        (Some(x), Some(JsonValue::Object(m))) => {
            lemma_prefix_extend(ep, bd, ".url"@);
            lemma_prefix_extend(ep, bd, ".length"@);
            lemma_prefix_extend(ep, bd, ".type"@);
            lemma_text_messages_prefix(ep + ".url"@, Some(x.url@), entry_value(m@, "url"@, 0), bd);
            lemma_text_messages_prefix(ep + ".length"@, Some(x.length@), entry_value(m@, "length"@, 0), bd);
            lemma_text_messages_prefix(ep + ".type"@, Some(x.mime_type@), entry_value(m@, "type"@, 0), bd);
            let u1 = text_messages(ep + ".url"@, Some(x.url@), entry_value(m@, "url"@, 0));
            let u2 = text_messages(ep + ".length"@, Some(x.length@), entry_value(m@, "length"@, 0));
            let u3 = text_messages(ep + ".type"@, Some(x.mime_type@), entry_value(m@, "type"@, 0));
            lemma_lines_concat(u1, u2, bd);
            lemma_lines_concat(u1 + u2, u3, bd);
            lemma_lines_concat(object_messages(ep, true, ee), u1 + u2 + u3, bd);
        },
        _ => {
            lemma_lines_concat(object_messages(ep, a.enclosure is Some, ee), seq![], bd);
        },
    }
    match (a.guid, ge) {
        (Some(x), Some(JsonValue::Object(m))) => {
            lemma_prefix_extend(gp, bd, ".value"@);
            lemma_prefix_extend(gp, bd, ".isPermalink"@);
            lemma_text_messages_prefix(gp + ".value"@, Some(x.value@), entry_value(m@, "value"@, 0), bd);
            lemma_text_messages_prefix(gp + ".isPermalink"@, Some(bool_text(x.permalink)), entry_value(m@, "isPermalink"@, 0), bd);
            let u1 = text_messages(gp + ".value"@, Some(x.value@), entry_value(m@, "value"@, 0));
            let u2 = text_messages(gp + ".isPermalink"@, Some(bool_text(x.permalink)), entry_value(m@, "isPermalink"@, 0));
            lemma_lines_concat(u1, u2, bd);
            lemma_lines_concat(object_messages(gp, true, ge), u1 + u2, bd);
        },
        _ => {
            lemma_lines_concat(object_messages(gp, a.guid is Some, ge), seq![], bd);
        },
    }
    match (a.source, se) {
        (Some(x), Some(JsonValue::Object(m))) => {
            lemma_prefix_extend(sp, bd, ".title"@);
            lemma_prefix_extend(sp, bd, ".url"@);
            lemma_text_messages_prefix(sp + ".title"@, opt_view(x.title), entry_value(m@, "title"@, 0), bd);
            lemma_text_messages_prefix(sp + ".url"@, Some(x.url@), entry_value(m@, "url"@, 0), bd);
            let u1 = text_messages(sp + ".title"@, opt_view(x.title), entry_value(m@, "title"@, 0));
            let u2 = text_messages(sp + ".url"@, Some(x.url@), entry_value(m@, "url"@, 0));
            lemma_lines_concat(u1, u2, bd);
            lemma_lines_concat(object_messages(sp, true, se), u1 + u2, bd);
        },
        _ => {
            lemma_lines_concat(object_messages(sp, a.source is Some, se), seq![], bd);
        },
    }
    let c = categories_messages(b + ".categories"@, a.categories@, json_get_spec(e, "categories"@));
    let ep_ = enclosure_part(a.enclosure, ee, ep);
    let gp_ = guid_part(a.guid, ge, gp);
    let sp_ = source_part(a.source, se, sp);
    lemma_lines_concat(c, ep_, bd);
    lemma_lines_concat(c + ep_, gp_, bd);
    lemma_lines_concat(c + ep_ + gp_, sp_, bd);
    lemma_lines_concat(item_text_messages(a, e, b), c + ep_ + gp_ + sp_, bd);
}

/// Whether a text agrees with what the corpus expects of it: no string is
/// expected, or the text (none counting as empty) is that string.
pub open spec fn agrees(actual: Option<Seq<char>>, expected: Option<JsonValue>) -> bool {
    match expected {
        Some(JsonValue::String(s)) => or_empty(actual) == s@,
        _ => true,
    }
}

proof fn lemma_contains_concat(x: Seq<Seq<char>>, y: Seq<Seq<char>>)
    ensures
        forall|l: Seq<char>| x.contains(l) ==> #[trigger] (x + y).contains(l),
        forall|l: Seq<char>| y.contains(l) ==> #[trigger] (x + y).contains(l),
{
    assert forall|l: Seq<char>| x.contains(l) implies #[trigger] (x + y).contains(l) by {
        let j = choose|j: int| 0 <= j < x.len() && x[j] == l;
        assert((x + y)[j] == l);
    }
    assert forall|l: Seq<char>| y.contains(l) implies #[trigger] (x + y).contains(l) by {
        let j = choose|j: int| 0 <= j < y.len() && y[j] == l;
        assert((x + y)[x.len() + j] == l);
    }
}

proof fn lemma_text_line(path: Seq<char>, a: Option<Seq<char>>, e: Option<JsonValue>)
    ensures
        agrees(a, e) ==> text_messages(path, a, e).len() == 0,
        e matches Some(JsonValue::String(s)) ==> (or_empty(a) != s@ ==> text_messages(path, a, e).contains(
            mismatch_text(path, or_empty(a), s@),
        )),
{
    if let Some(JsonValue::String(s)) = e {
        if or_empty(a) != s@ {
            assert(text_messages(path, a, e)[0] == mismatch_text(path, or_empty(a), s@));
        }
    }
}

/// Each text of a channel is compared with what the corpus expects under its
/// own key: when every text agrees with its expectation, the texts give no
/// report line; and when a text differs from the string expected under its
/// key, the line `channel.<key>: actual=<that text> expected=<that string>`
/// is reported.
pub proof fn channel_texts_are_compared_field_by_field(c: Channel, e: JsonValue)
    ensures
        ({
            &&& agrees(Some(c.title@), json_get_spec(e, "title"@))
            &&& agrees(Some(c.link@), json_get_spec(e, "link"@))
            &&& agrees(Some(c.description@), json_get_spec(e, "description"@))
            &&& agrees(opt_view(c.language), json_get_spec(e, "language"@))
            &&& agrees(opt_view(c.copyright), json_get_spec(e, "copyright"@))
            &&& agrees(opt_view(c.managing_editor), json_get_spec(e, "managingEditor"@))
            &&& agrees(opt_view(c.webmaster), json_get_spec(e, "webMaster"@))
            &&& agrees(opt_view(c.pub_date), json_get_spec(e, "pubDate"@))
            &&& agrees(opt_view(c.last_build_date), json_get_spec(e, "lastBuildDate"@))
            &&& agrees(opt_view(c.generator), json_get_spec(e, "generator"@))
            &&& agrees(opt_view(c.docs), json_get_spec(e, "docs"@))
            &&& agrees(opt_view(c.ttl), json_get_spec(e, "ttl"@))
            &&& agrees(opt_view(c.rating), json_get_spec(e, "rating"@))
        }) ==> channel_text_messages(c, e).len() == 0,
        json_get_spec(e, "title"@) matches Some(JsonValue::String(s)) ==> (or_empty(Some(c.title@)) != s@
            ==> channel_text_messages(c, e).contains(mismatch_text("channel.title"@, or_empty(Some(c.title@)), s@))),
        json_get_spec(e, "link"@) matches Some(JsonValue::String(s)) ==> (or_empty(Some(c.link@)) != s@
            ==> channel_text_messages(c, e).contains(mismatch_text("channel.link"@, or_empty(Some(c.link@)), s@))),
        json_get_spec(e, "description"@) matches Some(JsonValue::String(s)) ==> (or_empty(Some(c.description@)) != s@
            ==> channel_text_messages(c, e).contains(mismatch_text("channel.description"@, or_empty(Some(c.description@)), s@))),
        json_get_spec(e, "language"@) matches Some(JsonValue::String(s)) ==> (or_empty(opt_view(c.language)) != s@
            ==> channel_text_messages(c, e).contains(mismatch_text("channel.language"@, or_empty(opt_view(c.language)), s@))),
        json_get_spec(e, "copyright"@) matches Some(JsonValue::String(s)) ==> (or_empty(opt_view(c.copyright)) != s@
            ==> channel_text_messages(c, e).contains(mismatch_text("channel.copyright"@, or_empty(opt_view(c.copyright)), s@))),
        json_get_spec(e, "managingEditor"@) matches Some(JsonValue::String(s)) ==> (or_empty(opt_view(c.managing_editor)) != s@
            ==> channel_text_messages(c, e).contains(mismatch_text("channel.managingEditor"@, or_empty(opt_view(c.managing_editor)), s@))),
        json_get_spec(e, "webMaster"@) matches Some(JsonValue::String(s)) ==> (or_empty(opt_view(c.webmaster)) != s@
            ==> channel_text_messages(c, e).contains(mismatch_text("channel.webMaster"@, or_empty(opt_view(c.webmaster)), s@))),
        json_get_spec(e, "pubDate"@) matches Some(JsonValue::String(s)) ==> (or_empty(opt_view(c.pub_date)) != s@
            ==> channel_text_messages(c, e).contains(mismatch_text("channel.pubDate"@, or_empty(opt_view(c.pub_date)), s@))),
        json_get_spec(e, "lastBuildDate"@) matches Some(JsonValue::String(s)) ==> (or_empty(opt_view(c.last_build_date)) != s@
            ==> channel_text_messages(c, e).contains(mismatch_text("channel.lastBuildDate"@, or_empty(opt_view(c.last_build_date)), s@))),
        json_get_spec(e, "generator"@) matches Some(JsonValue::String(s)) ==> (or_empty(opt_view(c.generator)) != s@
            ==> channel_text_messages(c, e).contains(mismatch_text("channel.generator"@, or_empty(opt_view(c.generator)), s@))),
        json_get_spec(e, "docs"@) matches Some(JsonValue::String(s)) ==> (or_empty(opt_view(c.docs)) != s@
            ==> channel_text_messages(c, e).contains(mismatch_text("channel.docs"@, or_empty(opt_view(c.docs)), s@))),
        json_get_spec(e, "ttl"@) matches Some(JsonValue::String(s)) ==> (or_empty(opt_view(c.ttl)) != s@
            ==> channel_text_messages(c, e).contains(mismatch_text("channel.ttl"@, or_empty(opt_view(c.ttl)), s@))),
        json_get_spec(e, "rating"@) matches Some(JsonValue::String(s)) ==> (or_empty(opt_view(c.rating)) != s@
            ==> channel_text_messages(c, e).contains(mismatch_text("channel.rating"@, or_empty(opt_view(c.rating)), s@))),
{
    let p0 = text_messages("channel.title"@, Some(c.title@), json_get_spec(e, "title"@));
    let p1 = text_messages("channel.link"@, Some(c.link@), json_get_spec(e, "link"@));
    let p2 = text_messages("channel.description"@, Some(c.description@), json_get_spec(e, "description"@));
    let p3 = text_messages("channel.language"@, opt_view(c.language), json_get_spec(e, "language"@));
    let p4 = text_messages("channel.copyright"@, opt_view(c.copyright), json_get_spec(e, "copyright"@));
    let p5 = text_messages("channel.managingEditor"@, opt_view(c.managing_editor), json_get_spec(e, "managingEditor"@));
    let p6 = text_messages("channel.webMaster"@, opt_view(c.webmaster), json_get_spec(e, "webMaster"@));
    let p7 = text_messages("channel.pubDate"@, opt_view(c.pub_date), json_get_spec(e, "pubDate"@));
    let p8 = text_messages("channel.lastBuildDate"@, opt_view(c.last_build_date), json_get_spec(e, "lastBuildDate"@));
    let p9 = text_messages("channel.generator"@, opt_view(c.generator), json_get_spec(e, "generator"@));
    let p10 = text_messages("channel.docs"@, opt_view(c.docs), json_get_spec(e, "docs"@));
    let p11 = text_messages("channel.ttl"@, opt_view(c.ttl), json_get_spec(e, "ttl"@));
    let p12 = text_messages("channel.rating"@, opt_view(c.rating), json_get_spec(e, "rating"@));
    lemma_text_line("channel.title"@, Some(c.title@), json_get_spec(e, "title"@));
    lemma_text_line("channel.link"@, Some(c.link@), json_get_spec(e, "link"@));
    lemma_text_line("channel.description"@, Some(c.description@), json_get_spec(e, "description"@));
    lemma_text_line("channel.language"@, opt_view(c.language), json_get_spec(e, "language"@));
    lemma_text_line("channel.copyright"@, opt_view(c.copyright), json_get_spec(e, "copyright"@));
    lemma_text_line("channel.managingEditor"@, opt_view(c.managing_editor), json_get_spec(e, "managingEditor"@));
    lemma_text_line("channel.webMaster"@, opt_view(c.webmaster), json_get_spec(e, "webMaster"@));
    lemma_text_line("channel.pubDate"@, opt_view(c.pub_date), json_get_spec(e, "pubDate"@));
    lemma_text_line("channel.lastBuildDate"@, opt_view(c.last_build_date), json_get_spec(e, "lastBuildDate"@));
    lemma_text_line("channel.generator"@, opt_view(c.generator), json_get_spec(e, "generator"@));
    lemma_text_line("channel.docs"@, opt_view(c.docs), json_get_spec(e, "docs"@));
    lemma_text_line("channel.ttl"@, opt_view(c.ttl), json_get_spec(e, "ttl"@));
    lemma_text_line("channel.rating"@, opt_view(c.rating), json_get_spec(e, "rating"@));
    lemma_contains_concat(p0, p1);
    lemma_contains_concat((p0 + p1), p2);
    lemma_contains_concat(((p0 + p1) + p2), p3);
    lemma_contains_concat((((p0 + p1) + p2) + p3), p4);
    lemma_contains_concat(((((p0 + p1) + p2) + p3) + p4), p5);
    lemma_contains_concat((((((p0 + p1) + p2) + p3) + p4) + p5), p6);
    lemma_contains_concat(((((((p0 + p1) + p2) + p3) + p4) + p5) + p6), p7);
    lemma_contains_concat((((((((p0 + p1) + p2) + p3) + p4) + p5) + p6) + p7), p8);
    lemma_contains_concat(((((((((p0 + p1) + p2) + p3) + p4) + p5) + p6) + p7) + p8), p9);
    lemma_contains_concat((((((((((p0 + p1) + p2) + p3) + p4) + p5) + p6) + p7) + p8) + p9), p10);
    lemma_contains_concat(((((((((((p0 + p1) + p2) + p3) + p4) + p5) + p6) + p7) + p8) + p9) + p10), p11);
    lemma_contains_concat((((((((((((p0 + p1) + p2) + p3) + p4) + p5) + p6) + p7) + p8) + p9) + p10) + p11), p12);
    assert(channel_text_messages(c, e) == p0 + p1 + p2 + p3 + p4 + p5 + p6 + p7 + p8 + p9 + p10 + p11 + p12);
}

} // verus!
