# rss: image and text-input elements, and the compatibility corpus runners

A Verus library for the `<image>` and `<textInput>` elements of an RSS
channel, and for the decisions of the tools that compare the crate with
external feed corpora. Every function in `src/` is verified against its
contract, but for a few trusted wrappers around calls into quick-xml
(`src/xml.rs`), serde_json (`src/json.rs`) and std (`src/text.rs`, and
`debug_list` in `src/corpus.rs`), each documented with what it claims.

Layout of `src/`:

- `xml.rs` — the XML events the library reads and writes, the quick-xml
  calls that produce and consume them, escaping, and how a reader hands back
  escaped text.
- `util.rs` — gathering the text of an element from its events (references
  resolved, nested elements skipped, trimmed), and reading an element's
  events from a quick-xml reader.
- `context.rs`, `dtd.rs` — what a reader knows from around an element: the
  internal entities that the DOCTYPE declares (read from its text), and the
  prefixes bound to the RSS 1.0 namespace, by which prefixed elements are
  matched.
- `record.rs` — elements made of optional text fields: reading, writing
  (refusing characters that XML 1.0 does not allow), and the round-trip law.
- `image.rs`, `textinput.rs` — `Image`, `TextInput`, their builders, and
  their round-trip laws. The round-trip laws are stated over the library's
  model of the events in which quick-xml's reader hands back the written
  bytes (`text_read_events`: a text event per run of plain characters, a
  reference per escaped one); that the reader does so is not proved.
- `corpus.rs`, `json.rs` — decoding JSON files, and comparing a parsed
  channel with a corpus's JSON expectations, one report line per difference.
- `runner.rs`, `triage.rs`, `metadata.rs`, `gofeed.rs`, `structural.rs` —
  the runners' decisions: supported versions, findings and counts of each
  fixture, triage kept from an earlier report, fixture metadata, and the
  command lines.
- `text.rs`, `error.rs` — text helpers and the library's error type.

`app/` holds the two command-line runners: file and directory access,
`serde_json` conversion, and the report output. They use the crate's feed
model (`Channel` with its reader, writer and validation), which is not part
of this library.
