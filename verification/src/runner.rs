//! The decisions of the corpus runners about each fixture: which findings it
//! gets, whether it passes, and how the counts of a run change. Reading the
//! fixtures, parsing and writing channels, and writing the report are done
//! by the caller, which hands over what came of them.

use crate::text::{has_prefix, starts_with, strings_view};
use crate::json::JsonValue;
use crate::xml::str_eq;
use vstd::prelude::*;

verus! {

/// The RSS versions whose fixtures the gofeed runner compares.
pub open spec fn supported_versions_spec() -> Seq<Seq<char>> {
    seq!["0.9"@, "0.90"@, "0.91"@, "0.92"@, "1.0"@, "2.0"@]
}

/// The RSS versions whose fixtures the gofeed runner compares, as the
/// report lists them.
pub fn supported_versions() -> (r: Vec<&'static str>)
    ensures
        r@.map_values(|s: &str| s@) == supported_versions_spec(),
{
    let r = vec!["0.9", "0.90", "0.91", "0.92", "1.0", "2.0"];
    assert(r@.map_values(|s: &str| s@) =~= supported_versions_spec());
    r
}

/// Whether fixtures of this RSS version are compared; the others are
/// excluded from the run.
pub fn is_supported_version(version: &str) -> (r: bool)
    ensures
        r == supported_versions_spec().contains(version@),
{
    let versions = supported_versions();
    let ghost vs = versions@.map_values(|s: &str| s@);
    let mut i: usize = 0;
    while i < versions.len()
        invariant
            i <= versions@.len(),
            vs == versions@.map_values(|s: &str| s@),
            vs == supported_versions_spec(),
            forall|k: int| 0 <= k < i ==> vs[k] != version@,
        decreases versions@.len() - i,
    {
        if str_eq(versions[i], version) {
            assert(vs[i as int] == version@);
            return true;
        }
        i = i + 1;
    }
    false
}

/// How writing a parsed channel and reading the output back went.
pub enum RoundTrip {
    /// Read back equal to the channel.
    Same,
    /// Read back, but different from the channel.
    Changed,
    /// Written, but the output was not read back: the reader's message.
    ReparseFailed(String),
    /// Not written: the writer's message.
    WriteFailed(String),
}

/// What came of a fixture of a supported version.
pub enum Outcome {
    /// The channel was not read: the reader's message.
    ParseFailed(String),
    /// The channel was read: the differences from the expectation, and how
    /// its round trip went.
    Parsed(Vec<String>, RoundTrip),
}

/// A finding about a fixture: its kind and its details.
pub struct Finding {
    pub kind: String,
    pub details: Vec<String>,
}

/// A finding as text: its kind and its details.
pub open spec fn finding_view(f: Finding) -> (Seq<char>, Seq<Seq<char>>) {
    (f.kind@, strings_view(f.details@))
}

/// The findings as text.
pub open spec fn findings_view(fs: Seq<Finding>) -> Seq<(Seq<char>, Seq<Seq<char>>)> {
    fs.map_values(|f: Finding| finding_view(f))
}

/// The finding of a round trip, if it went wrong.
pub open spec fn round_trip_findings(rt: RoundTrip) -> Seq<(Seq<char>, Seq<Seq<char>>)> {
    match rt {
        RoundTrip::Same => seq![],
        RoundTrip::Changed => seq![
            ("roundtrip-mismatch"@, seq!["serialized output parses but changes the Channel value"@]),
        ],
        RoundTrip::ReparseFailed(e) => seq![("roundtrip-parse-error"@, seq![e@])],
        RoundTrip::WriteFailed(e) => seq![("serialize-error"@, seq![e@])],
    }
}

/// The findings of a fixture: a parse error; or the differences from the
/// expectation, if there are any, then what went wrong in the round trip.
pub open spec fn outcome_findings(o: Outcome) -> Seq<(Seq<char>, Seq<Seq<char>>)> {
    match o {
        Outcome::ParseFailed(e) => seq![("parse-error"@, seq![e@])],
        Outcome::Parsed(m, rt) => (if m@.len() > 0 {
            seq![("field-mismatch"@, strings_view(m@))]
        } else {
            seq![]
        }) + round_trip_findings(rt),
    }
}

/// Every difference is reported: for a fixture whose channel was read and
/// differs from its expectation in the lines `m`, the first finding is a
/// `field-mismatch` whose details are all of those lines, in order, however
/// the round trip went.
pub proof fn field_mismatch_reports_every_difference(m: Vec<String>, rt: RoundTrip)
    requires
        m@.len() > 0,
    ensures
        outcome_findings(Outcome::Parsed(m, rt)).len() >= 1,
        outcome_findings(Outcome::Parsed(m, rt))[0].0 == "field-mismatch"@,
        outcome_findings(Outcome::Parsed(m, rt))[0].1.len() == m@.len(),
        forall|k: int| 0 <= k < m@.len() ==> outcome_findings(Outcome::Parsed(m, rt))[0].1[k] == #[trigger] m@[k]@,
{
}

/// A fixture of a supported version passes (has no findings) exactly when
/// its channel was read, every compared field matched, and writing it and
/// reading it back gave an equal channel.
pub proof fn gofeed_pass_means_no_difference(o: Outcome)
    ensures
        outcome_findings(o).len() == 0 <==> (o matches Outcome::Parsed(m, rt) && m@.len() == 0 && rt is Same),
{
}

/// The counts of a run of the gofeed runner.
pub struct Summary {
    total: usize,
    excluded: usize,
    passed: usize,
    parse_errors: usize,
    field_mismatches: usize,
    roundtrip_errors: usize,
    roundtrip_mismatches: usize,
}

/// The abstract value of a [`Summary`]: its counts.
pub struct SummaryView {
    pub total: nat,
    pub excluded: nat,
    pub passed: nat,
    pub parse_errors: nat,
    pub field_mismatches: nat,
    pub roundtrip_errors: nat,
    pub roundtrip_mismatches: nat,
}

impl View for Summary {
    type V = SummaryView;

    closed spec fn view(&self) -> SummaryView {
        SummaryView {
            total: self.total as nat,
            excluded: self.excluded as nat,
            passed: self.passed as nat,
            parse_errors: self.parse_errors as nat,
            field_mismatches: self.field_mismatches as nat,
            roundtrip_errors: self.roundtrip_errors as nat,
            roundtrip_mismatches: self.roundtrip_mismatches as nat,
        }
    }
}

/// No count exceeds the number of fixtures; a fixture is excluded, passes, or
/// neither.
pub open spec fn counts_within_total(v: SummaryView) -> bool {
    &&& v.excluded + v.passed <= v.total
    &&& v.parse_errors <= v.total
    &&& v.field_mismatches <= v.total
    &&& v.roundtrip_errors <= v.total
    &&& v.roundtrip_mismatches <= v.total
}

impl Summary {
    /// The counts are always within the number of fixtures.
    #[verifier::type_invariant]
    spec fn within_total(self) -> bool {
        counts_within_total(self@)
    }

    /// The counts of a run that has seen no fixture.
    pub fn new() -> (r: Summary)
        ensures
            r@ == (SummaryView {
                total: 0,
                excluded: 0,
                passed: 0,
                parse_errors: 0,
                field_mismatches: 0,
                roundtrip_errors: 0,
                roundtrip_mismatches: 0,
            }),
    {
        Summary {
            total: 0,
            excluded: 0,
            passed: 0,
            parse_errors: 0,
            field_mismatches: 0,
            roundtrip_errors: 0,
            roundtrip_mismatches: 0,
        }
    }

    /// Counts a fixture whose version is not supported.
    pub fn record_excluded(&mut self)
        requires
            old(self)@.total < usize::MAX,
        ensures
            final(self)@ == (SummaryView { total: old(self)@.total + 1, excluded: old(self)@.excluded + 1, ..old(self)@ }),
            counts_within_total(final(self)@),
    {
        proof {
            use_type_invariant(&*self);
        }
        self.total = self.total + 1;
        self.excluded = self.excluded + 1;
    }

    /// Counts a fixture of a supported version and returns its findings; it
    /// passes if there are none.
    pub fn record(&mut self, outcome: Outcome) -> (r: Vec<Finding>)
        requires
            old(self)@.total < usize::MAX,
        ensures
            findings_view(r@) == outcome_findings(outcome),
            counts_within_total(final(self)@),
            final(self)@.total == old(self)@.total + 1,
            final(self)@.excluded == old(self)@.excluded,
            final(self)@.passed == old(self)@.passed + (if r@.len() == 0 { 1int } else { 0 }),
            final(self)@.parse_errors == old(self)@.parse_errors + (if outcome is ParseFailed { 1int } else { 0 }),
            final(self)@.field_mismatches == old(self)@.field_mismatches + (if outcome matches Outcome::Parsed(m, _)
                && m@.len() > 0 { 1int } else { 0 }),
            final(self)@.roundtrip_errors == old(self)@.roundtrip_errors + (if outcome matches Outcome::Parsed(_, rt)
                && (rt is ReparseFailed || rt is WriteFailed) { 1int } else { 0 }),
            final(self)@.roundtrip_mismatches == old(self)@.roundtrip_mismatches + (if outcome matches Outcome::Parsed(
                _,
                RoundTrip::Changed,
            ) { 1int } else { 0 }),
    {
        proof {
            use_type_invariant(&*self);
        }
        let ghost o = outcome;
        self.total = self.total + 1;
        let mut found: Vec<Finding> = Vec::new();
        match outcome {
            Outcome::ParseFailed(e) => {
                self.parse_errors = self.parse_errors + 1;
                found.push(Finding { kind: "parse-error".to_owned(), details: vec![e] });
            },
            Outcome::Parsed(m, rt) => {
                if m.len() > 0 {
                    self.field_mismatches = self.field_mismatches + 1;
                    found.push(Finding { kind: "field-mismatch".to_owned(), details: m });
                }
                match rt {
                    RoundTrip::Same => {},
                    RoundTrip::Changed => {
                        self.roundtrip_mismatches = self.roundtrip_mismatches + 1;
                        found.push(
                            Finding {
                                kind: "roundtrip-mismatch".to_owned(),
                                details: vec!["serialized output parses but changes the Channel value".to_owned()],
                            },
                        );
                    },
                    RoundTrip::ReparseFailed(e) => {
                        self.roundtrip_errors = self.roundtrip_errors + 1;
                        found.push(Finding { kind: "roundtrip-parse-error".to_owned(), details: vec![e] });
                    },
                    RoundTrip::WriteFailed(e) => {
                        self.roundtrip_errors = self.roundtrip_errors + 1;
                        found.push(Finding { kind: "serialize-error".to_owned(), details: vec![e] });
                    },
                }
            },
        }
        if found.len() == 0 {
            self.passed = self.passed + 1;
        }
        assert(findings_view(found@) =~~= outcome_findings(o));
        found
    }

    /// The number of fixtures seen.
    pub fn total(&self) -> (r: usize)
        ensures
            r == self@.total,
    {
        self.total
    }

    /// The number of fixtures excluded for their version.
    pub fn excluded(&self) -> (r: usize)
        ensures
            r == self@.excluded,
    {
        self.excluded
    }

    /// The number of fixtures that passed.
    pub fn passed(&self) -> (r: usize)
        ensures
            r == self@.passed,
    {
        self.passed
    }

    /// The number of fixtures whose channel was not read.
    pub fn parse_errors(&self) -> (r: usize)
        ensures
            r == self@.parse_errors,
    {
        self.parse_errors
    }

    /// The number of fixtures with a compared field that differs.
    pub fn field_mismatches(&self) -> (r: usize)
        ensures
            r == self@.field_mismatches,
    {
        self.field_mismatches
    }

    /// The number of fixtures whose channel was not written or not read back.
    pub fn roundtrip_errors(&self) -> (r: usize)
        ensures
            r == self@.roundtrip_errors,
    {
        self.roundtrip_errors
    }

    /// The number of fixtures whose channel was read back different.
    pub fn roundtrip_mismatches(&self) -> (r: usize)
        ensures
            r == self@.roundtrip_mismatches,
    {
        self.roundtrip_mismatches
    }
}

/// Whether a fixture expects the Feed Validator's XML parser to fail: in the
/// `feedvalidator` mode, when its expectation begins with `SAXError`.
pub open spec fn expects_sax_error_spec(mode: Seq<char>, expectation: Option<Seq<char>>) -> bool {
    mode == "feedvalidator"@ && (expectation matches Some(e) && has_prefix(e, "SAXError"@))
}

/// Whether a fixture expects the Feed Validator's XML parser to fail.
pub fn expects_sax_error(mode: &str, expectation: Option<&str>) -> (r: bool)
    ensures
        r == expects_sax_error_spec(
            mode@,
            match expectation {
                Some(e) => Some(e@),
                None => None,
            },
        ),
{
    if !str_eq(mode, "feedvalidator") {
        return false;
    }
    match expectation {
        Some(e) => starts_with(e, "SAXError"),
        None => false,
    }
}

/// How writing a parsed channel and reading the output back went, with
/// what the structural report keeps of it.
pub enum ScreenRoundTrip {
    /// Read back equal to the channel.
    Same,
    /// Read back, but different: both channels as debug text, and the output.
    Changed { before: String, after: String, serialized: String },
    /// The output was not read back: the reader's message, and the output.
    ReparseFailed { error: String, serialized: String },
    /// Not written: the writer's message.
    WriteFailed(String),
}

/// What came of a fixture of a structural screen.
pub enum ScreenOutcome {
    /// The channel was not read: the reader's message.
    ParseFailed(String),
    /// The channel was read; how its round trip went.
    Parsed(ScreenRoundTrip),
}

/// A finding of a structural screen: its kind, its details, and further
/// named texts.
pub struct ScreenFinding {
    pub kind: String,
    pub details: String,
    pub extra: Vec<(String, String)>,
}

/// A screen finding as text.
pub open spec fn screen_finding_view(f: ScreenFinding) -> (Seq<char>, Seq<char>, Seq<(Seq<char>, Seq<char>)>) {
    (f.kind@, f.details@, f.extra@.map_values(|p: (String, String)| (p.0@, p.1@)))
}

/// Screen findings as text.
pub open spec fn screen_findings_view(fs: Seq<ScreenFinding>) -> Seq<(Seq<char>, Seq<char>, Seq<(Seq<char>, Seq<char>)>)> {
    fs.map_values(|f: ScreenFinding| screen_finding_view(f))
}

/// The finding of a round trip, if it went wrong.
pub open spec fn screen_round_trip_findings(rt: ScreenRoundTrip) -> Seq<(Seq<char>, Seq<char>, Seq<(Seq<char>, Seq<char>)>)> {
    match rt {
        ScreenRoundTrip::Same => seq![],
        ScreenRoundTrip::Changed { before, after, serialized } => seq![
            (
                "roundtrip-mismatch"@,
                "serialized output parses but changes the Channel value"@,
                seq![("before"@, before@), ("after"@, after@), ("serialized"@, serialized@)],
            ),
        ],
        ScreenRoundTrip::ReparseFailed { error, serialized } => seq![
            ("roundtrip-parse-error"@, error@, seq![("serialized"@, serialized@)]),
        ],
        ScreenRoundTrip::WriteFailed(e) => seq![("serialize-error"@, e@, seq![])],
    }
}

/// The findings of a screened fixture. A parsed fixture that expects the
/// XML parser to fail gets a finding for that, then any of its round trip; a
/// parse error is a finding unless the fixture expects it.
pub open spec fn screen_findings(sax_expected: bool, o: ScreenOutcome) -> Seq<(Seq<char>, Seq<char>, Seq<(Seq<char>, Seq<char>)>)> {
    match o {
        ScreenOutcome::ParseFailed(e) => if sax_expected {
            seq![]
        } else {
            seq![("parse-error"@, e@, seq![])]
        },
        ScreenOutcome::Parsed(rt) => (if sax_expected {
            seq![
                (
                    "accepted-expected-sax-error"@,
                    "fixture expects the validator XML parser to report SAXError"@,
                    seq![],
                ),
            ]
        } else {
            seq![]
        }) + screen_round_trip_findings(rt),
    }
}

/// A screened fixture passes (has no findings) exactly when it was read,
/// did not expect the XML parser to fail, and survived the round trip; or it
/// was not read and expected exactly that.
pub proof fn screen_pass_means_expected_behavior(sax_expected: bool, o: ScreenOutcome)
    ensures
        screen_findings(sax_expected, o).len() == 0 <==> ((o is ParseFailed && sax_expected) || (
        o matches ScreenOutcome::Parsed(rt) && rt is Same && !sax_expected)),
{
}

/// The counts of a structural screen.
pub struct ScreenSummary {
    passed: usize,
    candidates: usize,
    parse_errors: usize,
    roundtrip_errors: usize,
}

/// The abstract value of a [`ScreenSummary`]: its counts.
pub struct ScreenSummaryView {
    pub passed: nat,
    pub candidates: nat,
    pub parse_errors: nat,
    pub roundtrip_errors: nat,
}

impl View for ScreenSummary {
    type V = ScreenSummaryView;

    closed spec fn view(&self) -> ScreenSummaryView {
        ScreenSummaryView {
            passed: self.passed as nat,
            candidates: self.candidates as nat,
            parse_errors: self.parse_errors as nat,
            roundtrip_errors: self.roundtrip_errors as nat,
        }
    }
}

/// Every fixture passes or is a candidate; no error count exceeds the number
/// of fixtures.
pub open spec fn screen_counts_within_total(v: ScreenSummaryView) -> bool {
    &&& v.parse_errors <= v.passed + v.candidates
    &&& v.roundtrip_errors <= v.passed + v.candidates
}

impl ScreenSummary {
    /// The counts are always within the number of fixtures.
    #[verifier::type_invariant]
    spec fn within_total(self) -> bool {
        screen_counts_within_total(self@)
    }

    /// The counts of a screen that has seen no fixture.
    pub fn new() -> (r: ScreenSummary)
        ensures
            r@ == (ScreenSummaryView { passed: 0, candidates: 0, parse_errors: 0, roundtrip_errors: 0 }),
    {
        ScreenSummary { passed: 0, candidates: 0, parse_errors: 0, roundtrip_errors: 0 }
    }

    /// Counts a screened fixture and returns its findings; it passes if there
    /// are none, else it is a candidate.
    pub fn record(&mut self, mode: &str, expectation: Option<&str>, outcome: ScreenOutcome) -> (r: Vec<ScreenFinding>)
        requires
            old(self)@.passed + old(self)@.candidates < usize::MAX,
        ensures
            screen_findings_view(r@) == screen_findings(
                expects_sax_error_spec(
                    mode@,
                    match expectation {
                        Some(e) => Some(e@),
                        None => None,
                    },
                ),
                outcome,
            ),
            screen_counts_within_total(final(self)@),
            final(self)@.passed == old(self)@.passed + (if r@.len() == 0 { 1int } else { 0 }),
            final(self)@.candidates == old(self)@.candidates + (if r@.len() == 0 { 0int } else { 1 }),
            final(self)@.parse_errors == old(self)@.parse_errors + (if outcome is ParseFailed { 1int } else { 0 }),
            final(self)@.roundtrip_errors == old(self)@.roundtrip_errors + (if outcome matches ScreenOutcome::Parsed(rt)
                && !(rt is Same) { 1int } else { 0 }),
    {
        proof {
            use_type_invariant(&*self);
        }
        let ghost o = outcome;
        let mut parse_failed = false;
        let mut round_trip_failed = false;
        let sax_expected = expects_sax_error(mode, expectation);
        let mut found: Vec<ScreenFinding> = Vec::new();
        match outcome {
            ScreenOutcome::ParseFailed(e) => {
                parse_failed = true;
                if !sax_expected {
                    found.push(ScreenFinding { kind: "parse-error".to_owned(), details: e, extra: Vec::new() });
                }
            },
            ScreenOutcome::Parsed(rt) => {
                if sax_expected {
                    found.push(
                        ScreenFinding {
                            kind: "accepted-expected-sax-error".to_owned(),
                            details: "fixture expects the validator XML parser to report SAXError".to_owned(),
                            extra: Vec::new(),
                        },
                    );
                }
                match rt {
                    ScreenRoundTrip::Same => {},
                    ScreenRoundTrip::Changed { before, after, serialized } => {
                        round_trip_failed = true;
                        let extra = vec![
                            ("before".to_owned(), before),
                            ("after".to_owned(), after),
                            ("serialized".to_owned(), serialized),
                        ];
                        found.push(
                            ScreenFinding {
                                kind: "roundtrip-mismatch".to_owned(),
                                details: "serialized output parses but changes the Channel value".to_owned(),
                                extra,
                            },
                        );
                    },
                    ScreenRoundTrip::ReparseFailed { error, serialized } => {
                        round_trip_failed = true;
                        let extra = vec![("serialized".to_owned(), serialized)];
                        found.push(ScreenFinding { kind: "roundtrip-parse-error".to_owned(), details: error, extra });
                    },
                    ScreenRoundTrip::WriteFailed(e) => {
                        round_trip_failed = true;
                        found.push(ScreenFinding { kind: "serialize-error".to_owned(), details: e, extra: Vec::new() });
                    },
                }
            },
        }
        if found.len() == 0 {
            self.passed = self.passed + 1;
        } else {
            self.candidates = self.candidates + 1;
        }
        if parse_failed {
            self.parse_errors = self.parse_errors + 1;
        }
        if round_trip_failed {
            self.roundtrip_errors = self.roundtrip_errors + 1;
        }
        assert(screen_findings_view(found@) =~~= screen_findings(sax_expected, o));
        found
    }

    /// The number of fixtures that passed.
    pub fn passed(&self) -> (r: usize)
        ensures
            r == self@.passed,
    {
        self.passed
    }

    /// The number of fixtures with findings.
    pub fn candidates(&self) -> (r: usize)
        ensures
            r == self@.candidates,
    {
        self.candidates
    }

    /// The number of fixtures whose channel was not read.
    pub fn parse_errors(&self) -> (r: usize)
        ensures
            r == self@.parse_errors,
    {
        self.parse_errors
    }

    /// The number of fixtures whose channel was not written or not read back.
    pub fn roundtrip_errors(&self) -> (r: usize)
        ensures
            r == self@.roundtrip_errors,
    {
        self.roundtrip_errors
    }
}

/// Whether `v` is the triage state of a candidate that has none yet: an
/// object whose `status` is `pending`, and whose `reason` and `issue` are null.
pub open spec fn is_pending_triage(v: JsonValue) -> bool {
    &&& v matches JsonValue::Object(es)
    &&& es@.len() == 3
    &&& es@[0].0@ == "status"@ && (es@[0].1 matches JsonValue::String(s) && s@ == "pending"@)
    &&& es@[1].0@ == "reason"@ && es@[1].1 is Null
    &&& es@[2].0@ == "issue"@ && es@[2].1 is Null
}

/// The triage state of a candidate that has none yet.
pub fn pending_triage() -> (r: JsonValue)
    ensures
        is_pending_triage(r),
{
    JsonValue::Object(
        vec![
            ("status".to_owned(), JsonValue::String("pending".to_owned())),
            ("reason".to_owned(), JsonValue::Null),
            ("issue".to_owned(), JsonValue::Null),
        ],
    )
}

/// The inventory record of a fixture with findings: its name and version,
/// the status `candidate`, its findings, and its triage state, that of an
/// earlier report if there is one, else a pending one.
pub fn candidate_record(fixture: &str, version: &str, findings: Vec<JsonValue>, prior_triage: Option<JsonValue>) -> (r:
    JsonValue)
    ensures
        r matches JsonValue::Object(es) && es@.len() == 5 && es@[0].0@ == "fixture"@ && (es@[0].1 matches JsonValue::String(
            s,
        ) && s@ == fixture@) && es@[1].0@ == "version"@ && (es@[1].1 matches JsonValue::String(s) && s@ == version@)
            && es@[2].0@ == "automatic_status"@ && (es@[2].1 matches JsonValue::String(s) && s@ == "candidate"@)
            && es@[3].0@ == "automatic_findings"@ && es@[3].1 == JsonValue::Array(findings) && es@[4].0@ == "triage"@
            && match prior_triage {
            Some(t) => es@[4].1 == t,
            None => is_pending_triage(es@[4].1),
        },
{
    let triage = match prior_triage {
        Some(t) => t,
        None => pending_triage(),
    };
    JsonValue::Object(
        vec![
            ("fixture".to_owned(), JsonValue::String(fixture.to_owned())),
            ("version".to_owned(), JsonValue::String(version.to_owned())),
            ("automatic_status".to_owned(), JsonValue::String("candidate".to_owned())),
            ("automatic_findings".to_owned(), JsonValue::Array(findings)),
            ("triage".to_owned(), triage),
        ],
    )
}

/// Whether an object entry has the key `k` and the string `v`.
pub open spec fn is_str_entry(e: (String, JsonValue), k: Seq<char>, v: Seq<char>) -> bool {
    e.0@ == k && (e.1 matches JsonValue::String(s) && s@ == v)
}

/// An object entry with the key `k` and the string `v`.
fn str_entry(k: &str, v: &str) -> (r: (String, JsonValue))
    ensures
        is_str_entry(r, k@, v@),
{
    (k.to_owned(), JsonValue::String(v.to_owned()))
}

/// The record of a fixture excluded for its version, as the report's list of
/// excluded fixtures holds it: its name, its version and the reason.
pub fn excluded_record(fixture: &str, version: &str) -> (r: JsonValue)
    ensures
        r matches JsonValue::Object(es) && es@.len() == 3 && is_str_entry(es@[0], "fixture"@, fixture@)
            && is_str_entry(es@[1], "version"@, version@) && is_str_entry(
            es@[2],
            "reason"@,
            "unsupported or missing RSS version"@,
        ),
{
    JsonValue::Object(
        vec![
            str_entry("fixture", fixture),
            str_entry("version", version),
            str_entry("reason", "unsupported or missing RSS version"),
        ],
    )
}

/// The inventory record of a fixture excluded for its version: its name,
/// its version, the status `excluded` and the reason.
pub fn excluded_inventory_record(fixture: &str, version: &str) -> (r: JsonValue)
    ensures
        r matches JsonValue::Object(es) && es@.len() == 4 && is_str_entry(es@[0], "fixture"@, fixture@)
            && is_str_entry(es@[1], "version"@, version@) && is_str_entry(es@[2], "automatic_status"@, "excluded"@)
            && is_str_entry(es@[3], "reason"@, "unsupported or missing RSS version"@),
{
    JsonValue::Object(
        vec![
            str_entry("fixture", fixture),
            str_entry("version", version),
            str_entry("automatic_status", "excluded"),
            str_entry("reason", "unsupported or missing RSS version"),
        ],
    )
}

/// The inventory record of a fixture that passed: its name, its version and
/// the status `pass`.
pub fn pass_record(fixture: &str, version: &str) -> (r: JsonValue)
    ensures
        r matches JsonValue::Object(es) && es@.len() == 3 && is_str_entry(es@[0], "fixture"@, fixture@)
            && is_str_entry(es@[1], "version"@, version@) && is_str_entry(es@[2], "automatic_status"@, "pass"@),
{
    JsonValue::Object(
        vec![str_entry("fixture", fixture), str_entry("version", version), str_entry("automatic_status", "pass")],
    )
}

/// The report's record of a finding about a fixture: the fixture's name and
/// version, the finding's kind, and its details as an array of strings.
pub fn finding_record(fixture: &str, version: &str, finding: Finding) -> (r: JsonValue)
    ensures
        r matches JsonValue::Object(es) && es@.len() == 4 && is_str_entry(es@[0], "fixture"@, fixture@)
            && is_str_entry(es@[1], "version"@, version@) && is_str_entry(es@[2], "kind"@, finding.kind@)
            && es@[3].0@ == "details"@ && (es@[3].1 matches JsonValue::Array(ds) && ds@.len() == finding.details@.len()
            && forall|k: int|
            0 <= k < ds@.len() ==> (#[trigger] ds@[k] matches JsonValue::String(s) && s@ == finding.details@[k]@)),
{
    let mut ds: Vec<JsonValue> = Vec::new();
    let mut k: usize = 0;
    while k < finding.details.len()
        invariant
            k <= finding.details@.len(),
            ds@.len() == k,
            forall|m: int| 0 <= m < k ==> (#[trigger] ds@[m] matches JsonValue::String(s) && s@ == finding.details@[m]@),
        decreases finding.details@.len() - k,
    {
        ds.push(JsonValue::String(finding.details[k].clone()));
        k = k + 1;
    }
    JsonValue::Object(
        vec![
            str_entry("fixture", fixture),
            str_entry("version", version),
            str_entry("kind", finding.kind.as_str()),
            ("details".to_owned(), JsonValue::Array(ds)),
        ],
    )
}

} // verus!
