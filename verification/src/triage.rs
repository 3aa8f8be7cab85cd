//! The manual triage recorded in an earlier report, which a new run of the
//! corpus keeps when it was made at the same source revision.

use crate::json::{json_get, json_get_spec, JsonValue};
use crate::text::push_str;
use crate::xml::str_eq;
use vstd::prelude::*;

verus! {

/// The source revision that a report records (`/source/revision`), empty if
/// it records none.
pub open spec fn recorded_revision(previous: JsonValue) -> Seq<char> {
    match json_get_spec(previous, "source"@) {
        Some(source) => match json_get_spec(source, "revision"@) {
            Some(JsonValue::String(r)) => r@,
            _ => seq![],
        },
        None => seq![],
    }
}

/// The records of a report's inventory, none if it has no inventory array.
pub open spec fn inventory_records(previous: JsonValue) -> Seq<JsonValue> {
    match json_get_spec(previous, "inventory"@) {
        Some(JsonValue::Array(items)) => items@,
        _ => seq![],
    }
}

/// The pairs of fixture and triage state of the records that have both a
/// string `fixture` and a `triage`, in order.
pub open spec fn triage_list(records: Seq<JsonValue>) -> Seq<(Seq<char>, JsonValue)>
    decreases records.len(),
{
    if records.len() == 0 {
        seq![]
    } else {
        let rest = triage_list(records.drop_last());
        let r = records.last();
        match (json_get_spec(r, "fixture"@), json_get_spec(r, "triage"@)) {
            (Some(JsonValue::String(f)), Some(t)) => rest.push((f@, t)),
            _ => rest,
        }
    }
}

/// The message that refuses triage recorded at another revision.
pub open spec fn revision_message(report: Seq<char>, previous: Seq<char>, current: Seq<char>) -> Seq<char> {
    report + " records source revision "@ + previous
        + "; refusing to reuse triage state for "@ + current
}

/// The abstract value of a list of fixtures and triage states.
pub open spec fn pairs_view(v: Seq<(String, &JsonValue)>) -> Seq<(Seq<char>, JsonValue)> {
    v.map_values(|p: (String, &JsonValue)| (p.0@, *p.1))
}

/// The map from fixture to triage state that a list of pairs gives: a later
/// pair for a fixture replaces an earlier one.
pub open spec fn pairs_map(s: Seq<(Seq<char>, JsonValue)>) -> Map<Seq<char>, JsonValue>
    decreases s.len(),
{
    if s.len() == 0 {
        Map::empty()
    } else {
        pairs_map(s.drop_last()).insert(s.last().0, s.last().1)
    }
}

/// The triage state of each fixture in the inventory records: that of the
/// last record for the fixture that has a string `fixture` and a `triage`.
pub open spec fn triage_map(records: Seq<JsonValue>) -> Map<Seq<char>, JsonValue> {
    pairs_map(triage_list(records))
}

/// Whether no fixture occurs twice in the pairs.
pub open spec fn distinct_fixtures(s: Seq<(Seq<char>, JsonValue)>) -> bool {
    forall|a: int, b: int| 0 <= a < s.len() && 0 <= b < s.len() && a != b ==> s[a].0 != s[b].0
}

/// Replacing the state of a fixture that occurs once is inserting it.
proof fn lemma_pairs_map_update(s: Seq<(Seq<char>, JsonValue)>, m: int, t: JsonValue)
    requires
        distinct_fixtures(s),
        0 <= m < s.len(),
    ensures
        pairs_map(s.update(m, (s[m].0, t))) == pairs_map(s).insert(s[m].0, t),
    decreases s.len(),
{
    let u = s.update(m, (s[m].0, t));
    let n = s.len() - 1;
    if m == n {
        assert(u.drop_last() =~= s.drop_last());
        assert(pairs_map(u) =~= pairs_map(s).insert(s[m].0, t));
    } else {
        let d = s.drop_last();
        assert(u.drop_last() =~= d.update(m, (d[m].0, t)));
        lemma_pairs_map_update(d, m, t);
        assert(s[n].0 != s[m].0);
        assert(pairs_map(u) =~= pairs_map(s).insert(s[m].0, t));
    }
}

/// Adding a pair for a new fixture keeps the fixtures distinct and inserts it.
proof fn lemma_pairs_map_push(s: Seq<(Seq<char>, JsonValue)>, p: (Seq<char>, JsonValue))
    requires
        distinct_fixtures(s),
        forall|a: int| 0 <= a < s.len() ==> s[a].0 != p.0,
    ensures
        distinct_fixtures(s.push(p)),
        pairs_map(s.push(p)) == pairs_map(s).insert(p.0, p.1),
{
    assert(s.push(p).drop_last() =~= s);
}

/// The index of the pair for fixture `f`, if there is one.
fn find_fixture(out: &Vec<(String, &JsonValue)>, f: &str) -> (r: Option<usize>)
    ensures
        match r {
            Some(m) => m < out@.len() && pairs_view(out@)[m as int].0 == f@,
            None => forall|a: int| 0 <= a < out@.len() ==> pairs_view(out@)[a].0 != f@,
        },
{
    let mut m: usize = 0;
    while m < out.len()
        invariant
            m <= out@.len(),
            forall|a: int| 0 <= a < m ==> pairs_view(out@)[a].0 != f@,
        decreases out@.len() - m,
    {
        if str_eq(out[m].0.as_str(), f) {
            return Some(m);
        }
        m = m + 1;
    }
    None
}

/// The triage states that an earlier report records, by fixture: for each
/// fixture, that of the last inventory record for it (each fixture once, in
/// no particular order); an error if the report was made at another source
/// revision. `report` names the report in the message.
pub fn prior_triage<'a>(previous: &'a JsonValue, report: &str, source_revision: &str) -> (r: Result<
    Vec<(String, &'a JsonValue)>,
    String,
>)
    ensures
        recorded_revision(*previous) != source_revision@ ==> (r matches Err(m) && m@ == revision_message(
            report@,
            recorded_revision(*previous),
            source_revision@,
        )),
        recorded_revision(*previous) == source_revision@ ==> (r matches Ok(v) && distinct_fixtures(pairs_view(v@))
            && pairs_map(pairs_view(v@)) == triage_map(inventory_records(*previous))),
{
    proof {
        reveal_strlit("");
    }
    let recorded = match json_get(previous, "source") {
        Some(source) => match json_get(source, "revision") {
            Some(JsonValue::String(r)) => r.as_str(),
            _ => "",
        },
        None => "",
    };
    assert(recorded@ == recorded_revision(*previous));
    if !str_eq(recorded, source_revision) {
        let mut m = String::new();
        push_str(&mut m, report);
        push_str(&mut m, " records source revision ");
        push_str(&mut m, recorded);
        push_str(&mut m, "; refusing to reuse triage state for ");
        push_str(&mut m, source_revision);
        assert(m@ =~= revision_message(report@, recorded_revision(*previous), source_revision@));
        return Err(m);
    }
    let mut out: Vec<(String, &'a JsonValue)> = Vec::new();
    match json_get(previous, "inventory") {
        Some(JsonValue::Array(items)) => {
            let mut i: usize = 0;
            assert(pairs_map(pairs_view(out@)) =~= pairs_map(triage_list(items@.take(0))));
            while i < items.len()
                invariant
                    i <= items@.len(),
                    distinct_fixtures(pairs_view(out@)),
                    pairs_map(pairs_view(out@)) == pairs_map(triage_list(items@.take(i as int))),
                decreases items@.len() - i,
            {
                assert(items@.take(i + 1).drop_last() =~= items@.take(i as int));
                let record = &items[i];
                match json_get(record, "fixture") {
                    Some(JsonValue::String(f)) => match json_get(record, "triage") {
                        Some(t) => {
                            let ghost before = pairs_view(out@);
                            assert(triage_list(items@.take(i + 1)) == triage_list(items@.take(i as int)).push((f@, *t)));
                            assert(triage_list(items@.take(i as int)).push((f@, *t)).drop_last() =~= triage_list(
                                items@.take(i as int),
                            ));
                            let found = find_fixture(&out, f.as_str());
                            if let Some(m) = found {
                                proof {
                                    lemma_pairs_map_update(before, m as int, *t);
                                }
                                out.set(m, (f.clone(), t));
                                assert(pairs_view(out@) =~= before.update(m as int, (before[m as int].0, *t)));
                            } else {
                                proof {
                                    lemma_pairs_map_push(before, (f@, *t));
                                }
                                out.push((f.clone(), t));
                                assert(pairs_view(out@) =~= before.push((f@, *t)));
                            }
                        },
                        None => {
                            assert(triage_list(items@.take(i + 1)) == triage_list(items@.take(i as int)));
                        },
                    },
                    _ => {
                        assert(triage_list(items@.take(i + 1)) == triage_list(items@.take(i as int)));
                    },
                }
                i = i + 1;
            }
            assert(items@.take(items@.len() as int) =~= items@);
        },
        _ => {
            assert(pairs_map(pairs_view(out@)) =~= pairs_map(seq![]));
        },
    }
    Ok(out)
}

} // verus!
