//! Reading `Name: value` metadata from the comments of a test fixture.

use crate::text::{chars_of, opt_view, string_of, trim, trim_end_matches_str, trim_str, strip_suffixes};
use vstd::prelude::*;

verus! {

/// The first index `j >= i` at which `s` holds `c`.
pub open spec fn find_char_from(s: Seq<char>, c: char, i: int) -> Option<int>
    decreases s.len() - i,
{
    if i < 0 || i >= s.len() {
        None
    } else if s[i] == c {
        Some(i)
    } else {
        find_char_from(s, c, i + 1)
    }
}

/// The first index `j >= from` at which `pat` occurs in `s`.
pub open spec fn find_from(s: Seq<char>, pat: Seq<char>, from: int) -> Option<int>
    decreases s.len() + 1 - from,
{
    if from < 0 || from + pat.len() > s.len() {
        None
    } else if s.subrange(from, from + pat.len()) == pat {
        Some(from)
    } else {
        find_from(s, pat, from + 1)
    }
}

/// The lines of `s` from index `i` on, as `str::lines` splits them: at each
/// `\n`, dropping a `\r` just before it; a last line needs no `\n`.
pub open spec fn lines_from(s: Seq<char>, i: int) -> Seq<Seq<char>>
    decreases s.len() - i,
{
    if i < 0 || i >= s.len() {
        seq![]
    } else {
        match find_char_from(s, '\n', i) {
            Some(j) => if i <= j < s.len() {
                let end = if j > i && s[j - 1] == '\r' { j - 1 } else { j };
                seq![s.subrange(i, end)] + lines_from(s, j + 1)
            } else {
                seq![]
            },
            None => seq![s.subrange(i, s.len() as int)],
        }
    }
}

/// What follows `marker` on the first of `lines` that holds it.
pub open spec fn first_after(lines: Seq<Seq<char>>, marker: Seq<char>) -> Option<Seq<char>>
    decreases lines.len(),
{
    if lines.len() == 0 {
        None
    } else {
        match find_from(lines[0], marker, 0) {
            Some(k) => Some(lines[0].subrange(k + marker.len(), lines[0].len() as int)),
            None => first_after(lines.drop_first(), marker),
        }
    }
}

/// The value of the field `name` in a fixture's text: what follows `name:`
/// on the first line that holds it, trimmed, without trailing `-->`, trimmed
/// again; none if there is no such line or the value is empty.
pub open spec fn metadata_field_spec(text: Seq<char>, name: Seq<char>) -> Option<Seq<char>> {
    match first_after(lines_from(text, 0), name.push(':')) {
        Some(v) => {
            let t = trim(strip_suffixes(trim(v), "-->"@));
            if t.len() == 0 { None } else { Some(t) }
        },
        None => None,
    }
}

proof fn lemma_find_char_bounds(s: Seq<char>, c: char, i: int)
    ensures
        find_char_from(s, c, i) matches Some(j) ==> i <= j < s.len() && s[j] == c,
    decreases s.len() - i,
{
    if 0 <= i < s.len() && s[i] != c {
        lemma_find_char_bounds(s, c, i + 1);
    }
}

proof fn lemma_find_from_bounds(s: Seq<char>, pat: Seq<char>, from: int)
    ensures
        find_from(s, pat, from) matches Some(k) ==> 0 <= from <= k && k + pat.len() <= s.len(),
    decreases s.len() + 1 - from,
{
    if 0 <= from && from + pat.len() <= s.len() && s.subrange(from, from + pat.len()) != pat {
        lemma_find_from_bounds(s, pat, from + 1);
    }
}

fn find_char(cs: &Vec<char>, c: char, start: usize) -> (r: Option<usize>)
    requires
        start <= cs@.len(),
    ensures
        match r {
            Some(j) => find_char_from(cs@, c, start as int) == Some(j as int),
            None => find_char_from(cs@, c, start as int) is None,
        },
{
    let mut i = start;
    while i < cs.len()
        invariant
            start <= i <= cs@.len(),
            find_char_from(cs@, c, i as int) == find_char_from(cs@, c, start as int),
        decreases cs@.len() - i,
    {
        if cs[i] == c {
            return Some(i);
        }
        i = i + 1;
    }
    None
}

fn matches_at(cs: &Vec<char>, at: usize, pat: &Vec<char>) -> (r: bool)
    requires
        at + pat@.len() <= cs@.len(),
    ensures
        r == (cs@.subrange(at as int, at + pat@.len()) == pat@),
{
    let n = cs.len();
    let mut k: usize = 0;
    while k < pat.len()
        invariant
            k <= pat@.len(),
            n == cs@.len(),
            at + pat@.len() <= cs@.len(),
            forall|m: int| 0 <= m < k ==> cs@[at + m] == pat@[m],
        decreases pat@.len() - k,
    {
        if cs[at + k] != pat[k] {
            assert(cs@.subrange(at as int, at + pat@.len())[k as int] != pat@[k as int]);
            return false;
        }
        k = k + 1;
    }
    assert(cs@.subrange(at as int, at + pat@.len()) =~= pat@);
    true
}

/// The first index `k` with `lo <= k` at which `pat` occurs in `cs[lo..hi]`.
fn find_in(cs: &Vec<char>, lo: usize, hi: usize, pat: &Vec<char>) -> (r: Option<usize>)
    requires
        lo <= hi <= cs@.len(),
    ensures
        match r {
            Some(k) => lo <= k && find_from(cs@.subrange(lo as int, hi as int), pat@, 0) == Some(k - lo),
            None => find_from(cs@.subrange(lo as int, hi as int), pat@, 0) is None,
        },
{
    let ghost line = cs@.subrange(lo as int, hi as int);
    let mut m: usize = 0;
    while m <= hi - lo && pat.len() <= hi - lo - m
        invariant
            lo <= hi <= cs@.len(),
            line == cs@.subrange(lo as int, hi as int),
            m <= hi - lo,
            find_from(line, pat@, m as int) == find_from(line, pat@, 0),
        decreases hi - lo - m,
    {
        assert(line.subrange(m as int, m + pat@.len()) =~= cs@.subrange(lo + m, lo + m + pat@.len()));
        if matches_at(cs, lo + m, pat) {
            return Some(lo + m);
        }
        if m == hi - lo {
            assert(find_from(line, pat@, m + 1) is None);
            return None;
        }
        m = m + 1;
    }
    None
}

/// The value of the field `name` in a fixture's text: what follows `name:`
/// on the first line that holds it, trimmed, without trailing `-->`, trimmed
/// again; `None` if there is no such line or the value is empty.
pub fn metadata_field(text: &str, name: &str) -> (r: Option<String>)
    ensures
        opt_view(r) == metadata_field_spec(text@, name@),
{
    let cs = chars_of(text);
    let mut marker = chars_of(name);
    marker.push(':');
    assert(marker@ =~= name@.push(':'));
    let ghost goal = first_after(lines_from(cs@, 0), marker@);
    let mut i: usize = 0;
    while i < cs.len()
        invariant
            i <= cs@.len(),
            cs@ == text@,
            marker@ == name@.push(':'),
            goal == first_after(lines_from(cs@, 0), marker@),
            first_after(lines_from(cs@, i as int), marker@) == goal,
        decreases cs@.len() - i,
    {
        let (end, next) = match find_char(&cs, '\n', i) {
            Some(j) => {
                proof {
                    lemma_find_char_bounds(cs@, '\n', i as int);
                }
                if j > i && cs[j - 1] == '\r' {
                    (j - 1, j + 1)
                } else {
                    (j, j + 1)
                }
            },
            None => (cs.len(), cs.len()),
        };
        let ghost line = cs@.subrange(i as int, end as int);
        assert(lines_from(cs@, i as int) =~= seq![line] + lines_from(cs@, next as int));
        assert((seq![line] + lines_from(cs@, next as int))[0] == line);
        assert((seq![line] + lines_from(cs@, next as int)).drop_first() =~= lines_from(cs@, next as int));
        match find_in(&cs, i, end, &marker) {
            Some(k) => {
                proof {
                    lemma_find_from_bounds(line, marker@, 0);
                }
                let v = string_of(&cs, k + marker.len(), end);
                assert(v@ =~= line.subrange((k - i) + marker@.len(), line.len() as int));
                assert(first_after(seq![line] + lines_from(cs@, next as int), marker@) == Some(v@));
                assert(goal == Some(v@));
                assert(first_after(lines_from(text@, 0), name@.push(':')) == Some(v@));
                let r = field_value_of(v.as_str());
                assert(opt_view(r) == metadata_field_spec(text@, name@));
                return r;
            },
            None => {},
        }
        i = next;
    }
    None
}

/// The value of a field from what follows its marker: trimmed, without
/// trailing `-->`, trimmed again; `None` if that is empty.
fn field_value_of(v: &str) -> (r: Option<String>)
    ensures
        opt_view(r) == ({
            let t = trim(strip_suffixes(trim(v@), "-->"@));
            if t.len() == 0 { None::<Seq<char>> } else { Some(t) }
        }),
{
    let t = trim_str(v);
    let u = trim_end_matches_str(t, "-->");
    let w = trim_str(u);
    if w.is_empty() {
        None
    } else {
        Some(w.to_owned())
    }
}

} // verus!
