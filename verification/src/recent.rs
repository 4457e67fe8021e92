//! Recency tracking: a played track is excluded from reselection until a
//! six-hour window has passed.

use vstd::prelude::*;
use crate::digits::digits_val;
use crate::digits::is_digit;
use crate::digits::parse_number;
use crate::digits::render_number;
use crate::digits::spec_decimal;
use crate::digits::valid_number;

verus! {

/// Exclusion window in seconds: six hours.
pub const EXCLUSION_SECS: u64 = 21_600;

/// Timestamps are kept below 2^63 so that adding the window never overflows.
pub const TS_MAX: u64 = 0x8000_0000_0000_0000;

/// The set of recently played tracks: catalog index paired with the Unix
/// timestamp (seconds) of its last play. At most one entry per index.
#[derive(Clone, Debug)]
pub struct RecentPlayRecord {
    pub entries: Vec<(usize, u64)>,
}

/// `e` is one of the record's entries.
pub open spec fn spec_has_entry(rec: RecentPlayRecord, k: int, t: u64) -> bool {
    exists|i: int|
        0 <= i < rec.entries@.len() && rec.entries@[i].0 == k && rec.entries@[i].1 == t
}

/// Index `k` was played less than the exclusion window before `now`.
/// A timestamp in the future counts as recent as well.
pub open spec fn spec_excluded(rec: RecentPlayRecord, k: int, now: u64) -> bool {
    exists|i: int|
        0 <= i < rec.entries@.len() && rec.entries@[i].0 == k && now < rec.entries@[i].1
            + EXCLUSION_SECS
}

impl RecentPlayRecord {
    /// Indices are unique and timestamps small enough for window arithmetic.
    pub open spec fn wf(self) -> bool {
        &&& forall|i: int, j: int|
            0 <= i < j < self.entries@.len() ==> self.entries@[i].0 != self.entries@[j].0
        &&& forall|i: int| 0 <= i < self.entries@.len() ==> self.entries@[i].1 < TS_MAX
    }

    /// The empty record: nothing is excluded.
    pub fn new() -> (r: RecentPlayRecord)
        ensures
            r.wf(),
            r.entries@.len() == 0,
            forall|k: int, now: u64| !spec_excluded(r, k, now),
    {
        RecentPlayRecord { entries: Vec::new() }
    }
}

/// True iff `idx` is present with a timestamp less than six hours old.
pub fn is_recently_played(idx: usize, record: &RecentPlayRecord, now: u64) -> (r: bool)
    requires
        record.wf(),
    ensures
        r == spec_excluded(*record, idx as int, now),
{
    let n: usize = record.entries.len();
    let mut i: usize = 0;
    while i < n
        invariant
            n == record.entries@.len(),
            0 <= i <= n,
            record.wf(),
            forall|j: int| 0 <= j < i ==> record.entries@[j].0 != idx as int,
        decreases n - i,
    {
        let e: (usize, u64) = record.entries[i];
        if e.0 == idx {
            let fresh: bool = now < e.1 + EXCLUSION_SECS;
            proof {
                if !fresh {
                    assert(forall|j: int|
                        0 <= j < record.entries@.len() && j != i ==> record.entries@[j].0
                            != idx as int);
                }
            }
            return fresh;
        }
        i += 1;
    }
    false
}

/// Inserts `idx -> now`, then purges every entry older than the window.
/// The returned record is exactly the old one with `idx` overwritten and
/// stale entries dropped, and `idx` itself is excluded at `now`.
pub fn record_played_song(idx: usize, record: &RecentPlayRecord, now: u64) -> (r: RecentPlayRecord)
    requires
        record.wf(),
        now < TS_MAX,
    ensures
        r.wf(),
        spec_has_entry(r, idx as int, now),
        spec_excluded(r, idx as int, now),
        forall|k: int, t: u64|
            spec_has_entry(r, k, t) <==> (k == idx as int && t == now) || (k != idx as int
                && spec_has_entry(*record, k, t) && now < t + EXCLUSION_SECS),
{
    let n: usize = record.entries.len();
    let mut out: Vec<(usize, u64)> = Vec::new();
    out.push((idx, now));
    let mut i: usize = 0;
    while i < n
        invariant
            n == record.entries@.len(),
            0 <= i <= n,
            record.wf(),
            now < TS_MAX,
            out@.len() >= 1,
            out@[0] == (idx, now),
            forall|j: int|
                1 <= j < out@.len() ==> out@[j].0 != idx as int && now < out@[j].1
                    + EXCLUSION_SECS,
            forall|j: int|
                1 <= j < out@.len() ==> exists|s: int|
                    0 <= s < i && record.entries@[s] == #[trigger] out@[j],
            forall|s: int|
                0 <= s < i && record.entries@[s].0 != idx as int && now < record.entries@[s].1
                    + EXCLUSION_SECS ==> out@.contains(record.entries@[s]),
            forall|j1: int, j2: int| 0 <= j1 < j2 < out@.len() ==> out@[j1].0 != out@[j2].0,
        decreases n - i,
    {
        let e: (usize, u64) = record.entries[i];
        if e.0 != idx && now < e.1 + EXCLUSION_SECS {
            proof {
                assert forall|j: int| 1 <= j < out@.len() implies out@[j].0 != e.0 by {
                    let s = choose|s: int| 0 <= s < i && record.entries@[s] == out@[j];
                    assert(record.entries@[s].0 != record.entries@[i as int].0);
                }
            }
            let ghost prev = out@;
            out.push(e);
            proof {
                assert(out@ == prev.push(e));
                assert(out@[prev.len() as int] == e);
                assert forall|s: int|
                    0 <= s < i + 1 && record.entries@[s].0 != idx as int && now
                        < record.entries@[s].1 + EXCLUSION_SECS implies out@.contains(
                    record.entries@[s]) by {
                    if s == i {
                        assert(out@[prev.len() as int] == record.entries@[s]);
                    } else {
                        let j = choose|j: int| 0 <= j < prev.len() && prev[j] == record.entries@[s];
                        assert(out@[j] == record.entries@[s]);
                    }
                }
            }
        } else {
            proof {
                assert forall|s: int|
                    0 <= s < i + 1 && record.entries@[s].0 != idx as int && now
                        < record.entries@[s].1 + EXCLUSION_SECS implies out@.contains(
                    record.entries@[s]) by {
                    assert(s != i);
                }
            }
        }
        i += 1;
    }
    let r = RecentPlayRecord { entries: out };
    proof {
        assert(r.entries@[0] == (idx, now));
        assert forall|k: int, t: u64|
            spec_has_entry(r, k, t) <==> ((k == idx as int && t == now) || (k != idx as int
                && spec_has_entry(*record, k, t) && now < t + EXCLUSION_SECS)) by {
            if spec_has_entry(r, k, t) {
                let j = choose|j: int|
                    0 <= j < r.entries@.len() && r.entries@[j].0 == k && r.entries@[j].1 == t;
                if j != 0 {
                    let s = choose|s: int| 0 <= s < n && record.entries@[s] == r.entries@[j];
                    assert(spec_has_entry(*record, k, t));
                }
            }
            if (k == idx as int && t == now) {
                assert(spec_has_entry(r, k, t));
            } else if (k != idx as int && spec_has_entry(*record, k, t) && now < t
                + EXCLUSION_SECS) {
                let s = choose|s: int|
                    0 <= s < record.entries@.len() && record.entries@[s].0 == k
                        && record.entries@[s].1 == t;
                assert(out@.contains(record.entries@[s]));
                let j = choose|j: int| 0 <= j < out@.len() && out@[j] == record.entries@[s];
                assert(spec_has_entry(r, k, t));
            }
        }
    }
    r
}

/// The store's line for one entry: the index's digits, a comma, the
/// timestamp's digits.
pub open spec fn spec_line(k: int, t: int) -> Seq<u8> {
    spec_decimal(k) + seq![44u8] + spec_decimal(t)
}

/// A line the store accepts: digits, one comma, digits.
pub open spec fn spec_line_valid(s: Seq<u8>) -> bool {
    exists|i: int|
        0 <= i < s.len() && #[trigger] s[i] == 44 && valid_number(s.subrange(0, i))
            && valid_number(s.subrange(i + 1, s.len() as int))
}

/// The comma position of a valid line.
pub open spec fn spec_comma_at(s: Seq<u8>) -> int {
    choose|i: int|
        0 <= i < s.len() && #[trigger] s[i] == 44 && valid_number(s.subrange(0, i))
            && valid_number(s.subrange(i + 1, s.len() as int))
}

/// The index a valid line carries.
pub open spec fn spec_line_key(s: Seq<u8>) -> int {
    digits_val(s.subrange(0, spec_comma_at(s)))
}

/// The timestamp a valid line carries.
pub open spec fn spec_line_ts(s: Seq<u8>) -> int {
    digits_val(s.subrange(spec_comma_at(s) + 1, s.len() as int))
}

/// The position of the first comma, or the length when there is none.
fn find_comma(line: &Vec<u8>) -> (r: usize)
    ensures
        r <= line@.len(),
        r < line@.len() ==> line@[r as int] == 44,
        forall|j: int| 0 <= j < r ==> line@[j] != 44,
{
    let n: usize = line.len();
    let mut c: usize = 0;
    while c < n
        invariant
            0 <= c <= n,
            n == line@.len(),
            forall|j: int| 0 <= j < c ==> line@[j] != 44,
        decreases n - c,
    {
        if line[c] == 44 {
            return c;
        }
        c += 1;
    }
    c
}

/// Reads one store line. A valid line yields its index and timestamp; any
/// malformed line yields nothing and is simply skipped by the loader, so a
/// damaged store never fails the caller.
pub fn parse_recent_line(line: &Vec<u8>) -> (r: Option<(u64, u64)>)
    ensures
        match r {
            Some(p) => spec_line_valid(line@) && p.0 == spec_line_key(line@) && p.1
                == spec_line_ts(line@),
            None => !spec_line_valid(line@),
        },
{
    let n: usize = line.len();
    let c: usize = find_comma(line);
    if c == n {
        proof {
            if spec_line_valid(line@) {
                let i = spec_comma_at(line@);
                assert(line@[i] == 44);
            }
        }
        return None;
    }
    let left: Option<u64> = parse_number(line, 0, c);
    let right: Option<u64> = parse_number(line, c + 1, n);
    if let (Some(k), Some(t)) = (left, right) {
        proof {
            assert(valid_number(line@.subrange(0, c as int)) && valid_number(
                line@.subrange(c + 1, n as int),
            )) by {
                if !valid_number(line@.subrange(0, c as int)) || !valid_number(
                    line@.subrange(c + 1, n as int),
                ) {
                    assert(left.is_none() || right.is_none());
                }
            }
            assert(spec_line_valid(line@));
            let i = spec_comma_at(line@);
            if i < c {
                assert(line@[i] != 44);
            }
            if i > c {
                assert(line@.subrange(0, i)[c as int] == 44);
                assert(!is_digit(44));
            }
            assert(i == c);
            crate::digits::lemma_digits_val_bound(line@.subrange(0, c as int));
            crate::digits::lemma_digits_val_bound(line@.subrange(c + 1, n as int));
            crate::digits::lemma_pow10_mono(line@.subrange(0, c as int).len(), 19);
            crate::digits::lemma_pow10_mono(line@.subrange(c + 1, n as int).len(), 19);
            assert(crate::digits::pow10(19) == 10_000_000_000_000_000_000) by {
                reveal_with_fuel(crate::digits::pow10, 21);
            }
        }
        Some((k, t))
    } else {
        proof {
            if spec_line_valid(line@) {
                let i = spec_comma_at(line@);
                if i < c {
                    assert(line@[i] != 44);
                }
                if i > c {
                    assert(line@.subrange(0, i)[c as int] == 44);
                    assert(!is_digit(44));
                }
                assert(i == c);
                assert(left.is_some() && right.is_some());
            }
        }
        None
    }
}

/// Writes one store line for an entry.
pub fn render_recent_line(idx: u64, ts: u64) -> (r: Vec<u8>)
    ensures
        r@ == spec_line(idx as int, ts as int),
{
    let mut v: Vec<u8> = render_number(idx);
    v.push(44);
    let mut t: Vec<u8> = render_number(ts);
    v.append(&mut t);
    proof {
        assert(v@ =~= spec_line(idx as int, ts as int));
    }
    v
}

/// Inserts or overwrites one entry, leaving every other entry in place.
pub fn insert_entry(record: &RecentPlayRecord, idx: usize, ts: u64) -> (r: RecentPlayRecord)
    requires
        record.wf(),
        ts < TS_MAX,
    ensures
        r.wf(),
        forall|k: int, t: u64|
            spec_has_entry(r, k, t) <==> (k == idx as int && t == ts) || (k != idx as int
                && spec_has_entry(*record, k, t)),
{
    let n: usize = record.entries.len();
    let mut out: Vec<(usize, u64)> = Vec::new();
    out.push((idx, ts));
    let mut i: usize = 0;
    while i < n
        invariant
            n == record.entries@.len(),
            0 <= i <= n,
            record.wf(),
            ts < TS_MAX,
            out@.len() >= 1,
            out@[0] == (idx, ts),
            forall|j: int| 1 <= j < out@.len() ==> out@[j].0 != idx as int,
            forall|j: int|
                1 <= j < out@.len() ==> exists|s: int|
                    0 <= s < i && record.entries@[s] == #[trigger] out@[j],
            forall|s: int|
                0 <= s < i && record.entries@[s].0 != idx as int ==> out@.contains(
                    record.entries@[s],
                ),
            forall|j1: int, j2: int| 0 <= j1 < j2 < out@.len() ==> out@[j1].0 != out@[j2].0,
        decreases n - i,
    {
        let e: (usize, u64) = record.entries[i];
        if e.0 != idx {
            proof {
                assert forall|j: int| 1 <= j < out@.len() implies out@[j].0 != e.0 by {
                    let s = choose|s: int| 0 <= s < i && record.entries@[s] == out@[j];
                    assert(record.entries@[s].0 != record.entries@[i as int].0);
                }
            }
            let ghost prev = out@;
            out.push(e);
            proof {
                assert(out@[prev.len() as int] == e);
                assert forall|s: int|
                    0 <= s < i + 1 && record.entries@[s].0 != idx as int implies out@.contains(
                    record.entries@[s]) by {
                    if s == i {
                        assert(out@[prev.len() as int] == record.entries@[s]);
                    } else {
                        let j = choose|j: int| 0 <= j < prev.len() && prev[j] == record.entries@[s];
                        assert(out@[j] == record.entries@[s]);
                    }
                }
            }
        } else {
            proof {
                assert forall|s: int|
                    0 <= s < i + 1 && record.entries@[s].0 != idx as int implies out@.contains(
                    record.entries@[s]) by {
                    assert(s != i);
                }
            }
        }
        i += 1;
    }
    let r = RecentPlayRecord { entries: out };
    proof {
        assert forall|k: int, t: u64|
            spec_has_entry(r, k, t) <==> ((k == idx as int && t == ts) || (k != idx as int
                && spec_has_entry(*record, k, t))) by {
            if spec_has_entry(r, k, t) {
                let j = choose|j: int|
                    0 <= j < r.entries@.len() && r.entries@[j].0 == k && r.entries@[j].1 == t;
                if j != 0 {
                    let s = choose|s: int| 0 <= s < n && record.entries@[s] == r.entries@[j];
                    assert(spec_has_entry(*record, k, t));
                }
            }
            if (k == idx as int && t == ts) {
                assert(r.entries@[0] == (idx, ts));
                assert(spec_has_entry(r, k, t));
            } else if (k != idx as int && spec_has_entry(*record, k, t)) {
                let s = choose|s: int|
                    0 <= s < record.entries@.len() && record.entries@[s].0 == k
                        && record.entries@[s].1 == t;
                assert(record.entries@[s].0 != idx as int);
                assert(out@.contains(record.entries@[s]));
                let j = choose|j: int| 0 <= j < out@.len() && out@[j] == record.entries@[s];
                assert(0 <= j < r.entries@.len() && r.entries@[j].0 == k && r.entries@[j].1 == t);
                assert(spec_has_entry(r, k, t));
            }
        }
    }
    r
}

/// A line the loader takes an entry from: valid, with an index that fits
/// the platform and a timestamp below the store's bound.
pub open spec fn spec_line_loadable(s: Seq<u8>) -> bool {
    spec_line_valid(s) && spec_line_key(s) <= usize::MAX && spec_line_ts(s) < TS_MAX
}

/// Rebuilds the record from the store's lines. Malformed lines are
/// skipped; a later line for the same index overwrites an earlier one.
/// An empty or wholly damaged store yields the empty record.
pub fn load_from_lines(lines: &Vec<Vec<u8>>) -> (r: RecentPlayRecord)
    ensures
        r.wf(),
        forall|k: int, t: u64|
            spec_has_entry(r, k, t) ==> exists|i: int|
                0 <= i < lines@.len() && spec_line_loadable(#[trigger] lines@[i]@) && spec_line_key(
                    lines@[i]@,
                ) == k && spec_line_ts(lines@[i]@) == t,
        forall|i: int|
            0 <= i < lines@.len() && spec_line_loadable(#[trigger] lines@[i]@) && (forall|j: int|
                i < j < lines@.len() ==> !(spec_line_loadable(#[trigger] lines@[j]@)
                    && spec_line_key(lines@[j]@) == spec_line_key(lines@[i]@))) ==> spec_has_entry(
                r,
                spec_line_key(lines@[i]@),
                spec_line_ts(lines@[i]@) as u64,
            ),
{
    let n: usize = lines.len();
    let mut rec: RecentPlayRecord = RecentPlayRecord::new();
    let mut p: usize = 0;
    while p < n
        invariant
            0 <= p <= n,
            n == lines@.len(),
            rec.wf(),
            forall|k: int, t: u64|
                spec_has_entry(rec, k, t) ==> exists|i: int|
                    0 <= i < p && spec_line_loadable(#[trigger] lines@[i]@) && spec_line_key(
                        lines@[i]@,
                    ) == k && spec_line_ts(lines@[i]@) == t,
            forall|i: int|
                0 <= i < p && spec_line_loadable(#[trigger] lines@[i]@) && (forall|j: int|
                    i < j < p ==> !(spec_line_loadable(#[trigger] lines@[j]@) && spec_line_key(
                        lines@[j]@,
                    ) == spec_line_key(lines@[i]@))) ==> spec_has_entry(
                    rec,
                    spec_line_key(lines@[i]@),
                    spec_line_ts(lines@[i]@) as u64,
                ),
        decreases n - p,
    {
        let parsed: Option<(u64, u64)> = parse_recent_line(&lines[p]);
        if let Some((k64, ts)) = parsed {
            if k64 <= (usize::MAX as u64) && ts < TS_MAX {
                let k: usize = k64 as usize;
                rec = insert_entry(&rec, k, ts);
                proof {
                    assert(spec_line_loadable(lines@[p as int]@));
                }
            }
        }
        p += 1;
    }
    rec
}

/// Writes the whole record, one store line per entry, for the caller to
/// persist in full (overwrite, not append).
pub fn render_record(record: &RecentPlayRecord) -> (r: Vec<Vec<u8>>)
    ensures
        r@.len() == record.entries@.len(),
        forall|i: int|
            0 <= i < r@.len() ==> #[trigger] r@[i]@ == spec_line(
                record.entries@[i].0 as int,
                record.entries@[i].1 as int,
            ),
{
    let n: usize = record.entries.len();
    let mut out: Vec<Vec<u8>> = Vec::new();
    let mut i: usize = 0;
    while i < n
        invariant
            0 <= i <= n,
            n == record.entries@.len(),
            out@.len() == i,
            forall|j: int|
                0 <= j < i ==> #[trigger] out@[j]@ == spec_line(
                    record.entries@[j].0 as int,
                    record.entries@[j].1 as int,
                ),
        decreases n - i,
    {
        let e: (usize, u64) = record.entries[i];
        let line: Vec<u8> = render_recent_line(e.0 as u64, e.1);
        out.push(line);
        i += 1;
    }
    out
}

/// Writing an entry and reading it back yields the entry: a rendered
/// store line is valid and carries exactly the index and timestamp it was
/// rendered from (both below the store's nineteen-digit bound).
pub proof fn lemma_store_line_round_trip(idx: u64, ts: u64)
    requires
        idx < 10_000_000_000_000_000_000,
        ts < 10_000_000_000_000_000_000,
    ensures
        spec_line_valid(spec_line(idx as int, ts as int)),
        spec_line_key(spec_line(idx as int, ts as int)) == idx,
        spec_line_ts(spec_line(idx as int, ts as int)) == ts,
{
    assert(crate::digits::pow10(19) == 10_000_000_000_000_000_000) by {
        reveal_with_fuel(crate::digits::pow10, 21);
    }
    crate::digits::lemma_decimal_digits(idx as int, 19);
    crate::digits::lemma_decimal_digits(ts as int, 19);
    let left = spec_decimal(idx as int);
    let right = spec_decimal(ts as int);
    let s = spec_line(idx as int, ts as int);
    let c = left.len() as int;
    assert(s[c] == 44);
    assert(s.subrange(0, c) =~= left);
    assert(s.subrange(c + 1, s.len() as int) =~= right);
    assert(!is_digit(44));
    assert(spec_line_valid(s));
    let i = spec_comma_at(s);
    if i < c {
        assert(s[i] == left[i]);
        assert(is_digit(left[i]));
    }
    if i > c {
        assert(s[i] == right[i - c - 1]);
        assert(is_digit(right[i - c - 1]));
    }
    assert(i == c);
}

} // verus!
