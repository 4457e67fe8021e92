//! Track selection: nearest mood by squared Euclidean distance, a recency
//! filter, an optional two-volume pre-filter, and a uniformly random pick
//! among every candidate within 1.2 times the minimum distance.
//!
//! The widened-threshold test `d <= 1.2 * min` is carried out exactly on
//! squared distances as `25 * d2 <= 36 * min2`.

use vstd::prelude::*;
use crate::mood::COMP_MAX;
use crate::mood::MoodVector;
use crate::mood::euclidean_distance_sq;
use crate::mood::spec_distance_sq;
use crate::recent::RecentPlayRecord;
use crate::recent::TS_MAX;
use crate::recent::is_recently_played;
use crate::recent::record_played_song;
use crate::recent::spec_excluded;
use crate::rng::rng_next;
use crate::clock::Time;
use crate::digits::render_number;
use crate::digits::spec_decimal;
use vstd::string::StringSliceAdditionalSpecFns;

verus! {

/// A catalog entry: a display name and the track's native mood affinities,
/// in micros. Catalog moods come from input data and need not be normalized.
#[derive(Clone, Debug)]
pub struct Song {
    pub track: String,
    pub happy: i64,
    pub melancholic: i64,
    pub hopeful: i64,
    pub nostalgic: i64,
    pub mysterious: i64,
    pub relaxing: i64,
}

/// The mood carried by a catalog entry.
pub open spec fn spec_song_mood(s: Song) -> MoodVector {
    MoodVector {
        happy: s.happy,
        melancholic: s.melancholic,
        hopeful: s.hopeful,
        nostalgic: s.nostalgic,
        mysterious: s.mysterious,
        relaxing: s.relaxing,
    }
}

impl Song {
    /// The entry's mood lies within the component bound.
    pub open spec fn wf(self) -> bool {
        spec_song_mood(self).wf()
    }
}

/// Copies a catalog entry's affinities into a mood vector.
pub fn song_to_mood_scores(song: &Song) -> (r: MoodVector)
    ensures
        r == spec_song_mood(*song),
{
    MoodVector {
        happy: song.happy,
        melancholic: song.melancholic,
        hopeful: song.hopeful,
        nostalgic: song.nostalgic,
        mysterious: song.mysterious,
        relaxing: song.relaxing,
    }
}

/// `k` occurs among the collected indices.
pub open spec fn seq_has_idx(s: Seq<usize>, k: int) -> bool {
    exists|j: int| 0 <= j < s.len() && s[j] == k
}

/// Index `i` survives the pre-filter mask and the recency filter.
pub open spec fn spec_pass1_cand(
    i: int,
    n: int,
    mask: Seq<bool>,
    rec: RecentPlayRecord,
    now: u64,
) -> bool {
    0 <= i < n && mask[i] && !spec_excluded(rec, i, now)
}

/// Some index survives both filters.
pub open spec fn spec_any_pass1(n: int, mask: Seq<bool>, rec: RecentPlayRecord, now: u64) -> bool {
    exists|i: int| spec_pass1_cand(i, n, mask, rec, now)
}

/// The candidate set of a selection round: the indices surviving both
/// filters or, when none does, the whole catalog — selection never fails
/// outright.
pub open spec fn spec_candidate(
    i: int,
    n: int,
    mask: Seq<bool>,
    rec: RecentPlayRecord,
    now: u64,
) -> bool {
    if spec_any_pass1(n, mask, rec, now) {
        spec_pass1_cand(i, n, mask, rec, now)
    } else {
        0 <= i < n
    }
}

/// Picks a track index for the given mask: the result is a candidate, and
/// its squared distance to the current mood is within `(1.2)^2 = 36/25`
/// of the least squared distance of any candidate.
pub fn select_from(
    mood: &MoodVector,
    songs: &Vec<Song>,
    record: &RecentPlayRecord,
    now: u64,
    mask: &Vec<bool>,
    rng: &mut rand::rngs::StdRng,
) -> (r: usize)
    requires
        mood.wf(),
        record.wf(),
        1 <= songs@.len(),
        mask@.len() == songs@.len(),
        forall|i: int| 0 <= i < songs@.len() ==> (#[trigger] songs@[i]).wf(),
    ensures
        spec_candidate(r as int, songs@.len() as int, mask@, *record, now),
        forall|j: int|
            spec_candidate(j, songs@.len() as int, mask@, *record, now) ==> 25 * spec_distance_sq(
                *mood,
                spec_song_mood(songs@[r as int]),
            ) <= 36 * spec_distance_sq(*mood, spec_song_mood(songs@[j])),
{
    let ghost n_int = songs@.len() as int;
    let n: usize = songs.len();
    let mut cands: Vec<usize> = Vec::new();
    let mut i: usize = 0;
    while i < n
        invariant
            0 <= i <= n,
            n == songs@.len(),
            mask@.len() == n,
            record.wf(),
            forall|j: int|
                0 <= j < cands@.len() ==> spec_pass1_cand(
                    #[trigger] cands@[j] as int,
                    n as int,
                    mask@,
                    *record,
                    now,
                ),
            forall|k: int|
                0 <= k < i && mask@[k] && !spec_excluded(*record, k, now) ==> seq_has_idx(
                    cands@,
                    k,
                ),
        decreases n - i,
    {
        if mask[i] {
            let excl: bool = is_recently_played(i, record, now);
            if !excl {
                let ghost prev = cands@;
                cands.push(i);
                proof {
                    assert(cands@[prev.len() as int] == i);
                    assert forall|k: int|
                        0 <= k < i + 1 && mask@[k] && !spec_excluded(*record, k, now)
                            implies seq_has_idx(cands@, k) by {
                        if k < i {
                            let j = choose|j: int| 0 <= j < prev.len() && prev[j] == k;
                            assert(cands@[j] == k);
                        } else {
                            assert(cands@[prev.len() as int] == k);
                        }
                    }
                }
            }
        }
        i += 1;
    }
    if cands.len() == 0 {
        proof {
            assert forall|k: int| !spec_pass1_cand(k, n_int, mask@, *record, now) by {
                if spec_pass1_cand(k, n_int, mask@, *record, now) {
                    assert(seq_has_idx(cands@, k));
                }
            }
            assert(!spec_any_pass1(n_int, mask@, *record, now));
        }
        let mut j: usize = 0;
        while j < n
            invariant
                0 <= j <= n,
                cands@.len() == j,
                forall|w: int| 0 <= w < j ==> cands@[w] == w,
                !spec_any_pass1(n_int, mask@, *record, now),
                n == songs@.len(),
            decreases n - j,
        {
            cands.push(j);
            j += 1;
        }
        proof {
            assert forall|j: int| 0 <= j < cands@.len() implies spec_candidate(
                #[trigger] cands@[j] as int,
                n_int,
                mask@,
                *record,
                now,
            ) by {
                assert(cands@[j] == j);
            }
            assert forall|k: int|
                spec_candidate(k, n_int, mask@, *record, now) implies seq_has_idx(cands@, k) by {
                assert(cands@[k] == k);
            }
        }
    } else {
        proof {
            assert(spec_pass1_cand(cands@[0] as int, n_int, mask@, *record, now));
            assert(spec_any_pass1(n_int, mask@, *record, now));
            assert forall|j: int| 0 <= j < cands@.len() implies spec_candidate(
                #[trigger] cands@[j] as int,
                n_int,
                mask@,
                *record,
                now,
            ) by {}
            assert forall|k: int|
                spec_candidate(k, n_int, mask@, *record, now) implies seq_has_idx(cands@, k) by {}
        }
    }
    proof {
        assert(cands@.len() >= 1);
    }
    let first: usize = cands[0];
    let first_mood: MoodVector = song_to_mood_scores(&songs[first]);
    let mut best: i128 = euclidean_distance_sq(mood, &first_mood);
    let mut j: usize = 1;
    while j < cands.len()
        invariant
            1 <= j <= cands@.len(),
            n == songs@.len(),
            mood.wf(),
            forall|i2: int| 0 <= i2 < songs@.len() ==> (#[trigger] songs@[i2]).wf(),
            forall|w: int|
                0 <= w < cands@.len() ==> spec_candidate(
                    #[trigger] cands@[w] as int,
                    n as int,
                    mask@,
                    *record,
                    now,
                ),
            0 <= best <= 24 * COMP_MAX * COMP_MAX,
            exists|w: int|
                0 <= w < j && best == spec_distance_sq(
                    *mood,
                    spec_song_mood(songs@[#[trigger] cands@[w] as int]),
                ),
            forall|w: int|
                0 <= w < j ==> best <= spec_distance_sq(
                    *mood,
                    spec_song_mood(songs@[#[trigger] cands@[w] as int]),
                ),
        decreases cands@.len() - j,
    {
        let idx: usize = cands[j];
        let idx_mood: MoodVector = song_to_mood_scores(&songs[idx]);
        let d: i128 = euclidean_distance_sq(mood, &idx_mood);
        if d < best {
            best = d;
        }
        j += 1;
    }
    let mut fin: Vec<usize> = Vec::new();
    let mut j2: usize = 0;
    while j2 < cands.len()
        invariant
            0 <= j2 <= cands@.len(),
            n == songs@.len(),
            mood.wf(),
            forall|i2: int| 0 <= i2 < songs@.len() ==> (#[trigger] songs@[i2]).wf(),
            forall|w: int|
                0 <= w < cands@.len() ==> spec_candidate(
                    #[trigger] cands@[w] as int,
                    n as int,
                    mask@,
                    *record,
                    now,
                ),
            0 <= best <= 24 * COMP_MAX * COMP_MAX,
            forall|w: int|
                0 <= w < fin@.len() ==> spec_candidate(
                    #[trigger] fin@[w] as int,
                    n as int,
                    mask@,
                    *record,
                    now,
                ) && 25 * spec_distance_sq(*mood, spec_song_mood(songs@[fin@[w] as int])) <= 36
                    * best,
            forall|w: int|
                0 <= w < j2 && 25 * spec_distance_sq(
                    *mood,
                    spec_song_mood(songs@[#[trigger] cands@[w] as int]),
                ) <= 36 * best ==> seq_has_idx(fin@, cands@[w] as int),
        decreases cands@.len() - j2,
    {
        let idx: usize = cands[j2];
        let idx_mood: MoodVector = song_to_mood_scores(&songs[idx]);
        let d: i128 = euclidean_distance_sq(mood, &idx_mood);
        if 25 * d <= 36 * best {
            let ghost prev = fin@;
            fin.push(idx);
            proof {
                assert(fin@[prev.len() as int] == idx);
                assert forall|w: int|
                    0 <= w < j2 + 1 && 25 * spec_distance_sq(
                        *mood,
                        spec_song_mood(songs@[#[trigger] cands@[w] as int]),
                    ) <= 36 * best implies seq_has_idx(fin@, cands@[w] as int) by {
                    if w < j2 {
                        let p = choose|p: int|
                            0 <= p < prev.len() && prev[p] == cands@[w] as int;
                        assert(fin@[p] == cands@[w] as usize);
                    } else {
                        assert(fin@[prev.len() as int] == cands@[w] as usize);
                    }
                }
            }
        }
        j2 += 1;
    }
    proof {
        let w0 = choose|w: int|
            0 <= w < cands@.len() && best == spec_distance_sq(
                *mood,
                spec_song_mood(songs@[cands@[w] as int]),
            );
        assert(25 * best <= 36 * best);
        assert(seq_has_idx(fin@, cands@[w0] as int));
        assert(fin@.len() >= 1);
    }
    let pick: u64 = rng_next(rng) % (fin.len() as u64);
    let k: usize = pick as usize;
    let r: usize = fin[k];
    proof {
        assert forall|jj: int|
            spec_candidate(jj, songs@.len() as int, mask@, *record, now) implies 25
            * spec_distance_sq(*mood, spec_song_mood(songs@[r as int])) <= 36 * spec_distance_sq(
            *mood,
            spec_song_mood(songs@[jj]),
        ) by {
            assert(seq_has_idx(cands@, jj));
            let w = choose|w: int| 0 <= w < cands@.len() && cands@[w] == jj;
            assert(best <= spec_distance_sq(*mood, spec_song_mood(songs@[cands@[w] as int])));
            assert(25 * spec_distance_sq(*mood, spec_song_mood(songs@[r as int])) <= 36 * best);
        }
    }
    r
}

/// The mask that filters nothing: every index stays a candidate.
pub open spec fn spec_all_true(n: int) -> Seq<bool> {
    Seq::new(n as nat, |i: int| true)
}

/// Draws the two-volume pre-filter. With probability 0.4 consideration is
/// restricted to the first volume (indices below the boundary); otherwise
/// the whole second volume stays and each first-volume index survives with
/// probability 0.3. Whatever the draws, one of the two shapes holds.
pub fn prefilter_mask(n: usize, boundary: usize, rng: &mut rand::rngs::StdRng) -> (mask: Vec<
    bool,
>)
    ensures
        mask@.len() == n,
        (forall|i: int| 0 <= i < n ==> #[trigger] mask@[i] == (i < boundary)) || (forall|i: int|
            boundary <= i < n ==> #[trigger] mask@[i]),
{
    let select_first: bool = rng_next(rng) % 1_000_000 < 400_000;
    let mut mask: Vec<bool> = Vec::new();
    let mut i: usize = 0;
    while i < n
        invariant
            0 <= i <= n,
            mask@.len() == i,
            select_first ==> forall|k: int| 0 <= k < i ==> #[trigger] mask@[k] == (k < boundary),
            !select_first ==> forall|k: int| boundary <= k < i ==> #[trigger] mask@[k],
        decreases n - i,
    {
        if select_first {
            mask.push(i < boundary);
        } else if i < boundary {
            let keep: bool = rng_next(rng) % 1_000_000 >= 700_000;
            mask.push(keep);
        } else {
            mask.push(true);
        }
        i += 1;
    }
    mask
}

/// Picks the index of the best-matching track. Without a pre-filter the
/// candidate set is exactly the non-excluded part of the catalog (or the
/// whole catalog when everything is excluded), the result lies within the
/// widened distance threshold of every candidate, and an excluded track is
/// never chosen while a non-excluded one exists. With a pre-filter, which
/// volume survives depends on the draws, so only membership in the catalog
/// is promised here; the threshold property still holds for the drawn mask.
pub fn get_min_dist_to_song_index(
    mood: &MoodVector,
    songs: &Vec<Song>,
    record: &RecentPlayRecord,
    now: u64,
    first_volume_boundary: Option<usize>,
    rng: &mut rand::rngs::StdRng,
) -> (r: usize)
    requires
        mood.wf(),
        record.wf(),
        1 <= songs@.len(),
        forall|i: int| 0 <= i < songs@.len() ==> (#[trigger] songs@[i]).wf(),
    ensures
        r < songs@.len(),
        first_volume_boundary.is_none() ==> spec_candidate(
            r as int,
            songs@.len() as int,
            spec_all_true(songs@.len() as int),
            *record,
            now,
        ),
        first_volume_boundary.is_none() ==> forall|j: int|
            spec_candidate(j, songs@.len() as int, spec_all_true(songs@.len() as int), *record, now)
                ==> 25 * spec_distance_sq(*mood, spec_song_mood(songs@[r as int])) <= 36
                * spec_distance_sq(*mood, spec_song_mood(songs@[j])),
        first_volume_boundary.is_none() && (exists|i: int|
            0 <= i < songs@.len() && !spec_excluded(*record, i, now)) ==> !spec_excluded(
            *record,
            r as int,
            now,
        ),
        forall|b: usize|
            first_volume_boundary == Some(b) ==> exists|mask: Seq<bool>|
                #![trigger mask.len()]
                {
                    &&& mask.len() == songs@.len()
                    &&& ((forall|i: int| 0 <= i < mask.len() ==> #[trigger] mask[i] == (i < b))
                        || (forall|i: int| b <= i < mask.len() ==> #[trigger] mask[i]))
                    &&& spec_candidate(r as int, songs@.len() as int, mask, *record, now)
                    &&& forall|j: int|
                        spec_candidate(j, songs@.len() as int, mask, *record, now) ==> 25
                            * spec_distance_sq(*mood, spec_song_mood(songs@[r as int])) <= 36
                            * spec_distance_sq(*mood, spec_song_mood(songs@[j]))
                },
{
    let n: usize = songs.len();
    let mask: Vec<bool> = match first_volume_boundary {
        Option::Some(b) => prefilter_mask(n, b, rng),
        Option::None => {
            let mut m: Vec<bool> = Vec::new();
            let mut i: usize = 0;
            while i < n
                invariant
                    0 <= i <= n,
                    m@.len() == i,
                    forall|k: int| 0 <= k < i ==> #[trigger] m@[k],
                decreases n - i,
            {
                m.push(true);
                i += 1;
            }
            proof {
                assert(m@ =~= spec_all_true(n as int));
            }
            m
        },
    };
    let r: usize = select_from(mood, songs, record, now, &mask, rng);
    proof {
        let n_int = songs@.len() as int;
        assert(spec_candidate(r as int, n_int, mask@, *record, now));
        if first_volume_boundary.is_none() {
            assert(mask@ == spec_all_true(n_int));
            if exists|i: int| 0 <= i < n_int && !spec_excluded(*record, i, now) {
                let w = choose|i: int| 0 <= i < n_int && !spec_excluded(*record, i, now);
                assert(mask@[w]);
                assert(spec_pass1_cand(w, n_int, mask@, *record, now));
                assert(spec_any_pass1(n_int, mask@, *record, now));
            }
        }
    }
    r
}

/// One full selection round, as the caller sees it: picks a track for the
/// current mood and records the play, returning the chosen index together
/// with the updated recency record for the caller to persist.
pub fn select(
    mood: &MoodVector,
    songs: &Vec<Song>,
    record: &RecentPlayRecord,
    now: u64,
    first_volume_boundary: Option<usize>,
    rng: &mut rand::rngs::StdRng,
) -> (r: (usize, RecentPlayRecord))
    requires
        mood.wf(),
        record.wf(),
        1 <= songs@.len(),
        now < TS_MAX,
        forall|i: int| 0 <= i < songs@.len() ==> (#[trigger] songs@[i]).wf(),
    ensures
        r.0 < songs@.len(),
        first_volume_boundary.is_none() ==> forall|j: int|
            spec_candidate(j, songs@.len() as int, spec_all_true(songs@.len() as int), *record, now)
                ==> 25 * spec_distance_sq(*mood, spec_song_mood(songs@[r.0 as int])) <= 36
                * spec_distance_sq(*mood, spec_song_mood(songs@[j])),
        first_volume_boundary.is_none() && (exists|i: int|
            0 <= i < songs@.len() && !spec_excluded(*record, i, now)) ==> !spec_excluded(
            *record,
            r.0 as int,
            now,
        ),
        forall|b: usize|
            first_volume_boundary == Some(b) ==> exists|mask: Seq<bool>|
                #![trigger mask.len()]
                {
                    &&& mask.len() == songs@.len()
                    &&& ((forall|i: int| 0 <= i < mask.len() ==> #[trigger] mask[i] == (i < b))
                        || (forall|i: int| b <= i < mask.len() ==> #[trigger] mask[i]))
                    &&& spec_candidate(r.0 as int, songs@.len() as int, mask, *record, now)
                    &&& forall|j: int|
                        spec_candidate(j, songs@.len() as int, mask, *record, now) ==> 25
                            * spec_distance_sq(*mood, spec_song_mood(songs@[r.0 as int])) <= 36
                            * spec_distance_sq(*mood, spec_song_mood(songs@[j]))
                },
        r.1.wf(),
        crate::recent::spec_has_entry(r.1, r.0 as int, now),
        spec_excluded(r.1, r.0 as int, now),
        forall|k: int, t: u64|
            crate::recent::spec_has_entry(r.1, k, t) <==> (k == r.0 as int && t == now) || (k
                != r.0 as int && crate::recent::spec_has_entry(*record, k, t) && now < t
                + crate::recent::EXCLUSION_SECS),
{
    let idx: usize = get_min_dist_to_song_index(mood, songs, record, now, first_volume_boundary, rng);
    let updated: RecentPlayRecord = record_played_song(idx, record, now);
    (idx, updated)
}

/// Appends a byte slice.
fn push_bytes(v: &mut Vec<u8>, s: &[u8])
    ensures
        final(v)@ == old(v)@ + s@,
{
    let n: usize = s.len();
    let mut i: usize = 0;
    while i < n
        invariant
            0 <= i <= n,
            n == s@.len(),
            v@ == old(v)@ + s@.subrange(0, i as int),
        decreases n - i,
    {
        let b: u8 = s[i];
        v.push(b);
        proof {
            assert(v@ =~= old(v)@ + s@.subrange(0, i + 1));
        }
        i += 1;
    }
    proof {
        assert(v@ =~= old(v)@ + s@);
    }
}

/// Appends a number's decimal digits.
fn push_num(v: &mut Vec<u8>, n: u64)
    ensures
        final(v)@ == old(v)@ + spec_decimal(n as int),
{
    let d: Vec<u8> = render_number(n);
    push_bytes(v, d.as_slice());
}

/// A number zero-padded to two digits, as the log's date fields are.
pub open spec fn spec_pad2(n: int) -> Seq<u8> {
    if n < 10 {
        seq![48u8] + spec_decimal(n)
    } else {
        spec_decimal(n)
    }
}

/// A number zero-padded to four digits, as the log's year is.
pub open spec fn spec_pad4(n: int) -> Seq<u8> {
    if n < 10 {
        seq![48u8, 48u8, 48u8] + spec_decimal(n)
    } else if n < 100 {
        seq![48u8, 48u8] + spec_decimal(n)
    } else if n < 1000 {
        seq![48u8] + spec_decimal(n)
    } else {
        spec_decimal(n)
    }
}

/// Appends a number zero-padded to two digits.
fn push_pad2(v: &mut Vec<u8>, n: u64)
    ensures
        final(v)@ == old(v)@ + spec_pad2(n as int),
{
    if n < 10 {
        v.push(48);
    }
    push_num(v, n);
    proof {
        assert(v@ =~= old(v)@ + spec_pad2(n as int));
    }
}

/// Appends a number zero-padded to four digits.
fn push_pad4(v: &mut Vec<u8>, n: u64)
    ensures
        final(v)@ == old(v)@ + spec_pad4(n as int),
{
    if n < 10 {
        v.push(48);
        v.push(48);
        v.push(48);
    } else if n < 100 {
        v.push(48);
        v.push(48);
    } else if n < 1000 {
        v.push(48);
    }
    push_num(v, n);
    proof {
        assert(v@ =~= old(v)@ + spec_pad4(n as int));
    }
}

/// One selection-log line, without the trailing newline: the zero-padded
/// timestamp in brackets, the chosen index, its name, and the season.
pub open spec fn spec_log_line(t: Time, idx: int, name: Seq<u8>) -> Seq<u8> {
    ("[").spec_bytes() + spec_pad4(t.year as int) + ("-").spec_bytes() + spec_pad2(t.month as int)
        + ("-").spec_bytes() + spec_pad2(t.day as int) + (" ").spec_bytes() + spec_pad2(
        t.hour as int,
    ) + (":").spec_bytes() + spec_pad2(t.min as int) + ("] Selected song index: ").spec_bytes()
        + spec_decimal(idx) + (" (").spec_bytes() + name + (") - Season: ").spec_bytes()
        + vstd::utf8::encode_utf8(t.season@)
}

/// Renders the append-only selection log's line for one pick, exactly as
/// `spec_log_line` states it. Writing it out is the caller's best-effort
/// side operation and must never block selection.
pub fn render_log_line(time: &Time, idx: u64, name: &str) -> (r: Vec<u8>)
    ensures
        r@ == spec_log_line(*time, idx as int, name.spec_bytes()),
{
    let mut v: Vec<u8> = Vec::new();
    push_bytes(&mut v, "[".as_bytes());
    push_pad4(&mut v, time.year as u64);
    push_bytes(&mut v, "-".as_bytes());
    push_pad2(&mut v, time.month as u64);
    push_bytes(&mut v, "-".as_bytes());
    push_pad2(&mut v, time.day as u64);
    push_bytes(&mut v, " ".as_bytes());
    push_pad2(&mut v, time.hour as u64);
    push_bytes(&mut v, ":".as_bytes());
    push_pad2(&mut v, time.min as u64);
    push_bytes(&mut v, "] Selected song index: ".as_bytes());
    push_num(&mut v, idx);
    push_bytes(&mut v, " (".as_bytes());
    push_bytes(&mut v, name.as_bytes());
    push_bytes(&mut v, ") - Season: ".as_bytes());
    push_bytes(&mut v, time.season.as_str().as_bytes());
    proof {
        assert(v@ =~= spec_log_line(*time, idx as int, name.spec_bytes()));
    }
    v
}

} // verus!
