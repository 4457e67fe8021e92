use mood_player::mood::MoodVector;
use mood_player::mood::SCALE;
use mood_player::recent::RecentPlayRecord;
use mood_player::recent::is_recently_played;
use mood_player::recent::record_played_song;
use mood_player::selector::Song;
use mood_player::selector::get_min_dist_to_song_index;
use mood_player::selector::prefilter_mask;
use mood_player::selector::render_log_line;
use mood_player::clock::Time;
use mood_player::selector::select;
use mood_player::selector::song_to_mood_scores;
use rand::SeedableRng;
use rand::rngs::StdRng;

fn song(track: &str, h: i64, m: i64) -> Song {
    Song {
        track: track.to_string(),
        happy: h,
        melancholic: m,
        hopeful: 0,
        nostalgic: 0,
        mysterious: 0,
        relaxing: 0,
    }
}

fn mood_happy() -> MoodVector {
    MoodVector { happy: SCALE, melancholic: 0, hopeful: 0, nostalgic: 0, mysterious: 0, relaxing: 0 }
}

fn catalog() -> Vec<Song> {
    vec![
        song("a", SCALE, 0),
        song("b", 0, SCALE),
        song("c", 900_000, 100_000),
    ]
}

#[test]
fn zero_min_distance_selects_the_exact_match() {
    // The nearest track is at distance zero, so the widened threshold is
    // zero as well and the choice is forced, whatever the generator does.
    let songs = catalog();
    let empty = RecentPlayRecord::new();
    for seed in 0..20u64 {
        let mut rng = StdRng::seed_from_u64(seed);
        let idx = get_min_dist_to_song_index(&mood_happy(), &songs, &empty, 1_000, None, &mut rng);
        assert_eq!(idx, 0);
    }
}

#[test]
fn excluded_track_is_never_selected_while_another_candidate_exists() {
    let songs = catalog();
    let empty = RecentPlayRecord::new();
    let now: u64 = 1_000_000;
    // Track 0 was just played: it is excluded, so the nearest remaining
    // track (index 2) must win.
    let rec = record_played_song(0, &empty, now);
    for seed in 0..20u64 {
        let mut rng = StdRng::seed_from_u64(seed);
        let idx = get_min_dist_to_song_index(&mood_happy(), &songs, &rec, now, None, &mut rng);
        assert_eq!(idx, 2);
    }
}

#[test]
fn exclusion_expires_at_the_window_boundary() {
    let songs = catalog();
    let empty = RecentPlayRecord::new();
    let played_at: u64 = 1_000_000;
    let rec = record_played_song(0, &empty, played_at);
    assert!(is_recently_played(0, &rec, played_at + 21_599));
    assert!(!is_recently_played(0, &rec, played_at + 21_600));
    let mut rng = StdRng::seed_from_u64(3);
    let idx = get_min_dist_to_song_index(
        &mood_happy(),
        &songs,
        &rec,
        played_at + 21_600,
        None,
        &mut rng,
    );
    assert_eq!(idx, 0);
}

#[test]
fn all_excluded_falls_back_to_the_whole_catalog() {
    let songs = catalog();
    let empty = RecentPlayRecord::new();
    let now: u64 = 5_000_000;
    let mut rec = record_played_song(0, &empty, now);
    rec = record_played_song(1, &rec, now);
    rec = record_played_song(2, &rec, now);
    let mut rng = StdRng::seed_from_u64(9);
    let idx = get_min_dist_to_song_index(&mood_happy(), &songs, &rec, now, None, &mut rng);
    assert_eq!(idx, 0);
}

#[test]
fn select_returns_updated_record() {
    let songs = catalog();
    let empty = RecentPlayRecord::new();
    let now: u64 = 42_000;
    let mut rng = StdRng::seed_from_u64(1);
    let (idx, updated) = select(&mood_happy(), &songs, &empty, now, None, &mut rng);
    assert_eq!(idx, 0);
    assert!(is_recently_played(idx, &updated, now));
}

#[test]
fn record_then_query_same_instant_is_excluded() {
    let empty = RecentPlayRecord::new();
    let now: u64 = 777;
    let rec = record_played_song(5, &empty, now);
    assert!(is_recently_played(5, &rec, now));
    assert!(!is_recently_played(6, &rec, now));
}

#[test]
fn song_mood_copies_affinities() {
    let s = song("x", 7, -9);
    let m = song_to_mood_scores(&s);
    assert_eq!(m.happy, 7);
    assert_eq!(m.melancholic, -9);
    assert_eq!(m.relaxing, 0);
}

#[test]
fn prefilter_restricts_or_keeps_second_volume() {
    for seed in 0..30u64 {
        let mut rng = StdRng::seed_from_u64(seed);
        let mask = prefilter_mask(10, 4, &mut rng);
        assert_eq!(mask.len(), 10);
        let first_only = (0..10).all(|i| mask[i] == (i < 4));
        let second_kept = (4..10).all(|i| mask[i]);
        assert!(first_only || second_kept);
    }
}

#[test]
fn log_line_is_rendered_exactly() {
    let time = Time {
        min: 5,
        hour: 9,
        day: 2,
        month: 7,
        year: 2024,
        season: "summer".to_string(),
    };
    let line = render_log_line(&time, 3, "Sweden");
    assert_eq!(
        line,
        b"[2024-07-02 09:05] Selected song index: 3 (Sweden) - Season: summer".to_vec()
    );
}
