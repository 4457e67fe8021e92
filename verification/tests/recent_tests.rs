use mood_player::recent::RecentPlayRecord;
use mood_player::recent::is_recently_played;
use mood_player::recent::load_from_lines;
use mood_player::recent::parse_recent_line;
use mood_player::recent::record_played_song;
use mood_player::recent::render_record;
use mood_player::recent::render_recent_line;

#[test]
fn parse_reads_a_well_formed_line() {
    let line: Vec<u8> = b"12,100".to_vec();
    assert_eq!(parse_recent_line(&line), Some((12, 100)));
    let line2: Vec<u8> = b"0,18446744073709551615".to_vec();
    // Twenty digits: beyond the store's nineteen-digit numbers.
    assert_eq!(parse_recent_line(&line2), None);
    let line3: Vec<u8> = b"7,9223372036854775807".to_vec();
    assert_eq!(parse_recent_line(&line3), Some((7, 9_223_372_036_854_775_807)));
}

#[test]
fn parse_rejects_malformed_lines() {
    assert_eq!(parse_recent_line(&b"".to_vec()), None);
    assert_eq!(parse_recent_line(&b"5".to_vec()), None);
    assert_eq!(parse_recent_line(&b"a,b".to_vec()), None);
    assert_eq!(parse_recent_line(&b"1,2,3".to_vec()), None);
    assert_eq!(parse_recent_line(&b",5".to_vec()), None);
    assert_eq!(parse_recent_line(&b"5,".to_vec()), None);
    assert_eq!(parse_recent_line(&b"5, 6".to_vec()), None);
}

#[test]
fn render_writes_index_comma_timestamp() {
    assert_eq!(render_recent_line(3, 42), b"3,42".to_vec());
    assert_eq!(render_recent_line(0, 0), b"0,0".to_vec());
    assert_eq!(render_recent_line(54, 1700000000), b"54,1700000000".to_vec());
}

#[test]
fn render_then_parse_round_trips() {
    for (idx, ts) in [(0u64, 0u64), (7, 1_700_000_000), (53, 21_600)] {
        let line = render_recent_line(idx, ts);
        assert_eq!(parse_recent_line(&line), Some((idx, ts)));
    }
}

#[test]
fn loader_skips_damage_and_lets_later_lines_win() {
    let lines: Vec<Vec<u8>> = vec![
        b"1,100".to_vec(),
        b"garbage".to_vec(),
        b"2,200".to_vec(),
        b"1,300".to_vec(),
    ];
    let rec = load_from_lines(&lines);
    // Entry 1 was overwritten by the later line: excluded at 300, not 100.
    assert!(is_recently_played(1, &rec, 300 + 21_599));
    assert!(!is_recently_played(1, &rec, 100 + 21_599 + 300));
    assert!(is_recently_played(2, &rec, 200));
    assert!(!is_recently_played(3, &rec, 200));
}

#[test]
fn empty_or_damaged_store_yields_empty_record() {
    let rec = load_from_lines(&Vec::new());
    assert_eq!(rec.entries.len(), 0);
    let rec2 = load_from_lines(&vec![b"not a line".to_vec()]);
    assert_eq!(rec2.entries.len(), 0);
}

#[test]
fn record_purges_stale_entries() {
    let empty = RecentPlayRecord::new();
    let rec = record_played_song(1, &empty, 1_000);
    // Six hours later, recording a new play drops the stale entry.
    let later = record_played_song(2, &rec, 1_000 + 21_600);
    assert_eq!(later.entries.len(), 1);
    assert!(!is_recently_played(1, &later, 1_000 + 21_600));
    assert!(is_recently_played(2, &later, 1_000 + 21_600));
}

#[test]
fn store_round_trip_through_lines() {
    let empty = RecentPlayRecord::new();
    let mut rec = record_played_song(4, &empty, 50_000);
    rec = record_played_song(9, &rec, 60_000);
    let lines = render_record(&rec);
    assert_eq!(lines.len(), 2);
    let reloaded = load_from_lines(&lines);
    assert!(is_recently_played(4, &reloaded, 50_000));
    assert!(is_recently_played(9, &reloaded, 60_000));
    assert_eq!(reloaded.entries.len(), 2);
}
