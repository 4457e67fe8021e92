use mood_player::clock::get_pacific_time;
use mood_player::text::contains_sub;
use mood_player::text::str_eq;

#[test]
fn substring_search_matches_plain_contains() {
    assert!(contains_sub("Partly Cloudy", "Cloudy"));
    assert!(contains_sub("Cloudy", "Cloudy"));
    assert!(!contains_sub("Clear", "Cloudy"));
    assert!(!contains_sub("", "Cloudy"));
    assert!(contains_sub("anything", ""));
    assert!(contains_sub("Mostly Sunny then Clear", "Sunny"));
    assert!(!contains_sub("cloudy", "Cloudy"));
}

#[test]
fn string_equality_is_character_wise() {
    assert!(str_eq("winter", "winter"));
    assert!(!str_eq("winter", "winters"));
    assert!(!str_eq("winter", "Winter"));
    assert!(str_eq("", ""));
}

#[test]
fn clock_reading_is_well_formed() {
    let t = get_pacific_time();
    assert!(t.min <= 59);
    assert!(t.hour <= 23);
    assert!((1..=31).contains(&t.day));
    assert!((1..=12).contains(&t.month));
    assert!(["winter", "spring", "summer", "fall"].contains(&t.season.as_str()));
}
