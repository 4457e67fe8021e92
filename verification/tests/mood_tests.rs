use mood_player::mood::MoodVector;
use mood_player::mood::SCALE;
use mood_player::mood::average_mood;
use mood_player::mood::euclidean_distance_sq;
use mood_player::mood::normalize;
use mood_player::mood::sigmoid;
use mood_player::mood::sum_moods;

fn mv(h: i64, m: i64, ho: i64, n: i64, my: i64, r: i64) -> MoodVector {
    MoodVector { happy: h, melancholic: m, hopeful: ho, nostalgic: n, mysterious: my, relaxing: r }
}

fn total(v: &MoodVector) -> i64 {
    v.happy + v.melancholic + v.hopeful + v.nostalgic + v.mysterious + v.relaxing
}

#[test]
fn normalize_sums_to_one_within_tolerance() {
    let v = mv(SCALE, SCALE, SCALE, SCALE, SCALE, SCALE);
    let r = normalize(v);
    let t = total(&r);
    assert!(SCALE - 6 < t && t <= SCALE);
    assert_eq!(r.happy, 166_666);

    let w = normalize(mv(1, 2, 3, 4, 5, 6));
    let tw = total(&w);
    assert!(SCALE - 6 < tw && tw <= SCALE);
}

#[test]
fn normalize_leaves_zero_vector_unchanged() {
    let z = mv(0, 0, 0, 0, 0, 0);
    let r = normalize(z);
    assert_eq!(r, z);
}

#[test]
fn distance_to_self_is_zero() {
    let a = mv(123, -456, 789, 0, 31, -7);
    assert_eq!(euclidean_distance_sq(&a, &a), 0);
}

#[test]
fn distance_exact_values() {
    let mood = mv(SCALE, 0, 0, 0, 0, 0);
    let a = mv(SCALE, 0, 0, 0, 0, 0);
    let b = mv(0, SCALE, 0, 0, 0, 0);
    let c = mv(900_000, 100_000, 0, 0, 0, 0);
    assert_eq!(euclidean_distance_sq(&mood, &a), 0);
    assert_eq!(euclidean_distance_sq(&mood, &b), 2_000_000_000_000);
    assert_eq!(euclidean_distance_sq(&mood, &c), 20_000_000_000);
}

#[test]
fn sigmoid_at_zero_is_one_half() {
    assert_eq!(sigmoid(0), 500_000);
}

#[test]
fn sigmoid_is_monotone_and_bounded() {
    let xs: [i64; 9] = [
        i64::MIN + 1,
        -3_000_000,
        -1_000_000,
        -1,
        0,
        1,
        1_000_000,
        3_000_000,
        i64::MAX,
    ];
    let mut prev: i64 = 0;
    for (i, x) in xs.iter().enumerate() {
        let s = sigmoid(*x);
        assert!(0 < s && s < SCALE);
        if i > 0 {
            assert!(prev <= s);
        }
        prev = s;
    }
    assert_eq!(sigmoid(1_000_000), 750_000);
    assert_eq!(sigmoid(-1_000_000), 250_000);
    assert_eq!(sigmoid(2_000_000), 833_333);
}

#[test]
fn sum_and_average() {
    let a = mv(1, 2, 3, 4, 5, 6);
    let b = mv(10, 20, 30, 40, 50, 60);
    let s = sum_moods(a, b);
    assert_eq!(s, mv(11, 22, 33, 44, 55, 66));
    let avg = average_mood(s, 11);
    assert_eq!(avg, mv(1, 2, 3, 4, 5, 6));
}
