use mood_player::clock::get_time_of_day;
use mood_player::clock::is_weekend_day;
use mood_player::clock::season_of_month;
use mood_player::scheduler::HOURS_MICROS;
use mood_player::scheduler::get_weekday_time;
use mood_player::scheduler::get_weekend_time;
use mood_player::scheduler::sample;
use mood_player::scheduler::schedule_cron;
use mood_player::scheduler::time_to_cron;
use rand::SeedableRng;
use rand::rngs::StdRng;
use chrono::Datelike;
use rand_distr::Distribution;

/// Standard-normal draws in micros, as the callers produce them.
fn draws(n: usize, seed: u64) -> Vec<i64> {
    let mut rng = StdRng::seed_from_u64(seed);
    let normal = rand_distr::Normal::new(0.0f64, 1.0f64).unwrap();
    (0..n).map(|_| (normal.sample(&mut rng) * 1_000_000.0) as i64).collect()
}

#[test]
fn twelve_samples_all_within_the_day() {
    let zs = draws(12, 11);
    let mut rng = StdRng::seed_from_u64(12);
    let times = sample(false, 12, &zs, &mut rng);
    assert_eq!(times.len(), 12);
    for t in &times {
        assert!(0 <= *t && *t < HOURS_MICROS);
    }
    let zs2 = draws(12, 13);
    let mut rng2 = StdRng::seed_from_u64(14);
    let times2 = sample(true, 12, &zs2, &mut rng2);
    assert_eq!(times2.len(), 12);
    for t in &times2 {
        assert!(0 <= *t && *t < HOURS_MICROS);
    }
}

#[test]
fn component_means_are_exact() {
    // A zero draw lands exactly on the component's mean.
    assert_eq!(get_weekday_time(false, 0), 11_500_000);
    assert_eq!(get_weekday_time(true, 0), 18_500_000);
    assert_eq!(get_weekend_time(false, 0), 12_500_000);
    assert_eq!(get_weekend_time(true, 0), 20_000_000);
    // One standard deviation above or below the mean.
    assert_eq!(get_weekday_time(true, 1_000_000), 20_500_000);
    assert_eq!(get_weekend_time(true, -1_000_000), 17_300_000);
    // Far tails wrap around into the day.
    let wrapped = get_weekday_time(false, -7_000_000);
    assert_eq!(wrapped, 21_500_000);
}

#[test]
fn weekend_is_friday_through_sunday() {
    // num_days_from_monday: Monday is 0 ... Sunday is 6.
    assert!(!is_weekend_day(0));
    assert!(!is_weekend_day(1));
    assert!(!is_weekend_day(2));
    assert!(!is_weekend_day(3));
    assert!(is_weekend_day(4));
    assert!(is_weekend_day(5));
    assert!(is_weekend_day(6));
    // 2000-01-01 was a Saturday, 2000-01-03 a Monday, 2000-01-07 a Friday.
    let sat = chrono::NaiveDate::from_ymd_opt(2000, 1, 1).unwrap();
    let mon = chrono::NaiveDate::from_ymd_opt(2000, 1, 3).unwrap();
    let fri = chrono::NaiveDate::from_ymd_opt(2000, 1, 7).unwrap();
    assert!(is_weekend_day(sat.weekday().num_days_from_monday()));
    assert!(!is_weekend_day(mon.weekday().num_days_from_monday()));
    assert!(is_weekend_day(fri.weekday().num_days_from_monday()));
}

#[test]
fn cron_entries_carry_the_date_and_split_the_time() {
    let e = time_to_cron(15, 10, 11_500_000);
    assert_eq!(e.day, 15);
    assert_eq!(e.month, 10);
    assert_eq!(e.hour, 11);
    assert_eq!(e.min, 30);
    let f = time_to_cron(1, 1, 23_999_999);
    assert_eq!(f.hour, 23);
    assert_eq!(f.min, 59);
    let g = time_to_cron(1, 1, 0);
    assert_eq!(g.hour, 0);
    assert_eq!(g.min, 0);
}

#[test]
fn schedule_builds_one_entry_per_draw() {
    let zs = draws(12, 21);
    let mut rng = StdRng::seed_from_u64(22);
    let entries = schedule_cron(9, 6, true, &zs, &mut rng);
    assert_eq!(entries.len(), 12);
    for e in &entries {
        assert_eq!(e.day, 9);
        assert_eq!(e.month, 6);
        assert!(e.hour <= 23);
        assert!(e.min <= 59);
    }
}

#[test]
fn seasons_follow_the_month() {
    assert_eq!(season_of_month(1), "winter");
    assert_eq!(season_of_month(4), "spring");
    assert_eq!(season_of_month(7), "summer");
    assert_eq!(season_of_month(10), "fall");
    assert_eq!(season_of_month(11), "winter");
    assert_eq!(season_of_month(12), "summer");
}

#[test]
fn time_of_day_in_micros_of_an_hour() {
    assert_eq!(get_time_of_day(13, 30), 13_500_000);
    assert_eq!(get_time_of_day(0, 0), 0);
    assert_eq!(get_time_of_day(23, 59), 23_983_333);
}
