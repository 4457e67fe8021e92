use mood_player::clock::Time;
use mood_player::factors::ExternalFactors;
use mood_player::factors::Market;
use mood_player::factors::Weather;
use mood_player::factors::map_factors_to_mood;
use mood_player::factors::pct_change;
use mood_player::mood::SCALE;

fn base_factors(retro: bool) -> ExternalFactors {
    ExternalFactors {
        weather: Weather {
            is_daytime: true,
            temperature: 60,
            probability_precipitation: 0,
            short_forecast: "Clear skies".to_string(),
        },
        time: Time {
            min: 0,
            hour: 13,
            day: 15,
            month: 7,
            year: 2024,
            season: "summer".to_string(),
        },
        market: Market { spy: 0, btc: 0 },
        mercury_retrograde: retro,
    }
}

#[test]
fn mapper_averages_over_four_sub_moods_without_retrograde() {
    let r = map_factors_to_mood(&base_factors(false));
    assert_eq!(r.happy, 495_833);
    assert_eq!(r.melancholic, 62_500);
    assert_eq!(r.hopeful, 104_166);
    assert_eq!(r.nostalgic, 41_666);
    assert_eq!(r.mysterious, 62_500);
    assert_eq!(r.relaxing, 233_333);
}

#[test]
fn mapper_averages_over_five_sub_moods_with_retrograde() {
    let r = map_factors_to_mood(&base_factors(true));
    assert_eq!(r.happy, 396_666);
    assert_eq!(r.melancholic, 110_000);
    assert_eq!(r.hopeful, 83_333);
    assert_eq!(r.nostalgic, 33_333);
    assert_eq!(r.mysterious, 190_000);
    assert_eq!(r.relaxing, 186_666);
}

#[test]
fn mapper_output_is_normalized() {
    let mut f = base_factors(false);
    f.weather.short_forecast = "Mostly Cloudy".to_string();
    f.weather.probability_precipitation = 800_000;
    f.weather.is_daytime = false;
    f.weather.temperature = 20;
    f.time.hour = 23;
    f.time.season = "winter".to_string();
    f.market = Market { spy: -1_500_000, btc: 4_000_000 };
    let r = map_factors_to_mood(&f);
    let t = r.happy + r.melancholic + r.hopeful + r.nostalgic + r.mysterious + r.relaxing;
    assert!(SCALE - 6 < t && t <= SCALE);
    assert!(r.happy >= 0 && r.melancholic >= 0 && r.hopeful >= 0);
    assert!(r.nostalgic >= 0 && r.mysterious >= 0 && r.relaxing >= 0);
    // Night, rain, cold and a cloudy forecast: melancholy dominates joy.
    assert!(r.melancholic > r.happy);
}

#[test]
fn unknown_season_contributes_nothing() {
    let mut f = base_factors(false);
    f.time.season = "monsoon".to_string();
    let r = map_factors_to_mood(&f);
    let t = r.happy + r.melancholic + r.hopeful + r.nostalgic + r.mysterious + r.relaxing;
    assert!(SCALE - 6 < t && t <= SCALE);
    // Without the summer one-hot, happiness falls well below the baseline.
    let with_season = map_factors_to_mood(&base_factors(false));
    assert!(r.happy < with_season.happy);
}

#[test]
fn percent_change_is_exact() {
    // From 200 to 210 currency units: +5 percent.
    assert_eq!(pct_change(210_000_000, 200_000_000), 5_000_000);
    // From 200 to 190: -5 percent.
    assert_eq!(pct_change(190_000_000, 200_000_000), -5_000_000);
    assert_eq!(pct_change(100, 100), 0);
    // From 3 to 4 micros: +33.333333 percent, truncated.
    assert_eq!(pct_change(4, 3), 33_333_333);
}
