use weather_station::present::{render, ColorTag};
use weather_station::reading::Reading;
use weather_station::report::{ConditionEntry, WeatherReport};

fn reading(x: f64) -> Reading {
    Reading::from_bits(x.to_bits())
}

fn conditions(descriptions: &[&str]) -> Vec<ConditionEntry> {
    descriptions.iter().map(|d| ConditionEntry { description: d.to_string() }).collect()
}

fn report(
    place: &str,
    descriptions: &[&str],
    temp: f64,
    humidity: f64,
    pressure: f64,
    speed: f64,
) -> WeatherReport {
    WeatherReport::new(
        place.to_string(),
        conditions(descriptions),
        reading(temp),
        reading(humidity),
        reading(pressure),
        reading(speed),
    )
    .unwrap()
}

#[test]
fn paris_under_a_clear_sky() {
    let block = render(&report("Paris", &["clear sky"], 22.5, 60.0, 1012.0, 3.2));
    assert_eq!(
        block.text,
        "Weather in Paris: clear sky \u{1f324}\u{fe0f}\n        > Tempreture: 22.5 \u{b0}C,\n        > Humidity: 60.0 %,\n        > Pressure: 1012.0 hPa,\n        > Wind Speed: 3.2 m/s"
    );
    assert!(block.text.contains("Weather in Paris: clear sky"));
    assert!(block.text.contains("22.5"));
    assert!(block.text.contains("\u{1f324}\u{fe0f}"));
    assert_eq!(block.color_tag, ColorTag::BrightYellow);
}

#[test]
fn the_block_has_a_headline_and_four_indented_lines() {
    let block = render(&report("Oslo", &["snow"], -7.25, 93.0, 998.4, 11.06));
    let lines: Vec<&str> = block.text.split('\n').collect();
    assert_eq!(
        lines,
        vec![
            "Weather in Oslo: snow \u{2744}\u{fe0f}",
            "        > Tempreture: -7.2 \u{b0}C,",
            "        > Humidity: 93.0 %,",
            "        > Pressure: 998.4 hPa,",
            "        > Wind Speed: 11.1 m/s",
        ]
    );
    assert_eq!(block.color_tag, ColorTag::BrightCyan);
}

#[test]
fn only_the_first_condition_is_shown() {
    let block = render(&report("Lima", &["mist", "clear sky", "rain"], 18.0, 80.0, 1015.0, 2.0));
    assert!(block.text.starts_with("Weather in Lima: mist \u{26c5}\n"));
    assert!(!block.text.contains("clear sky"));
    assert!(!block.text.contains("rain"));
    assert_eq!(block.color_tag, ColorTag::Dimmed);
}

#[test]
fn an_unlisted_description_is_shown_plain() {
    let block = render(&report("Moore", &["tornado"], 31.0, 40.0, 990.0, 60.0));
    assert!(block.text.starts_with("Weather in Moore: tornado \u{1f525}\n"));
    assert_eq!(block.color_tag, ColorTag::Plain);
}

#[test]
fn empty_texts_are_shown_as_they_are() {
    let block = render(&report("", &[""], 0.0, 0.0, 0.0, 0.0));
    assert_eq!(
        block.text,
        "Weather in :  \u{2601}\u{fe0f}\n        > Tempreture: 0.0 \u{b0}C,\n        > Humidity: 0.0 %,\n        > Pressure: 0.0 hPa,\n        > Wind Speed: 0.0 m/s"
    );
    assert_eq!(block.color_tag, ColorTag::Plain);
}

#[test]
fn the_block_agrees_with_std_formatting() {
    let cases: Vec<(f64, f64, f64, f64)> = vec![
        (22.5, 60.0, 1012.0, 3.2),
        (-0.04, 99.95, 1013.25, 0.05),
        (9.96, 45.5, 870.0, 113.2),
        (-89.2, 0.0, 1084.8, 0.0),
    ];
    for (temp, humidity, pressure, speed) in cases {
        let block = render(&report("Quito", &["few clouds"], temp, humidity, pressure, speed));
        let tail = format!(
            "\n        > Tempreture: {:.1} \u{b0}C,\n        > Humidity: {:.1} %,\n        > Pressure: {:.1} hPa,\n        > Wind Speed: {:.1} m/s",
            temp, humidity, pressure, speed
        );
        assert!(block.text.ends_with(&tail), "{:?}", block.text);
        assert_eq!(block.color_tag, ColorTag::BrightBlue);
    }
}

#[test]
fn a_report_gives_back_what_it_was_made_of() {
    let made = report("Paris", &["clear sky", "haze"], 22.5, 60.0, 1012.0, 3.2);
    assert_eq!(made.location_name(), "Paris");
    assert_eq!(made.description(), "clear sky");
    assert_eq!(made.condition_count(), 2);
    assert_eq!(made.temperature_celsius(), reading(22.5));
    assert_eq!(made.humidity_percent(), reading(60.0));
    assert_eq!(made.pressure_hpa(), reading(1012.0));
    assert_eq!(made.wind_speed_mps(), reading(3.2));
}

#[test]
fn no_report_without_a_condition() {
    let made = WeatherReport::new(
        "Paris".to_string(),
        Vec::new(),
        reading(22.5),
        reading(60.0),
        reading(1012.0),
        reading(3.2),
    );
    assert!(made.is_none());
}
