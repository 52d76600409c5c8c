use weather_station::present::{color_for, ColorTag};

#[test]
fn clear_sky_is_bright_yellow() {
    assert_eq!(color_for("clear sky"), ColorTag::BrightYellow);
}

#[test]
fn broken_skies_are_bright_blue() {
    for description in ["few clouds", "scattered clouds", "broken clouds"] {
        assert_eq!(color_for(description), ColorTag::BrightBlue, "{}", description);
    }
}

#[test]
fn veiled_skies_are_dimmed() {
    for description in
        ["overcast clouds", "mist", "haze", "smoke", "sand", "dust", "fog", "squalls"]
    {
        assert_eq!(color_for(description), ColorTag::Dimmed, "{}", description);
    }
}

#[test]
fn wet_skies_are_bright_cyan() {
    for description in ["shower rain", "rain", "thunderstorm", "snow"] {
        assert_eq!(color_for(description), ColorTag::BrightCyan, "{}", description);
    }
}

#[test]
fn unlisted_descriptions_are_plain() {
    for description in ["tornado", "", "light rain", "clear", "cloudy", "volcanic ash"] {
        assert_eq!(color_for(description), ColorTag::Plain, "{:?}", description);
    }
}

#[test]
fn the_table_is_matched_letter_for_letter() {
    for description in ["Clear Sky", "RAIN", "rain ", " rain", "clear  sky", "mist\n", "sn\u{f6}w"] {
        assert_eq!(color_for(description), ColorTag::Plain, "{:?}", description);
    }
}
