use weather_station::fetch::{
    assemble, conclude, request_url, FetchError, Field, Payload, Reply, WeatherQuery,
};
use weather_station::present::{render, ColorTag};
use weather_station::reading::Reading;
use weather_station::report::ConditionEntry;

fn reading(x: f64) -> Reading {
    Reading::from_bits(x.to_bits())
}

fn paris() -> Payload {
    Payload {
        weather: Some(vec![ConditionEntry { description: "clear sky".to_string() }]),
        temp: Some(reading(22.5)),
        humidity: Some(reading(60.0)),
        pressure: Some(reading(1012.0)),
        speed: Some(reading(3.2)),
        name: Some("Paris".to_string()),
    }
}

fn answered(status: u16, payload: Payload) -> Reply {
    Reply::Answered { status, body: Ok(payload) }
}

#[test]
fn the_address_names_place_units_and_key() {
    assert_eq!(
        request_url("Paris", "FR", "k3y"),
        "http://api.openweathermap.org/data/2.5/weather?q=Paris,FR&units=metric&appid=k3y"
    );
}

#[test]
fn empty_parts_are_passed_on() {
    assert_eq!(
        request_url("", "", ""),
        "http://api.openweathermap.org/data/2.5/weather?q=,&units=metric&appid="
    );
}

#[test]
fn a_query_is_trimmed() {
    let query = WeatherQuery::from_lines("  New York \n", "US\r\n");
    assert_eq!(query.city, "New York");
    assert_eq!(query.country_code, "US");
    assert_eq!(
        query.url("abc"),
        "http://api.openweathermap.org/data/2.5/weather?q=New York,US&units=metric&appid=abc"
    );
    let blank = WeatherQuery::from_lines("\n", "");
    assert_eq!(blank.city, "");
    assert_eq!(blank.country_code, "");
}

#[test]
fn a_complete_reply_becomes_a_report() {
    let report = conclude(answered(200, paris())).unwrap();
    assert_eq!(report.location_name(), "Paris");
    assert_eq!(report.description(), "clear sky");
    assert_eq!(report.temperature_celsius(), reading(22.5));
    assert_eq!(report.humidity_percent(), reading(60.0));
    assert_eq!(report.pressure_hpa(), reading(1012.0));
    assert_eq!(report.wind_speed_mps(), reading(3.2));
}

#[test]
fn a_complete_reply_is_shown_as_it_was_sent() {
    let block = render(&conclude(answered(200, paris())).unwrap());
    assert!(block.text.contains("Weather in Paris: clear sky"));
    assert!(block.text.contains("22.5"));
    assert!(block.text.contains("\u{1f324}\u{fe0f}"));
    assert_eq!(block.color_tag, ColorTag::BrightYellow);
}

#[test]
fn every_status_of_success_is_accepted() {
    assert!(conclude(answered(200, paris())).is_ok());
    assert!(conclude(answered(204, paris())).is_ok());
    assert!(conclude(answered(299, paris())).is_ok());
}

#[test]
fn a_body_without_temp_is_no_report() {
    let mut payload = paris();
    payload.temp = None;
    let outcome = conclude(answered(200, payload));
    assert!(matches!(outcome, Err(FetchError::Missing { field: Field::Temp })));
}

#[test]
fn each_missing_field_is_named() {
    let mut payload = paris();
    payload.weather = None;
    assert!(matches!(assemble(payload), Err(FetchError::Missing { field: Field::Weather })));
    let mut payload = paris();
    payload.humidity = None;
    assert!(matches!(assemble(payload), Err(FetchError::Missing { field: Field::Humidity })));
    let mut payload = paris();
    payload.pressure = None;
    assert!(matches!(assemble(payload), Err(FetchError::Missing { field: Field::Pressure })));
    let mut payload = paris();
    payload.speed = None;
    assert!(matches!(assemble(payload), Err(FetchError::Missing { field: Field::Speed })));
    let mut payload = paris();
    payload.name = None;
    assert!(matches!(assemble(payload), Err(FetchError::Missing { field: Field::Name })));
}

#[test]
fn the_first_missing_field_is_the_one_named() {
    let mut payload = paris();
    payload.pressure = None;
    payload.name = None;
    assert!(matches!(assemble(payload), Err(FetchError::Missing { field: Field::Pressure })));
    let empty = Payload {
        weather: None,
        temp: None,
        humidity: None,
        pressure: None,
        speed: None,
        name: None,
    };
    assert!(matches!(assemble(empty), Err(FetchError::Missing { field: Field::Weather })));
}

#[test]
fn an_empty_list_of_conditions_is_no_report() {
    let mut payload = paris();
    payload.weather = Some(Vec::new());
    let outcome = conclude(answered(200, payload));
    assert!(matches!(outcome, Err(FetchError::NoConditions)));
}

#[test]
fn a_missing_field_is_told_before_an_empty_list() {
    let mut payload = paris();
    payload.weather = Some(Vec::new());
    payload.name = None;
    assert!(matches!(assemble(payload), Err(FetchError::Missing { field: Field::Name })));
}

#[test]
fn an_unreachable_provider_is_a_failure() {
    let outcome = conclude(Reply::Unreachable { cause: "connection refused".to_string() });
    match outcome {
        Err(FetchError::Transport { cause }) => assert_eq!(cause, "connection refused"),
        _ => panic!("a report or another failure"),
    }
}

#[test]
fn a_status_outside_success_is_a_failure() {
    for status in [0u16, 100, 199, 300, 301, 401, 404, 500, 65535] {
        let outcome = conclude(answered(status, paris()));
        assert!(
            matches!(outcome, Err(FetchError::Status { code }) if code == status),
            "{}",
            status
        );
    }
}

#[test]
fn the_status_is_judged_before_the_body() {
    let outcome =
        conclude(Reply::Answered { status: 404, body: Err("expected value".to_string()) });
    assert!(matches!(outcome, Err(FetchError::Status { code: 404 })));
}

#[test]
fn an_unreadable_body_is_a_failure() {
    let outcome = conclude(Reply::Answered {
        status: 200,
        body: Err("invalid type: string, expected f64".to_string()),
    });
    match outcome {
        Err(FetchError::Malformed { cause }) => {
            assert_eq!(cause, "invalid type: string, expected f64")
        }
        _ => panic!("a report or another failure"),
    }
}

#[test]
fn failures_in_words() {
    assert_eq!(
        FetchError::Transport { cause: "dns error".to_string() }.describe(),
        "dns error"
    );
    assert_eq!(FetchError::Status { code: 404 }.describe(), "unexpected HTTP status 404");
    assert_eq!(FetchError::Status { code: 0 }.describe(), "unexpected HTTP status 0");
    assert_eq!(
        FetchError::Malformed { cause: "EOF while parsing".to_string() }.describe(),
        "EOF while parsing"
    );
    assert_eq!(FetchError::Missing { field: Field::Temp }.describe(), "missing field `temp`");
    assert_eq!(
        FetchError::NoConditions.describe(),
        "the list of weather conditions is empty"
    );
}

#[test]
fn the_line_for_a_failure() {
    assert_eq!(
        FetchError::Status { code: 503 }.failure_line(),
        "Error fetching weather data: unexpected HTTP status 503"
    );
    assert_eq!(
        FetchError::Transport { cause: "timed out".to_string() }.failure_line(),
        "Error fetching weather data: timed out"
    );
}

#[test]
fn fields_by_their_names() {
    let names: Vec<&str> = [
        Field::Weather,
        Field::Temp,
        Field::Humidity,
        Field::Pressure,
        Field::Speed,
        Field::Name,
    ]
    .iter()
    .map(|f| f.name())
    .collect();
    assert_eq!(names, vec!["weather", "temp", "humidity", "pressure", "speed", "name"]);
}
