use serde_json::Value;
use weather_station::fetch::{conclude, FetchError, Field, Payload, Reply};
use weather_station::present::{render, ColorTag};
use weather_station::reading::Reading;
use weather_station::report::ConditionEntry;

fn number(value: Option<&Value>) -> Option<Reading> {
    value.and_then(Value::as_f64).map(|x| Reading::from_bits(x.to_bits()))
}

fn conditions(value: &Value) -> Option<Vec<ConditionEntry>> {
    let entries = value.get("weather")?.as_array()?;
    let mut list = Vec::new();
    for entry in entries {
        let description = entry.get("description")?.as_str()?;
        list.push(ConditionEntry { description: description.to_string() });
    }
    Some(list)
}

fn answered(body: &str) -> Reply {
    let body = match serde_json::from_str::<Value>(body) {
        Err(error) => Err(error.to_string()),
        Ok(value) => Ok(Payload {
            weather: conditions(&value),
            temp: number(value.get("main").and_then(|m| m.get("temp"))),
            humidity: number(value.get("main").and_then(|m| m.get("humidity"))),
            pressure: number(value.get("main").and_then(|m| m.get("pressure"))),
            speed: number(value.get("wind").and_then(|w| w.get("speed"))),
            name: value.get("name").and_then(Value::as_str).map(str::to_string),
        }),
    };
    Reply::Answered { status: 200, body }
}

#[test]
fn a_well_formed_body_is_shown() {
    let body = r#"{"weather":[{"description":"clear sky"}],"main":{"temp":22.5,"humidity":60.0,"pressure":1012.0},"wind":{"speed":3.2},"name":"Paris"}"#;
    let block = render(&conclude(answered(body)).unwrap());
    assert!(block.text.contains("Weather in Paris: clear sky"));
    assert!(block.text.contains("22.5"));
    assert!(block.text.contains("\u{1f324}\u{fe0f}"));
    assert_eq!(block.color_tag, ColorTag::BrightYellow);
    assert_eq!(
        block.text,
        "Weather in Paris: clear sky \u{1f324}\u{fe0f}\n        > Tempreture: 22.5 \u{b0}C,\n        > Humidity: 60.0 %,\n        > Pressure: 1012.0 hPa,\n        > Wind Speed: 3.2 m/s"
    );
}

#[test]
fn a_body_of_the_provider_with_more_in_it() {
    let body = r#"{"coord":{"lon":10.75,"lat":59.91},"weather":[{"id":600,"main":"Snow","description":"light snow","icon":"13n"},{"id":701,"main":"Mist","description":"mist","icon":"50n"}],"base":"stations","main":{"temp":-3,"feels_like":-8.1,"temp_min":-4.4,"temp_max":-1.7,"pressure":1003,"humidity":93},"visibility":4000,"wind":{"speed":4.63,"deg":30},"dt":1700000000,"id":3143244,"name":"Oslo","cod":200}"#;
    let block = render(&conclude(answered(body)).unwrap());
    assert_eq!(
        block.text,
        "Weather in Oslo: light snow \u{2744}\u{fe0f}\n        > Tempreture: -3.0 \u{b0}C,\n        > Humidity: 93.0 %,\n        > Pressure: 1003.0 hPa,\n        > Wind Speed: 4.6 m/s"
    );
    assert_eq!(block.color_tag, ColorTag::Plain);
}

#[test]
fn a_body_without_main_temp_gives_no_report() {
    let body = r#"{"weather":[{"description":"clear sky"}],"main":{"humidity":60.0,"pressure":1012.0},"wind":{"speed":3.2},"name":"Paris"}"#;
    let outcome = conclude(answered(body));
    assert!(matches!(outcome, Err(FetchError::Missing { field: Field::Temp })));
}

#[test]
fn a_body_with_an_empty_weather_list_gives_no_report() {
    let body = r#"{"weather":[],"main":{"temp":22.5,"humidity":60.0,"pressure":1012.0},"wind":{"speed":3.2},"name":"Paris"}"#;
    let outcome = conclude(answered(body));
    assert!(matches!(outcome, Err(FetchError::NoConditions)));
}

#[test]
fn the_body_of_a_refusal_gives_no_report() {
    let body = r#"{"cod":"404","message":"city not found"}"#;
    let outcome = conclude(answered(body));
    assert!(matches!(outcome, Err(FetchError::Missing { field: Field::Weather })));
}

#[test]
fn a_body_that_is_no_json_gives_no_report() {
    let outcome = conclude(answered("<html>gateway timeout</html>"));
    assert!(matches!(outcome, Err(FetchError::Malformed { .. })));
}
