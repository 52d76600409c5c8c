//! Asking the provider and judging its reply: the address of a request,
//! and the strict rules by which a reply becomes a report or a failure.

use crate::decimal::{decimal_text, Natural};
use crate::reading::Reading;
use crate::report::{descriptions_of, ConditionEntry, ReportView, WeatherReport};
use crate::text::{trim, trim_spec};
use vstd::prelude::*;
use vstd::string::*;

verus! {

/// The place a user asks about. Both parts are free of surrounding white
/// space; an empty part is passed on as it is.
#[derive(Debug)]
pub struct WeatherQuery {
    pub city: String,
    pub country_code: String,
}

/// A field that every reply must hold, named as the provider names it.
#[derive(Clone, Copy, Debug, PartialEq, Eq, Structural)]
pub enum Field {
    Weather,
    Temp,
    Humidity,
    Pressure,
    Speed,
    Name,
}

/// What was read out of the body of a reply, field by field; `None` where
/// the body did not hold the field.
#[derive(Debug)]
pub struct Payload {
    pub weather: Option<Vec<ConditionEntry>>,
    pub temp: Option<Reading>,
    pub humidity: Option<Reading>,
    pub pressure: Option<Reading>,
    pub speed: Option<Reading>,
    pub name: Option<String>,
}

/// How one request ended.
#[derive(Debug)]
pub enum Reply {
    /// No response arrived; the cause in words.
    Unreachable { cause: String },
    /// A response arrived, with this status; its body could be read into
    /// a payload, or could not, for the reason given in words.
    Answered { status: u16, body: Result<Payload, String> },
}

/// Why no report was made.
#[derive(Debug)]
pub enum FetchError {
    /// The provider could not be reached.
    Transport { cause: String },
    /// The provider answered with a status outside 200..=299.
    Status { code: u16 },
    /// The body was no JSON, or a field had the wrong shape.
    Malformed { cause: String },
    /// The body lacked a field.
    Missing { field: Field },
    /// The list of conditions was there and empty.
    NoConditions,
}

/// A failure, as mathematical values.
pub enum Failure {
    Transport(Seq<char>),
    Status(u16),
    Malformed(Seq<char>),
    Missing(Field),
    NoConditions,
}

impl View for FetchError {
    type V = Failure;

    open spec fn view(&self) -> Failure {
        match *self {
            FetchError::Transport { cause } => Failure::Transport(cause@),
            FetchError::Status { code } => Failure::Status(code),
            FetchError::Malformed { cause } => Failure::Malformed(cause@),
            FetchError::Missing { field } => Failure::Missing(field),
            FetchError::NoConditions => Failure::NoConditions,
        }
    }
}

/// The address of the request for the current weather at a place, in
/// metric units.
pub open spec fn request_url_text(city: Seq<char>, country_code: Seq<char>, api_key: Seq<char>) -> Seq<
    char,
> {
    "http://api.openweathermap.org/data/2.5/weather?q="@ + city + ","@ + country_code
        + "&units=metric&appid="@ + api_key
}

/// The provider's name of a field.
pub open spec fn field_name(field: Field) -> Seq<char> {
    match field {
        Field::Weather => "weather"@,
        Field::Temp => "temp"@,
        Field::Humidity => "humidity"@,
        Field::Pressure => "pressure"@,
        Field::Speed => "speed"@,
        Field::Name => "name"@,
    }
}

/// The first field that a payload lacks, in the order of the provider's
/// format.
pub open spec fn first_gap(payload: Payload) -> Option<Field> {
    if payload.weather is None {
        Some(Field::Weather)
    } else if payload.temp is None {
        Some(Field::Temp)
    } else if payload.humidity is None {
        Some(Field::Humidity)
    } else if payload.pressure is None {
        Some(Field::Pressure)
    } else if payload.speed is None {
        Some(Field::Speed)
    } else if payload.name is None {
        Some(Field::Name)
    } else {
        None
    }
}

/// What becomes of a payload: a report if no field is missing and there
/// is a condition, else the failure that says what is wrong.
pub open spec fn assembled(payload: Payload) -> Result<ReportView, Failure> {
    if first_gap(payload) is Some {
        Err(Failure::Missing(first_gap(payload)->0))
    } else if payload.weather->0@.len() == 0 {
        Err(Failure::NoConditions)
    } else {
        Ok(
            ReportView {
                location_name: payload.name->0@,
                descriptions: descriptions_of(payload.weather->0@),
                temperature_celsius: payload.temp->0,
                humidity_percent: payload.humidity->0,
                pressure_hpa: payload.pressure->0,
                wind_speed_mps: payload.speed->0,
            },
        )
    }
}

/// A status in the range of success.
pub open spec fn is_success(status: u16) -> bool {
    200 <= status <= 299
}

/// What becomes of a reply. A report is made only of a response with a
/// status of success and a complete payload.
pub open spec fn verdict(reply: Reply) -> Result<ReportView, Failure> {
    match reply {
        Reply::Unreachable { cause } => Err(Failure::Transport(cause@)),
        Reply::Answered { status, body } => {
            if !is_success(status) {
                Err(Failure::Status(status))
            } else {
                match body {
                    Err(cause) => Err(Failure::Malformed(cause@)),
                    Ok(payload) => assembled(payload),
                }
            }
        },
    }
}

/// Whether an outcome is the one that the rules ask for.
pub open spec fn agrees(outcome: Result<WeatherReport, FetchError>, due: Result<ReportView, Failure>) -> bool {
    match outcome {
        Ok(report) => due == Ok::<ReportView, Failure>(report@),
        Err(error) => due == Err::<ReportView, Failure>(error@),
    }
}

/// A failure in words.
pub open spec fn describe_text(failure: Failure) -> Seq<char> {
    match failure {
        Failure::Transport(cause) => cause,
        Failure::Status(code) => "unexpected HTTP status "@ + decimal_text(code as nat),
        Failure::Malformed(cause) => cause,
        Failure::Missing(field) => "missing field `"@ + field_name(field) + "`"@,
        Failure::NoConditions => "the list of weather conditions is empty"@,
    }
}

/// The line shown to the user after a failed lookup.
pub open spec fn failure_line_text(failure: Failure) -> Seq<char> {
    "Error fetching weather data: "@ + describe_text(failure)
}

/// A report is made only of a response with a status of success whose
/// payload lacks no field and holds a condition, and it says what the
/// payload said: there is no report with a part left out or made up.
pub proof fn law_report_is_complete(reply: Reply)
    requires
        verdict(reply) is Ok,
    ensures
        reply matches Reply::Answered { status, body: Ok(payload) } && {
            let report = verdict(reply)->Ok_0;
            &&& is_success(status)
            &&& payload.weather matches Some(conditions) && conditions@.len() >= 1
                && report.descriptions == descriptions_of(conditions@)
            &&& payload.temp == Some(report.temperature_celsius)
            &&& payload.humidity == Some(report.humidity_percent)
            &&& payload.pressure == Some(report.pressure_hpa)
            &&& payload.speed == Some(report.wind_speed_mps)
            &&& payload.name matches Some(name) && name@ == report.location_name
        },
{
}

impl Field {
    /// The provider's name of the field.
    pub fn name(self) -> (name: &'static str)
        ensures
            name@ == field_name(self),
    {
        match self {
            Field::Weather => "weather",
            Field::Temp => "temp",
            Field::Humidity => "humidity",
            Field::Pressure => "pressure",
            Field::Speed => "speed",
            Field::Name => "name",
        }
    }
}

impl WeatherQuery {
    /// The query that two lines of input ask for.
    pub fn from_lines(city_line: &str, country_line: &str) -> (query: WeatherQuery)
        ensures
            query.city@ == trim_spec(city_line@),
            query.country_code@ == trim_spec(country_line@),
    {
        WeatherQuery {
            city: String::from_str(trim(city_line)),
            country_code: String::from_str(trim(country_line)),
        }
    }

    /// The address of the request that answers the query.
    pub fn url(&self, api_key: &str) -> (url: String)
        ensures
            url@ == request_url_text(self.city@, self.country_code@, api_key@),
    {
        request_url(self.city.as_str(), self.country_code.as_str(), api_key)
    }
}

/// The address of the request for the current weather at a place.
pub fn request_url(city: &str, country_code: &str, api_key: &str) -> (url: String)
    ensures
        url@ == request_url_text(city@, country_code@, api_key@),
{
    let mut url: String = String::from_str("http://api.openweathermap.org/data/2.5/weather?q=");
    url.append(city);
    url.append(",");
    url.append(country_code);
    url.append("&units=metric&appid=");
    url.append(api_key);
    url
}

/// Makes the report that a payload holds, or says what it lacks.
pub fn assemble(payload: Payload) -> (outcome: Result<WeatherReport, FetchError>)
    ensures
        agrees(outcome, assembled(payload)),
{
    let Payload { weather, temp, humidity, pressure, speed, name } = payload;
    let conditions: Vec<ConditionEntry> = match weather {
        Some(conditions) => conditions,
        None => { return Err(FetchError::Missing { field: Field::Weather }); },
    };
    let temperature_celsius: Reading = match temp {
        Some(reading) => reading,
        None => { return Err(FetchError::Missing { field: Field::Temp }); },
    };
    let humidity_percent: Reading = match humidity {
        Some(reading) => reading,
        None => { return Err(FetchError::Missing { field: Field::Humidity }); },
    };
    let pressure_hpa: Reading = match pressure {
        Some(reading) => reading,
        None => { return Err(FetchError::Missing { field: Field::Pressure }); },
    };
    let wind_speed_mps: Reading = match speed {
        Some(reading) => reading,
        None => { return Err(FetchError::Missing { field: Field::Speed }); },
    };
    let location_name: String = match name {
        Some(name) => name,
        None => { return Err(FetchError::Missing { field: Field::Name }); },
    };
    match WeatherReport::new(
        location_name,
        conditions,
        temperature_celsius,
        humidity_percent,
        pressure_hpa,
        wind_speed_mps,
    ) {
        Some(report) => Ok(report),
        None => Err(FetchError::NoConditions),
    }
}

/// Judges a reply: the report it brings, or the failure.
pub fn conclude(reply: Reply) -> (outcome: Result<WeatherReport, FetchError>)
    ensures
        agrees(outcome, verdict(reply)),
{
    match reply {
        Reply::Unreachable { cause } => Err(FetchError::Transport { cause }),
        Reply::Answered { status, body } => {
            if status < 200 || status > 299 {
                return Err(FetchError::Status { code: status });
            }
            match body {
                Err(cause) => Err(FetchError::Malformed { cause }),
                Ok(payload) => assemble(payload),
            }
        },
    }
}

impl FetchError {
    /// The failure in words.
    pub fn describe(&self) -> (words: String)
        ensures
            words@ == describe_text(self@),
    {
        match self {
            FetchError::Transport { cause } => cause.clone(),
            FetchError::Status { code } => {
                let mut words: String = String::from_str("unexpected HTTP status ");
                words.append(Natural::from_u64(*code as u64).to_text().as_str());
                words
            },
            FetchError::Malformed { cause } => cause.clone(),
            FetchError::Missing { field } => {
                let mut words: String = String::from_str("missing field `");
                words.append(field.name());
                words.append("`");
                words
            },
            FetchError::NoConditions => String::from_str("the list of weather conditions is empty"),
        }
    }

    /// The line shown to the user after a failed lookup.
    pub fn failure_line(&self) -> (line: String)
        ensures
            line@ == failure_line_text(self@),
    {
        let mut line: String = String::from_str("Error fetching weather data: ");
        line.append(self.describe().as_str());
        line
    }
}

} // verus!
