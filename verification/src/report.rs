//! The strict model of one current-weather observation.

use crate::reading::Reading;
use vstd::prelude::*;

verus! {

/// One entry of the provider's list of sky and precipitation conditions.
#[derive(Debug)]
pub struct ConditionEntry {
    pub description: String,
}

/// What a report says, as mathematical values.
pub struct ReportView {
    pub location_name: Seq<char>,
    pub descriptions: Seq<Seq<char>>,
    pub temperature_celsius: Reading,
    pub humidity_percent: Reading,
    pub pressure_hpa: Reading,
    pub wind_speed_mps: Reading,
}

/// The descriptions of a list of conditions, in order.
pub open spec fn descriptions_of(conditions: Seq<ConditionEntry>) -> Seq<Seq<char>> {
    Seq::new(conditions.len(), |i: int| conditions[i].description@)
}

/// One observation of the weather at a place. It always holds at least one
/// condition, and it is never changed once made.
#[derive(Debug)]
pub struct WeatherReport {
    location_name: String,
    conditions: Vec<ConditionEntry>,
    temperature_celsius: Reading,
    humidity_percent: Reading,
    pressure_hpa: Reading,
    wind_speed_mps: Reading,
}

impl View for WeatherReport {
    type V = ReportView;

    closed spec fn view(&self) -> ReportView {
        ReportView {
            location_name: self.location_name@,
            descriptions: descriptions_of(self.conditions@),
            temperature_celsius: self.temperature_celsius,
            humidity_percent: self.humidity_percent,
            pressure_hpa: self.pressure_hpa,
            wind_speed_mps: self.wind_speed_mps,
        }
    }
}

impl WeatherReport {
    #[verifier::type_invariant]
    spec fn has_conditions(self) -> bool {
        self.conditions@.len() >= 1
    }

    /// Makes a report, unless the list of conditions is empty.
    pub fn new(
        location_name: String,
        conditions: Vec<ConditionEntry>,
        temperature_celsius: Reading,
        humidity_percent: Reading,
        pressure_hpa: Reading,
        wind_speed_mps: Reading,
    ) -> (made: Option<WeatherReport>)
        ensures
            made is Some <==> conditions@.len() >= 1,
            made matches Some(report) ==> report@ == (ReportView {
                location_name: location_name@,
                descriptions: descriptions_of(conditions@),
                temperature_celsius,
                humidity_percent,
                pressure_hpa,
                wind_speed_mps,
            }),
    {
        if conditions.len() == 0 {
            return None;
        }
        Some(
            WeatherReport {
                location_name,
                conditions,
                temperature_celsius,
                humidity_percent,
                pressure_hpa,
                wind_speed_mps,
            },
        )
    }

    pub fn location_name(&self) -> (name: &str)
        ensures
            name@ == self@.location_name,
    {
        self.location_name.as_str()
    }

    /// The description of the first condition, the one that is shown.
    pub fn description(&self) -> (description: &str)
        ensures
            self@.descriptions.len() >= 1,
            description@ == self@.descriptions[0],
    {
        proof {
            use_type_invariant(self);
        }
        self.conditions[0].description.as_str()
    }

    /// How many conditions the report holds.
    pub fn condition_count(&self) -> (count: usize)
        ensures
            count == self@.descriptions.len(),
            count >= 1,
    {
        proof {
            use_type_invariant(self);
        }
        self.conditions.len()
    }

    pub fn temperature_celsius(&self) -> (reading: Reading)
        ensures
            reading == self@.temperature_celsius,
    {
        self.temperature_celsius
    }

    pub fn humidity_percent(&self) -> (reading: Reading)
        ensures
            reading == self@.humidity_percent,
    {
        self.humidity_percent
    }

    pub fn pressure_hpa(&self) -> (reading: Reading)
        ensures
            reading == self@.pressure_hpa,
    {
        self.pressure_hpa
    }

    pub fn wind_speed_mps(&self) -> (reading: Reading)
        ensures
            reading == self@.wind_speed_mps,
    {
        self.wind_speed_mps
    }
}

} // verus!
