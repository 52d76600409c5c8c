//! The conversation with the user, as a state machine: each step takes
//! what happened and says what is to be done next.

use crate::fetch::{
    conclude, failure_line_text, request_url_text, verdict, Reply, WeatherQuery,
};
use crate::present::{color_of, render, render_text, DisplayBlock};
use crate::text::{trim_spec, wants_another, wants_another_spec};
use vstd::prelude::*;

verus! {

/// Where the conversation stands.
#[derive(Debug)]
pub enum Phase {
    /// The name of a city was asked for.
    AwaitCity,
    /// The city was given, as this line; the country code was asked for.
    AwaitCountry { city_line: String },
    /// A request is under way.
    AwaitReply,
    /// A report was shown, and the user was asked whether to go on.
    AwaitAnswer,
    /// The user declined to go on.
    Finished,
}

/// A conversation: the key that the provider asks for, and the phase.
pub struct Session {
    pub api_key: String,
    pub phase: Phase,
}

/// What happened since the last step.
#[derive(Debug)]
pub enum Event {
    /// The user entered a line.
    Line { text: String },
    /// The request ended.
    Replied { reply: Reply },
}

/// What is to be done next.
#[derive(Debug)]
pub enum Action {
    /// Ask for the name of a city and read a line.
    AskCity,
    /// Ask for the country code and read a line.
    AskCountry,
    /// Send one request to this address and hand back how it ended.
    Fetch { url: String },
    /// Show the block, ask whether to check another location, and read a
    /// line.
    Show { block: DisplayBlock },
    /// Show the line as an error, then ask for the name of a city and read
    /// a line.
    Report { line: String },
    /// Leave.
    Quit,
}

/// Whether the event is the one that the phase waits for.
pub open spec fn fits(phase: Phase, event: Event) -> bool {
    match event {
        Event::Line { .. } => phase is AwaitCity || phase is AwaitCountry || phase is AwaitAnswer,
        Event::Replied { .. } => phase is AwaitReply,
    }
}

/// The step that the rules ask for: from a session and an event that fits
/// it to the next session and the action.
///
/// A city and a country code lead to one request for the two, trimmed. A
/// report is shown and followed by the question whether to go on; only
/// the answer `y`, in either case and with white space around it or not,
/// goes on. A failure is reported and followed at once by the question
/// for a city.
pub open spec fn follows(before: Session, event: Event, after: Session, action: Action) -> bool {
    &&& after.api_key@ == before.api_key@
    &&& match (before.phase, event) {
        (Phase::AwaitCity, Event::Line { text }) => {
            &&& after.phase matches Phase::AwaitCountry { city_line }
            &&& city_line@ == text@
            &&& action is AskCountry
        },
        (Phase::AwaitCountry { city_line }, Event::Line { text }) => {
            &&& after.phase is AwaitReply
            &&& action matches Action::Fetch { url }
            &&& url@ == request_url_text(trim_spec(city_line@), trim_spec(text@), before.api_key@)
        },
        (Phase::AwaitReply, Event::Replied { reply }) => match verdict(reply) {
            Ok(report) => {
                &&& after.phase is AwaitAnswer
                &&& action matches Action::Show { block }
                &&& block.text@ == render_text(report)
                &&& block.color_tag == color_of(report.descriptions[0])
            },
            Err(failure) => {
                &&& after.phase is AwaitCity
                &&& action matches Action::Report { line }
                &&& line@ == failure_line_text(failure)
            },
        },
        (Phase::AwaitAnswer, Event::Line { text }) => {
            if wants_another_spec(text@) {
                after.phase is AwaitCity && action is AskCity
            } else {
                after.phase is Finished && action is Quit
            }
        },
        _ => false,
    }
}

/// After a failed lookup the failure is reported and the user is asked for
/// a city at once: a failure never leads to the question whether to go on,
/// and never ends the conversation.
pub proof fn law_failure_asks_for_city(before: Session, event: Event, after: Session, action: Action)
    requires
        follows(before, event, after, action),
        event matches Event::Replied { reply } && verdict(reply) is Err,
    ensures
        after.phase is AwaitCity,
        action matches Action::Report { line } && line@ == failure_line_text(
            verdict(event->reply)->Err_0,
        ),
{
}

/// The question whether to go on is asked only after a report was shown.
pub proof fn law_question_follows_report(
    before: Session,
    event: Event,
    after: Session,
    action: Action,
)
    requires
        follows(before, event, after, action),
        after.phase is AwaitAnswer,
    ensures
        action is Show,
        event matches Event::Replied { reply } && verdict(reply) is Ok,
{
}

/// The conversation ends only where the user was asked whether to go on
/// and gave another answer than `y`.
pub proof fn law_end_is_chosen(before: Session, event: Event, after: Session, action: Action)
    requires
        follows(before, event, after, action),
    ensures
        after.phase is Finished <==> action is Quit,
        action is Quit <==> before.phase is AwaitAnswer && event is Line && !wants_another_spec(
            event->text@,
        ),
{
}

impl Session {
    /// A new conversation, and its first action: to ask for a city.
    pub fn start(api_key: String) -> (begun: (Session, Action))
        ensures
            begun.0.api_key@ == api_key@,
            begun.0.phase is AwaitCity,
            begun.1 is AskCity,
    {
        (Session { api_key, phase: Phase::AwaitCity }, Action::AskCity)
    }

    /// Whether the user has declined to go on.
    pub fn is_finished(&self) -> (finished: bool)
        ensures
            finished == (self.phase is Finished),
    {
        match self.phase {
            Phase::Finished => true,
            _ => false,
        }
    }

    /// Takes one step. `None` if the event is not the one that the phase
    /// waits for.
    pub fn step(self, event: Event) -> (outcome: Option<(Session, Action)>)
        ensures
            outcome is Some <==> fits(self.phase, event),
            outcome matches Some((after, action)) ==> follows(self, event, after, action),
    {
        let Session { api_key, phase } = self;
        match (phase, event) {
            (Phase::AwaitCity, Event::Line { text }) => Some(
                (Session { api_key, phase: Phase::AwaitCountry { city_line: text } }, Action::AskCountry),
            ),
            (Phase::AwaitCountry { city_line }, Event::Line { text }) => {
                let query: WeatherQuery = WeatherQuery::from_lines(city_line.as_str(), text.as_str());
                let url: String = query.url(api_key.as_str());
                Some((Session { api_key, phase: Phase::AwaitReply }, Action::Fetch { url }))
            },
            (Phase::AwaitReply, Event::Replied { reply }) => match conclude(reply) {
                Ok(report) => {
                    let block: DisplayBlock = render(&report);
                    Some((Session { api_key, phase: Phase::AwaitAnswer }, Action::Show { block }))
                },
                Err(error) => {
                    let line: String = error.failure_line();
                    Some((Session { api_key, phase: Phase::AwaitCity }, Action::Report { line }))
                },
            },
            (Phase::AwaitAnswer, Event::Line { text }) => {
                if wants_another(text.as_str()) {
                    Some((Session { api_key, phase: Phase::AwaitCity }, Action::AskCity))
                } else {
                    Some((Session { api_key, phase: Phase::Finished }, Action::Quit))
                }
            },
            _ => None,
        }
    }
}

} // verus!
