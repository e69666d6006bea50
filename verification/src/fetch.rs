//! The page fetcher's decisions. The retrieval itself is done by the caller:
//! it sends what `request_for` describes, reports each thing that happens as
//! a `FetchEvent`, and does what `next_step` answers until the fetch is done.

use crate::text::{decimal, push_decimal};
use vstd::prelude::*;

verus! {

/// What one retrieval of a target came to.
#[derive(Clone, Debug, PartialEq, Eq)]
pub enum FetchOutcome {
    /// The page was served; its body as text.
    Content(String),
    /// The status of the response says that the page does not exist.
    NotFound,
    /// No usable response: connection failure, timeout, a status that is
    /// neither a success nor "not found", or a body that could not be decoded.
    /// The text says what went wrong.
    TransportError(String),
}

/// The mathematical form of a fetch outcome.
pub enum Outcome {
    Content(Seq<char>),
    NotFound,
    TransportError(Seq<char>),
}

impl View for FetchOutcome {
    type V = Outcome;

    open spec fn view(&self) -> Outcome {
        match self {
            FetchOutcome::Content(text) => Outcome::Content(text@),
            FetchOutcome::NotFound => Outcome::NotFound,
            FetchOutcome::TransportError(detail) => Outcome::TransportError(detail@),
        }
    }
}

/// The one request that a fetch consists of: a GET of `url` that carries a
/// single header and no body.
#[derive(Clone, Debug, PartialEq, Eq)]
pub struct FetchRequest {
    pub url: String,
    pub header_name: String,
    pub header_value: String,
}

/// Something that happened during a retrieval, as the caller observed it.
#[derive(Clone, Debug, PartialEq, Eq)]
pub enum FetchEvent {
    /// The request could not be sent, or no response came; with the reason.
    Unreachable(String),
    /// A response came, with this status code.
    Responded(u16),
    /// The body of the response was read as text.
    Body(String),
    /// The body of the response could not be read or decoded; with the reason.
    Unreadable(String),
}

/// The mathematical form of an event.
pub enum Event {
    Unreachable(Seq<char>),
    Responded(u16),
    Body(Seq<char>),
    Unreadable(Seq<char>),
}

impl View for FetchEvent {
    type V = Event;

    open spec fn view(&self) -> Event {
        match self {
            FetchEvent::Unreachable(reason) => Event::Unreachable(reason@),
            FetchEvent::Responded(status) => Event::Responded(*status),
            FetchEvent::Body(text) => Event::Body(text@),
            FetchEvent::Unreadable(reason) => Event::Unreadable(reason@),
        }
    }
}

/// What the caller does next.
#[derive(Clone, Debug, PartialEq, Eq)]
pub enum FetchStep {
    /// Read the body of the response and report it.
    ReadBody,
    /// The fetch has ended with this outcome.
    Done(FetchOutcome),
}

/// The mathematical form of a step.
pub enum Step {
    ReadBody,
    Done(Outcome),
}

impl View for FetchStep {
    type V = Step;

    open spec fn view(&self) -> Step {
        match self {
            FetchStep::ReadBody => Step::ReadBody,
            FetchStep::Done(outcome) => Step::Done(outcome@),
        }
    }
}

/// The status code that says that a page does not exist.
pub const STATUS_NOT_FOUND: u16 = 404;

/// A status code of a successful response.
pub open spec fn is_success(status: u16) -> bool {
    200 <= status <= 299
}

/// What the transport error of a response with an unusable status says.
pub open spec fn status_detail(status: u16) -> Seq<char> {
    "unexpected status "@ + decimal(status as nat)
}

/// The step that follows an event. A missing page ends the fetch at once, a
/// success asks for the body, any other status is a transport error. There is
/// one attempt: no step asks for the request to be sent again. A failure is
/// an outcome like any other.
pub open spec fn step_after(event: Event) -> Step {
    match event {
        Event::Unreachable(reason) => Step::Done(Outcome::TransportError(reason)),
        Event::Responded(status) => if status == STATUS_NOT_FOUND {
            Step::Done(Outcome::NotFound)
        } else if is_success(status) {
            Step::ReadBody
        } else {
            Step::Done(Outcome::TransportError(status_detail(status)))
        },
        Event::Body(text) => Step::Done(Outcome::Content(text)),
        Event::Unreadable(reason) => Step::Done(Outcome::TransportError(reason)),
    }
}

/// Describes the request for `target`: the target itself as the address, and
/// the cookie by which the site's age gate is acknowledged.
pub fn request_for(target: &str) -> (request: FetchRequest)
    ensures
        request.url@ == target@,
        request.header_name@ == "cookie"@,
        request.header_value@ == "over18=1"@,
{
    FetchRequest {
        url: String::from_str(target),
        header_name: String::from_str("cookie"),
        header_value: String::from_str("over18=1"),
    }
}

/// Decides what follows `event`.
pub fn next_step(event: FetchEvent) -> (step: FetchStep)
    ensures
        step@ == step_after(event@),
{
    match event {
        FetchEvent::Unreachable(reason) => FetchStep::Done(FetchOutcome::TransportError(reason)),
        FetchEvent::Responded(status) => {
            if status == STATUS_NOT_FOUND {
                FetchStep::Done(FetchOutcome::NotFound)
            } else if 200 <= status && status <= 299 {
                FetchStep::ReadBody
            } else {
                let mut detail = String::from_str("unexpected status ");
                push_decimal(&mut detail, status as u32);
                FetchStep::Done(FetchOutcome::TransportError(detail))
            }
        },
        FetchEvent::Body(text) => FetchStep::Done(FetchOutcome::Content(text)),
        FetchEvent::Unreadable(reason) => FetchStep::Done(FetchOutcome::TransportError(reason)),
    }
}

} // verus!
