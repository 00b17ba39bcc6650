//! What may be asked of the service and what it answers.

use crate::names::Name;
use crate::seedling::{SeedlingDefinition, Version};
use crate::server::{SeedlingStatus, ServerError};
use vstd::prelude::*;

verus! {

/// What may be asked of the service.
#[derive(Debug, PartialEq, Eq)]
pub enum Request {
    SeedlingStatus { name: Name },
    StartSeedling { name: Name },
    StopSeedling { name: Name },
    DropSeedling { name: Name },
    ReconcileSeedling { name: Name, version: Version, seedling_definition: SeedlingDefinition },
}

/// What the service answers.
#[derive(Debug, PartialEq, Eq)]
pub enum Response {
    SeedlingStatus(SeedlingStatus),
    Started,
    Stopped,
    Dropped,
    Error { message: String },
}

/// What came of what was asked.
#[derive(Debug, PartialEq, Eq)]
pub enum Outcome {
    Status(Result<SeedlingStatus, ServerError>),
    Done(Result<(), ServerError>),
}

/// Whether this can come of a request: a status where it was asked for, else only success or
/// failure.
pub open spec fn answers(request: Request, outcome: Outcome) -> bool {
    request is SeedlingStatus <==> outcome is Status
}

/// The answer that a success is worth.
pub open spec fn success(request: Request) -> Response {
    match request {
        Request::StopSeedling { .. } => Response::Stopped,
        Request::DropSeedling { .. } => Response::Dropped,
        _ => Response::Started,
    }
}

/// The answer to an error: its words.
pub fn error_response(error: &ServerError) -> (r: Response)
    ensures
        r matches Response::Error { message } && message@ == error.text(),
{
    Response::Error { message: error.describe() }
}

/// Answers a request by what came of it.
pub fn handle(request: &Request, outcome: Outcome) -> (r: Response)
    requires
        answers(*request, outcome),
    ensures
        match outcome {
            Outcome::Status(Ok(status)) => r == Response::SeedlingStatus(status),
            Outcome::Done(Ok(_)) => r == success(*request),
            Outcome::Status(Err(error)) => r matches Response::Error { message } && message@
                == error.text(),
            Outcome::Done(Err(error)) => r matches Response::Error { message } && message@
                == error.text(),
        },
{
    match outcome {
        Outcome::Status(Ok(status)) => Response::SeedlingStatus(status),
        Outcome::Status(Err(error)) => error_response(&error),
        Outcome::Done(Err(error)) => error_response(&error),
        Outcome::Done(Ok(_)) => match request {
            Request::StopSeedling { .. } => Response::Stopped,
            Request::DropSeedling { .. } => Response::Dropped,
            Request::StartSeedling { .. } => Response::Started,
            Request::ReconcileSeedling { .. } => Response::Started,
            Request::SeedlingStatus { .. } => Response::Started,
        },
    }
}

/// A success says what was asked for: that the seedling was stopped, dropped or started.
pub proof fn law_successes_say_what_was_asked(request: Request)
    ensures
        success(request) is Stopped <==> request is StopSeedling,
        success(request) is Dropped <==> request is DropSeedling,
        success(request) is Started <==> !(request is StopSeedling || request is DropSeedling),
{
}

} // verus!
