use douglas::client::{
    connect_error, get_token, streaming_request, Arrival, ClientError, Streaming,
};
use douglas::connection::{
    advance, answer_trigger, demand, framed, ConnectionDemand, ConnectionEvent, ConnectionState,
    Line, TriggerResponse,
};
use douglas::listener::ErrorKind;
use douglas::names::Name;
use douglas::protocol::{error_response, handle, Outcome, Request, Response};
use douglas::server::{DefinitionStatus, SeedlingStatus, ServerError};

fn name() -> Name {
    Name::parse("hello").expect("valid name")
}

/// Where a connection stands after everything that happened to it.
fn after(events: &[ConnectionEvent]) -> ConnectionState {
    events
        .iter()
        .fold(ConnectionState::Reading, |state, event| {
            advance(state, *event).expect("the connection waits for it")
        })
}

fn request(is_stop: bool) -> ConnectionEvent {
    ConnectionEvent::LineRead(Line::Request { is_stop })
}

fn written(success: bool) -> ConnectionEvent {
    ConnectionEvent::Written { success }
}

#[test]
fn test_a_request_is_served_told_of_and_answered() {
    let ended = after(&[
        request(false),
        ConnectionEvent::EventReported,
        written(true),
        ConnectionEvent::HandlerFinished,
        ConnectionEvent::EventReported,
        written(true),
        ConnectionEvent::NoMoreEvents,
        written(true),
    ]);

    assert_eq!(ended, ConnectionState::Closed { shutdown: false });
    assert_eq!(demand(ended), ConnectionDemand::Close { shutdown: false });
}

#[test]
fn test_a_request_to_stop_shuts_down_even_where_nobody_hears_the_answer() {
    let served = [
        request(true),
        ConnectionEvent::HandlerFinished,
        ConnectionEvent::NoMoreEvents,
    ];

    assert_eq!(
        demand(after(&served)),
        ConnectionDemand::WriteResponse
    );
    for success in [true, false] {
        assert_eq!(
            advance(after(&served), written(success)),
            Some(ConnectionState::Closed { shutdown: true })
        );
    }
}

#[test]
fn test_an_event_that_nobody_hears_ends_the_connection() {
    assert_eq!(
        after(&[
            request(true),
            ConnectionEvent::EventReported,
            written(false)
        ]),
        ConnectionState::Closed { shutdown: false }
    );
}

#[test]
fn test_what_is_no_request_is_refused() {
    let malformed = after(&[ConnectionEvent::LineRead(Line::Malformed)]);

    assert_eq!(demand(malformed), ConnectionDemand::WriteRefusal);
    assert_eq!(
        after(&[ConnectionEvent::LineRead(Line::Unreadable)]),
        ConnectionState::Closed { shutdown: false }
    );
    assert_eq!(demand(ConnectionState::Reading), ConnectionDemand::ReadLine);
    assert_eq!(
        demand(ConnectionState::Serving { stop: false }),
        ConnectionDemand::AwaitEventOrHandler
    );
    assert_eq!(
        demand(ConnectionState::Draining { stop: false }),
        ConnectionDemand::AwaitEvent
    );
    assert_eq!(
        advance(ConnectionState::Reading, ConnectionEvent::NoMoreEvents),
        None
    );
}

#[test]
fn test_messages_end_with_their_line() {
    assert_eq!(framed("{}"), "{}\n");
}

#[test]
fn test_triggers_name_a_seedling() {
    assert_eq!(
        answer_trigger("hello"),
        (TriggerResponse::Accepted, Some(name()))
    );
    assert_eq!(
        answer_trigger("no such name"),
        (TriggerResponse::InvalidName, None)
    );
}

#[test]
fn test_requests_are_answered_by_what_came_of_them() {
    let running = SeedlingStatus::Running(DefinitionStatus::Current);
    assert_eq!(
        handle(
            &Request::SeedlingStatus { name: name() },
            Outcome::Status(Ok(running))
        ),
        Response::SeedlingStatus(running)
    );
    for (request, response) in [
        (Request::StartSeedling { name: name() }, Response::Started),
        (Request::StopSeedling { name: name() }, Response::Stopped),
        (Request::DropSeedling { name: name() }, Response::Dropped),
    ] {
        assert_eq!(handle(&request, Outcome::Done(Ok(()))), response);
        assert_eq!(
            handle(
                &request,
                Outcome::Done(Err(ServerError::RolodexError("full".to_string())))
            ),
            Response::Error {
                message: "Rolodex error: full".to_string()
            }
        );
    }
    assert_eq!(
        error_response(&ServerError::NameParseError("bad".to_string())),
        Response::Error {
            message: "Name parse error: bad".to_string()
        }
    );
}

#[test]
fn test_a_token_has_to_be_there_and_readable() {
    let token = || Ok("secret".to_string());

    assert_eq!(get_token(true, token()), Ok("secret".to_string()));
    assert_eq!(get_token(false, token()), Err(ClientError::MissingToken));
    assert_eq!(
        get_token(true, Err("locked".to_string())),
        Err(ClientError::Error("locked".to_string()))
    );
}

#[test]
fn test_failures_to_connect_are_told_apart() {
    let error = || "os error".to_string();

    assert_eq!(
        connect_error(ErrorKind::NotFound, error()),
        ClientError::MissingSocket
    );
    assert_eq!(
        connect_error(ErrorKind::ConnectionRefused, error()),
        ClientError::ConnectionRefused
    );
    assert_eq!(
        connect_error(ErrorKind::Other, error()).describe(),
        "Error: os error"
    );
}

#[test]
fn test_progress_is_passed_on_until_the_last_response() {
    assert_eq!(
        streaming_request(Arrival::Response {
            response: 1,
            is_terminal: false
        }),
        Streaming::Progress(1)
    );
    assert_eq!(
        streaming_request(Arrival::Response {
            response: 2,
            is_terminal: true
        }),
        Streaming::Done(Ok(2))
    );
    assert_eq!(
        streaming_request::<u8>(Arrival::Failed("broken".to_string())),
        Streaming::Done(Err(ClientError::Error("broken".to_string())))
    );
    assert_eq!(
        streaming_request::<u8>(Arrival::Closed),
        Streaming::Done(Err(ClientError::NoResponse))
    );
}

#[test]
fn test_errors_of_the_client_are_put_into_words() {
    for (error, words) in [
        (
            ClientError::MissingSocket,
            "Missing socket. Has the system been initialized?",
        ),
        (
            ClientError::MissingToken,
            "Missing token. Has the system been initialized?",
        ),
        (ClientError::InvalidToken, "Invalid token"),
        (
            ClientError::ConnectionRefused,
            "Connection refused.  Is douglas running?",
        ),
        (
            ClientError::NoResponse,
            "Server closed connection without responding",
        ),
        (
            ClientError::UnexpectedResponse {
                expected: "a".to_string(),
                received: "b".to_string(),
                details: "c".to_string(),
            },
            "Server returned an unexpected response, expected a but received b",
        ),
    ] {
        assert_eq!(error.describe(), words);
    }
}
