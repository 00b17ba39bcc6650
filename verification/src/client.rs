//! The client's side of asking the service.

use crate::listener::ErrorKind;
use crate::text::{cat2, cat4};
use vstd::prelude::*;

verus! {

/// What is done with a mount's files.
#[derive(Debug, PartialEq, Eq)]
pub enum IoOperation<'a> {
    WriteFile { relative_path: &'a str, contents: &'a str },
}

/// Why the service could not be asked.
#[derive(Debug, PartialEq, Eq)]
pub enum ClientError {
    MissingSocket,
    MissingToken,
    InvalidToken,
    ConnectionRefused,
    NoResponse,
    UnexpectedResponse { expected: String, received: String, details: String },
    Error(String),
}

impl ClientError {
    /// The error in words.
    pub fn describe(&self) -> (r: String)
        ensures
            r@ == (match self {
                ClientError::MissingSocket =>
                    "Missing socket. Has the system been initialized?"@,
                ClientError::MissingToken => "Missing token. Has the system been initialized?"@,
                ClientError::InvalidToken => "Invalid token"@,
                ClientError::ConnectionRefused => "Connection refused.  Is douglas running?"@,
                ClientError::NoResponse => "Server closed connection without responding"@,
                ClientError::UnexpectedResponse { expected, received, .. } =>
                    "Server returned an unexpected response, expected "@ + expected@
                    + " but received "@ + received@,
                ClientError::Error(error) => "Error: "@ + error@,
            }),
    {
        match self {
            ClientError::MissingSocket =>
                "Missing socket. Has the system been initialized?".to_owned(),
            ClientError::MissingToken =>
                "Missing token. Has the system been initialized?".to_owned(),
            ClientError::InvalidToken => "Invalid token".to_owned(),
            ClientError::ConnectionRefused => "Connection refused.  Is douglas running?".to_owned(),
            ClientError::NoResponse => "Server closed connection without responding".to_owned(),
            ClientError::UnexpectedResponse { expected, received, .. } => cat4(
                "Server returned an unexpected response, expected ",
                expected,
                " but received ",
                received,
            ),
            ClientError::Error(error) => cat2("Error: ", error),
        }
    }
}

/// A user and a group of the system.
#[derive(Debug, PartialEq, Eq)]
pub struct Credential {
    pub user: String,
    pub user_id: u32,
    pub group: String,
    pub group_id: u32,
}

/// What the service says of itself.
#[derive(Debug, PartialEq, Eq)]
pub struct Status<S> {
    pub token_path: String,
    pub mount_root: String,
    pub services: Vec<S>,
}

/// The token that requests are made with: there has to be one, and it has to be readable.
pub fn get_token(token_exists: bool, read: Result<String, String>) -> (r: Result<
    String,
    ClientError,
>)
    ensures
        r == (if !token_exists {
            Err::<String, ClientError>(ClientError::MissingToken)
        } else {
            match read {
                Ok(token) => Ok(token),
                Err(error) => Err(ClientError::Error(error)),
            }
        }),
{
    if !token_exists {
        return Err(ClientError::MissingToken);
    }
    match read {
        Ok(token) => Ok(token),
        Err(error) => Err(ClientError::Error(error)),
    }
}

/// The error that a failure to connect is passed on as.
pub fn connect_error(kind: ErrorKind, error: String) -> (r: ClientError)
    ensures
        r == (match kind {
            ErrorKind::NotFound => ClientError::MissingSocket,
            ErrorKind::ConnectionRefused => ClientError::ConnectionRefused,
            _ => ClientError::Error(error),
        }),
{
    match kind {
        ErrorKind::NotFound => ClientError::MissingSocket,
        ErrorKind::ConnectionRefused => ClientError::ConnectionRefused,
        _ => ClientError::Error(error),
    }
}

/// Something that came from the service.
#[derive(Debug, PartialEq, Eq)]
pub enum Arrival<T> {
    Response { response: T, is_terminal: bool },
    Failed(String),
    Closed,
}

/// What is done about something that came from the service.
#[derive(Debug, PartialEq, Eq)]
pub enum Streaming<T> {
    /// Progress is passed on, and the next response awaited.
    Progress(T),
    Done(Result<T, ClientError>),
}

/// Decides about something that came from the service: progress is passed on until a terminal
/// response comes; a connection that ends before that gave no response.
pub fn streaming_request<T>(arrival: Arrival<T>) -> (r: Streaming<T>)
    ensures
        r == (match arrival {
            Arrival::Response { response, is_terminal } => if is_terminal {
                Streaming::Done(Ok::<T, ClientError>(response))
            } else {
                Streaming::Progress(response)
            },
            Arrival::Failed(error) => Streaming::Done(Err(ClientError::Error(error))),
            Arrival::Closed => Streaming::Done(Err(ClientError::NoResponse)),
        }),
{
    match arrival {
        Arrival::Response { response, is_terminal } => {
            if is_terminal {
                Streaming::Done(Ok(response))
            } else {
                Streaming::Progress(response)
            }
        },
        Arrival::Failed(error) => Streaming::Done(Err(ClientError::Error(error))),
        Arrival::Closed => Streaming::Done(Err(ClientError::NoResponse)),
    }
}

} // verus!
