//! One connection to the service: a request, the events that are reported while it is served, and
//! the response.

use crate::names::{valid_name, Name};
use crate::text::cat2;
use vstd::prelude::*;

verus! {

/// Where a connection stands.
#[derive(Debug, Clone, Copy, PartialEq, Eq, Structural)]
pub enum ConnectionState {
    /// The request is awaited.
    Reading,
    /// What was sent is no request, and the client is told so.
    Refusing,
    /// The request is served.
    Serving { stop: bool },
    /// An event is passed on.
    Telling { stop: bool, finished: bool },
    /// The request was served; events that are still to come are awaited.
    Draining { stop: bool },
    /// The response is written.
    Responding { stop: bool },
    /// The connection is over.
    Closed { shutdown: bool },
}

/// What came over a connection.
#[derive(Debug, Clone, Copy, PartialEq, Eq, Structural)]
pub enum Line {
    /// Nothing, or nothing that can be read.
    Unreadable,
    /// A line that is no request.
    Malformed,
    Request { is_stop: bool },
}

/// What happens to a connection.
#[derive(Debug, Clone, Copy, PartialEq, Eq, Structural)]
pub enum ConnectionEvent {
    LineRead(Line),
    EventReported,
    HandlerFinished,
    NoMoreEvents,
    Written { success: bool },
}

/// What a connection wants.
#[derive(Debug, Clone, Copy, PartialEq, Eq, Structural)]
pub enum ConnectionDemand {
    ReadLine,
    WriteRefusal,
    AwaitEventOrHandler,
    WriteEvent,
    AwaitEvent,
    WriteResponse,
    Close { shutdown: bool },
}

/// What a connection wants.
pub open spec fn wanted(state: ConnectionState) -> ConnectionDemand {
    match state {
        ConnectionState::Reading => ConnectionDemand::ReadLine,
        ConnectionState::Refusing => ConnectionDemand::WriteRefusal,
        ConnectionState::Serving { .. } => ConnectionDemand::AwaitEventOrHandler,
        ConnectionState::Telling { .. } => ConnectionDemand::WriteEvent,
        ConnectionState::Draining { .. } => ConnectionDemand::AwaitEvent,
        ConnectionState::Responding { .. } => ConnectionDemand::WriteResponse,
        ConnectionState::Closed { shutdown } => ConnectionDemand::Close { shutdown },
    }
}

/// What a connection wants.
pub fn demand(state: ConnectionState) -> (r: ConnectionDemand)
    ensures
        r == wanted(state),
{
    match state {
        ConnectionState::Reading => ConnectionDemand::ReadLine,
        ConnectionState::Refusing => ConnectionDemand::WriteRefusal,
        ConnectionState::Serving { .. } => ConnectionDemand::AwaitEventOrHandler,
        ConnectionState::Telling { .. } => ConnectionDemand::WriteEvent,
        ConnectionState::Draining { .. } => ConnectionDemand::AwaitEvent,
        ConnectionState::Responding { .. } => ConnectionDemand::WriteResponse,
        ConnectionState::Closed { shutdown } => ConnectionDemand::Close { shutdown },
    }
}

/// Where a connection stands after something that it waited for; nothing where it did not wait for
/// that. An event that cannot be passed on ends it without a response. The service shuts down
/// after a response to the request to stop, even where the response could not be written.
pub open spec fn advanced(state: ConnectionState, event: ConnectionEvent) -> Option<ConnectionState> {
    match (state, event) {
        (ConnectionState::Reading, ConnectionEvent::LineRead(Line::Unreadable)) => Some(
            ConnectionState::Closed { shutdown: false },
        ),
        (ConnectionState::Reading, ConnectionEvent::LineRead(Line::Malformed)) => Some(
            ConnectionState::Refusing,
        ),
        (ConnectionState::Reading, ConnectionEvent::LineRead(Line::Request { is_stop })) => Some(
            ConnectionState::Serving { stop: is_stop },
        ),
        (ConnectionState::Refusing, ConnectionEvent::Written { .. }) => Some(
            ConnectionState::Closed { shutdown: false },
        ),
        (ConnectionState::Serving { stop }, ConnectionEvent::EventReported) => Some(
            ConnectionState::Telling { stop, finished: false },
        ),
        (ConnectionState::Serving { stop }, ConnectionEvent::HandlerFinished) => Some(
            ConnectionState::Draining { stop },
        ),
        (ConnectionState::Telling { stop, finished }, ConnectionEvent::Written { success }) => Some(
            if !success {
                ConnectionState::Closed { shutdown: false }
            } else if finished {
                ConnectionState::Draining { stop }
            } else {
                ConnectionState::Serving { stop }
            },
        ),
        (ConnectionState::Draining { stop }, ConnectionEvent::EventReported) => Some(
            ConnectionState::Telling { stop, finished: true },
        ),
        (ConnectionState::Draining { stop }, ConnectionEvent::NoMoreEvents) => Some(
            ConnectionState::Responding { stop },
        ),
        (ConnectionState::Responding { stop }, ConnectionEvent::Written { .. }) => Some(
            ConnectionState::Closed { shutdown: stop },
        ),
        _ => None,
    }
}

/// Where a connection stands after something that it waited for.
pub fn advance(state: ConnectionState, event: ConnectionEvent) -> (r: Option<ConnectionState>)
    ensures
        r == advanced(state, event),
{
    match (state, event) {
        (ConnectionState::Reading, ConnectionEvent::LineRead(line)) => match line {
            Line::Unreadable => Some(ConnectionState::Closed { shutdown: false }),
            Line::Malformed => Some(ConnectionState::Refusing),
            Line::Request { is_stop } => Some(ConnectionState::Serving { stop: is_stop }),
        },
        (ConnectionState::Refusing, ConnectionEvent::Written { .. }) => Some(
            ConnectionState::Closed { shutdown: false },
        ),
        (ConnectionState::Serving { stop }, ConnectionEvent::EventReported) => Some(
            ConnectionState::Telling { stop, finished: false },
        ),
        (ConnectionState::Serving { stop }, ConnectionEvent::HandlerFinished) => Some(
            ConnectionState::Draining { stop },
        ),
        (ConnectionState::Telling { stop, finished }, ConnectionEvent::Written { success }) => {
            if !success {
                Some(ConnectionState::Closed { shutdown: false })
            } else if finished {
                Some(ConnectionState::Draining { stop })
            } else {
                Some(ConnectionState::Serving { stop })
            }
        },
        (ConnectionState::Draining { stop }, ConnectionEvent::EventReported) => Some(
            ConnectionState::Telling { stop, finished: true },
        ),
        (ConnectionState::Draining { stop }, ConnectionEvent::NoMoreEvents) => Some(
            ConnectionState::Responding { stop },
        ),
        (ConnectionState::Responding { stop }, ConnectionEvent::Written { .. }) => Some(
            ConnectionState::Closed { shutdown: stop },
        ),
        _ => None,
    }
}

/// Whether a connection gets from one state to another by what happens to it, in order.
pub open spec fn runs(
    from: ConnectionState,
    events: Seq<ConnectionEvent>,
    to: ConnectionState,
) -> bool
    decreases events.len(),
{
    if events.len() == 0 {
        from == to
    } else {
        exists|mid: ConnectionState|
            runs(from, events.drop_last(), mid) && #[trigger] advanced(mid, events.last()) == Some(
                to,
            )
    }
}

/// Whether the request that a connection serves is the one to stop.
pub open spec fn serves_stop(state: ConnectionState) -> bool {
    match state {
        ConnectionState::Serving { stop } => stop,
        ConnectionState::Telling { stop, .. } => stop,
        ConnectionState::Draining { stop } => stop,
        ConnectionState::Responding { stop } => stop,
        ConnectionState::Closed { shutdown } => shutdown,
        _ => false,
    }
}

/// A connection shuts the service down only where its client asked for that, and only after the
/// request was served, there were no more events, and it was tried to write the response.
pub proof fn law_only_a_stop_request_shuts_down(events: Seq<ConnectionEvent>, to: ConnectionState)
    requires
        runs(ConnectionState::Reading, events, to),
        serves_stop(to),
    ensures
        events.len() > 0,
        events[0] == ConnectionEvent::LineRead(Line::Request { is_stop: true }),
        to is Closed ==> events.contains(ConnectionEvent::HandlerFinished) && events.contains(
            ConnectionEvent::NoMoreEvents,
        ) && events.last() is Written,
{
    lemma_stop_path(events, to);
}

proof fn lemma_stop_path(events: Seq<ConnectionEvent>, to: ConnectionState)
    requires
        runs(ConnectionState::Reading, events, to),
        serves_stop(to),
    ensures
        events.len() > 0,
        events[0] == ConnectionEvent::LineRead(Line::Request { is_stop: true }),
        (to is Draining || to is Responding || to is Closed || (to matches ConnectionState::Telling {
            finished,
            ..
        } && finished)) ==> events.contains(ConnectionEvent::HandlerFinished),
        (to is Responding || to is Closed) ==> events.contains(ConnectionEvent::NoMoreEvents),
        to is Closed ==> events.last() is Written,
    decreases events.len(),
{
    if events.len() > 0 {
        let rest = events.drop_last();
        let mid = choose|mid: ConnectionState|
            runs(ConnectionState::Reading, rest, mid) && #[trigger] advanced(mid, events.last())
                == Some(to);
        if mid is Reading {
            assert(rest.len() == 0) by {
                if rest.len() > 0 {
                    let earlier = choose|earlier: ConnectionState|
                        runs(ConnectionState::Reading, rest.drop_last(), earlier)
                            && #[trigger] advanced(earlier, rest.last()) == Some(mid);
                    assert(advanced(earlier, rest.last()) != Some(ConnectionState::Reading));
                }
            }
            assert(events[0] == events.last());
        } else {
            assert(serves_stop(mid));
            lemma_stop_path(rest, mid);
            assert(events[0] == rest[0]);
            if rest.contains(ConnectionEvent::HandlerFinished) {
                let i = choose|i: int|
                    0 <= i < rest.len() && rest[i] == ConnectionEvent::HandlerFinished;
                assert(events[i] == ConnectionEvent::HandlerFinished);
            }
            if rest.contains(ConnectionEvent::NoMoreEvents) {
                let i = choose|i: int|
                    0 <= i < rest.len() && rest[i] == ConnectionEvent::NoMoreEvents;
                assert(events[i] == ConnectionEvent::NoMoreEvents);
            }
            assert(events[events.len() - 1] == events.last());
        }
    }
}

/// A message as it goes over the line: its text and the end of the line.
pub fn framed(serialized: &str) -> (r: String)
    ensures
        r@ == serialized@ + "\n"@,
{
    cat2(serialized, "\n")
}

/// The answer to a request to reconcile.
#[derive(Debug, Clone, Copy, PartialEq, Eq, Structural)]
pub enum TriggerResponse {
    Accepted,
    InvalidName,
}

/// Answers a request to reconcile, and gives the seedling that is to be reconciled: none where
/// what was sent is no seedling's name.
pub fn answer_trigger(name: &str) -> (r: (TriggerResponse, Option<Name>))
    ensures
        if valid_name(name@) {
            r.0 == TriggerResponse::Accepted && (r.1 matches Some(parsed) && parsed@ == name@)
        } else {
            r.0 == TriggerResponse::InvalidName && r.1 is None
        },
{
    match Name::parse(name) {
        Some(parsed) => (TriggerResponse::Accepted, Some(parsed)),
        None => (TriggerResponse::InvalidName, None),
    }
}

/// A connection goes on exactly by what it wants: a line, the end of a write, an event, or the end
/// of the handler or of the events. Nothing makes it go on once it is closed.
pub proof fn law_connections_go_on_by_what_they_want(state: ConnectionState, event: ConnectionEvent)
    ensures
        advanced(state, event) is Some <==> (match wanted(state) {
            ConnectionDemand::ReadLine => event is LineRead,
            ConnectionDemand::WriteRefusal => event is Written,
            ConnectionDemand::AwaitEventOrHandler => event is EventReported || event is
                HandlerFinished,
            ConnectionDemand::WriteEvent => event is Written,
            ConnectionDemand::AwaitEvent => event is EventReported || event is NoMoreEvents,
            ConnectionDemand::WriteResponse => event is Written,
            ConnectionDemand::Close { .. } => false,
        }),
        wanted(state) is ReadLine <==> state is Reading,
        wanted(state) is WriteRefusal <==> state is Refusing,
        wanted(state) is AwaitEventOrHandler <==> state is Serving,
        wanted(state) is WriteEvent <==> state is Telling,
        wanted(state) is AwaitEvent <==> state is Draining,
        wanted(state) is WriteResponse <==> state is Responding,
        state matches ConnectionState::Closed { shutdown } ==> wanted(state)
            == (ConnectionDemand::Close { shutdown }),
{
}

/// A request is served, its events are awaited to the last, and it gets its response, whether or
/// not that can be written; the service then shuts down exactly where the request was to stop.
pub proof fn law_requests_are_answered(is_stop: bool, success: bool) -> (states: Seq<
    ConnectionState,
>)
    ensures
        states.len() == 4,
        advanced(
            ConnectionState::Reading,
            ConnectionEvent::LineRead(Line::Request { is_stop }),
        ) == Some(states[0]),
        wanted(states[0]) is AwaitEventOrHandler,
        advanced(states[0], ConnectionEvent::HandlerFinished) == Some(states[1]),
        wanted(states[1]) is AwaitEvent,
        advanced(states[1], ConnectionEvent::NoMoreEvents) == Some(states[2]),
        wanted(states[2]) is WriteResponse,
        advanced(states[2], ConnectionEvent::Written { success }) == Some(states[3]),
        wanted(states[3]) == (ConnectionDemand::Close { shutdown: is_stop }),
{
    seq![
        ConnectionState::Serving { stop: is_stop },
        ConnectionState::Draining { stop: is_stop },
        ConnectionState::Responding { stop: is_stop },
        ConnectionState::Closed { shutdown: is_stop },
    ]
}

/// What is no request is refused, what cannot be read is not even that, and neither shuts the
/// service down.
pub proof fn law_what_is_no_request_is_refused(success: bool) -> (refusing: ConnectionState)
    ensures
        advanced(ConnectionState::Reading, ConnectionEvent::LineRead(Line::Malformed)) == Some(
            refusing,
        ),
        wanted(refusing) is WriteRefusal,
        advanced(refusing, ConnectionEvent::Written { success }) == Some(
            ConnectionState::Closed { shutdown: false },
        ),
        advanced(ConnectionState::Reading, ConnectionEvent::LineRead(Line::Unreadable)) == Some(
            ConnectionState::Closed { shutdown: false },
        ),
{
    ConnectionState::Refusing
}

/// An event that is passed on brings a connection back to where it stood; one that cannot be passed
/// on closes it, without a response and without a shutdown.
pub proof fn law_events_are_passed_on(state: ConnectionState) -> (telling: ConnectionState)
    requires
        state is Serving || state is Draining,
    ensures
        advanced(state, ConnectionEvent::EventReported) == Some(telling),
        wanted(telling) is WriteEvent,
        advanced(telling, ConnectionEvent::Written { success: true }) == Some(state),
        advanced(telling, ConnectionEvent::Written { success: false }) == Some(
            ConnectionState::Closed { shutdown: false },
        ),
{
    match state {
        ConnectionState::Serving { stop } => ConnectionState::Telling { stop, finished: false },
        ConnectionState::Draining { stop } => ConnectionState::Telling { stop, finished: true },
        _ => state,
    }
}

} // verus!
