//! Messages exchanged between the backend, the frontend's socket server and
//! the frontend's user interface.

use vstd::prelude::*;

verus! {

/// Message sent by the backend over the local socket, one JSON object per
/// line.
#[derive(Clone, Debug)]
pub enum SocketMessage {
    /// Recording started.
    STTRecordStart,
    /// Recording ended; the audio is being transcribed.
    STTRecordProcessing,
    /// Recording ended with this transcription.
    STTRecordEndWithText(String),
    /// Recording ended with this error.
    STTRecordEndWithError(String),
    /// Keep-alive request.
    Ping,
    /// Keep-alive answer.
    Pong,
}

/// Message delivered to the frontend's user interface.
#[derive(Clone, Debug)]
pub enum FrontendMessage {
    /// The backend connected to the socket.
    BackendConnected,
    /// The backend's connection ended or failed.
    BackendDisconnected,
    /// Recording started.
    STTRecordStart,
    /// Recording ended; the audio is being transcribed.
    STTRecordProcessing,
    /// Recording ended with this transcription.
    STTRecordEndWithText(String),
    /// Recording ended with this error.
    STTRecordEndWithError(String),
}

/// State of the frontend's socket server.
#[derive(Clone, Copy, Debug, PartialEq, Eq, Structural)]
pub enum ConnectionState {
    Connected,
    Disconnected,
    Listening,
}

/// Log line about the backend process.
#[derive(Clone, Debug)]
pub enum BackendLogMessage {
    /// Information from the process manager.
    InternalInfo(String),
    /// Error from the process manager.
    InternalError(String),
    /// A line of the backend's standard output.
    BackendOutput(String),
    /// A line of the backend's standard error (its log).
    BackendLog(String),
}

/// What the user interface is told when the backend sends `msg`:
/// keep-alive messages are dropped, the others are passed on unchanged.
pub open spec fn frontend_message_for(msg: SocketMessage) -> Option<FrontendMessage> {
    match msg {
        SocketMessage::STTRecordStart => Some(FrontendMessage::STTRecordStart),
        SocketMessage::STTRecordProcessing => Some(FrontendMessage::STTRecordProcessing),
        SocketMessage::STTRecordEndWithText(t) => Some(FrontendMessage::STTRecordEndWithText(t)),
        SocketMessage::STTRecordEndWithError(e) => Some(FrontendMessage::STTRecordEndWithError(e)),
        SocketMessage::Ping => None,
        SocketMessage::Pong => None,
    }
}

impl FrontendMessage {
    /// Converts a message from the backend for the user interface;
    /// `Ping` and `Pong` give `None`.
    pub fn from_socket_message(msg: SocketMessage) -> (res: Option<FrontendMessage>)
        ensures
            res == frontend_message_for(msg),
    {
        match msg {
            SocketMessage::STTRecordStart => Some(FrontendMessage::STTRecordStart),
            SocketMessage::STTRecordProcessing => Some(FrontendMessage::STTRecordProcessing),
            SocketMessage::STTRecordEndWithText(t) => Some(FrontendMessage::STTRecordEndWithText(t)),
            SocketMessage::STTRecordEndWithError(e) => Some(
                FrontendMessage::STTRecordEndWithError(e),
            ),
            SocketMessage::Ping => None,
            SocketMessage::Pong => None,
        }
    }
}

/// Frames a serialized message for the socket: the JSON text followed by a
/// newline.
pub fn frame_line(json: &str) -> (res: String)
    ensures
        res@ == json@.push('\n'),
{
    let mut res = json.to_owned();
    res.append("\n");
    proof {
        reveal_strlit("\n");
    }
    assert(res@ =~= json@.push('\n'));
    res
}

/// Kind of a failed read on the socket.
#[derive(Clone, Copy, Debug, PartialEq, Eq, Structural)]
pub enum ReadErrorKind {
    /// No data within the read timeout (non-blocking read).
    WouldBlock,
    /// No data within the read timeout.
    TimedOut,
    /// Any other failure.
    Other,
}

/// Whether a failed read ends the connection: only a timeout lets the
/// reader try again.
pub fn read_error_ends_connection(kind: ReadErrorKind) -> (res: bool)
    ensures
        res == (kind == ReadErrorKind::Other),
{
    match kind {
        ReadErrorKind::WouldBlock => false,
        ReadErrorKind::TimedOut => false,
        ReadErrorKind::Other => true,
    }
}

/// What the connection handler does with one read from the socket.
#[derive(Clone, Debug)]
pub enum ConnectionStep {
    /// Stop reading: the server is shutting down.
    Stop,
    /// Pass this message on to the user interface.
    Forward(FrontendMessage),
    /// Nothing to pass on (keep-alive, or a line that did not parse).
    Skip,
    /// Report the backend as disconnected and stop reading.
    Disconnect,
}

/// Decides what to do with one read: `stopping` says whether the server is
/// shutting down; `read` is the parsed line (`None` when it did not parse)
/// or the kind of read error. A shutdown stops the reader first; a timeout
/// is skipped; any other read error disconnects.
pub fn handle_read(stopping: bool, read: Result<Option<SocketMessage>, ReadErrorKind>) -> (res:
    ConnectionStep)
    ensures
        stopping ==> res is Stop,
        !stopping ==> match read {
            Ok(Some(m)) => match frontend_message_for(m) {
                Some(f) => res == ConnectionStep::Forward(f),
                None => res is Skip,
            },
            Ok(None) => res is Skip,
            Err(kind) => if kind == ReadErrorKind::Other {
                res is Disconnect
            } else {
                res is Skip
            },
        },
{
    if stopping {
        return ConnectionStep::Stop;
    }
    match read {
        Ok(Some(m)) => match FrontendMessage::from_socket_message(m) {
            Some(f) => ConnectionStep::Forward(f),
            None => ConnectionStep::Skip,
        },
        Ok(None) => ConnectionStep::Skip,
        Err(kind) => if read_error_ends_connection(kind) {
            ConnectionStep::Disconnect
        } else {
            ConnectionStep::Skip
        },
    }
}

/// What happens at the socket server's listener.
#[derive(Clone, Copy, Debug, PartialEq, Eq, Structural)]
pub enum ListenerEvent {
    /// A connection attempt arrived; `true` when it was accepted.
    Incoming(bool),
    /// Announcing a new connection to the user interface succeeded (`true`)
    /// or failed.
    Announced(bool),
    /// The connection being served has ended.
    ConnectionEnded,
}

/// What the listener does next.
#[derive(Clone, Debug)]
pub enum ListenerAction {
    /// Stop listening.
    Stop,
    /// Tell the user interface, then report whether that worked
    /// (`ListenerEvent::Announced`).
    Announce(FrontendMessage),
    /// Serve the accepted connection until it ends.
    Serve,
    /// Tell the user interface (a failure is only logged), pause briefly and
    /// wait for the next connection.
    Report(FrontendMessage),
    /// Wait for the next connection.
    AwaitNext,
}

/// The listener's next state and action: a shutdown stops it at the next
/// connection attempt; an accepted connection makes it connected and is
/// announced; a failed attempt is skipped; once announced, the connection
/// is served, and if the announcement failed the listener stops; when the
/// connection ends, the listener is disconnected and reports it.
pub open spec fn listener_step(state: ConnectionState, stopping: bool, event: ListenerEvent) -> (
    ConnectionState,
    ListenerAction,
) {
    match event {
        ListenerEvent::Incoming(accepted) => if stopping {
            (state, ListenerAction::Stop)
        } else if accepted {
            (ConnectionState::Connected, ListenerAction::Announce(FrontendMessage::BackendConnected))
        } else {
            (state, ListenerAction::AwaitNext)
        },
        ListenerEvent::Announced(ok) => if ok {
            (state, ListenerAction::Serve)
        } else {
            (state, ListenerAction::Stop)
        },
        ListenerEvent::ConnectionEnded => (
            ConnectionState::Disconnected,
            ListenerAction::Report(FrontendMessage::BackendDisconnected),
        ),
    }
}

/// Decides the listener's next state and action, as [`listener_step`]
/// states; `stopping` says whether the server is shutting down.
pub fn on_listener_event(state: ConnectionState, stopping: bool, event: ListenerEvent) -> (res: (
    ConnectionState,
    ListenerAction,
))
    ensures
        res == listener_step(state, stopping, event),
{
    match event {
        ListenerEvent::Incoming(accepted) => if stopping {
            (state, ListenerAction::Stop)
        } else if accepted {
            (ConnectionState::Connected, ListenerAction::Announce(FrontendMessage::BackendConnected))
        } else {
            (state, ListenerAction::AwaitNext)
        },
        ListenerEvent::Announced(ok) => if ok {
            (state, ListenerAction::Serve)
        } else {
            (state, ListenerAction::Stop)
        },
        ListenerEvent::ConnectionEnded => (
            ConnectionState::Disconnected,
            ListenerAction::Report(FrontendMessage::BackendDisconnected),
        ),
    }
}

/// Whether `event` can come right after `action` when the listener is
/// driven as its actions say: an announcement is answered by whether it
/// worked, serving ends when the connection ends, a report or a skipped
/// attempt is followed by the next connection attempt, and nothing follows
/// a stop.
pub open spec fn follows(action: ListenerAction, event: ListenerEvent) -> bool {
    match action {
        ListenerAction::Announce(_) => event is Announced,
        ListenerAction::Serve => event is ConnectionEnded,
        ListenerAction::Report(_) => event is Incoming,
        ListenerAction::AwaitNext => event is Incoming,
        ListenerAction::Stop => false,
    }
}

/// A run of the listener while the server is not shutting down: it starts
/// listening, the first event is a connection attempt, step `i` took
/// `states[i]` to `states[i + 1]` on `events[i]` doing `actions[i]` (as
/// [`on_listener_event`] decides), and each event follows the action before
/// it.
pub open spec fn listener_run(
    states: Seq<ConnectionState>,
    events: Seq<ListenerEvent>,
    actions: Seq<ListenerAction>,
) -> bool {
    &&& states.len() == events.len() + 1
    &&& actions.len() == events.len()
    &&& states[0] == ConnectionState::Listening
    &&& (events.len() > 0 ==> events[0] is Incoming)
    &&& forall|i: int|
        0 <= i < events.len() ==> (states[i + 1], actions[i]) == #[trigger] listener_step(
            states[i],
            false,
            events[i],
        )
    &&& forall|i: int| 0 <= i < events.len() - 1 ==> follows(#[trigger] actions[i], events[i + 1])
}

/// Until a connection is accepted, the listener stays listening and only
/// waits for the next attempt.
proof fn lemma_listening_until_accepted(
    states: Seq<ConnectionState>,
    events: Seq<ListenerEvent>,
    actions: Seq<ListenerAction>,
    i: int,
)
    requires
        listener_run(states, events, actions),
        0 <= i <= events.len(),
        forall|j: int| 0 <= j < i ==> #[trigger] events[j] != ListenerEvent::Incoming(true),
    ensures
        states[i] == ConnectionState::Listening,
        i > 0 ==> actions[i - 1] is AwaitNext,
    decreases i,
{
    if i > 0 {
        lemma_listening_until_accepted(states, events, actions, i - 1);
        let k = i - 1;
        assert((states[k + 1], actions[k]) == listener_step(states[k], false, events[k]));
        if k > 0 {
            let h = k - 1;
            assert(follows(actions[h], events[h + 1]));
        }
        assert(events[k] != ListenerEvent::Incoming(true));
    }
}

/// Over a run of the listener without shutdown, connections are handled
/// one at a time: each is served only right after the user interface was
/// told `BackendConnected` (so that comes before anything forwarded from
/// it), and the state is `Connected` while it is served; when it ends, the
/// state becomes `Disconnected` and the user interface is told
/// `BackendDisconnected` (after the last message forwarded from it). Before
/// the first accepted connection the state is `Listening`, and a run only
/// stops at its last step.
pub proof fn lemma_listener_run(
    states: Seq<ConnectionState>,
    events: Seq<ListenerEvent>,
    actions: Seq<ListenerAction>,
)
    requires
        listener_run(states, events, actions),
    ensures
        forall|i: int|
            0 <= i < actions.len() && #[trigger] actions[i] is Serve ==> i >= 1 && actions[i - 1]
                == ListenerAction::Announce(FrontendMessage::BackendConnected) && states[i]
                == ConnectionState::Connected && states[i + 1] == ConnectionState::Connected,
        forall|i: int|
            0 <= i < actions.len() - 1 && #[trigger] actions[i] is Serve ==> actions[i + 1]
                == ListenerAction::Report(FrontendMessage::BackendDisconnected) && states[i + 2]
                == ConnectionState::Disconnected,
        forall|i: int|
            0 <= i <= events.len() && (forall|j: int|
                0 <= j < i ==> #[trigger] events[j] != ListenerEvent::Incoming(true)) ==> #[trigger] states[i]
                == ConnectionState::Listening,
        forall|i: int| 0 <= i < actions.len() - 1 ==> !(#[trigger] actions[i] is Stop),
{
    assert forall|i: int| 0 <= i < actions.len() && #[trigger] actions[i] is Serve implies i >= 1
        && actions[i - 1] == ListenerAction::Announce(FrontendMessage::BackendConnected)
        && states[i] == ConnectionState::Connected && states[i + 1]
        == ConnectionState::Connected by {
        assert((states[i + 1], actions[i]) == listener_step(states[i], false, events[i]));
        assert(events[i] == ListenerEvent::Announced(true));
        let k = i - 1;
        assert(follows(actions[k], events[k + 1]));
        assert((states[k + 1], actions[k]) == listener_step(states[k], false, events[k]));
    }
    assert forall|i: int| 0 <= i < actions.len() - 1 && #[trigger] actions[i] is Serve implies actions[i
        + 1] == ListenerAction::Report(FrontendMessage::BackendDisconnected) && states[i + 2]
        == ConnectionState::Disconnected by {
        assert(follows(actions[i], events[i + 1]));
        let k = i + 1;
        assert((states[k + 1], actions[k]) == listener_step(states[k], false, events[k]));
    }
    assert forall|i: int|
        0 <= i <= events.len() && (forall|j: int|
            0 <= j < i ==> #[trigger] events[j] != ListenerEvent::Incoming(true)) implies #[trigger] states[i]
        == ConnectionState::Listening by {
        lemma_listening_until_accepted(states, events, actions, i);
    }
    assert forall|i: int| 0 <= i < actions.len() - 1 implies !(#[trigger] actions[i] is Stop) by {
        assert(follows(actions[i], events[i + 1]));
    }
}

} // verus!
