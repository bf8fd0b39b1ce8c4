//! The server's side of an endpoint.
//!
//! A server clears a stale socket file out of the way, binds a listener and
//! then accepts connections for as long as it runs, each of which gets a
//! `Connection` of its own. `Server` holds what is decided on that way.
//! Whoever drives it touches the filesystem and the listener: it performs
//! each `ServeAction` and reports what came of it as the next `ServeEvent`.

use vstd::prelude::*;
use crate::connection::{Connection, ConnectionView, Phase};
use crate::framer::Framing;
use crate::monitor::SockMonitor;

verus! {

/// Where a server stands.
#[derive(Clone, Copy, Debug, PartialEq, Eq, Structural)]
pub enum ServePhase {
    /// Not started.
    Idle,
    /// Finding out whether a file is in the endpoint's place.
    Probing,
    /// Removing the file that was found there.
    Clearing,
    /// Binding the listener.
    Binding,
    /// Bound, and accepting connections.
    Listening,
    /// Given up. Nothing further is ever asked for.
    Stopped,
}

/// Why a server gave up.
#[derive(Clone, Copy, Debug, PartialEq, Eq, Structural)]
pub enum ServeError {
    /// The file in the endpoint's place could not be removed.
    Cleanup,
    /// The listener could not be bound.
    Bind,
    /// An event was reported that the server had not asked for.
    OutOfTurn,
}

/// What happened to a server.
#[derive(Clone, Copy, Debug, PartialEq, Eq, Structural)]
pub enum ServeEvent {
    /// The server was started.
    Started,
    /// The endpoint's path was looked at: a file is `present` there or not.
    Probed { present: bool },
    /// The file was removed.
    Removed,
    /// The file could not be removed; it was `missing` by then, or the
    /// removal failed for another reason.
    RemoveFailed { missing: bool },
    /// The listener is bound.
    Bound,
    /// The listener could not be bound.
    BindFailed,
    /// A connection was accepted.
    Accepted,
    /// An attempt to accept a connection failed.
    AcceptFailed,
}

/// What a server's driver is to do next.
#[derive(Debug)]
pub enum ServeAction {
    /// Find out whether a file exists at `path`.
    Probe { path: String },
    /// Remove the file at `path`.
    Remove { path: String },
    /// Bind a listener at `path`.
    Bind { path: String },
    /// Wait for the next connection.
    Accept,
    /// Give the connection just accepted a handling unit of its own, driven
    /// by this `Connection`; then wait for the next connection.
    Dispatch(Connection),
    /// Stop serving and report this error.
    Stop(ServeError),
}

/// An action, with its path as a sequence and its connection as a state.
pub enum ServeActionView {
    Probe { path: Seq<char> },
    Remove { path: Seq<char> },
    Bind { path: Seq<char> },
    Accept,
    Dispatch(ConnectionView),
    Stop(ServeError),
}

impl View for ServeAction {
    type V = ServeActionView;

    open spec fn view(&self) -> ServeActionView {
        match self {
            ServeAction::Probe { path } => ServeActionView::Probe { path: path@ },
            ServeAction::Remove { path } => ServeActionView::Remove { path: path@ },
            ServeAction::Bind { path } => ServeActionView::Bind { path: path@ },
            ServeAction::Accept => ServeActionView::Accept,
            ServeAction::Dispatch(conn) => ServeActionView::Dispatch(conn@),
            ServeAction::Stop(error) => ServeActionView::Stop(*error),
        }
    }
}

/// A server's state: its endpoint, the strategy its connections are read
/// by, and its phase.
pub struct ServerView {
    pub path: Seq<char>,
    pub framing: Framing,
    pub phase: ServePhase,
}

impl ServerView {
    /// This server in another phase.
    pub open spec fn at(self, phase: ServePhase) -> ServerView {
        ServerView { phase, ..self }
    }

    /// The state of a connection that this server has just accepted.
    pub open spec fn fresh_connection(self) -> ConnectionView {
        ConnectionView { framing: self.framing, phase: Phase::Accepted, inbound: Seq::empty() }
    }
}

/// The state that follows `pre` on `event`, and what is to be done next.
///
/// A stale file is removed before the listener is bound and at no other
/// time. That the file is gone by the time it is to be removed is no
/// failure. Once the listener is bound nothing stops the server but an
/// event that does not belong to its phase: a failed accept is followed by
/// the next accept.
pub open spec fn next(pre: ServerView, event: ServeEvent) -> (ServerView, ServeActionView) {
    match (pre.phase, event) {
        (ServePhase::Idle, ServeEvent::Started) => (
            pre.at(ServePhase::Probing),
            ServeActionView::Probe { path: pre.path },
        ),
        (ServePhase::Probing, ServeEvent::Probed { present: true }) => (
            pre.at(ServePhase::Clearing),
            ServeActionView::Remove { path: pre.path },
        ),
        (ServePhase::Probing, ServeEvent::Probed { present: false }) => (
            pre.at(ServePhase::Binding),
            ServeActionView::Bind { path: pre.path },
        ),
        (ServePhase::Clearing, ServeEvent::Removed) => (
            pre.at(ServePhase::Binding),
            ServeActionView::Bind { path: pre.path },
        ),
        (ServePhase::Clearing, ServeEvent::RemoveFailed { missing: true }) => (
            pre.at(ServePhase::Binding),
            ServeActionView::Bind { path: pre.path },
        ),
        (ServePhase::Clearing, ServeEvent::RemoveFailed { missing: false }) => (
            pre.at(ServePhase::Stopped),
            ServeActionView::Stop(ServeError::Cleanup),
        ),
        (ServePhase::Binding, ServeEvent::Bound) => (
            pre.at(ServePhase::Listening),
            ServeActionView::Accept,
        ),
        (ServePhase::Binding, ServeEvent::BindFailed) => (
            pre.at(ServePhase::Stopped),
            ServeActionView::Stop(ServeError::Bind),
        ),
        (ServePhase::Listening, ServeEvent::Accepted) => (
            pre,
            ServeActionView::Dispatch(pre.fresh_connection()),
        ),
        (ServePhase::Listening, ServeEvent::AcceptFailed) => (pre, ServeActionView::Accept),
        _ => (pre.at(ServePhase::Stopped), ServeActionView::Stop(ServeError::OutOfTurn)),
    }
}

/// The server's side of an endpoint.
#[derive(Debug)]
pub struct Server {
    path: String,
    framing: Framing,
    phase: ServePhase,
}

impl View for Server {
    type V = ServerView;

    closed spec fn view(&self) -> ServerView {
        ServerView { path: self.path@, framing: self.framing, phase: self.phase }
    }
}

impl Server {
    /// Where the server stands.
    pub fn phase(&self) -> (phase: ServePhase)
        ensures
            phase == self@.phase,
    {
        self.phase
    }

    /// The path of the endpoint that the server serves.
    pub fn path(&self) -> (path: &str)
        ensures
            path@ == self@.path,
    {
        self.path.as_str()
    }

    /// Takes the server one step on: from its state and what happened to
    /// its next state and what is to be done.
    pub fn step(self, event: ServeEvent) -> (step: (Server, ServeAction))
        ensures
            (step.0@, step.1@) == next(self@, event),
    {
        let Server { path, framing, phase } = self;
        let (phase, action): (ServePhase, ServeAction) = match (phase, event) {
            (ServePhase::Idle, ServeEvent::Started) => (
                ServePhase::Probing,
                ServeAction::Probe { path: path.clone() },
            ),
            (ServePhase::Probing, ServeEvent::Probed { present: true }) => (
                ServePhase::Clearing,
                ServeAction::Remove { path: path.clone() },
            ),
            (ServePhase::Probing, ServeEvent::Probed { present: false }) => (
                ServePhase::Binding,
                ServeAction::Bind { path: path.clone() },
            ),
            (ServePhase::Clearing, ServeEvent::Removed) => (
                ServePhase::Binding,
                ServeAction::Bind { path: path.clone() },
            ),
            (ServePhase::Clearing, ServeEvent::RemoveFailed { missing: true }) => (
                ServePhase::Binding,
                ServeAction::Bind { path: path.clone() },
            ),
            (ServePhase::Clearing, ServeEvent::RemoveFailed { missing: false }) => (
                ServePhase::Stopped,
                ServeAction::Stop(ServeError::Cleanup),
            ),
            (ServePhase::Binding, ServeEvent::Bound) => (ServePhase::Listening, ServeAction::Accept),
            (ServePhase::Binding, ServeEvent::BindFailed) => (
                ServePhase::Stopped,
                ServeAction::Stop(ServeError::Bind),
            ),
            (ServePhase::Listening, ServeEvent::Accepted) => (
                ServePhase::Listening,
                ServeAction::Dispatch(Connection::new(framing)),
            ),
            (ServePhase::Listening, ServeEvent::AcceptFailed) => (
                ServePhase::Listening,
                ServeAction::Accept,
            ),
            _ => (ServePhase::Stopped, ServeAction::Stop(ServeError::OutOfTurn)),
        };
        (Server { path, framing, phase }, action)
    }
}

impl SockMonitor {
    /// Serves this endpoint: gives the server that will, not yet started,
    /// whose connections are read by `framing`.
    pub fn serve(&self, framing: Framing) -> (server: Server)
        ensures
            server@ == (ServerView { path: self@, framing, phase: ServePhase::Idle }),
    {
        Server { path: self.path().to_owned(), framing, phase: ServePhase::Idle }
    }
}

} // verus!
