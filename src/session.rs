//! The relay session as a state machine. The caller reports what happened on
//! the transport, the source and the sink as events; the session answers each
//! with the one action to perform.
use vstd::prelude::*;

verus! {

/// One of the two directions data flows in.
#[derive(Clone, Copy, Debug, PartialEq, Eq, Structural)]
pub enum Direction {
    /// From the local source (stdin, or the subprocess's stdout) to the transport.
    Outbound,
    /// From the transport to the local sink (stdout, or the subprocess's stdin).
    Inbound,
}

/// How a session ended.
#[derive(Clone, Copy, Debug, PartialEq, Eq, Structural)]
pub enum Outcome {
    /// The transport could not be connected, or the subprocess not spawned:
    /// nothing was relayed.
    Aborted,
    /// The relay ran and the given direction finished first.
    Ended(Direction),
}

/// The lifecycle of a session: `Connecting`, then `Active`, then `Terminated`.
#[derive(Clone, Copy, Debug, PartialEq, Eq, Structural)]
pub enum Phase {
    Connecting,
    Active,
    Terminated(Outcome),
}

/// What the caller observed.
#[derive(Debug)]
pub enum Event {
    /// The transport (and, for a process relay, the subprocess) is ready.
    Established,
    /// Connecting the transport or spawning the subprocess failed.
    EstablishFailed,
    /// The source produced one unit of data (a chunk or a line).
    SourceChunk(Vec<u8>),
    /// The source reached its end or failed to read.
    SourceEnded,
    /// The transport refused an outgoing message.
    SendFailed,
    /// One message arrived on the transport, with its payload.
    MessageReceived(Vec<u8>),
    /// The incoming message stream closed or failed.
    TransportEnded,
    /// Writing to the sink failed.
    SinkFailed,
}

/// What the caller is to do next.
#[derive(Debug)]
pub enum Action {
    /// Nothing: the event has no effect.
    Nothing,
    /// Start both directions of the relay.
    StartRelay,
    /// Send the bytes as one binary message on the transport.
    Send(Vec<u8>),
    /// Write the bytes to the sink and flush it.
    Write(Vec<u8>),
    /// Stop: abandon whatever is still in flight and exit with this outcome.
    Stop(Outcome),
}

/// A relay session.
pub struct Session {
    pub phase: Phase,
}

/// The events that end an active session, and the direction each belongs to.
pub open spec fn ending_direction(e: Event) -> Option<Direction> {
    match e {
        Event::SourceEnded => Some(Direction::Outbound),
        Event::SendFailed => Some(Direction::Outbound),
        Event::TransportEnded => Some(Direction::Inbound),
        Event::SinkFailed => Some(Direction::Inbound),
        _ => None,
    }
}

/// One step of the session: the phase after `e`, and the action it calls for.
pub open spec fn next(p: Phase, e: Event) -> (Phase, Action) {
    match p {
        Phase::Connecting => match e {
            Event::Established => (Phase::Active, Action::StartRelay),
            Event::EstablishFailed => (
                Phase::Terminated(Outcome::Aborted),
                Action::Stop(Outcome::Aborted),
            ),
            _ => (p, Action::Nothing),
        },
        Phase::Active => match e {
            Event::SourceChunk(c) => (p, Action::Send(c)),
            Event::MessageReceived(m) => (p, Action::Write(m)),
            _ => match ending_direction(e) {
                Some(d) => (Phase::Terminated(Outcome::Ended(d)), Action::Stop(Outcome::Ended(d))),
                None => (p, Action::Nothing),
            },
        },
        Phase::Terminated(_) => (p, Action::Nothing),
    }
}

/// Whether the process is to report success once the session has ended.
pub open spec fn outcome_succeeded(o: Outcome) -> bool {
    o is Ended
}

impl Outcome {
    /// Success unless the session was aborted before relaying anything.
    pub fn succeeded(&self) -> (r: bool)
        ensures
            r == outcome_succeeded(*self),
    {
        match self {
            Outcome::Aborted => false,
            Outcome::Ended(_) => true,
        }
    }
}

impl Session {
    /// A session that is connecting.
    pub fn new() -> (r: Session)
        ensures
            r.phase == Phase::Connecting,
    {
        Session { phase: Phase::Connecting }
    }

    /// Whether the session is over.
    pub fn is_terminated(&self) -> (r: bool)
        ensures
            r == (self.phase is Terminated),
    {
        match self.phase {
            Phase::Terminated(_) => true,
            _ => false,
        }
    }

    /// Takes in one event and returns the action that it calls for.
    pub fn step(&mut self, e: Event) -> (a: Action)
        ensures
            (final(self).phase, a) == next(old(self).phase, e),
    {
        match self.phase {
            Phase::Connecting => match e {
                Event::Established => {
                    self.phase = Phase::Active;
                    Action::StartRelay
                },
                Event::EstablishFailed => {
                    self.phase = Phase::Terminated(Outcome::Aborted);
                    Action::Stop(Outcome::Aborted)
                },
                _ => Action::Nothing,
            },
            Phase::Active => match e {
                Event::SourceChunk(c) => Action::Send(c),
                Event::MessageReceived(m) => Action::Write(m),
                Event::SourceEnded | Event::SendFailed => {
                    self.phase = Phase::Terminated(Outcome::Ended(Direction::Outbound));
                    Action::Stop(Outcome::Ended(Direction::Outbound))
                },
                Event::TransportEnded | Event::SinkFailed => {
                    self.phase = Phase::Terminated(Outcome::Ended(Direction::Inbound));
                    Action::Stop(Outcome::Ended(Direction::Inbound))
                },
                _ => Action::Nothing,
            },
            Phase::Terminated(_) => Action::Nothing,
        }
    }
}

} // verus!
