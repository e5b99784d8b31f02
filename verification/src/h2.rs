//! The listener for TLS over TCP, which carries HTTP/1.1 and HTTP/2.
//!
//! The listener binds its port once and then accepts connections for as long
//! as the socket lets it. A handshake that fails costs the one connection
//! that it was made for and nothing else.

use crate::data::byte_strings;
use vstd::prelude::*;

verus! {

/// The name `h2` as it stands in the ALPN extension.
pub open spec fn h2_name() -> Seq<u8> {
    seq![0x68u8, 0x32u8]
}

/// The name `http/1.1` as it stands in the ALPN extension.
pub open spec fn http11_name() -> Seq<u8> {
    seq![0x68u8, 0x74u8, 0x74u8, 0x70u8, 0x2fu8, 0x31u8, 0x2eu8, 0x31u8]
}

/// The protocols that the listener offers, the preferred one first: HTTP/2
/// before HTTP/1.1.
pub open spec fn offered() -> Seq<Seq<u8>> {
    seq![h2_name(), http11_name()]
}

/// The ALPN protocols for the TLS configuration of this listener, in the
/// order of the server's preference.
pub fn alpn_protocols() -> (protocols: Vec<Vec<u8>>)
    ensures
        byte_strings(protocols) == offered(),
{
    let h2: Vec<u8> = vec![0x68, 0x32];
    let http11: Vec<u8> = vec![0x68, 0x74, 0x74, 0x70, 0x2f, 0x31, 0x2e, 0x31];
    let protocols: Vec<Vec<u8>> = vec![h2, http11];
    assert(h2@ =~= h2_name());
    assert(http11@ =~= http11_name());
    assert(byte_strings(protocols) =~= offered());
    protocols
}

/// How far the listener has come.
#[derive(Clone, Copy, Debug, PartialEq, Eq, Structural)]
pub enum Phase {
    /// The socket is not bound yet.
    Binding,
    /// The socket is bound and connections are accepted.
    Listening,
    /// The listener has given up.
    Stopped,
}

/// The listener of one address.
#[derive(Clone, Copy, Debug, PartialEq, Eq, Structural)]
pub struct Acceptor {
    /// The port that the listener is bound to, which is also the port of the
    /// HTTP/3 endpoint of the same address.
    pub port: u16,
    pub phase: Phase,
}

/// What happened on the listener's socket or on one of its connections.
#[derive(Clone, Copy, Debug, PartialEq, Eq, Structural)]
pub enum Event {
    /// The socket was bound.
    Bound,
    /// The socket could not be bound.
    BindFailed,
    /// A TCP connection came in.
    Connected,
    /// Accepting failed on the listening socket.
    AcceptFailed,
    /// The TLS handshake of a connection succeeded.
    Secured,
    /// The TLS handshake of a connection failed.
    HandshakeFailed,
}

/// What the driver of the listener is to do next.
#[derive(Clone, Copy, Debug, PartialEq, Eq, Structural)]
pub enum Action {
    /// Bind the TCP socket.
    Bind,
    /// Start to accept connections, and go on until told to give up.
    Listen,
    /// Make the TLS handshake with the connection that came in.
    Handshake,
    /// Hand the connection to the HTTP engine, and answer each of its
    /// requests with the file handler, called with this port.
    Serve { port: u16 },
    /// Drop the connection and note why; the other connections go on.
    Discard,
    /// Give up and report the failure to whoever started the listener.
    GiveUp,
    /// Nothing: the event has no meaning in this phase.
    Ignore,
}

impl Acceptor {
    /// The listener after `event`, and what it asks for.
    pub open spec fn next(self, event: Event) -> (Acceptor, Action) {
        match (self.phase, event) {
            (Phase::Binding, Event::Bound) => (
                Acceptor { port: self.port, phase: Phase::Listening },
                Action::Listen,
            ),
            (Phase::Binding, Event::BindFailed) => (
                Acceptor { port: self.port, phase: Phase::Stopped },
                Action::GiveUp,
            ),
            (Phase::Listening, Event::Connected) => (self, Action::Handshake),
            (Phase::Listening, Event::Secured) => (self, Action::Serve { port: self.port }),
            (Phase::Listening, Event::HandshakeFailed) => (self, Action::Discard),
            (Phase::Listening, Event::AcceptFailed) => (
                Acceptor { port: self.port, phase: Phase::Stopped },
                Action::GiveUp,
            ),
            _ => (self, Action::Ignore),
        }
    }

    /// The listener after all of `events`, in their order.
    pub open spec fn run(self, events: Seq<Event>) -> Acceptor
        decreases events.len(),
    {
        if events.len() == 0 {
            self
        } else {
            self.next(events[0]).0.run(events.skip(1))
        }
    }

    /// Takes an event and says what to do next.
    pub fn step(self, event: Event) -> (r: (Acceptor, Action))
        ensures
            r == self.next(event),
    {
        match self.phase {
            Phase::Binding => match event {
                Event::Bound => (
                    Acceptor { port: self.port, phase: Phase::Listening },
                    Action::Listen,
                ),
                Event::BindFailed => (
                    Acceptor { port: self.port, phase: Phase::Stopped },
                    Action::GiveUp,
                ),
                _ => (self, Action::Ignore),
            },
            Phase::Listening => match event {
                Event::Connected => (self, Action::Handshake),
                Event::Secured => (self, Action::Serve { port: self.port }),
                Event::HandshakeFailed => (self, Action::Discard),
                Event::AcceptFailed => (
                    Acceptor { port: self.port, phase: Phase::Stopped },
                    Action::GiveUp,
                ),
                _ => (self, Action::Ignore),
            },
            Phase::Stopped => (self, Action::Ignore),
        }
    }
}

/// The listener for `port`, not yet bound, and its first action.
pub fn server(port: u16) -> (r: (Acceptor, Action))
    ensures
        r == (Acceptor { port, phase: Phase::Binding }, Action::Bind),
{
    (Acceptor { port, phase: Phase::Binding }, Action::Bind)
}

/// A listener keeps its port whatever happens.
pub proof fn lemma_port_is_kept(acceptor: Acceptor, events: Seq<Event>)
    ensures
        acceptor.run(events).port == acceptor.port,
    decreases events.len(),
{
    if events.len() > 0 {
        lemma_port_is_kept(acceptor.next(events[0]).0, events.skip(1));
    }
}

/// Failures of single connections leave the listener as it was: as long as
/// the listening socket itself does not fail, the listener goes on
/// listening, and the next connection whose handshake succeeds is served,
/// however many handshakes failed before it.
pub proof fn lemma_failures_are_isolated(acceptor: Acceptor, events: Seq<Event>)
    requires
        acceptor.phase == Phase::Listening,
        forall|i: int| 0 <= i < events.len() ==> events[i] != Event::AcceptFailed,
    ensures
        acceptor.run(events) == acceptor,
        acceptor.run(events).next(Event::Secured).1 == (Action::Serve { port: acceptor.port }),
    decreases events.len(),
{
    if events.len() > 0 {
        assert(acceptor.next(events[0]).0 == acceptor);
        assert forall|i: int| 0 <= i < events.skip(1).len() implies events.skip(1)[i]
            != Event::AcceptFailed by {
            assert(events.skip(1)[i] == events[i + 1]);
        }
        lemma_failures_are_isolated(acceptor, events.skip(1));
    }
}

/// Only its own socket can stop a listener: one that has not stopped yet
/// does not stop unless binding or accepting fails.
pub proof fn lemma_only_the_socket_stops_the_listener(acceptor: Acceptor, events: Seq<Event>)
    requires
        acceptor.phase != Phase::Stopped,
        forall|i: int|
            0 <= i < events.len() ==> events[i] != Event::BindFailed && events[i]
                != Event::AcceptFailed,
    ensures
        acceptor.run(events).phase != Phase::Stopped,
    decreases events.len(),
{
    if events.len() > 0 {
        assert(events[0] != Event::BindFailed && events[0] != Event::AcceptFailed);
        assert forall|i: int| 0 <= i < events.skip(1).len() implies events.skip(1)[i]
            != Event::BindFailed && events.skip(1)[i] != Event::AcceptFailed by {
            assert(events.skip(1)[i] == events[i + 1]);
        }
        lemma_only_the_socket_stops_the_listener(acceptor.next(events[0]).0, events.skip(1));
    }
}

} // verus!
