//! The orchestrator: what is started for which address, and when the process
//! is over.
//!
//! Every listen address gets two listeners on one port number, one for QUIC
//! and one for TLS. They share the credential and the serving root, and none
//! of them is stopped because another one failed.

use crate::h2;
use crate::service::alt_svc_value;
use std::path::PathBuf;
use vstd::prelude::*;

verus! {

/// A serving root that cannot be used.
#[derive(Clone, Copy, Debug, PartialEq, Eq, Structural)]
pub enum RootError {
    /// The configured root is not a directory that can be listed.
    NotReadable,
}

/// Checks the serving root before anything is started. `is_directory` and
/// `listable` are what the caller found out about the configured path; they
/// are looked at only where a root is configured. Without a root the server
/// starts, with file serving switched off.
pub fn check_root(serve_root: &Option<PathBuf>, is_directory: bool, listable: bool) -> (r: Result<
    (),
    RootError,
>)
    ensures
        r.is_ok() == (serve_root.is_none() || (is_directory && listable)),
        r.is_err() ==> r == Err::<(), RootError>(RootError::NotReadable),
{
    if serve_root.is_none() || (is_directory && listable) {
        Ok(())
    } else {
        Err(RootError::NotReadable)
    }
}

/// The two transports of the server.
#[derive(Clone, Copy, Debug, PartialEq, Eq, Structural)]
pub enum Stack {
    /// QUIC on UDP, carrying HTTP/3.
    Quic,
    /// TLS on TCP, carrying HTTP/1.1 and HTTP/2.
    Tls,
}

/// A listener that is to be started.
#[derive(Clone, Copy, Debug, PartialEq, Eq, Structural)]
pub struct Listener {
    pub stack: Stack,
    /// Which of the listen addresses it is for, as an index into their list.
    pub address: usize,
    /// The port of that address.
    pub port: u16,
}

/// The listeners for addresses with the given ports: first the QUIC listener
/// of every address, then the TLS listener of every address, each time in
/// the order of the addresses.
pub open spec fn planned(ports: Seq<u16>) -> Seq<Listener> {
    Seq::new(
        2 * ports.len(),
        |k: int|
            if k < ports.len() {
                Listener { stack: Stack::Quic, address: k as usize, port: ports[k] }
            } else {
                Listener {
                    stack: Stack::Tls,
                    address: (k - ports.len()) as usize,
                    port: ports[k - ports.len()],
                }
            },
    )
}

/// Lists what is to be started for the listen addresses, whose ports are
/// given in the order of the addresses.
pub fn listeners(ports: &[u16]) -> (plan: Vec<Listener>)
    ensures
        plan@ == planned(ports@),
{
    let count = ports.len();
    let mut plan: Vec<Listener> = Vec::new();
    let mut i: usize = 0;
    while i < count
        invariant
            count == ports.len(),
            i <= count,
            plan.len() == i,
            forall|k: int| 0 <= k < i ==> plan[k] == planned(ports@)[k],
        decreases count - i,
    {
        plan.push(Listener { stack: Stack::Quic, address: i, port: ports[i] });
        i = i + 1;
    }
    let mut j: usize = 0;
    while j < count
        invariant
            count == ports.len(),
            j <= count,
            plan.len() == count + j,
            forall|k: int| 0 <= k < count + j ==> plan[k] == planned(ports@)[k],
        decreases count - j,
    {
        plan.push(Listener { stack: Stack::Tls, address: j, port: ports[j] });
        j = j + 1;
    }
    assert(plan@ =~= planned(ports@));
    plan
}

/// Each address has a QUIC listener and a TLS listener, and the two have
/// the same port.
pub proof fn lemma_listeners_are_paired(ports: Seq<u16>, address: int)
    requires
        0 <= address < ports.len(),
        ports.len() <= usize::MAX,
    ensures
        planned(ports).len() == 2 * ports.len(),
        planned(ports)[address] == (Listener {
            stack: Stack::Quic,
            address: address as usize,
            port: ports[address],
        }),
        planned(ports)[ports.len() + address] == (Listener {
            stack: Stack::Tls,
            address: address as usize,
            port: ports[address],
        }),
{
}

/// Whatever a TLS listener has seen, the port with which it has its requests
/// answered is the port of the QUIC listener of the same address. The
/// discovery header of every response therefore names the HTTP/3 endpoint of
/// the address that the request came to.
pub proof fn lemma_discovery_names_the_quic_port(
    ports: Seq<u16>,
    address: int,
    events: Seq<h2::Event>,
    event: h2::Event,
    port: u16,
)
    requires
        0 <= address < ports.len(),
        ports.len() <= usize::MAX,
        (h2::Acceptor {
            port: planned(ports)[ports.len() + address].port,
            phase: h2::Phase::Binding,
        }).run(events).next(event).1 == (h2::Action::Serve { port }),
    ensures
        port == planned(ports)[address].port,
        alt_svc_value(port) == alt_svc_value(planned(ports)[address].port),
{
    let start = h2::Acceptor {
        port: planned(ports)[ports.len() + address].port,
        phase: h2::Phase::Binding,
    };
    h2::lemma_port_is_kept(start, events);
}

/// Counts the listeners that are still running.
#[derive(Clone, Copy, Debug, PartialEq, Eq, Structural)]
pub struct Supervisor {
    pub running: usize,
}

/// What the process is to do.
#[derive(Clone, Copy, Debug, PartialEq, Eq, Structural)]
pub enum Verdict {
    /// Go on: a listener is still running.
    Wait,
    /// End and report failure: no listener is left.
    Fail,
}

impl Supervisor {
    /// What holds while `self.running` listeners run.
    pub open spec fn verdict(self) -> Verdict {
        if self.running == 0 {
            Verdict::Fail
        } else {
            Verdict::Wait
        }
    }

    /// The supervisor after one more listener has ended.
    pub open spec fn after_exit(self) -> Supervisor {
        if self.running == 0 {
            self
        } else {
            Supervisor { running: (self.running - 1) as usize }
        }
    }

    /// The supervisor of so many listeners, all of them running, and what
    /// the process is to do in the meantime.
    pub fn new(listeners: usize) -> (r: (Supervisor, Verdict))
        ensures
            r.0 == (Supervisor { running: listeners }),
            r.1 == r.0.verdict(),
    {
        let supervisor = Supervisor { running: listeners };
        (supervisor, supervisor.judge())
    }

    /// What the process is to do now.
    pub fn judge(&self) -> (verdict: Verdict)
        ensures
            verdict == self.verdict(),
    {
        if self.running == 0 {
            Verdict::Fail
        } else {
            Verdict::Wait
        }
    }

    /// Takes note that a listener has ended, for whatever reason, and says
    /// what the process is to do. The listeners that still run are left
    /// alone.
    pub fn exited(self) -> (r: (Supervisor, Verdict))
        ensures
            r.0 == self.after_exit(),
            r.1 == self.after_exit().verdict(),
    {
        let after = if self.running == 0 {
            self
        } else {
            Supervisor { running: self.running - 1 }
        };
        (after, after.judge())
    }
}

/// The supervisor after so many listeners have ended.
pub open spec fn after_exits(supervisor: Supervisor, exits: nat) -> Supervisor
    decreases exits,
{
    if exits == 0 {
        supervisor
    } else {
        after_exits(supervisor.after_exit(), (exits - 1) as nat)
    }
}

/// The process goes on for as long as one listener runs, and ends, with a
/// failure, when the last one has ended: the end of one listener never ends
/// another.
pub proof fn lemma_process_ends_with_last_listener(listeners: usize, exits: nat)
    requires
        exits <= listeners,
    ensures
        after_exits(Supervisor { running: listeners }, exits).running == listeners - exits,
        after_exits(Supervisor { running: listeners }, exits).verdict() == Verdict::Fail
            <==> exits == listeners,
    decreases exits,
{
    if exits > 0 {
        lemma_process_ends_with_last_listener((listeners - 1) as usize, (exits - 1) as nat);
    }
}

} // verus!
