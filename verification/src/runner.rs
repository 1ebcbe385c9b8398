//! The admin client: one control connection to one running conductor.
//!
//! A `CmdRunner` keeps the books of the connection and decides what may
//! happen on it; the embedding program owns the socket. A runner is
//! connected once, carries one request at a time, and is closed for good
//! once it is closed: a new connection takes a new runner.

use vstd::prelude::*;
use crate::error::HcError;
use crate::launch::{Launch, LaunchPhase};

verus! {

/// The state of a connection.
#[derive(Clone, Copy, Debug, PartialEq, Eq, Structural)]
pub enum Phase {
    /// Not opened yet.
    Disconnected,
    /// Open.
    Connected,
    /// Closed, for good.
    Closed,
}

/// The books of one admin connection. They are not copied: a connection
/// has one owner.
#[derive(Debug, PartialEq, Eq, Structural)]
pub struct CmdRunner {
    port: u16,
    phase: Phase,
    issued: u64,
    settled: u64,
}

/// The name under which the conductor binary is looked up when no path is given.
pub open spec fn default_binary() -> Seq<u8> {
    seq![104u8, 111u8, 108u8, 111u8, 99u8, 104u8, 97u8, 105u8, 110u8]
}

impl CmdRunner {
    /// The port that the connection goes to.
    pub closed spec fn port(&self) -> u16 {
        self.port
    }

    /// The state of the connection.
    pub closed spec fn phase(&self) -> Phase {
        self.phase
    }

    /// How many requests were sent so far.
    pub closed spec fn issued(&self) -> nat {
        self.issued as nat
    }

    /// How many requests were answered or have failed so far.
    pub closed spec fn settled(&self) -> nat {
        self.settled as nat
    }

    /// The books are in order: at most one request is under way, and only
    /// on a connection that was opened.
    pub closed spec fn wf(&self) -> bool {
        &&& self.settled <= self.issued
        &&& self.issued <= self.settled + 1
        &&& (self.phase == Phase::Disconnected ==> self.issued == 0)
    }

    /// The number of the request that is under way, if one is.
    pub open spec fn in_flight(&self) -> Option<nat> {
        if self.issued() > self.settled() {
            Some(self.settled())
        } else {
            None
        }
    }

    /// The books after one more request went out.
    pub closed spec fn after_command(&self) -> CmdRunner {
        CmdRunner { port: self.port, phase: self.phase, issued: (self.issued + 1) as u64, settled: self.settled }
    }

    /// The books after the request under way was settled.
    pub closed spec fn after_response(&self) -> CmdRunner {
        CmdRunner { port: self.port, phase: self.phase, issued: self.issued, settled: (self.settled + 1) as u64 }
    }

    /// In every state at most one request is under way, and every request
    /// sent before it is settled.
    pub proof fn law_requests_settle_in_order(&self)
        requires
            self.wf(),
        ensures
            self.settled() <= self.issued() <= self.settled() + 1,
            self.in_flight() is Some ==> self.in_flight()->Some_0 == self.settled() && self.issued()
                == self.settled() + 1,
            self.phase() == Phase::Disconnected ==> self.issued() == 0,
    {
    }

    /// Two requests on one connection do not interleave. While the first
    /// is under way no second one is let through, and only the response to
    /// the first is taken, none to `other`. Once the first is settled the
    /// connection is free again, and the next request gets the next number.
    pub proof fn law_responses_follow_requests(&self, other: u64)
        requires
            self.wf(),
            self.can_send(),
        ensures
            self.after_command().wf(),
            !self.after_command().can_send(),
            self.after_command().awaits(self.issued() as u64),
            other != self.issued() ==> !self.after_command().awaits(other),
            self.after_command().after_response().wf(),
            self.after_command().after_response().in_flight() is None,
            self.after_command().after_response().issued() == self.issued() + 1,
            self.after_command().after_response().settled() == self.issued() + 1,
    {
    }

    /// A runner for `port` whose connection is not opened yet.
    pub fn disconnected(port: u16) -> (runner: CmdRunner)
        ensures
            runner.wf(),
            runner.port() == port,
            runner.phase() == Phase::Disconnected,
            runner.issued() == 0,
            runner.settled() == 0,
    {
        CmdRunner { port, phase: Phase::Disconnected, issued: 0, settled: 0 }
    }

    /// Takes in whether the handshake with the conductor succeeded. Only a
    /// runner that was never connected can be connected; after a failed
    /// attempt the runner is closed, and so is one that was closed before.
    pub fn connect(&mut self, handshake: bool) -> (connected: Result<(), HcError>)
        requires
            old(self).wf(),
        ensures
            final(self).wf(),
            final(self).port() == old(self).port(),
            final(self).issued() == old(self).issued(),
            final(self).settled() == old(self).settled(),
            old(self).phase() == Phase::Disconnected && handshake ==> connected is Ok && final(self).phase()
                == Phase::Connected,
            old(self).phase() == Phase::Disconnected && !handshake ==> connected == Err::<(), HcError>(
                HcError::Connect { port: old(self).port() },
            ) && final(self).phase() == Phase::Closed,
            old(self).phase() != Phase::Disconnected ==> connected == Err::<(), HcError>(
                HcError::Connect { port: old(self).port() },
            ) && *final(self) == *old(self),
    {
        if self.phase == Phase::Disconnected {
            if handshake {
                self.phase = Phase::Connected;
                Ok(())
            } else {
                self.phase = Phase::Closed;
                Err(HcError::Connect { port: self.port })
            }
        } else {
            Err(HcError::Connect { port: self.port })
        }
    }

    /// The runner for the connection to `port`, given whether the handshake
    /// succeeded.
    pub fn try_new(port: u16, handshake: bool) -> (made: Result<CmdRunner, HcError>)
        ensures
            handshake ==> made is Ok && made->Ok_0.wf() && made->Ok_0.port() == port && made->Ok_0.phase()
                == Phase::Connected && made->Ok_0.issued() == 0 && made->Ok_0.settled() == 0,
            !handshake ==> made == Err::<CmdRunner, HcError>(HcError::Connect { port }),
    {
        let mut runner = CmdRunner::disconnected(port);
        match runner.connect(handshake) {
            Ok(()) => Ok(runner),
            Err(error) => Err(error),
        }
    }

    /// The runner for a connection to `port` that is known to stand. For
    /// entry points that have nobody to hand a failure to: everything else
    /// goes through `try_new`.
    pub fn new(port: u16, handshake: bool) -> (runner: CmdRunner)
        requires
            handshake,
        ensures
            runner.wf(),
            runner.port() == port,
            runner.phase() == Phase::Connected,
            runner.issued() == 0,
            runner.settled() == 0,
    {
        let mut runner = CmdRunner::disconnected(port);
        let connected = runner.connect(handshake);
        runner
    }

    /// The launch that leads to a runner for the setup at `setup_path`,
    /// with the conductor binary looked up under its usual name.
    pub fn from_setup(setup_path: Vec<u8>, max_polls: u32) -> (launch: Launch)
        ensures
            launch.binary_path@ == default_binary(),
            launch.setup_path == setup_path,
            launch.forced_port is None,
            launch.polls_left == max_polls,
            launch.phase == LaunchPhase::Spawning,
    {
        let mut binary: Vec<u8> = Vec::new();
        binary.push(104u8);
        binary.push(111u8);
        binary.push(108u8);
        binary.push(111u8);
        binary.push(99u8);
        binary.push(104u8);
        binary.push(97u8);
        binary.push(105u8);
        binary.push(110u8);
        assert(binary@ =~= default_binary());
        CmdRunner::from_setup_with_bin_path(binary, setup_path, max_polls)
    }

    /// The launch that leads to a runner for the setup at `setup_path`,
    /// with the conductor binary at `binary_path`. The admin port is always
    /// discovered, never forced.
    pub fn from_setup_with_bin_path(binary_path: Vec<u8>, setup_path: Vec<u8>, max_polls: u32) -> (launch: Launch)
        ensures
            launch.binary_path == binary_path,
            launch.setup_path == setup_path,
            launch.forced_port is None,
            launch.polls_left == max_polls,
            launch.phase == LaunchPhase::Spawning,
    {
        Launch::begin(binary_path, setup_path, None, max_polls)
    }

    /// The runner at the end of a launch: a failed launch hands on its
    /// error, a successful one connects to the port it found.
    pub fn from_launch(launched: Result<u16, HcError>, handshake: bool) -> (made: Result<CmdRunner, HcError>)
        ensures
            launched is Err ==> made == Err::<CmdRunner, HcError>(launched->Err_0),
            launched is Ok && !handshake ==> made == Err::<CmdRunner, HcError>(
                HcError::Connect { port: launched->Ok_0 },
            ),
            launched is Ok && handshake ==> made is Ok && made->Ok_0.wf() && made->Ok_0.port() == launched->Ok_0
                && made->Ok_0.phase() == Phase::Connected && made->Ok_0.issued() == 0 && made->Ok_0.settled()
                == 0,
    {
        match launched {
            Ok(port) => CmdRunner::try_new(port, handshake),
            Err(error) => Err(error),
        }
    }

    /// The port that the connection goes to.
    pub fn admin_port(&self) -> (port: u16)
        ensures
            port == self.port(),
    {
        self.port
    }

    /// Whether requests can be sent at all.
    pub fn is_connected(&self) -> (connected: bool)
        ensures
            connected == (self.phase() == Phase::Connected),
    {
        self.phase == Phase::Connected
    }

    /// Whether the connection was closed.
    pub fn is_closed(&self) -> (closed: bool)
        ensures
            closed == (self.phase() == Phase::Closed),
    {
        self.phase == Phase::Closed
    }

    /// Whether a request is under way.
    pub fn is_busy(&self) -> (busy: bool)
        ensures
            busy == self.in_flight() is Some,
    {
        self.issued > self.settled
    }

    /// Whether `command` would let a request through now.
    pub open spec fn can_send(&self) -> bool {
        &&& self.phase() == Phase::Connected
        &&& self.in_flight() is None
        &&& self.issued() < u64::MAX
    }

    /// Admits one request to the connection and returns its number. A
    /// request is refused, and nothing changes, while another is under way
    /// or when the connection is not open.
    pub fn command(&mut self) -> (ticket: Result<u64, HcError>)
        requires
            old(self).wf(),
        ensures
            final(self).wf(),
            final(self).port() == old(self).port(),
            final(self).phase() == old(self).phase(),
            final(self).settled() == old(self).settled(),
            old(self).can_send() ==> ticket == Ok::<u64, HcError>(old(self).issued() as u64)
                && *final(self) == old(self).after_command()
                && final(self).issued() == old(self).issued() + 1
                && final(self).in_flight() == Some(old(self).issued()),
            !old(self).can_send() ==> ticket == Err::<u64, HcError>(HcError::Request) && *final(self) == *old(self),
    {
        if self.phase == Phase::Connected && self.issued == self.settled && self.issued < u64::MAX {
            let ticket: u64 = self.issued;
            self.issued = self.issued + 1;
            Ok(ticket)
        } else {
            Err(HcError::Request)
        }
    }

    /// Whether `ticket` is the request that an open connection waits on.
    pub open spec fn awaits(&self, ticket: u64) -> bool {
        &&& self.phase() == Phase::Connected
        &&& self.in_flight() == Some(ticket as nat)
    }

    /// Settles the request `ticket`: its response arrived, or the exchange
    /// failed. Either way the connection is free for the next request. A
    /// ticket that the connection does not wait on is refused, and nothing
    /// changes.
    pub fn respond(&mut self, ticket: u64, arrived: bool) -> (settled: Result<(), HcError>)
        requires
            old(self).wf(),
        ensures
            final(self).wf(),
            final(self).port() == old(self).port(),
            final(self).phase() == old(self).phase(),
            final(self).issued() == old(self).issued(),
            settled is Ok <==> old(self).awaits(ticket) && arrived,
            settled is Err ==> settled->Err_0 == HcError::Request,
            old(self).awaits(ticket) ==> *final(self) == old(self).after_response()
                && final(self).settled() == old(self).settled() + 1
                && final(self).in_flight() is None,
            !old(self).awaits(ticket) ==> *final(self) == *old(self),
    {
        if self.phase == Phase::Connected && self.issued > self.settled && self.settled == ticket {
            self.settled = self.settled + 1;
            if arrived {
                Ok(())
            } else {
                Err(HcError::Request)
            }
        } else {
            Err(HcError::Request)
        }
    }

    /// Closes the connection and gives the code of the close frame to send,
    /// if one is to be sent: that is the case exactly when the connection
    /// was open. The frame is sent without waiting for it to go out. A
    /// closed runner stays closed.
    pub fn close(&mut self) -> (frame: Option<u16>)
        requires
            old(self).wf(),
        ensures
            final(self).wf(),
            final(self).phase() == Phase::Closed,
            final(self).port() == old(self).port(),
            final(self).issued() == old(self).issued(),
            final(self).settled() == old(self).settled(),
            old(self).phase() == Phase::Connected ==> frame == Some(CLOSE_CODE),
            old(self).phase() != Phase::Connected ==> frame is None,
    {
        let was_open = self.phase == Phase::Connected;
        self.phase = Phase::Closed;
        if was_open {
            Some(CLOSE_CODE)
        } else {
            None
        }
    }
}

/// The code that the close frame carries: normal closure.
pub const CLOSE_CODE: u16 = 1000;

} // verus!
