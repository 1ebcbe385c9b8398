//! Launching a conductor against a setup and finding its admin port.
//!
//! A `Launch` decides; the embedding program acts. It spawns, polls and
//! kills the process as the returned `LaunchAction` says, and reports what
//! happened. The wait for the admin port is bounded by a number of polls.

use vstd::prelude::*;
use crate::error::HcError;

verus! {

/// How far a launch has come.
#[derive(Clone, Copy, Debug, PartialEq, Eq, Structural)]
pub enum LaunchPhase {
    /// The process is to be spawned.
    Spawning,
    /// The process runs and its admin port is not known yet.
    Discovering,
    /// The process runs and listens on `port`.
    Ready { port: u16 },
    /// The launch failed; no process of it is left running.
    Failed { error: HcError },
}

/// What the embedding program does next.
#[derive(Clone, Copy, Debug, PartialEq, Eq, Structural)]
pub enum LaunchAction {
    /// Start the binary with the setup path as its argument.
    Spawn,
    /// Look once more for the port that the process announces.
    Poll,
    /// Terminate the process, then report the failure.
    Kill,
    /// Nothing: the launch is over, see the phase.
    Finish,
}

/// One launch of one conductor.
#[derive(Clone, Debug, PartialEq, Eq)]
pub struct Launch {
    pub binary_path: Vec<u8>,
    pub setup_path: Vec<u8>,
    pub forced_port: Option<u16>,
    pub polls_left: u32,
    pub phase: LaunchPhase,
}

/// What a phase calls for when nothing new is known.
pub open spec fn pending(phase: LaunchPhase) -> LaunchAction {
    match phase {
        LaunchPhase::Spawning => LaunchAction::Spawn,
        LaunchPhase::Discovering => LaunchAction::Poll,
        LaunchPhase::Ready { .. } => LaunchAction::Finish,
        LaunchPhase::Failed { .. } => LaunchAction::Finish,
    }
}

impl Launch {
    /// Whether the launch is over, one way or the other.
    pub open spec fn settled(&self) -> bool {
        self.phase is Ready || self.phase is Failed
    }

    /// A launch of `binary_path` against `setup_path` that looks for the
    /// admin port at most `max_polls` times, or not at all if a port is
    /// forced. The first action is always to spawn.
    pub fn begin(binary_path: Vec<u8>, setup_path: Vec<u8>, forced_port: Option<u16>, max_polls: u32)
        -> (launch: Launch)
        ensures
            launch.binary_path == binary_path,
            launch.setup_path == setup_path,
            launch.forced_port == forced_port,
            launch.polls_left == max_polls,
            launch.phase == LaunchPhase::Spawning,
    {
        Launch { binary_path, setup_path, forced_port, polls_left: max_polls, phase: LaunchPhase::Spawning }
    }

    /// What the launch calls for as it stands.
    pub fn next_action(&self) -> (action: LaunchAction)
        ensures
            action == pending(self.phase),
    {
        match self.phase {
            LaunchPhase::Spawning => LaunchAction::Spawn,
            LaunchPhase::Discovering => LaunchAction::Poll,
            _ => LaunchAction::Finish,
        }
    }

    /// Takes in whether the process could be spawned.
    ///
    /// A forced port is taken as it is once the process runs. Without one
    /// the search begins, and a launch that allows no poll at all has timed
    /// out: its process is to be killed. A report that comes when no spawn
    /// was asked for changes nothing.
    pub fn spawned(&mut self, started: bool) -> (action: LaunchAction)
        ensures
            final(self).binary_path == old(self).binary_path,
            final(self).setup_path == old(self).setup_path,
            final(self).forced_port == old(self).forced_port,
            final(self).polls_left == old(self).polls_left,
            old(self).phase != LaunchPhase::Spawning ==> (final(self).phase == old(self).phase
                && action == pending(old(self).phase)),
            old(self).phase == LaunchPhase::Spawning && !started ==> (final(self).phase == (LaunchPhase::Failed { error: HcError::ProcessSpawn })
                && action == LaunchAction::Finish),
            old(self).phase == LaunchPhase::Spawning && started && old(self).forced_port is Some ==> (final(self).phase == (LaunchPhase::Ready { port: old(self).forced_port->Some_0 })
                && action == LaunchAction::Finish),
            old(self).phase == LaunchPhase::Spawning && started && old(self).forced_port is None
                && old(self).polls_left > 0 ==> (final(self).phase == LaunchPhase::Discovering
                && action == LaunchAction::Poll),
            old(self).phase == LaunchPhase::Spawning && started && old(self).forced_port is None
                && old(self).polls_left == 0 ==> (final(self).phase == (LaunchPhase::Failed { error: HcError::LaunchTimeout })
                && action == LaunchAction::Kill),
    {
        if self.phase != LaunchPhase::Spawning {
            return self.next_action();
        }
        if !started {
            self.phase = LaunchPhase::Failed { error: HcError::ProcessSpawn };
            return LaunchAction::Finish;
        }
        match self.forced_port {
            Some(port) => {
                self.phase = LaunchPhase::Ready { port };
                LaunchAction::Finish
            },
            None => {
                if self.polls_left == 0 {
                    self.phase = LaunchPhase::Failed { error: HcError::LaunchTimeout };
                    LaunchAction::Kill
                } else {
                    self.phase = LaunchPhase::Discovering;
                    LaunchAction::Poll
                }
            },
        }
    }

    /// Takes in the result of one poll: the announced port, or none yet.
    ///
    /// Every poll uses up one of the polls allowed. When the last one finds
    /// nothing the launch has timed out and its process is to be killed. A
    /// result that comes when no poll was asked for changes nothing.
    pub fn polled(&mut self, found: Option<u16>) -> (action: LaunchAction)
        ensures
            final(self).binary_path == old(self).binary_path,
            final(self).setup_path == old(self).setup_path,
            final(self).forced_port == old(self).forced_port,
            old(self).phase != LaunchPhase::Discovering ==> (final(self).phase == old(self).phase
                && final(self).polls_left == old(self).polls_left
                && action == pending(old(self).phase)),
            old(self).phase == LaunchPhase::Discovering && old(self).polls_left > 0 ==> final(self).polls_left
                == old(self).polls_left - 1,
            old(self).phase == LaunchPhase::Discovering && old(self).polls_left == 0 ==> final(self).polls_left
                == 0,
            old(self).phase == LaunchPhase::Discovering && found is Some ==> (final(self).phase == (LaunchPhase::Ready { port: found->Some_0 })
                && action == LaunchAction::Finish),
            old(self).phase == LaunchPhase::Discovering && found is None && old(self).polls_left > 1 ==> (final(self).phase == LaunchPhase::Discovering
                && action == LaunchAction::Poll),
            old(self).phase == LaunchPhase::Discovering && found is None && old(self).polls_left <= 1 ==> (final(self).phase == (LaunchPhase::Failed { error: HcError::LaunchTimeout })
                && action == LaunchAction::Kill),
    {
        if self.phase != LaunchPhase::Discovering {
            return self.next_action();
        }
        if self.polls_left > 0 {
            self.polls_left = self.polls_left - 1;
        }
        match found {
            Some(port) => {
                self.phase = LaunchPhase::Ready { port };
                LaunchAction::Finish
            },
            None => {
                if self.polls_left == 0 {
                    self.phase = LaunchPhase::Failed { error: HcError::LaunchTimeout };
                    LaunchAction::Kill
                } else {
                    LaunchAction::Poll
                }
            },
        }
    }

    /// The port of a launch that succeeded, the error of one that failed,
    /// and nothing while it is under way.
    pub fn outcome(&self) -> (outcome: Option<Result<u16, HcError>>)
        ensures
            self.phase is Ready ==> outcome == Some(Ok::<u16, HcError>(self.phase->port)),
            self.phase is Failed ==> outcome == Some(Err::<u16, HcError>(self.phase->error)),
            !self.settled() ==> outcome is None,
    {
        match self.phase {
            LaunchPhase::Ready { port } => Some(Ok(port)),
            LaunchPhase::Failed { error } => Some(Err(error)),
            _ => None,
        }
    }
}

/// The readings that a launch with `max_polls` polls gets to see.
pub open spec fn seen(max_polls: u32, readings: Seq<Option<u16>>) -> Seq<Option<u16>> {
    if max_polls <= readings.len() {
        readings.take(max_polls as int)
    } else {
        readings
    }
}

/// What a whole launch comes to when the process starts (or not) and the
/// polls then give `readings` in turn. A poll beyond the last reading
/// finds nothing.
pub open spec fn launch_result(forced_port: Option<u16>, max_polls: u32, started: bool, readings: Seq<Option<u16>>)
    -> Result<u16, HcError> {
    if !started {
        Err(HcError::ProcessSpawn)
    } else if forced_port is Some {
        Ok(forced_port->Some_0)
    } else {
        first_port(seen(max_polls, readings))
    }
}

/// The first port among `readings`, or a timeout if there is none.
pub open spec fn first_port(readings: Seq<Option<u16>>) -> Result<u16, HcError>
    decreases readings.len(),
{
    if readings.len() == 0 {
        Err(HcError::LaunchTimeout)
    } else if readings[0] is Some {
        Ok(readings[0]->Some_0)
    } else {
        first_port(readings.skip(1))
    }
}

/// Drives a launch to its end over recorded observations: whether the spawn
/// succeeded, and what each poll found. Returns the outcome and whether the
/// process has to be killed, which is the case exactly when it was started
/// and no port was found in time.
pub fn replay(forced_port: Option<u16>, max_polls: u32, started: bool, readings: &[Option<u16>])
    -> (end: (Result<u16, HcError>, bool))
    ensures
        end.0 == launch_result(forced_port, max_polls, started, readings@),
        end.1 == (started && end.0 == Err::<u16, HcError>(HcError::LaunchTimeout)),
{
    let mut launch = Launch::begin(Vec::new(), Vec::new(), forced_port, max_polls);
    let mut action = launch.spawned(started);
    let ghost window = seen(max_polls, readings@);
    let mut next: usize = 0;
    assert(window.skip(0) =~= window);
    while action == LaunchAction::Poll
        invariant
            window == seen(max_polls, readings@),
            launch.forced_port == forced_port,
            next <= readings@.len(),
            next + launch.polls_left <= max_polls,
            next < readings@.len() ==> next + launch.polls_left == max_polls,
            action == LaunchAction::Poll ==> started && forced_port is None && launch.phase
                == LaunchPhase::Discovering && launch.polls_left > 0 && next <= window.len() && first_port(window)
                == first_port(window.skip(next as int)),
            action != LaunchAction::Poll ==> launch.settled(),
            launch.phase is Ready ==> action == LaunchAction::Finish && launch_result(
                forced_port,
                max_polls,
                started,
                readings@,
            ) == Ok::<u16, HcError>(launch.phase->port),
            launch.phase is Failed ==> launch_result(forced_port, max_polls, started, readings@) == Err::<
                u16,
                HcError,
            >(launch.phase->error) && (action == LaunchAction::Kill <==> launch.phase->error
                == HcError::LaunchTimeout) && (launch.phase->error == HcError::LaunchTimeout ==> started),
        decreases launch.polls_left,
    {
        let mut reading: Option<u16> = None;
        if next < readings.len() {
            reading = readings[next];
            proof {
                let rest = window.skip(next as int);
                assert(rest[0] == reading);
                assert(rest.skip(1) =~= window.skip(next + 1));
                if next + 1 == max_polls {
                    assert(window.skip(next + 1) =~= Seq::<Option<u16>>::empty());
                }
            }
            next += 1;
        } else {
            proof {
                assert(window.skip(next as int) =~= Seq::<Option<u16>>::empty());
            }
        }
        action = launch.polled(reading);
    }
    match launch.phase {
        LaunchPhase::Ready { port } => (Ok(port), false),
        LaunchPhase::Failed { error } => (Err(error), action == LaunchAction::Kill),
        _ => {
            assert(false);
            (Err(HcError::LaunchTimeout), true)
        },
    }
}

} // verus!
