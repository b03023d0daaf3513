//! Bringing a server up: which port to take, and how long to wait for the
//! listener.

use crate::grpc_server::{GrpcServer, ServerView};
use rand::Rng;
use vstd::prelude::*;

verus! {

/// The lowest port that is tried when none was asked for.
pub const FIRST_PORT: u16 = 50000;

/// The first port above those that are tried.
pub const END_PORT: u16 = 60000;

/// How often the listener is probed before the server counts as started anyway.
pub const START_PROBES: u32 = 40;

/// How long to pause between two probes, and how long a probe may take, in
/// milliseconds.
pub const PROBE_MILLIS: u64 = 25;

/// `Rng::gen_range` on `rand::thread_rng()`, over `low..high`: some number of
/// that range. An empty range is not accepted.
#[verifier::external_body]
fn random_in(low: u16, high: u16) -> (n: u16)
    requires
        low < high,
    ensures
        low <= n < high,
{
    rand::thread_rng().gen_range(low..high)
}

/// What to do after the listener was probed.
#[derive(Clone, Copy, Debug, PartialEq, Eq, Structural)]
pub enum StartStep {
    /// Pause, then probe once more.
    ProbeAgain,
    /// The server counts as started.
    Started,
}

/// Whether the waiting ends with the probe after `probes_before` earlier
/// ones: it does where the probe connected, or was the last that is made.
pub open spec fn waiting_ends(probes_before: u32, connected: bool) -> bool {
    connected || probes_before + 1 >= START_PROBES
}

impl GrpcServer {
    /// A port to probe next, chosen at random from `FIRST_PORT` up to, not
    /// including, `END_PORT`.
    pub fn candidate_port() -> (port: u16)
        ensures
            FIRST_PORT <= port < END_PORT,
    {
        random_in(FIRST_PORT, END_PORT)
    }

    /// Whether `candidate` can be taken, given what a probe of it found: a
    /// port on which nothing answered is unused and is handed back; for one on
    /// which something answered, another is to be tried after a pause.
    pub fn find_unused_port(candidate: u16, connected: bool) -> (port: Option<u16>)
        ensures
            port == if connected {
                None
            } else {
                Some(candidate)
            },
    {
        if connected {
            None
        } else {
            Some(candidate)
        }
    }

    /// Takes note of one probe of the listener, the one after `probes_before`
    /// earlier ones. The server counts as started once a probe has connected,
    /// or after `START_PROBES` probes in any case.
    pub fn _start(&mut self, probes_before: u32, connected: bool) -> (step: StartStep)
        ensures
            step == if waiting_ends(probes_before, connected) {
                StartStep::Started
            } else {
                StartStep::ProbeAgain
            },
            final(self)@ == if waiting_ends(probes_before, connected) {
                ServerView { started: true, ..old(self)@ }
            } else {
                old(self)@
            },
    {
        if connected || probes_before >= START_PROBES - 1 {
            self.mark_started();
            StartStep::Started
        } else {
            StartStep::ProbeAgain
        }
    }
}

} // verus!
