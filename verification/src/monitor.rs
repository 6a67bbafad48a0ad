//! The per-round reachability monitor.
//!
//! The monitor owns the target, the round interval and the cached address.
//! Each round it hands the caller's event loop a plan — probe these
//! candidates, or resolve this name first — and takes back the winner of the
//! round's race, if any. Probe and resolution failures are absorbed into a
//! `false` round outcome: the monitor itself never fails.

use vstd::prelude::*;
use crate::addr::IpAddress;
use crate::target::{Target, clone_bytes};

verus! {

/// Why a resolution yielded no candidates.
#[derive(Clone, Copy, Debug, PartialEq, Eq, Structural)]
pub enum ResolveError {
    /// The resolver itself failed.
    ResolutionFailed,
    /// The resolver answered with an empty address list.
    NotFound,
}

/// What a round needs from the caller's event loop before probing.
#[derive(Debug)]
pub enum RoundPlan {
    /// Probe exactly these candidate addresses, racing them to first success.
    Probe(Vec<IpAddress>),
    /// Resolve this name to candidate addresses first.
    Resolve(Vec<u8>),
}

/// The state a monitor carries from one round to the next.
#[derive(Debug)]
pub struct Monitor {
    /// What to probe.
    pub target: Target,
    /// Milliseconds between rounds, and each round's race deadline.
    pub interval_ms: u64,
    /// The address that replied in the previous round, if any.
    pub cached: Option<IpAddress>,
    /// How many rounds have finished.
    pub rounds: u64,
}

impl Monitor {
    /// A fresh monitor: nothing cached, no round finished.
    pub fn new(target: Target, interval_ms: u64) -> (m: Self)
        ensures
            m.target == target,
            m.interval_ms == interval_ms,
            m.cached is None,
            m.rounds == 0,
    {
        Monitor { target, interval_ms, cached: None, rounds: 0 }
    }

    /// How long to wait before the next round: the first round fires at
    /// once, every later round waits the configured interval.
    pub fn delay_before_next_round(&self) -> (d: u64)
        ensures
            self.rounds == 0 ==> d == 0,
            self.rounds > 0 ==> d == self.interval_ms,
    {
        if self.rounds == 0 {
            0
        } else {
            self.interval_ms
        }
    }

    /// Open a round: clear the cache, and plan the round's candidates — the
    /// cached address if one replied last round, else the literal target
    /// address, else a resolution of the target name.
    pub fn begin_round(&mut self) -> (plan: RoundPlan)
        ensures
            final(self).cached is None,
            final(self).target == old(self).target,
            final(self).interval_ms == old(self).interval_ms,
            final(self).rounds == old(self).rounds,
            match old(self).cached {
                Some(a) => plan matches RoundPlan::Probe(v) && v@ == seq![a],
                None => match old(self).target {
                    Target::Addr(a) => plan matches RoundPlan::Probe(v) && v@ == seq![a],
                    Target::Dns(h) => plan matches RoundPlan::Resolve(name) && name@ == h@,
                },
            },
    {
        let cached = self.cached;
        self.cached = None;
        match cached {
            Some(a) => {
                let mut v: Vec<IpAddress> = Vec::new();
                v.push(a);
                proof {
                    assert(v@ =~= seq![a]);
                }
                RoundPlan::Probe(v)
            },
            None => match &self.target {
                Target::Addr(a) => {
                    let mut v: Vec<IpAddress> = Vec::new();
                    v.push(*a);
                    proof {
                        assert(v@ =~= seq![*a]);
                    }
                    RoundPlan::Probe(v)
                },
                Target::Dns(h) => RoundPlan::Resolve(clone_bytes(h)),
            },
        }
    }

    /// Close a round with the race's winner, if any. The outcome is `true`
    /// exactly when some candidate replied; only then is the cache
    /// repopulated, so a failed round leaves it empty for the next one.
    pub fn finish_round(&mut self, winner: Option<IpAddress>) -> (reachable: bool)
        ensures
            reachable == (winner is Some),
            final(self).cached == winner,
            final(self).target == old(self).target,
            final(self).interval_ms == old(self).interval_ms,
            final(self).rounds == if old(self).rounds < u64::MAX {
                old(self).rounds + 1
            } else {
                old(self).rounds as int
            },
    {
        self.cached = winner;
        if self.rounds < u64::MAX {
            self.rounds = self.rounds + 1;
        }
        winner.is_some()
    }
}

/// Judge a resolution attempt: a transport failure and an empty answer are
/// distinct errors; any nonempty answer is the candidate list.
pub fn resolved_candidates(found: Option<Vec<IpAddress>>) -> (r: Result<
    Vec<IpAddress>,
    ResolveError,
>)
    ensures
        match found {
            None => r == Err::<Vec<IpAddress>, ResolveError>(ResolveError::ResolutionFailed),
            Some(v) => if v@.len() == 0 {
                r == Err::<Vec<IpAddress>, ResolveError>(ResolveError::NotFound)
            } else {
                r matches Ok(w) && w@ == v@
            },
        },
{
    match found {
        None => Err(ResolveError::ResolutionFailed),
        Some(v) => {
            if v.len() == 0 {
                Err(ResolveError::NotFound)
            } else {
                Ok(v)
            }
        },
    }
}

/// Absorb a resolution failure into an empty candidate list, as the monitor
/// does: a round with no candidates simply comes out `false`.
pub fn absorbed_candidates(r: Result<Vec<IpAddress>, ResolveError>) -> (v: Vec<IpAddress>)
    ensures
        match r {
            Ok(w) => v@ == w@,
            Err(_) => v@.len() == 0,
        },
{
    match r {
        Ok(w) => w,
        Err(_) => Vec::new(),
    }
}

} // verus!
