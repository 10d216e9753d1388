//! Liveness tracking for the heartbeat channel.
//!
//! The surrounding application pings the heartbeat channel on a fixed
//! interval and reports each outcome here: an echo that came back within
//! the window, or a miss. The monitor degrades Alive → Suspect on the
//! first consecutive miss and Suspect → Dead once the configured number of
//! consecutive misses is reached; any echo restores Alive from any
//! non-Dead state. Dead is terminal: reaching it is what triggers the
//! session teardown, and a later echo cannot revive a torn-down session.

use vstd::prelude::*;

verus! {

/// How alive the kernel looks from the heartbeat channel.
#[derive(Clone, Copy, Debug, PartialEq, Eq, Structural)]
pub enum BeatState {
    /// The most recent echo came back in time.
    Alive,
    /// At least one echo is missing, but fewer than the threshold.
    Suspect,
    /// The threshold of consecutive missed echoes was reached; the kernel
    /// is declared unreachable.
    Dead,
}

/// The number of consecutive missed echoes after which the kernel is
/// declared unreachable, absent other configuration. A tunable, not a
/// protocol constant.
pub const DEFAULT_MISS_THRESHOLD: u64 = 3;

/// The heartbeat monitor: counts consecutive missed echoes against a
/// configured threshold.
pub struct Monitor {
    /// Consecutive missed echoes since the last echo; saturates at the
    /// threshold once Dead.
    pub misses: u64,
    /// How many consecutive misses declare the kernel unreachable.
    pub threshold: u64,
}

impl Monitor {
    /// A meaningful monitor declares death only after at least one miss.
    pub open spec fn wf(self) -> bool {
        self.threshold >= 1
    }

    /// The state the current miss count amounts to.
    pub open spec fn state(self) -> BeatState {
        if self.misses == 0 {
            BeatState::Alive
        } else if self.misses < self.threshold {
            BeatState::Suspect
        } else {
            BeatState::Dead
        }
    }

    /// The monitor after one more missed echo: the count advances until
    /// it reaches the threshold, where it stays.
    pub open spec fn spec_miss(self) -> Monitor {
        if self.misses < self.threshold {
            Monitor { misses: (self.misses + 1) as u64, threshold: self.threshold }
        } else {
            self
        }
    }

    /// The monitor after a successful echo: any non-Dead state resets to
    /// Alive; Dead is terminal.
    pub open spec fn spec_echo(self) -> Monitor {
        if self.state() == BeatState::Dead {
            self
        } else {
            Monitor { misses: 0, threshold: self.threshold }
        }
    }

    /// A fresh monitor: no misses, the given threshold.
    pub fn new(threshold: u64) -> (r: Monitor)
        requires
            threshold >= 1,
        ensures
            r.wf(),
            r.misses == 0,
            r.threshold == threshold,
            r.state() == BeatState::Alive,
    {
        Monitor { misses: 0, threshold }
    }

    /// The current liveness state.
    pub fn current_state(&self) -> (s: BeatState)
        ensures
            s == self.state(),
    {
        if self.misses == 0 {
            BeatState::Alive
        } else if self.misses < self.threshold {
            BeatState::Suspect
        } else {
            BeatState::Dead
        }
    }

    /// Records a missed echo and reports whether the kernel is now to be
    /// declared unreachable.
    pub fn record_miss(&mut self) -> (dead: bool)
        requires
            old(self).wf(),
        ensures
            final(self).wf(),
            *final(self) == old(self).spec_miss(),
            dead == (final(self).state() == BeatState::Dead),
    {
        if self.misses < self.threshold {
            self.misses = self.misses + 1;
        }
        self.misses >= self.threshold
    }

    /// Records an echo that came back in time.
    pub fn record_echo(&mut self)
        requires
            old(self).wf(),
        ensures
            final(self).wf(),
            *final(self) == old(self).spec_echo(),
            old(self).state() != BeatState::Dead ==> final(self).state() == BeatState::Alive,
    {
        if self.misses < self.threshold {
            self.misses = 0;
        }
    }
}

/// The monitor after `n` consecutive missed echoes.
pub open spec fn spec_miss_n(m: Monitor, n: nat) -> Monitor
    decreases n,
{
    if n == 0 {
        m
    } else {
        spec_miss_n(m, (n - 1) as nat).spec_miss()
    }
}

/// Consecutive misses are counted exactly, up to the threshold.
proof fn lemma_miss_n_count(m: Monitor, n: nat)
    requires
        m.wf(),
        m.misses == 0,
    ensures
        spec_miss_n(m, n).threshold == m.threshold,
        spec_miss_n(m, n).misses == (if n < m.threshold { n } else { m.threshold as nat }),
    decreases n,
{
    if n > 0 {
        lemma_miss_n_count(m, (n - 1) as nat);
    }
}

/// Heartbeat degradation: from Alive, reaching the threshold of
/// consecutive missed echoes — and not before — declares the kernel Dead.
pub proof fn lemma_degrades_to_dead(m: Monitor, n: nat)
    requires
        m.wf(),
        m.state() == BeatState::Alive,
    ensures
        n >= m.threshold ==> spec_miss_n(m, n).state() == BeatState::Dead,
        n < m.threshold ==> spec_miss_n(m, n).state() != BeatState::Dead,
{
    lemma_miss_n_count(m, n);
}

/// A single missed echo followed by a successful one restores Alive, so
/// the session stays connected. (With a threshold of one there is no
/// Suspect state: the first miss is already terminal, and no echo can
/// recover it.)
pub proof fn lemma_single_miss_recovers(m: Monitor)
    requires
        m.wf(),
        m.threshold >= 2,
        m.state() == BeatState::Alive,
    ensures
        m.spec_miss().state() == BeatState::Suspect,
        m.spec_miss().spec_echo().state() == BeatState::Alive,
{
}

} // verus!
