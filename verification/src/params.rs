//! The integer decisions of setting a simulation up: which seed drives the
//! random placement, and the bookkeeping of placing particles by rejection
//! sampling with a bounded number of attempts.

use vstd::prelude::*;
use rand::TryRngCore;

verus! {

/// A fresh seed from the operating system's entropy source, or `None` when
/// that source cannot be read.
///
/// Trusted: calls `rand::rngs::OsRng::try_next_u64` (the `TryRngCore`
/// impl of rand_core, which asks `getrandom::u64`).  Which value comes back
/// is chance, and whether the source can be read depends on the machine, so
/// no clause states either.
#[verifier::external_body]
fn random_seed() -> Option<u64> {
    rand::rngs::OsRng.try_next_u64().ok()
}

/// The seed of a simulation: the configured one, or else a fresh random
/// one; `None` when no seed is configured and no fresh one can be drawn.
pub fn choose_seed(seed: Option<u64>) -> (s: Option<u64>)
    ensures
        seed matches Some(v) ==> s == Some(v),
{
    match seed {
        Some(v) => Some(v),
        None => random_seed(),
    }
}

/// How many candidate positions are drawn per particle before placement
/// gives up.
pub const ATTEMPTS_PER_PARTICLE: usize = 10_000;

/// Progress of placing `target` particles by drawing candidate positions
/// and keeping those that overlap no particle placed before.
pub struct Placement {
    target: usize,
    placed: usize,
    attempts: usize,
}

impl Placement {
    pub closed spec fn spec_target(&self) -> nat {
        self.target as nat
    }

    pub closed spec fn spec_placed(&self) -> nat {
        self.placed as nat
    }

    pub closed spec fn spec_attempts(&self) -> nat {
        self.attempts as nat
    }

    /// The number of attempts after which placement gives up.
    pub open spec fn spec_limit(&self) -> nat {
        self.spec_target() * ATTEMPTS_PER_PARTICLE as nat
    }

    /// Whether more particles are wanted.
    pub open spec fn spec_wants_more(&self) -> bool {
        self.spec_placed() < self.spec_target()
    }

    /// Whether the attempts are used up.
    pub open spec fn spec_gave_up(&self) -> bool {
        self.spec_attempts() > self.spec_limit()
    }

    /// Whether placement is over: all particles are placed, or the
    /// attempts are used up.
    pub open spec fn spec_finished(&self) -> bool {
        !self.spec_wants_more() || self.spec_gave_up()
    }

    /// Placed particles never outnumber the target or the attempts, and no
    /// more than one attempt beyond the limit is ever made.
    pub open spec fn wf(&self) -> bool {
        &&& self.spec_limit() < usize::MAX
        &&& self.spec_placed() <= self.spec_target()
        &&& self.spec_placed() <= self.spec_attempts()
        &&& self.spec_attempts() <= self.spec_limit() + 1
    }

    /// Starts placing `target` particles.
    pub fn new(target: usize) -> (p: Placement)
        requires
            target * ATTEMPTS_PER_PARTICLE < usize::MAX,
        ensures
            p.wf(),
            p.spec_target() == target,
            p.spec_placed() == 0,
            p.spec_attempts() == 0,
    {
        Placement { target, placed: 0, attempts: 0 }
    }

    pub fn target(&self) -> (n: usize)
        ensures
            n == self.spec_target(),
    {
        self.target
    }

    pub fn placed(&self) -> (n: usize)
        ensures
            n == self.spec_placed(),
    {
        self.placed
    }

    pub fn attempts(&self) -> (n: usize)
        ensures
            n == self.spec_attempts(),
    {
        self.attempts
    }

    /// Whether another candidate is wanted (the placement loop goes on
    /// while this holds).
    pub fn wants_more(&self) -> (b: bool)
        ensures
            b == self.spec_wants_more(),
    {
        self.placed < self.target
    }

    /// Whether the attempts are used up (the placement loop then stops with
    /// a warning).
    pub fn gave_up(&self) -> (b: bool)
        requires
            self.wf(),
        ensures
            b == self.spec_gave_up(),
    {
        self.attempts > self.target * ATTEMPTS_PER_PARTICLE
    }

    /// Records one candidate; it is kept, and counts as placed, exactly
    /// when it overlaps no particle placed before.
    pub fn record(&mut self, overlap: bool) -> (keep: bool)
        requires
            old(self).wf(),
            !old(self).spec_finished(),
        ensures
            final(self).wf(),
            keep == !overlap,
            final(self).spec_target() == old(self).spec_target(),
            final(self).spec_placed() == old(self).spec_placed() + if keep { 1nat } else { 0nat },
            final(self).spec_attempts() == old(self).spec_attempts() + 1,
    {
        if !overlap {
            self.placed = self.placed + 1;
        }
        self.attempts = self.attempts + 1;
        !overlap
    }
}

/// The placement loop ends: while it is not over, each candidate uses up
/// one of at most `10_000 · target + 1` attempts, and the particles placed
/// never exceed the target.
pub proof fn lemma_placement_bounded(p: Placement)
    requires
        p.wf(),
    ensures
        p.spec_placed() <= p.spec_target(),
        p.spec_attempts() <= p.spec_target() * ATTEMPTS_PER_PARTICLE as nat + 1,
        !p.spec_finished() ==> p.spec_attempts() <= p.spec_limit(),
{
}


/// Placement gives up once more than ten thousand attempts per wanted
/// particle have been made: the limit scales with the target.
pub proof fn lemma_gave_up_scales_with_target(p: Placement)
    ensures
        p.spec_gave_up() <==> p.spec_attempts() > p.spec_target() * 10_000,
        p.spec_target() > 0 && p.spec_attempts() <= p.spec_target() * 10_000 ==> !p.spec_gave_up(),
{
}

} // verus!
