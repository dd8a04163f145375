use vstd::prelude::*;

verus! {

/// The global high-water mark of protocol progress, ordered
/// `Setup < Enter < Choice < Reveal < Complete`.
#[derive(Debug, Clone, Copy, PartialEq, Eq, Structural)]
pub enum Phase {
    Setup,
    Enter,
    Choice,
    Reveal,
    Complete,
}

impl Phase {
    /// The position of the phase in the protocol order.
    pub open spec fn rank(self) -> nat {
        match self {
            Phase::Setup => 0,
            Phase::Enter => 1,
            Phase::Choice => 2,
            Phase::Reveal => 3,
            Phase::Complete => 4,
        }
    }

    /// Executable form of `rank`.
    pub fn order(&self) -> (r: u8)
        ensures
            r as nat == self.rank(),
    {
        match self {
            Phase::Setup => 0,
            Phase::Enter => 1,
            Phase::Choice => 2,
            Phase::Reveal => 3,
            Phase::Complete => 4,
        }
    }

    /// An operation whose own phase is `op` may run while the global
    /// phase has reached the phase just before `op` and the protocol is not
    /// complete. The global phase is a permissive monotonic guard, not a
    /// synchronisation point: a participant may still enter after another one
    /// has chosen, and may still choose after another one has revealed.
    pub open spec fn admits_spec(self, op: Phase) -> bool {
        &&& self != Phase::Complete
        &&& op.rank() >= 1
        &&& self.rank() + 1 >= op.rank()
    }

    /// Whether the global phase `self` lets an operation of phase `op` run.
    pub fn admits(&self, op: Phase) -> (r: bool)
        ensures
            r == self.admits_spec(op),
    {
        let s = self.order();
        let o = op.order();
        s != 4 && o >= 1 && s + 1 >= o
    }

    /// The phase after an operation of phase `op` has taken effect: the later
    /// of the two.
    pub open spec fn advanced_spec(self, op: Phase) -> Phase {
        if op.rank() > self.rank() {
            op
        } else {
            self
        }
    }

    /// Executable form of `advanced_spec`.
    pub fn advanced(&self, op: Phase) -> (r: Phase)
        ensures
            r == self.advanced_spec(op),
    {
        if op.order() > self.order() {
            op
        } else {
            *self
        }
    }
}

/// Advancing never moves the phase backwards, and reaches at least the
/// operation's phase.
pub proof fn lemma_advance_monotonic(p: Phase, op: Phase)
    ensures
        p.advanced_spec(op).rank() >= p.rank(),
        p.advanced_spec(op).rank() >= op.rank(),
{
}

} // verus!
