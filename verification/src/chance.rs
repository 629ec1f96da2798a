use vstd::prelude::*;

verus! {

/// The number of equally likely draws: a draw is an integer in `[0, UNIT)`.
pub const UNIT: u64 = 9007199254740992;

/// A probability in fixed point: the event occurs on exactly `threshold` of the
/// `UNIT` possible draws, namely on those below the threshold.
#[derive(Clone, Copy, Debug, PartialEq, Eq, Structural)]
pub struct Chance {
    pub threshold: u64,
}

impl Chance {
    /// The threshold counts draws, so it is at most their number.
    pub open spec fn wf(self) -> bool {
        self.threshold <= UNIT
    }

    /// The event occurs on no draw.
    pub open spec fn is_never(self) -> bool {
        self.threshold == 0
    }

    /// The event occurs on every draw.
    pub open spec fn is_certain(self) -> bool {
        self.threshold == UNIT
    }

    /// Whether the event occurs on the given draw.
    pub open spec fn occurs(self, draw: u64) -> bool {
        draw < self.threshold
    }

    /// Decides `wf`.
    pub fn valid(&self) -> (r: bool)
        ensures
            r == self.wf(),
    {
        self.threshold <= UNIT
    }

    /// The chance with the given threshold, if it is a probability at all.
    pub fn from_threshold(threshold: u64) -> (r: Option<Chance>)
        ensures
            threshold <= UNIT ==> r == Some(Chance { threshold }),
            threshold > UNIT ==> r.is_none(),
    {
        if threshold <= UNIT {
            Some(Chance { threshold })
        } else {
            None
        }
    }

    /// Probability zero.
    pub fn never() -> (r: Chance)
        ensures
            r.wf(),
            r.is_never(),
            r.threshold == 0,
    {
        Chance { threshold: 0 }
    }

    /// Probability one.
    pub fn certain() -> (r: Chance)
        ensures
            r.wf(),
            r.is_certain(),
            r.threshold == UNIT,
    {
        Chance { threshold: UNIT }
    }

    /// Decides the event for one draw.
    pub fn hits(&self, draw: u64) -> (r: bool)
        ensures
            r == self.occurs(draw),
    {
        draw < self.threshold
    }
}

} // verus!
