//! The record of what the clock has been read as.

use vstd::prelude::*;

verus! {

/// What a clock has been read as, reading after reading. Nothing but a reading of
/// the clock adds to it, and nothing takes from it. It takes no room: it is there
/// for the contracts, which say by it when the clock was read and what it gave.
pub struct Readings {
    moments: Ghost<Seq<(i64, u32)>>,
}

impl View for Readings {
    type V = Seq<(i64, u32)>;

    /// The moments that were read, in order, each in seconds and nanoseconds after
    /// the Unix epoch.
    closed spec fn view(&self) -> Seq<(i64, u32)> {
        self.moments@
    }
}

impl Readings {
    /// The record of a clock that has not been read.
    pub fn new() -> (readings: Self)
        ensures
            readings@ == Seq::<(i64, u32)>::empty(),
    {
        Readings { moments: Ghost(Seq::empty()) }
    }
}

} // verus!
