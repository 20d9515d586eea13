//! Committed-height facade: the only externally visible consensus state is
//! a monotone counter of committed blocks.
use vstd::prelude::*;

use crate::curve::Instruction;

verus! {

/// A monotone committed-height counter.
#[derive(Default)]
pub struct HotShotConsensus {
    pub height: u64,
}

impl HotShotConsensus {
    /// A fresh counter at height zero.
    pub fn new() -> (c: HotShotConsensus)
        ensures
            c.height == 0,
    {
        HotShotConsensus { height: 0 }
    }

    /// Commits one block: the height advances by exactly one and is
    /// returned.
    pub fn commit_block(&mut self, _block: &[Instruction]) -> (h: u64)
        requires
            old(self).height < u64::MAX,
        ensures
            final(self).height == old(self).height + 1,
            h == final(self).height,
    {
        self.height = self.height + 1;
        self.height
    }
}

} // verus!
