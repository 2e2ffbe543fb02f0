//! Liquidity bookkeeping of one tick.

use vstd::prelude::*;

verus! {

/// What a pool records at a tick that bounds at least one position.
#[derive(Clone, Copy, Debug, PartialEq, Eq, Structural)]
pub struct TickInfo {
    /// Total liquidity of the positions that start or end at this tick.
    pub liquidity_gross: u128,
    /// Liquidity added when the price crosses this tick upwards.
    pub liquidity_net: i128,
    /// True while some position references the tick.
    pub initialized: bool,
}

impl TickInfo {
    /// The invariant of a tick record: it is initialized exactly while it
    /// carries liquidity.
    pub open spec fn wf(self) -> bool {
        self.initialized <==> self.liquidity_gross > 0
    }

    /// A record with the given liquidity, initialized exactly if it has any.
    pub fn new(liquidity_gross: u128, liquidity_net: i128) -> (r: TickInfo)
        ensures
            r.liquidity_gross == liquidity_gross,
            r.liquidity_net == liquidity_net,
            r.initialized == (liquidity_gross > 0),
            r.wf(),
    {
        TickInfo { liquidity_gross, liquidity_net, initialized: liquidity_gross > 0 }
    }
}

} // verus!
