//! Reservation identities. A token names one reservation: the side it was
//! opened on, the counterparty that opened it, and the clock tick of its
//! creation. Since every successful lock advances the clock by one tick,
//! no two reservations of the same clock epoch share a tick, which makes
//! tokens unique.

use vstd::prelude::*;

verus! {

/// The side of the trade a reservation belongs to.
#[derive(Clone, Copy, PartialEq, Eq, Structural, Debug)]
pub enum Side {
    Buy,
    Sell,
}

/// Identity of one reservation.
#[derive(Clone, Copy, PartialEq, Eq, Structural, Debug)]
pub struct Token {
    pub side: Side,
    pub trader: u64,
    pub tick: u64,
}

impl Token {
    /// The token of a reservation opened at tick `tick` by `trader`.
    pub fn new(side: Side, trader: u64, tick: u64) -> (t: Token)
        ensures
            t == (Token { side, trader, tick }),
    {
        Token { side, trader, tick }
    }
}

/// Cached pointer to the oldest reservation of one side: its creation tick
/// (in the current clock epoch) and its token.
#[derive(Clone, Copy, PartialEq, Eq, Structural, Debug)]
pub struct OldestMark {
    pub at: u64,
    pub token: Token,
}

} // verus!
