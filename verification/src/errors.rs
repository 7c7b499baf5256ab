//! Caller-facing failures (always typed results, never panics) and the
//! outbound event record emitted after every completed state change.

use vstd::prelude::*;
use crate::goods::GoodKind;
use crate::token::Token;

verus! {

/// Failure of a `Good` operation.
#[derive(Clone, Copy, PartialEq, Eq, Structural, Debug)]
pub enum GoodError {
    /// `split` asked for more than the good holds.
    InsufficientAmount,
    /// `merge` was handed a good of another kind.
    KindMismatch,
}

/// Failure of a price quotation.
#[derive(Clone, Copy, PartialEq, Eq, Structural, Debug)]
pub enum MarketGetterError {
    NonPositiveQuantityAsked,
    InsufficientGoodQuantityAvailable {
        requested_good_kind: GoodKind,
        requested_good_quantity: u64,
        available_good_quantity: u64,
    },
}

/// Failure of `lock_buy`.
#[derive(Clone, Copy, PartialEq, Eq, Structural, Debug)]
pub enum LockBuyError {
    NonPositiveQuantityToBuy { negative_quantity_to_buy: i64 },
    InsufficientGoodQuantityAvailable {
        requested_good_kind: GoodKind,
        requested_good_quantity: u64,
        available_good_quantity: u64,
    },
    NonPositiveBid { negative_bid: i64 },
    MaxAllowedLocksReached,
    BidTooLow {
        requested_good_kind: GoodKind,
        requested_good_quantity: u64,
        low_bid: u64,
        lowest_acceptable_bid: u64,
    },
}

/// Failure of `buy`.
#[derive(Clone, Copy, PartialEq, Eq, Structural, Debug)]
pub enum BuyError {
    /// The token never named a reservation of this clock epoch.
    UnrecognizedToken { unrecognized_token: Token },
    /// The reservation existed and was dropped by the expiry sweep.
    ExpiredToken { expired_token: Token },
    GoodKindNotDefault { non_default_good_kind: GoodKind },
    InsufficientGoodQuantity { contained_quantity: u64, pre_agreed_quantity: u64 },
}

/// Failure of `lock_sell`.
#[derive(Clone, Copy, PartialEq, Eq, Structural, Debug)]
pub enum LockSellError {
    NonPositiveQuantityToSell { negative_quantity_to_sell: i64 },
    InsufficientDefaultGoodQuantityAvailable {
        offered_good_kind: GoodKind,
        offered_good_quantity: u64,
        available_good_quantity: u64,
    },
    NonPositiveOffer { negative_offer: i64 },
    MaxAllowedLocksReached,
    OfferTooHigh {
        offered_good_kind: GoodKind,
        offered_good_quantity: u64,
        high_offer: u64,
        highest_acceptable_offer: u64,
    },
}

/// Failure of `sell`.
#[derive(Clone, Copy, PartialEq, Eq, Structural, Debug)]
pub enum SellError {
    UnrecognizedToken { unrecognized_token: Token },
    ExpiredToken { expired_token: Token },
    WrongGoodKind { wrong_good_kind: GoodKind, pre_agreed_kind: GoodKind },
    InsufficientGoodQuantity { contained_quantity: u64, pre_agreed_quantity: u64 },
}

/// What happened in a completed state change.
#[derive(Clone, Copy, PartialEq, Eq, Structural, Debug)]
pub enum EventKind {
    LockedBuy,
    Bought,
    LockedSell,
    Sold,
}

/// One outbound event. The market queues one of these after every
/// successful mutating operation; the surrounding application drains the
/// queue and fans the events out to its subscribers.
#[derive(Clone, Copy, PartialEq, Eq, Structural, Debug)]
pub struct MarketEvent {
    pub kind: EventKind,
    pub good_kind: GoodKind,
    pub quantity: u64,
    pub price: u64,
}

} // verus!
