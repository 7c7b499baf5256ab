//! The four good kinds, the fixed default exchange rates, and the `Good`
//! value type with its exact `split` / `merge` operations. Those two
//! operations are the only legal ways to move quantity between the ledger,
//! the reservations and the outside world: neither can create or drop
//! quantity.

use vstd::prelude::*;

verus! {

/// Fixed-point denominator for exchange rates: a rate of `SCALE` means 1:1.
pub const SCALE: u64 = 1_000_000;

/// Default exchange rates towards EUR (EUR value of one unit, over `SCALE`).
pub const DEF_RATE_USD: u64 = 965_474;
/// Default YEN -> EUR rate over `SCALE`.
pub const DEF_RATE_YEN: u64 = 6_963;
/// Default YUAN -> EUR rate over `SCALE`.
pub const DEF_RATE_YUAN: u64 = 135_871;

/// Default exchange rates away from EUR (units of the good bought by one
/// EUR, over `SCALE`). Each is `SCALE * SCALE / DEF_RATE_*`, rounded down,
/// so that converting there and back never gains quantity.
pub const INV_RATE_USD: u64 = 1_035_760;
/// Default EUR -> YEN rate over `SCALE`.
pub const INV_RATE_YEN: u64 = 143_616_257;
/// Default EUR -> YUAN rate over `SCALE`.
pub const INV_RATE_YUAN: u64 = 7_359_919;

/// The four fungible good kinds. `Eur` is the reference good: its own
/// exchange rate is pinned to 1:1 and the pricing formula never targets it.
#[derive(Clone, Copy, PartialEq, Eq, Structural, Debug)]
pub enum GoodKind {
    Eur,
    Usd,
    Yen,
    Yuan,
}

/// Rebalancing role of a good: sticky once assigned during a rebalancing
/// pass, reset to `Unknown` on a fixed cadence of the clock.
#[derive(Clone, Copy, PartialEq, Eq, Structural, Debug)]
pub enum Role {
    Unknown,
    Exporting,
    Importing,
}

/// An amount of one good. The amount is a fixed-point integer and is
/// non-negative by construction.
#[derive(Clone, Copy, PartialEq, Eq, Structural, Debug)]
pub struct Good {
    pub kind: GoodKind,
    pub amount: u64,
}

/// Per-kind ledger record: current quantity, the quantity the market was
/// initialized with, the current exchange rates, and the rebalancing role.
#[derive(Clone, Copy, PartialEq, Eq, Structural, Debug)]
pub struct GoodInfo {
    pub held: u64,
    pub buy_rate: u64,
    pub sell_rate: u64,
    pub initial: u64,
    pub role: Role,
}

/// The default rate of a kind towards EUR, over `SCALE`.
pub open spec fn spec_def_rate(k: GoodKind) -> int {
    match k {
        GoodKind::Eur => SCALE as int,
        GoodKind::Usd => DEF_RATE_USD as int,
        GoodKind::Yen => DEF_RATE_YEN as int,
        GoodKind::Yuan => DEF_RATE_YUAN as int,
    }
}

/// The default rate of a kind away from EUR, over `SCALE`.
pub open spec fn spec_inv_rate(k: GoodKind) -> int {
    match k {
        GoodKind::Eur => SCALE as int,
        GoodKind::Usd => INV_RATE_USD as int,
        GoodKind::Yen => INV_RATE_YEN as int,
        GoodKind::Yuan => INV_RATE_YUAN as int,
    }
}

/// EUR value of `amount` units of kind `k`, at the default rate.
pub open spec fn spec_to_eur(k: GoodKind, amount: int) -> int {
    amount * spec_def_rate(k) / (SCALE as int)
}

/// Units of kind `k` bought by `eur` EUR, at the default rate.
pub open spec fn spec_from_eur(k: GoodKind, eur: int) -> int {
    eur * spec_inv_rate(k) / (SCALE as int)
}

/// The default rate of a kind towards EUR, over `SCALE` (executable).
pub fn def_rate(k: GoodKind) -> (r: u64)
    ensures
        r == spec_def_rate(k),
{
    match k {
        GoodKind::Eur => SCALE,
        GoodKind::Usd => DEF_RATE_USD,
        GoodKind::Yen => DEF_RATE_YEN,
        GoodKind::Yuan => DEF_RATE_YUAN,
    }
}

/// The default rate of a kind away from EUR, over `SCALE` (executable).
pub fn inv_rate(k: GoodKind) -> (r: u64)
    ensures
        r == spec_inv_rate(k),
{
    match k {
        GoodKind::Eur => SCALE,
        GoodKind::Usd => INV_RATE_USD,
        GoodKind::Yen => INV_RATE_YEN,
        GoodKind::Yuan => INV_RATE_YUAN,
    }
}

impl Good {
    /// A new good of the given kind and amount.
    pub fn new(kind: GoodKind, amount: u64) -> (g: Good)
        ensures
            g.kind == kind,
            g.amount == amount,
    {
        Good { kind, amount }
    }

    /// The kind of this good.
    pub fn get_kind(&self) -> (k: GoodKind)
        ensures
            k == self.kind,
    {
        self.kind
    }

    /// The amount of this good.
    pub fn get_qty(&self) -> (a: u64)
        ensures
            a == self.amount,
    {
        self.amount
    }

    /// Remove `qty` from this good and hand it back as a new good of the
    /// same kind; fails, leaving this good unchanged, when `qty` exceeds
    /// what is held.
    pub fn split(&mut self, qty: u64) -> (r: Result<Good, crate::errors::GoodError>)
        ensures
            qty <= old(self).amount ==> {
                &&& r matches Ok(g) && g.kind == old(self).kind && g.amount == qty
                &&& final(self).kind == old(self).kind
                &&& final(self).amount == old(self).amount - qty
            },
            qty > old(self).amount ==> {
                &&& r matches Err(e) && e == crate::errors::GoodError::InsufficientAmount
                &&& *final(self) == *old(self)
            },
    {
        if qty > self.amount {
            Err(crate::errors::GoodError::InsufficientAmount)
        } else {
            self.amount = self.amount - qty;
            Ok(Good { kind: self.kind, amount: qty })
        }
    }

    /// Consume `other` into this good; fails, changing nothing, when the
    /// kinds differ. The sum must fit the fixed-point machine word.
    pub fn merge(&mut self, other: Good) -> (r: Result<(), crate::errors::GoodError>)
        requires
            old(self).amount + other.amount <= u64::MAX,
        ensures
            other.kind == old(self).kind ==> {
                &&& r matches Ok(u)
                &&& final(self).kind == old(self).kind
                &&& final(self).amount == old(self).amount + other.amount
            },
            other.kind != old(self).kind ==> {
                &&& r matches Err(e) && e == crate::errors::GoodError::KindMismatch
                &&& *final(self) == *old(self)
            },
    {
        if other.kind != self.kind {
            Err(crate::errors::GoodError::KindMismatch)
        } else {
            self.amount = self.amount + other.amount;
            Ok(())
        }
    }
}

} // verus!
