//! The reservation records, the abstract market state, its well-formedness
//! invariant, and the exact transition functions that every mutating
//! operation of the market is specified against.

use vstd::prelude::*;
use crate::goods::{Good, GoodInfo, GoodKind, Role, SCALE, spec_to_eur, spec_from_eur};
use crate::token::{OldestMark, Side, Token};
use crate::errors::{
    EventKind, LockBuyError, LockSellError, MarketEvent, MarketGetterError,
};
use crate::pricing::{
    RATE_CAP, spec_buy_price, spec_buy_rate, spec_sell_price, spec_sell_rate_of,
};

verus! {

/// A reservation goes stale once it is older than this many ticks.
pub const MAX_LOCK_TIME: u64 = 12;
/// At most this many buy reservations may be active at once.
pub const MAX_LOCK_BUY_NUM: usize = 4;
/// At most this many sell reservations may be active at once.
pub const MAX_LOCK_SELL_NUM: usize = 4;
/// Rebalancing roles are cleared whenever the clock is a multiple of this.
pub const ROLE_RESET_PERIOD: u64 = 24;
/// The clock advance draws a roll below this bound.
pub const REBALANCE_ROLL_RANGE: u64 = 100;
/// A roll below this value triggers a rebalancing pass.
pub const REBALANCE_ROLL_HIT: u64 = 15;
/// A buy lock may not push a good under this percentage of its initial amount.
pub const MIN_GOOD_PCT: u64 = 25;
/// A sell lock may not push EUR under this percentage of its initial amount.
pub const MIN_EUR_PCT: u64 = 20;
/// A token tick at or above this bound marks a reservation that survived a
/// clock renormalization: its creation tick belongs to the previous epoch.
pub const SHIFTED_TICK_MIN: u64 = u64::MAX - 17;
/// After a renormalization, every surviving reservation's shifted age is at
/// most this.
pub const SHIFTED_AT_MAX: u64 = 17;

/// An outstanding buy reservation: the split-off good it exclusively owns,
/// the agreed price, and its creation tick in the current clock epoch.
#[derive(Clone, Copy, PartialEq, Eq, Structural, Debug)]
pub struct BuyLock {
    pub token: Token,
    pub good: Good,
    pub price: u64,
    pub at: u64,
}

/// An outstanding sell reservation: the pre-paid EUR it exclusively owns,
/// the agreed kind and amount to be delivered, and its creation tick.
#[derive(Clone, Copy, PartialEq, Eq, Structural, Debug)]
pub struct SellLock {
    pub token: Token,
    pub eur: Good,
    pub qty: u64,
    pub kind: GoodKind,
    pub at: u64,
}

/// Conservation ledger: per kind, the quantity that has flowed into the
/// market (finalized payments and deliveries, rebalancing credits) and out
/// of it (finalized hand-overs, rebalancing debits).
#[verifier::ext_equal]
pub struct Flows {
    pub eur_in: int,
    pub eur_out: int,
    pub usd_in: int,
    pub usd_out: int,
    pub yen_in: int,
    pub yen_out: int,
    pub yuan_in: int,
    pub yuan_out: int,
}

impl Flows {
    /// The all-zero ledger.
    pub open spec fn zero() -> Flows {
        Flows {
            eur_in: 0, eur_out: 0, usd_in: 0, usd_out: 0,
            yen_in: 0, yen_out: 0, yuan_in: 0, yuan_out: 0,
        }
    }

    /// Total inflow of one kind.
    pub open spec fn inflow(self, k: GoodKind) -> int {
        match k {
            GoodKind::Eur => self.eur_in,
            GoodKind::Usd => self.usd_in,
            GoodKind::Yen => self.yen_in,
            GoodKind::Yuan => self.yuan_in,
        }
    }

    /// Total outflow of one kind.
    pub open spec fn outflow(self, k: GoodKind) -> int {
        match k {
            GoodKind::Eur => self.eur_out,
            GoodKind::Usd => self.usd_out,
            GoodKind::Yen => self.yen_out,
            GoodKind::Yuan => self.yuan_out,
        }
    }

    /// The ledger with `x` more inflow of kind `k`.
    pub open spec fn add_in(self, k: GoodKind, x: int) -> Flows {
        match k {
            GoodKind::Eur => Flows { eur_in: self.eur_in + x, ..self },
            GoodKind::Usd => Flows { usd_in: self.usd_in + x, ..self },
            GoodKind::Yen => Flows { yen_in: self.yen_in + x, ..self },
            GoodKind::Yuan => Flows { yuan_in: self.yuan_in + x, ..self },
        }
    }

    /// The ledger with `x` more outflow of kind `k`.
    pub open spec fn add_out(self, k: GoodKind, x: int) -> Flows {
        match k {
            GoodKind::Eur => Flows { eur_out: self.eur_out + x, ..self },
            GoodKind::Usd => Flows { usd_out: self.usd_out + x, ..self },
            GoodKind::Yen => Flows { yen_out: self.yen_out + x, ..self },
            GoodKind::Yuan => Flows { yuan_out: self.yuan_out + x, ..self },
        }
    }
}

/// The abstract state of the market.
#[verifier::ext_equal]
pub struct MarketView {
    pub time: u64,
    pub mean: u64,
    pub eur: GoodInfo,
    pub usd: GoodInfo,
    pub yen: GoodInfo,
    pub yuan: GoodInfo,
    pub buy_locks: Seq<BuyLock>,
    pub sell_locks: Seq<SellLock>,
    pub oldest_buy: Option<OldestMark>,
    pub oldest_sell: Option<OldestMark>,
    pub expired: Seq<Token>,
    pub events: Seq<MarketEvent>,
    pub flows: Flows,
}

/// Sum of the amounts the buy reservations of kind `k` hold.
pub open spec fn spec_buy_sum(s: Seq<BuyLock>, k: GoodKind) -> int
    decreases s.len(),
{
    if s.len() == 0 {
        0
    } else {
        spec_buy_sum(s.drop_last(), k) + if s.last().good.kind == k {
            s.last().good.amount as int
        } else {
            0int
        }
    }
}

/// Sum of the EUR the sell reservations hold.
pub open spec fn spec_sell_sum(s: Seq<SellLock>) -> int
    decreases s.len(),
{
    if s.len() == 0 {
        0
    } else {
        spec_sell_sum(s.drop_last()) + s.last().eur.amount as int
    }
}

impl MarketView {
    /// The ledger entry of one kind.
    pub open spec fn entry(self, k: GoodKind) -> GoodInfo {
        match k {
            GoodKind::Eur => self.eur,
            GoodKind::Usd => self.usd,
            GoodKind::Yen => self.yen,
            GoodKind::Yuan => self.yuan,
        }
    }

    /// The state with the entry of kind `k` replaced.
    pub open spec fn with_entry(self, k: GoodKind, e: GoodInfo) -> MarketView {
        match k {
            GoodKind::Eur => MarketView { eur: e, ..self },
            GoodKind::Usd => MarketView { usd: e, ..self },
            GoodKind::Yen => MarketView { yen: e, ..self },
            GoodKind::Yuan => MarketView { yuan: e, ..self },
        }
    }

    /// The quantity of kind `k` that active reservations exclusively hold.
    pub open spec fn locked(self, k: GoodKind) -> int {
        spec_buy_sum(self.buy_locks, k) + if k == GoodKind::Eur {
            spec_sell_sum(self.sell_locks)
        } else {
            0int
        }
    }

    /// Conservation of one kind: what is held plus what reservations hold
    /// plus what has flowed out equals the initial endowment plus what has
    /// flowed in.
    pub open spec fn conserved(self, k: GoodKind) -> bool {
        self.entry(k).held + self.locked(k) + self.flows.outflow(k)
            == self.entry(k).initial + self.flows.inflow(k)
    }

    /// The rates of one non-EUR entry are well-formed: the buy rate is
    /// positive and capped, and the sell rate is exactly the discounted buy
    /// rate, so a sell never pays more than a buy charges.
    pub open spec fn rates_ok(self, k: GoodKind) -> bool {
        0 < self.entry(k).buy_rate <= RATE_CAP
            && self.entry(k).sell_rate == spec_sell_rate_of(self.entry(k).buy_rate as int)
    }

    /// Everything that holds of the goods ledger.
    pub open spec fn wf_goods(self) -> bool {
        &&& self.entry(GoodKind::Eur).held + self.locked(GoodKind::Eur) <= u64::MAX
        &&& self.entry(GoodKind::Usd).held + self.locked(GoodKind::Usd) <= u64::MAX
        &&& self.entry(GoodKind::Yen).held + self.locked(GoodKind::Yen) <= u64::MAX
        &&& self.entry(GoodKind::Yuan).held + self.locked(GoodKind::Yuan) <= u64::MAX
        &&& self.conserved(GoodKind::Eur)
        &&& self.conserved(GoodKind::Usd)
        &&& self.conserved(GoodKind::Yen)
        &&& self.conserved(GoodKind::Yuan)
        &&& self.eur.buy_rate == SCALE && self.eur.sell_rate == SCALE
        &&& self.eur.role == Role::Unknown
        &&& self.rates_ok(GoodKind::Usd)
        &&& self.rates_ok(GoodKind::Yen)
        &&& self.rates_ok(GoodKind::Yuan)
        &&& 3 * self.mean >= spec_to_eur(GoodKind::Usd, self.usd.initial as int)
        &&& 3 * self.mean >= spec_to_eur(GoodKind::Yen, self.yen.initial as int)
        &&& 3 * self.mean >= spec_to_eur(GoodKind::Yuan, self.yuan.initial as int)
    }

    /// Everything that holds of the buy-side reservation list, short of the
    /// strict age bound that is re-established by the clock advance.
    pub open spec fn wf_buy_core(self) -> bool {
        let s = self.buy_locks;
        &&& s.len() <= MAX_LOCK_BUY_NUM
        &&& forall|i: int, j: int| 0 <= i < j < s.len() ==> s[i].at < s[j].at
        &&& forall|i: int| 0 <= i < s.len() ==> #[trigger] s[i].at <= self.time
        &&& forall|i: int| 0 <= i < s.len()
            ==> #[trigger] s[i].at + MAX_LOCK_TIME + 1 + i >= self.time
        &&& match self.oldest_buy {
            None => s.len() == 0,
            Some(m) => s.len() > 0 && m.at == s[0].at && m.token == s[0].token,
        }
        &&& forall|i: int| 0 <= i < s.len() ==> (#[trigger] s[i].token).side == Side::Buy
        &&& forall|i: int| 0 <= i < s.len() ==> (#[trigger] s[i].token).tick == s[i].at
            || (s[i].token.tick >= SHIFTED_TICK_MIN && s[i].at <= SHIFTED_AT_MAX)
        &&& forall|i: int, j: int|
            0 <= i < s.len() && 0 <= j < s.len() && i != j
                ==> (#[trigger] s[i].token) != (#[trigger] s[j].token)
    }

    /// Everything that holds of the sell-side reservation list, short of
    /// the strict age bound.
    pub open spec fn wf_sell_core(self) -> bool {
        let s = self.sell_locks;
        &&& s.len() <= MAX_LOCK_SELL_NUM
        &&& forall|i: int, j: int| 0 <= i < j < s.len() ==> s[i].at < s[j].at
        &&& forall|i: int| 0 <= i < s.len() ==> #[trigger] s[i].at <= self.time
        &&& forall|i: int| 0 <= i < s.len()
            ==> #[trigger] s[i].at + MAX_LOCK_TIME + 1 + i >= self.time
        &&& match self.oldest_sell {
            None => s.len() == 0,
            Some(m) => s.len() > 0 && m.at == s[0].at && m.token == s[0].token,
        }
        &&& forall|i: int| 0 <= i < s.len() ==> (#[trigger] s[i].token).side == Side::Sell
        &&& forall|i: int| 0 <= i < s.len() ==> (#[trigger] s[i].eur).kind == GoodKind::Eur
        &&& forall|i: int| 0 <= i < s.len() ==> (#[trigger] s[i].token).tick == s[i].at
            || (s[i].token.tick >= SHIFTED_TICK_MIN && s[i].at <= SHIFTED_AT_MAX)
        &&& forall|i: int, j: int|
            0 <= i < s.len() && 0 <= j < s.len() && i != j
                ==> (#[trigger] s[i].token) != (#[trigger] s[j].token)
    }

    /// Everything that holds of the expired-token record: every entry went
    /// stale in this clock epoch, and none of them names a reservation that
    /// is still active.
    pub open spec fn wf_expired(self) -> bool {
        &&& forall|i: int| 0 <= i < self.expired.len()
            ==> (#[trigger] self.expired[i]).tick + MAX_LOCK_TIME < self.time
        &&& forall|i: int, j: int|
            0 <= i < self.expired.len() && 0 <= j < self.buy_locks.len()
                ==> (#[trigger] self.expired[i]) != (#[trigger] self.buy_locks[j].token)
        &&& forall|i: int, j: int|
            0 <= i < self.expired.len() && 0 <= j < self.sell_locks.len()
                ==> (#[trigger] self.expired[i]) != (#[trigger] self.sell_locks[j].token)
    }

    /// Well-formedness as it holds between the validation phase and the
    /// clock advance of a mutating operation: a just-inserted reservation
    /// may still carry the current tick.
    pub open spec fn wf_core(self) -> bool {
        &&& self.wf_goods()
        &&& self.wf_buy_core()
        &&& self.wf_sell_core()
        &&& self.wf_expired()
    }

    /// Well-formedness of the market between operations.
    pub open spec fn wf(self) -> bool {
        &&& self.wf_core()
        &&& forall|i: int| 0 <= i < self.buy_locks.len()
            ==> #[trigger] self.buy_locks[i].at < self.time
        &&& forall|i: int| 0 <= i < self.sell_locks.len()
            ==> #[trigger] self.sell_locks[i].at < self.time
    }

    /// Whether `t` names an active buy reservation.
    pub open spec fn buy_active(self, t: Token) -> bool {
        exists|i: int| 0 <= i < self.buy_locks.len() && (#[trigger] self.buy_locks[i]).token == t
    }

    /// Whether `t` names an active sell reservation.
    pub open spec fn sell_active(self, t: Token) -> bool {
        exists|i: int| 0 <= i < self.sell_locks.len() && (#[trigger] self.sell_locks[i]).token == t
    }

    /// Whether `t` is recorded as expired.
    pub open spec fn is_expired(self, t: Token) -> bool {
        self.expired.contains(t)
    }
}

/// Index of the buy reservation a token names (its length when absent).
pub open spec fn spec_buy_idx(s: Seq<BuyLock>, t: Token) -> int
    decreases s.len(),
{
    if s.len() == 0 {
        0
    } else if s[0].token == t {
        0
    } else {
        1 + spec_buy_idx(s.drop_first(), t)
    }
}

/// Index of the sell reservation a token names (its length when absent).
pub open spec fn spec_sell_idx(s: Seq<SellLock>, t: Token) -> int
    decreases s.len(),
{
    if s.len() == 0 {
        0
    } else if s[0].token == t {
        0
    } else {
        1 + spec_sell_idx(s.drop_first(), t)
    }
}

/// The buy quote, exactly as `get_buy_price` computes it.
pub open spec fn spec_quote_buy(v: MarketView, k: GoodKind, qty: int)
    -> Result<u64, MarketGetterError> {
    if qty < 0 {
        Err(MarketGetterError::NonPositiveQuantityAsked)
    } else {
        let e = v.entry(k);
        let cap = (e.initial as int) * (MIN_GOOD_PCT as int) / 100;
        if (e.held as int) < qty + cap {
            Err(MarketGetterError::InsufficientGoodQuantityAvailable {
                requested_good_kind: k,
                requested_good_quantity: qty as u64,
                available_good_quantity: e.held,
            })
        } else {
            Ok(spec_buy_price(e.buy_rate as int, qty, e.held as int) as u64)
        }
    }
}

/// The sell quote, exactly as `get_sell_price` computes it: the price is
/// measured against the EUR ledger's floor, since selling pays out EUR.
pub open spec fn spec_quote_sell(v: MarketView, k: GoodKind, qty: int)
    -> Result<u64, MarketGetterError> {
    if qty < 0 {
        Err(MarketGetterError::NonPositiveQuantityAsked)
    } else {
        let price = spec_sell_price(v.entry(k).sell_rate as int, qty);
        let cap = (v.eur.initial as int) * (MIN_EUR_PCT as int) / 100;
        if (v.eur.held as int) < price + cap {
            Err(MarketGetterError::InsufficientGoodQuantityAvailable {
                requested_good_kind: GoodKind::Eur,
                requested_good_quantity: price as u64,
                available_good_quantity: v.eur.held,
            })
        } else {
            Ok(price as u64)
        }
    }
}

/// The state change of a successful `lock_buy`, before the clock advance:
/// the quantity is split out of the ledger into a fresh reservation, the
/// oldest-pointer is set if the side was empty, and the event is queued.
pub open spec fn spec_lock_buy_ins(
    v: MarketView, k: GoodKind, qty: int, bid: int, trader: u64,
) -> MarketView {
    let tok = Token { side: Side::Buy, trader, tick: v.time };
    let lock = BuyLock {
        token: tok,
        good: Good { kind: k, amount: qty as u64 },
        price: bid as u64,
        at: v.time,
    };
    let e = v.entry(k);
    let v2 = v.with_entry(k, GoodInfo { held: (e.held - qty) as u64, ..e });
    MarketView {
        buy_locks: v.buy_locks.push(lock),
        oldest_buy: match v.oldest_buy {
            None => Some(OldestMark { at: v.time, token: tok }),
            Some(m) => Some(m),
        },
        events: v.events.push(MarketEvent {
            kind: EventKind::LockedBuy,
            good_kind: k,
            quantity: qty as u64,
            price: bid as u64,
        }),
        ..v2
    }
}

/// The state change of a successful `lock_sell`, before the clock advance:
/// the offered EUR is split out of the EUR ledger into a fresh reservation.
pub open spec fn spec_lock_sell_ins(
    v: MarketView, k: GoodKind, qty: int, offer: int, trader: u64,
) -> MarketView {
    let tok = Token { side: Side::Sell, trader, tick: v.time };
    let lock = SellLock {
        token: tok,
        eur: Good { kind: GoodKind::Eur, amount: offer as u64 },
        qty: qty as u64,
        kind: k,
        at: v.time,
    };
    let e = v.eur;
    MarketView {
        eur: GoodInfo { held: (e.held - offer) as u64, ..e },
        sell_locks: v.sell_locks.push(lock),
        oldest_sell: match v.oldest_sell {
            None => Some(OldestMark { at: v.time, token: tok }),
            Some(m) => Some(m),
        },
        events: v.events.push(MarketEvent {
            kind: EventKind::LockedSell,
            good_kind: k,
            quantity: qty as u64,
            price: offer as u64,
        }),
        ..v
    }
}

/// The state change of a successful `buy` of the reservation at index `i`,
/// before the clock advance: the agreed price flows into the EUR ledger,
/// the reserved good flows out to the caller, and the oldest-pointer is
/// recomputed when the finalized reservation was the cached oldest.
pub open spec fn spec_buy_fin(v: MarketView, i: int) -> MarketView {
    let l = v.buy_locks[i];
    let rest = v.buy_locks.remove(i);
    let e = v.eur;
    MarketView {
        eur: GoodInfo { held: (e.held + l.price) as u64, ..e },
        buy_locks: rest,
        oldest_buy: match v.oldest_buy {
            Some(m) => if m.token == l.token {
                if rest.len() == 0 {
                    None
                } else {
                    Some(OldestMark { at: rest[0].at, token: rest[0].token })
                }
            } else {
                v.oldest_buy
            },
            None => None,
        },
        events: v.events.push(MarketEvent {
            kind: EventKind::Bought,
            good_kind: l.good.kind,
            quantity: l.good.amount,
            price: l.price,
        }),
        flows: v.flows.add_in(GoodKind::Eur, l.price as int).add_out(
            l.good.kind,
            l.good.amount as int,
        ),
        ..v
    }
}

/// The state change of a successful `sell` of the reservation at index
/// `i`: the delivered quantity flows into the ledger of the agreed kind,
/// the pre-paid EUR flows out to the caller.
pub open spec fn spec_sell_fin(v: MarketView, i: int) -> MarketView {
    let l = v.sell_locks[i];
    let rest = v.sell_locks.remove(i);
    let e = v.entry(l.kind);
    let v2 = v.with_entry(l.kind, GoodInfo { held: (e.held + l.qty) as u64, ..e });
    MarketView {
        sell_locks: rest,
        oldest_sell: match v.oldest_sell {
            Some(m) => if m.token == l.token {
                if rest.len() == 0 {
                    None
                } else {
                    Some(OldestMark { at: rest[0].at, token: rest[0].token })
                }
            } else {
                v.oldest_sell
            },
            None => None,
        },
        events: v.events.push(MarketEvent {
            kind: EventKind::Sold,
            good_kind: l.kind,
            quantity: l.qty,
            price: l.eur.amount,
        }),
        flows: v.flows.add_in(l.kind, l.qty as int).add_out(
            GoodKind::Eur,
            l.eur.amount as int,
        ),
        ..v2
    }
}

/// Repricing of one (non-EUR) kind: the buy rate follows the formula, the
/// sell rate is the discounted buy rate.
pub open spec fn spec_reprice(v: MarketView, k: GoodKind) -> MarketView {
    let e = v.entry(k);
    let nb = spec_buy_rate(k, e.held as int, e.initial as int, v.mean as int);
    v.with_entry(k, GoodInfo {
        buy_rate: nb as u64,
        sell_rate: spec_sell_rate_of(nb) as u64,
        ..e
    })
}

/// One buy-side expiry step: when the oldest buy reservation has gone
/// stale, its good is merged back into the ledger, its token is recorded
/// as expired (reservations carried over from the previous clock epoch
/// fall out of the record, whose purpose is bounded by the epoch), and the
/// oldest-pointer moves to the next reservation. Returns the affected kind.
pub open spec fn spec_expire_buy(v: MarketView) -> (MarketView, Option<GoodKind>) {
    if v.buy_locks.len() > 0 && v.buy_locks[0].at + MAX_LOCK_TIME < v.time {
        let l = v.buy_locks[0];
        let rest = v.buy_locks.remove(0);
        let e = v.entry(l.good.kind);
        let v2 = v.with_entry(
            l.good.kind,
            GoodInfo { held: (e.held + l.good.amount) as u64, ..e },
        );
        (MarketView {
            buy_locks: rest,
            oldest_buy: if rest.len() == 0 {
                None
            } else {
                Some(OldestMark { at: rest[0].at, token: rest[0].token })
            },
            expired: if l.token.tick == l.at {
                v.expired.push(l.token)
            } else {
                v.expired
            },
            ..v2
        }, Some(l.good.kind))
    } else {
        (v, None)
    }
}

/// One sell-side expiry step: the pre-paid EUR is merged back.
pub open spec fn spec_expire_sell(v: MarketView) -> MarketView {
    if v.sell_locks.len() > 0 && v.sell_locks[0].at + MAX_LOCK_TIME < v.time {
        let l = v.sell_locks[0];
        let rest = v.sell_locks.remove(0);
        let e = v.eur;
        MarketView {
            eur: GoodInfo { held: (e.held + l.eur.amount) as u64, ..e },
            sell_locks: rest,
            oldest_sell: if rest.len() == 0 {
                None
            } else {
                Some(OldestMark { at: rest[0].at, token: rest[0].token })
            },
            expired: if l.token.tick == l.at {
                v.expired.push(l.token)
            } else {
                v.expired
            },
            ..v
        }
    } else {
        v
    }
}

/// The whole expiry sweep of one clock advance: at most one reservation of
/// each side goes, and a non-EUR kind whose held amount changed is repriced
/// once, between the two sides as the sweep reaches it.
pub open spec fn spec_sweep(v: MarketView) -> MarketView {
    let pr = spec_expire_buy(v);
    let v1 = match pr.1 {
        Some(k) => if k != GoodKind::Eur {
            spec_reprice(pr.0, k)
        } else {
            pr.0
        },
        None => pr.0,
    };
    spec_expire_sell(v1)
}

/// The shift a clock renormalization applies: the minimum creation tick
/// over the active reservations.
pub open spec fn spec_renorm_delta(v: MarketView) -> int {
    if v.buy_locks.len() == 0 {
        v.sell_locks[0].at as int
    } else if v.sell_locks.len() == 0 {
        v.buy_locks[0].at as int
    } else if v.buy_locks[0].at <= v.sell_locks[0].at {
        v.buy_locks[0].at as int
    } else {
        v.sell_locks[0].at as int
    }
}

/// Clock renormalization: when the clock has reached its maximum, the
/// minimum reservation age is subtracted from the clock, every
/// reservation's epoch-local age and the cached oldest-pointers, and the
/// expired-token record is cleared, since its distinguishing purpose is
/// bounded by the clock epoch. With no reservations the clock simply
/// restarts at zero.
pub open spec fn spec_renorm(v: MarketView) -> MarketView {
    if v.time < u64::MAX {
        v
    } else if v.buy_locks.len() == 0 && v.sell_locks.len() == 0 {
        MarketView { time: 0, expired: Seq::empty(), ..v }
    } else {
        let delta = spec_renorm_delta(v);
        MarketView {
            time: (v.time - delta) as u64,
            buy_locks: v.buy_locks.map_values(
                |l: BuyLock| BuyLock { at: (l.at - delta) as u64, ..l },
            ),
            sell_locks: v.sell_locks.map_values(
                |l: SellLock| SellLock { at: (l.at - delta) as u64, ..l },
            ),
            oldest_buy: match v.oldest_buy {
                Some(m) => Some(OldestMark { at: (m.at - delta) as u64, token: m.token }),
                None => None,
            },
            oldest_sell: match v.oldest_sell {
                Some(m) => Some(OldestMark { at: (m.at - delta) as u64, token: m.token }),
                None => None,
            },
            expired: Seq::empty(),
            ..v
        }
    }
}

/// All rebalancing roles forgotten.
pub open spec fn spec_reset_roles(v: MarketView) -> MarketView {
    MarketView {
        eur: GoodInfo { role: Role::Unknown, ..v.eur },
        usd: GoodInfo { role: Role::Unknown, ..v.usd },
        yen: GoodInfo { role: Role::Unknown, ..v.yen },
        yuan: GoodInfo { role: Role::Unknown, ..v.yuan },
        ..v
    }
}

/// The EUR-terms quantity of one kind's held amount.
pub open spec fn spec_rq(v: MarketView, k: GoodKind) -> int {
    spec_to_eur(k, v.entry(k).held as int)
}

/// Select one of the four running EUR-terms quantities by kind.
pub open spec fn spec_rq_sel(re: int, ru: int, ry: int, ryu: int, k: GoodKind) -> int {
    match k {
        GoodKind::Eur => re,
        GoodKind::Usd => ru,
        GoodKind::Yen => ry,
        GoodKind::Yuan => ryu,
    }
}

/// A minimum-candidate fold step: take the new kind when it qualifies and
/// strictly undercuts the candidate so far (the earlier kind wins ties).
pub open spec fn spec_pick_min(
    c: Option<(GoodKind, int)>, k: GoodKind, q: int, ok: bool,
) -> Option<(GoodKind, int)> {
    if !ok {
        c
    } else {
        match c {
            None => Some((k, q)),
            Some(p) => if q < p.1 {
                Some((k, q))
            } else {
                c
            },
        }
    }
}

/// A maximum-candidate fold step.
pub open spec fn spec_pick_max(
    c: Option<(GoodKind, int)>, k: GoodKind, q: int, ok: bool,
) -> Option<(GoodKind, int)> {
    if !ok {
        c
    } else {
        match c {
            None => Some((k, q)),
            Some(p) => if q > p.1 {
                Some((k, q))
            } else {
                c
            },
        }
    }
}

/// The suffering good of a rebalancing step: the lowest EUR-terms quantity
/// strictly under the mean among kinds not currently exporting, walked in
/// the fixed kind order EUR, USD, YEN, YUAN (the earlier kind wins ties).
pub open spec fn spec_pick_suffering(
    v: MarketView, re: int, ru: int, ry: int, ryu: int, mean: int,
) -> Option<(GoodKind, int)> {
    let c0 = spec_pick_min(None, GoodKind::Eur, re,
        re < mean && v.eur.role != Role::Exporting);
    let c1 = spec_pick_min(c0, GoodKind::Usd, ru,
        ru < mean && v.usd.role != Role::Exporting);
    let c2 = spec_pick_min(c1, GoodKind::Yen, ry,
        ry < mean && v.yen.role != Role::Exporting);
    spec_pick_min(c2, GoodKind::Yuan, ryu,
        ryu < mean && v.yuan.role != Role::Exporting)
}

/// The eligible good of a rebalancing step: the highest EUR-terms quantity
/// strictly over the mean among kinds not currently importing.
pub open spec fn spec_pick_eligible(
    v: MarketView, re: int, ru: int, ry: int, ryu: int, mean: int,
) -> Option<(GoodKind, int)> {
    let c0 = spec_pick_max(None, GoodKind::Eur, re,
        re > mean && v.eur.role != Role::Importing);
    let c1 = spec_pick_max(c0, GoodKind::Usd, ru,
        ru > mean && v.usd.role != Role::Importing);
    let c2 = spec_pick_max(c1, GoodKind::Yen, ry,
        ry > mean && v.yen.role != Role::Importing);
    spec_pick_max(c2, GoodKind::Yuan, ryu,
        ryu > mean && v.yuan.role != Role::Importing)
}

/// The state with the role of a non-EUR kind replaced (EUR never takes a
/// role).
pub open spec fn spec_mark_role(v: MarketView, k: GoodKind, r: Role) -> MarketView {
    if k == GoodKind::Eur {
        v
    } else {
        let e = v.entry(k);
        v.with_entry(k, GoodInfo { role: r, ..e })
    }
}

/// One rebalancing transfer: `split_n` native units leave the eligible
/// kind's ledger, `merge_n` native units enter the suffering kind's, and
/// the conservation ledger records both flows.
pub open spec fn spec_transfer(
    v: MarketView, s: GoodKind, e: GoodKind, split_n: int, merge_n: int,
) -> MarketView {
    let ee = v.entry(e);
    let v2 = v.with_entry(e, GoodInfo { held: (ee.held - split_n) as u64, ..ee });
    let es = v2.entry(s);
    let v3 = v2.with_entry(s, GoodInfo { held: (es.held + merge_n) as u64, ..es });
    MarketView { flows: v3.flows.add_out(e, split_n).add_in(s, merge_n), ..v3 }
}

/// One iteration of the rebalancing pass plus the rest of it, driven by
/// the running EUR-terms quantities. When a suffering/eligible pair is
/// found, the suffering kind is marked importing and the eligible kind
/// exporting; the EUR-terms distance to fill is the smaller of the two
/// gaps to the mean; the distance is converted to each side's native
/// amount and moved by a split and a merge. A transfer whose native
/// amounts would underflow the eligible ledger entry or overflow the
/// suffering one stops the pass (the fixed-point grid cannot represent
/// it); the pass also ends when no pair remains.
pub open spec fn spec_rebalance_rec(
    v: MarketView, re: int, ru: int, ry: int, ryu: int, mean: int, fuel: nat,
) -> MarketView
    decreases fuel,
{
    if fuel == 0 {
        v
    } else {
        let suf = spec_pick_suffering(v, re, ru, ry, ryu, mean);
        let eli = spec_pick_eligible(v, re, ru, ry, ryu, mean);
        match (suf, eli) {
            (Some(sp), Some(ep)) => {
                let s = sp.0;
                let e = ep.0;
                let rqs = spec_rq_sel(re, ru, ry, ryu, s);
                let rqe = spec_rq_sel(re, ru, ry, ryu, e);
                let d = if mean - rqs <= rqe - mean {
                    mean - rqs
                } else {
                    rqe - mean
                };
                let split_n = spec_from_eur(e, d);
                let merge_n = spec_from_eur(s, d);
                let v1 = spec_mark_role(
                    spec_mark_role(v, s, Role::Importing),
                    e,
                    Role::Exporting,
                );
                if split_n > v1.entry(e).held
                    || merge_n + v1.entry(s).held + v1.locked(s) > u64::MAX {
                    v1
                } else {
                    let rq2 = spec_rq_upd(re, ru, ry, ryu, s, d);
                    let rq3 = spec_rq_upd(rq2.0, rq2.1, rq2.2, rq2.3, e, -d);
                    spec_rebalance_rec(
                        spec_transfer(v1, s, e, split_n, merge_n),
                        rq3.0, rq3.1, rq3.2, rq3.3, mean, (fuel - 1) as nat,
                    )
                }
            },
            _ => v,
        }
    }
}

/// The running quantities with `d` added to kind `k`.
pub open spec fn spec_rq_upd(
    re: int, ru: int, ry: int, ryu: int, k: GoodKind, d: int,
) -> (int, int, int, int) {
    match k {
        GoodKind::Eur => (re + d, ru, ry, ryu),
        GoodKind::Usd => (re, ru + d, ry, ryu),
        GoodKind::Yen => (re, ru, ry + d, ryu),
        GoodKind::Yuan => (re, ru, ry, ryu + d),
    }
}

/// A whole rebalancing pass: the running quantities start from the held
/// amounts in EUR terms, the mean is their average over all four kinds.
pub open spec fn spec_rebalance(v: MarketView) -> MarketView {
    let re = spec_rq(v, GoodKind::Eur);
    let ru = spec_rq(v, GoodKind::Usd);
    let ry = spec_rq(v, GoodKind::Yen);
    let ryu = spec_rq(v, GoodKind::Yuan);
    let mean = (re + ru + ry + ryu) / 4;
    spec_rebalance_rec(v, re, ru, ry, ryu, mean, 4)
}

/// The freshly initialized market: the given quantities are both held and
/// initial, EUR is pinned at 1:1, the pricing mean is the average EUR
/// value of the three traded goods' endowments (rounded up, so that no
/// single endowment exceeds three times the mean), and the three traded
/// goods are priced from it once.
pub open spec fn spec_init(eur: u64, yen: u64, usd: u64, yuan: u64) -> MarketView {
    spec_reprice(
        spec_reprice(spec_reprice(spec_init_base(eur, yen, usd, yuan), GoodKind::Usd), GoodKind::Yen),
        GoodKind::Yuan,
    )
}

/// The initialized market before its first repricing.
pub open spec fn spec_init_base(eur: u64, yen: u64, usd: u64, yuan: u64) -> MarketView {
    let mean = ((spec_to_eur(GoodKind::Usd, usd as int)
        + spec_to_eur(GoodKind::Yen, yen as int)
        + spec_to_eur(GoodKind::Yuan, yuan as int) + 2) / 3) as u64;
    MarketView {
        time: 0,
        mean,
        eur: GoodInfo {
            held: eur, buy_rate: SCALE, sell_rate: SCALE, initial: eur, role: Role::Unknown,
        },
        usd: GoodInfo { held: usd, buy_rate: 0, sell_rate: 0, initial: usd, role: Role::Unknown },
        yen: GoodInfo { held: yen, buy_rate: 0, sell_rate: 0, initial: yen, role: Role::Unknown },
        yuan: GoodInfo {
            held: yuan, buy_rate: 0, sell_rate: 0, initial: yuan, role: Role::Unknown,
        },
        buy_locks: Seq::empty(),
        sell_locks: Seq::empty(),
        oldest_buy: None,
        oldest_sell: None,
        expired: Seq::empty(),
        events: Seq::empty(),
        flows: Flows::zero(),
    }
}

/// Pushing a reservation adds its contribution to the per-kind sum.
pub proof fn lemma_buy_sum_push(s: Seq<BuyLock>, l: BuyLock, k: GoodKind)
    ensures
        spec_buy_sum(s.push(l), k) == spec_buy_sum(s, k) + if l.good.kind == k {
            l.good.amount as int
        } else {
            0int
        },
{
    assert(s.push(l).drop_last() =~= s);
    assert(s.push(l).last() == l);
}

/// Removing a reservation subtracts its contribution from the per-kind sum.
pub proof fn lemma_buy_sum_remove(s: Seq<BuyLock>, i: int, k: GoodKind)
    requires
        0 <= i < s.len(),
    ensures
        spec_buy_sum(s.remove(i), k) == spec_buy_sum(s, k) - if s[i].good.kind == k {
            s[i].good.amount as int
        } else {
            0int
        },
    decreases s.len(),
{
    if i == s.len() - 1 {
        assert(s.remove(i) =~= s.drop_last());
    } else {
        assert(s.remove(i).drop_last() =~= s.drop_last().remove(i));
        assert(s.remove(i).last() == s.last());
        lemma_buy_sum_remove(s.drop_last(), i, k);
    }
}

/// The per-kind sum is never negative.
pub proof fn lemma_buy_sum_nonneg(s: Seq<BuyLock>, k: GoodKind)
    ensures
        spec_buy_sum(s, k) >= 0,
    decreases s.len(),
{
    if s.len() > 0 {
        lemma_buy_sum_nonneg(s.drop_last(), k);
    }
}

/// Pushing a sell reservation adds its EUR to the sum.
pub proof fn lemma_sell_sum_push(s: Seq<SellLock>, l: SellLock)
    ensures
        spec_sell_sum(s.push(l)) == spec_sell_sum(s) + l.eur.amount,
{
    assert(s.push(l).drop_last() =~= s);
    assert(s.push(l).last() == l);
}

/// Removing a sell reservation subtracts its EUR from the sum.
pub proof fn lemma_sell_sum_remove(s: Seq<SellLock>, i: int)
    requires
        0 <= i < s.len(),
    ensures
        spec_sell_sum(s.remove(i)) == spec_sell_sum(s) - s[i].eur.amount,
    decreases s.len(),
{
    if i == s.len() - 1 {
        assert(s.remove(i) =~= s.drop_last());
    } else {
        assert(s.remove(i).drop_last() =~= s.drop_last().remove(i));
        assert(s.remove(i).last() == s.last());
        lemma_sell_sum_remove(s.drop_last(), i);
    }
}

/// The EUR sum is never negative.
pub proof fn lemma_sell_sum_nonneg(s: Seq<SellLock>)
    ensures
        spec_sell_sum(s) >= 0,
    decreases s.len(),
{
    if s.len() > 0 {
        lemma_sell_sum_nonneg(s.drop_last());
    }
}

/// A prefix sum never exceeds the whole sum.
pub proof fn lemma_buy_sum_prefix(s: Seq<BuyLock>, j: int, k: GoodKind)
    requires
        0 <= j <= s.len(),
    ensures
        spec_buy_sum(s.subrange(0, j), k) <= spec_buy_sum(s, k),
    decreases s.len() - j,
{
    if j == s.len() {
        assert(s.subrange(0, j) =~= s);
    } else {
        assert(s.subrange(0, j + 1) =~= s.subrange(0, j).push(s[j]));
        lemma_buy_sum_push(s.subrange(0, j), s[j], k);
        lemma_buy_sum_prefix(s, j + 1, k);
    }
}

/// One reservation's contribution never exceeds the whole sum.
pub proof fn lemma_buy_sum_elem(s: Seq<BuyLock>, i: int, k: GoodKind)
    requires
        0 <= i < s.len(),
        s[i].good.kind == k,
    ensures
        s[i].good.amount <= spec_buy_sum(s, k),
{
    lemma_buy_sum_remove(s, i, k);
    lemma_buy_sum_nonneg(s.remove(i), k);
}

/// Shifting reservation ages leaves the per-kind sum alone.
pub proof fn lemma_buy_sum_shift(s: Seq<BuyLock>, f: spec_fn(BuyLock) -> BuyLock, k: GoodKind)
    requires
        forall|l: BuyLock| (#[trigger] f(l)).good == l.good,
    ensures
        spec_buy_sum(s.map_values(f), k) == spec_buy_sum(s, k),
    decreases s.len(),
{
    if s.len() > 0 {
        assert(s.map_values(f).drop_last() =~= s.drop_last().map_values(f));
        assert(s.map_values(f).last() == f(s.last()));
        lemma_buy_sum_shift(s.drop_last(), f, k);
    }
}

/// A prefix EUR sum never exceeds the whole sum.
pub proof fn lemma_sell_sum_prefix(s: Seq<SellLock>, j: int)
    requires
        0 <= j <= s.len(),
    ensures
        spec_sell_sum(s.subrange(0, j)) <= spec_sell_sum(s),
    decreases s.len() - j,
{
    if j == s.len() {
        assert(s.subrange(0, j) =~= s);
    } else {
        assert(s.subrange(0, j + 1) =~= s.subrange(0, j).push(s[j]));
        lemma_sell_sum_push(s.subrange(0, j), s[j]);
        lemma_sell_sum_prefix(s, j + 1);
    }
}

/// One reservation's EUR never exceeds the whole sum.
pub proof fn lemma_sell_sum_elem(s: Seq<SellLock>, i: int)
    requires
        0 <= i < s.len(),
    ensures
        s[i].eur.amount <= spec_sell_sum(s),
{
    lemma_sell_sum_remove(s, i);
    lemma_sell_sum_nonneg(s.remove(i));
}

/// Shifting reservation ages leaves the EUR sum alone.
pub proof fn lemma_sell_sum_shift(s: Seq<SellLock>, f: spec_fn(SellLock) -> SellLock)
    requires
        forall|l: SellLock| (#[trigger] f(l)).eur == l.eur,
    ensures
        spec_sell_sum(s.map_values(f)) == spec_sell_sum(s),
    decreases s.len(),
{
    if s.len() > 0 {
        assert(s.map_values(f).drop_last() =~= s.drop_last().map_values(f));
        assert(s.map_values(f).last() == f(s.last()));
        lemma_sell_sum_shift(s.drop_last(), f);
    }
}

/// In a strictly sorted reservation list the i-th age is at least i over
/// the first.
pub proof fn lemma_buy_gap(s: Seq<BuyLock>, i: int)
    requires
        forall|a: int, b: int| 0 <= a < b < s.len() ==> s[a].at < s[b].at,
        0 <= i < s.len(),
    ensures
        s[i].at >= s[0].at + i,
    decreases i,
{
    if i > 0 {
        lemma_buy_gap(s, i - 1);
    }
}

/// In a strictly sorted sell reservation list the i-th age is at least i
/// over the first.
pub proof fn lemma_sell_gap(s: Seq<SellLock>, i: int)
    requires
        forall|a: int, b: int| 0 <= a < b < s.len() ==> s[a].at < s[b].at,
        0 <= i < s.len(),
    ensures
        s[i].at >= s[0].at + i,
    decreases i,
{
    if i > 0 {
        lemma_sell_gap(s, i - 1);
    }
}

/// When a token names an active buy reservation, its index is in range,
/// names it, and is the first to do so.
pub proof fn lemma_buy_idx(s: Seq<BuyLock>, t: Token)
    requires
        exists|i: int| 0 <= i < s.len() && (#[trigger] s[i]).token == t,
    ensures
        0 <= spec_buy_idx(s, t) < s.len(),
        s[spec_buy_idx(s, t)].token == t,
        forall|j: int| 0 <= j < spec_buy_idx(s, t) ==> (#[trigger] s[j]).token != t,
    decreases s.len(),
{
    if s.len() > 0 && s[0].token != t {
        let w = choose|i: int| 0 <= i < s.len() && (#[trigger] s[i]).token == t;
        assert(s.drop_first()[w - 1].token == t);
        lemma_buy_idx(s.drop_first(), t);
        assert forall|j: int| 0 <= j < spec_buy_idx(s, t)
            implies (#[trigger] s[j]).token != t by {
            if j > 0 {
                assert(s.drop_first()[j - 1].token != t);
            }
        }
    }
}

/// When a token names an active sell reservation, its index is in range,
/// names it, and is the first to do so.
pub proof fn lemma_sell_idx(s: Seq<SellLock>, t: Token)
    requires
        exists|i: int| 0 <= i < s.len() && (#[trigger] s[i]).token == t,
    ensures
        0 <= spec_sell_idx(s, t) < s.len(),
        s[spec_sell_idx(s, t)].token == t,
        forall|j: int| 0 <= j < spec_sell_idx(s, t) ==> (#[trigger] s[j]).token != t,
    decreases s.len(),
{
    if s.len() > 0 && s[0].token != t {
        let w = choose|i: int| 0 <= i < s.len() && (#[trigger] s[i]).token == t;
        assert(s.drop_first()[w - 1].token == t);
        lemma_sell_idx(s.drop_first(), t);
        assert forall|j: int| 0 <= j < spec_sell_idx(s, t)
            implies (#[trigger] s[j]).token != t by {
            if j > 0 {
                assert(s.drop_first()[j - 1].token != t);
            }
        }
    }
}

/// Renormalizing a well-formed exhausted clock yields a well-formed state
/// whose clock is far from the maximum again.
pub proof fn lemma_renorm_wf(v: MarketView)
    requires
        v.wf_core(),
        v.time == u64::MAX,
        v.buy_locks.len() > 0 || v.sell_locks.len() > 0,
    ensures
        spec_renorm(v).wf_core(),
        spec_renorm(v).time <= 13,
{
    let w = spec_renorm(v);
    let delta = spec_renorm_delta(v);
    assert(v.buy_locks.len() > 0 ==> v.buy_locks[0].at + MAX_LOCK_TIME + 1 >= v.time);
    assert(v.sell_locks.len() > 0 ==> v.sell_locks[0].at + MAX_LOCK_TIME + 1 >= v.time);
    assert(delta >= v.time - 13);
    assert(v.buy_locks.len() > 0 ==> delta <= v.buy_locks[0].at);
    assert(v.sell_locks.len() > 0 ==> delta <= v.sell_locks[0].at);
    let fb = |l: BuyLock| BuyLock { at: (l.at - delta) as u64, ..l };
    let fs = |l: SellLock| SellLock { at: (l.at - delta) as u64, ..l };
    assert(w.buy_locks == v.buy_locks.map_values(fb));
    assert(w.sell_locks == v.sell_locks.map_values(fs));
    assert forall|i: int| 0 <= i < v.buy_locks.len()
        implies v.buy_locks[i].at >= delta by {
        if i > 0 {
            assert(v.buy_locks[0].at < v.buy_locks[i].at);
        }
    }
    assert forall|i: int| 0 <= i < v.sell_locks.len()
        implies v.sell_locks[i].at >= delta by {
        if i > 0 {
            assert(v.sell_locks[0].at < v.sell_locks[i].at);
        }
    }
    assert forall|i: int| 0 <= i < w.buy_locks.len()
        implies #[trigger] w.buy_locks[i] == fb(v.buy_locks[i]) by {}
    assert forall|i: int| 0 <= i < w.sell_locks.len()
        implies #[trigger] w.sell_locks[i] == fs(v.sell_locks[i]) by {}
    lemma_buy_sum_shift(v.buy_locks, fb, GoodKind::Eur);
    lemma_buy_sum_shift(v.buy_locks, fb, GoodKind::Usd);
    lemma_buy_sum_shift(v.buy_locks, fb, GoodKind::Yen);
    lemma_buy_sum_shift(v.buy_locks, fb, GoodKind::Yuan);
    lemma_sell_sum_shift(v.sell_locks, fs);
    assert(w.wf_goods());
    assert forall|i: int| 0 <= i < w.buy_locks.len()
        implies (#[trigger] w.buy_locks[i].token).tick == w.buy_locks[i].at
            || (w.buy_locks[i].token.tick >= SHIFTED_TICK_MIN
                && w.buy_locks[i].at <= SHIFTED_AT_MAX) by {
        assert(v.buy_locks[i].at + MAX_LOCK_TIME + 1 + i >= v.time);
        assert(v.buy_locks[i].at >= u64::MAX - 17);
        assert(v.buy_locks[i].token.tick == v.buy_locks[i].at);
        assert(w.buy_locks[i].at <= u64::MAX - delta);
    }
    assert forall|i: int| 0 <= i < w.sell_locks.len()
        implies (#[trigger] w.sell_locks[i].token).tick == w.sell_locks[i].at
            || (w.sell_locks[i].token.tick >= SHIFTED_TICK_MIN
                && w.sell_locks[i].at <= SHIFTED_AT_MAX) by {
        assert(v.sell_locks[i].at + MAX_LOCK_TIME + 1 + i >= v.time);
        assert(v.sell_locks[i].at >= u64::MAX - 17);
        assert(v.sell_locks[i].token.tick == v.sell_locks[i].at);
        assert(w.sell_locks[i].at <= u64::MAX - delta);
    }
    assert(w.wf_buy_core());
    assert(w.wf_sell_core());
    assert(w.wf_expired());
}

/// The buy-side expiry step preserves well-formedness, leaves the clock,
/// the mean and the sell side alone, and leaves every remaining buy
/// reservation young enough for the coming tick.
pub proof fn lemma_expire_buy_wf(v: MarketView)
    requires
        v.wf_core(),
    ensures
        spec_expire_buy(v).0.wf_core(),
        spec_expire_buy(v).0.time == v.time,
        spec_expire_buy(v).0.mean == v.mean,
        spec_expire_buy(v).0.sell_locks == v.sell_locks,
        forall|i: int| 0 <= i < spec_expire_buy(v).0.buy_locks.len()
            ==> (#[trigger] spec_expire_buy(v).0.buy_locks[i]).at + MAX_LOCK_TIME + i
                >= spec_expire_buy(v).0.time,
{
    let w = spec_expire_buy(v).0;
    if v.buy_locks.len() > 0 && v.buy_locks[0].at + MAX_LOCK_TIME < v.time {
        let l = v.buy_locks[0];
        let rest = v.buy_locks.remove(0);
        assert(rest =~= v.buy_locks.subrange(1, v.buy_locks.len() as int));
        assert forall|i: int| 0 <= i < rest.len()
            implies #[trigger] rest[i] == v.buy_locks[i + 1] by {}
        lemma_buy_sum_remove(v.buy_locks, 0, GoodKind::Eur);
        lemma_buy_sum_remove(v.buy_locks, 0, GoodKind::Usd);
        lemma_buy_sum_remove(v.buy_locks, 0, GoodKind::Yen);
        lemma_buy_sum_remove(v.buy_locks, 0, GoodKind::Yuan);
        lemma_buy_sum_elem(v.buy_locks, 0, l.good.kind);
        lemma_sell_sum_nonneg(v.sell_locks);
        assert(w.wf_goods());
        assert forall|i: int| 0 <= i < rest.len()
            implies #[trigger] rest[i].at + MAX_LOCK_TIME + i >= w.time by {
            lemma_buy_gap(v.buy_locks, i + 1);
        }
        assert(w.wf_buy_core());
        assert(w.wf_sell_core());
        assert(w.wf_expired());
    } else {
        assert forall|i: int| 0 <= i < w.buy_locks.len()
            implies #[trigger] w.buy_locks[i].at + MAX_LOCK_TIME + i >= w.time by {
            lemma_buy_gap(v.buy_locks, i);
        }
    }
}

/// The sell-side expiry step preserves well-formedness, leaves the clock,
/// the mean and the buy side alone, and leaves every remaining sell
/// reservation young enough for the coming tick.
pub proof fn lemma_expire_sell_wf(v: MarketView)
    requires
        v.wf_core(),
    ensures
        spec_expire_sell(v).wf_core(),
        spec_expire_sell(v).time == v.time,
        spec_expire_sell(v).mean == v.mean,
        spec_expire_sell(v).buy_locks == v.buy_locks,
        forall|i: int| 0 <= i < spec_expire_sell(v).sell_locks.len()
            ==> (#[trigger] spec_expire_sell(v).sell_locks[i]).at + MAX_LOCK_TIME + i
                >= spec_expire_sell(v).time,
{
    let w = spec_expire_sell(v);
    if v.sell_locks.len() > 0 && v.sell_locks[0].at + MAX_LOCK_TIME < v.time {
        let l = v.sell_locks[0];
        let rest = v.sell_locks.remove(0);
        assert(rest =~= v.sell_locks.subrange(1, v.sell_locks.len() as int));
        assert forall|i: int| 0 <= i < rest.len()
            implies #[trigger] rest[i] == v.sell_locks[i + 1] by {}
        lemma_sell_sum_remove(v.sell_locks, 0);
        lemma_sell_sum_elem(v.sell_locks, 0);
        lemma_buy_sum_nonneg(v.buy_locks, GoodKind::Eur);
        assert(w.wf_goods());
        assert forall|i: int| 0 <= i < rest.len()
            implies #[trigger] rest[i].at + MAX_LOCK_TIME + i >= w.time by {
            lemma_sell_gap(v.sell_locks, i + 1);
        }
        assert(w.wf_buy_core());
        assert(w.wf_sell_core());
        assert(w.wf_expired());
    } else {
        assert forall|i: int| 0 <= i < w.sell_locks.len()
            implies #[trigger] w.sell_locks[i].at + MAX_LOCK_TIME + i >= w.time by {
            lemma_sell_gap(v.sell_locks, i);
        }
    }
}

/// How many of the running quantities are away from the mean; the
/// rebalancing pass brings one to the mean per iteration, which bounds the
/// pass.
pub open spec fn spec_nonmean(re: int, ru: int, ry: int, ryu: int, mean: int) -> nat {
    ((if re != mean { 1int } else { 0int }) + (if ru != mean { 1int } else { 0int })
        + (if ry != mean { 1int } else { 0int }) + (if ryu != mean { 1int } else { 0int })) as nat
}

/// What the suffering pick guarantees: it names one of the running
/// quantities, strictly under the mean, of a kind that is not exporting.
pub proof fn lemma_pick_suffering_props(
    v: MarketView, re: int, ru: int, ry: int, ryu: int, mean: int,
)
    ensures
        spec_pick_suffering(v, re, ru, ry, ryu, mean) matches Some(p)
            ==> p.1 == spec_rq_sel(re, ru, ry, ryu, p.0) && p.1 < mean
                && v.entry(p.0).role != Role::Exporting,
{
}

/// What the eligible pick guarantees: it names one of the running
/// quantities, strictly over the mean, of a kind that is not importing.
pub proof fn lemma_pick_eligible_props(
    v: MarketView, re: int, ru: int, ry: int, ryu: int, mean: int,
)
    ensures
        spec_pick_eligible(v, re, ru, ry, ryu, mean) matches Some(p)
            ==> p.1 == spec_rq_sel(re, ru, ry, ryu, p.0) && p.1 > mean
                && v.entry(p.0).role != Role::Importing,
{
}

/// Marking the two roles of a rebalancing pair preserves well-formedness
/// and changes nothing but roles.
#[verifier::rlimit(100)]
pub proof fn lemma_mark2_wf(v: MarketView, s: GoodKind, e: GoodKind)
    requires
        v.wf(),
    ensures
        ({
            let m = spec_mark_role(spec_mark_role(v, s, Role::Importing), e, Role::Exporting);
            &&& m.wf()
            &&& m.buy_locks == v.buy_locks
            &&& m.sell_locks == v.sell_locks
            &&& m.time == v.time
            &&& forall|k: GoodKind| (#[trigger] m.entry(k)).held == v.entry(k).held
        }),
{
    let m = spec_mark_role(spec_mark_role(v, s, Role::Importing), e, Role::Exporting);
    assert(m.conserved(GoodKind::Eur) && m.conserved(GoodKind::Usd)
        && m.conserved(GoodKind::Yen) && m.conserved(GoodKind::Yuan));
    assert(m.wf_goods());
    assert(m.wf_buy_core());
    assert(m.wf_sell_core());
    assert(m.wf_expired());
}

/// A guarded rebalancing transfer preserves well-formedness.
#[verifier::rlimit(100)]
pub proof fn lemma_transfer_wf(
    v: MarketView, s: GoodKind, e: GoodKind, split_n: int, merge_n: int,
)
    requires
        v.wf(),
        s != e,
        0 <= split_n <= v.entry(e).held,
        0 <= merge_n,
        merge_n + v.entry(s).held + v.locked(s) <= u64::MAX,
    ensures
        spec_transfer(v, s, e, split_n, merge_n).wf(),
        spec_transfer(v, s, e, split_n, merge_n).time == v.time,
        spec_transfer(v, s, e, split_n, merge_n).buy_locks == v.buy_locks,
        spec_transfer(v, s, e, split_n, merge_n).sell_locks == v.sell_locks,
{
    let w = spec_transfer(v, s, e, split_n, merge_n);
    lemma_buy_sum_nonneg(v.buy_locks, s);
    lemma_sell_sum_nonneg(v.sell_locks);
    assert(w.conserved(GoodKind::Eur)) by {
        assert(v.conserved(GoodKind::Eur));
        assert(w.locked(GoodKind::Eur) == v.locked(GoodKind::Eur));
        if e == GoodKind::Eur {
            assert(w.entry(GoodKind::Eur).held == v.entry(GoodKind::Eur).held - split_n);
            assert(w.flows.outflow(GoodKind::Eur) == v.flows.outflow(GoodKind::Eur) + split_n);
            assert(w.flows.inflow(GoodKind::Eur) == v.flows.inflow(GoodKind::Eur));
        } else if s == GoodKind::Eur {
            assert(w.entry(GoodKind::Eur).held == v.entry(GoodKind::Eur).held + merge_n);
            assert(w.flows.inflow(GoodKind::Eur) == v.flows.inflow(GoodKind::Eur) + merge_n);
            assert(w.flows.outflow(GoodKind::Eur) == v.flows.outflow(GoodKind::Eur));
        } else {
            assert(w.entry(GoodKind::Eur) == v.entry(GoodKind::Eur));
            assert(w.flows.inflow(GoodKind::Eur) == v.flows.inflow(GoodKind::Eur));
            assert(w.flows.outflow(GoodKind::Eur) == v.flows.outflow(GoodKind::Eur));
        }
    }
    assert(w.conserved(GoodKind::Usd)) by {
        assert(v.conserved(GoodKind::Usd));
        assert(w.locked(GoodKind::Usd) == v.locked(GoodKind::Usd));
        if e == GoodKind::Usd {
            assert(w.entry(GoodKind::Usd).held == v.entry(GoodKind::Usd).held - split_n);
            assert(w.flows.outflow(GoodKind::Usd) == v.flows.outflow(GoodKind::Usd) + split_n);
            assert(w.flows.inflow(GoodKind::Usd) == v.flows.inflow(GoodKind::Usd));
        } else if s == GoodKind::Usd {
            assert(w.entry(GoodKind::Usd).held == v.entry(GoodKind::Usd).held + merge_n);
            assert(w.flows.inflow(GoodKind::Usd) == v.flows.inflow(GoodKind::Usd) + merge_n);
            assert(w.flows.outflow(GoodKind::Usd) == v.flows.outflow(GoodKind::Usd));
        } else {
            assert(w.entry(GoodKind::Usd) == v.entry(GoodKind::Usd));
            assert(w.flows.inflow(GoodKind::Usd) == v.flows.inflow(GoodKind::Usd));
            assert(w.flows.outflow(GoodKind::Usd) == v.flows.outflow(GoodKind::Usd));
        }
    }
    assert(w.conserved(GoodKind::Yen)) by {
        assert(v.conserved(GoodKind::Yen));
        assert(w.locked(GoodKind::Yen) == v.locked(GoodKind::Yen));
        if e == GoodKind::Yen {
            assert(w.entry(GoodKind::Yen).held == v.entry(GoodKind::Yen).held - split_n);
            assert(w.flows.outflow(GoodKind::Yen) == v.flows.outflow(GoodKind::Yen) + split_n);
            assert(w.flows.inflow(GoodKind::Yen) == v.flows.inflow(GoodKind::Yen));
        } else if s == GoodKind::Yen {
            assert(w.entry(GoodKind::Yen).held == v.entry(GoodKind::Yen).held + merge_n);
            assert(w.flows.inflow(GoodKind::Yen) == v.flows.inflow(GoodKind::Yen) + merge_n);
            assert(w.flows.outflow(GoodKind::Yen) == v.flows.outflow(GoodKind::Yen));
        } else {
            assert(w.entry(GoodKind::Yen) == v.entry(GoodKind::Yen));
            assert(w.flows.inflow(GoodKind::Yen) == v.flows.inflow(GoodKind::Yen));
            assert(w.flows.outflow(GoodKind::Yen) == v.flows.outflow(GoodKind::Yen));
        }
    }
    assert(w.conserved(GoodKind::Yuan)) by {
        assert(v.conserved(GoodKind::Yuan));
        assert(w.locked(GoodKind::Yuan) == v.locked(GoodKind::Yuan));
        if e == GoodKind::Yuan {
            assert(w.entry(GoodKind::Yuan).held == v.entry(GoodKind::Yuan).held - split_n);
            assert(w.flows.outflow(GoodKind::Yuan) == v.flows.outflow(GoodKind::Yuan) + split_n);
            assert(w.flows.inflow(GoodKind::Yuan) == v.flows.inflow(GoodKind::Yuan));
        } else if s == GoodKind::Yuan {
            assert(w.entry(GoodKind::Yuan).held == v.entry(GoodKind::Yuan).held + merge_n);
            assert(w.flows.inflow(GoodKind::Yuan) == v.flows.inflow(GoodKind::Yuan) + merge_n);
            assert(w.flows.outflow(GoodKind::Yuan) == v.flows.outflow(GoodKind::Yuan));
        } else {
            assert(w.entry(GoodKind::Yuan) == v.entry(GoodKind::Yuan));
            assert(w.flows.inflow(GoodKind::Yuan) == v.flows.inflow(GoodKind::Yuan));
            assert(w.flows.outflow(GoodKind::Yuan) == v.flows.outflow(GoodKind::Yuan));
        }
    }
    assert(w.wf_goods());
    assert(w.wf_buy_core());
    assert(w.wf_sell_core());
    assert(w.wf_expired());
}

/// Unfolding one rebalancing iteration: with a pair picked and enough
/// fuel, the pass either stops at the marked state (when the fixed-point
/// grid cannot represent the transfer) or continues from the transferred
/// state with one less fuel, which still covers the away-from-mean count.
pub proof fn lemma_rebalance_step(
    v: MarketView, re: int, ru: int, ry: int, ryu: int, mean: int, fuel: nat,
    s: GoodKind, e: GoodKind, sq: int, eq: int,
)
    requires
        fuel >= spec_nonmean(re, ru, ry, ryu, mean),
        spec_pick_suffering(v, re, ru, ry, ryu, mean) == Some((s, sq)),
        spec_pick_eligible(v, re, ru, ry, ryu, mean) == Some((e, eq)),
    ensures
        fuel >= 1,
        s != e,
        sq == spec_rq_sel(re, ru, ry, ryu, s),
        eq == spec_rq_sel(re, ru, ry, ryu, e),
        sq < mean < eq,
        ({
            let d = if mean - sq <= eq - mean { mean - sq } else { eq - mean };
            let split_n = spec_from_eur(e, d);
            let merge_n = spec_from_eur(s, d);
            let m = spec_mark_role(spec_mark_role(v, s, Role::Importing), e, Role::Exporting);
            let rq2 = spec_rq_upd(re, ru, ry, ryu, s, d);
            let rq3 = spec_rq_upd(rq2.0, rq2.1, rq2.2, rq2.3, e, -d);
            &&& (split_n > m.entry(e).held || merge_n + m.entry(s).held + m.locked(s) > u64::MAX)
                ==> spec_rebalance_rec(v, re, ru, ry, ryu, mean, fuel) == m
            &&& !(split_n > m.entry(e).held
                || merge_n + m.entry(s).held + m.locked(s) > u64::MAX)
                ==> spec_rebalance_rec(v, re, ru, ry, ryu, mean, fuel)
                    == spec_rebalance_rec(
                        spec_transfer(m, s, e, split_n, merge_n),
                        rq3.0, rq3.1, rq3.2, rq3.3, mean, (fuel - 1) as nat,
                    )
                    && (fuel - 1) >= spec_nonmean(rq3.0, rq3.1, rq3.2, rq3.3, mean)
        }),
{
    lemma_pick_suffering_props(v, re, ru, ry, ryu, mean);
    lemma_pick_eligible_props(v, re, ru, ry, ryu, mean);
    assert(spec_nonmean(re, ru, ry, ryu, mean) >= 1);
    let d = if mean - sq <= eq - mean { mean - sq } else { eq - mean };
    let rq2 = spec_rq_upd(re, ru, ry, ryu, s, d);
    let rq3 = spec_rq_upd(rq2.0, rq2.1, rq2.2, rq2.3, e, -d);
    assert(spec_rq_sel(rq3.0, rq3.1, rq3.2, rq3.3, s) == sq + d);
    assert(spec_rq_sel(rq3.0, rq3.1, rq3.2, rq3.3, e) == eq - d);
    assert(spec_nonmean(rq3.0, rq3.1, rq3.2, rq3.3, mean) + 1
        <= spec_nonmean(re, ru, ry, ryu, mean));
}

/// What `lock_buy` returns, for every input: the quote's failures mapped
/// to lock failures, then a non-positive bid, a full lock table, a bid
/// under the quote, and otherwise the fresh token.
pub open spec fn spec_lock_buy_result(
    v: MarketView, k: GoodKind, qty: int, bid: int, trader: u64,
) -> Result<Token, LockBuyError> {
    match spec_quote_buy(v, k, qty) {
        Err(MarketGetterError::NonPositiveQuantityAsked) => Err(
            LockBuyError::NonPositiveQuantityToBuy { negative_quantity_to_buy: qty as i64 },
        ),
        Err(MarketGetterError::InsufficientGoodQuantityAvailable {
            requested_good_kind,
            requested_good_quantity,
            available_good_quantity,
        }) => Err(LockBuyError::InsufficientGoodQuantityAvailable {
            requested_good_kind,
            requested_good_quantity,
            available_good_quantity,
        }),
        Ok(p) => if bid <= 0 {
            Err(LockBuyError::NonPositiveBid { negative_bid: bid as i64 })
        } else if v.buy_locks.len() >= MAX_LOCK_BUY_NUM {
            Err(LockBuyError::MaxAllowedLocksReached)
        } else if bid < p {
            Err(LockBuyError::BidTooLow {
                requested_good_kind: k,
                requested_good_quantity: qty as u64,
                low_bid: bid as u64,
                lowest_acceptable_bid: p,
            })
        } else {
            Ok(Token { side: Side::Buy, trader, tick: v.time })
        },
    }
}

/// What `lock_sell` returns, for every input.
pub open spec fn spec_lock_sell_result(
    v: MarketView, k: GoodKind, qty: int, offer: int, trader: u64,
) -> Result<Token, LockSellError> {
    match spec_quote_sell(v, k, qty) {
        Err(MarketGetterError::NonPositiveQuantityAsked) => Err(
            LockSellError::NonPositiveQuantityToSell { negative_quantity_to_sell: qty as i64 },
        ),
        Err(MarketGetterError::InsufficientGoodQuantityAvailable {
            requested_good_kind,
            requested_good_quantity,
            available_good_quantity,
        }) => Err(LockSellError::InsufficientDefaultGoodQuantityAvailable {
            offered_good_kind: requested_good_kind,
            offered_good_quantity: requested_good_quantity,
            available_good_quantity,
        }),
        Ok(p) => if offer <= 0 {
            Err(LockSellError::NonPositiveOffer { negative_offer: offer as i64 })
        } else if v.sell_locks.len() >= MAX_LOCK_SELL_NUM {
            Err(LockSellError::MaxAllowedLocksReached)
        } else if offer > p {
            Err(LockSellError::OfferTooHigh {
                offered_good_kind: k,
                offered_good_quantity: qty as u64,
                high_offer: offer as u64,
                highest_acceptable_offer: p,
            })
        } else {
            Ok(Token { side: Side::Sell, trader, tick: v.time })
        },
    }
}

/// The whole state change of a successful `lock_buy`: the insertion, a
/// clock advance with the drawn roll, and a repricing of the locked kind.
pub open spec fn spec_lock_buy_post(
    v: MarketView, k: GoodKind, qty: int, bid: int, trader: u64, roll: u64,
) -> MarketView {
    let v2 = spec_advance(spec_lock_buy_ins(v, k, qty, bid, trader), roll);
    if k != GoodKind::Eur {
        spec_reprice(v2, k)
    } else {
        v2
    }
}

/// The whole state change of a successful `lock_sell`.
pub open spec fn spec_lock_sell_post(
    v: MarketView, k: GoodKind, qty: int, offer: int, trader: u64, roll: u64,
) -> MarketView {
    let v2 = spec_advance(spec_lock_sell_ins(v, k, qty, offer, trader), roll);
    if k != GoodKind::Eur {
        spec_reprice(v2, k)
    } else {
        v2
    }
}

/// The whole state change of a successful `buy` of the reservation at
/// index `i`: the finalization and a clock advance.
pub open spec fn spec_buy_post(v: MarketView, i: int, roll: u64) -> MarketView {
    spec_advance(spec_buy_fin(v, i), roll)
}

/// The whole state change of a successful `sell` of the reservation at
/// index `i`: the finalization, a clock advance, and a repricing of the
/// delivered kind.
pub open spec fn spec_sell_post(v: MarketView, i: int, roll: u64) -> MarketView {
    let k = v.sell_locks[i].kind;
    let v2 = spec_advance(spec_sell_fin(v, i), roll);
    if k != GoodKind::Eur {
        spec_reprice(v2, k)
    } else {
        v2
    }
}

/// Repricing a kind whose new rates are in bounds preserves
/// well-formedness.
pub proof fn lemma_reprice_wf(v: MarketView, k: GoodKind)
    requires
        v.wf(),
        k != GoodKind::Eur,
        spec_reprice(v, k).rates_ok(k),
    ensures
        spec_reprice(v, k).wf(),
{
    let w = spec_reprice(v, k);
    assert(w.wf_goods());
    assert(w.wf_buy_core());
    assert(w.wf_sell_core());
    assert(w.wf_expired());
}

/// A fresh buy reservation leaves the market well-formed up to the clock
/// advance that follows it.
pub proof fn lemma_lock_buy_ins_wf(
    v: MarketView, k: GoodKind, qty: int, bid: int, trader: u64,
)
    requires
        v.wf(),
        spec_quote_buy(v, k, qty) is Ok,
        0 <= qty <= i64::MAX,
        0 < bid <= i64::MAX,
        v.buy_locks.len() < MAX_LOCK_BUY_NUM,
    ensures
        spec_lock_buy_ins(v, k, qty, bid, trader).wf_core(),
{
    let w = spec_lock_buy_ins(v, k, qty, bid, trader);
    let tok = Token { side: Side::Buy, trader, tick: v.time };
    let lock = BuyLock {
        token: tok,
        good: Good { kind: k, amount: qty as u64 },
        price: bid as u64,
        at: v.time,
    };
    crate::pricing::lemma_cap_le_initial(v.entry(k).initial as int, MIN_GOOD_PCT as int);
    lemma_buy_sum_push(v.buy_locks, lock, GoodKind::Eur);
    lemma_buy_sum_push(v.buy_locks, lock, GoodKind::Usd);
    lemma_buy_sum_push(v.buy_locks, lock, GoodKind::Yen);
    lemma_buy_sum_push(v.buy_locks, lock, GoodKind::Yuan);
    assert(w.wf_goods());
    assert forall|i: int, j: int|
        0 <= i < w.buy_locks.len() && 0 <= j < w.buy_locks.len() && i != j
            implies (#[trigger] w.buy_locks[i].token) != (#[trigger] w.buy_locks[j].token) by {
        if i < v.buy_locks.len() && j < v.buy_locks.len() {
        } else {
            let o = if i < v.buy_locks.len() { i } else { j };
            if o < v.buy_locks.len() {
                if v.buy_locks[o].token.tick == v.buy_locks[o].at {
                } else {
                    assert(v.buy_locks[o].at + MAX_LOCK_TIME + 1 + o >= v.time);
                    assert(v.buy_locks[o].at <= SHIFTED_AT_MAX);
                    assert(v.time <= SHIFTED_AT_MAX + MAX_LOCK_TIME + MAX_LOCK_BUY_NUM);
                    assert(v.buy_locks[o].token.tick >= SHIFTED_TICK_MIN > v.time);
                }
            }
        }
    }
    assert(w.wf_buy_core());
    assert(w.wf_sell_core());
    assert(w.wf_expired());
}

/// A fresh sell reservation leaves the market well-formed up to the clock
/// advance that follows it.
pub proof fn lemma_lock_sell_ins_wf(
    v: MarketView, k: GoodKind, qty: int, offer: int, trader: u64,
)
    requires
        v.wf(),
        spec_quote_sell(v, k, qty) matches Ok(p) && offer <= p,
        0 <= qty <= i64::MAX,
        0 < offer <= i64::MAX,
        v.sell_locks.len() < MAX_LOCK_SELL_NUM,
    ensures
        spec_lock_sell_ins(v, k, qty, offer, trader).wf_core(),
{
    let w = spec_lock_sell_ins(v, k, qty, offer, trader);
    let tok = Token { side: Side::Sell, trader, tick: v.time };
    let lock = SellLock {
        token: tok,
        eur: Good { kind: GoodKind::Eur, amount: offer as u64 },
        qty: qty as u64,
        kind: k,
        at: v.time,
    };
    crate::pricing::lemma_cap_le_initial(v.eur.initial as int, MIN_EUR_PCT as int);
    lemma_sell_sum_push(v.sell_locks, lock);
    assert(w.wf_goods());
    assert forall|i: int, j: int|
        0 <= i < w.sell_locks.len() && 0 <= j < w.sell_locks.len() && i != j
            implies (#[trigger] w.sell_locks[i].token) != (#[trigger] w.sell_locks[j].token) by {
        if i < v.sell_locks.len() && j < v.sell_locks.len() {
        } else {
            let o = if i < v.sell_locks.len() { i } else { j };
            if o < v.sell_locks.len() {
                if v.sell_locks[o].token.tick == v.sell_locks[o].at {
                } else {
                    assert(v.sell_locks[o].at + MAX_LOCK_TIME + 1 + o >= v.time);
                    assert(v.sell_locks[o].at <= SHIFTED_AT_MAX);
                    assert(v.time <= SHIFTED_AT_MAX + MAX_LOCK_TIME + MAX_LOCK_SELL_NUM);
                    assert(v.sell_locks[o].token.tick >= SHIFTED_TICK_MIN > v.time);
                }
            }
        }
    }
    assert(w.wf_buy_core());
    assert(w.wf_sell_core());
    assert(w.wf_expired());
}

/// Finalizing a buy reservation leaves the market well-formed up to the
/// clock advance that follows it.
pub proof fn lemma_buy_fin_wf(v: MarketView, i: int)
    requires
        v.wf(),
        0 <= i < v.buy_locks.len(),
        v.eur.held + v.locked(GoodKind::Eur) + v.buy_locks[i].price <= u64::MAX,
    ensures
        spec_buy_fin(v, i).wf_core(),
{
    let w = spec_buy_fin(v, i);
    let l = v.buy_locks[i];
    let rest = v.buy_locks.remove(i);
    assert forall|j: int| 0 <= j < rest.len()
        implies #[trigger] rest[j] == if j < i {
            v.buy_locks[j]
        } else {
            v.buy_locks[j + 1]
        } by {}
    lemma_buy_sum_remove(v.buy_locks, i, GoodKind::Eur);
    lemma_buy_sum_remove(v.buy_locks, i, GoodKind::Usd);
    lemma_buy_sum_remove(v.buy_locks, i, GoodKind::Yen);
    lemma_buy_sum_remove(v.buy_locks, i, GoodKind::Yuan);
    lemma_buy_sum_elem(v.buy_locks, i, l.good.kind);
    lemma_sell_sum_nonneg(v.sell_locks);
    lemma_buy_sum_nonneg(v.buy_locks, GoodKind::Eur);
    lemma_buy_sum_nonneg(rest, GoodKind::Eur);
    lemma_buy_sum_nonneg(rest, l.good.kind);
    assert(w.wf_goods());
    assert forall|j: int| 0 <= j < rest.len()
        implies #[trigger] rest[j].at + MAX_LOCK_TIME + 1 + j >= w.time by {
        if j >= i {
            lemma_buy_gap(v.buy_locks, j + 1);
        }
    }
    assert(w.wf_buy_core());
    assert(w.wf_sell_core());
    assert(w.wf_expired());
}

/// Finalizing a sell reservation leaves the market well-formed up to the
/// clock advance that follows it.
pub proof fn lemma_sell_fin_wf(v: MarketView, i: int)
    requires
        v.wf(),
        0 <= i < v.sell_locks.len(),
        v.entry(v.sell_locks[i].kind).held + v.locked(v.sell_locks[i].kind)
            + v.sell_locks[i].qty <= u64::MAX,
    ensures
        spec_sell_fin(v, i).wf_core(),
{
    let w = spec_sell_fin(v, i);
    let l = v.sell_locks[i];
    let rest = v.sell_locks.remove(i);
    assert forall|j: int| 0 <= j < rest.len()
        implies #[trigger] rest[j] == if j < i {
            v.sell_locks[j]
        } else {
            v.sell_locks[j + 1]
        } by {}
    lemma_sell_sum_remove(v.sell_locks, i);
    lemma_sell_sum_elem(v.sell_locks, i);
    lemma_buy_sum_nonneg(v.buy_locks, GoodKind::Eur);
    lemma_buy_sum_nonneg(v.buy_locks, l.kind);
    assert(w.wf_goods());
    assert forall|j: int| 0 <= j < rest.len()
        implies #[trigger] rest[j].at + MAX_LOCK_TIME + 1 + j >= w.time by {
        if j >= i {
            lemma_sell_gap(v.sell_locks, j + 1);
        }
    }
    assert(w.wf_buy_core());
    assert(w.wf_sell_core());
    assert(w.wf_expired());
}

/// One clock advance: renormalize an exhausted clock, sweep stale
/// reservations, tick, forget roles on the fixed cadence, and rebalance
/// when the roll hits.
pub open spec fn spec_advance(v: MarketView, roll: u64) -> MarketView {
    let v1 = spec_renorm(v);
    let v2 = spec_sweep(v1);
    let v3 = MarketView { time: (v2.time + 1) as u64, ..v2 };
    let v4 = if v3.time % ROLE_RESET_PERIOD == 0 {
        spec_reset_roles(v3)
    } else {
        v3
    };
    if roll < REBALANCE_ROLL_HIT {
        spec_rebalance(v4)
    } else {
        v4
    }
}

} // verus!
