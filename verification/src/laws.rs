//! The market's standing guarantees, stated as public proof functions
//! over the well-formedness invariant that the constructors establish and
//! every operation's postcondition preserves.

use vstd::prelude::*;
use crate::goods::GoodKind;
use crate::token::Token;
use crate::model::{
    MarketView, MAX_LOCK_BUY_NUM, MAX_LOCK_SELL_NUM, MIN_EUR_PCT, MIN_GOOD_PCT,
    spec_quote_buy, spec_quote_sell,
};
use crate::pricing::{lemma_cap_le_initial, spec_sell_price};

verus! {

/// Conservation: for every kind, what the ledger holds plus what active
/// reservations exclusively hold plus everything that has flowed out
/// equals the initial endowment plus everything that has flowed in. No
/// operation fabricates or drops quantity: it only moves through the
/// recorded flows.
pub proof fn law_conservation(v: MarketView, k: GoodKind)
    requires
        v.wf(),
    ensures
        v.entry(k).held + v.locked(k) + v.flows.outflow(k)
            == v.entry(k).initial + v.flows.inflow(k),
{
    match k {
        GoodKind::Eur => assert(v.conserved(GoodKind::Eur)),
        GoodKind::Usd => assert(v.conserved(GoodKind::Usd)),
        GoodKind::Yen => assert(v.conserved(GoodKind::Yen)),
        GoodKind::Yuan => assert(v.conserved(GoodKind::Yuan)),
    }
}

/// Rate ordering: for every kind the sell rate never exceeds the buy
/// rate, so the market never loses on a round trip at the same tick. For
/// the traded kinds the sell rate is exactly the discounted buy rate; for
/// EUR both are pinned to one.
pub proof fn law_rate_ordering(v: MarketView, k: GoodKind)
    requires
        v.wf(),
    ensures
        v.entry(k).sell_rate <= v.entry(k).buy_rate,
{
    if k != GoodKind::Eur {
        match k {
            GoodKind::Usd => assert(v.rates_ok(GoodKind::Usd)),
            GoodKind::Yen => assert(v.rates_ok(GoodKind::Yen)),
            GoodKind::Yuan => assert(v.rates_ok(GoodKind::Yuan)),
            GoodKind::Eur => {},
        }
        lemma_cap_le_initial(v.entry(k).buy_rate as int, 99);
    }
}

/// Floor respect, buy side: a buy quote succeeds only when granting it
/// would still leave the kind at or above a quarter of its initial
/// endowment, so `lock_buy` can never drain a good below its floor.
pub proof fn law_floor_respect_buy(v: MarketView, k: GoodKind, qty: int)
    requires
        v.wf(),
        spec_quote_buy(v, k, qty) is Ok,
    ensures
        v.entry(k).held - qty >= v.entry(k).initial * MIN_GOOD_PCT / 100,
{
}

/// Floor respect, sell side: a sell quote succeeds only when paying it
/// would still leave EUR at or above a fifth of its initial endowment,
/// so `lock_sell` can never drain the reference good below its floor.
pub proof fn law_floor_respect_sell(v: MarketView, k: GoodKind, qty: int)
    requires
        v.wf(),
        qty >= 0,
        spec_quote_sell(v, k, qty) is Ok,
    ensures
        v.eur.held - spec_sell_price(v.entry(k).sell_rate as int, qty)
            >= v.eur.initial * MIN_EUR_PCT / 100,
{
}

/// Expiry exclusivity: a token is in at most one of the three states at
/// any time. An active reservation is never in the expired record, and no
/// token names reservations on both sides; everything else is forgotten.
/// Together with the finalization contracts (an expired token is answered
/// with the expired-token failure, never success) a reservation meets
/// exactly one of its two fates.
pub proof fn law_expiry_exclusivity(v: MarketView, t: Token)
    requires
        v.wf(),
    ensures
        !(v.buy_active(t) && v.is_expired(t)),
        !(v.sell_active(t) && v.is_expired(t)),
        !(v.buy_active(t) && v.sell_active(t)),
{
    if v.buy_active(t) && v.is_expired(t) {
        let i = choose|i: int| 0 <= i < v.buy_locks.len() && (#[trigger] v.buy_locks[i]).token == t;
        let j = choose|j: int| 0 <= j < v.expired.len() && v.expired[j] == t;
        assert(v.expired[j] != v.buy_locks[i].token);
    }
    if v.sell_active(t) && v.is_expired(t) {
        let i = choose|i: int|
            0 <= i < v.sell_locks.len() && (#[trigger] v.sell_locks[i]).token == t;
        let j = choose|j: int| 0 <= j < v.expired.len() && v.expired[j] == t;
        assert(v.expired[j] != v.sell_locks[i].token);
    }
    if v.buy_active(t) && v.sell_active(t) {
        let i = choose|i: int| 0 <= i < v.buy_locks.len() && (#[trigger] v.buy_locks[i]).token == t;
        let j = choose|j: int|
            0 <= j < v.sell_locks.len() && (#[trigger] v.sell_locks[j]).token == t;
        assert(v.buy_locks[i].token.side != v.sell_locks[j].token.side);
    }
}

/// Oldest-pointer correctness: each side's cached pointer is empty exactly
/// when the side has no reservations, and otherwise names an active
/// reservation whose age is the true minimum of the side.
pub proof fn law_oldest_pointer(v: MarketView)
    requires
        v.wf(),
    ensures
        v.oldest_buy is None <==> v.buy_locks.len() == 0,
        v.oldest_sell is None <==> v.sell_locks.len() == 0,
        v.oldest_buy matches Some(m) ==> v.buy_active(m.token) && forall|i: int|
            0 <= i < v.buy_locks.len() ==> m.at <= (#[trigger] v.buy_locks[i]).at,
        v.oldest_sell matches Some(m) ==> v.sell_active(m.token) && forall|i: int|
            0 <= i < v.sell_locks.len() ==> m.at <= (#[trigger] v.sell_locks[i]).at,
{
    if v.oldest_buy is Some {
        assert(v.buy_locks[0].token == v.oldest_buy->Some_0.token);
        assert forall|i: int| 0 <= i < v.buy_locks.len()
            implies v.oldest_buy->Some_0.at <= (#[trigger] v.buy_locks[i]).at by {
            if i > 0 {
                assert(v.buy_locks[0].at < v.buy_locks[i].at);
            }
        }
    }
    if v.oldest_sell is Some {
        assert(v.sell_locks[0].token == v.oldest_sell->Some_0.token);
        assert forall|i: int| 0 <= i < v.sell_locks.len()
            implies v.oldest_sell->Some_0.at <= (#[trigger] v.sell_locks[i]).at by {
            if i > 0 {
                assert(v.sell_locks[0].at < v.sell_locks[i].at);
            }
        }
    }
}

/// Lock cap: the number of active reservations of a side never exceeds
/// its configured maximum; the locking contracts answer the call that
/// would exceed it with the max-locks failure.
pub proof fn law_lock_cap(v: MarketView)
    requires
        v.wf(),
    ensures
        v.buy_locks.len() <= MAX_LOCK_BUY_NUM,
        v.sell_locks.len() <= MAX_LOCK_SELL_NUM,
{
}

} // verus!
