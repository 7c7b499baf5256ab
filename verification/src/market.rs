//! The market itself: the owned aggregate holding the goods ledger, the
//! two reservation lists with their cached oldest-pointers, the expired
//! token record, the logical clock, and the outbound event queue. Every
//! mutating operation is specified against the exact transition functions
//! of the `model` module, and every operation preserves the market's
//! well-formedness invariant.

use vstd::prelude::*;
use crate::goods::{Good, GoodInfo, GoodKind, Role, SCALE, inv_rate};
use crate::token::{OldestMark, Side, Token};
use crate::errors::{
    BuyError, EventKind, LockBuyError, LockSellError, MarketEvent, MarketGetterError, SellError,
};
use crate::model::{
    spec_init_base,
    BuyLock, Flows, MarketView, SellLock, MAX_LOCK_BUY_NUM, MAX_LOCK_SELL_NUM, MAX_LOCK_TIME,
    MIN_EUR_PCT, MIN_GOOD_PCT, REBALANCE_ROLL_HIT, REBALANCE_ROLL_RANGE, ROLE_RESET_PERIOD,
    spec_init, spec_quote_buy, spec_quote_sell, spec_reprice,
    lemma_buy_sum_push, lemma_buy_sum_nonneg, lemma_buy_sum_prefix, lemma_buy_sum_elem,
    lemma_sell_sum_push, lemma_sell_sum_nonneg, lemma_sell_sum_prefix, lemma_sell_sum_elem,
};
use crate::pricing::{
    RATE_CAP, compute_buy_price, compute_buy_rate, compute_sell_price, sell_rate_of,
    to_eur_amount, spec_sell_rate_of,
};
use vstd::arithmetic::div_mod::{
    lemma_div_is_ordered, lemma_div_multiples_vanish, lemma_fundamental_div_mod,
};

verus! {

/// The starting capital, in EUR units, of a randomly initialized market.
pub const STARTING_CAPITAL: u64 = 1_000_000_000;

/// One row of the public inventory listing.
#[derive(Clone, Copy, PartialEq, Eq, Structural, Debug)]
pub struct GoodLabel {
    pub good_kind: GoodKind,
    pub quantity: u64,
    pub exchange_rate_buy: u64,
    pub exchange_rate_sell: u64,
}

/// The market. All state is exclusively owned here; no operation blocks,
/// and the one entropy source is the roll drawn at each clock advance.
pub struct BVCMarket {
    time: u64,
    mean: u64,
    eur: GoodInfo,
    usd: GoodInfo,
    yen: GoodInfo,
    yuan: GoodInfo,
    buy_locks: Vec<BuyLock>,
    sell_locks: Vec<SellLock>,
    oldest_buy: Option<OldestMark>,
    oldest_sell: Option<OldestMark>,
    expired: Vec<Token>,
    events: Vec<MarketEvent>,
    flows: Ghost<Flows>,
}

impl View for BVCMarket {
    type V = MarketView;

    closed spec fn view(&self) -> MarketView {
        MarketView {
            time: self.time,
            mean: self.mean,
            eur: self.eur,
            usd: self.usd,
            yen: self.yen,
            yuan: self.yuan,
            buy_locks: self.buy_locks@,
            sell_locks: self.sell_locks@,
            oldest_buy: self.oldest_buy,
            oldest_sell: self.oldest_sell,
            expired: self.expired@,
            events: self.events@,
            flows: self.flows@,
        }
    }
}

impl BVCMarket {
    /// The ledger entry of one kind.
    fn entry_of(&self, k: GoodKind) -> (e: GoodInfo)
        ensures
            e == self@.entry(k),
    {
        match k {
            GoodKind::Eur => self.eur,
            GoodKind::Usd => self.usd,
            GoodKind::Yen => self.yen,
            GoodKind::Yuan => self.yuan,
        }
    }

    /// Replace the ledger entry of one kind.
    fn set_entry(&mut self, k: GoodKind, e: GoodInfo)
        ensures
            final(self)@ == old(self)@.with_entry(k, e),
    {
        match k {
            GoodKind::Eur => {
                self.eur = e;
            },
            GoodKind::Usd => {
                self.usd = e;
            },
            GoodKind::Yen => {
                self.yen = e;
            },
            GoodKind::Yuan => {
                self.yuan = e;
            },
        }
        proof {
            assert(self@ =~= old(self)@.with_entry(k, e));
        }
    }

    /// The market's name.
    pub fn get_name(&self) -> (r: &'static str)
        ensures
            r@ == "BVC"@,
    {
        "BVC"
    }

    /// The EUR quantity the market holds.
    pub fn get_budget(&self) -> (r: u64)
        ensures
            r == self@.eur.held,
    {
        self.eur.held
    }

    /// How many buy reservations are active.
    pub fn active_buy_locks(&self) -> (r: usize)
        ensures
            r == self@.buy_locks.len(),
    {
        self.buy_locks.len()
    }

    /// How many sell reservations are active.
    pub fn active_sell_locks(&self) -> (r: usize)
        ensures
            r == self@.sell_locks.len(),
    {
        self.sell_locks.len()
    }

    /// The current logical clock.
    pub fn current_time(&self) -> (r: u64)
        ensures
            r == self@.time,
    {
        self.time
    }

    /// Drain the queued outbound events; the caller fans them out.
    pub fn take_events(&mut self) -> (r: Vec<MarketEvent>)
        ensures
            r@ == old(self)@.events,
            final(self)@ == (MarketView { events: Seq::empty(), ..old(self)@ }),
    {
        let mut drained: Vec<MarketEvent> = Vec::new();
        core::mem::swap(&mut drained, &mut self.events);
        proof {
            assert(self@ =~= (MarketView { events: Seq::empty(), ..old(self)@ }));
        }
        drained
    }

    /// The public inventory listing: one row per kind, in the fixed kind
    /// order.
    pub fn get_goods(&self) -> (r: Vec<GoodLabel>)
        ensures
            r@.len() == 4,
            r@[0] == (GoodLabel {
                good_kind: GoodKind::Eur,
                quantity: self@.eur.held,
                exchange_rate_buy: self@.eur.buy_rate,
                exchange_rate_sell: self@.eur.sell_rate,
            }),
            r@[1] == (GoodLabel {
                good_kind: GoodKind::Usd,
                quantity: self@.usd.held,
                exchange_rate_buy: self@.usd.buy_rate,
                exchange_rate_sell: self@.usd.sell_rate,
            }),
            r@[2] == (GoodLabel {
                good_kind: GoodKind::Yen,
                quantity: self@.yen.held,
                exchange_rate_buy: self@.yen.buy_rate,
                exchange_rate_sell: self@.yen.sell_rate,
            }),
            r@[3] == (GoodLabel {
                good_kind: GoodKind::Yuan,
                quantity: self@.yuan.held,
                exchange_rate_buy: self@.yuan.buy_rate,
                exchange_rate_sell: self@.yuan.sell_rate,
            }),
    {
        let mut r: Vec<GoodLabel> = Vec::new();
        r.push(GoodLabel {
            good_kind: GoodKind::Eur,
            quantity: self.eur.held,
            exchange_rate_buy: self.eur.buy_rate,
            exchange_rate_sell: self.eur.sell_rate,
        });
        r.push(GoodLabel {
            good_kind: GoodKind::Usd,
            quantity: self.usd.held,
            exchange_rate_buy: self.usd.buy_rate,
            exchange_rate_sell: self.usd.sell_rate,
        });
        r.push(GoodLabel {
            good_kind: GoodKind::Yen,
            quantity: self.yen.held,
            exchange_rate_buy: self.yen.buy_rate,
            exchange_rate_sell: self.yen.sell_rate,
        });
        r.push(GoodLabel {
            good_kind: GoodKind::Yuan,
            quantity: self.yuan.held,
            exchange_rate_buy: self.yuan.buy_rate,
            exchange_rate_sell: self.yuan.sell_rate,
        });
        r
    }

    /// Reprice one non-EUR kind from current inventory pressure. Calling
    /// this for EUR is a caller bug, which the precondition rules out: the
    /// reference kind's rate is pinned.
    pub fn update_good_price(&mut self, kind: GoodKind)
        requires
            kind != GoodKind::Eur,
            3 * old(self)@.mean >= crate::goods::spec_to_eur(
                kind,
                old(self)@.entry(kind).initial as int,
            ),
        ensures
            final(self)@ == spec_reprice(old(self)@, kind),
            final(self)@.rates_ok(kind),
    {
        let e = self.entry_of(kind);
        let nb = compute_buy_rate(kind, e.held, e.initial, self.mean);
        let ns = sell_rate_of(nb);
        self.set_entry(kind, GoodInfo { buy_rate: nb, sell_rate: ns, ..e });
        proof {
            assert(self@ =~= spec_reprice(old(self)@, kind));
            assert(self@.rates_ok(kind));
        }
    }

    /// A new market holding the given quantities (EUR, YEN, USD, YUAN),
    /// which are also its initial endowments for the floor rules. EUR is
    /// pinned at 1:1 and the three traded goods are priced once from the
    /// initial mean.
    /// The initial pricing mean: the average of the three summands rounded
    /// up, so three times the mean covers each of them.
    fn init_mean(ru: u64, ry: u64, ryu: u64) -> (m: u64)
        ensures
            m == (((ru + ry + ryu + 2) as int) / 3) as u64,
            3 * m >= ru + ry + ryu,
    {
        let sum: u128 = (ru as u128) + (ry as u128) + (ryu as u128);
        proof {
            lemma_div_is_ordered((sum + 2) as int, 3 * (u64::MAX as int) + 2, 3);
            assert((3 * (u64::MAX as int) + 2) / 3 == u64::MAX as int);
        }
        let m: u64 = ((sum + 2) / 3) as u64;
        proof {
            lemma_fundamental_div_mod((sum + 2) as int, 3);
            assert(0 <= (sum + 2) as int % 3 < 3) by (nonlinear_arith)
                requires
                    sum >= 0,
            ;
        }
        m
    }

    #[verifier::rlimit(100)]
    pub fn new_with_quantities(eur: u64, yen: u64, usd: u64, yuan: u64) -> (m: BVCMarket)
        ensures
            m@ == spec_init(eur, yen, usd, yuan),
            m@.wf(),
    {
        let ru: u64 = to_eur_amount(GoodKind::Usd, usd);
        let ry: u64 = to_eur_amount(GoodKind::Yen, yen);
        let ryu: u64 = to_eur_amount(GoodKind::Yuan, yuan);
        let mean: u64 = Self::init_mean(ru, ry, ryu);
        let mut m = BVCMarket {
            time: 0,
            mean,
            eur: GoodInfo {
                held: eur,
                buy_rate: SCALE,
                sell_rate: SCALE,
                initial: eur,
                role: Role::Unknown,
            },
            usd: GoodInfo {
                held: usd,
                buy_rate: 0,
                sell_rate: 0,
                initial: usd,
                role: Role::Unknown,
            },
            yen: GoodInfo {
                held: yen,
                buy_rate: 0,
                sell_rate: 0,
                initial: yen,
                role: Role::Unknown,
            },
            yuan: GoodInfo {
                held: yuan,
                buy_rate: 0,
                sell_rate: 0,
                initial: yuan,
                role: Role::Unknown,
            },
            buy_locks: Vec::new(),
            sell_locks: Vec::new(),
            oldest_buy: None,
            oldest_sell: None,
            expired: Vec::new(),
            events: Vec::new(),
            flows: Ghost(Flows::zero()),
        };
        proof {
            let base = spec_init_base(eur, yen, usd, yuan);
            assert(m@ =~= base);
        }
        m.update_good_price(GoodKind::Usd);
        m.update_good_price(GoodKind::Yen);
        m.update_good_price(GoodKind::Yuan);
        proof {
            assert(m@ == spec_init(eur, yen, usd, yuan));
            assert(m@.locked(GoodKind::Eur) == 0);
            assert(m@.locked(GoodKind::Usd) == 0);
            assert(m@.locked(GoodKind::Yen) == 0);
            assert(m@.locked(GoodKind::Yuan) == 0);
            assert(m@.wf_goods());
            assert(m@.wf_buy_core());
            assert(m@.wf_sell_core());
            assert(m@.wf_expired());
            assert(m@.wf());
        }
        m
    }

    /// EUR value converted to a kind's native amount, for the random
    /// initial allocation; the starting capital bounds keep it in the
    /// machine word.
    fn eur_to_native(k: GoodKind, a: u64) -> (r: u64)
        requires
            a <= STARTING_CAPITAL,
        ensures
            r == crate::goods::spec_from_eur(k, a as int),
    {
        let iv: u64 = inv_rate(k);
        let w: u128 = crate::pricing::wide_mul(a, iv);
        proof {
            assert(iv <= crate::goods::INV_RATE_YEN);
            assert((a as int) * (iv as int)
                <= (STARTING_CAPITAL as int) * (crate::goods::INV_RATE_YEN as int))
                by (nonlinear_arith)
                requires
                    a <= STARTING_CAPITAL,
                    iv <= crate::goods::INV_RATE_YEN,
                    a >= 0,
                    iv >= 0,
            ;
            lemma_div_is_ordered(
                (a as int) * (iv as int),
                (STARTING_CAPITAL as int) * (crate::goods::INV_RATE_YEN as int),
                SCALE as int,
            );
            assert((a as int) * (iv as int) / (SCALE as int) >= 0) by (nonlinear_arith)
                requires
                    a >= 0,
                    iv >= 0,
            ;
        }
        (w / (SCALE as u128)) as u64
    }

    /// A new market with a randomized initial allocation: a quarter to a
    /// third of the starting capital in EUR, and the rest spread over the
    /// three traded goods in a random order with random shares, converted
    /// to native amounts at the default rates.
    pub fn new_random() -> (m: BVCMarket)
        ensures
            m@.wf(),
            exists|eur: u64, yen: u64, usd: u64, yuan: u64|
                m@ == spec_init(eur, yen, usd, yuan),
            STARTING_CAPITAL / 100 * 25 <= m@.eur.held < STARTING_CAPITAL / 100 * 35,
    {
        let c: u64 = STARTING_CAPITAL;
        let eur = crate::entropy::draw_range(c / 100 * 25, c / 100 * 35);
        let mut rem: u64 = c - eur;
        let mut k0 = GoodKind::Usd;
        let mut k1 = GoodKind::Yuan;
        let mut k2 = GoodKind::Yen;
        let j = crate::entropy::draw_range(0, 3);
        if j == 0 {
            let t = k0;
            k0 = k2;
            k2 = t;
        } else if j == 1 {
            let t = k1;
            k1 = k2;
            k2 = t;
        }
        let j2 = crate::entropy::draw_range(0, 2);
        if j2 == 0 {
            let t = k0;
            k0 = k1;
            k1 = t;
        }
        let a0 = crate::entropy::draw_range(rem / 100 * 30, rem / 100 * 36);
        rem = rem - a0;
        let a1 = crate::entropy::draw_range(rem / 100 * 45, rem / 100 * 55);
        rem = rem - a1;
        let a2 = rem;
        let n0 = Self::eur_to_native(k0, a0);
        let n1 = Self::eur_to_native(k1, a1);
        let n2 = Self::eur_to_native(k2, a2);
        let mut usd_amt: u64 = 0;
        let mut yen_amt: u64 = 0;
        let mut yuan_amt: u64 = 0;
        proof {
            assert(k0 != GoodKind::Eur && k1 != GoodKind::Eur && k2 != GoodKind::Eur);
        }
        match k0 {
            GoodKind::Usd => {
                usd_amt = n0;
            },
            GoodKind::Yen => {
                yen_amt = n0;
            },
            _ => {
                yuan_amt = n0;
            },
        }
        match k1 {
            GoodKind::Usd => {
                usd_amt = n1;
            },
            GoodKind::Yen => {
                yen_amt = n1;
            },
            _ => {
                yuan_amt = n1;
            },
        }
        match k2 {
            GoodKind::Usd => {
                usd_amt = n2;
            },
            GoodKind::Yen => {
                yen_amt = n2;
            },
            _ => {
                yuan_amt = n2;
            },
        }
        let m = Self::new_with_quantities(eur, yen_amt, usd_amt, yuan_amt);
        proof {
            assert(m@ == spec_init(eur, yen_amt, usd_amt, yuan_amt));
        }
        m
    }

    /// The price the market asks to sell `quantity` of `kind` to the
    /// counterparty. Rejects a negative quantity, and any quantity that
    /// would push the held amount under the floor of a quarter of the
    /// initial endowment.
    pub fn get_buy_price(&self, kind: GoodKind, quantity: i64)
        -> (r: Result<u64, MarketGetterError>)
        requires
            self@.wf(),
        ensures
            r == spec_quote_buy(self@, kind, quantity as int),
    {
        if quantity < 0 {
            return Err(MarketGetterError::NonPositiveQuantityAsked);
        }
        let q: u64 = quantity as u64;
        let e = self.entry_of(kind);
        proof {
            crate::pricing::lemma_cap_le_initial(e.initial as int, MIN_GOOD_PCT as int);
        }
        let cap: u64 = ((e.initial as u128) * (MIN_GOOD_PCT as u128) / 100) as u64;
        if (e.held as u128) < (q as u128) + (cap as u128) {
            return Err(MarketGetterError::InsufficientGoodQuantityAvailable {
                requested_good_kind: kind,
                requested_good_quantity: q,
                available_good_quantity: e.held,
            });
        }
        proof {
            if kind != GoodKind::Eur {
                assert(self@.rates_ok(kind));
            }
        }
        Ok(compute_buy_price(e.buy_rate, q, e.held))
    }

    /// The price the market pays to buy `quantity` of `kind` from the
    /// counterparty. Rejects a negative quantity, and any quantity whose
    /// price would push the EUR ledger under the floor of a fifth of its
    /// initial endowment, since selling pays out EUR.
    pub fn get_sell_price(&self, kind: GoodKind, quantity: i64)
        -> (r: Result<u64, MarketGetterError>)
        requires
            self@.wf(),
        ensures
            r == spec_quote_sell(self@, kind, quantity as int),
    {
        if quantity < 0 {
            return Err(MarketGetterError::NonPositiveQuantityAsked);
        }
        let q: u64 = quantity as u64;
        let e = self.entry_of(kind);
        proof {
            if kind != GoodKind::Eur {
                assert(self@.rates_ok(kind));
                crate::pricing::lemma_cap_le_initial(e.buy_rate as int, 99);
            }
            crate::pricing::lemma_cap_le_initial(self@.eur.initial as int, MIN_EUR_PCT as int);
        }
        let price: u64 = compute_sell_price(e.sell_rate, q);
        let cap: u64 = ((self.eur.initial as u128) * (MIN_EUR_PCT as u128) / 100) as u64;
        if (self.eur.held as u128) < (price as u128) + (cap as u128) {
            return Err(MarketGetterError::InsufficientGoodQuantityAvailable {
                requested_good_kind: GoodKind::Eur,
                requested_good_quantity: price,
                available_good_quantity: self.eur.held,
            });
        }
        Ok(price)
    }

    /// The total quantity of kind `k` that active reservations
    /// exclusively hold. Together with the inventory listing this lets a
    /// caller check the machine-word bound that the finalizations require
    /// of a payment or delivery.
    #[verifier::loop_isolation(false)]
    pub fn locked_amount(&self, k: GoodKind) -> (r: u64)
        requires
            self@.wf_core(),
        ensures
            r == self@.locked(k),
    {
        proof {
            lemma_buy_sum_nonneg(self@.buy_locks, k);
            lemma_sell_sum_nonneg(self@.sell_locks);
        }
        let mut acc: u64 = 0;
        let mut i: usize = 0;
        while i < self.buy_locks.len()
            invariant
                i <= self.buy_locks@.len(),
                acc == crate::model::spec_buy_sum(self.buy_locks@.subrange(0, i as int), k),
            decreases self.buy_locks@.len() - i,
        {
            let l = self.buy_locks[i];
            proof {
                assert(self.buy_locks@.subrange(0, i + 1)
                    =~= self.buy_locks@.subrange(0, i as int).push(l));
                lemma_buy_sum_push(self.buy_locks@.subrange(0, i as int), l, k);
                lemma_buy_sum_prefix(self.buy_locks@, i + 1, k);
            }
            if l.good.kind == k {
                acc = acc + l.good.amount;
            }
            i = i + 1;
        }
        proof {
            assert(self.buy_locks@.subrange(0, self.buy_locks@.len() as int)
                =~= self.buy_locks@);
        }
        if k == GoodKind::Eur {
            let mut j: usize = 0;
            while j < self.sell_locks.len()
                invariant
                    j <= self.sell_locks@.len(),
                    acc == crate::model::spec_buy_sum(self.buy_locks@, k)
                        + crate::model::spec_sell_sum(self.sell_locks@.subrange(0, j as int)),
                decreases self.sell_locks@.len() - j,
            {
                let l = self.sell_locks[j];
                proof {
                    assert(self.sell_locks@.subrange(0, j + 1)
                        =~= self.sell_locks@.subrange(0, j as int).push(l));
                    lemma_sell_sum_push(self.sell_locks@.subrange(0, j as int), l);
                    lemma_sell_sum_prefix(self.sell_locks@, j + 1);
                    lemma_buy_sum_nonneg(self.buy_locks@, k);
                }
                acc = acc + l.eur.amount;
                j = j + 1;
            }
            proof {
                assert(self.sell_locks@.subrange(0, self.sell_locks@.len() as int)
                    =~= self.sell_locks@);
            }
        }
        acc
    }

    /// Linear scan for the oldest buy reservation, as the expiry sweep and
    /// the finalizations recompute it; with the list kept in age order it
    /// is the head.
    #[verifier::loop_isolation(false)]
    fn rescan_oldest_buy(&self) -> (r: Option<OldestMark>)
        requires
            forall|a: int, b: int|
                0 <= a < b < self@.buy_locks.len()
                    ==> self@.buy_locks[a].at < self@.buy_locks[b].at,
        ensures
            r == if self@.buy_locks.len() == 0 {
                None::<OldestMark>
            } else {
                Some(OldestMark {
                    at: self@.buy_locks[0].at,
                    token: self@.buy_locks[0].token,
                })
            },
    {
        let mut r: Option<OldestMark> = None;
        let mut i: usize = 0;
        while i < self.buy_locks.len()
            invariant
                i <= self.buy_locks@.len(),
                r == if i == 0 {
                    None::<OldestMark>
                } else {
                    Some(OldestMark {
                        at: self@.buy_locks[0].at,
                        token: self@.buy_locks[0].token,
                    })
                },
            decreases self.buy_locks@.len() - i,
        {
            let l = self.buy_locks[i];
            match r {
                Some(m) => {
                    if l.at < m.at {
                        r = Some(OldestMark { at: l.at, token: l.token });
                    }
                },
                None => {
                    r = Some(OldestMark { at: l.at, token: l.token });
                },
            }
            i = i + 1;
        }
        r
    }

    /// Linear scan for the oldest sell reservation.
    #[verifier::loop_isolation(false)]
    fn rescan_oldest_sell(&self) -> (r: Option<OldestMark>)
        requires
            forall|a: int, b: int|
                0 <= a < b < self@.sell_locks.len()
                    ==> self@.sell_locks[a].at < self@.sell_locks[b].at,
        ensures
            r == if self@.sell_locks.len() == 0 {
                None::<OldestMark>
            } else {
                Some(OldestMark {
                    at: self@.sell_locks[0].at,
                    token: self@.sell_locks[0].token,
                })
            },
    {
        let mut r: Option<OldestMark> = None;
        let mut i: usize = 0;
        while i < self.sell_locks.len()
            invariant
                i <= self.sell_locks@.len(),
                r == if i == 0 {
                    None::<OldestMark>
                } else {
                    Some(OldestMark {
                        at: self@.sell_locks[0].at,
                        token: self@.sell_locks[0].token,
                    })
                },
            decreases self.sell_locks@.len() - i,
        {
            let l = self.sell_locks[i];
            match r {
                Some(m) => {
                    if l.at < m.at {
                        r = Some(OldestMark { at: l.at, token: l.token });
                    }
                },
                None => {
                    r = Some(OldestMark { at: l.at, token: l.token });
                },
            }
            i = i + 1;
        }
        r
    }

    /// Renormalize an exhausted clock: subtract the minimum reservation
    /// age from the clock, every reservation and the cached pointers, and
    /// clear the expired-token record, whose purpose is bounded by the
    /// clock epoch. With no reservations the clock restarts at zero.
    #[verifier::loop_isolation(false)]
    #[verifier::rlimit(60)]
    fn renormalize(&mut self)
        requires
            old(self)@.wf_core(),
        ensures
            final(self)@ == crate::model::spec_renorm(old(self)@),
            final(self)@.wf_core(),
            final(self)@.time < u64::MAX,
    {
        if self.time < u64::MAX {
            return;
        }
        if self.buy_locks.len() == 0 && self.sell_locks.len() == 0 {
            self.time = 0;
            let mut cleared: Vec<Token> = Vec::new();
            core::mem::swap(&mut cleared, &mut self.expired);
            proof {
                assert(self@ =~= crate::model::spec_renorm(old(self)@));
                assert(self@.wf_core());
            }
            return;
        }
        proof {
            crate::model::lemma_renorm_wf(old(self)@);
        }
        let delta: u64 = if self.buy_locks.len() == 0 {
            self.sell_locks[0].at
        } else if self.sell_locks.len() == 0 {
            self.buy_locks[0].at
        } else if self.buy_locks[0].at <= self.sell_locks[0].at {
            self.buy_locks[0].at
        } else {
            self.sell_locks[0].at
        };
        proof {
            assert(delta == crate::model::spec_renorm_delta(old(self)@));
        }
        let ghost orig = self@;
        let mut i: usize = 0;
        while i < self.buy_locks.len()
            invariant
                i <= self.buy_locks@.len(),
                self.buy_locks@.len() == orig.buy_locks.len(),
                forall|j: int| 0 <= j < i ==> self.buy_locks@[j]
                    == (BuyLock { at: (orig.buy_locks[j].at - delta) as u64, ..orig.buy_locks[j] }),
                forall|j: int| i <= j < orig.buy_locks.len()
                    ==> self.buy_locks@[j] == orig.buy_locks[j],
                self@ == (MarketView { buy_locks: self.buy_locks@, ..orig }),
            decreases orig.buy_locks.len() - i,
        {
            let l = self.buy_locks[i];
            proof {
                if i > 0 {
                    assert(orig.buy_locks[0].at < orig.buy_locks[i as int].at);
                }
            }
            let nl = BuyLock { at: l.at - delta, ..l };
            self.buy_locks.set(i, nl);
            proof {
                assert(self@ =~= (MarketView { buy_locks: self.buy_locks@, ..orig }));
            }
            i = i + 1;
        }
        let ghost mid = self@;
        let mut j: usize = 0;
        while j < self.sell_locks.len()
            invariant
                j <= self.sell_locks@.len(),
                self.sell_locks@.len() == orig.sell_locks.len(),
                forall|q: int| 0 <= q < j ==> self.sell_locks@[q]
                    == (SellLock { at: (orig.sell_locks[q].at - delta) as u64, ..orig.sell_locks[q] }),
                forall|q: int| j <= q < orig.sell_locks.len()
                    ==> self.sell_locks@[q] == orig.sell_locks[q],
                self@ == (MarketView { sell_locks: self.sell_locks@, ..mid }),
            decreases orig.sell_locks.len() - j,
        {
            let l = self.sell_locks[j];
            proof {
                if j > 0 {
                    assert(orig.sell_locks[0].at < orig.sell_locks[j as int].at);
                }
            }
            let nl = SellLock { at: l.at - delta, ..l };
            self.sell_locks.set(j, nl);
            proof {
                assert(self@ =~= (MarketView { sell_locks: self.sell_locks@, ..mid }));
            }
            j = j + 1;
        }
        if let Some(m) = self.oldest_buy {
            self.oldest_buy = Some(OldestMark { at: m.at - delta, token: m.token });
        }
        if let Some(m) = self.oldest_sell {
            self.oldest_sell = Some(OldestMark { at: m.at - delta, token: m.token });
        }
        self.time = self.time - delta;
        let mut cleared: Vec<Token> = Vec::new();
        core::mem::swap(&mut cleared, &mut self.expired);
        proof {
            let fb = |l: BuyLock| BuyLock { at: (l.at - delta) as u64, ..l };
            let fs = |l: SellLock| SellLock { at: (l.at - delta) as u64, ..l };
            assert(self.buy_locks@ =~= orig.buy_locks.map_values(fb));
            assert(self.sell_locks@ =~= orig.sell_locks.map_values(fs));
            assert(self@ =~= crate::model::spec_renorm(orig));
        }
    }

    /// The buy side of the expiry sweep: drop the oldest buy reservation
    /// when it has gone stale, merge its good back, record its token, and
    /// recompute the oldest-pointer. Returns the kind whose held amount
    /// changed.
    fn sweep_buy(&mut self) -> (kret: Option<GoodKind>)
        requires
            old(self)@.wf_core(),
        ensures
            final(self)@ == crate::model::spec_expire_buy(old(self)@).0,
            kret == crate::model::spec_expire_buy(old(self)@).1,
            final(self)@.wf_core(),
            forall|i: int| 0 <= i < final(self)@.buy_locks.len()
                ==> (#[trigger] final(self)@.buy_locks[i]).at + MAX_LOCK_TIME + i
                    >= final(self)@.time,
    {
        proof {
            crate::model::lemma_expire_buy_wf(old(self)@);
        }
        let fire: bool = match self.oldest_buy {
            Some(m) => self.time > MAX_LOCK_TIME && m.at < self.time - MAX_LOCK_TIME,
            None => false,
        };
        if !fire {
            return None;
        }
        let l = self.buy_locks.remove(0);
        proof {
            lemma_buy_sum_elem(old(self)@.buy_locks, 0, l.good.kind);
            lemma_sell_sum_nonneg(old(self)@.sell_locks);
            lemma_buy_sum_nonneg(old(self)@.buy_locks, l.good.kind);
        }
        let e = self.entry_of(l.good.kind);
        self.set_entry(l.good.kind, GoodInfo { held: e.held + l.good.amount, ..e });
        proof {
            assert(self.buy_locks@ =~= old(self)@.buy_locks.remove(0));
        }
        let no = self.rescan_oldest_buy();
        self.oldest_buy = no;
        if l.token.tick == l.at {
            self.expired.push(l.token);
        }
        proof {
            assert(self@ =~= crate::model::spec_expire_buy(old(self)@).0);
        }
        Some(l.good.kind)
    }

    /// The sell side of the expiry sweep: drop the oldest sell reservation
    /// when it has gone stale and merge its pre-paid EUR back.
    fn sweep_sell(&mut self)
        requires
            old(self)@.wf_core(),
        ensures
            final(self)@ == crate::model::spec_expire_sell(old(self)@),
            final(self)@.wf_core(),
            forall|i: int| 0 <= i < final(self)@.sell_locks.len()
                ==> (#[trigger] final(self)@.sell_locks[i]).at + MAX_LOCK_TIME + i
                    >= final(self)@.time,
    {
        proof {
            crate::model::lemma_expire_sell_wf(old(self)@);
        }
        let fire: bool = match self.oldest_sell {
            Some(m) => self.time > MAX_LOCK_TIME && m.at < self.time - MAX_LOCK_TIME,
            None => false,
        };
        if !fire {
            return;
        }
        let l = self.sell_locks.remove(0);
        proof {
            lemma_sell_sum_elem(old(self)@.sell_locks, 0);
            lemma_buy_sum_nonneg(old(self)@.buy_locks, GoodKind::Eur);
        }
        let e = self.eur;
        self.set_entry(GoodKind::Eur, GoodInfo { held: e.held + l.eur.amount, ..e });
        proof {
            assert(self.sell_locks@ =~= old(self)@.sell_locks.remove(0));
        }
        let no = self.rescan_oldest_sell();
        self.oldest_sell = no;
        if l.token.tick == l.at {
            self.expired.push(l.token);
        }
        proof {
            assert(self@ =~= crate::model::spec_expire_sell(old(self)@));
        }
    }

    /// The whole expiry sweep of one clock advance: at most one stale
    /// reservation of each side goes; a non-EUR kind whose held amount
    /// changed is repriced once.
    fn update_locks(&mut self)
        requires
            old(self)@.wf_core(),
        ensures
            final(self)@ == crate::model::spec_sweep(old(self)@),
            final(self)@.wf_core(),
            final(self)@.time == old(self)@.time,
            forall|i: int| 0 <= i < final(self)@.buy_locks.len()
                ==> (#[trigger] final(self)@.buy_locks[i]).at + MAX_LOCK_TIME + i
                    >= final(self)@.time,
            forall|i: int| 0 <= i < final(self)@.sell_locks.len()
                ==> (#[trigger] final(self)@.sell_locks[i]).at + MAX_LOCK_TIME + i
                    >= final(self)@.time,
    {
        let kopt = self.sweep_buy();
        if let Some(k) = kopt {
            if k != GoodKind::Eur {
                self.update_good_price(k);
                proof {
                    assert(self@.wf_goods());
                    assert(self@.wf_buy_core());
                    assert(self@.wf_sell_core());
                    assert(self@.wf_expired());
                }
            }
        }
        proof {
            crate::model::lemma_expire_sell_wf(self@);
        }
        self.sweep_sell();
    }

    /// Find a suffering/eligible pair for one rebalancing iteration, from
    /// the running EUR-terms quantities: the suffering good is the lowest
    /// under the mean not currently exporting, the eligible good the
    /// highest over the mean not currently importing, walked in the fixed
    /// kind order so ties break deterministically.
    fn find_goods_to_balance(&self, re: u64, ru: u64, ry: u64, ryu: u64, mean: u64)
        -> (r: Option<((GoodKind, u64), (GoodKind, u64))>)
        ensures
            r matches Some(p) ==> {
                &&& crate::model::spec_pick_suffering(
                    self@, re as int, ru as int, ry as int, ryu as int, mean as int,
                ) == Some((p.0.0, p.0.1 as int))
                &&& crate::model::spec_pick_eligible(
                    self@, re as int, ru as int, ry as int, ryu as int, mean as int,
                ) == Some((p.1.0, p.1.1 as int))
            },
            r is None ==> crate::model::spec_pick_suffering(
                self@, re as int, ru as int, ry as int, ryu as int, mean as int,
            ) is None || crate::model::spec_pick_eligible(
                self@, re as int, ru as int, ry as int, ryu as int, mean as int,
            ) is None,
    {
        proof {
            crate::model::lemma_pick_suffering_props(
                self@, re as int, ru as int, ry as int, ryu as int, mean as int);
            crate::model::lemma_pick_eligible_props(
                self@, re as int, ru as int, ry as int, ryu as int, mean as int);
        }
        let mut suf: Option<(GoodKind, u64)> = None;
        if re < mean && self.eur.role != Role::Exporting {
            suf = Some((GoodKind::Eur, re));
        }
        if ru < mean && self.usd.role != Role::Exporting {
            suf = match suf {
                None => Some((GoodKind::Usd, ru)),
                Some(p) => if ru < p.1 {
                    Some((GoodKind::Usd, ru))
                } else {
                    Some(p)
                },
            };
        }
        if ry < mean && self.yen.role != Role::Exporting {
            suf = match suf {
                None => Some((GoodKind::Yen, ry)),
                Some(p) => if ry < p.1 {
                    Some((GoodKind::Yen, ry))
                } else {
                    Some(p)
                },
            };
        }
        if ryu < mean && self.yuan.role != Role::Exporting {
            suf = match suf {
                None => Some((GoodKind::Yuan, ryu)),
                Some(p) => if ryu < p.1 {
                    Some((GoodKind::Yuan, ryu))
                } else {
                    Some(p)
                },
            };
        }
        let mut eli: Option<(GoodKind, u64)> = None;
        if re > mean && self.eur.role != Role::Importing {
            eli = Some((GoodKind::Eur, re));
        }
        if ru > mean && self.usd.role != Role::Importing {
            eli = match eli {
                None => Some((GoodKind::Usd, ru)),
                Some(p) => if ru > p.1 {
                    Some((GoodKind::Usd, ru))
                } else {
                    Some(p)
                },
            };
        }
        if ry > mean && self.yen.role != Role::Importing {
            eli = match eli {
                None => Some((GoodKind::Yen, ry)),
                Some(p) => if ry > p.1 {
                    Some((GoodKind::Yen, ry))
                } else {
                    Some(p)
                },
            };
        }
        if ryu > mean && self.yuan.role != Role::Importing {
            eli = match eli {
                None => Some((GoodKind::Yuan, ryu)),
                Some(p) => if ryu > p.1 {
                    Some((GoodKind::Yuan, ryu))
                } else {
                    Some(p)
                },
            };
        }
        match (suf, eli) {
            (Some(s), Some(e)) => Some((s, e)),
            _ => None,
        }
    }

    /// One deterministic clock advance, driven by the given roll:
    /// renormalize an exhausted clock, sweep stale reservations, tick,
    /// forget rebalancing roles on the fixed cadence, and rebalance when
    /// the roll is under the trigger bound. The external scheduler may
    /// call this (or `increment_time`) to simulate idle ticks.
    /// Tick the clock and forget the rebalancing roles on the fixed
    /// cadence. The age bounds from the sweep make every reservation
    /// strictly older than the new clock value.
    #[verifier::spinoff_prover]
    fn tick_and_reset(&mut self)
        requires
            old(self)@.wf_core(),
            old(self)@.time < u64::MAX,
            forall|i: int| 0 <= i < old(self)@.buy_locks.len()
                ==> (#[trigger] old(self)@.buy_locks[i]).at + MAX_LOCK_TIME + i
                    >= old(self)@.time,
            forall|i: int| 0 <= i < old(self)@.sell_locks.len()
                ==> (#[trigger] old(self)@.sell_locks[i]).at + MAX_LOCK_TIME + i
                    >= old(self)@.time,
        ensures
            ({
                let v3 = MarketView { time: (old(self)@.time + 1) as u64, ..old(self)@ };
                final(self)@ == if v3.time % ROLE_RESET_PERIOD == 0 {
                    crate::model::spec_reset_roles(v3)
                } else {
                    v3
                }
            }),
            final(self)@.wf(),
    {
        let ghost v2 = self@;
        self.time = self.time + 1;
        proof {
            assert(self@ =~= (MarketView { time: (v2.time + 1) as u64, ..v2 }));
            assert(self@.wf_goods());
            assert(self@.wf_buy_core());
            assert(self@.wf_sell_core());
            assert(self@.wf_expired());
            assert(self@.wf());
        }
        if self.time % ROLE_RESET_PERIOD == 0 {
            let ghost v3 = self@;
            let e0 = self.eur;
            self.eur = GoodInfo { role: Role::Unknown, ..e0 };
            let e1 = self.usd;
            self.usd = GoodInfo { role: Role::Unknown, ..e1 };
            let e2 = self.yen;
            self.yen = GoodInfo { role: Role::Unknown, ..e2 };
            let e3 = self.yuan;
            self.yuan = GoodInfo { role: Role::Unknown, ..e3 };
            proof {
                assert(self@ =~= crate::model::spec_reset_roles(v3));
                assert(self@.wf_goods());
                assert(self@.wf());
            }
        }
    }

    #[verifier::spinoff_prover]
    pub fn advance_clock(&mut self, roll: u64)
        requires
            old(self)@.wf_core(),
        ensures
            final(self)@ == crate::model::spec_advance(old(self)@, roll),
            final(self)@.wf(),
    {
        self.renormalize();
        self.update_locks();
        self.tick_and_reset();
        if roll < REBALANCE_ROLL_HIT {
            self.fluctuate_quantity();
        }
    }

    /// Advance the logical clock by one tick, drawing the rebalancing
    /// roll; invoked internally after every completed mutating operation.
    pub fn increment_time(&mut self)
        requires
            old(self)@.wf(),
        ensures
            exists|roll: u64| roll < REBALANCE_ROLL_RANGE
                && final(self)@ == crate::model::spec_advance(old(self)@, roll),
            final(self)@.wf(),
    {
        let roll = crate::entropy::draw_range(0, REBALANCE_ROLL_RANGE);
        self.advance_clock(roll);
        proof {
            assert(roll < REBALANCE_ROLL_RANGE
                && self@ == crate::model::spec_advance(old(self)@, roll));
        }
    }

    /// Look up an active buy reservation by its token.
    #[verifier::loop_isolation(false)]
    fn find_buy_lock(&self, t: Token) -> (r: Option<usize>)
        ensures
            r matches Some(i) ==> i < self@.buy_locks.len()
                && self@.buy_locks[i as int].token == t
                && i as int == crate::model::spec_buy_idx(self@.buy_locks, t)
                && self@.buy_active(t),
            r is None ==> !self@.buy_active(t),
    {
        let mut i: usize = 0;
        while i < self.buy_locks.len()
            invariant
                i <= self.buy_locks@.len(),
                forall|j: int| 0 <= j < i ==> (#[trigger] self.buy_locks@[j]).token != t,
            decreases self.buy_locks@.len() - i,
        {
            if self.buy_locks[i].token == t {
                proof {
                    assert(self@.buy_locks[i as int].token == t);
                    crate::model::lemma_buy_idx(self@.buy_locks, t);
                }
                return Some(i);
            }
            i = i + 1;
        }
        None
    }

    /// Look up an active sell reservation by its token.
    #[verifier::loop_isolation(false)]
    fn find_sell_lock(&self, t: Token) -> (r: Option<usize>)
        ensures
            r matches Some(i) ==> i < self@.sell_locks.len()
                && self@.sell_locks[i as int].token == t
                && i as int == crate::model::spec_sell_idx(self@.sell_locks, t)
                && self@.sell_active(t),
            r is None ==> !self@.sell_active(t),
    {
        let mut i: usize = 0;
        while i < self.sell_locks.len()
            invariant
                i <= self.sell_locks@.len(),
                forall|j: int| 0 <= j < i ==> (#[trigger] self.sell_locks@[j]).token != t,
            decreases self.sell_locks@.len() - i,
        {
            if self.sell_locks[i].token == t {
                proof {
                    assert(self@.sell_locks[i as int].token == t);
                    crate::model::lemma_sell_idx(self@.sell_locks, t);
                }
                return Some(i);
            }
            i = i + 1;
        }
        None
    }

    /// Whether a token is recorded as expired in this clock epoch.
    #[verifier::loop_isolation(false)]
    fn is_expired_token(&self, t: Token) -> (r: bool)
        ensures
            r == self@.is_expired(t),
    {
        let mut i: usize = 0;
        while i < self.expired.len()
            invariant
                i <= self.expired@.len(),
                forall|j: int| 0 <= j < i ==> (#[trigger] self.expired@[j]) != t,
            decreases self.expired@.len() - i,
        {
            if self.expired[i] == t {
                proof {
                    assert(self@.expired[i as int] == t);
                }
                return true;
            }
            i = i + 1;
        }
        proof {
            assert(!self@.expired.contains(t));
        }
        false
    }

    /// The insertion phase of `lock_buy`: split the quantity out of the
    /// ledger into the fresh reservation and queue the event.
    #[verifier::spinoff_prover]
    fn lock_buy_insert(&mut self, kind_to_buy: GoodKind, q: u64, bid_u: u64, trader: u64)
        -> (tok: Token)
        requires
            q <= old(self)@.entry(kind_to_buy).held,
        ensures
            final(self)@ == crate::model::spec_lock_buy_ins(
                old(self)@, kind_to_buy, q as int, bid_u as int, trader,
            ),
            tok == (Token { side: Side::Buy, trader, tick: old(self)@.time }),
    {
        let tok = Token { side: Side::Buy, trader, tick: self.time };
        if self.oldest_buy.is_none() {
            self.oldest_buy = Some(OldestMark { at: self.time, token: tok });
        }
        let e = self.entry_of(kind_to_buy);
        self.set_entry(kind_to_buy, GoodInfo { held: e.held - q, ..e });
        self.buy_locks.push(BuyLock {
            token: tok,
            good: Good { kind: kind_to_buy, amount: q },
            price: bid_u,
            at: self.time,
        });
        self.events.push(MarketEvent {
            kind: EventKind::LockedBuy,
            good_kind: kind_to_buy,
            quantity: q,
            price: bid_u,
        });
        proof {
            assert(self@ =~= crate::model::spec_lock_buy_ins(
                old(self)@, kind_to_buy, q as int, bid_u as int, trader,
            ));
        }
        tok
    }

    /// The insertion phase of `lock_sell`: split the offered EUR out of
    /// the ledger into the fresh reservation and queue the event.
    #[verifier::spinoff_prover]
    fn lock_sell_insert(&mut self, kind_to_sell: GoodKind, q: u64, offer_u: u64, trader: u64)
        -> (tok: Token)
        requires
            offer_u <= old(self)@.eur.held,
        ensures
            final(self)@ == crate::model::spec_lock_sell_ins(
                old(self)@, kind_to_sell, q as int, offer_u as int, trader,
            ),
            tok == (Token { side: Side::Sell, trader, tick: old(self)@.time }),
    {
        let tok = Token { side: Side::Sell, trader, tick: self.time };
        if self.oldest_sell.is_none() {
            self.oldest_sell = Some(OldestMark { at: self.time, token: tok });
        }
        let e = self.eur;
        self.set_entry(GoodKind::Eur, GoodInfo { held: e.held - offer_u, ..e });
        self.sell_locks.push(SellLock {
            token: tok,
            eur: Good { kind: GoodKind::Eur, amount: offer_u },
            qty: q,
            kind: kind_to_sell,
            at: self.time,
        });
        self.events.push(MarketEvent {
            kind: EventKind::LockedSell,
            good_kind: kind_to_sell,
            quantity: q,
            price: offer_u,
        });
        proof {
            assert(self@ =~= crate::model::spec_lock_sell_ins(
                old(self)@, kind_to_sell, q as int, offer_u as int, trader,
            ));
        }
        tok
    }

    /// Reserve a purchase: after validation, split the quantity out of the
    /// ledger into a fresh reservation under a fresh token, queue the
    /// event, advance the clock and reprice the locked kind. Every failure
    /// leaves the market untouched.
    #[verifier::rlimit(100)]
    #[verifier::spinoff_prover]
    pub fn lock_buy(
        &mut self, kind_to_buy: GoodKind, quantity_to_buy: i64, bid: i64, trader: u64,
    ) -> (r: Result<Token, LockBuyError>)
        requires
            old(self)@.wf(),
        ensures
            r == crate::model::spec_lock_buy_result(
                old(self)@, kind_to_buy, quantity_to_buy as int, bid as int, trader,
            ),
            r is Err ==> final(self)@ == old(self)@,
            r is Ok ==> exists|roll: u64|
                roll < REBALANCE_ROLL_RANGE && final(self)@
                    == crate::model::spec_lock_buy_post(
                    old(self)@, kind_to_buy, quantity_to_buy as int, bid as int, trader, roll,
                ),
            final(self)@.wf(),
    {
        let price = match self.get_buy_price(kind_to_buy, quantity_to_buy) {
            Ok(p) => p,
            Err(MarketGetterError::NonPositiveQuantityAsked) => {
                return Err(LockBuyError::NonPositiveQuantityToBuy {
                    negative_quantity_to_buy: quantity_to_buy,
                });
            },
            Err(MarketGetterError::InsufficientGoodQuantityAvailable {
                requested_good_kind,
                requested_good_quantity,
                available_good_quantity,
            }) => {
                return Err(LockBuyError::InsufficientGoodQuantityAvailable {
                    requested_good_kind,
                    requested_good_quantity,
                    available_good_quantity,
                });
            },
        };
        if bid <= 0 {
            return Err(LockBuyError::NonPositiveBid { negative_bid: bid });
        }
        if self.buy_locks.len() == MAX_LOCK_BUY_NUM {
            return Err(LockBuyError::MaxAllowedLocksReached);
        }
        let bid_u: u64 = bid as u64;
        let q: u64 = quantity_to_buy as u64;
        if bid_u < price {
            return Err(LockBuyError::BidTooLow {
                requested_good_kind: kind_to_buy,
                requested_good_quantity: q,
                low_bid: bid_u,
                lowest_acceptable_bid: price,
            });
        }
        proof {
            crate::pricing::lemma_cap_le_initial(
                old(self)@.entry(kind_to_buy).initial as int,
                MIN_GOOD_PCT as int,
            );
        }
        let tok = self.lock_buy_insert(kind_to_buy, q, bid_u, trader);
        proof {
            crate::model::lemma_lock_buy_ins_wf(
                old(self)@, kind_to_buy, quantity_to_buy as int, bid as int, trader,
            );
        }
        let roll = crate::entropy::draw_range(0, REBALANCE_ROLL_RANGE);
        self.advance_clock(roll);
        if kind_to_buy != GoodKind::Eur {
            let ghost before = self@;
            self.update_good_price(kind_to_buy);
            proof {
                crate::model::lemma_reprice_wf(before, kind_to_buy);
            }
        }
        proof {
            assert(roll < REBALANCE_ROLL_RANGE && self@
                == crate::model::spec_lock_buy_post(
                old(self)@, kind_to_buy, quantity_to_buy as int, bid as int, trader, roll,
            ));
        }
        Ok(tok)
    }

    /// Reserve a sale: after validation, split the offered EUR out of the
    /// EUR ledger into a fresh reservation (pre-funding the trade), queue
    /// the event, advance the clock and reprice the agreed kind. Every
    /// failure leaves the market untouched.
    #[verifier::rlimit(100)]
    #[verifier::spinoff_prover]
    pub fn lock_sell(
        &mut self, kind_to_sell: GoodKind, quantity_to_sell: i64, offer: i64, trader: u64,
    ) -> (r: Result<Token, LockSellError>)
        requires
            old(self)@.wf(),
        ensures
            r == crate::model::spec_lock_sell_result(
                old(self)@, kind_to_sell, quantity_to_sell as int, offer as int, trader,
            ),
            r is Err ==> final(self)@ == old(self)@,
            r is Ok ==> exists|roll: u64|
                roll < REBALANCE_ROLL_RANGE && final(self)@
                    == crate::model::spec_lock_sell_post(
                    old(self)@, kind_to_sell, quantity_to_sell as int, offer as int, trader, roll,
                ),
            final(self)@.wf(),
    {
        let price = match self.get_sell_price(kind_to_sell, quantity_to_sell) {
            Ok(p) => p,
            Err(MarketGetterError::NonPositiveQuantityAsked) => {
                return Err(LockSellError::NonPositiveQuantityToSell {
                    negative_quantity_to_sell: quantity_to_sell,
                });
            },
            Err(MarketGetterError::InsufficientGoodQuantityAvailable {
                requested_good_kind,
                requested_good_quantity,
                available_good_quantity,
            }) => {
                return Err(LockSellError::InsufficientDefaultGoodQuantityAvailable {
                    offered_good_kind: requested_good_kind,
                    offered_good_quantity: requested_good_quantity,
                    available_good_quantity,
                });
            },
        };
        if offer <= 0 {
            return Err(LockSellError::NonPositiveOffer { negative_offer: offer });
        }
        if self.sell_locks.len() == MAX_LOCK_SELL_NUM {
            return Err(LockSellError::MaxAllowedLocksReached);
        }
        let offer_u: u64 = offer as u64;
        let q: u64 = quantity_to_sell as u64;
        if offer_u > price {
            return Err(LockSellError::OfferTooHigh {
                offered_good_kind: kind_to_sell,
                offered_good_quantity: q,
                high_offer: offer_u,
                highest_acceptable_offer: price,
            });
        }
        proof {
            crate::pricing::lemma_cap_le_initial(old(self)@.eur.initial as int, MIN_EUR_PCT as int);
        }
        let tok = self.lock_sell_insert(kind_to_sell, q, offer_u, trader);
        proof {
            crate::model::lemma_lock_sell_ins_wf(
                old(self)@, kind_to_sell, quantity_to_sell as int, offer as int, trader,
            );
        }
        let roll = crate::entropy::draw_range(0, REBALANCE_ROLL_RANGE);
        self.advance_clock(roll);
        if kind_to_sell != GoodKind::Eur {
            let ghost before = self@;
            self.update_good_price(kind_to_sell);
            proof {
                crate::model::lemma_reprice_wf(before, kind_to_sell);
            }
        }
        proof {
            assert(roll < REBALANCE_ROLL_RANGE && self@
                == crate::model::spec_lock_sell_post(
                old(self)@, kind_to_sell, quantity_to_sell as int, offer as int, trader, roll,
            ));
        }
        Ok(tok)
    }

    /// Finalize a buy reservation: the agreed price is split out of the
    /// payment and merged into the EUR ledger, the reserved good is handed
    /// to the caller, and the clock advances. An absent token is
    /// distinguished as expired or never-issued, and a wrong payment kind
    /// or a short payment changes nothing. The machine word must have room
    /// for the payment on top of the held and reserved EUR (`get_goods`
    /// and `locked_amount` let a caller check this).
    #[verifier::spinoff_prover]
    pub fn buy(&mut self, token: Token, cash: &mut Good) -> (r: Result<Good, BuyError>)
        requires
            old(self)@.wf(),
            old(self)@.eur.held + old(self)@.locked(GoodKind::Eur) + old(cash).amount
                <= u64::MAX,
        ensures
            final(self)@.wf(),
            !old(self)@.buy_active(token) ==> {
                &&& *final(cash) == *old(cash)
                &&& final(self)@ == old(self)@
                &&& r == if old(self)@.is_expired(token) {
                    Err::<Good, BuyError>(BuyError::ExpiredToken { expired_token: token })
                } else {
                    Err::<Good, BuyError>(BuyError::UnrecognizedToken {
                        unrecognized_token: token,
                    })
                }
            },
            old(self)@.buy_active(token) ==> ({
                let i = crate::model::spec_buy_idx(old(self)@.buy_locks, token);
                let l = old(self)@.buy_locks[i];
                &&& old(cash).kind != GoodKind::Eur ==> r == Err::<Good, BuyError>(
                    BuyError::GoodKindNotDefault { non_default_good_kind: old(cash).kind },
                ) && final(self)@ == old(self)@ && *final(cash) == *old(cash)
                &&& old(cash).kind == GoodKind::Eur && old(cash).amount < l.price
                    ==> r == Err::<Good, BuyError>(BuyError::InsufficientGoodQuantity {
                    contained_quantity: old(cash).amount,
                    pre_agreed_quantity: l.price,
                }) && final(self)@ == old(self)@ && *final(cash) == *old(cash)
                &&& old(cash).kind == GoodKind::Eur && old(cash).amount >= l.price ==> {
                    &&& r == Ok::<Good, BuyError>(l.good)
                    &&& *final(cash) == (Good {
                        kind: GoodKind::Eur,
                        amount: (old(cash).amount - l.price) as u64,
                    })
                    &&& exists|roll: u64| roll < REBALANCE_ROLL_RANGE
                        && final(self)@ == crate::model::spec_buy_post(old(self)@, i, roll)
                }
            }),
    {
        let idx = match self.find_buy_lock(token) {
            None => {
                if self.is_expired_token(token) {
                    return Err(BuyError::ExpiredToken { expired_token: token });
                } else {
                    return Err(BuyError::UnrecognizedToken { unrecognized_token: token });
                }
            },
            Some(i) => i,
        };
        let lk = self.buy_locks[idx];
        if cash.get_kind() != GoodKind::Eur {
            return Err(BuyError::GoodKindNotDefault { non_default_good_kind: cash.get_kind() });
        }
        if cash.get_qty() < lk.price {
            return Err(BuyError::InsufficientGoodQuantity {
                contained_quantity: cash.get_qty(),
                pre_agreed_quantity: lk.price,
            });
        }
        proof {
            crate::model::lemma_buy_sum_elem(old(self)@.buy_locks, idx as int, lk.good.kind);
            lemma_buy_sum_nonneg(old(self)@.buy_locks, GoodKind::Eur);
            lemma_sell_sum_nonneg(old(self)@.sell_locks);
        }
        let paid = match cash.split(lk.price) {
            Ok(g) => g,
            Err(_) => {
                proof {
                    assert(false);
                }
                Good { kind: GoodKind::Eur, amount: 0 }
            },
        };
        let e = self.eur;
        self.set_entry(GoodKind::Eur, GoodInfo { held: e.held + paid.get_qty(), ..e });
        let removed = self.buy_locks.remove(idx);
        proof {
            assert(self.buy_locks@ =~= old(self)@.buy_locks.remove(idx as int));
            assert forall|j: int| 0 <= j < self.buy_locks@.len()
                implies #[trigger] self.buy_locks@[j] == if j < idx {
                    old(self)@.buy_locks[j]
                } else {
                    old(self)@.buy_locks[j + 1]
                } by {}
        }
        if let Some(m) = self.oldest_buy {
            if m.token == token {
                let no = self.rescan_oldest_buy();
                self.oldest_buy = no;
            }
        }
        self.events.push(MarketEvent {
            kind: EventKind::Bought,
            good_kind: lk.good.kind,
            quantity: lk.good.amount,
            price: lk.price,
        });
        self.flows = Ghost(
            self.flows@.add_in(GoodKind::Eur, lk.price as int).add_out(
                lk.good.kind,
                lk.good.amount as int,
            ),
        );
        proof {
            assert(self@ =~= crate::model::spec_buy_fin(old(self)@, idx as int));
            crate::model::lemma_buy_fin_wf(old(self)@, idx as int);
        }
        let roll = crate::entropy::draw_range(0, REBALANCE_ROLL_RANGE);
        self.advance_clock(roll);
        proof {
            assert(roll < REBALANCE_ROLL_RANGE
                && self@ == crate::model::spec_buy_post(old(self)@, idx as int, roll));
        }
        Ok(removed.good)
    }

    /// Finalize a sell reservation: the agreed amount is split out of the
    /// delivery and merged into the ledger of the agreed kind, the
    /// pre-paid EUR is handed to the caller, the clock advances and the
    /// delivered kind is repriced. An absent token is distinguished as
    /// expired or never-issued, and a wrong kind or a short delivery
    /// changes nothing. The machine word must have room for the delivery
    /// on top of the held and reserved amount of its kind.
    #[verifier::rlimit(100)]
    #[verifier::spinoff_prover]
    pub fn sell(&mut self, token: Token, good: &mut Good) -> (r: Result<Good, SellError>)
        requires
            old(self)@.wf(),
            old(self)@.entry(old(good).kind).held + old(self)@.locked(old(good).kind)
                + old(good).amount <= u64::MAX,
        ensures
            final(self)@.wf(),
            !old(self)@.sell_active(token) ==> {
                &&& *final(good) == *old(good)
                &&& final(self)@ == old(self)@
                &&& r == if old(self)@.is_expired(token) {
                    Err::<Good, SellError>(SellError::ExpiredToken { expired_token: token })
                } else {
                    Err::<Good, SellError>(SellError::UnrecognizedToken {
                        unrecognized_token: token,
                    })
                }
            },
            old(self)@.sell_active(token) ==> ({
                let i = crate::model::spec_sell_idx(old(self)@.sell_locks, token);
                let l = old(self)@.sell_locks[i];
                &&& l.kind != old(good).kind ==> r == Err::<Good, SellError>(
                    SellError::WrongGoodKind {
                        wrong_good_kind: old(good).kind,
                        pre_agreed_kind: l.kind,
                    },
                ) && final(self)@ == old(self)@ && *final(good) == *old(good)
                &&& l.kind == old(good).kind && old(good).amount < l.qty
                    ==> r == Err::<Good, SellError>(SellError::InsufficientGoodQuantity {
                    contained_quantity: old(good).amount,
                    pre_agreed_quantity: l.qty,
                }) && final(self)@ == old(self)@ && *final(good) == *old(good)
                &&& l.kind == old(good).kind && old(good).amount >= l.qty ==> {
                    &&& r == Ok::<Good, SellError>(l.eur)
                    &&& *final(good) == (Good {
                        kind: old(good).kind,
                        amount: (old(good).amount - l.qty) as u64,
                    })
                    &&& exists|roll: u64| roll < REBALANCE_ROLL_RANGE
                        && final(self)@ == crate::model::spec_sell_post(old(self)@, i, roll)
                }
            }),
    {
        let idx = match self.find_sell_lock(token) {
            None => {
                if self.is_expired_token(token) {
                    return Err(SellError::ExpiredToken { expired_token: token });
                } else {
                    return Err(SellError::UnrecognizedToken { unrecognized_token: token });
                }
            },
            Some(i) => i,
        };
        let lk = self.sell_locks[idx];
        if lk.kind != good.get_kind() {
            return Err(SellError::WrongGoodKind {
                wrong_good_kind: good.get_kind(),
                pre_agreed_kind: lk.kind,
            });
        }
        if good.get_qty() < lk.qty {
            return Err(SellError::InsufficientGoodQuantity {
                contained_quantity: good.get_qty(),
                pre_agreed_quantity: lk.qty,
            });
        }
        proof {
            crate::model::lemma_sell_sum_elem(old(self)@.sell_locks, idx as int);
            lemma_buy_sum_nonneg(old(self)@.buy_locks, lk.kind);
            lemma_sell_sum_nonneg(old(self)@.sell_locks);
        }
        let delivered = match good.split(lk.qty) {
            Ok(g) => g,
            Err(_) => {
                proof {
                    assert(false);
                }
                Good { kind: lk.kind, amount: 0 }
            },
        };
        let e = self.entry_of(lk.kind);
        self.set_entry(lk.kind, GoodInfo { held: e.held + delivered.get_qty(), ..e });
        let removed = self.sell_locks.remove(idx);
        proof {
            assert(self.sell_locks@ =~= old(self)@.sell_locks.remove(idx as int));
            assert forall|j: int| 0 <= j < self.sell_locks@.len()
                implies #[trigger] self.sell_locks@[j] == if j < idx {
                    old(self)@.sell_locks[j]
                } else {
                    old(self)@.sell_locks[j + 1]
                } by {}
        }
        if let Some(m) = self.oldest_sell {
            if m.token == token {
                let no = self.rescan_oldest_sell();
                self.oldest_sell = no;
            }
        }
        self.events.push(MarketEvent {
            kind: EventKind::Sold,
            good_kind: lk.kind,
            quantity: lk.qty,
            price: lk.eur.amount,
        });
        self.flows = Ghost(
            self.flows@.add_in(lk.kind, lk.qty as int).add_out(
                GoodKind::Eur,
                lk.eur.amount as int,
            ),
        );
        proof {
            assert(self@ =~= crate::model::spec_sell_fin(old(self)@, idx as int));
            crate::model::lemma_sell_fin_wf(old(self)@, idx as int);
        }
        let roll = crate::entropy::draw_range(0, REBALANCE_ROLL_RANGE);
        self.advance_clock(roll);
        if lk.kind != GoodKind::Eur {
            let ghost before = self@;
            self.update_good_price(lk.kind);
            proof {
                crate::model::lemma_reprice_wf(before, lk.kind);
            }
        }
        proof {
            assert(roll < REBALANCE_ROLL_RANGE
                && self@ == crate::model::spec_sell_post(old(self)@, idx as int, roll));
        }
        Ok(removed.eur)
    }

    /// Mark a rebalancing pair's roles: the suffering kind imports, the
    /// eligible kind exports; EUR never takes a role.
    fn mark_pair(&mut self, sk: GoodKind, ek: GoodKind)
        ensures
            final(self)@ == crate::model::spec_mark_role(
                crate::model::spec_mark_role(old(self)@, sk, Role::Importing),
                ek,
                Role::Exporting,
            ),
    {
        if sk != GoodKind::Eur {
            let es = self.entry_of(sk);
            self.set_entry(sk, GoodInfo { role: Role::Importing, ..es });
        }
        if ek != GoodKind::Eur {
            let ee = self.entry_of(ek);
            self.set_entry(ek, GoodInfo { role: Role::Exporting, ..ee });
        }
        proof {
            assert(self@ =~= crate::model::spec_mark_role(
                crate::model::spec_mark_role(old(self)@, sk, Role::Importing),
                ek,
                Role::Exporting,
            ));
        }
    }

    /// Apply one rebalancing transfer to the ledger and the conservation
    /// record.
    fn apply_transfer(&mut self, sk: GoodKind, ek: GoodKind, split_n: u64, merge_n: u64)
        requires
            split_n <= old(self)@.entry(ek).held,
            sk != ek,
            old(self)@.entry(sk).held + merge_n <= u64::MAX,
        ensures
            final(self)@ == crate::model::spec_transfer(
                old(self)@, sk, ek, split_n as int, merge_n as int,
            ),
    {
        let ee = self.entry_of(ek);
        self.set_entry(ek, GoodInfo { held: ee.held - split_n, ..ee });
        let es = self.entry_of(sk);
        self.set_entry(sk, GoodInfo { held: es.held + merge_n, ..es });
        self.flows = Ghost(
            self.flows@.add_out(ek, split_n as int).add_in(sk, merge_n as int),
        );
        proof {
            assert(self@ =~= crate::model::spec_transfer(
                old(self)@, sk, ek, split_n as int, merge_n as int,
            ));
        }
    }

    /// A rebalancing pass: repeatedly move quantity from the most
    /// over-supplied good towards the most under-supplied one until no
    /// pair remains or the fixed-point grid cannot represent a transfer.
    #[verifier::rlimit(100)]
    fn fluctuate_quantity(&mut self)
        requires
            old(self)@.wf(),
        ensures
            final(self)@ == crate::model::spec_rebalance(old(self)@),
            final(self)@.wf(),
    {
        let re0 = to_eur_amount(GoodKind::Eur, self.eur.held);
        let ru0 = to_eur_amount(GoodKind::Usd, self.usd.held);
        let ry0 = to_eur_amount(GoodKind::Yen, self.yen.held);
        let ryu0 = to_eur_amount(GoodKind::Yuan, self.yuan.held);
        let sum: u128 = (re0 as u128) + (ru0 as u128) + (ry0 as u128) + (ryu0 as u128);
        proof {
            lemma_div_is_ordered(sum as int, 4 * (u64::MAX as int), 4);
            assert(4 * (u64::MAX as int) / 4 == u64::MAX as int);
        }
        let mean: u64 = (sum / 4) as u64;
        let mut re: u64 = re0;
        let mut ru: u64 = ru0;
        let mut ry: u64 = ry0;
        let mut ryu: u64 = ryu0;
        let ghost target = crate::model::spec_rebalance(old(self)@);
        let ghost mut fuel: nat = 4nat;
        loop
            invariant_except_break
                self@.wf(),
                crate::model::spec_rebalance_rec(
                    self@, re as int, ru as int, ry as int, ryu as int, mean as int, fuel,
                ) == target,
                fuel >= crate::model::spec_nonmean(
                    re as int, ru as int, ry as int, ryu as int, mean as int,
                ),
            ensures
                self@ == target,
                self@.wf(),
            decreases fuel,
        {
            match self.rebalance_step(re, ru, ry, ryu, mean, Ghost(fuel)) {
                None => {
                    break;
                },
                Some((a, b, c, d)) => {
                    re = a;
                    ru = b;
                    ry = c;
                    ryu = d;
                    proof {
                        fuel = (fuel - 1) as nat;
                    }
                },
            }
        }
    }

    /// One iteration of the rebalancing pass: find a pair, mark its
    /// roles, and transfer if the fixed-point grid can represent the
    /// amounts. Returns the updated running quantities, or nothing when
    /// the pass is over.
    #[verifier::rlimit(100)]
    #[verifier::spinoff_prover]
    fn rebalance_step(
        &mut self,
        re: u64, ru: u64, ry: u64, ryu: u64, mean: u64,
        Ghost(fuel): Ghost<nat>,
    ) -> (r: Option<(u64, u64, u64, u64)>)
        requires
            old(self)@.wf(),
            fuel >= crate::model::spec_nonmean(
                re as int, ru as int, ry as int, ryu as int, mean as int,
            ),
        ensures
            ({
                let cur = crate::model::spec_rebalance_rec(
                    old(self)@, re as int, ru as int, ry as int, ryu as int, mean as int, fuel,
                );
                match r {
                    None => final(self)@ == cur && final(self)@.wf(),
                    Some((re2, ru2, ry2, ryu2)) => {
                        &&& fuel >= 1
                        &&& final(self)@.wf()
                        &&& crate::model::spec_rebalance_rec(
                            final(self)@, re2 as int, ru2 as int, ry2 as int, ryu2 as int,
                            mean as int, (fuel - 1) as nat,
                        ) == cur
                        &&& (fuel - 1) >= crate::model::spec_nonmean(
                            re2 as int, ru2 as int, ry2 as int, ryu2 as int, mean as int,
                        )
                    },
                }
            }),
    {
        let ghost pre = self@;
        let pair = self.find_goods_to_balance(re, ru, ry, ryu, mean);
        match pair {
            None => {
                None
            },
            Some(((sk, sq), (ek, eq))) => {
                proof {
                    crate::model::lemma_rebalance_step(
                        pre, re as int, ru as int, ry as int, ryu as int, mean as int,
                        fuel, sk, ek, sq as int, eq as int,
                    );
                    crate::model::lemma_mark2_wf(pre, sk, ek);
                }
                let ghost marked = crate::model::spec_mark_role(
                    crate::model::spec_mark_role(pre, sk, Role::Importing),
                    ek,
                    Role::Exporting,
                );
                self.mark_pair(sk, ek);
                let d: u64 = if mean - sq <= eq - mean {
                    mean - sq
                } else {
                    eq - mean
                };
                let split_n: u128 = crate::pricing::wide_mul(d, inv_rate(ek))
                    / (SCALE as u128);
                let merge_n: u128 = crate::pricing::wide_mul(d, inv_rate(sk))
                    / (SCALE as u128);
                proof {
                    assert(split_n == crate::goods::spec_from_eur(ek, d as int));
                    assert(merge_n == crate::goods::spec_from_eur(sk, d as int));
                }
                let held_e = self.entry_of(ek).held;
                let held_s = self.entry_of(sk).held;
                let locked_s = self.locked_amount(sk);
                proof {
                    lemma_buy_sum_nonneg(self@.buy_locks, sk);
                    lemma_sell_sum_nonneg(self@.sell_locks);
                    assert(held_s + locked_s <= u64::MAX);
                }
                if split_n > (held_e as u128)
                    || merge_n > ((u64::MAX - held_s - locked_s) as u128) {
                    return None;
                }
                self.apply_transfer(sk, ek, split_n as u64, merge_n as u64);
                proof {
                    crate::model::lemma_transfer_wf(
                        marked, sk, ek, split_n as int, merge_n as int,
                    );
                }
                let mut re2: u64 = re;
                let mut ru2: u64 = ru;
                let mut ry2: u64 = ry;
                let mut ryu2: u64 = ryu;
                if sk == GoodKind::Eur {
                    re2 = re2 + d;
                } else if sk == GoodKind::Usd {
                    ru2 = ru2 + d;
                } else if sk == GoodKind::Yen {
                    ry2 = ry2 + d;
                } else {
                    ryu2 = ryu2 + d;
                }
                if ek == GoodKind::Eur {
                    re2 = re2 - d;
                } else if ek == GoodKind::Usd {
                    ru2 = ru2 - d;
                } else if ek == GoodKind::Yen {
                    ry2 = ry2 - d;
                } else {
                    ryu2 = ryu2 - d;
                }
                Some((re2, ru2, ry2, ryu2))
            },
        }
    }
}

} // verus!
