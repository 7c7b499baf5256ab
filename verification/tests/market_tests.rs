use bvc_market::{
    BVCMarket, BuyError, EventKind, Good, GoodKind, LockBuyError, LockSellError, MarketEvent,
    MarketGetterError, SellError, Side, Token,
};

/// The standard fixture: 50 000 EUR, 1 000 000 YEN, 100 USD, 10 000 YUAN.
/// The initial pricing mean is 2806 EUR; USD and YUAN sit under it and
/// carry inflated rates, YEN sits far over it and is discounted.
fn fixture() -> BVCMarket {
    BVCMarket::new_with_quantities(50_000, 1_000_000, 100, 10_000)
}

#[test]
fn name_and_initial_listing() {
    let m = fixture();
    assert_eq!(m.get_name(), "BVC");
    assert_eq!(m.get_budget(), 50_000);
    assert_eq!(m.current_time(), 0);
    assert_eq!(m.active_buy_locks(), 0);
    assert_eq!(m.active_sell_locks(), 0);
    let goods = m.get_goods();
    assert_eq!(goods.len(), 4);
    assert_eq!(goods[0].good_kind, GoodKind::Eur);
    assert_eq!(goods[0].quantity, 50_000);
    assert_eq!(goods[0].exchange_rate_buy, 1_000_000);
    assert_eq!(goods[0].exchange_rate_sell, 1_000_000);
    assert_eq!(goods[1].good_kind, GoodKind::Usd);
    assert_eq!(goods[1].quantity, 100);
    assert_eq!(goods[2].good_kind, GoodKind::Yen);
    assert_eq!(goods[2].quantity, 1_000_000);
    assert_eq!(goods[3].good_kind, GoodKind::Yuan);
    assert_eq!(goods[3].quantity, 10_000);
}

#[test]
fn initial_rates_follow_the_formula() {
    let m = fixture();
    let goods = m.get_goods();
    // USD: 96 EUR of value against a mean of 2806: inflated.
    assert_eq!(goods[1].exchange_rate_buy, 1_059_522);
    assert_eq!(goods[1].exchange_rate_sell, 1_048_926);
    // YEN: 6963 EUR of value, over 1.6 times the mean: deepest discount.
    assert_eq!(goods[2].exchange_rate_buy, 6_719);
    assert_eq!(goods[2].exchange_rate_sell, 6_651);
    // YUAN: 1358 EUR of value, under the mean: inflated.
    assert_eq!(goods[3].exchange_rate_buy, 143_847);
    assert_eq!(goods[3].exchange_rate_sell, 142_408);
}

#[test]
fn sell_rate_never_exceeds_buy_rate() {
    let m = fixture();
    for label in m.get_goods() {
        assert!(label.exchange_rate_sell <= label.exchange_rate_buy);
    }
}

#[test]
fn quote_rejects_negative_quantity() {
    let m = fixture();
    assert_eq!(
        m.get_buy_price(GoodKind::Usd, -1),
        Err(MarketGetterError::NonPositiveQuantityAsked)
    );
    assert_eq!(
        m.get_sell_price(GoodKind::Yen, -7),
        Err(MarketGetterError::NonPositiveQuantityAsked)
    );
}

#[test]
fn buy_quote_respects_the_floor() {
    let m = fixture();
    // 100 USD held, floor 25: 80 would leave 20, refused; 70 leaves 30.
    assert_eq!(
        m.get_buy_price(GoodKind::Usd, 80),
        Err(MarketGetterError::InsufficientGoodQuantityAvailable {
            requested_good_kind: GoodKind::Usd,
            requested_good_quantity: 80,
            available_good_quantity: 100,
        })
    );
    // 70 of 100 is over half the supply: deepest quantity discount.
    assert_eq!(m.get_buy_price(GoodKind::Usd, 70), Ok(71));
}

#[test]
fn sell_quote_respects_the_eur_floor() {
    let m = fixture();
    // Paying out 665 100 000 EUR would breach the floor of 10 000.
    assert_eq!(
        m.get_sell_price(GoodKind::Yen, 100_000_000_000),
        Err(MarketGetterError::InsufficientGoodQuantityAvailable {
            requested_good_kind: GoodKind::Eur,
            requested_good_quantity: 665_100_000,
            available_good_quantity: 50_000,
        })
    );
    assert_eq!(m.get_sell_price(GoodKind::Yen, 1000), Ok(6));
}

#[test]
fn lock_buy_error_taxonomy() {
    let mut m = fixture();
    assert_eq!(
        m.lock_buy(GoodKind::Usd, -5, 10, 1),
        Err(LockBuyError::NonPositiveQuantityToBuy { negative_quantity_to_buy: -5 })
    );
    assert_eq!(
        m.lock_buy(GoodKind::Usd, 80, 10, 1),
        Err(LockBuyError::InsufficientGoodQuantityAvailable {
            requested_good_kind: GoodKind::Usd,
            requested_good_quantity: 80,
            available_good_quantity: 100,
        })
    );
    assert_eq!(
        m.lock_buy(GoodKind::Usd, 70, 0, 1),
        Err(LockBuyError::NonPositiveBid { negative_bid: 0 })
    );
    assert_eq!(
        m.lock_buy(GoodKind::Usd, 70, 70, 1),
        Err(LockBuyError::BidTooLow {
            requested_good_kind: GoodKind::Usd,
            requested_good_quantity: 70,
            low_bid: 70,
            lowest_acceptable_bid: 71,
        })
    );
    // None of the failures advanced the clock or touched the ledger.
    assert_eq!(m.current_time(), 0);
    assert_eq!(m.get_goods()[1].quantity, 100);
}

#[test]
fn lock_sell_error_taxonomy() {
    let mut m = fixture();
    assert_eq!(
        m.lock_sell(GoodKind::Yen, -2, 10, 1),
        Err(LockSellError::NonPositiveQuantityToSell { negative_quantity_to_sell: -2 })
    );
    assert_eq!(
        m.lock_sell(GoodKind::Yen, 100_000_000_000, 10, 1),
        Err(LockSellError::InsufficientDefaultGoodQuantityAvailable {
            offered_good_kind: GoodKind::Eur,
            offered_good_quantity: 665_100_000,
            available_good_quantity: 50_000,
        })
    );
    assert_eq!(
        m.lock_sell(GoodKind::Yen, 1000, -1, 1),
        Err(LockSellError::NonPositiveOffer { negative_offer: -1 })
    );
    assert_eq!(
        m.lock_sell(GoodKind::Yen, 1000, 7, 1),
        Err(LockSellError::OfferTooHigh {
            offered_good_kind: GoodKind::Yen,
            offered_good_quantity: 1000,
            high_offer: 7,
            highest_acceptable_offer: 6,
        })
    );
    assert_eq!(m.current_time(), 0);
}

#[test]
fn lock_buy_then_buy_hands_over_the_reserved_good() {
    let mut m = fixture();
    let token = m.lock_buy(GoodKind::Usd, 70, 71, 7).unwrap();
    assert_eq!(token, Token { side: Side::Buy, trader: 7, tick: 0 });
    assert_eq!(m.active_buy_locks(), 1);
    // Payment of exactly the agreed price.
    let mut cash = Good::new(GoodKind::Eur, 71);
    let got = m.buy(token, &mut cash).unwrap();
    assert_eq!(got, Good::new(GoodKind::Usd, 70));
    assert_eq!(cash, Good::new(GoodKind::Eur, 0));
    assert_eq!(m.active_buy_locks(), 0);
}

#[test]
fn buy_failures_leave_the_payment_alone() {
    let mut m = fixture();
    let token = m.lock_buy(GoodKind::Usd, 70, 71, 7).unwrap();
    let mut wrong_kind = Good::new(GoodKind::Usd, 500);
    assert_eq!(
        m.buy(token, &mut wrong_kind),
        Err(BuyError::GoodKindNotDefault { non_default_good_kind: GoodKind::Usd })
    );
    assert_eq!(wrong_kind.get_qty(), 500);
    let mut short = Good::new(GoodKind::Eur, 70);
    assert_eq!(
        m.buy(token, &mut short),
        Err(BuyError::InsufficientGoodQuantity {
            contained_quantity: 70,
            pre_agreed_quantity: 71,
        })
    );
    assert_eq!(short.get_qty(), 70);
    let stranger = Token { side: Side::Buy, trader: 9, tick: 99 };
    let mut cash = Good::new(GoodKind::Eur, 1000);
    assert_eq!(
        m.buy(stranger, &mut cash),
        Err(BuyError::UnrecognizedToken { unrecognized_token: stranger })
    );
    assert_eq!(m.active_buy_locks(), 1);
}

#[test]
fn lock_sell_then_sell_pays_the_pre_funded_eur() {
    let mut m = fixture();
    let token = m.lock_sell(GoodKind::Yen, 1000, 6, 3).unwrap();
    assert_eq!(token, Token { side: Side::Sell, trader: 3, tick: 0 });
    assert_eq!(m.active_sell_locks(), 1);
    let mut delivery = Good::new(GoodKind::Yen, 1500);
    let paid = m.sell(token, &mut delivery).unwrap();
    assert_eq!(paid, Good::new(GoodKind::Eur, 6));
    assert_eq!(delivery, Good::new(GoodKind::Yen, 500));
    assert_eq!(m.active_sell_locks(), 0);
}

#[test]
fn sell_failures_leave_the_delivery_alone() {
    let mut m = fixture();
    let token = m.lock_sell(GoodKind::Yen, 1000, 6, 3).unwrap();
    let mut wrong = Good::new(GoodKind::Yuan, 5000);
    assert_eq!(
        m.sell(token, &mut wrong),
        Err(SellError::WrongGoodKind {
            wrong_good_kind: GoodKind::Yuan,
            pre_agreed_kind: GoodKind::Yen,
        })
    );
    assert_eq!(wrong.get_qty(), 5000);
    let mut short = Good::new(GoodKind::Yen, 999);
    assert_eq!(
        m.sell(token, &mut short),
        Err(SellError::InsufficientGoodQuantity {
            contained_quantity: 999,
            pre_agreed_quantity: 1000,
        })
    );
    let stranger = Token { side: Side::Sell, trader: 1, tick: 50 };
    let mut delivery = Good::new(GoodKind::Yen, 1500);
    assert_eq!(
        m.sell(stranger, &mut delivery),
        Err(SellError::UnrecognizedToken { unrecognized_token: stranger })
    );
    assert_eq!(m.active_sell_locks(), 1);
}

#[test]
fn buy_reservation_expires_after_its_lifetime() {
    let mut m = fixture();
    let token = m.lock_buy(GoodKind::Usd, 70, 71, 7).unwrap();
    // The lock call advanced the clock to 1 (and may have rebalanced).
    let held_after_lock = m.get_goods()[1].quantity;
    // Idle ticks without rebalancing, up to clock 13: the reservation,
    // created at tick 0, stays active through tick 12 and is dropped by
    // the sweep that runs at tick 13.
    for _ in 0..12 {
        m.advance_clock(99);
    }
    assert_eq!(m.current_time(), 13);
    assert_eq!(m.active_buy_locks(), 1);
    assert_eq!(m.get_goods()[1].quantity, held_after_lock);
    m.advance_clock(99);
    assert_eq!(m.active_buy_locks(), 0);
    assert_eq!(m.get_goods()[1].quantity, held_after_lock + 70);
    // Once expired, the token can never be finalized.
    let mut cash = Good::new(GoodKind::Eur, 1000);
    assert_eq!(
        m.buy(token, &mut cash),
        Err(BuyError::ExpiredToken { expired_token: token })
    );
    assert_eq!(cash.get_qty(), 1000);
}

#[test]
fn reserved_quantity_is_tracked_until_expiry() {
    let mut m = fixture();
    let _token = m.lock_buy(GoodKind::Usd, 70, 71, 7).unwrap();
    assert_eq!(m.locked_amount(GoodKind::Usd), 70);
    for _ in 0..13 {
        m.advance_clock(99);
    }
    assert_eq!(m.locked_amount(GoodKind::Usd), 0);
}

#[test]
fn the_oldest_reservation_expires_first() {
    let mut m = fixture();
    let q1 = m.get_buy_price(GoodKind::Yen, 10).unwrap();
    let b1 = if q1 > 0 { q1 as i64 } else { 1 };
    let _t1 = m.lock_buy(GoodKind::Yen, 10, b1, 5).unwrap();
    let q2 = m.get_buy_price(GoodKind::Yen, 10).unwrap();
    let b2 = if q2 > 0 { q2 as i64 } else { 1 };
    let t2 = m.lock_buy(GoodKind::Yen, 10, b2, 6).unwrap();
    // Clock is at 2; idle until the sweep that runs at tick 13 drops the
    // tick-0 reservation and only it.
    for _ in 0..12 {
        m.advance_clock(99);
    }
    assert_eq!(m.active_buy_locks(), 1);
    // The survivor is the younger reservation: it can still be finalized.
    let mut cash = Good::new(GoodKind::Eur, b2 as u64);
    let got = m.buy(t2, &mut cash).unwrap();
    assert_eq!(got, Good::new(GoodKind::Yen, 10));
}

#[test]
fn sell_reservation_expires_after_its_lifetime() {
    let mut m = fixture();
    let token = m.lock_sell(GoodKind::Yen, 1000, 6, 3).unwrap();
    let budget_after_lock = m.get_budget();
    for _ in 0..13 {
        m.advance_clock(99);
    }
    assert_eq!(m.active_sell_locks(), 0);
    // The pre-funded EUR flowed back into the ledger.
    assert_eq!(m.get_budget(), budget_after_lock + 6);
    let mut delivery = Good::new(GoodKind::Yen, 1500);
    assert_eq!(
        m.sell(token, &mut delivery),
        Err(SellError::ExpiredToken { expired_token: token })
    );
}

#[test]
fn lock_cap_is_enforced_per_side() {
    let mut m = fixture();
    for trader in 0..4 {
        let quote = m.get_buy_price(GoodKind::Yen, 10).unwrap();
        let bid = if quote > 0 { quote as i64 } else { 1 };
        m.lock_buy(GoodKind::Yen, 10, bid, trader).unwrap();
    }
    assert_eq!(m.active_buy_locks(), 4);
    assert_eq!(
        m.lock_buy(GoodKind::Yen, 10, 1_000_000, 9),
        Err(LockBuyError::MaxAllowedLocksReached)
    );
    for trader in 0..4 {
        m.lock_sell(GoodKind::Yen, 1000, 1, trader).unwrap();
    }
    assert_eq!(m.active_sell_locks(), 4);
    assert_eq!(
        m.lock_sell(GoodKind::Yen, 1000, 1, 9),
        Err(LockSellError::MaxAllowedLocksReached)
    );
}

#[test]
fn tokens_are_unique_per_tick_and_side() {
    let mut m = fixture();
    let q1 = m.get_buy_price(GoodKind::Yen, 10).unwrap();
    let t1 = m.lock_buy(GoodKind::Yen, 10, (q1 as i64).max(1), 5).unwrap();
    let q2 = m.get_buy_price(GoodKind::Yen, 10).unwrap();
    let t2 = m.lock_buy(GoodKind::Yen, 10, (q2 as i64).max(1), 5).unwrap();
    assert_ne!(t1, t2);
    assert_eq!(t1.tick, 0);
    assert_eq!(t2.tick, 1);
}

#[test]
fn events_record_every_completed_operation() {
    let mut m = fixture();
    let token = m.lock_buy(GoodKind::Usd, 70, 71, 7).unwrap();
    assert_eq!(
        m.take_events(),
        vec![MarketEvent {
            kind: EventKind::LockedBuy,
            good_kind: GoodKind::Usd,
            quantity: 70,
            price: 71,
        }]
    );
    let mut cash = Good::new(GoodKind::Eur, 71);
    m.buy(token, &mut cash).unwrap();
    assert_eq!(
        m.take_events(),
        vec![MarketEvent {
            kind: EventKind::Bought,
            good_kind: GoodKind::Usd,
            quantity: 70,
            price: 71,
        }]
    );
    assert_eq!(m.take_events(), vec![]);
}

#[test]
fn buy_splits_exactly_the_agreed_price_from_the_payment() {
    let mut m = fixture();
    let token = m.lock_buy(GoodKind::Usd, 70, 71, 7).unwrap();
    let mut cash = Good::new(GoodKind::Eur, 100);
    m.buy(token, &mut cash).unwrap();
    assert_eq!(cash, Good::new(GoodKind::Eur, 29));
}

#[test]
fn clock_advances_by_one_tick() {
    let mut m = fixture();
    assert_eq!(m.current_time(), 0);
    m.advance_clock(99);
    assert_eq!(m.current_time(), 1);
    m.increment_time();
    assert_eq!(m.current_time(), 2);
}

#[test]
fn rebalancing_moves_value_toward_the_mean() {
    // All value starts in EUR; one forced rebalancing pass spreads it so
    // every kind is worth a quarter of the total (250 EUR), converted to
    // native amounts at the default rates.
    let mut m = BVCMarket::new_with_quantities(1000, 0, 0, 0);
    m.advance_clock(0);
    let goods = m.get_goods();
    assert_eq!(goods[0].quantity, 250);
    assert_eq!(goods[1].quantity, 258);
    assert_eq!(goods[2].quantity, 35_904);
    assert_eq!(goods[3].quantity, 1_839);
}

#[test]
fn idle_rebalancing_roll_changes_nothing() {
    let mut m = fixture();
    let before = m.get_goods();
    m.advance_clock(15);
    let after = m.get_goods();
    for i in 0..4 {
        assert_eq!(before[i].quantity, after[i].quantity);
    }
}

#[test]
fn random_market_draws_its_budget_from_the_documented_share() {
    let m = BVCMarket::new_random();
    let c: u64 = 1_000_000_000;
    let budget = m.get_budget();
    assert!(budget >= c / 100 * 25);
    assert!(budget < c / 100 * 35);
    // The full capital was allocated: each good holds something.
    let goods = m.get_goods();
    assert!(goods[1].quantity > 0);
    assert!(goods[2].quantity > 0);
    assert!(goods[3].quantity > 0);
}

#[test]
fn eur_trades_at_par() {
    let m = fixture();
    // Buying 1000 EUR for EUR: 1:1 rate, over half the availability
    // bracket does not apply (1000 of 50 000 is 2%): plain price.
    assert_eq!(m.get_buy_price(GoodKind::Eur, 1000), Ok(1000));
}
