//! A single-actor market simulator for four fungible goods: one reference
//! good (EUR, the numeraire with a fixed 1:1 rate) and three traded goods
//! (USD, YEN, YUAN). The market quotes buy and sell prices that move with
//! inventory pressure, lets a counterparty lock a trade before finalizing
//! it, expires stale locks on a logical clock, and periodically rebalances
//! inventory between over- and under-supplied goods.
//!
//! Quantities and prices are fixed-point integers; `SCALE` fractional parts
//! make one whole unit of the exchange-rate grid.

pub mod goods;
pub mod errors;
pub mod token;
pub mod pricing;
pub mod model;
pub mod entropy;
pub mod market;
pub mod laws;

pub use goods::{Good, GoodInfo, GoodKind, Role};
pub use errors::{
    BuyError, EventKind, GoodError, LockBuyError, LockSellError, MarketEvent,
    MarketGetterError, SellError,
};
pub use token::{OldestMark, Side, Token};
pub use market::{BVCMarket, GoodLabel};
