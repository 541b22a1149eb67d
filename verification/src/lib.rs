//! Core of an algorithmic-trading stack for perpetual-swap venues.
//!
//! Prices and sizes are fixed-point integers scaled by `UNIT` (one millionth),
//! cash and notional values are exact products of a price and a size, so the
//! accounting below is exact integer arithmetic throughout.

pub mod adapters;
pub mod auth;
pub mod cost;
pub mod decimal;
pub mod executor;
pub mod ofi;
pub mod portfolio;
pub mod reporter;
pub mod sandbox;
pub mod settings;
pub mod strategy;
pub mod table;
pub mod types;
pub mod wire;

pub use cost::TransactionCostModel;
pub use portfolio::{Portfolio, Position};
pub use reporter::{Record, Reporter};
pub use types::{
    AmendOrder, Bbo, BrokerEvent, ClientEvent, ExecType, Fill, FillState, InstId,
    InstrumentProfile, LimitOrder, MarketOrder, Order, OrderId, Signal, Timestamp, UNIT,
    UNIT_DIGITS,
};
