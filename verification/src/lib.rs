//! A pre-trade risk gate: ordered admission checks over configured limits,
//! and the trading state that admitted trades update.
//!
//! Amounts (quantities, prices, positions, volumes, values, limits) are
//! signed fixed-point integers in one scale, which the configuration names.
//! Where two amounts are multiplied, the product is brought back to that
//! scale and rounded down.

pub mod amounts;
pub mod config;
pub mod laws;
pub mod notifier;
pub mod riskly_error;
pub mod riskly_service;
pub mod rules;
pub mod state;
pub mod table;
