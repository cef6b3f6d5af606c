//! A stock-price alerting and paper-trading service core: the line protocol,
//! the price cache, alert evaluation, a user's alerts and positions, password
//! checks and the per-connection session state machine.
pub mod text;
pub mod protocol;
pub mod cache;
pub mod error;
pub mod alerts;
pub mod portfolio;
pub mod auth;
pub mod session;
