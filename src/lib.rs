//! Leaderboard synchronisation: page reconciliation, level-up detection,
//! record lookup indices and the login state exchange.

pub mod text;
pub mod user;
pub mod level;
pub mod reconcile;
pub mod store;
pub mod error;
pub mod auth;
pub mod util;
pub mod notify;
pub mod scores;
