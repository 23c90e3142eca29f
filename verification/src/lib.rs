//! Accounts for a small community platform: registration and login, signed
//! session tokens, password reset, and a points-for-levels loop with a daily
//! check-in.
//!
//! The rules live in [`gamification`], [`reset`], [`token`] and [`password`],
//! each on one account or one token. [`store`] holds the accounts with their
//! invariants, and [`gateway`] runs each operation against a store as one
//! step. Time is an argument wherever it matters; the functions without a
//! time argument read the system clock and then do the same.

pub mod clock;
pub mod config;
pub mod error;
pub mod gamification;
pub mod gateway;
pub mod password;
pub mod reset;
pub mod store;
pub mod subject;
pub mod text;
pub mod token;
pub mod user;
