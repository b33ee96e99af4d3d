//! Per-game arcade leaderboards with a single-winner reward-claim flag.
//!
//! The store that holds each game's leaderboard, last submitter and claim flag
//! is an explicit value (`ArcadeRewardContract`); the caller's identity is an
//! explicit argument of every mutating operation.
pub mod types;
pub mod leaderboard;
pub mod laws;
pub mod contract;

pub use types::{Address, ContractError, DataKey, PlayerScore, Symbol};
pub use leaderboard::{rank_entry, LEADERBOARD_CAPACITY};
pub use contract::ArcadeRewardContract;
