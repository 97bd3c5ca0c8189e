//! Verified core of a quiz-backend: quiz session lifecycle, scoring,
//! per-category leaderboards and top-user tracking over an in-memory
//! document store, plus the pure decision logic of the auth flows.

pub mod api;
pub mod auth;
pub mod config;
pub mod dto;
pub mod errors;
pub mod ids;
pub mod leaderboard;
pub mod model;
pub mod platform;
pub mod scoring;
pub mod session;
pub mod store;
pub mod top_user;
pub mod util;
