//! An authenticating, quota-enforcing, rate-limiting reverse proxy core:
//! the admission rules, the token/permit manager, the quota engine, the
//! user store and the helpers around them, with their contracts.

pub mod admin;
pub mod bruteforce;
pub mod config;
pub mod error;
pub mod gateway;
pub mod jwt;
pub mod limiter;
pub mod logger;
pub mod metrics;
pub mod quota;
pub mod rate_limiter;
pub mod text;
pub mod usage;
pub mod user_activity;
pub mod user_manager;
pub mod utils;
