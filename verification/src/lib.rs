//! An HTTP reverse-proxy gateway core: route resolution, authentication,
//! rate limiting, response caching, circuit breaking and request forwarding,
//! stated as contracts over mathematical models and proved.

pub mod auth;
pub mod bounded;
pub mod cache;
pub mod circuit_breaker;
pub mod config;
pub mod constants;
pub mod duration;
pub mod errors;
pub mod foreign;
pub mod gateway;
pub mod health_check;
pub mod hot_reload;
pub mod message;
pub mod plugins;
pub mod proxy;
pub mod rate_limiter;
pub mod request_id;
pub mod tables;
pub mod text;
pub mod time;
pub mod transform;
