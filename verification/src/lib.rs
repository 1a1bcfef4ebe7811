//! Verified core of the DiamondDaggifier backend: per-client rate limiting,
//! the decisions of the HTTP handlers, the interpretation of upstream
//! answers and the skin compositing.

pub mod api;
pub mod ashcon;
pub mod json;
pub mod mojang;
pub mod png;
pub mod ratelimit;
pub mod skin_creation;
pub mod warp_backend;
