//! Core of a single-upstream HTTP reverse proxy: a fixed-window per-client
//! admission controller and the pure request-transformation pipeline of the
//! forwarding gateway (client-identity derivation, path-prefix rewrite,
//! header injection, and response planning).

mod clock;
pub mod gateway;
pub mod limiter;

pub use limiter::RateLimiter;
