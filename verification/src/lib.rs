//! A small HTTP greeting service, modeled as verified logic: route dispatch,
//! per-route request metrics with a text exposition snapshot, log-filter
//! resolution with a fallback chain, and the request pipeline that ties them
//! together. The network listener and the real logging backend live outside
//! this crate; they hand plain values in and take plain values back.

pub mod http;
pub mod logging;
pub mod metrics;
pub mod pipeline;
pub mod routes;
pub mod text;
