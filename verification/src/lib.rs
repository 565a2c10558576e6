//! HTTP presentation layer of the to-do service: error shapes, health and
//! readiness answers, optimistic-locking ETags, request ids and request metrics.

pub mod audit;
pub mod errors;
pub mod etag;
pub mod health;
pub mod observability;
pub mod payload;
pub mod text;
