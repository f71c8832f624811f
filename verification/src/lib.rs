//! Retry policies and the decision core of a retry session.
//!
//! A policy answers one question: after `attempts` consecutive failures,
//! should the caller try again, and after what pause? A session keeps the
//! failure count and turns each outcome of the retried operation into the
//! next thing to do.

pub mod policy;
pub mod session;
pub mod trace;
