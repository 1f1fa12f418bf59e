//! Serving core of an inference gateway: admission control, priority
//! scheduling, constrained decoding and response correlation.

pub mod config;
pub mod health;
pub mod json;
pub mod queue;
pub mod grammar;
pub mod constraint;
pub mod request;
pub mod correlator;
pub mod table;
pub mod executor;
pub mod laws;
