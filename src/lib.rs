//! Subscriber management for a double opt-in mailing list: validation of raw
//! input, an in-memory subscriber store with confirmation tokens, and the
//! subscribe, confirm and publish workflows that drive it.
pub mod configuration;
pub mod domain;
pub mod guarantees;
pub mod store;
pub mod token;
pub mod workflow;
