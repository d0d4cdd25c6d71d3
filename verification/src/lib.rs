//! Chat-moderation core: duplicate-content fingerprinting, a durable
//! duplicate registry, and a per-user mute escalation/decay state machine
//! kept consistent between an in-memory cache and durable storage.

pub mod cache;
pub mod dispatch;
pub mod fingerprint;
pub mod ledger;
pub mod registry;
pub mod settings;
pub mod text;
