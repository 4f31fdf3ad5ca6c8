//! State-synchronization engine for a compositor status panel.
//!
//! The panel mirrors the live state of a window-manager compositor: which
//! workspaces are occupied, which one is active, and which application icon
//! each workspace slot shows. This crate holds the verified core: the
//! canonical model, the reducer that folds lifecycle messages into it, and
//! the adapter normalization that turns raw compositor payloads into typed
//! messages. The unverified shell around it (widget construction, the event
//! subscriptions, the bounded channel) lives outside the library and only
//! hands plain values in and out.

pub mod adapter;
pub mod engine;
pub mod laws;
pub mod model;
pub mod msg;
