//! Core of a live-activity push-notification scheduler: per-device delivery
//! schedules with cancellation and supersession, a push-token registry, and a
//! shared signed bearer credential that is refreshed on a fixed cadence.
//!
//! The surrounding process (HTTP routing, timers, channels, the delivery
//! transport) drives these components; everything here is plain data and
//! verified decision logic.
pub mod authtoken;
pub mod cancel;
pub mod models;
pub mod registry;
pub mod scheduler;
pub mod util;
