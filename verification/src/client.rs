//! The client installation: its identity, what it keeps locally, what it
//! reports, how it adopts a pushed configuration, and when it syncs.

pub mod error;
pub mod identity;
pub mod providers;
pub mod schedule;
pub mod settings;
pub mod snapshot;
pub mod sync;
