//! Device configuration synchronisation: the protocol between client
//! installations and the management service, and the state on both sides.

pub mod client;
pub mod decimal;
pub mod document;
pub mod ordering;
pub mod secret;
pub mod server;
pub mod text;
pub mod text_map;
pub mod time;
