//! The management service: who may call it, what it keeps of each device,
//! and what each request does to that state.

pub mod admin;
pub mod auth;
pub mod batch;
pub mod error;
pub mod model;
pub mod origin;
pub mod registry;
pub mod service;
pub mod snapshots;
