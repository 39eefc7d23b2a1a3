//! Core of a line-delimited socket server: wire codec, connection registry,
//! bounded ingress queue, request processor and response dispatcher, together
//! with the application-wide configuration model.
//!
//! Network transport, async scheduling and file handling live outside this
//! crate; everything here is plain data and verified logic.

pub mod config;
pub mod dispatcher;
pub mod events;
pub mod ingress;
pub mod processor;
pub mod protocol;
pub mod registry;
pub mod server;
