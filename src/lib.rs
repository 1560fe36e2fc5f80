//! Control plane of a cross-process object-reference RPC framework.
//!
//! - [`ipc`]: the transport channel contract and a verified mailbox that
//!   decides what a blocking receive returns.
//! - [`wire`]: the byte framing of call and response messages.
//! - [`port`]: the registry that maps object ids to dispatch capabilities.
//! - [`service`]: handles, dispatch and the export/import seams.
pub mod ipc;
pub mod port;
pub mod service;
pub mod wire;
