//! The decision core of a TCP traffic stealer.
//!
//! Inbound connections to selected ports of a workload are diverted to remote
//! clients, either as whole byte streams or request by request through HTTP
//! filters. This crate holds the bookkeeping and the decisions: which client
//! owns which port and connection, which identifiers are live, and what has to
//! be sent, opened or closed in answer to each event. Sockets and channels stay
//! with the caller, who feeds events in and carries the returned actions out.

pub mod action;
pub mod clients;
pub mod filter;
pub mod filter_task;
pub mod fs;
pub mod index_allocator;
pub mod laws;
pub mod model;
pub mod preservation;
pub mod protocol;
pub mod relation;
pub mod stealer;
pub mod subscriptions;
pub mod version;
