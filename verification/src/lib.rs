//! A transport-agnostic networking facade.
//!
//! The library lets an application send and receive byte messages over either
//! of two transports — a native socket transport (TCP/UDP) and a
//! browser-compatible datagram transport — without call sites knowing which
//! backend a given peer uses. Peers are named uniformly by [`shared::ConnectionHandle`],
//! per-message-type lanes by [`shared::MessageChannelID`], and the application
//! touches only [`resource::NetworkResource`], which composes one adapter per
//! compiled capability.
//!
//! The byte-level socket and datagram backends, the async runtime that drives
//! them, and payload serialization are external collaborators: they talk to
//! this core only through the adapter boundary functions (accepting a
//! connection, delivering inbound bytes, draining outbound queues), which take
//! and return plain values.

pub mod adapter;
pub mod channel;
pub mod frame;
pub mod pump;
pub mod resource;
pub mod shared;
