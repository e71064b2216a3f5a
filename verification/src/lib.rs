//! Local-network discovery engine.
//!
//! The library covers the logic of a host scanner: a bit-exact codec for a
//! DNS-family wire protocol (RFC 1035 framing with name compression, plus the
//! legacy NetBIOS node-status layout), a port-list parser, liveness-probe and
//! reverse-resolution decision rules, and the bookkeeping of a concurrent
//! scan: a keyed result store, per-target pipeline states, and cooperative
//! cancellation guards. Sockets, threads and the terminal front end live
//! outside the library and drive it through plain values.

pub mod addr;
pub mod config;
pub mod dns;
pub mod error;
pub mod host;
pub mod ping;
pub mod ports;
pub mod resolve;
pub mod scan;
pub mod service;
pub mod state;
pub mod text;
pub mod ui;
