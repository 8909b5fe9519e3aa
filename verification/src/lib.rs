//! Verified core of a client for the Chromium remote debugging protocol.
//!
//! The library is sans-io: it holds the wire codec, the per-subsystem
//! command chains, the frame/network/emulation managers, the per-target
//! state machine and the handler's dispatch logic, all as plain state
//! machines over plain values. An embedding runs the transport and the
//! channels and feeds frames and messages in.

pub mod chain;
pub mod codec;
pub mod emulation;
pub mod frame;
pub mod handler;
pub mod network;
pub mod page;
pub mod strutil;
pub mod target;
pub mod types;
