//! Device discovery state.
//!
//! `device` is the registry of a device that messages over UDP and also
//! tracks which peers are broadcast-restricted; `presence` is the registry
//! of a device that messages over the TCP port and records presence only.
//! `listener` holds the decisions taken on received datagrams for both.
pub mod device;
pub mod listener;
pub mod presence;
