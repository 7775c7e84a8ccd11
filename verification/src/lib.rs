//! Peacock: LAN discovery, messaging and file-transfer logic.
//!
//! The library holds the packet format, the payload codec, the device
//! registries kept by the discovery layer, the transfer tracker and the
//! decisions taken by the network loops. Sockets, the database and the UI
//! bridge live in the application crate.
pub mod clipboard;
pub mod clock;
pub mod discovery;
pub mod error;
pub mod keyed;
pub mod launch;
pub mod messaging;
pub mod net_util;
pub mod protocol;
pub mod session;
pub mod text;
pub mod transfer;
