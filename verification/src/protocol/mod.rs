//! The Peacock binary protocol: constants, packet types, the 32-byte
//! header and the payload encoding.
pub mod codec;
pub mod payload;
pub mod types;
pub mod header;
pub mod layout;
pub mod wire;
