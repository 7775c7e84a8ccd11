use vstd::prelude::*;

verus! {

/// Magic bytes opening every packet: "PCOK".
pub const MAGIC: [u8; 4] = [0x50u8, 0x43u8, 0x4Fu8, 0x4Bu8];

/// Protocol version.
pub const VERSION: u16 = 1;

/// UDP discovery port.
pub const DISCOVERY_PORT: u16 = 52000;

/// TCP messaging/signaling port.
pub const MESSAGING_PORT: u16 = 52001;

/// Multicast group address for discovery.
pub const MULTICAST_ADDR: &'static str = "224.0.1.100";

/// Discovery beacon interval in seconds.
pub const BEACON_INTERVAL_SECS: u64 = 10;

/// Device offline timeout in seconds.
pub const OFFLINE_TIMEOUT_SECS: u64 = 30;

/// File transfer chunk size (64 KiB).
pub const CHUNK_SIZE: usize = 65536;

/// TCP probe concurrency (for active scanning).
pub const PROBE_CONCURRENCY: usize = 50;

/// The kinds of packets of the protocol. Each has a fixed 16-bit code,
/// given by `PacketType::code`.
#[derive(Debug, Clone, Copy, PartialEq, Eq, Structural)]
pub enum PacketType {
    /// UDP broadcast: device announcement
    Announce,
    /// UDP: device going offline
    Bye,
    /// UDP unicast: response to an Announce (proves the device is alive)
    AnnounceResponse,
    /// Text message
    Text,
    /// File transfer offer
    FileOffer,
    /// File transfer accepted
    FileAccept,
    /// File transfer rejected
    FileReject,
    /// File data chunk
    FileChunk,
    /// Clipboard content
    Clipboard,
    /// Snippet share
    SnippetShare,
    /// Acknowledgment
    Ack,
}

/// The wire code of each packet type.
pub open spec fn spec_packet_code(t: PacketType) -> u16 {
    match t {
        PacketType::Announce => 1,
        PacketType::Bye => 2,
        PacketType::AnnounceResponse => 3,
        PacketType::Text => 10,
        PacketType::FileOffer => 20,
        PacketType::FileAccept => 21,
        PacketType::FileReject => 22,
        PacketType::FileChunk => 23,
        PacketType::Clipboard => 30,
        PacketType::SnippetShare => 31,
        PacketType::Ack => 99,
    }
}

/// The packet type that a wire code names, if any.
pub open spec fn spec_packet_from_code(v: u16) -> Option<PacketType> {
    if v == 1 {
        Some(PacketType::Announce)
    } else if v == 2 {
        Some(PacketType::Bye)
    } else if v == 3 {
        Some(PacketType::AnnounceResponse)
    } else if v == 10 {
        Some(PacketType::Text)
    } else if v == 20 {
        Some(PacketType::FileOffer)
    } else if v == 21 {
        Some(PacketType::FileAccept)
    } else if v == 22 {
        Some(PacketType::FileReject)
    } else if v == 23 {
        Some(PacketType::FileChunk)
    } else if v == 30 {
        Some(PacketType::Clipboard)
    } else if v == 31 {
        Some(PacketType::SnippetShare)
    } else if v == 99 {
        Some(PacketType::Ack)
    } else {
        None
    }
}

impl PacketType {
    /// The 16-bit code that identifies this packet type on the wire.
    pub fn code(self) -> (res: u16)
        ensures
            res == spec_packet_code(self),
    {
        match self {
            PacketType::Announce => 1,
            PacketType::Bye => 2,
            PacketType::AnnounceResponse => 3,
            PacketType::Text => 10,
            PacketType::FileOffer => 20,
            PacketType::FileAccept => 21,
            PacketType::FileReject => 22,
            PacketType::FileChunk => 23,
            PacketType::Clipboard => 30,
            PacketType::SnippetShare => 31,
            PacketType::Ack => 99,
        }
    }

    /// The packet type with wire code `v`, or `None` for an unknown code.
    pub fn from_u16(v: u16) -> (res: Option<PacketType>)
        ensures
            res == spec_packet_from_code(v),
    {
        match v {
            1 => Some(PacketType::Announce),
            2 => Some(PacketType::Bye),
            3 => Some(PacketType::AnnounceResponse),
            10 => Some(PacketType::Text),
            20 => Some(PacketType::FileOffer),
            21 => Some(PacketType::FileAccept),
            22 => Some(PacketType::FileReject),
            23 => Some(PacketType::FileChunk),
            30 => Some(PacketType::Clipboard),
            31 => Some(PacketType::SnippetShare),
            99 => Some(PacketType::Ack),
            _ => None,
        }
    }
}

/// Every packet type is recovered from its own code.
pub proof fn law_packet_code_round_trip(t: PacketType)
    ensures
        spec_packet_from_code(spec_packet_code(t)) == Some(t),
{
}

/// A code that names a packet type is that type's code: distinct types
/// have distinct codes, and no other code is accepted.
pub proof fn law_packet_code_exact(v: u16)
    ensures
        spec_packet_from_code(v) matches Some(t) ==> spec_packet_code(t) == v,
{
}

/// Payload of an Announce or AnnounceResponse packet.
#[derive(Debug, Clone)]
pub struct AnnouncePayload {
    pub device_name: String,
    pub platform: String,
    pub tcp_port: u16,
    pub features: u32,
    /// Devices known to be broadcast-restricted (included in broadcasts to
    /// help them be discovered).
    pub restricted_peers: Vec<PeerInfo>,
}

/// Compact device info for the restricted peers list.
#[derive(Debug, Clone)]
pub struct PeerInfo {
    pub device_id: String,
    pub device_name: String,
    pub ip_addr: String,
    pub tcp_port: u16,
    pub platform: String,
}

/// Payload of a Text packet.
#[derive(Debug, Clone)]
pub struct TextPayload {
    pub message_id: String,
    pub text: String,
    pub timestamp: u64,
}

/// Payload of a FileOffer packet.
#[derive(Debug, Clone)]
pub struct FileOfferPayload {
    pub transfer_id: String,
    pub file_name: String,
    pub file_size: u64,
    pub is_folder: bool,
    pub file_count: u32,
}

/// Payload of a FileAccept packet.
#[derive(Debug, Clone)]
pub struct FileAcceptPayload {
    pub transfer_id: String,
    pub receiver_port: u16,
    pub resume_offset: u64,
}

/// Payload of a FileReject packet.
#[derive(Debug, Clone)]
pub struct FileRejectPayload {
    pub transfer_id: String,
}

/// Payload of a Clipboard packet.
#[derive(Debug, Clone)]
pub struct ClipboardPayload {
    pub content: String,
    pub content_type: String,
}

/// Payload of a SnippetShare packet.
#[derive(Debug, Clone)]
pub struct SnippetSharePayload {
    pub title: String,
    pub content: String,
    pub tag: String,
    pub note: String,
}

} // verus!
