//! Messages between devices: what a received packet carries, the time shown
//! for a text, and the text packets this device sends.
use vstd::prelude::*;

use crate::protocol::payload::WirePayload;
use crate::protocol::types::{
    spec_packet_from_code, FileAcceptPayload, FileOfferPayload, FileRejectPayload, PacketType,
    SnippetSharePayload, TextPayload,
};
use crate::protocol::header::{be16_at, be32_at};
use crate::protocol::wire::{decode_payload, law_packet_payload_round_trip, spec_packet};
use crate::session::is_fresh_id_text;
use crate::text::new_uuid_text;

verus! {

/// What a packet handed to the messaging handler carries.
#[derive(Debug)]
pub enum Incoming {
    Text(TextPayload),
    FileOffer(FileOfferPayload),
    FileAccept(FileAcceptPayload),
    FileReject(FileRejectPayload),
    SnippetShare(SnippetSharePayload),
    /// Clipboard content, which is only noted.
    Clipboard,
    /// A packet of a handled kind whose payload does not decode.
    Malformed(PacketType),
    /// A packet of a kind the handler leaves alone, by its type code.
    Unhandled(u16),
}

/// What a packet of type code `code` with payload bytes `payload` carries.
pub open spec fn spec_incoming(code: u16, payload: Seq<u8>, r: Incoming) -> bool {
    match spec_packet_from_code(code) {
        Some(PacketType::Text) => match <TextPayload as WirePayload>::parse(payload) {
            Some(m) => r matches Incoming::Text(p) && p.model() == m,
            None => r == Incoming::Malformed(PacketType::Text),
        },
        Some(PacketType::FileOffer) => match <FileOfferPayload as WirePayload>::parse(payload) {
            Some(m) => r matches Incoming::FileOffer(p) && p.model() == m,
            None => r == Incoming::Malformed(PacketType::FileOffer),
        },
        Some(PacketType::FileAccept) => match <FileAcceptPayload as WirePayload>::parse(payload) {
            Some(m) => r matches Incoming::FileAccept(p) && p.model() == m,
            None => r == Incoming::Malformed(PacketType::FileAccept),
        },
        Some(PacketType::FileReject) => match <FileRejectPayload as WirePayload>::parse(payload) {
            Some(m) => r matches Incoming::FileReject(p) && p.model() == m,
            None => r == Incoming::Malformed(PacketType::FileReject),
        },
        Some(PacketType::SnippetShare) => match <SnippetSharePayload as WirePayload>::parse(
            payload,
        ) {
            Some(m) => r matches Incoming::SnippetShare(p) && p.model() == m,
            None => r == Incoming::Malformed(PacketType::SnippetShare),
        },
        Some(PacketType::Clipboard) => r is Clipboard,
        _ => r == Incoming::Unhandled(code),
    }
}

/// Decode the payload of a packet of type code `packet_type` by its kind.
pub fn decode_incoming(packet_type: u16, payload: &[u8]) -> (res: Incoming)
    ensures
        spec_incoming(packet_type, payload@, res),
{
    match PacketType::from_u16(packet_type) {
        Some(PacketType::Text) => match decode_payload::<TextPayload>(payload) {
            Ok(p) => Incoming::Text(p),
            Err(_) => Incoming::Malformed(PacketType::Text),
        },
        Some(PacketType::FileOffer) => match decode_payload::<FileOfferPayload>(payload) {
            Ok(p) => Incoming::FileOffer(p),
            Err(_) => Incoming::Malformed(PacketType::FileOffer),
        },
        Some(PacketType::FileAccept) => match decode_payload::<FileAcceptPayload>(payload) {
            Ok(p) => Incoming::FileAccept(p),
            Err(_) => Incoming::Malformed(PacketType::FileAccept),
        },
        Some(PacketType::FileReject) => match decode_payload::<FileRejectPayload>(payload) {
            Ok(p) => Incoming::FileReject(p),
            Err(_) => Incoming::Malformed(PacketType::FileReject),
        },
        Some(PacketType::SnippetShare) => match decode_payload::<SnippetSharePayload>(payload) {
            Ok(p) => Incoming::SnippetShare(p),
            Err(_) => Incoming::Malformed(PacketType::SnippetShare),
        },
        Some(PacketType::Clipboard) => Incoming::Clipboard,
        _ => Incoming::Unhandled(packet_type),
    }
}

/// The time shown for a received text: the sender's timestamp, or the time
/// of receipt when the sender gave none (0).
pub fn message_timestamp(sent_at: u64, received_at: u64) -> (res: u64)
    ensures
        res == if sent_at > 0 {
            sent_at
        } else {
            received_at
        },
{
    if sent_at > 0 {
        sent_at
    } else {
        received_at
    }
}

/// A text to send, under a fresh message id, stamped `now_ms`.
pub fn compose_text(text: String, now_ms: u64) -> (res: TextPayload)
    ensures
        is_fresh_id_text(res.message_id@),
        res.text == text,
        res.timestamp == now_ms,
{
    TextPayload { message_id: new_uuid_text(), text, timestamp: now_ms }
}


/// A Text packet that one device builds from a payload is received by its
/// peer as that payload: what the handler gets is a `Text` with the same
/// content.
pub proof fn law_text_delivered(
    device_id: Seq<u8>,
    m: <TextPayload as WirePayload>::Model,
    received: Incoming,
)
    requires
        device_id.len() == 16,
        <TextPayload as WirePayload>::model_fits(m),
        <TextPayload as WirePayload>::model_bytes(m).len() <= u32::MAX,
        ({
            let d = spec_packet(PacketType::Text, device_id, <TextPayload as WirePayload>::model_bytes(m));
            spec_incoming(be16_at(d, 6), d.subrange(32, 32 + be32_at(d, 24)), received)
        }),
    ensures
        received matches Incoming::Text(p) && p.model() == m,
{
    law_packet_payload_round_trip::<TextPayload>(PacketType::Text, device_id, m);
}

/// A FileOffer packet that one device builds from a payload is received by its
/// peer as that payload: what the handler gets is a `FileOffer` with the same
/// content.
pub proof fn law_file_offer_delivered(
    device_id: Seq<u8>,
    m: <FileOfferPayload as WirePayload>::Model,
    received: Incoming,
)
    requires
        device_id.len() == 16,
        <FileOfferPayload as WirePayload>::model_fits(m),
        <FileOfferPayload as WirePayload>::model_bytes(m).len() <= u32::MAX,
        ({
            let d = spec_packet(PacketType::FileOffer, device_id, <FileOfferPayload as WirePayload>::model_bytes(m));
            spec_incoming(be16_at(d, 6), d.subrange(32, 32 + be32_at(d, 24)), received)
        }),
    ensures
        received matches Incoming::FileOffer(p) && p.model() == m,
{
    law_packet_payload_round_trip::<FileOfferPayload>(PacketType::FileOffer, device_id, m);
}

/// A FileAccept packet that one device builds from a payload is received by its
/// peer as that payload: what the handler gets is a `FileAccept` with the same
/// content.
pub proof fn law_file_accept_delivered(
    device_id: Seq<u8>,
    m: <FileAcceptPayload as WirePayload>::Model,
    received: Incoming,
)
    requires
        device_id.len() == 16,
        <FileAcceptPayload as WirePayload>::model_fits(m),
        <FileAcceptPayload as WirePayload>::model_bytes(m).len() <= u32::MAX,
        ({
            let d = spec_packet(PacketType::FileAccept, device_id, <FileAcceptPayload as WirePayload>::model_bytes(m));
            spec_incoming(be16_at(d, 6), d.subrange(32, 32 + be32_at(d, 24)), received)
        }),
    ensures
        received matches Incoming::FileAccept(p) && p.model() == m,
{
    law_packet_payload_round_trip::<FileAcceptPayload>(PacketType::FileAccept, device_id, m);
}

/// A FileReject packet that one device builds from a payload is received by its
/// peer as that payload: what the handler gets is a `FileReject` with the same
/// content.
pub proof fn law_file_reject_delivered(
    device_id: Seq<u8>,
    m: <FileRejectPayload as WirePayload>::Model,
    received: Incoming,
)
    requires
        device_id.len() == 16,
        <FileRejectPayload as WirePayload>::model_fits(m),
        <FileRejectPayload as WirePayload>::model_bytes(m).len() <= u32::MAX,
        ({
            let d = spec_packet(PacketType::FileReject, device_id, <FileRejectPayload as WirePayload>::model_bytes(m));
            spec_incoming(be16_at(d, 6), d.subrange(32, 32 + be32_at(d, 24)), received)
        }),
    ensures
        received matches Incoming::FileReject(p) && p.model() == m,
{
    law_packet_payload_round_trip::<FileRejectPayload>(PacketType::FileReject, device_id, m);
}

/// A SnippetShare packet that one device builds from a payload is received by its
/// peer as that payload: what the handler gets is a `SnippetShare` with the same
/// content.
pub proof fn law_snippet_share_delivered(
    device_id: Seq<u8>,
    m: <SnippetSharePayload as WirePayload>::Model,
    received: Incoming,
)
    requires
        device_id.len() == 16,
        <SnippetSharePayload as WirePayload>::model_fits(m),
        <SnippetSharePayload as WirePayload>::model_bytes(m).len() <= u32::MAX,
        ({
            let d = spec_packet(PacketType::SnippetShare, device_id, <SnippetSharePayload as WirePayload>::model_bytes(m));
            spec_incoming(be16_at(d, 6), d.subrange(32, 32 + be32_at(d, 24)), received)
        }),
    ensures
        received matches Incoming::SnippetShare(p) && p.model() == m,
{
    law_packet_payload_round_trip::<SnippetSharePayload>(PacketType::SnippetShare, device_id, m);
}

} // verus!
