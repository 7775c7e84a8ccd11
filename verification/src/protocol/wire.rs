//! Packets on the wire: a header followed by the payload bytes.
use vstd::prelude::*;

use crate::error::PeacockError;
use crate::protocol::header::{
    be16, be16_at, be32, be32_at, has_magic, header_decodes, spec_header_bytes, spec_header_valid,
    PacketHeader,
};
use crate::protocol::payload::WirePayload;
use crate::protocol::types::{spec_packet_code, PacketType, MAGIC, VERSION};

verus! {

/// The bytes of a packet of type `t` from `device_id` carrying `payload`:
/// the header (magic, version, type code, device id, payload length cut to
/// 32 bits, zeroed reserved bytes), then the payload.
pub open spec fn spec_packet(t: PacketType, device_id: Seq<u8>, payload: Seq<u8>) -> Seq<u8> {
    MAGIC@ + be16(VERSION) + be16(spec_packet_code(t)) + device_id + be32(payload.len() as u32)
        + seq![0u8, 0u8, 0u8, 0u8] + payload
}

/// Encode a payload.
pub fn encode_payload<T: WirePayload>(payload: &T) -> (res: Result<Vec<u8>, PeacockError>)
    ensures
        res is Ok,
        res matches Ok(b) ==> b@ == T::model_bytes(payload.model()),
{
    Ok(payload.encode())
}

/// Decode a payload from the opening bytes of `data`.
pub fn decode_payload<T: WirePayload>(data: &[u8]) -> (res: Result<T, PeacockError>)
    ensures
        res matches Ok(v) ==> T::parse(data@) == Some(v.model()),
        res is Err <==> T::parse(data@) is None,
        res matches Err(e) ==> e is Bincode,
{
    T::decode(data)
}

/// Build a complete packet (header + payload bytes).
pub fn build_packet(packet_type: PacketType, device_id: &[u8; 16], payload: &[u8]) -> (res: Vec<u8>)
    ensures
        res@ == spec_packet(packet_type, device_id@, payload@),
{
    let header = PacketHeader::new(packet_type, device_id, payload.len() as u32);
    let bytes = header.to_bytes();
    let mut buf: Vec<u8> = Vec::new();
    buf.extend_from_slice(bytes.as_slice());
    buf.extend_from_slice(payload);
    proof {
        assert(header.magic@ == MAGIC@);
        assert(buf@ =~= spec_packet(packet_type, device_id@, payload@));
    }
    buf
}

/// Build a complete packet from a payload value.
pub fn build_typed_packet<T: WirePayload>(
    packet_type: PacketType,
    device_id: &[u8; 16],
    payload: &T,
) -> (res: Result<Vec<u8>, PeacockError>)
    ensures
        res is Ok,
        res matches Ok(b) ==> b@ == spec_packet(
            packet_type,
            device_id@,
            T::model_bytes(payload.model()),
        ),
{
    let payload_bytes = encode_payload(payload)?;
    Ok(build_packet(packet_type, device_id, payload_bytes.as_slice()))
}

/// Check the header read from a stream before its payload is read: `Ok`
/// with the header when it carries the magic and the protocol version; a
/// network error otherwise.
pub fn check_header(buf: &[u8; 32]) -> (res: Result<PacketHeader, PeacockError>)
    ensures
        res is Ok <==> has_magic(buf@) && be16_at(buf@, 4) == VERSION,
        res matches Ok(h) ==> header_decodes(buf@, h) && spec_header_valid(h),
        !has_magic(buf@) ==> (res matches Err(PeacockError::Network(m)) && m@
            == "Invalid packet header"@),
        has_magic(buf@) && be16_at(buf@, 4) != VERSION ==> (res matches Err(
            PeacockError::Network(m),
        ) && m@ == "Invalid packet magic/version"@),
{
    let header = match PacketHeader::from_bytes(buf) {
        Some(h) => h,
        None => {
            return Err(PeacockError::Network("Invalid packet header".to_string()));
        },
    };
    if !header.is_valid() {
        return Err(PeacockError::Network("Invalid packet magic/version".to_string()));
    }
    Ok(header)
}

/// The bytes of a datagram that form a well-framed packet: at least a
/// header, opening with the magic, of the protocol version, and holding the
/// whole payload that the header announces.
pub open spec fn spec_well_framed(d: Seq<u8>) -> bool {
    &&& d.len() >= 32
    &&& has_magic(d)
    &&& be16_at(d, 4) == VERSION
    &&& 32 + be32_at(d, 24) <= d.len()
}

/// Split a received datagram into its header and payload. `None` when the
/// datagram is not a well-framed packet; bytes after the payload are dropped.
pub fn parse_datagram(datagram: &[u8]) -> (res: Option<(PacketHeader, Vec<u8>)>)
    ensures
        res is Some <==> spec_well_framed(datagram@),
        res matches Some((h, p)) ==> header_decodes(datagram@.subrange(0, 32), h)
            && spec_header_valid(h) && p@ == datagram@.subrange(32, 32 + h.payload_length),
{
    if datagram.len() < 32 {
        return None;
    }
    let mut head = [0u8; 32];
    let mut i: usize = 0;
    while i < 32
        invariant
            0 <= i <= 32,
            datagram@.len() >= 32,
            forall|j: int| 0 <= j < i ==> head@[j] == datagram@[j],
        decreases 32 - i,
    {
        head[i] = datagram[i];
        i = i + 1;
    }
    proof {
        assert(head@ =~= datagram@.subrange(0, 32));
    }
    let header = match PacketHeader::from_bytes(&head) {
        Some(h) => h,
        None => {
            proof {
                assert(datagram@.subrange(0, 4) =~= head@.subrange(0, 4));
            }
            return None;
        },
    };
    proof {
        assert(datagram@.subrange(0, 4) =~= head@.subrange(0, 4));
        assert(be16_at(datagram@, 4) == be16_at(head@, 4));
        assert(be32_at(datagram@, 24) == be32_at(head@, 24));
    }
    if !header.is_valid() {
        return None;
    }
    let len = header.payload_length as usize;
    if datagram.len() - 32 < len {
        return None;
    }
    let mut payload: Vec<u8> = Vec::new();
    payload.extend_from_slice(&datagram[32..32 + len]);
    Some((header, payload))
}

/// The payload carried by a packet built from a payload value reads back as
/// that value, whatever the packet type and sender.
pub proof fn law_packet_payload_round_trip<T: WirePayload>(
    t: PacketType,
    device_id: Seq<u8>,
    m: T::Model,
)
    requires
        device_id.len() == 16,
        T::model_fits(m),
        T::model_bytes(m).len() <= u32::MAX,
    ensures
        ({
            let d = spec_packet(t, device_id, T::model_bytes(m));
            &&& be16_at(d, 6) == spec_packet_code(t)
            &&& T::parse(d.subrange(32, 32 + be32_at(d, 24))) == Some(m)
        }),
{
    let b = T::model_bytes(m);
    law_packet_frames(t, device_id, b);
    T::law_round_trip(m, Seq::<u8>::empty());
    assert(b + Seq::<u8>::empty() =~= b);
}

/// A cut-short encoding of a payload is refused: no proper prefix of the
/// bytes of a content decodes (so `decode_payload` fails on it, with a
/// bincode error).
pub proof fn law_truncated_payload_refused<T: WirePayload>(m: T::Model, k: int)
    requires
        T::model_fits(m),
        0 <= k < T::model_bytes(m).len(),
    ensures
        T::parse(T::model_bytes(m).take(k)) is None,
{
    let b = T::model_bytes(m);
    let t = b.take(k);
    T::law_parse_prefix(t);
    if let Some(m2) = T::parse(t) {
        let b2 = T::model_bytes(m2);
        let rest = b.skip(b2.len() as int);
        assert(b2 =~= b.subrange(0, b2.len() as int));
        assert(b =~= b2 + rest);
        T::law_round_trip(m2, rest);
        T::law_round_trip(m, Seq::<u8>::empty());
        assert(b + Seq::<u8>::empty() =~= b);
        assert(m2 == m);
        assert(false);
    }
}

/// The header fields of a packet's bytes do not change when more bytes
/// follow it.
proof fn lemma_head_of_extended(d: Seq<u8>, rest: Seq<u8>)
    requires
        d.len() >= 32,
    ensures
        ({
            let head = (d + rest).subrange(0, 32);
            &&& head.subrange(0, 4) == d.subrange(0, 4)
            &&& be16_at(head, 4) == be16_at(d, 4)
            &&& be16_at(head, 6) == be16_at(d, 6)
            &&& head.subrange(8, 24) == d.subrange(8, 24)
            &&& be32_at(head, 24) == be32_at(d, 24)
        }),
{
    let head = (d + rest).subrange(0, 32);
    assert(head =~= d.subrange(0, 32));
    assert(head.subrange(0, 4) =~= d.subrange(0, 4));
    assert(head.subrange(8, 24) =~= d.subrange(8, 24));
}

/// A packet read back from a stream that holds it, followed by anything:
/// the first 32 bytes pass the header check and give the type code, the
/// sender and the payload length; the next `payload_length` bytes are the
/// payload; what follows is left for the next read.
pub proof fn law_stream_packet_read_back(
    t: PacketType,
    device_id: Seq<u8>,
    payload: Seq<u8>,
    rest: Seq<u8>,
)
    requires
        device_id.len() == 16,
        payload.len() <= u32::MAX,
    ensures
        ({
            let s = spec_packet(t, device_id, payload) + rest;
            let head = s.subrange(0, 32);
            &&& has_magic(head)
            &&& be16_at(head, 4) == VERSION
            &&& be16_at(head, 6) == spec_packet_code(t)
            &&& head.subrange(8, 24) == device_id
            &&& be32_at(head, 24) == payload.len()
            &&& s.subrange(32, 32 + payload.len() as int) == payload
            &&& s.skip(32 + payload.len() as int) == rest
        }),
{
    let d = spec_packet(t, device_id, payload);
    law_packet_frames(t, device_id, payload);
    assert(d.len() == 32 + payload.len());
    lemma_head_of_extended(d, rest);
    let s = d + rest;
    assert(s.subrange(32, 32 + payload.len() as int) =~= d.subrange(32, 32 + payload.len() as int));
    assert(s.skip(32 + payload.len() as int) =~= rest);
}

/// A packet built for a payload that fits the 32-bit length is well framed,
/// and its header gives back the type code, the device id and the payload.
pub proof fn law_packet_frames(t: PacketType, device_id: Seq<u8>, payload: Seq<u8>)
    requires
        device_id.len() == 16,
        payload.len() <= u32::MAX,
    ensures
        ({
            let d = spec_packet(t, device_id, payload);
            &&& spec_well_framed(d)
            &&& be16_at(d, 6) == spec_packet_code(t)
            &&& d.subrange(8, 24) == device_id
            &&& be32_at(d, 24) == payload.len()
            &&& d.subrange(32, 32 + be32_at(d, 24)) == payload
        }),
{
    let d = spec_packet(t, device_id, payload);
    let c = spec_packet_code(t);
    let n = payload.len() as u32;
    assert(d.subrange(0, 4) =~= MAGIC@);
    assert(d[4] == be16(VERSION)[0] && d[5] == be16(VERSION)[1]);
    assert(d[6] == be16(c)[0] && d[7] == be16(c)[1]);
    assert(d[24] == be32(n)[0] && d[25] == be32(n)[1] && d[26] == be32(n)[2] && d[27] == be32(n)[3]);
    assert(c / 256 * 256 + c % 256 == c);
    assert((n / 16777216) * 16777216 + ((n / 65536) % 256) * 65536 + ((n / 256) % 256) * 256 + n
        % 256 == n) by (bit_vector);
    assert(d.subrange(8, 24) =~= device_id);
    assert(d.subrange(32, 32 + payload.len() as int) =~= payload);
}

} // verus!
