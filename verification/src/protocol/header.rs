use vstd::prelude::*;

use crate::protocol::types::{PacketType, MAGIC, VERSION, spec_packet_code, spec_packet_from_code};

verus! {

/// The two big-endian bytes of a 16-bit value.
pub open spec fn be16(v: u16) -> Seq<u8> {
    seq![(v / 256) as u8, (v % 256) as u8]
}

/// The four big-endian bytes of a 32-bit value.
pub open spec fn be32(v: u32) -> Seq<u8> {
    seq![(v / 16777216) as u8, ((v / 65536) % 256) as u8, ((v / 256) % 256) as u8, (v % 256) as u8]
}

/// The 16-bit value read big-endian at offset `i` of `b`.
pub open spec fn be16_at(b: Seq<u8>, i: int) -> u16 {
    (b[i] * 256 + b[i + 1]) as u16
}

/// The 32-bit value read big-endian at offset `i` of `b`.
pub open spec fn be32_at(b: Seq<u8>, i: int) -> u32 {
    (b[i] * 16777216 + b[i + 1] * 65536 + b[i + 2] * 256 + b[i + 3]) as u32
}

/// Packet header: 32 bytes on the wire.
///
/// Layout: magic (4), version (2, big-endian), packet type (2, big-endian),
/// device id (16), payload length (4, big-endian), reserved (4).
#[derive(Debug, Clone, Copy)]
pub struct PacketHeader {
    pub magic: [u8; 4],
    pub version: u16,
    pub packet_type: u16,
    pub device_id: [u8; 16],
    pub payload_length: u32,
    pub reserved: [u8; 4],
}

/// The 32 bytes that encode a header.
pub open spec fn spec_header_bytes(h: PacketHeader) -> Seq<u8> {
    h.magic@ + be16(h.version) + be16(h.packet_type) + h.device_id@ + be32(h.payload_length)
        + h.reserved@
}

/// `h` is the header that the 32 bytes `b` describe, field by field.
pub open spec fn header_decodes(b: Seq<u8>, h: PacketHeader) -> bool {
    &&& b.len() == 32
    &&& h.magic@ == b.subrange(0, 4)
    &&& h.version == be16_at(b, 4)
    &&& h.packet_type == be16_at(b, 6)
    &&& h.device_id@ == b.subrange(8, 24)
    &&& h.payload_length == be32_at(b, 24)
    &&& h.reserved@ == b.subrange(28, 32)
}

/// The bytes open with the protocol magic.
pub open spec fn has_magic(b: Seq<u8>) -> bool {
    b.len() >= 4 && b.subrange(0, 4) == MAGIC@
}

/// A header is valid when it carries the magic and the protocol version.
pub open spec fn spec_header_valid(h: PacketHeader) -> bool {
    h.magic@ == MAGIC@ && h.version == VERSION
}

proof fn lemma_be16(v: u16)
    ensures
        be16_at(be16(v), 0) == v,
{
    let b = be16(v);
    assert(b[0] == v / 256);
    assert(b[1] == v % 256);
}

proof fn lemma_be32(v: u32)
    ensures
        be32_at(be32(v), 0) == v,
{
    assert((v / 16777216) * 16777216 + ((v / 65536) % 256) * 65536 + ((v / 256) % 256) * 256 + v
        % 256 == v) by (bit_vector);
}

proof fn lemma_be16_back(b0: u8, b1: u8)
    ensures
        be16(be16_at(seq![b0, b1], 0)) == seq![b0, b1],
{
    let v = be16_at(seq![b0, b1], 0);
    assert(v == b0 * 256 + b1);
    assert(be16(v) =~= seq![b0, b1]);
}

proof fn lemma_be32_back(b0: u8, b1: u8, b2: u8, b3: u8)
    ensures
        be32(be32_at(seq![b0, b1, b2, b3], 0)) == seq![b0, b1, b2, b3],
{
    let v: u32 = (b0 * 16777216 + b1 * 65536 + b2 * 256 + b3) as u32;
    assert(be32_at(seq![b0, b1, b2, b3], 0) == v);
    assert(v == b0 as u32 * 16777216 + b1 as u32 * 65536 + b2 as u32 * 256 + b3 as u32);
    assert(v == b0 as u32 * 16777216 + b1 as u32 * 65536 + b2 as u32 * 256 + b3 as u32 ==> (v
        / 16777216) as u8 == b0 && ((v / 65536) % 256) as u8 == b1 && ((v / 256) % 256) as u8 == b2
        && (v % 256) as u8 == b3) by (bit_vector);
    assert(be32(v) =~= seq![b0, b1, b2, b3]);
}

/// Encoding a header and reading the bytes back gives every field again.
pub proof fn law_header_bytes_decode(h: PacketHeader)
    ensures
        header_decodes(spec_header_bytes(h), h),
        spec_header_bytes(h).len() == 32,
{
    let b = spec_header_bytes(h);
    lemma_be16(h.version);
    lemma_be16(h.packet_type);
    lemma_be32(h.payload_length);
    assert(b.subrange(0, 4) =~= h.magic@);
    assert(b.subrange(4, 6) =~= be16(h.version));
    assert(b.subrange(6, 8) =~= be16(h.packet_type));
    assert(b.subrange(8, 24) =~= h.device_id@);
    assert(b.subrange(24, 28) =~= be32(h.payload_length));
    assert(b.subrange(28, 32) =~= h.reserved@);
    assert(be16_at(b, 4) == be16_at(be16(h.version), 0));
    assert(be16_at(b, 6) == be16_at(be16(h.packet_type), 0));
    assert(be32_at(b, 24) == be32_at(be32(h.payload_length), 0));
}

/// A header read from 32 bytes encodes back to exactly those bytes.
pub proof fn law_header_decode_bytes(b: Seq<u8>, h: PacketHeader)
    requires
        header_decodes(b, h),
    ensures
        spec_header_bytes(h) == b,
{
    lemma_be16_back(b[4], b[5]);
    lemma_be16_back(b[6], b[7]);
    lemma_be32_back(b[24], b[25], b[26], b[27]);
    assert(be16_at(seq![b[4], b[5]], 0) == be16_at(b, 4));
    assert(be16_at(seq![b[6], b[7]], 0) == be16_at(b, 6));
    assert(be32_at(seq![b[24], b[25], b[26], b[27]], 0) == be32_at(b, 24));
    assert(spec_header_bytes(h) =~= b);
}

/// Two headers read from the same bytes agree on every field.
pub proof fn law_header_decode_unique(b: Seq<u8>, h1: PacketHeader, h2: PacketHeader)
    requires
        header_decodes(b, h1),
        header_decodes(b, h2),
    ensures
        h1.magic@ == h2.magic@,
        h1.version == h2.version,
        h1.packet_type == h2.packet_type,
        h1.device_id@ == h2.device_id@,
        h1.payload_length == h2.payload_length,
        h1.reserved@ == h2.reserved@,
{
}

impl PacketHeader {
    pub const SIZE: usize = 32;

    /// A header of the given type for a payload of the given length,
    /// carrying the magic, the protocol version and zeroed reserved bytes.
    pub fn new(packet_type: PacketType, device_id: &[u8; 16], payload_length: u32) -> (res: Self)
        ensures
            res.magic@ == MAGIC@,
            res.version == VERSION,
            res.packet_type == spec_packet_code(packet_type),
            res.device_id@ == device_id@,
            res.payload_length == payload_length,
            res.reserved@ == seq![0u8, 0u8, 0u8, 0u8],
            spec_header_valid(res),
    {
        let res = PacketHeader {
            magic: MAGIC,
            version: VERSION,
            packet_type: packet_type.code(),
            device_id: *device_id,
            payload_length,
            reserved: [0u8; 4],
        };
        assert(res.reserved@ =~= seq![0u8, 0u8, 0u8, 0u8]);
        res
    }

    /// The 32 wire bytes of this header.
    pub fn to_bytes(&self) -> (res: [u8; 32])
        ensures
            res@ == spec_header_bytes(*self),
    {
        let v = self.version;
        let t = self.packet_type;
        let l = self.payload_length;
        let res: [u8; 32] = [
            self.magic[0],
            self.magic[1],
            self.magic[2],
            self.magic[3],
            (v / 256) as u8,
            (v % 256) as u8,
            (t / 256) as u8,
            (t % 256) as u8,
            self.device_id[0],
            self.device_id[1],
            self.device_id[2],
            self.device_id[3],
            self.device_id[4],
            self.device_id[5],
            self.device_id[6],
            self.device_id[7],
            self.device_id[8],
            self.device_id[9],
            self.device_id[10],
            self.device_id[11],
            self.device_id[12],
            self.device_id[13],
            self.device_id[14],
            self.device_id[15],
            (l / 16777216) as u8,
            ((l / 65536) % 256) as u8,
            ((l / 256) % 256) as u8,
            (l % 256) as u8,
            self.reserved[0],
            self.reserved[1],
            self.reserved[2],
            self.reserved[3],
        ];
        assert(res@ =~= spec_header_bytes(*self));
        res
    }

    /// Reads a header from 32 bytes. Returns `None` exactly when the bytes
    /// do not open with the magic; the version is not checked here.
    pub fn from_bytes(buf: &[u8; 32]) -> (res: Option<Self>)
        ensures
            res is Some <==> has_magic(buf@),
            res matches Some(h) ==> header_decodes(buf@, h),
    {
        if buf[0] != MAGIC[0] || buf[1] != MAGIC[1] || buf[2] != MAGIC[2] || buf[3] != MAGIC[3] {
            proof {
                if has_magic(buf@) {
                    assert(buf@.subrange(0, 4)[0] == buf@[0]);
                    assert(buf@.subrange(0, 4)[1] == buf@[1]);
                    assert(buf@.subrange(0, 4)[2] == buf@[2]);
                    assert(buf@.subrange(0, 4)[3] == buf@[3]);
                }
            }
            return None;
        }
        let version = (buf[4] as u16) * 256 + (buf[5] as u16);
        let packet_type = (buf[6] as u16) * 256 + (buf[7] as u16);
        let mut device_id = [0u8; 16];
        let mut i: usize = 0;
        while i < 16
            invariant
                0 <= i <= 16,
                forall|j: int| 0 <= j < i ==> device_id@[j] == buf@[8 + j],
            decreases 16 - i,
        {
            device_id[i] = buf[8 + i];
            i = i + 1;
        }
        let payload_length = (buf[24] as u32) * 16777216 + (buf[25] as u32) * 65536
            + (buf[26] as u32) * 256 + (buf[27] as u32);
        let reserved = [buf[28], buf[29], buf[30], buf[31]];
        let h = PacketHeader {
            magic: MAGIC,
            version,
            packet_type,
            device_id,
            payload_length,
            reserved,
        };
        assert(h.magic@ =~= buf@.subrange(0, 4));
        assert(h.device_id@ =~= buf@.subrange(8, 24));
        assert(h.reserved@ =~= buf@.subrange(28, 32));
        Some(h)
    }

    /// The packet type named by this header's code, if it is known.
    pub fn get_packet_type(&self) -> (res: Option<PacketType>)
        ensures
            res == spec_packet_from_code(self.packet_type),
    {
        PacketType::from_u16(self.packet_type)
    }

    /// Whether the header carries the magic and the protocol version.
    pub fn is_valid(&self) -> (res: bool)
        ensures
            res == spec_header_valid(*self),
    {
        let res = self.magic[0] == MAGIC[0] && self.magic[1] == MAGIC[1]
            && self.magic[2] == MAGIC[2] && self.magic[3] == MAGIC[3] && self.version == VERSION;
        proof {
            if res {
                assert(self.magic@ =~= MAGIC@);
            }
            if self.magic@ == MAGIC@ {
                assert(self.magic@[0] == MAGIC@[0]);
                assert(self.magic@[1] == MAGIC@[1]);
                assert(self.magic@[2] == MAGIC@[2]);
                assert(self.magic@[3] == MAGIC@[3]);
            }
        }
        res
    }
}

} // verus!
