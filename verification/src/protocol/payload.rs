//! Payloads on the wire: each payload is its fields' encodings in
//! declaration order, with no names and no framing of its own.
use vstd::prelude::*;

use crate::error::PeacockError;
use crate::protocol::codec::{
    bool_byte, le16, le32, le64, lemma_parse_bool_bytes, lemma_parse_bool_enc,
    lemma_parse_str_bytes, lemma_parse_str_enc, lemma_parse_u16_bytes, lemma_parse_u16_enc,
    lemma_parse_u32_bytes, lemma_parse_u32_enc, lemma_parse_u64_bytes, lemma_parse_u64_enc,
    parse_bool, parse_str, parse_u16, parse_u32, parse_u64, read_bool, read_str, read_u16,
    read_u32, read_u64, str_bytes, str_fits, write_bool, write_str, write_u16, write_u32,
    write_u64,
};
use crate::protocol::types::{
    AnnouncePayload, ClipboardPayload, FileAcceptPayload, FileOfferPayload, FileRejectPayload,
    PeerInfo, SnippetSharePayload, TextPayload,
};

verus! {

/// A payload type of the protocol, with its abstract content (`Model`), the
/// bytes that encode a content, and the content that bytes decode to.
pub trait WirePayload: Sized {
    type Model;

    /// The content of a payload value.
    spec fn model(&self) -> Self::Model;

    /// The bytes that encode a content.
    spec fn model_bytes(m: Self::Model) -> Seq<u8>;

    /// Every string and list of the content fits its 64-bit length prefix.
    spec fn model_fits(m: Self::Model) -> bool;

    /// The content that the opening bytes of `b` encode, if they encode one.
    /// Bytes after the payload are ignored.
    spec fn parse(b: Seq<u8>) -> Option<Self::Model>;

    /// The encoding of this payload.
    fn encode(&self) -> (res: Vec<u8>)
        ensures
            res@ == Self::model_bytes(self.model()),
    ;

    /// The payload that the opening bytes of `b` encode, or the error met.
    fn decode(b: &[u8]) -> (res: Result<Self, PeacockError>)
        ensures
            res matches Ok(v) ==> Self::parse(b@) == Some(v.model()),
            res is Err <==> Self::parse(b@) is None,
            res matches Err(e) ==> e is Bincode,
    ;

    /// Decoding an encoding gives the content back, whatever follows it.
    proof fn law_round_trip(m: Self::Model, rest: Seq<u8>)
        requires
            Self::model_fits(m),
        ensures
            Self::parse(Self::model_bytes(m) + rest) == Some(m),
    ;

    /// A decoded content is encoded by the bytes it was read from.
    proof fn law_parse_prefix(b: Seq<u8>)
        ensures
            Self::parse(b) matches Some(m) ==> Self::model_fits(m) && Self::model_bytes(m).len()
                <= b.len() && b.subrange(0, Self::model_bytes(m).len() as int)
                == Self::model_bytes(m),
    ;
}

// ---------------------------------------------------------------------------
// Text

pub open spec fn text_bytes(m: (Seq<char>, Seq<char>, u64)) -> Seq<u8> {
    str_bytes(m.0) + str_bytes(m.1) + le64(m.2)
}

pub open spec fn parse_text(b: Seq<u8>) -> Option<(Seq<char>, Seq<char>, u64)> {
    match parse_str(b, 0) {
        Some((id, i1)) => match parse_str(b, i1) {
            Some((text, i2)) => match parse_u64(b, i2) {
                Some((ts, _)) => Some((id, text, ts)),
                None => None,
            },
            None => None,
        },
        None => None,
    }
}

impl WirePayload for TextPayload {
    type Model = (Seq<char>, Seq<char>, u64);

    open spec fn model(&self) -> (Seq<char>, Seq<char>, u64) {
        (self.message_id@, self.text@, self.timestamp)
    }

    open spec fn model_bytes(m: (Seq<char>, Seq<char>, u64)) -> Seq<u8> {
        text_bytes(m)
    }

    open spec fn model_fits(m: (Seq<char>, Seq<char>, u64)) -> bool {
        str_fits(m.0) && str_fits(m.1)
    }

    open spec fn parse(b: Seq<u8>) -> Option<(Seq<char>, Seq<char>, u64)> {
        parse_text(b)
    }

    fn encode(&self) -> (res: Vec<u8>) {
        let mut out: Vec<u8> = Vec::new();
        write_str(&mut out, self.message_id.as_str());
        write_str(&mut out, self.text.as_str());
        write_u64(&mut out, self.timestamp);
        proof {
            assert(out@ =~= text_bytes(self.model()));
        }
        out
    }

    fn decode(b: &[u8]) -> (res: Result<Self, PeacockError>) {
        let (message_id, i1) = read_str(b, 0)?;
        let (text, i2) = read_str(b, i1)?;
        let (timestamp, _i3) = read_u64(b, i2)?;
        Ok(TextPayload { message_id, text, timestamp })
    }

    proof fn law_round_trip(m: (Seq<char>, Seq<char>, u64), rest: Seq<u8>) {
        let b = text_bytes(m) + rest;
        let l0: int = str_bytes(m.0).len() as int;
        let l1: int = str_bytes(m.1).len() as int;
        assert(b.subrange(0, l0) =~= str_bytes(m.0));
        lemma_parse_str_enc(b, 0, m.0);
        assert(b.subrange(l0, l0 + l1) =~= str_bytes(m.1));
        lemma_parse_str_enc(b, l0, m.1);
        assert(b.subrange(l0 + l1, l0 + l1 + 8) =~= le64(m.2));
        lemma_parse_u64_enc(b, l0 + l1, m.2);
    }

    proof fn law_parse_prefix(b: Seq<u8>) {
        if let Some(m) = parse_text(b) {
            lemma_parse_str_bytes(b, 0);
            let i1 = parse_str(b, 0).unwrap().1;
            lemma_parse_str_bytes(b, i1);
            let i2 = parse_str(b, i1).unwrap().1;
            lemma_parse_u64_bytes(b, i2);
            assert(b.subrange(0, i2 + 8) =~= b.subrange(0, i1) + b.subrange(i1, i2) + b.subrange(
                i2,
                i2 + 8,
            ));
        }
    }
}


// ---------------------------------------------------------------------------
// FileOffer

pub open spec fn file_offer_bytes(m: (Seq<char>, Seq<char>, u64, bool, u32)) -> Seq<u8> {
    str_bytes(m.0) + str_bytes(m.1) + le64(m.2) + bool_byte(m.3) + le32(m.4)
}

pub open spec fn parse_file_offer_at(b: Seq<u8>) -> Option<(Seq<char>, Seq<char>, u64, bool, u32)> {
    match parse_str(b, 0) { Some((v0, i1)) => match parse_str(b, i1) { Some((v1, i2)) => match parse_u64(b, i2) { Some((v2, i3)) => match parse_bool(b, i3) { Some((v3, i4)) => match parse_u32(b, i4) { Some((v4, _)) => Some((v0, v1, v2, v3, v4)), None => None }, None => None }, None => None }, None => None }, None => None }
}

impl WirePayload for FileOfferPayload {
    type Model = (Seq<char>, Seq<char>, u64, bool, u32);

    open spec fn model(&self) -> (Seq<char>, Seq<char>, u64, bool, u32) {
        (self.transfer_id@, self.file_name@, self.file_size, self.is_folder, self.file_count)
    }

    open spec fn model_bytes(m: (Seq<char>, Seq<char>, u64, bool, u32)) -> Seq<u8> {
        file_offer_bytes(m)
    }

    open spec fn model_fits(m: (Seq<char>, Seq<char>, u64, bool, u32)) -> bool {
        str_fits(m.0) && str_fits(m.1)
    }

    open spec fn parse(b: Seq<u8>) -> Option<(Seq<char>, Seq<char>, u64, bool, u32)> {
        parse_file_offer_at(b)
    }

    fn encode(&self) -> (res: Vec<u8>) {
        let mut out: Vec<u8> = Vec::new();
        write_str(&mut out, self.transfer_id.as_str());
        write_str(&mut out, self.file_name.as_str());
        write_u64(&mut out, self.file_size);
        write_bool(&mut out, self.is_folder);
        write_u32(&mut out, self.file_count);
        proof {
            assert(out@ =~= file_offer_bytes(self.model()));
        }
        out
    }

    fn decode(b: &[u8]) -> (res: Result<Self, PeacockError>) {
        let (transfer_id, i1) = read_str(b, 0)?;
        let (file_name, i2) = read_str(b, i1)?;
        let (file_size, i3) = read_u64(b, i2)?;
        let (is_folder, i4) = read_bool(b, i3)?;
        let (file_count, i5) = read_u32(b, i4)?;
        Ok(FileOfferPayload { transfer_id, file_name, file_size, is_folder, file_count })
    }

    proof fn law_round_trip(m: (Seq<char>, Seq<char>, u64, bool, u32), rest: Seq<u8>) {
        let b = file_offer_bytes(m) + rest;
        let l0: int = str_bytes(m.0).len() as int;
        assert(b.subrange(0, 0 + l0) =~= str_bytes(m.0));
        lemma_parse_str_enc(b, 0, m.0);
        let l1: int = str_bytes(m.1).len() as int;
        assert(b.subrange(l0, l0 + l1) =~= str_bytes(m.1));
        lemma_parse_str_enc(b, l0, m.1);
        let l2: int = 8;
        assert(b.subrange(l0 + l1, l0 + l1 + l2) =~= le64(m.2));
        lemma_parse_u64_enc(b, l0 + l1, m.2);
        let l3: int = 1;
        assert(b.subrange(l0 + l1 + l2, l0 + l1 + l2 + l3) =~= bool_byte(m.3));
        lemma_parse_bool_enc(b, l0 + l1 + l2, m.3);
        let l4: int = 4;
        assert(b.subrange(l0 + l1 + l2 + l3, l0 + l1 + l2 + l3 + l4) =~= le32(m.4));
        lemma_parse_u32_enc(b, l0 + l1 + l2 + l3, m.4);
    }

    proof fn law_parse_prefix(b: Seq<u8>) {
        if let Some(m) = parse_file_offer_at(b) {
            lemma_parse_str_bytes(b, 0);
            let j1 = parse_str(b, 0).unwrap().1;
            lemma_parse_str_bytes(b, j1);
            let j2 = parse_str(b, j1).unwrap().1;
            lemma_parse_u64_bytes(b, j2);
            let j3 = parse_u64(b, j2).unwrap().1;
            lemma_parse_bool_bytes(b, j3);
            let j4 = parse_bool(b, j3).unwrap().1;
            lemma_parse_u32_bytes(b, j4);
            let j5 = parse_u32(b, j4).unwrap().1;
            assert(b.subrange(0, j5) =~= b.subrange(0, j1) + b.subrange(j1, j2) + b.subrange(j2, j3) + b.subrange(j3, j4) + b.subrange(j4, j5));
        }
    }
}

// ---------------------------------------------------------------------------
// FileAccept

pub open spec fn file_accept_bytes(m: (Seq<char>, u16, u64)) -> Seq<u8> {
    str_bytes(m.0) + le16(m.1) + le64(m.2)
}

pub open spec fn parse_file_accept_at(b: Seq<u8>) -> Option<(Seq<char>, u16, u64)> {
    match parse_str(b, 0) { Some((v0, i1)) => match parse_u16(b, i1) { Some((v1, i2)) => match parse_u64(b, i2) { Some((v2, _)) => Some((v0, v1, v2)), None => None }, None => None }, None => None }
}

impl WirePayload for FileAcceptPayload {
    type Model = (Seq<char>, u16, u64);

    open spec fn model(&self) -> (Seq<char>, u16, u64) {
        (self.transfer_id@, self.receiver_port, self.resume_offset)
    }

    open spec fn model_bytes(m: (Seq<char>, u16, u64)) -> Seq<u8> {
        file_accept_bytes(m)
    }

    open spec fn model_fits(m: (Seq<char>, u16, u64)) -> bool {
        str_fits(m.0)
    }

    open spec fn parse(b: Seq<u8>) -> Option<(Seq<char>, u16, u64)> {
        parse_file_accept_at(b)
    }

    fn encode(&self) -> (res: Vec<u8>) {
        let mut out: Vec<u8> = Vec::new();
        write_str(&mut out, self.transfer_id.as_str());
        write_u16(&mut out, self.receiver_port);
        write_u64(&mut out, self.resume_offset);
        proof {
            assert(out@ =~= file_accept_bytes(self.model()));
        }
        out
    }

    fn decode(b: &[u8]) -> (res: Result<Self, PeacockError>) {
        let (transfer_id, i1) = read_str(b, 0)?;
        let (receiver_port, i2) = read_u16(b, i1)?;
        let (resume_offset, i3) = read_u64(b, i2)?;
        Ok(FileAcceptPayload { transfer_id, receiver_port, resume_offset })
    }

    proof fn law_round_trip(m: (Seq<char>, u16, u64), rest: Seq<u8>) {
        let b = file_accept_bytes(m) + rest;
        let l0: int = str_bytes(m.0).len() as int;
        assert(b.subrange(0, 0 + l0) =~= str_bytes(m.0));
        lemma_parse_str_enc(b, 0, m.0);
        let l1: int = 2;
        assert(b.subrange(l0, l0 + l1) =~= le16(m.1));
        lemma_parse_u16_enc(b, l0, m.1);
        let l2: int = 8;
        assert(b.subrange(l0 + l1, l0 + l1 + l2) =~= le64(m.2));
        lemma_parse_u64_enc(b, l0 + l1, m.2);
    }

    proof fn law_parse_prefix(b: Seq<u8>) {
        if let Some(m) = parse_file_accept_at(b) {
            lemma_parse_str_bytes(b, 0);
            let j1 = parse_str(b, 0).unwrap().1;
            lemma_parse_u16_bytes(b, j1);
            let j2 = parse_u16(b, j1).unwrap().1;
            lemma_parse_u64_bytes(b, j2);
            let j3 = parse_u64(b, j2).unwrap().1;
            assert(b.subrange(0, j3) =~= b.subrange(0, j1) + b.subrange(j1, j2) + b.subrange(j2, j3));
        }
    }
}

// ---------------------------------------------------------------------------
// FileReject

pub open spec fn file_reject_bytes(m: Seq<char>) -> Seq<u8> {
    str_bytes(m)
}

pub open spec fn parse_file_reject_at(b: Seq<u8>) -> Option<Seq<char>> {
    match parse_str(b, 0) { Some((v0, _)) => Some(v0), None => None }
}

impl WirePayload for FileRejectPayload {
    type Model = Seq<char>;

    open spec fn model(&self) -> Seq<char> {
        self.transfer_id@
    }

    open spec fn model_bytes(m: Seq<char>) -> Seq<u8> {
        file_reject_bytes(m)
    }

    open spec fn model_fits(m: Seq<char>) -> bool {
        str_fits(m)
    }

    open spec fn parse(b: Seq<u8>) -> Option<Seq<char>> {
        parse_file_reject_at(b)
    }

    fn encode(&self) -> (res: Vec<u8>) {
        let mut out: Vec<u8> = Vec::new();
        write_str(&mut out, self.transfer_id.as_str());
        proof {
            assert(out@ =~= file_reject_bytes(self.model()));
        }
        out
    }

    fn decode(b: &[u8]) -> (res: Result<Self, PeacockError>) {
        let (transfer_id, i1) = read_str(b, 0)?;
        Ok(FileRejectPayload { transfer_id })
    }

    proof fn law_round_trip(m: Seq<char>, rest: Seq<u8>) {
        let b = file_reject_bytes(m) + rest;
        let l0: int = str_bytes(m).len() as int;
        assert(b.subrange(0, 0 + l0) =~= str_bytes(m));
        lemma_parse_str_enc(b, 0, m);
    }

    proof fn law_parse_prefix(b: Seq<u8>) {
        if let Some(m) = parse_file_reject_at(b) {
            lemma_parse_str_bytes(b, 0);
            let j1 = parse_str(b, 0).unwrap().1;
            assert(b.subrange(0, j1) =~= b.subrange(0, j1));
        }
    }
}

// ---------------------------------------------------------------------------
// Clipboard

pub open spec fn clipboard_bytes(m: (Seq<char>, Seq<char>)) -> Seq<u8> {
    str_bytes(m.0) + str_bytes(m.1)
}

pub open spec fn parse_clipboard_at(b: Seq<u8>) -> Option<(Seq<char>, Seq<char>)> {
    match parse_str(b, 0) { Some((v0, i1)) => match parse_str(b, i1) { Some((v1, _)) => Some((v0, v1)), None => None }, None => None }
}

impl WirePayload for ClipboardPayload {
    type Model = (Seq<char>, Seq<char>);

    open spec fn model(&self) -> (Seq<char>, Seq<char>) {
        (self.content@, self.content_type@)
    }

    open spec fn model_bytes(m: (Seq<char>, Seq<char>)) -> Seq<u8> {
        clipboard_bytes(m)
    }

    open spec fn model_fits(m: (Seq<char>, Seq<char>)) -> bool {
        str_fits(m.0) && str_fits(m.1)
    }

    open spec fn parse(b: Seq<u8>) -> Option<(Seq<char>, Seq<char>)> {
        parse_clipboard_at(b)
    }

    fn encode(&self) -> (res: Vec<u8>) {
        let mut out: Vec<u8> = Vec::new();
        write_str(&mut out, self.content.as_str());
        write_str(&mut out, self.content_type.as_str());
        proof {
            assert(out@ =~= clipboard_bytes(self.model()));
        }
        out
    }

    fn decode(b: &[u8]) -> (res: Result<Self, PeacockError>) {
        let (content, i1) = read_str(b, 0)?;
        let (content_type, i2) = read_str(b, i1)?;
        Ok(ClipboardPayload { content, content_type })
    }

    proof fn law_round_trip(m: (Seq<char>, Seq<char>), rest: Seq<u8>) {
        let b = clipboard_bytes(m) + rest;
        let l0: int = str_bytes(m.0).len() as int;
        assert(b.subrange(0, 0 + l0) =~= str_bytes(m.0));
        lemma_parse_str_enc(b, 0, m.0);
        let l1: int = str_bytes(m.1).len() as int;
        assert(b.subrange(l0, l0 + l1) =~= str_bytes(m.1));
        lemma_parse_str_enc(b, l0, m.1);
    }

    proof fn law_parse_prefix(b: Seq<u8>) {
        if let Some(m) = parse_clipboard_at(b) {
            lemma_parse_str_bytes(b, 0);
            let j1 = parse_str(b, 0).unwrap().1;
            lemma_parse_str_bytes(b, j1);
            let j2 = parse_str(b, j1).unwrap().1;
            assert(b.subrange(0, j2) =~= b.subrange(0, j1) + b.subrange(j1, j2));
        }
    }
}

// ---------------------------------------------------------------------------
// SnippetShare

pub open spec fn snippet_share_bytes(m: (Seq<char>, Seq<char>, Seq<char>, Seq<char>)) -> Seq<u8> {
    str_bytes(m.0) + str_bytes(m.1) + str_bytes(m.2) + str_bytes(m.3)
}

pub open spec fn parse_snippet_share_at(b: Seq<u8>) -> Option<(Seq<char>, Seq<char>, Seq<char>, Seq<char>)> {
    match parse_str(b, 0) { Some((v0, i1)) => match parse_str(b, i1) { Some((v1, i2)) => match parse_str(b, i2) { Some((v2, i3)) => match parse_str(b, i3) { Some((v3, _)) => Some((v0, v1, v2, v3)), None => None }, None => None }, None => None }, None => None }
}

impl WirePayload for SnippetSharePayload {
    type Model = (Seq<char>, Seq<char>, Seq<char>, Seq<char>);

    open spec fn model(&self) -> (Seq<char>, Seq<char>, Seq<char>, Seq<char>) {
        (self.title@, self.content@, self.tag@, self.note@)
    }

    open spec fn model_bytes(m: (Seq<char>, Seq<char>, Seq<char>, Seq<char>)) -> Seq<u8> {
        snippet_share_bytes(m)
    }

    open spec fn model_fits(m: (Seq<char>, Seq<char>, Seq<char>, Seq<char>)) -> bool {
        str_fits(m.0) && str_fits(m.1) && str_fits(m.2) && str_fits(m.3)
    }

    open spec fn parse(b: Seq<u8>) -> Option<(Seq<char>, Seq<char>, Seq<char>, Seq<char>)> {
        parse_snippet_share_at(b)
    }

    fn encode(&self) -> (res: Vec<u8>) {
        let mut out: Vec<u8> = Vec::new();
        write_str(&mut out, self.title.as_str());
        write_str(&mut out, self.content.as_str());
        write_str(&mut out, self.tag.as_str());
        write_str(&mut out, self.note.as_str());
        proof {
            assert(out@ =~= snippet_share_bytes(self.model()));
        }
        out
    }

    fn decode(b: &[u8]) -> (res: Result<Self, PeacockError>) {
        let (title, i1) = read_str(b, 0)?;
        let (content, i2) = read_str(b, i1)?;
        let (tag, i3) = read_str(b, i2)?;
        let (note, i4) = read_str(b, i3)?;
        Ok(SnippetSharePayload { title, content, tag, note })
    }

    proof fn law_round_trip(m: (Seq<char>, Seq<char>, Seq<char>, Seq<char>), rest: Seq<u8>) {
        let b = snippet_share_bytes(m) + rest;
        let l0: int = str_bytes(m.0).len() as int;
        assert(b.subrange(0, 0 + l0) =~= str_bytes(m.0));
        lemma_parse_str_enc(b, 0, m.0);
        let l1: int = str_bytes(m.1).len() as int;
        assert(b.subrange(l0, l0 + l1) =~= str_bytes(m.1));
        lemma_parse_str_enc(b, l0, m.1);
        let l2: int = str_bytes(m.2).len() as int;
        assert(b.subrange(l0 + l1, l0 + l1 + l2) =~= str_bytes(m.2));
        lemma_parse_str_enc(b, l0 + l1, m.2);
        let l3: int = str_bytes(m.3).len() as int;
        assert(b.subrange(l0 + l1 + l2, l0 + l1 + l2 + l3) =~= str_bytes(m.3));
        lemma_parse_str_enc(b, l0 + l1 + l2, m.3);
    }

    proof fn law_parse_prefix(b: Seq<u8>) {
        if let Some(m) = parse_snippet_share_at(b) {
            lemma_parse_str_bytes(b, 0);
            let j1 = parse_str(b, 0).unwrap().1;
            lemma_parse_str_bytes(b, j1);
            let j2 = parse_str(b, j1).unwrap().1;
            lemma_parse_str_bytes(b, j2);
            let j3 = parse_str(b, j2).unwrap().1;
            lemma_parse_str_bytes(b, j3);
            let j4 = parse_str(b, j3).unwrap().1;
            assert(b.subrange(0, j4) =~= b.subrange(0, j1) + b.subrange(j1, j2) + b.subrange(j2, j3) + b.subrange(j3, j4));
        }
    }
}

// ---------------------------------------------------------------------------
// PeerInfo and AnnouncePayload

/// The content of a peer entry: id, name, address, port, platform.
pub type PeerModel = (Seq<char>, Seq<char>, Seq<char>, u16, Seq<char>);

pub open spec fn peer_model(p: PeerInfo) -> PeerModel {
    (p.device_id@, p.device_name@, p.ip_addr@, p.tcp_port, p.platform@)
}

pub open spec fn peer_bytes(m: PeerModel) -> Seq<u8> {
    str_bytes(m.0) + str_bytes(m.1) + str_bytes(m.2) + le16(m.3) + str_bytes(m.4)
}

pub open spec fn peer_fits(m: PeerModel) -> bool {
    str_fits(m.0) && str_fits(m.1) && str_fits(m.2) && str_fits(m.4)
}

/// The peer entry encoded at offset `i` of `b`, and the offset past it.
#[verifier::opaque]
pub open spec fn parse_peer_from(b: Seq<u8>, i: int) -> Option<(PeerModel, int)> {
    match parse_str(b, i) {
        Some((v0, i1)) => match parse_str(b, i1) {
            Some((v1, i2)) => match parse_str(b, i2) {
                Some((v2, i3)) => match parse_u16(b, i3) {
                    Some((v3, i4)) => match parse_str(b, i4) {
                        Some((v4, i5)) => Some(((v0, v1, v2, v3, v4), i5)),
                        None => None,
                    },
                    None => None,
                },
                None => None,
            },
            None => None,
        },
        None => None,
    }
}

proof fn lemma_peer_enc(b: Seq<u8>, i: int, m: PeerModel)
    requires
        0 <= i,
        peer_fits(m),
        i + peer_bytes(m).len() <= b.len(),
        b.subrange(i, i + peer_bytes(m).len()) == peer_bytes(m),
    ensures
        parse_peer_from(b, i) == Some((m, i + peer_bytes(m).len())),
{
    reveal(parse_peer_from);
    let w = b.subrange(i, i + peer_bytes(m).len());
    let l0 = str_bytes(m.0).len() as int;
    let l1 = str_bytes(m.1).len() as int;
    let l2 = str_bytes(m.2).len() as int;
    let l4 = str_bytes(m.4).len() as int;
    assert(b.subrange(i, i + l0) =~= w.subrange(0, l0));
    assert(w.subrange(0, l0) =~= str_bytes(m.0));
    lemma_parse_str_enc(b, i, m.0);
    assert(b.subrange(i + l0, i + l0 + l1) =~= w.subrange(l0, l0 + l1));
    assert(w.subrange(l0, l0 + l1) =~= str_bytes(m.1));
    lemma_parse_str_enc(b, i + l0, m.1);
    assert(b.subrange(i + l0 + l1, i + l0 + l1 + l2) =~= w.subrange(l0 + l1, l0 + l1 + l2));
    assert(w.subrange(l0 + l1, l0 + l1 + l2) =~= str_bytes(m.2));
    lemma_parse_str_enc(b, i + l0 + l1, m.2);
    assert(b.subrange(i + l0 + l1 + l2, i + l0 + l1 + l2 + 2) =~= w.subrange(
        l0 + l1 + l2,
        l0 + l1 + l2 + 2,
    ));
    assert(w.subrange(l0 + l1 + l2, l0 + l1 + l2 + 2) =~= le16(m.3));
    lemma_parse_u16_enc(b, i + l0 + l1 + l2, m.3);
    assert(b.subrange(i + l0 + l1 + l2 + 2, i + l0 + l1 + l2 + 2 + l4) =~= w.subrange(
        l0 + l1 + l2 + 2,
        l0 + l1 + l2 + 2 + l4,
    ));
    assert(w.subrange(l0 + l1 + l2 + 2, l0 + l1 + l2 + 2 + l4) =~= str_bytes(m.4));
    lemma_parse_str_enc(b, i + l0 + l1 + l2 + 2, m.4);
}

proof fn lemma_peer_from_bytes(b: Seq<u8>, i: int)
    requires
        parse_peer_from(b, i) is Some,
    ensures
        ({
            let (m, j) = parse_peer_from(b, i).unwrap();
            &&& peer_fits(m)
            &&& j == i + peer_bytes(m).len()
            &&& 0 <= i <= j <= b.len()
            &&& b.subrange(i, j) == peer_bytes(m)
        }),
{
    reveal(parse_peer_from);
    lemma_parse_str_bytes(b, i);
    let j1 = parse_str(b, i).unwrap().1;
    lemma_parse_str_bytes(b, j1);
    let j2 = parse_str(b, j1).unwrap().1;
    lemma_parse_str_bytes(b, j2);
    let j3 = parse_str(b, j2).unwrap().1;
    lemma_parse_u16_bytes(b, j3);
    let j4 = parse_u16(b, j3).unwrap().1;
    lemma_parse_str_bytes(b, j4);
    let j5 = parse_str(b, j4).unwrap().1;
    assert(b.subrange(i, j5) =~= b.subrange(i, j1) + b.subrange(j1, j2) + b.subrange(j2, j3)
        + b.subrange(j3, j4) + b.subrange(j4, j5));
}

/// Read a peer entry at offset `i`; on success also the offset past it.
fn read_peer(b: &[u8], i: usize) -> (res: Result<(PeerInfo, usize), PeacockError>)
    requires
        i <= b@.len(),
    ensures
        match res {
            Ok((p, j)) => parse_peer_from(b@, i as int) == Some((peer_model(p), j as int)),
            Err(e) => parse_peer_from(b@, i as int) is None && e is Bincode,
        },
{
    proof {
        reveal(parse_peer_from);
    }
    let (device_id, i1) = read_str(b, i)?;
    let (device_name, i2) = read_str(b, i1)?;
    let (ip_addr, i3) = read_str(b, i2)?;
    let (tcp_port, i4) = read_u16(b, i3)?;
    let (platform, i5) = read_str(b, i4)?;
    Ok((PeerInfo { device_id, device_name, ip_addr, tcp_port, platform }, i5))
}

fn write_peer(out: &mut Vec<u8>, p: &PeerInfo)
    ensures
        final(out)@ == old(out)@ + peer_bytes(peer_model(*p)),
{
    write_str(out, p.device_id.as_str());
    write_str(out, p.device_name.as_str());
    write_str(out, p.ip_addr.as_str());
    write_u16(out, p.tcp_port);
    write_str(out, p.platform.as_str());
    proof {
        assert(final(out)@ =~= old(out)@ + peer_bytes(peer_model(*p)));
    }
}

impl WirePayload for PeerInfo {
    type Model = PeerModel;

    open spec fn model(&self) -> PeerModel {
        peer_model(*self)
    }

    open spec fn model_bytes(m: PeerModel) -> Seq<u8> {
        peer_bytes(m)
    }

    open spec fn model_fits(m: PeerModel) -> bool {
        peer_fits(m)
    }

    open spec fn parse(b: Seq<u8>) -> Option<PeerModel> {
        match parse_peer_from(b, 0) {
            Some((m, _)) => Some(m),
            None => None,
        }
    }

    fn encode(&self) -> (res: Vec<u8>) {
        let mut out: Vec<u8> = Vec::new();
        write_peer(&mut out, self);
        proof {
            assert(out@ =~= peer_bytes(self.model()));
        }
        out
    }

    fn decode(b: &[u8]) -> (res: Result<Self, PeacockError>) {
        let (p, _) = read_peer(b, 0)?;
        Ok(p)
    }

    proof fn law_round_trip(m: PeerModel, rest: Seq<u8>) {
        let b = peer_bytes(m) + rest;
        assert(b.subrange(0, peer_bytes(m).len() as int) =~= peer_bytes(m));
        lemma_peer_enc(b, 0, m);
    }

    proof fn law_parse_prefix(b: Seq<u8>) {
        if parse_peer_from(b, 0) is Some {
            lemma_peer_from_bytes(b, 0);
        }
    }
}

/// The encoding of a list of peer entries, without its count.
pub open spec fn peers_bytes(ps: Seq<PeerModel>) -> Seq<u8>
    decreases ps.len(),
{
    if ps.len() == 0 {
        Seq::<u8>::empty()
    } else {
        peer_bytes(ps[0]) + peers_bytes(ps.drop_first())
    }
}

pub open spec fn peers_fit(ps: Seq<PeerModel>) -> bool {
    forall|k: int| 0 <= k < ps.len() ==> peer_fits(#[trigger] ps[k])
}

/// The `n` peer entries encoded from offset `i` of `b`, and the offset past them.
pub open spec fn parse_peers(b: Seq<u8>, i: int, n: nat) -> Option<(Seq<PeerModel>, int)>
    decreases n,
{
    if n == 0 {
        Some((Seq::<PeerModel>::empty(), i))
    } else {
        match parse_peer_from(b, i) {
            Some((p, j)) => match parse_peers(b, j, (n - 1) as nat) {
                Some((ps, k)) => Some((seq![p] + ps, k)),
                None => None,
            },
            None => None,
        }
    }
}

proof fn lemma_peers_bytes_push(ps: Seq<PeerModel>, p: PeerModel)
    ensures
        peers_bytes(ps.push(p)) == peers_bytes(ps) + peer_bytes(p),
    decreases ps.len(),
{
    if ps.len() == 0 {
        assert(ps.push(p).drop_first() =~= Seq::<PeerModel>::empty());
        assert(ps.push(p)[0] == p);
        assert(peers_bytes(Seq::<PeerModel>::empty()) == Seq::<u8>::empty());
        assert(peers_bytes(ps) == Seq::<u8>::empty());
        assert(peers_bytes(ps.push(p)) =~= peer_bytes(p) + Seq::<u8>::empty());
    } else {
        lemma_peers_bytes_push(ps.drop_first(), p);
        assert(ps.push(p).drop_first() =~= ps.drop_first().push(p));
        assert(peers_bytes(ps.push(p)) =~= peers_bytes(ps) + peer_bytes(p));
    }
}

proof fn lemma_peers_enc(b: Seq<u8>, i: int, ps: Seq<PeerModel>)
    requires
        0 <= i,
        peers_fit(ps),
        i + peers_bytes(ps).len() <= b.len(),
        b.subrange(i, i + peers_bytes(ps).len()) == peers_bytes(ps),
    ensures
        parse_peers(b, i, ps.len()) == Some((ps, i + peers_bytes(ps).len())),
    decreases ps.len(),
{
    if ps.len() == 0 {
        assert(ps =~= Seq::<PeerModel>::empty());
    } else {
        let p = ps[0];
        let rest = ps.drop_first();
        let lp = peer_bytes(p).len() as int;
        let w = b.subrange(i, i + peers_bytes(ps).len());
        assert(b.subrange(i, i + lp) =~= w.subrange(0, lp));
        assert(w.subrange(0, lp) =~= peer_bytes(p));
        assert(peer_fits(ps[0]));
        lemma_peer_enc(b, i, p);
        assert(b.subrange(i + lp, i + lp + peers_bytes(rest).len()) =~= w.subrange(
            lp,
            lp + peers_bytes(rest).len(),
        ));
        assert(w.subrange(lp, lp + peers_bytes(rest).len()) =~= peers_bytes(rest));
        assert forall|k: int| 0 <= k < rest.len() implies peer_fits(#[trigger] rest[k]) by {
            assert(rest[k] == ps[k + 1]);
        }
        lemma_peers_enc(b, i + lp, rest);
        assert(seq![p] + rest =~= ps);
    }
}

proof fn lemma_peers_from_bytes(b: Seq<u8>, i: int, n: nat)
    requires
        parse_peers(b, i, n) is Some,
    ensures
        ({
            let (ps, k) = parse_peers(b, i, n).unwrap();
            &&& ps.len() == n
            &&& peers_fit(ps)
            &&& k == i + peers_bytes(ps).len()
            &&& i <= k <= b.len() || (n == 0 && k == i)
            &&& (n > 0 ==> 0 <= i && k <= b.len())
            &&& (n > 0 ==> b.subrange(i, k) == peers_bytes(ps))
        }),
    decreases n,
{
    if n == 0 {
    } else {
        lemma_peer_from_bytes(b, i);
        let (p, j) = parse_peer_from(b, i).unwrap();
        lemma_peers_from_bytes(b, j, (n - 1) as nat);
        let (rest, k) = parse_peers(b, j, (n - 1) as nat).unwrap();
        let ps = seq![p] + rest;
        assert(ps.drop_first() =~= rest);
        assert(ps[0] == p);
        assert forall|x: int| 0 <= x < ps.len() implies peer_fits(#[trigger] ps[x]) by {
            if x > 0 {
                assert(ps[x] == rest[x - 1]);
            }
        }
        if n - 1 > 0 {
            assert(b.subrange(i, k) =~= b.subrange(i, j) + b.subrange(j, k));
        } else {
            assert(rest =~= Seq::<PeerModel>::empty());
            assert(b.subrange(i, k) =~= b.subrange(i, j));
        }
    }
}

/// The content of an announcement: name, platform, port, features, and the
/// restricted peers.
pub type AnnounceModel = (Seq<char>, Seq<char>, u16, u32, Seq<PeerModel>);

pub open spec fn announce_bytes(m: AnnounceModel) -> Seq<u8> {
    str_bytes(m.0) + str_bytes(m.1) + le16(m.2) + le32(m.3) + le64(m.4.len() as u64) + peers_bytes(
        m.4,
    )
}

pub open spec fn parse_announce_at(b: Seq<u8>) -> Option<AnnounceModel> {
    match parse_str(b, 0) {
        Some((v0, i1)) => match parse_str(b, i1) {
            Some((v1, i2)) => match parse_u16(b, i2) {
                Some((v2, i3)) => match parse_u32(b, i3) {
                    Some((v3, i4)) => match parse_u64(b, i4) {
                        Some((n, i5)) => match parse_peers(b, i5, n as nat) {
                            Some((ps, _)) => Some((v0, v1, v2, v3, ps)),
                            None => None,
                        },
                        None => None,
                    },
                    None => None,
                },
                None => None,
            },
            None => None,
        },
        None => None,
    }
}

impl WirePayload for AnnouncePayload {
    type Model = AnnounceModel;

    open spec fn model(&self) -> AnnounceModel {
        (
            self.device_name@,
            self.platform@,
            self.tcp_port,
            self.features,
            self.restricted_peers@.map_values(|p: PeerInfo| peer_model(p)),
        )
    }

    open spec fn model_bytes(m: AnnounceModel) -> Seq<u8> {
        announce_bytes(m)
    }

    open spec fn model_fits(m: AnnounceModel) -> bool {
        str_fits(m.0) && str_fits(m.1) && m.4.len() <= u64::MAX && peers_fit(m.4)
    }

    open spec fn parse(b: Seq<u8>) -> Option<AnnounceModel> {
        parse_announce_at(b)
    }

    fn encode(&self) -> (res: Vec<u8>) {
        let mut out: Vec<u8> = Vec::new();
        write_str(&mut out, self.device_name.as_str());
        write_str(&mut out, self.platform.as_str());
        write_u16(&mut out, self.tcp_port);
        write_u32(&mut out, self.features);
        let n = self.restricted_peers.len();
        write_u64(&mut out, n as u64);
        let ghost head = out@;
        let ghost models = self.restricted_peers@.map_values(|p: PeerInfo| peer_model(p));
        let mut t: usize = 0;
        while t < n
            invariant
                0 <= t <= n,
                n == self.restricted_peers@.len(),
                models == self.restricted_peers@.map_values(|p: PeerInfo| peer_model(p)),
                out@ == head + peers_bytes(models.take(t as int)),
            decreases n - t,
        {
            write_peer(&mut out, &self.restricted_peers[t]);
            proof {
                assert(models.take(t + 1) =~= models.take(t as int).push(models[t as int]));
                lemma_peers_bytes_push(models.take(t as int), models[t as int]);
            }
            t = t + 1;
        }
        proof {
            assert(models.take(n as int) =~= models);
            assert(out@ =~= announce_bytes(self.model()));
        }
        out
    }

    fn decode(b: &[u8]) -> (res: Result<Self, PeacockError>) {
        let (device_name, i1) = read_str(b, 0)?;
        let (platform, i2) = read_str(b, i1)?;
        let (tcp_port, i3) = read_u16(b, i2)?;
        let (features, i4) = read_u32(b, i3)?;
        let (n, i5) = read_u64(b, i4)?;
        let mut peers: Vec<PeerInfo> = Vec::new();
        let mut pos = i5;
        let mut t: u64 = 0;
        proof {
            assert(parse_announce_at(b@) == match parse_peers(b@, i5 as int, n as nat) {
                Some((ps, _)) => Some((device_name@, platform@, tcp_port, features, ps)),
                None => None,
            });
        }
        while t < n
            invariant
                0 <= t <= n,
                pos <= b@.len(),
                parse_announce_at(b@) == match parse_peers(b@, i5 as int, n as nat) {
                    Some((ps, _)) => Some((device_name@, platform@, tcp_port, features, ps)),
                    None => None,
                },
                parse_peers(b@, i5 as int, n as nat) == match parse_peers(
                    b@,
                    pos as int,
                    (n - t) as nat,
                ) {
                    Some((ps, k)) => Some((peers@.map_values(|p: PeerInfo| peer_model(p)) + ps, k)),
                    None => None,
                },
            decreases n - t,
        {
            let ghost acc = peers@.map_values(|p: PeerInfo| peer_model(p));
            match read_peer(b, pos) {
                Ok((p, j)) => {
                    proof {
                        lemma_peer_from_bytes(b@, pos as int);
                        assert(peers@.push(p).map_values(|q: PeerInfo| peer_model(q)) =~= acc.push(
                            peer_model(p),
                        ));
                        let r = parse_peers(b@, j as int, (n - t - 1) as nat);
                        if let Some((ps, k)) = r {
                            assert(acc + (seq![peer_model(p)] + ps) =~= acc.push(peer_model(p))
                                + ps);
                        }
                    }
                    peers.push(p);
                    pos = j;
                },
                Err(e) => {
                    proof {
                        assert(parse_peers(b@, pos as int, (n - t) as nat) is None);
                    }
                    return Err(e);
                },
            }
            t = t + 1;
        }
        proof {
            assert(peers@.map_values(|p: PeerInfo| peer_model(p)) + Seq::<PeerModel>::empty()
                =~= peers@.map_values(|p: PeerInfo| peer_model(p)));
        }
        Ok(AnnouncePayload { device_name, platform, tcp_port, features, restricted_peers: peers })
    }

    proof fn law_round_trip(m: AnnounceModel, rest: Seq<u8>) {
        let b = announce_bytes(m) + rest;
        let l0: int = str_bytes(m.0).len() as int;
        let l1: int = str_bytes(m.1).len() as int;
        let n = m.4.len() as u64;
        assert(b.subrange(0, l0) =~= str_bytes(m.0));
        lemma_parse_str_enc(b, 0, m.0);
        assert(b.subrange(l0, l0 + l1) =~= str_bytes(m.1));
        lemma_parse_str_enc(b, l0, m.1);
        assert(b.subrange(l0 + l1, l0 + l1 + 2) =~= le16(m.2));
        lemma_parse_u16_enc(b, l0 + l1, m.2);
        assert(b.subrange(l0 + l1 + 2, l0 + l1 + 6) =~= le32(m.3));
        lemma_parse_u32_enc(b, l0 + l1 + 2, m.3);
        assert(b.subrange(l0 + l1 + 6, l0 + l1 + 14) =~= le64(n));
        lemma_parse_u64_enc(b, l0 + l1 + 6, n);
        assert(b.subrange(l0 + l1 + 14, l0 + l1 + 14 + peers_bytes(m.4).len()) =~= peers_bytes(
            m.4,
        ));
        lemma_peers_enc(b, l0 + l1 + 14, m.4);
    }

    proof fn law_parse_prefix(b: Seq<u8>) {
        if let Some(m) = parse_announce_at(b) {
            lemma_parse_str_bytes(b, 0);
            let j1 = parse_str(b, 0).unwrap().1;
            lemma_parse_str_bytes(b, j1);
            let j2 = parse_str(b, j1).unwrap().1;
            lemma_parse_u16_bytes(b, j2);
            let j3 = parse_u16(b, j2).unwrap().1;
            lemma_parse_u32_bytes(b, j3);
            let j4 = parse_u32(b, j3).unwrap().1;
            lemma_parse_u64_bytes(b, j4);
            let (n, j5) = parse_u64(b, j4).unwrap();
            lemma_peers_from_bytes(b, j5, n as nat);
            let (ps, j6) = parse_peers(b, j5, n as nat).unwrap();
            assert(ps.len() as u64 == n);
            if n > 0 {
                assert(b.subrange(0, j6) =~= b.subrange(0, j1) + b.subrange(j1, j2) + b.subrange(
                    j2,
                    j3,
                ) + b.subrange(j3, j4) + b.subrange(j4, j5) + b.subrange(j5, j6));
            } else {
                assert(ps =~= Seq::<PeerModel>::empty());
                assert(b.subrange(0, j6) =~= b.subrange(0, j1) + b.subrange(j1, j2) + b.subrange(
                    j2,
                    j3,
                ) + b.subrange(j3, j4) + b.subrange(j4, j5));
            }
        }
    }
}

} // verus!
