//! The byte layout of every payload, stated against its fields: each field
//! in declaration order, strings as a 64-bit little-endian UTF-8 length and
//! the UTF-8 bytes, integers little-endian, a bool as one byte, a list as a
//! 64-bit count and its items. This is what a peer using bincode 1.x reads.
use vstd::prelude::*;

use crate::protocol::codec::{bool_byte, le16, le32, le64, str_bytes};
use crate::protocol::payload::{peer_bytes, peer_model, peers_bytes, WirePayload};
use crate::protocol::types::{
    AnnouncePayload, ClipboardPayload, FileAcceptPayload, FileOfferPayload, FileRejectPayload,
    PeerInfo, SnippetSharePayload, TextPayload,
};

verus! {

/// A string field on the wire: its UTF-8 length as 8 little-endian bytes,
/// then its UTF-8 bytes.
pub proof fn law_string_layout(s: Seq<char>)
    ensures
        str_bytes(s) == le64(vstd::utf8::encode_utf8(s).len() as u64) + vstd::utf8::encode_utf8(s),
        le64(vstd::utf8::encode_utf8(s).len() as u64).len() == 8,
{
    reveal(str_bytes);
}

/// A text is sent as its message id, its text, then its timestamp.
pub proof fn law_text_layout(p: TextPayload)
    ensures
        <TextPayload as WirePayload>::model_bytes(p.model()) == str_bytes(p.message_id@) + str_bytes(
            p.text@,
        ) + le64(p.timestamp),
{
}

/// A file offer is sent as transfer id, file name, size, folder flag, then
/// file count.
pub proof fn law_file_offer_layout(p: FileOfferPayload)
    ensures
        <FileOfferPayload as WirePayload>::model_bytes(p.model()) == str_bytes(p.transfer_id@)
            + str_bytes(p.file_name@) + le64(p.file_size) + bool_byte(p.is_folder) + le32(
            p.file_count,
        ),
{
}

/// An acceptance is sent as transfer id, receiver port, then resume offset.
pub proof fn law_file_accept_layout(p: FileAcceptPayload)
    ensures
        <FileAcceptPayload as WirePayload>::model_bytes(p.model()) == str_bytes(p.transfer_id@)
            + le16(p.receiver_port) + le64(p.resume_offset),
{
}

/// A rejection is sent as the transfer id alone.
pub proof fn law_file_reject_layout(p: FileRejectPayload)
    ensures
        <FileRejectPayload as WirePayload>::model_bytes(p.model()) == str_bytes(p.transfer_id@),
{
}

/// Clipboard content is sent as the content, then its type.
pub proof fn law_clipboard_layout(p: ClipboardPayload)
    ensures
        <ClipboardPayload as WirePayload>::model_bytes(p.model()) == str_bytes(p.content@) + str_bytes(
            p.content_type@,
        ),
{
}

/// A shared snippet is sent as title, content, tag, then note.
pub proof fn law_snippet_share_layout(p: SnippetSharePayload)
    ensures
        <SnippetSharePayload as WirePayload>::model_bytes(p.model()) == str_bytes(p.title@) + str_bytes(
            p.content@,
        ) + str_bytes(p.tag@) + str_bytes(p.note@),
{
}

/// The fields of one restricted peer, in order: id, name, address, port,
/// platform.
pub open spec fn peer_fields(q: PeerInfo) -> Seq<u8> {
    str_bytes(q.device_id@) + str_bytes(q.device_name@) + str_bytes(q.ip_addr@) + le16(q.tcp_port)
        + str_bytes(q.platform@)
}

/// The peers one after the other, first to last.
pub open spec fn peers_fields(ps: Seq<PeerInfo>) -> Seq<u8>
    decreases ps.len(),
{
    if ps.len() == 0 {
        Seq::empty()
    } else {
        peer_fields(ps[0]) + peers_fields(ps.drop_first())
    }
}

/// A peer entry is sent as id, name, address, port, then platform.
pub proof fn law_peer_layout(q: PeerInfo)
    ensures
        <PeerInfo as WirePayload>::model_bytes(q.model()) == peer_fields(q),
{
}

proof fn lemma_peers_fields(ps: Seq<PeerInfo>)
    ensures
        peers_bytes(ps.map_values(|p: PeerInfo| peer_model(p))) == peers_fields(ps),
    decreases ps.len(),
{
    let ms = ps.map_values(|p: PeerInfo| peer_model(p));
    if ps.len() > 0 {
        lemma_peers_fields(ps.drop_first());
        assert(ms.drop_first() =~= ps.drop_first().map_values(|p: PeerInfo| peer_model(p)));
        assert(peer_bytes(ms[0]) == peer_fields(ps[0]));
    } else {
        assert(ms.len() == 0);
    }
}

/// An announcement is sent as name, platform, port, features, then the
/// number of restricted peers and each peer's fields in list order.
pub proof fn law_announce_layout(p: AnnouncePayload)
    ensures
        <AnnouncePayload as WirePayload>::model_bytes(p.model()) == str_bytes(p.device_name@)
            + str_bytes(p.platform@) + le16(p.tcp_port) + le32(p.features) + le64(
            p.restricted_peers@.len() as u64,
        ) + peers_fields(p.restricted_peers@),
{
    lemma_peers_fields(p.restricted_peers@);
}

} // verus!
