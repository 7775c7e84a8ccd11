//! The decisions of the transfer loops: folder totals, whether a sender goes
//! on, how much a folder receiver reads next and what a read leaves to do.
use vstd::prelude::*;

use crate::error::PeacockError;
use crate::protocol::codec::{le64, le64_at, lemma_parse_u64_enc, parse_u64};
use crate::protocol::types::CHUNK_SIZE;
use crate::transfer::tracker::{FolderEntry, TransferStatus, TransferTask};

verus! {

/// The total size of the files of a manifest.
pub open spec fn spec_total_size(s: Seq<FolderEntry>) -> nat
    decreases s.len(),
{
    if s.len() == 0 {
        0
    } else {
        spec_total_size(s.drop_last()) + (s.last().size as nat)
    }
}

/// The files of a prefix of a manifest weigh no more than the whole.
pub proof fn lemma_total_size_prefix(s: Seq<FolderEntry>, i: int)
    requires
        0 <= i <= s.len(),
    ensures
        spec_total_size(s.take(i)) <= spec_total_size(s),
    decreases s.len(),
{
    if i < s.len() {
        assert(s.drop_last().take(i) =~= s.take(i));
        lemma_total_size_prefix(s.drop_last(), i);
    } else {
        assert(s.take(i) =~= s);
    }
}

/// The number of files of a manifest (cut to 32 bits, as the offer carries
/// it) and their total size; `None` when the total does not fit in 64 bits.
pub fn folder_totals(manifest: &Vec<FolderEntry>) -> (res: Option<(u32, u64)>)
    ensures
        res is Some <==> spec_total_size(manifest@) <= u64::MAX,
        res matches Some((count, total)) ==> count == manifest@.len() as u32 && total
            == spec_total_size(manifest@),
{
    let mut total: u64 = 0;
    let mut i: usize = 0;
    while i < manifest.len()
        invariant
            0 <= i <= manifest@.len(),
            total == spec_total_size(manifest@.take(i as int)),
        decreases manifest@.len() - i,
    {
        proof {
            assert(manifest@.take(i + 1).drop_last() =~= manifest@.take(i as int));
        }
        match total.checked_add(manifest[i].size) {
            Some(t) => {
                total = t;
            },
            None => {
                proof {
                    lemma_total_size_prefix(manifest@, i + 1);
                }
                return None;
            },
        }
        i = i + 1;
    }
    proof {
        assert(manifest@.take(i as int) =~= manifest@);
    }
    Some((manifest.len() as u32, total))
}

/// What a sender does before its next chunk.
#[derive(Debug, Clone, Copy, PartialEq, Eq, Structural)]
pub enum SendStep {
    /// Send the next chunk.
    Proceed,
    /// The transfer is paused: wait a moment and look again.
    Wait,
    /// The transfer was cancelled or is gone: stop without error.
    Stop,
}

/// The step for the tracked task of a transfer (`None` when it is gone).
pub open spec fn spec_send_step(task: Option<TransferTask>) -> SendStep {
    match task {
        None => SendStep::Stop,
        Some(t) => if t.status == TransferStatus::Paused {
            SendStep::Wait
        } else if t.status == TransferStatus::Failed {
            SendStep::Stop
        } else {
            SendStep::Proceed
        },
    }
}

/// Decide whether a sender goes on, from the tracked task of its transfer.
pub fn send_gate(task: Option<&TransferTask>) -> (res: SendStep)
    ensures
        res == spec_send_step(
            match task {
                Some(t) => Some(*t),
                None => None,
            },
        ),
{
    match task {
        None => SendStep::Stop,
        Some(t) => match t.status {
            TransferStatus::Paused => SendStep::Wait,
            TransferStatus::Failed => SendStep::Stop,
            _ => SendStep::Proceed,
        },
    }
}

/// How many bytes a folder receiver asks for next: what is left of the
/// current file, at most one chunk.
pub fn chunk_len(remaining: u64) -> (res: usize)
    ensures
        res == if remaining < CHUNK_SIZE {
            remaining as int
        } else {
            CHUNK_SIZE as int
        },
{
    if remaining < CHUNK_SIZE as u64 {
        remaining as usize
    } else {
        CHUNK_SIZE
    }
}

/// Account for a read of `n` bytes of a file of which `remaining` bytes were
/// still expected, `received` bytes of the folder having come before: the
/// bytes still expected and the bytes received so far. A read of nothing
/// means the sender hung up early, a transfer error.
pub fn after_chunk(remaining: u64, received: u64, n: usize) -> (res: Result<(u64, u64), PeacockError>)
    requires
        0 < remaining,
        n <= remaining,
        received + n <= u64::MAX,
    ensures
        res is Err <==> n == 0,
        res matches Ok((left, total)) ==> left == remaining - n && total == received + n,
        res matches Err(e) ==> (e matches PeacockError::Transfer(m) && m@
            == "Connection closed before all data received"@),
{
    if n == 0 {
        return Err(
            PeacockError::Transfer("Connection closed before all data received".to_string()),
        );
    }
    let k = n as u64;
    Ok((remaining - k, received + k))
}

/// The frame a folder's manifest is sent in, ahead of the files: the
/// manifest's length in bytes as 8 little-endian bytes, then the manifest.
pub fn manifest_frame(manifest: &[u8]) -> (res: Vec<u8>)
    ensures
        res@ == le64(manifest@.len() as u64) + manifest@,
{
    let v: u64 = manifest.len() as u64;
    let mut res: Vec<u8> = Vec::new();
    res.push((v % 256) as u8);
    res.push(((v / 256) % 256) as u8);
    res.push(((v / 65536) % 256) as u8);
    res.push(((v / 16777216) % 256) as u8);
    res.push(((v / 4294967296) % 256) as u8);
    res.push(((v / 1099511627776) % 256) as u8);
    res.push(((v / 281474976710656) % 256) as u8);
    res.push((v / 72057594037927936) as u8);
    res.extend_from_slice(manifest);
    proof {
        assert(res@ =~= le64(v) + manifest@);
    }
    res
}

/// The manifest length that the first 8 bytes of a frame announce.
pub fn manifest_len(prefix: &[u8; 8]) -> (res: u64)
    ensures
        res == le64_at(prefix@, 0),
{
    let b0 = prefix[0] as u64;
    let b1 = prefix[1] as u64;
    let b2 = prefix[2] as u64;
    let b3 = prefix[3] as u64;
    let b4 = prefix[4] as u64;
    let b5 = prefix[5] as u64;
    let b6 = prefix[6] as u64;
    let b7 = prefix[7] as u64;
    b0 + b1 * 256 + b2 * 65536 + b3 * 16777216 + b4 * 4294967296 + b5 * 1099511627776 + b6
        * 281474976710656 + b7 * 72057594037927936
}

/// The length read back from a frame is the length of the manifest framed.
pub proof fn law_manifest_frame(manifest: Seq<u8>)
    requires
        manifest.len() <= u64::MAX,
    ensures
        le64_at(le64(manifest.len() as u64) + manifest, 0) == manifest.len(),
        (le64(manifest.len() as u64) + manifest).subrange(8, 8 + manifest.len() as int) == manifest,
{
    let f = le64(manifest.len() as u64) + manifest;
    assert(f.subrange(0, 8) =~= le64(manifest.len() as u64));
    lemma_parse_u64_enc(f, 0, manifest.len() as u64);
    assert(f.subrange(8, 8 + manifest.len() as int) =~= manifest);
}

/// The files' bytes one after the other.
pub open spec fn spec_concat(cs: Seq<Seq<u8>>) -> Seq<u8>
    decreases cs.len(),
{
    if cs.len() == 0 {
        Seq::empty()
    } else {
        spec_concat(cs.drop_last()) + cs.last()
    }
}

/// What a folder sender writes to the stream: the framed manifest, then the
/// contents of the files in manifest order.
pub open spec fn spec_folder_stream(manifest_json: Seq<u8>, contents: Seq<Seq<u8>>) -> Seq<u8> {
    le64(manifest_json.len() as u64) + manifest_json + spec_concat(contents)
}

/// File `i` sits in the concatenation right after the files before it.
proof fn lemma_concat_slice(cs: Seq<Seq<u8>>, i: int)
    requires
        0 <= i < cs.len(),
    ensures
        spec_concat(cs.take(i)).len() + cs[i].len() <= spec_concat(cs).len(),
        spec_concat(cs).subrange(
            spec_concat(cs.take(i)).len() as int,
            (spec_concat(cs.take(i)).len() + cs[i].len()) as int,
        ) == cs[i],
    decreases cs.len(),
{
    let dl = cs.drop_last();
    if i == cs.len() - 1 {
        assert(cs.take(i) =~= dl);
        assert((spec_concat(dl) + cs.last()).subrange(
            spec_concat(dl).len() as int,
            (spec_concat(dl).len() + cs.last().len()) as int,
        ) =~= cs.last());
    } else {
        lemma_concat_slice(dl, i);
        assert(dl.take(i) =~= cs.take(i));
        let a = spec_concat(dl);
        let x = spec_concat(cs.take(i)).len() as int;
        assert((a + cs.last()).subrange(x, x + cs[i].len()) =~= a.subrange(x, x + cs[i].len()));
    }
}

/// The manifest sizes of the first `i` files add up to those files' bytes.
proof fn lemma_sizes_offset(manifest: Seq<FolderEntry>, cs: Seq<Seq<u8>>, i: int)
    requires
        manifest.len() == cs.len(),
        forall|j: int| 0 <= j < cs.len() ==> (#[trigger] manifest[j]).size == cs[j].len(),
        0 <= i <= cs.len(),
    ensures
        spec_total_size(manifest.take(i)) == spec_concat(cs.take(i)).len(),
    decreases i,
{
    if i > 0 {
        lemma_sizes_offset(manifest, cs, i - 1);
        assert(manifest.take(i).drop_last() =~= manifest.take(i - 1));
        assert(cs.take(i).drop_last() =~= cs.take(i - 1));
        assert(manifest[i - 1].size == cs[i - 1].len());
    }
}

/// A folder sent as a framed manifest followed by the files' contents is
/// received file by file: the frame gives back the manifest, and file `i`
/// is the `size` bytes that follow the manifest and the earlier files'
/// sizes, which is where the receiver, reading each file's size in turn,
/// takes them from.
pub proof fn law_folder_stream_splits(
    manifest_json: Seq<u8>,
    manifest: Seq<FolderEntry>,
    contents: Seq<Seq<u8>>,
    i: int,
)
    requires
        manifest_json.len() <= u64::MAX,
        manifest.len() == contents.len(),
        forall|j: int| 0 <= j < contents.len() ==> (#[trigger] manifest[j]).size == contents[j].len(),
        0 <= i < contents.len(),
    ensures
        ({
            let d = spec_folder_stream(manifest_json, contents);
            let start: int = (8 + manifest_json.len() + spec_total_size(manifest.take(i))) as int;
            &&& le64_at(d, 0) == manifest_json.len()
            &&& d.subrange(8, 8 + manifest_json.len() as int) == manifest_json
            &&& start + manifest[i].size <= d.len()
            &&& d.subrange(start, start + manifest[i].size) == contents[i]
        }),
{
    let f = le64(manifest_json.len() as u64) + manifest_json;
    law_manifest_frame(manifest_json);
    let c = spec_concat(contents);
    let d = f + c;
    assert(d == spec_folder_stream(manifest_json, contents));
    assert(d.subrange(0, 8) =~= f.subrange(0, 8));
    assert(f.subrange(0, 8) =~= le64(manifest_json.len() as u64));
    lemma_parse_u64_enc(d, 0, manifest_json.len() as u64);
    assert(d.subrange(8, 8 + manifest_json.len() as int) =~= f.subrange(8, 8 + manifest_json.len() as int));
    lemma_concat_slice(contents, i);
    lemma_sizes_offset(manifest, contents, i);
    let x = spec_concat(contents.take(i)).len() as int;
    let n = contents[i].len() as int;
    assert(d.subrange(f.len() + x, f.len() + x + n) =~= c.subrange(x, x + n));
}

} // verus!
