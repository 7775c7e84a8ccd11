//! The decisions of the discovery loops: what a received datagram asks for,
//! how an announcement or a response updates the registry, what the beacon
//! and the response carry, and when a socket counts as dead.
use vstd::prelude::*;

use crate::discovery::device::{
    spec_mark_heard, spec_refresh_all, spec_upsert, spec_upsert_reports, spec_peer_of, DeviceInfo,
    DiscoveryState,
};
use crate::discovery::presence;
use crate::protocol::header::{
    be16_at, be32_at, has_magic, header_decodes, spec_header_valid, PacketHeader,
};
use crate::protocol::types::{MAGIC, VERSION};
use crate::protocol::types::{spec_packet_from_code, AnnouncePayload, PacketType, PeerInfo};
use crate::protocol::wire::{parse_datagram, spec_well_framed};
use crate::text::{spec_uuid_text, str_eq, uuid_from_bytes};

verus! {

/// What the discovery listener does with a datagram.
#[derive(Debug)]
pub enum DatagramAction {
    /// Malformed, sent by this device, or of a kind the listener leaves alone.
    Ignore,
    /// A peer's broadcast announcement.
    Announce { device_id: String, payload: Vec<u8> },
    /// A peer's answer to our announcement.
    AnnounceResponse { device_id: String, payload: Vec<u8> },
    /// A peer going offline.
    Bye { device_id: String },
    /// A message for the messaging handler.
    Message { header: PacketHeader, payload: Vec<u8> },
}

/// The packet kinds that the listener hands to the messaging handler.
pub open spec fn spec_is_message(t: PacketType) -> bool {
    t == PacketType::Text || t == PacketType::FileOffer || t == PacketType::FileAccept || t
        == PacketType::FileReject || t == PacketType::SnippetShare
}

/// The action for datagram `d` received by the device with id `self_id`.
pub open spec fn spec_action_matches(d: Seq<u8>, self_id: Seq<u8>, a: DatagramAction) -> bool {
    if !spec_well_framed(d) || d.subrange(8, 24) == self_id {
        a is Ignore
    } else {
        let payload = d.subrange(32, 32 + be32_at(d, 24));
        let id = spec_uuid_text(d.subrange(8, 24));
        match spec_packet_from_code(be16_at(d, 6)) {
            Some(PacketType::Announce) => a matches DatagramAction::Announce { device_id, payload: p }
                && device_id@ == id && p@ == payload,
            Some(PacketType::AnnounceResponse) => a matches DatagramAction::AnnounceResponse {
                device_id,
                payload: p,
            } && device_id@ == id && p@ == payload,
            Some(PacketType::Bye) => a matches DatagramAction::Bye { device_id } && device_id@ == id,
            Some(t) => if spec_is_message(t) {
                a matches DatagramAction::Message { header, payload: p } && header_decodes(
                    d.subrange(0, 32),
                    header,
                ) && spec_header_valid(header) && p@ == payload
            } else {
                a is Ignore
            },
            None => a is Ignore,
        }
    }
}

/// Decide what to do with a datagram received by the device `self_id`.
pub fn classify_datagram(datagram: &[u8], self_id: &[u8; 16]) -> (res: DatagramAction)
    ensures
        spec_action_matches(datagram@, self_id@, res),
{
    let (header, payload) = match parse_datagram(datagram) {
        Some(x) => x,
        None => {
            return DatagramAction::Ignore;
        },
    };
    proof {
        assert(header.device_id@ == datagram@.subrange(0, 32).subrange(8, 24));
        assert(datagram@.subrange(0, 32).subrange(8, 24) =~= datagram@.subrange(8, 24));
        assert(header.packet_type == be16_at(datagram@, 6));
        assert(header.payload_length == be32_at(datagram@, 24));
    }
    let mut same = true;
    let mut i: usize = 0;
    while i < 16
        invariant
            0 <= i <= 16,
            same <==> forall|j: int| 0 <= j < i ==> header.device_id@[j] == self_id@[j],
        decreases 16 - i,
    {
        if header.device_id[i] != self_id[i] {
            same = false;
        }
        i = i + 1;
    }
    if same {
        proof {
            assert(header.device_id@ =~= self_id@);
        }
        return DatagramAction::Ignore;
    }
    proof {
        if datagram@.subrange(8, 24) == self_id@ {
            let j = choose|j: int| 0 <= j < 16 && header.device_id@[j] != self_id@[j];
            assert(header.device_id@[j] == datagram@.subrange(8, 24)[j]);
        }
    }
    match header.get_packet_type() {
        Some(PacketType::Announce) => {
            let device_id = uuid_from_bytes(&header.device_id);
            DatagramAction::Announce { device_id, payload }
        },
        Some(PacketType::AnnounceResponse) => {
            let device_id = uuid_from_bytes(&header.device_id);
            DatagramAction::AnnounceResponse { device_id, payload }
        },
        Some(PacketType::Bye) => {
            let device_id = uuid_from_bytes(&header.device_id);
            DatagramAction::Bye { device_id }
        },
        Some(PacketType::Text) | Some(PacketType::FileOffer) | Some(PacketType::FileAccept) | Some(
            PacketType::FileReject,
        ) | Some(PacketType::SnippetShare) => DatagramAction::Message { header, payload },
        _ => DatagramAction::Ignore,
    }
}

/// What a presence-only listener does with a datagram.
#[derive(Debug)]
pub enum PresenceAction {
    /// Malformed, sent by this device, or not a discovery packet.
    Ignore,
    /// A peer's announcement, with its payload.
    Announce { device_id: String, payload: Vec<u8> },
    /// A peer going offline.
    Bye { device_id: String },
}

/// The action of a presence-only listener for datagram `d` received by
/// the device with id `self_id`. Only an announcement needs its whole
/// payload to be there.
pub open spec fn spec_presence_action(d: Seq<u8>, self_id: Seq<u8>, a: PresenceAction) -> bool {
    if d.len() < 32 || !has_magic(d) || be16_at(d, 4) != VERSION || d.subrange(8, 24) == self_id {
        a is Ignore
    } else {
        let id = spec_uuid_text(d.subrange(8, 24));
        match spec_packet_from_code(be16_at(d, 6)) {
            Some(PacketType::Announce) => if 32 + be32_at(d, 24) <= d.len() {
                a matches PresenceAction::Announce { device_id, payload } && device_id@ == id
                    && payload@ == d.subrange(32, 32 + be32_at(d, 24))
            } else {
                a is Ignore
            },
            Some(PacketType::Bye) => a matches PresenceAction::Bye { device_id } && device_id@ == id,
            _ => a is Ignore,
        }
    }
}

/// Decide what a presence-only listener does with a datagram received
/// by the device `self_id`.
pub fn classify_presence_datagram(datagram: &[u8], self_id: &[u8; 16]) -> (res: PresenceAction)
    ensures
        spec_presence_action(datagram@, self_id@, res),
{
    if datagram.len() < 32 {
        return PresenceAction::Ignore;
    }
    let mut head = [0u8; 32];
    let mut i: usize = 0;
    while i < 32
        invariant
            0 <= i <= 32,
            datagram@.len() >= 32,
            forall|j: int| 0 <= j < i ==> head@[j] == datagram@[j],
        decreases 32 - i,
    {
        head[i] = datagram[i];
        i = i + 1;
    }
    proof {
        assert(head@ =~= datagram@.subrange(0, 32));
        assert(datagram@.subrange(0, 4) =~= head@.subrange(0, 4));
        assert(be16_at(datagram@, 4) == be16_at(head@, 4));
        assert(be16_at(datagram@, 6) == be16_at(head@, 6));
        assert(be32_at(datagram@, 24) == be32_at(head@, 24));
    }
    let header = match PacketHeader::from_bytes(&head) {
        Some(h) => h,
        None => {
            return PresenceAction::Ignore;
        },
    };
    if !header.is_valid() {
        return PresenceAction::Ignore;
    }
    proof {
        assert(head@.subrange(8, 24) =~= datagram@.subrange(8, 24));
        assert(header.packet_type == be16_at(datagram@, 6));
        assert(header.payload_length == be32_at(datagram@, 24));
        assert(header.device_id@ == datagram@.subrange(8, 24));
        assert(has_magic(datagram@));
    }
    let mut same = true;
    let mut k: usize = 0;
    while k < 16
        invariant
            0 <= k <= 16,
            same <==> forall|j: int| 0 <= j < k ==> header.device_id@[j] == self_id@[j],
        decreases 16 - k,
    {
        if header.device_id[k] != self_id[k] {
            same = false;
        }
        k = k + 1;
    }
    if same {
        proof {
            assert(header.device_id@ =~= self_id@);
        }
        return PresenceAction::Ignore;
    }
    proof {
        if datagram@.subrange(8, 24) == self_id@ {
            let j = choose|j: int| 0 <= j < 16 && header.device_id@[j] != self_id@[j];
            assert(header.device_id@[j] == datagram@.subrange(8, 24)[j]);
        }
    }
    match header.get_packet_type() {
        Some(PacketType::Announce) => {
            let len = header.payload_length as usize;
            if datagram.len() - 32 < len {
                return PresenceAction::Ignore;
            }
            let mut payload: Vec<u8> = Vec::new();
            payload.extend_from_slice(&datagram[32..32 + len]);
            let device_id = uuid_from_bytes(&header.device_id);
            proof {
                assert(payload@ =~= datagram@.subrange(32, 32 + be32_at(datagram@, 24)));
            }
            PresenceAction::Announce { device_id, payload }
        },
        Some(PacketType::Bye) => {
            let device_id = uuid_from_bytes(&header.device_id);
            PresenceAction::Bye { device_id }
        },
        _ => PresenceAction::Ignore,
    }
}

/// Handle an announcement received at `now` by a presence-only registry: the peer
/// is added or refreshed. Returns its record when it is new or came back
/// online.
pub fn on_presence_announce_at(
    discovery: &mut presence::DiscoveryState,
    device_id: String,
    source_ip: String,
    payload: &AnnouncePayload,
    now: u64,
) -> (res: Option<presence::DeviceInfo>)
    requires
        old(discovery).wf(),
    ensures
        final(discovery).wf(),
        final(discovery)@ == presence::spec_upsert(
            old(discovery)@,
            device_id,
            payload.device_name,
            source_ip,
            payload.tcp_port,
            payload.platform,
            now,
        ),
        res is Some <==> presence::spec_upsert_reports(old(discovery)@, device_id@),
        res matches Some(d) ==> final(discovery)@.contains_key(device_id@) && d
            == final(discovery)@[device_id@],
{
    let key = device_id.clone();
    let is_new = discovery.upsert_device_at(
        device_id,
        payload.device_name.clone(),
        source_ip,
        payload.tcp_port,
        payload.platform.clone(),
        now,
    );
    if is_new {
        match discovery.get_device(key.as_str()) {
            Some(d) => Some(d.clone()),
            None => None,
        }
    } else {
        None
    }
}

/// The bytes open a current packet: the magic `PCOK`, version 1, and the
/// whole payload that the big-endian length at offset 24 announces.
pub open spec fn opens_current_packet(d: Seq<u8>) -> bool {
    &&& d.len() >= 32
    &&& d[0] == 0x50u8 && d[1] == 0x43u8 && d[2] == 0x4Fu8 && d[3] == 0x4Bu8
    &&& d[4] == 0u8 && d[5] == 1u8
    &&& 32 + d[24] * 16777216 + d[25] * 65536 + d[26] * 256 + d[27] <= d.len()
}

proof fn lemma_current_packet_framed(d: Seq<u8>)
    requires
        opens_current_packet(d),
    ensures
        spec_well_framed(d),
        be32_at(d, 24) == d[24] * 16777216 + d[25] * 65536 + d[26] * 256 + d[27],
        be16_at(d, 6) == d[6] * 256 + d[7],
{
    assert(d.subrange(0, 4) =~= seq![0x50u8, 0x43u8, 0x4Fu8, 0x4Bu8]);
    assert(MAGIC@ =~= seq![0x50u8, 0x43u8, 0x4Fu8, 0x4Bu8]);
}

/// A current packet from another device whose type code is 10 (text), 20
/// (file offer), 21 (file accept), 22 (file reject) or 31 (snippet share)
/// goes to the messaging handler, with its header (type code and sender as
/// sent) and its payload.
pub proof fn law_message_codes_dispatched(d: Seq<u8>, self_id: Seq<u8>, a: DatagramAction)
    requires
        opens_current_packet(d),
        d[6] == 0u8,
        d[7] == 10u8 || d[7] == 20u8 || d[7] == 21u8 || d[7] == 22u8 || d[7] == 31u8,
        d.subrange(8, 24) != self_id,
        spec_action_matches(d, self_id, a),
    ensures
        a matches DatagramAction::Message { header, payload } && header.packet_type == d[7]
            && header.device_id@ == d.subrange(8, 24) && payload@ == d.subrange(
            32,
            32 + d[24] * 16777216 + d[25] * 65536 + d[26] * 256 + d[27],
        ),
{
    lemma_current_packet_framed(d);
    if let DatagramAction::Message { header, payload } = a {
        assert(header.device_id@ == d.subrange(0, 32).subrange(8, 24));
        assert(d.subrange(0, 32).subrange(8, 24) =~= d.subrange(8, 24));
        assert(be16_at(d.subrange(0, 32), 6) == be16_at(d, 6));
    }
}

/// Announcements (code 1), answers (3) and byes (2) from another device go
/// to discovery; every other code (23 file chunk, 30 clipboard, 99 ack and
/// unknown codes) is left alone, as is every packet this device sent.
pub proof fn law_other_codes_ignored(d: Seq<u8>, self_id: Seq<u8>, a: DatagramAction)
    requires
        opens_current_packet(d),
        spec_action_matches(d, self_id, a),
    ensures
        d.subrange(8, 24) == self_id ==> a is Ignore,
        d.subrange(8, 24) != self_id ==> {
            let code = d[6] * 256 + d[7];
            &&& code == 1 ==> a is Announce
            &&& code == 2 ==> a is Bye
            &&& code == 3 ==> a is AnnounceResponse
            &&& !(code == 1 || code == 2 || code == 3 || code == 10 || code == 20 || code == 21
                || code == 22 || code == 31) ==> a is Ignore
        },
{
    lemma_current_packet_framed(d);
}

/// Whether a list of peer entries names the device `device_id`.
pub fn lists_device(peers: &Vec<PeerInfo>, device_id: &str) -> (res: bool)
    ensures
        res == exists|k: int| 0 <= k < peers@.len() && (#[trigger] peers@[k]).device_id@ == device_id@,
{
    let mut i: usize = 0;
    while i < peers.len()
        invariant
            0 <= i <= peers@.len(),
            forall|k: int| 0 <= k < i ==> (#[trigger] peers@[k]).device_id@ != device_id@,
        decreases peers@.len() - i,
    {
        if str_eq(peers[i].device_id.as_str(), device_id) {
            return true;
        }
        i = i + 1;
    }
    false
}

/// Whether an announcement lists the device `self_id` among its restricted peers.
pub open spec fn spec_lists(payload: AnnouncePayload, self_id: Seq<char>) -> bool {
    exists|k: int|
        0 <= k < payload.restricted_peers@.len() && (#[trigger] payload.restricted_peers@[k]).device_id@
            == self_id
}

/// The registry after an announcement from `device_id` (seen at
/// `source_ip`) is received at `now` by the device `self_id`.
pub open spec fn spec_after_announce(
    m: Map<Seq<char>, DeviceInfo>,
    device_id: String,
    source_ip: String,
    payload: AnnouncePayload,
    self_id: Seq<char>,
    now: u64,
) -> Map<Seq<char>, DeviceInfo> {
    let m1 = spec_mark_heard(m, device_id@, now);
    if spec_lists(payload, self_id) {
        spec_upsert(
            m1,
            device_id,
            payload.device_name,
            source_ip,
            payload.tcp_port,
            payload.platform,
            now,
        )
    } else {
        m1
    }
}

/// Handle a peer's announcement received at `now`: its broadcast is noted if
/// the peer is known; it is added only when it lists us among its
/// restricted peers. Returns the peer's record when it came online through
/// this announcement.
pub fn on_announce_at(
    discovery: &mut DiscoveryState,
    device_id: String,
    source_ip: String,
    payload: &AnnouncePayload,
    self_id: &str,
    now: u64,
) -> (res: Option<DeviceInfo>)
    requires
        old(discovery).wf(),
    ensures
        final(discovery).wf(),
        final(discovery)@ == spec_after_announce(
            old(discovery)@,
            device_id,
            source_ip,
            *payload,
            self_id@,
            now,
        ),
        res is Some <==> spec_lists(*payload, self_id@) && spec_upsert_reports(
            spec_mark_heard(old(discovery)@, device_id@, now),
            device_id@,
        ),
        res matches Some(d) ==> final(discovery)@.contains_key(device_id@) && d
            == final(discovery)@[device_id@],
{
    discovery.mark_received_broadcast_at(device_id.as_str(), now);
    if lists_device(&payload.restricted_peers, self_id) {
        let key = device_id.clone();
        let is_new = discovery.upsert_from_response_at(
            device_id,
            payload.device_name.clone(),
            source_ip,
            payload.tcp_port,
            payload.platform.clone(),
            now,
        );
        if is_new {
            return discovery.get_device_with_status(key.as_str());
        }
    }
    None
}

/// Handle a peer's answer to our announcement, received at `now`: the peer
/// is added or refreshed. Returns its record when it is new or came back
/// online.
pub fn on_announce_response_at(
    discovery: &mut DiscoveryState,
    device_id: String,
    source_ip: String,
    payload: &AnnouncePayload,
    now: u64,
) -> (res: Option<DeviceInfo>)
    requires
        old(discovery).wf(),
    ensures
        final(discovery).wf(),
        final(discovery)@ == spec_upsert(
            old(discovery)@,
            device_id,
            payload.device_name,
            source_ip,
            payload.tcp_port,
            payload.platform,
            now,
        ),
        res is Some <==> spec_upsert_reports(old(discovery)@, device_id@),
        res matches Some(d) ==> final(discovery)@.contains_key(device_id@) && d
            == final(discovery)@[device_id@],
{
    let key = device_id.clone();
    let is_new = discovery.upsert_from_response_at(
        device_id,
        payload.device_name.clone(),
        source_ip,
        payload.tcp_port,
        payload.platform.clone(),
        now,
    );
    if is_new {
        discovery.get_device_with_status(key.as_str())
    } else {
        None
    }
}

/// The feature bits that this implementation announces.
pub const FEATURES: u32 = 0xFFFF;

/// The payload of our answer to an announcement: our name, platform and
/// port, all features, and no restricted peers.
pub fn response_payload(device_name: String, platform: String, tcp_port: u16) -> (res: AnnouncePayload)
    ensures
        res.device_name == device_name,
        res.platform == platform,
        res.tcp_port == tcp_port,
        res.features == FEATURES,
        res.restricted_peers@.len() == 0,
{
    AnnouncePayload {
        device_name,
        platform,
        tcp_port,
        features: FEATURES,
        restricted_peers: Vec::new(),
    }
}

/// Prepare the beacon sent at `now`: refresh which peers are
/// broadcast-restricted, then announce our name, platform and port, all
/// features, and the restricted peers.
pub fn beacon_payload_at(
    discovery: &mut DiscoveryState,
    device_name: String,
    platform: String,
    tcp_port: u16,
    now: u64,
) -> (res: AnnouncePayload)
    requires
        old(discovery).wf(),
    ensures
        final(discovery).wf(),
        final(discovery)@ == spec_refresh_all(old(discovery)@, now),
        res.device_name == device_name,
        res.platform == platform,
        res.tcp_port == tcp_port,
        res.features == FEATURES,
        forall|p: PeerInfo|
            res.restricted_peers@.contains(p) <==> exists|k: Seq<char>|
                #[trigger] final(discovery)@.contains_key(k) && final(discovery)@[k].is_online
                    && final(discovery)@[k].is_restricted && p == spec_peer_of(final(discovery)@[k]),
        res.restricted_peers@.map_values(|p: PeerInfo| p.device_id@).no_duplicates(),
{
    discovery.refresh_restricted_status_at(now);
    let restricted_peers = discovery.get_restricted_peers();
    AnnouncePayload { device_name, platform, tcp_port, features: FEATURES, restricted_peers }
}

/// Count the outcome of one round on a socket: a success clears the count
/// of consecutive failures, a failure adds one. Returns the new count and
/// whether the socket counts as dead (`limit` failures in a row).
pub fn record_outcome(consecutive_errors: u32, ok: bool, limit: u32) -> (res: (u32, bool))
    ensures
        ok ==> res == (0u32, false),
        !ok ==> res.0 == (if consecutive_errors < u32::MAX { consecutive_errors + 1 } else { u32::MAX as int }),
        !ok ==> res.1 == (res.0 >= limit),
{
    if ok {
        (0, false)
    } else {
        let n = consecutive_errors.saturating_add(1);
        (n, n >= limit)
    }
}

} // verus!
