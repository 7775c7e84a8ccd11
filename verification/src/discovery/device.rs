use vstd::prelude::*;

use crate::clock::clock_secs;
use crate::keyed::{
    entries_map, find_key, key_index, key_views, lemma_entries_contains, lemma_entries_empty,
    lemma_entries_index, lemma_entries_map_values, lemma_entries_push, lemma_entries_update,
};
use crate::protocol::types::{PeerInfo, BEACON_INTERVAL_SECS, OFFLINE_TIMEOUT_SECS};

verus! {

/// Broadcast-restricted threshold: a device whose broadcast has not been
/// received within this many seconds counts as restricted (three beacon
/// intervals).
pub const RESTRICTED_THRESHOLD_SECS: u64 = BEACON_INTERVAL_SECS * 3;

/// What is known of one peer.
#[derive(Debug)]
pub struct DeviceInfo {
    pub device_id: String,
    pub device_name: String,
    pub ip_addr: String,
    pub tcp_port: u16,
    pub platform: String,
    pub last_seen: u64,
    pub is_online: bool,
    /// Timestamp of the last broadcast received from this device (0 = never).
    pub last_broadcast_at: u64,
    /// Whether this device is broadcast-restricted (refreshed before each beacon).
    pub is_restricted: bool,
}

impl Clone for DeviceInfo {
    fn clone(&self) -> (res: Self)
        ensures
            res == *self,
    {
        DeviceInfo {
            device_id: self.device_id.clone(),
            device_name: self.device_name.clone(),
            ip_addr: self.ip_addr.clone(),
            tcp_port: self.tcp_port,
            platform: self.platform.clone(),
            last_seen: self.last_seen,
            is_online: self.is_online,
            last_broadcast_at: self.last_broadcast_at,
            is_restricted: self.is_restricted,
        }
    }
}

/// The record left by an upsert at time `now`: an existing record keeps its
/// id and broadcast bookkeeping, a new one starts never heard broadcasting
/// and not restricted; either way it is online and last seen `now`.
pub open spec fn spec_upserted(
    prev: Option<DeviceInfo>,
    device_id: String,
    device_name: String,
    ip_addr: String,
    tcp_port: u16,
    platform: String,
    now: u64,
) -> DeviceInfo {
    match prev {
        Some(d) => DeviceInfo {
            device_id: d.device_id,
            device_name,
            ip_addr,
            tcp_port,
            platform,
            last_seen: now,
            is_online: true,
            last_broadcast_at: d.last_broadcast_at,
            is_restricted: d.is_restricted,
        },
        None => DeviceInfo {
            device_id,
            device_name,
            ip_addr,
            tcp_port,
            platform,
            last_seen: now,
            is_online: true,
            last_broadcast_at: 0,
            is_restricted: false,
        },
    }
}

/// The registry after an upsert of `device_id` at time `now`.
pub open spec fn spec_upsert(
    m: Map<Seq<char>, DeviceInfo>,
    device_id: String,
    device_name: String,
    ip_addr: String,
    tcp_port: u16,
    platform: String,
    now: u64,
) -> Map<Seq<char>, DeviceInfo> {
    m.insert(
        device_id@,
        spec_upserted(
            if m.contains_key(device_id@) { Some(m[device_id@]) } else { None },
            device_id,
            device_name,
            ip_addr,
            tcp_port,
            platform,
            now,
        ),
    )
}

/// An upsert reports `true` when the device is new or was offline.
pub open spec fn spec_upsert_reports(m: Map<Seq<char>, DeviceInfo>, id: Seq<char>) -> bool {
    !m.contains_key(id) || !m[id].is_online
}

/// A record after a broadcast from its device is received at `now`.
pub open spec fn spec_heard_broadcast(d: DeviceInfo, now: u64) -> DeviceInfo {
    DeviceInfo { last_broadcast_at: now, last_seen: now, ..d }
}

/// A record taken offline: its broadcast bookkeeping is cleared.
pub open spec fn spec_offline(d: DeviceInfo) -> DeviceInfo {
    DeviceInfo { is_online: false, last_broadcast_at: 0, ..d }
}

/// An online device not seen for more than the offline timeout.
pub open spec fn spec_timed_out(d: DeviceInfo, now: u64) -> bool {
    d.is_online && now > d.last_seen + OFFLINE_TIMEOUT_SECS
}

/// A record after the timeout check at `now`.
pub open spec fn spec_after_timeouts(d: DeviceInfo, now: u64) -> DeviceInfo {
    if spec_timed_out(d, now) {
        spec_offline(d)
    } else {
        d
    }
}

/// Whether a device counts as broadcast-restricted at `now`: never heard
/// broadcasting, or not within the threshold.
pub open spec fn spec_restricted_at(d: DeviceInfo, now: u64) -> bool {
    d.last_broadcast_at == 0 || now > d.last_broadcast_at + RESTRICTED_THRESHOLD_SECS
}

/// A record after the restricted status is refreshed at `now`: online
/// devices get their status recomputed, offline ones are left alone.
pub open spec fn spec_after_refresh(d: DeviceInfo, now: u64) -> DeviceInfo {
    if d.is_online {
        DeviceInfo { is_restricted: spec_restricted_at(d, now), ..d }
    } else {
        d
    }
}

/// The registry after a broadcast from `device_id` is received at `now`:
/// a known device is stamped, an unknown one is not added.
pub open spec fn spec_mark_heard(m: Map<Seq<char>, DeviceInfo>, device_id: Seq<char>, now: u64) -> Map<
    Seq<char>,
    DeviceInfo,
> {
    if m.contains_key(device_id) {
        m.insert(device_id, spec_heard_broadcast(m[device_id], now))
    } else {
        m
    }
}

/// The registry after the restricted status is refreshed at `now`.
pub open spec fn spec_refresh_all(m: Map<Seq<char>, DeviceInfo>, now: u64) -> Map<Seq<char>, DeviceInfo> {
    m.map_values(|d: DeviceInfo| spec_after_refresh(d, now))
}

/// The registry after the timeout check at `now`.
pub open spec fn spec_timeouts_all(m: Map<Seq<char>, DeviceInfo>, now: u64) -> Map<Seq<char>, DeviceInfo> {
    m.map_values(|d: DeviceInfo| spec_after_timeouts(d, now))
}

/// The ids reported by the timeout check at `now`: exactly the online
/// devices not seen within the timeout.
pub open spec fn spec_timed_out_ids(m: Map<Seq<char>, DeviceInfo>, now: u64, ids: Seq<Seq<char>>) -> bool {
    &&& ids.no_duplicates()
    &&& forall|k: Seq<char>|
        ids.contains(k) <==> (#[trigger] m.contains_key(k) && spec_timed_out(m[k], now))
}

/// The compact peer entry that describes a device.
pub open spec fn spec_peer_of(d: DeviceInfo) -> PeerInfo {
    PeerInfo {
        device_id: d.device_id,
        device_name: d.device_name,
        ip_addr: d.ip_addr,
        tcp_port: d.tcp_port,
        platform: d.platform,
    }
}

/// The device registry of the discovery layer, keyed by device id.
#[derive(Debug)]
pub struct DiscoveryState {
    keys: Vec<String>,
    devices: Vec<DeviceInfo>,
}

impl View for DiscoveryState {
    type V = Map<Seq<char>, DeviceInfo>;

    closed spec fn view(&self) -> Map<Seq<char>, DeviceInfo> {
        entries_map(key_views(self.keys@), self.devices@)
    }
}

impl DiscoveryState {
    /// Internal consistency: one record per key, stored under its own id.
    pub closed spec fn wf(&self) -> bool {
        &&& self.keys@.len() == self.devices@.len()
        &&& key_views(self.keys@).no_duplicates()
        &&& forall|i: int|
            0 <= i < self.keys@.len() ==> (#[trigger] self.devices@[i]).device_id@ == self.keys@[i]@
    }

    /// Every record is stored under its own device id.
    pub proof fn lemma_ids_match(&self)
        requires
            self.wf(),
        ensures
            forall|k: Seq<char>| #[trigger] self@.contains_key(k) ==> self@[k].device_id@ == k,
    {
        assert forall|k: Seq<char>| #[trigger] self@.contains_key(k) implies self@[k].device_id@
            == k by {
            lemma_entries_contains(key_views(self.keys@), self.devices@, k);
        }
    }

    /// An empty registry.
    pub fn new() -> (res: Self)
        ensures
            res.wf(),
            res@ == Map::<Seq<char>, DeviceInfo>::empty(),
    {
        let res = DiscoveryState { keys: Vec::new(), devices: Vec::new() };
        proof {
            assert(key_views(res.keys@) =~= Seq::<Seq<char>>::empty());
            lemma_entries_empty::<DeviceInfo>();
        }
        res
    }

    fn find(&self, device_id: &str) -> (res: Option<usize>)
        requires
            self.wf(),
        ensures
            match res {
                Some(i) => i < self.keys@.len() && self.keys@[i as int]@ == device_id@
                    && self@.contains_key(device_id@) && self@[device_id@] == self.devices@[i as int],
                None => !self@.contains_key(device_id@),
            },
    {
        let key = device_id.to_owned();
        let res = find_key(&self.keys, &key);
        proof {
            if let Some(i) = res {
                assert(key_views(self.keys@)[i as int] == device_id@);
                lemma_entries_index(key_views(self.keys@), self.devices@, i as int);
            }
        }
        res
    }

    /// Add or update a device that answered our broadcast, at time `now`.
    /// Returns true if the device is new or was offline.
    pub fn upsert_from_response_at(
        &mut self,
        device_id: String,
        device_name: String,
        ip_addr: String,
        tcp_port: u16,
        platform: String,
        now: u64,
    ) -> (res: bool)
        requires
            old(self).wf(),
        ensures
            final(self).wf(),
            final(self)@ == spec_upsert(
                old(self)@,
                device_id,
                device_name,
                ip_addr,
                tcp_port,
                platform,
                now,
            ),
            res == spec_upsert_reports(old(self)@, device_id@),
    {
        let ghost old_map = self@;
        let ghost ks = key_views(self.keys@);
        let found = find_key(&self.keys, &device_id);
        match found {
            Some(i) => {
                let was_offline = !self.devices[i].is_online;
                let d = DeviceInfo {
                    device_id: self.devices[i].device_id.clone(),
                    device_name,
                    ip_addr,
                    tcp_port,
                    platform,
                    last_seen: now,
                    is_online: true,
                    last_broadcast_at: self.devices[i].last_broadcast_at,
                    is_restricted: self.devices[i].is_restricted,
                };
                let ghost vs = self.devices@;
                self.devices[i] = d;
                proof {
                    assert(ks[i as int] == device_id@);
                    lemma_entries_index(ks, vs, i as int);
                    lemma_entries_update(ks, vs, i as int, d);
                    assert(key_views(self.keys@) == ks);
                    assert forall|j: int| 0 <= j < self.keys@.len() implies (
                    #[trigger] self.devices@[j]).device_id@ == self.keys@[j]@ by {
                        if j != i {
                            assert(self.devices@[j] == vs[j]);
                        }
                    }
                }
                was_offline
            },
            None => {
                let d = DeviceInfo {
                    device_id: device_id.clone(),
                    device_name,
                    ip_addr,
                    tcp_port,
                    platform,
                    last_seen: now,
                    is_online: true,
                    last_broadcast_at: 0,
                    is_restricted: false,
                };
                let ghost vs = self.devices@;
                let ghost kseq = self.keys@;
                self.keys.push(device_id);
                self.devices.push(d);
                proof {
                    assert(key_views(self.keys@) =~= ks.push(d.device_id@));
                    lemma_entries_push(ks, vs, d.device_id@, d);
                    assert forall|j: int| 0 <= j < self.keys@.len() implies (
                    #[trigger] self.devices@[j]).device_id@ == self.keys@[j]@ by {
                        if j < kseq.len() {
                            assert(self.devices@[j] == vs[j]);
                            assert(self.keys@[j] == kseq[j]);
                        }
                    }
                }
                true
            },
        }
    }

    /// Add or update a device that answered our broadcast, stamped with the
    /// current clock. Returns true if the device is new or was offline.
    pub fn upsert_from_response(
        &mut self,
        device_id: String,
        device_name: String,
        ip_addr: String,
        tcp_port: u16,
        platform: String,
    ) -> (res: bool)
        requires
            old(self).wf(),
        ensures
            final(self).wf(),
            exists|now: u64|
                final(self)@ == spec_upsert(
                    old(self)@,
                    device_id,
                    device_name,
                    ip_addr,
                    tcp_port,
                    platform,
                    now,
                ),
            res == spec_upsert_reports(old(self)@, device_id@),
    {
        let now = now_secs();
        self.upsert_from_response_at(device_id, device_name, ip_addr, tcp_port, platform, now)
    }

    /// Add a device that listed us among its restricted peers; the same
    /// update as for a response.
    pub fn upsert_from_restricted_self_discovery(
        &mut self,
        device_id: String,
        device_name: String,
        ip_addr: String,
        tcp_port: u16,
        platform: String,
    ) -> (res: bool)
        requires
            old(self).wf(),
        ensures
            final(self).wf(),
            exists|now: u64|
                final(self)@ == spec_upsert(
                    old(self)@,
                    device_id,
                    device_name,
                    ip_addr,
                    tcp_port,
                    platform,
                    now,
                ),
            res == spec_upsert_reports(old(self)@, device_id@),
    {
        self.upsert_from_response(device_id, device_name, ip_addr, tcp_port, platform)
    }

    /// Record that a broadcast from `device_id` was received at `now`.
    /// Does not add unknown devices.
    pub fn mark_received_broadcast_at(&mut self, device_id: &str, now: u64)
        requires
            old(self).wf(),
        ensures
            final(self).wf(),
            final(self)@ == spec_mark_heard(old(self)@, device_id@, now),
    {
        if let Some(i) = self.find(device_id) {
            let ghost ks = key_views(self.keys@);
            let ghost vs = self.devices@;
            self.devices[i].last_broadcast_at = now;
            self.devices[i].last_seen = now;
            proof {
                assert(self.devices@ == vs.update(i as int, spec_heard_broadcast(vs[i as int], now)));
                lemma_entries_update(ks, vs, i as int, spec_heard_broadcast(vs[i as int], now));
                assert forall|j: int| 0 <= j < self.keys@.len() implies (
                #[trigger] self.devices@[j]).device_id@ == self.keys@[j]@ by {
                    if j != i {
                        assert(self.devices@[j] == vs[j]);
                    }
                }
            }
        }
    }

    /// Record that a broadcast from `device_id` was received now.
    /// Does not add unknown devices.
    pub fn mark_received_broadcast(&mut self, device_id: &str)
        requires
            old(self).wf(),
        ensures
            final(self).wf(),
            exists|now: u64| final(self)@ == spec_mark_heard(old(self)@, device_id@, now),
    {
        let now = now_secs();
        self.mark_received_broadcast_at(device_id, now);
    }

    /// Recompute, at time `now`, whether each online device is
    /// broadcast-restricted; offline devices are left as they are.
    pub fn refresh_restricted_status_at(&mut self, now: u64)
        requires
            old(self).wf(),
        ensures
            final(self).wf(),
            final(self)@ == spec_refresh_all(old(self)@, now),
    {
        let ghost ks = key_views(self.keys@);
        let ghost vs = self.devices@;
        let n = self.devices.len();
        let mut i: usize = 0;
        while i < n
            invariant
                0 <= i <= n,
                n == vs.len(),
                self.devices@.len() == n,
                self.keys@.len() == n,
                key_views(self.keys@) == ks,
                old(self).wf(),
                ks == key_views(old(self).keys@),
                vs == old(self).devices@,
                self.keys@ == old(self).keys@,
                forall|j: int| 0 <= j < i ==> self.devices@[j] == spec_after_refresh(vs[j], now),
                forall|j: int| i <= j < n ==> self.devices@[j] == vs[j],
            decreases n - i,
        {
            if self.devices[i].is_online {
                let lba = self.devices[i].last_broadcast_at;
                let restricted = lba == 0 || (now >= lba && now - lba > RESTRICTED_THRESHOLD_SECS);
                self.devices[i].is_restricted = restricted;
            }
            i = i + 1;
        }
        proof {
            lemma_entries_map_values(ks, vs, self.devices@, |d: DeviceInfo| spec_after_refresh(d, now));
        }
    }

    /// Recompute, at the current clock, whether each online device is
    /// broadcast-restricted; offline devices are left as they are.
    pub fn refresh_restricted_status(&mut self)
        requires
            old(self).wf(),
        ensures
            final(self).wf(),
            exists|now: u64| final(self)@ == spec_refresh_all(old(self)@, now),
    {
        let now = now_secs();
        self.refresh_restricted_status_at(now);
    }

    /// The peer entries of the online, broadcast-restricted devices (for
    /// inclusion in our broadcasts), one per device.
    pub fn get_restricted_peers(&self) -> (res: Vec<PeerInfo>)
        requires
            self.wf(),
        ensures
            forall|p: PeerInfo|
                res@.contains(p) <==> exists|k: Seq<char>|
                    #[trigger] self@.contains_key(k) && self@[k].is_online && self@[k].is_restricted
                        && p == spec_peer_of(self@[k]),
            res@.map_values(|p: PeerInfo| p.device_id@).no_duplicates(),
    {
        let ghost ks = key_views(self.keys@);
        let mut res: Vec<PeerInfo> = Vec::new();
        let ghost mut idx: Seq<int> = Seq::empty();
        let n = self.devices.len();
        let mut i: usize = 0;
        while i < n
            invariant
                0 <= i <= n,
                n == self.devices@.len(),
                self.wf(),
                ks == key_views(self.keys@),
                idx.len() == res@.len(),
                forall|a: int|
                    0 <= a < idx.len() ==> 0 <= #[trigger] idx[a] < i
                        && self.devices@[idx[a]].is_online && self.devices@[idx[a]].is_restricted
                        && res@[a] == spec_peer_of(self.devices@[idx[a]]),
                forall|a: int, b: int| 0 <= a < b < idx.len() ==> idx[a] < idx[b],
                forall|j: int|
                    0 <= j < i && (#[trigger] self.devices@[j]).is_online
                        && self.devices@[j].is_restricted ==> idx.contains(j),
            decreases n - i,
        {
            let d = &self.devices[i];
            if d.is_online && d.is_restricted {
                let p = PeerInfo {
                    device_id: d.device_id.clone(),
                    device_name: d.device_name.clone(),
                    ip_addr: d.ip_addr.clone(),
                    tcp_port: d.tcp_port,
                    platform: d.platform.clone(),
                };
                res.push(p);
                proof {
                    let old_idx = idx;
                    idx = idx.push(i as int);
                    assert forall|j: int|
                        0 <= j < i + 1 && (#[trigger] self.devices@[j]).is_online
                            && self.devices@[j].is_restricted implies idx.contains(j) by {
                        if j < i {
                            let a = choose|a: int| 0 <= a < old_idx.len() && old_idx[a] == j;
                            assert(idx[a] == j);
                        } else {
                            assert(idx[idx.len() - 1] == j);
                        }
                    }
                }
            }
            i = i + 1;
        }
        proof {
            let ids = res@.map_values(|p: PeerInfo| p.device_id@);
            assert forall|a: int, b: int|
                0 <= a < ids.len() && 0 <= b < ids.len() && a != b implies ids[a] != ids[b] by {
                assert(ids[a] == ks[idx[a]]);
                assert(ids[b] == ks[idx[b]]);
                if a < b {
                    assert(idx[a] < idx[b]);
                } else {
                    assert(idx[b] < idx[a]);
                }
            }
            assert forall|p: PeerInfo|
                res@.contains(p) <==> exists|k: Seq<char>|
                    #[trigger] self@.contains_key(k) && self@[k].is_online && self@[k].is_restricted
                        && p == spec_peer_of(self@[k]) by {
                if res@.contains(p) {
                    let a = choose|a: int| 0 <= a < res@.len() && res@[a] == p;
                    let j = idx[a];
                    lemma_entries_index(ks, self.devices@, j);
                    assert(self@.contains_key(ks[j]));
                }
                if exists|k: Seq<char>|
                    #[trigger] self@.contains_key(k) && self@[k].is_online && self@[k].is_restricted
                        && p == spec_peer_of(self@[k]) {
                    let k = choose|k: Seq<char>|
                        #[trigger] self@.contains_key(k) && self@[k].is_online
                            && self@[k].is_restricted && p == spec_peer_of(self@[k]);
                    lemma_entries_contains(ks, self.devices@, k);
                    let j = key_index(ks, k);
                    assert(self.devices@[j].is_online);
                    assert(idx.contains(j));
                    let a = choose|a: int| 0 <= a < idx.len() && idx[a] == j;
                    assert(res@[a] == p);
                }
            }
        }
        res
    }

    /// Mark a device offline by id. Returns true if it was online.
    pub fn mark_offline(&mut self, device_id: &str) -> (res: bool)
        requires
            old(self).wf(),
        ensures
            final(self).wf(),
            res == (old(self)@.contains_key(device_id@) && old(self)@[device_id@].is_online),
            final(self)@ == if res {
                old(self)@.insert(device_id@, spec_offline(old(self)@[device_id@]))
            } else {
                old(self)@
            },
    {
        if let Some(i) = self.find(device_id) {
            if self.devices[i].is_online {
                let ghost ks = key_views(self.keys@);
                let ghost vs = self.devices@;
                self.devices[i].is_online = false;
                self.devices[i].last_broadcast_at = 0;
                proof {
                    assert(self.devices@ == vs.update(i as int, spec_offline(vs[i as int])));
                    lemma_entries_update(ks, vs, i as int, spec_offline(vs[i as int]));
                    assert forall|j: int| 0 <= j < self.keys@.len() implies (
                    #[trigger] self.devices@[j]).device_id@ == self.keys@[j]@ by {
                        if j != i {
                            assert(self.devices@[j] == vs[j]);
                        }
                    }
                }
                return true;
            }
        }
        false
    }

    /// Mark offline, at time `now`, every online device not seen within the
    /// offline timeout, and return their ids.
    pub fn check_timeouts_at(&mut self, now: u64) -> (res: Vec<String>)
        requires
            old(self).wf(),
        ensures
            final(self).wf(),
            final(self)@ == spec_timeouts_all(old(self)@, now),
            spec_timed_out_ids(old(self)@, now, key_views(res@)),
    {
        let ghost ks = key_views(self.keys@);
        let ghost vs = self.devices@;
        let mut res: Vec<String> = Vec::new();
        let ghost mut idx: Seq<int> = Seq::empty();
        let n = self.devices.len();
        let mut i: usize = 0;
        while i < n
            invariant
                0 <= i <= n,
                n == vs.len(),
                self.devices@.len() == n,
                self.keys@ == old(self).keys@,
                old(self).wf(),
                ks == key_views(old(self).keys@),
                vs == old(self).devices@,
                forall|j: int| 0 <= j < i ==> self.devices@[j] == spec_after_timeouts(vs[j], now),
                forall|j: int| i <= j < n ==> self.devices@[j] == vs[j],
                idx.len() == res@.len(),
                forall|a: int|
                    0 <= a < idx.len() ==> 0 <= #[trigger] idx[a] < i && spec_timed_out(
                        vs[idx[a]],
                        now,
                    ) && res@[a]@ == ks[idx[a]],
                forall|a: int, b: int| 0 <= a < b < idx.len() ==> idx[a] < idx[b],
                forall|j: int| 0 <= j < i && #[trigger] spec_timed_out(vs[j], now) ==> idx.contains(j),
            decreases n - i,
        {
            if self.devices[i].is_online && now >= self.devices[i].last_seen && now
                - self.devices[i].last_seen > OFFLINE_TIMEOUT_SECS {
                self.devices[i].is_online = false;
                self.devices[i].last_broadcast_at = 0;
                res.push(self.keys[i].clone());
                proof {
                    let old_idx = idx;
                    idx = idx.push(i as int);
                    assert forall|j: int|
                        0 <= j < i + 1 && #[trigger] spec_timed_out(vs[j], now) implies idx.contains(
                        j,
                    ) by {
                        if j < i {
                            let a = choose|a: int| 0 <= a < old_idx.len() && old_idx[a] == j;
                            assert(idx[a] == j);
                        } else {
                            assert(idx[idx.len() - 1] == j);
                        }
                    }
                }
            }
            i = i + 1;
        }
        proof {
            lemma_entries_map_values(ks, vs, self.devices@, |d: DeviceInfo| spec_after_timeouts(d, now));
            let ids = key_views(res@);
            assert forall|a: int, b: int|
                0 <= a < ids.len() && 0 <= b < ids.len() && a != b implies ids[a] != ids[b] by {
                assert(ids[a] == ks[idx[a]]);
                assert(ids[b] == ks[idx[b]]);
                if a < b {
                    assert(idx[a] < idx[b]);
                } else {
                    assert(idx[b] < idx[a]);
                }
            }
            assert forall|k: Seq<char>|
                ids.contains(k) <==> (#[trigger] old(self)@.contains_key(k) && spec_timed_out(
                    old(self)@[k],
                    now,
                )) by {
                if ids.contains(k) {
                    let a = choose|a: int| 0 <= a < ids.len() && ids[a] == k;
                    let j = idx[a];
                    lemma_entries_index(ks, vs, j);
                }
                if old(self)@.contains_key(k) && spec_timed_out(old(self)@[k], now) {
                    lemma_entries_contains(ks, vs, k);
                    let j = key_index(ks, k);
                    assert(spec_timed_out(vs[j], now));
                    assert(idx.contains(j));
                    let a = choose|a: int| 0 <= a < idx.len() && idx[a] == j;
                    assert(ids[a] == k);
                }
            }
        }
        res
    }

    /// Mark offline, at the current clock, every online device not seen
    /// within the offline timeout, and return their ids.
    pub fn check_timeouts(&mut self) -> (res: Vec<String>)
        requires
            old(self).wf(),
        ensures
            final(self).wf(),
            exists|now: u64|
                #[trigger] spec_timeouts_all(old(self)@, now) == final(self)@ && spec_timed_out_ids(
                    old(self)@,
                    now,
                    key_views(res@),
                ),
    {
        let now = now_secs();
        self.check_timeouts_at(now)
    }

    /// The online devices, one record per device.
    pub fn get_online_devices(&self) -> (res: Vec<DeviceInfo>)
        requires
            self.wf(),
        ensures
            forall|d: DeviceInfo|
                res@.contains(d) <==> exists|k: Seq<char>|
                    #[trigger] self@.contains_key(k) && self@[k].is_online && d == self@[k],
            res@.map_values(|d: DeviceInfo| d.device_id@).no_duplicates(),
    {
        let ghost ks = key_views(self.keys@);
        let mut res: Vec<DeviceInfo> = Vec::new();
        let ghost mut idx: Seq<int> = Seq::empty();
        let n = self.devices.len();
        let mut i: usize = 0;
        while i < n
            invariant
                0 <= i <= n,
                n == self.devices@.len(),
                self.wf(),
                ks == key_views(self.keys@),
                idx.len() == res@.len(),
                forall|a: int|
                    0 <= a < idx.len() ==> 0 <= #[trigger] idx[a] < i
                        && self.devices@[idx[a]].is_online && res@[a] == self.devices@[idx[a]],
                forall|a: int, b: int| 0 <= a < b < idx.len() ==> idx[a] < idx[b],
                forall|j: int|
                    0 <= j < i && (#[trigger] self.devices@[j]).is_online ==> idx.contains(j),
            decreases n - i,
        {
            if self.devices[i].is_online {
                let d = self.devices[i].clone();
                res.push(d);
                proof {
                    let old_idx = idx;
                    idx = idx.push(i as int);
                    assert forall|j: int|
                        0 <= j < i + 1 && (#[trigger] self.devices@[j]).is_online implies idx.contains(
                        j,
                    ) by {
                        if j < i {
                            let a = choose|a: int| 0 <= a < old_idx.len() && old_idx[a] == j;
                            assert(idx[a] == j);
                        } else {
                            assert(idx[idx.len() - 1] == j);
                        }
                    }
                }
            }
            i = i + 1;
        }
        proof {
            let ids = res@.map_values(|d: DeviceInfo| d.device_id@);
            assert forall|a: int, b: int|
                0 <= a < ids.len() && 0 <= b < ids.len() && a != b implies ids[a] != ids[b] by {
                assert(ids[a] == ks[idx[a]]);
                assert(ids[b] == ks[idx[b]]);
                if a < b {
                    assert(idx[a] < idx[b]);
                } else {
                    assert(idx[b] < idx[a]);
                }
            }
            assert forall|d: DeviceInfo|
                res@.contains(d) <==> exists|k: Seq<char>|
                    #[trigger] self@.contains_key(k) && self@[k].is_online && d == self@[k] by {
                if res@.contains(d) {
                    let a = choose|a: int| 0 <= a < res@.len() && res@[a] == d;
                    let j = idx[a];
                    lemma_entries_index(ks, self.devices@, j);
                    assert(self@.contains_key(ks[j]));
                }
                if exists|k: Seq<char>|
                    #[trigger] self@.contains_key(k) && self@[k].is_online && d == self@[k] {
                    let k = choose|k: Seq<char>|
                        #[trigger] self@.contains_key(k) && self@[k].is_online && d == self@[k];
                    lemma_entries_contains(ks, self.devices@, k);
                    let j = key_index(ks, k);
                    assert(self.devices@[j].is_online);
                    assert(idx.contains(j));
                    let a = choose|a: int| 0 <= a < idx.len() && idx[a] == j;
                    assert(res@[a] == d);
                }
            }
        }
        res
    }

    /// The record of a device, if it is known.
    pub fn get_device(&self, device_id: &str) -> (res: Option<&DeviceInfo>)
        requires
            self.wf(),
        ensures
            match res {
                Some(d) => self@.contains_key(device_id@) && *d == self@[device_id@],
                None => !self@.contains_key(device_id@),
            },
    {
        match self.find(device_id) {
            Some(i) => Some(&self.devices[i]),
            None => None,
        }
    }

    /// A copy of the record of a device, with its current status, if it is known.
    pub fn get_device_with_status(&self, device_id: &str) -> (res: Option<DeviceInfo>)
        requires
            self.wf(),
        ensures
            match res {
                Some(d) => self@.contains_key(device_id@) && d == self@[device_id@],
                None => !self@.contains_key(device_id@),
            },
    {
        match self.find(device_id) {
            Some(i) => Some(self.devices[i].clone()),
            None => None,
        }
    }
}

/// After an upsert, the device is known, online, last seen at the upsert's
/// time, with the announced name, address, port and platform; every other
/// device is as it was.
pub proof fn law_upsert_then_get(
    m: Map<Seq<char>, DeviceInfo>,
    device_id: String,
    device_name: String,
    ip_addr: String,
    tcp_port: u16,
    platform: String,
    now: u64,
    other: Seq<char>,
)
    requires
        other != device_id@,
    ensures
        ({
            let m2 = spec_upsert(m, device_id, device_name, ip_addr, tcp_port, platform, now);
            &&& m2.contains_key(device_id@)
            &&& m2[device_id@].is_online
            &&& m2[device_id@].last_seen == now
            &&& m2[device_id@].device_name == device_name
            &&& m2[device_id@].ip_addr == ip_addr
            &&& m2[device_id@].tcp_port == tcp_port
            &&& m2[device_id@].platform == platform
            &&& m2.contains_key(other) == m.contains_key(other)
            &&& m.contains_key(other) ==> m2[other] == m[other]
        }),
{
}

/// A device that is already online is not reported again by an upsert.
pub proof fn law_upsert_reports_once(
    m: Map<Seq<char>, DeviceInfo>,
    device_id: String,
    device_name: String,
    ip_addr: String,
    tcp_port: u16,
    platform: String,
    now: u64,
)
    ensures
        !spec_upsert_reports(
            spec_upsert(m, device_id, device_name, ip_addr, tcp_port, platform, now),
            device_id@,
        ),
{
}

/// The registry never forgets a device: no operation removes one, only an
/// upsert adds one, and a received broadcast does not add its sender.
pub proof fn law_registry_domain(
    m: Map<Seq<char>, DeviceInfo>,
    device_id: String,
    device_name: String,
    ip_addr: String,
    tcp_port: u16,
    platform: String,
    now: u64,
)
    ensures
        spec_upsert(m, device_id, device_name, ip_addr, tcp_port, platform, now).dom() == m.dom().insert(
            device_id@,
        ),
        spec_mark_heard(m, device_id@, now).dom() == m.dom(),
        spec_refresh_all(m, now).dom() == m.dom(),
        spec_timeouts_all(m, now).dom() == m.dom(),
{
    assert(spec_upsert(m, device_id, device_name, ip_addr, tcp_port, platform, now).dom() =~= m.dom().insert(device_id@));
    assert(spec_mark_heard(m, device_id@, now).dom() =~= m.dom());
    assert(spec_refresh_all(m, now).dom() =~= m.dom());
    assert(spec_timeouts_all(m, now).dom() =~= m.dom());
}

/// A device first discovered through a response counts as broadcast-restricted
/// at every refresh until one of its broadcasts is received.
pub proof fn law_new_device_restricted(
    m: Map<Seq<char>, DeviceInfo>,
    device_id: String,
    device_name: String,
    ip_addr: String,
    tcp_port: u16,
    platform: String,
    t0: u64,
    t1: u64,
)
    requires
        !m.contains_key(device_id@),
    ensures
        spec_refresh_all(
            spec_upsert(m, device_id, device_name, ip_addr, tcp_port, platform, t0),
            t1,
        )[device_id@].is_restricted,
{
}

/// Once a broadcast from a device is received, the device is not restricted
/// at any refresh within the threshold after it (nor at an earlier clock
/// reading), as long as it stays online.
pub proof fn law_broadcast_clears_restriction(
    m: Map<Seq<char>, DeviceInfo>,
    device_id: Seq<char>,
    heard: u64,
    now: u64,
)
    requires
        m.contains_key(device_id),
        m[device_id].is_online,
        heard != 0,
        now <= heard + RESTRICTED_THRESHOLD_SECS,
    ensures
        !spec_refresh_all(spec_mark_heard(m, device_id, heard), now)[device_id].is_restricted,
{
}

/// Taking a device offline twice reports it only the first time, and an
/// offline device's broadcast bookkeeping is cleared.
pub proof fn law_mark_offline_once(m: Map<Seq<char>, DeviceInfo>, device_id: Seq<char>)
    requires
        m.contains_key(device_id),
        m[device_id].is_online,
    ensures
        ({
            let m2 = m.insert(device_id, spec_offline(m[device_id]));
            &&& !(m2.contains_key(device_id) && m2[device_id].is_online)
            &&& m2[device_id].last_broadcast_at == 0
        }),
{
}

/// After the timeout check at `now`, no online device is timed out at `now`,
/// so a second check at the same time changes nothing and reports nothing.
pub proof fn law_timeouts_settle(m: Map<Seq<char>, DeviceInfo>, now: u64)
    ensures
        spec_timeouts_all(spec_timeouts_all(m, now), now) == spec_timeouts_all(m, now),
        forall|k: Seq<char>|
            #[trigger] spec_timeouts_all(m, now).contains_key(k) ==> !spec_timed_out(
                spec_timeouts_all(m, now)[k],
                now,
            ),
{
    assert(spec_timeouts_all(spec_timeouts_all(m, now), now) =~= spec_timeouts_all(m, now));
}

/// The refresh leaves offline devices as they are, and decides the status of
/// online ones from their broadcast bookkeeping alone.
pub proof fn law_refresh_offline_untouched(m: Map<Seq<char>, DeviceInfo>, now: u64, k: Seq<char>)
    requires
        m.contains_key(k),
    ensures
        !m[k].is_online ==> spec_refresh_all(m, now)[k] == m[k],
        m[k].is_online ==> spec_refresh_all(m, now)[k].is_restricted == spec_restricted_at(m[k], now),
{
}

/// A refresh measures restriction from the last broadcast heard, not from
/// the last time the device was seen: an online device never heard
/// broadcasting is restricted, and one last heard broadcasting at `t` is
/// restricted exactly when more than 30 seconds have passed since `t`.
pub proof fn law_restriction_from_last_broadcast(
    m: Map<Seq<char>, DeviceInfo>,
    device_id: Seq<char>,
    now: u64,
)
    requires
        m.contains_key(device_id),
        m[device_id].is_online,
    ensures
        spec_refresh_all(m, now)[device_id].is_restricted == (m[device_id].last_broadcast_at == 0
            || now > m[device_id].last_broadcast_at + 30),
        spec_refresh_all(m, now)[device_id].last_seen == m[device_id].last_seen,
        spec_refresh_all(m, now)[device_id].last_broadcast_at == m[device_id].last_broadcast_at,
{
}

/// Answers do not stand in for broadcasts: a known device heard
/// broadcasting at `t`, then answering at any later time `seen`, counts as
/// restricted at a refresh at `now` exactly when `now > t + 30`.
pub proof fn law_answers_keep_restriction(
    m: Map<Seq<char>, DeviceInfo>,
    device_id: String,
    device_name: String,
    ip_addr: String,
    tcp_port: u16,
    platform: String,
    t: u64,
    seen: u64,
    now: u64,
)
    requires
        m.contains_key(device_id@),
        t > 0,
    ensures
        ({
            let heard = spec_mark_heard(m, device_id@, t);
            let answered = spec_upsert(heard, device_id, device_name, ip_addr, tcp_port, platform, seen);
            &&& answered[device_id@].last_seen == seen
            &&& answered[device_id@].last_broadcast_at == t
            &&& spec_refresh_all(answered, now)[device_id@].is_restricted == (now > t + 30)
        }),
{
}

/// A timeout check at `now` takes an online device offline, and reports it,
/// exactly when more than 30 seconds have passed since it was last seen;
/// the broadcast stamp plays no part.
pub proof fn law_timeout_from_last_seen(
    m: Map<Seq<char>, DeviceInfo>,
    device_id: Seq<char>,
    now: u64,
    ids: Seq<Seq<char>>,
)
    requires
        m.contains_key(device_id),
        m[device_id].is_online,
        spec_timed_out_ids(m, now, ids),
    ensures
        spec_timeouts_all(m, now)[device_id].is_online == !(now > m[device_id].last_seen + 30),
        ids.contains(device_id) == (now > m[device_id].last_seen + 30),
{
    assert(spec_timeouts_all(m, now)[device_id] == spec_after_timeouts(m[device_id], now));
}

/// A device answering at `seen` stays online at every timeout check within
/// 30 seconds of that on the same clock, and is not reported.
pub proof fn law_fresh_device_not_timed_out(
    m: Map<Seq<char>, DeviceInfo>,
    device_id: String,
    device_name: String,
    ip_addr: String,
    tcp_port: u16,
    platform: String,
    seen: u64,
    now: u64,
    ids: Seq<Seq<char>>,
)
    requires
        now <= seen + 30,
    ensures
        ({
            let m2 = spec_upsert(m, device_id, device_name, ip_addr, tcp_port, platform, seen);
            &&& spec_timeouts_all(m2, now)[device_id@].is_online
            &&& spec_timed_out_ids(m2, now, ids) ==> !ids.contains(device_id@)
        }),
{
    let m2 = spec_upsert(m, device_id, device_name, ip_addr, tcp_port, platform, seen);
    assert(m2.contains_key(device_id@));
    assert(m2[device_id@].last_seen == seen && m2[device_id@].is_online);
    assert(!spec_timed_out(m2[device_id@], now));
    assert(spec_timeouts_all(m2, now)[device_id@] == spec_after_timeouts(m2[device_id@], now));
}

/// Whole seconds since the Unix epoch by the system clock; 0 when the clock
/// reads before the epoch.
pub fn now_secs() -> (res: u64) {
    match clock_secs() {
        Some(s) => s,
        None => 0,
    }
}

} // verus!
