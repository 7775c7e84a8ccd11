//! The state of a running device and the operations that the commands and
//! packet handlers perform on it: resolving peers, offering, accepting,
//! rejecting and finishing transfers.
use vstd::prelude::*;

use crate::discovery::device::{spec_peer_of, spec_refresh_all, DiscoveryState};
use crate::discovery::listener::{beacon_payload_at, FEATURES};
use crate::error::PeacockError;
use crate::protocol::types::{
    AnnouncePayload, FileAcceptPayload, FileOfferPayload, FileRejectPayload, PeerInfo,
    MESSAGING_PORT,
};
use crate::text::{new_uuid_text, parse_uuid, spec_uuid_text, uuid_parsed};
use crate::transfer::flow::{folder_totals, send_gate, spec_send_step, spec_total_size, SendStep};
use crate::transfer::tracker::{
    spec_new_receive_task, spec_new_send_task, FolderEntry, TransferManager, TransferStatus,
    TransferTask,
};

verus! {

/// What a device tells about itself.
#[derive(Debug)]
pub struct SelfInfo {
    pub device_id: String,
    pub device_name: String,
    pub ip_addr: String,
    pub tcp_port: u16,
    pub platform: String,
}

/// The state of a running device: who it is, the peers it knows and the
/// transfers it tracks.
#[derive(Debug)]
pub struct Session {
    pub device_id: String,
    pub device_id_bytes: [u8; 16],
    pub device_name: String,
    pub ip_addr: String,
    pub tcp_port: u16,
    pub platform: String,
    pub discovery: DiscoveryState,
    pub transfers: TransferManager,
    pub download_dir: String,
    /// When off, the device sends no beacons (to try out a restricted peer).
    pub broadcast_enabled: bool,
}

/// What the receiving side needs to accept a transfer.
#[derive(Debug)]
pub struct AcceptPlan {
    pub device_id: String,
    pub file_name: String,
    pub file_size: u64,
    pub is_folder: bool,
}

/// What the sending side needs once the peer has accepted.
#[derive(Debug)]
pub struct SendPlan {
    pub transfer_id: String,
    /// The file, or for a folder the folder, to read.
    pub file_path: String,
    pub receiver_port: u16,
    pub resume_offset: u64,
    /// Whether to stream the folder's manifest and files.
    pub is_folder: bool,
    /// The folder's files (empty for a single file).
    pub folder_manifest: Vec<FolderEntry>,
}

/// The text of an error of `PeacockError::Transfer`.
pub open spec fn transfer_error(e: PeacockError, text: Seq<char>) -> bool {
    e matches PeacockError::Transfer(m) && m@ == text
}

/// The task of a transfer after it was marked finished: all `size` bytes
/// counted, no speed, completed, and stored at `path` when one is given.
pub open spec fn spec_finished(t: TransferTask, size: u64, path: Option<String>) -> TransferTask {
    TransferTask {
        transferred_bytes: size,
        speed_bps: 0,
        status: TransferStatus::Completed,
        file_path: match path {
            Some(p) => p,
            None => t.file_path,
        },
        ..t
    }
}

/// An outgoing folder task as offered: pending, nothing sent, counting the
/// manifest's files (cut to 32 bits) and their total size, holding the
/// manifest.
pub open spec fn spec_new_folder_task(
    t: TransferTask,
    transfer_id: String,
    device_id: String,
    folder_name: String,
    folder_path: String,
    manifest: Seq<FolderEntry>,
    now_ms: u64,
) -> bool {
    &&& t.transfer_id == transfer_id
    &&& t.device_id == device_id
    &&& t.file_name == folder_name
    &&& t.file_path == folder_path
    &&& t.file_size == spec_total_size(manifest)
    &&& t.transferred_bytes == 0
    &&& t.status == TransferStatus::Pending
    &&& t.direction == crate::transfer::tracker::TransferDirection::Send
    &&& t.speed_bps == 0
    &&& t.is_folder
    &&& t.file_count == manifest.len() as u32
    &&& t.created_at == now_ms
    &&& t.receiver_port is None
    &&& t.resume_offset == 0
    &&& t.folder_manifest@ == manifest
}

/// Two states that differ at most in their transfers.
pub open spec fn same_but_transfers(a: Session, b: Session) -> bool {
    &&& a.device_id == b.device_id
    &&& a.device_id_bytes == b.device_id_bytes
    &&& a.device_name == b.device_name
    &&& a.ip_addr == b.ip_addr
    &&& a.tcp_port == b.tcp_port
    &&& a.platform == b.platform
    &&& a.discovery == b.discovery
    &&& a.download_dir == b.download_dir
    &&& a.broadcast_enabled == b.broadcast_enabled
}

/// A text that is the hyphenated form of some random (version 4) id.
pub open spec fn is_fresh_id_text(t: Seq<char>) -> bool {
    exists|b: Seq<u8>| b.len() == 16 && b[6] / 16 == 4 && b[8] / 64 == 2 && t == spec_uuid_text(b)
}

/// The device id to use at start-up: the stored one when there is one;
/// otherwise a fresh random id, which is then to be stored (`true`).
pub fn device_id_from_setting(stored: Option<String>) -> (res: (String, bool))
    ensures
        match stored {
            Some(s) => res.0 == s && !res.1,
            None => is_fresh_id_text(res.0@) && res.1,
        },
{
    match stored {
        Some(s) => (s, false),
        None => (new_uuid_text(), true),
    }
}

impl Session {
    /// Both registries are consistent.
    pub open spec fn wf(&self) -> bool {
        self.discovery.wf() && self.transfers.wf()
    }

    /// The state of a device starting up, with the id it keeps, its name,
    /// address, platform and download directory: listening on the messaging
    /// port, knowing no peer and no transfer, broadcasting. `None` when the
    /// id does not parse as a UUID.
    pub fn open(
        device_id: String,
        device_name: String,
        ip_addr: String,
        platform: String,
        download_dir: String,
    ) -> (res: Option<Session>)
        ensures
            res is Some <==> uuid_parsed(device_id@) is Some,
            forall|b: Seq<u8>|
                b.len() == 16 && #[trigger] spec_uuid_text(b) == device_id@ ==> (res matches Some(s)
                    && s.device_id_bytes@ == b),
            res matches Some(s) ==> {
                &&& s.wf()
                &&& s.device_id == device_id
                &&& uuid_parsed(device_id@) == Some(s.device_id_bytes@)
                &&& s.device_name == device_name
                &&& s.ip_addr == ip_addr
                &&& s.tcp_port == MESSAGING_PORT
                &&& s.platform == platform
                &&& s.discovery@ == Map::<Seq<char>, crate::discovery::device::DeviceInfo>::empty()
                &&& s.transfers@ == Map::<Seq<char>, TransferTask>::empty()
                &&& s.download_dir == download_dir
                &&& s.broadcast_enabled
            },
    {
        let bytes = match parse_uuid(device_id.as_str()) {
            Some(b) => b,
            None => {
                return None;
            },
        };
        Some(
            Session {
                device_id,
                device_id_bytes: bytes,
                device_name,
                ip_addr,
                tcp_port: MESSAGING_PORT,
                platform,
                discovery: DiscoveryState::new(),
                transfers: TransferManager::new(),
                download_dir,
                broadcast_enabled: true,
            },
        )
    }

    /// What this device tells about itself.
    pub fn self_info(&self) -> (res: SelfInfo)
        ensures
            res.device_id == self.device_id,
            res.device_name == self.device_name,
            res.ip_addr == self.ip_addr,
            res.tcp_port == self.tcp_port,
            res.platform == self.platform,
    {
        SelfInfo {
            device_id: self.device_id.clone(),
            device_name: self.device_name.clone(),
            ip_addr: self.ip_addr.clone(),
            tcp_port: self.tcp_port,
            platform: self.platform.clone(),
        }
    }

    /// The address (IP text and messaging port) of a known peer; an error
    /// naming the id when no peer has it.
    pub fn peer_address(&self, device_id: &str) -> (res: Result<(String, u16), PeacockError>)
        requires
            self.wf(),
        ensures
            res is Ok <==> self.discovery@.contains_key(device_id@),
            res matches Ok((ip, port)) ==> ip == self.discovery@[device_id@].ip_addr && port
                == self.discovery@[device_id@].tcp_port,
            res matches Err(e) ==> (e matches PeacockError::DeviceNotFound(id) && id@ == device_id@),
    {
        match self.discovery.get_device(device_id) {
            Some(d) => Ok((d.ip_addr.clone(), d.tcp_port)),
            None => Err(PeacockError::DeviceNotFound(device_id.to_string())),
        }
    }

    /// The beacon to send at `now`, if any: none while broadcasting is off
    /// (and nothing changes); otherwise the restricted status of the peers is
    /// refreshed and the announcement carries this device's name, platform
    /// and port, all features, and the peers now restricted.
    pub fn beacon_at(&mut self, now: u64) -> (res: Option<AnnouncePayload>)
        requires
            old(self).wf(),
        ensures
            final(self).wf(),
            res is Some <==> old(self).broadcast_enabled,
            !old(self).broadcast_enabled ==> *final(self) == *old(self),
            res matches Some(p) ==> {
                &&& final(self).device_id == old(self).device_id
                &&& final(self).device_id_bytes == old(self).device_id_bytes
                &&& final(self).device_name == old(self).device_name
                &&& final(self).ip_addr == old(self).ip_addr
                &&& final(self).tcp_port == old(self).tcp_port
                &&& final(self).platform == old(self).platform
                &&& final(self).transfers == old(self).transfers
                &&& final(self).download_dir == old(self).download_dir
                &&& final(self).broadcast_enabled == old(self).broadcast_enabled
                &&& final(self).discovery@ == spec_refresh_all(old(self).discovery@, now)
                &&& p.device_name == old(self).device_name
                &&& p.platform == old(self).platform
                &&& p.tcp_port == old(self).tcp_port
                &&& p.features == FEATURES
                &&& forall|q: PeerInfo|
                    p.restricted_peers@.contains(q) <==> exists|k: Seq<char>|
                        #[trigger] final(self).discovery@.contains_key(k)
                            && final(self).discovery@[k].is_online
                            && final(self).discovery@[k].is_restricted && q == spec_peer_of(
                            final(self).discovery@[k],
                        )
                &&& p.restricted_peers@.map_values(|q: PeerInfo| q.device_id@).no_duplicates()
            },
    {
        if !self.broadcast_enabled {
            return None;
        }
        let name = self.device_name.clone();
        let platform = self.platform.clone();
        let port = self.tcp_port;
        Some(beacon_payload_at(&mut self.discovery, name, platform, port, now))
    }

    /// The name to show for a peer: its announced name when it is known,
    /// its id otherwise.
    pub fn display_name(&self, device_id: &str) -> (res: String)
        requires
            self.wf(),
        ensures
            res@ == if self.discovery@.contains_key(device_id@) {
                self.discovery@[device_id@].device_name@
            } else {
                device_id@
            },
    {
        match self.discovery.get_device(device_id) {
            Some(d) => d.device_name.clone(),
            None => device_id.to_string(),
        }
    }

    /// Offer a file to a peer: track a new outgoing task under a fresh id,
    /// created at `now_ms`, and give the offer to send.
    pub fn offer_file_at(
        &mut self,
        device_id: String,
        file_name: String,
        file_path: String,
        file_size: u64,
        now_ms: u64,
    ) -> (res: FileOfferPayload)
        requires
            old(self).wf(),
        ensures
            final(self).wf(),
            same_but_transfers(*final(self), *old(self)),
            is_fresh_id_text(res.transfer_id@),
            final(self).transfers@ == old(self).transfers@.insert(
                res.transfer_id@,
                final(self).transfers@[res.transfer_id@],
            ),
            spec_new_send_task(
                final(self).transfers@[res.transfer_id@],
                res.transfer_id,
                device_id,
                file_name,
                file_path,
                file_size,
                false,
                1,
                now_ms,
            ),
            res.file_name == file_name,
            res.file_size == file_size,
            !res.is_folder,
            res.file_count == 1,
    {
        let transfer_id = new_uuid_text();
        let name = file_name.clone();
        let tid = transfer_id.clone();
        self.transfers.create_send_task_at(
            tid,
            device_id,
            file_name,
            file_path,
            file_size,
            false,
            1,
            now_ms,
        );
        FileOfferPayload { transfer_id, file_name: name, file_size, is_folder: false, file_count: 1 }
    }

    /// Offer a folder to a peer: an error when the folder holds no file;
    /// otherwise track a new outgoing task under a fresh id, created at
    /// `now_ms`, holding the manifest, and give the offer to send.
    pub fn offer_folder_at(
        &mut self,
        device_id: String,
        folder_name: String,
        folder_path: String,
        manifest: Vec<FolderEntry>,
        now_ms: u64,
    ) -> (res: Result<FileOfferPayload, PeacockError>)
        requires
            old(self).wf(),
            spec_total_size(manifest@) <= u64::MAX,
        ensures
            final(self).wf(),
            same_but_transfers(*final(self), *old(self)),
            res is Err <==> manifest@.len() == 0,
            res matches Err(e) ==> transfer_error(e, "Folder is empty"@) && final(self).transfers@
                == old(self).transfers@,
            res matches Ok(p) ==> {
                &&& is_fresh_id_text(p.transfer_id@)
                &&& final(self).transfers@ == old(self).transfers@.insert(
                    p.transfer_id@,
                    final(self).transfers@[p.transfer_id@],
                )
                &&& spec_new_folder_task(
                    final(self).transfers@[p.transfer_id@],
                    p.transfer_id,
                    device_id,
                    folder_name,
                    folder_path,
                    manifest@,
                    now_ms,
                )
                &&& p.file_name == folder_name
                &&& p.file_size == spec_total_size(manifest@)
                &&& p.is_folder
                &&& p.file_count == manifest@.len() as u32
            },
    {
        if manifest.len() == 0 {
            return Err(PeacockError::Transfer("Folder is empty".to_string()));
        }
        let (file_count, total_size) = match folder_totals(&manifest) {
            Some(t) => t,
            None => {
                proof {
                    assert(false);
                }
                return Err(PeacockError::Transfer("Folder is empty".to_string()));
            },
        };
        let transfer_id = new_uuid_text();
        let name = folder_name.clone();
        let tid = transfer_id.clone();
        self.transfers.create_send_task_at(
            tid,
            device_id,
            folder_name,
            folder_path,
            total_size,
            true,
            file_count,
            now_ms,
        );
        let ghost mid = self.transfers@;
        match self.transfers.get_task_mut(transfer_id.as_str()) {
            Some(t) => {
                t.folder_manifest = manifest;
            },
            None => {},
        }
        proof {
            assert(mid.contains_key(transfer_id@));
        }
        Ok(
            FileOfferPayload {
                transfer_id,
                file_name: name,
                file_size: total_size,
                is_folder: true,
                file_count,
            },
        )
    }

    /// What accepting a transfer needs from its task: the sending peer, the
    /// name, size and kind of what comes; an error when no task has the id.
    pub fn accept_plan(&self, transfer_id: &str) -> (res: Result<AcceptPlan, PeacockError>)
        requires
            self.wf(),
        ensures
            res is Ok <==> self.transfers@.contains_key(transfer_id@),
            res matches Ok(p) ==> {
                let t = self.transfers@[transfer_id@];
                &&& p.device_id == t.device_id
                &&& p.file_name == t.file_name
                &&& p.file_size == t.file_size
                &&& p.is_folder == t.is_folder
            },
            res matches Err(e) ==> transfer_error(e, "Transfer not found"@),
    {
        match self.transfers.get_task(transfer_id) {
            Some(t) => Ok(
                AcceptPlan {
                    device_id: t.device_id.clone(),
                    file_name: t.file_name.clone(),
                    file_size: t.file_size,
                    is_folder: t.is_folder,
                },
            ),
            None => Err(PeacockError::Transfer("Transfer not found".to_string())),
        }
    }

    /// Record that a transfer is being received: on `port`, from
    /// `resume_offset` on, into `file_path`, and active. Unknown ids are
    /// ignored.
    pub fn begin_receive(&mut self, transfer_id: &str, port: u16, resume_offset: u64, file_path: String)
        requires
            old(self).wf(),
        ensures
            final(self).wf(),
            same_but_transfers(*final(self), *old(self)),
            final(self).transfers@ == if old(self).transfers@.contains_key(transfer_id@) {
                old(self).transfers@.insert(
                    transfer_id@,
                    TransferTask {
                        receiver_port: Some(port),
                        resume_offset,
                        file_path,
                        status: TransferStatus::Active,
                        ..old(self).transfers@[transfer_id@]
                    },
                )
            } else {
                old(self).transfers@
            },
    {
        match self.transfers.get_task_mut(transfer_id) {
            Some(t) => {
                t.receiver_port = Some(port);
                t.resume_offset = resume_offset;
                t.file_path = file_path;
                t.status = TransferStatus::Active;
            },
            None => {},
        }
    }

    /// The acceptance to send for a transfer received on `receiver_port`:
    /// it carries the task's resume offset, or 0 for an unknown id.
    pub fn accept_payload(&self, transfer_id: &str, receiver_port: u16) -> (res: FileAcceptPayload)
        requires
            self.wf(),
        ensures
            res.transfer_id@ == transfer_id@,
            res.receiver_port == receiver_port,
            res.resume_offset == if self.transfers@.contains_key(transfer_id@) {
                self.transfers@[transfer_id@].resume_offset
            } else {
                0
            },
    {
        let resume_offset = match self.transfers.get_task(transfer_id) {
            Some(t) => t.resume_offset,
            None => 0,
        };
        FileAcceptPayload { transfer_id: transfer_id.to_string(), receiver_port, resume_offset }
    }

    /// Reject an offered transfer: mark it rejected and give the peer to
    /// tell; an error, with nothing changed, when no task has the id.
    pub fn reject(&mut self, transfer_id: &str) -> (res: Result<String, PeacockError>)
        requires
            old(self).wf(),
        ensures
            final(self).wf(),
            same_but_transfers(*final(self), *old(self)),
            res is Ok <==> old(self).transfers@.contains_key(transfer_id@),
            res matches Ok(device_id) ==> device_id == old(self).transfers@[transfer_id@].device_id
                && final(self).transfers@ == old(self).transfers@.insert(
                transfer_id@,
                TransferTask { status: TransferStatus::Rejected, ..old(self).transfers@[transfer_id@] },
            ),
            res matches Err(e) ==> transfer_error(e, "Transfer not found"@) && final(self).transfers@
                == old(self).transfers@,
    {
        let device_id = match self.transfers.get_task(transfer_id) {
            Some(t) => t.device_id.clone(),
            None => {
                return Err(PeacockError::Transfer("Transfer not found".to_string()));
            },
        };
        self.transfers.set_status(transfer_id, TransferStatus::Rejected);
        Ok(device_id)
    }

    /// The rejection to send for a transfer.
    pub fn reject_payload(transfer_id: &str) -> (res: FileRejectPayload)
        ensures
            res.transfer_id@ == transfer_id@,
    {
        FileRejectPayload { transfer_id: transfer_id.to_string() }
    }

    /// Mark a transfer finished: all `size` bytes counted, no speed,
    /// completed, and, when a path is given, stored there. Unknown ids are
    /// ignored.
    pub fn finish_transfer(&mut self, transfer_id: &str, size: u64, path: Option<String>)
        requires
            old(self).wf(),
        ensures
            final(self).wf(),
            same_but_transfers(*final(self), *old(self)),
            final(self).transfers@ == if old(self).transfers@.contains_key(transfer_id@) {
                old(self).transfers@.insert(
                    transfer_id@,
                    spec_finished(old(self).transfers@[transfer_id@], size, path),
                )
            } else {
                old(self).transfers@
            },
    {
        self.transfers.update_progress(transfer_id, size, 0);
        self.transfers.set_status(transfer_id, TransferStatus::Completed);
        match path {
            Some(p) => {
                match self.transfers.get_task_mut(transfer_id) {
                    Some(t) => {
                        t.file_path = p;
                    },
                    None => {},
                }
            },
            None => {},
        }
        proof {
            if old(self).transfers@.contains_key(transfer_id@) {
                assert(final(self).transfers@ =~= old(self).transfers@.insert(
                    transfer_id@,
                    spec_finished(old(self).transfers@[transfer_id@], size, path),
                ));
            }
        }
    }

    /// Track an offer received from a peer as a new incoming task created
    /// at `now_ms`.
    pub fn on_file_offer_at(&mut self, from_device_id: String, offer: FileOfferPayload, now_ms: u64)
        requires
            old(self).wf(),
        ensures
            final(self).wf(),
            same_but_transfers(*final(self), *old(self)),
            final(self).transfers@ == old(self).transfers@.insert(
                offer.transfer_id@,
                final(self).transfers@[offer.transfer_id@],
            ),
            spec_new_receive_task(
                final(self).transfers@[offer.transfer_id@],
                offer.transfer_id,
                from_device_id,
                offer.file_name,
                offer.file_size,
                offer.is_folder,
                offer.file_count,
                now_ms,
            ),
    {
        self.transfers.create_receive_task_at(
            offer.transfer_id,
            from_device_id,
            offer.file_name,
            offer.file_size,
            offer.is_folder,
            offer.file_count,
            now_ms,
        );
    }

    /// What to send once a peer accepted one of our offers: the task's file
    /// or folder to the port the peer opened, from the offset it asks; the
    /// folder's files when the task is a folder with a manifest. `None` when
    /// no task has the id.
    pub fn on_file_accept(&self, accept: &FileAcceptPayload) -> (res: Option<SendPlan>)
        requires
            self.wf(),
        ensures
            res is Some <==> self.transfers@.contains_key(accept.transfer_id@),
            res matches Some(p) ==> {
                let t = self.transfers@[accept.transfer_id@];
                &&& p.transfer_id@ == accept.transfer_id@
                &&& p.file_path == t.file_path
                &&& p.receiver_port == accept.receiver_port
                &&& p.resume_offset == accept.resume_offset
                &&& p.is_folder == (t.is_folder && t.folder_manifest@.len() > 0)
                &&& p.folder_manifest@ == if p.is_folder {
                    t.folder_manifest@
                } else {
                    Seq::<FolderEntry>::empty()
                }
            },
    {
        match self.transfers.get_task(accept.transfer_id.as_str()) {
            Some(t) => {
                let is_folder = t.is_folder && t.folder_manifest.len() > 0;
                let folder_manifest = if is_folder {
                    t.folder_manifest.clone()
                } else {
                    Vec::new()
                };
                Some(
                    SendPlan {
                        transfer_id: accept.transfer_id.clone(),
                        file_path: t.file_path.clone(),
                        receiver_port: accept.receiver_port,
                        resume_offset: accept.resume_offset,
                        is_folder,
                        folder_manifest,
                    },
                )
            },
            None => None,
        }
    }

    /// Set the status of a transfer; unknown ids are ignored.
    fn set_status(&mut self, transfer_id: &str, status: TransferStatus)
        requires
            old(self).wf(),
        ensures
            final(self).wf(),
            same_but_transfers(*final(self), *old(self)),
            final(self).transfers@ == if old(self).transfers@.contains_key(transfer_id@) {
                old(self).transfers@.insert(
                    transfer_id@,
                    TransferTask { status, ..old(self).transfers@[transfer_id@] },
                )
            } else {
                old(self).transfers@
            },
    {
        self.transfers.set_status(transfer_id, status);
    }

    /// A peer rejected one of our offers: mark it rejected.
    pub fn on_file_reject(&mut self, reject: &FileRejectPayload)
        requires
            old(self).wf(),
        ensures
            final(self).wf(),
            same_but_transfers(*final(self), *old(self)),
            final(self).transfers@ == if old(self).transfers@.contains_key(reject.transfer_id@) {
                old(self).transfers@.insert(
                    reject.transfer_id@,
                    TransferTask {
                        status: TransferStatus::Rejected,
                        ..old(self).transfers@[reject.transfer_id@]
                    },
                )
            } else {
                old(self).transfers@
            },
    {
        self.set_status(reject.transfer_id.as_str(), TransferStatus::Rejected);
    }

    /// Pause a transfer: its sender waits until it is resumed.
    pub fn pause_transfer(&mut self, transfer_id: &str)
        requires
            old(self).wf(),
        ensures
            final(self).wf(),
            same_but_transfers(*final(self), *old(self)),
            final(self).transfers@ == if old(self).transfers@.contains_key(transfer_id@) {
                old(self).transfers@.insert(
                    transfer_id@,
                    TransferTask { status: TransferStatus::Paused, ..old(self).transfers@[transfer_id@] },
                )
            } else {
                old(self).transfers@
            },
    {
        self.set_status(transfer_id, TransferStatus::Paused);
    }

    /// Resume a transfer: mark it active again.
    pub fn resume_transfer(&mut self, transfer_id: &str)
        requires
            old(self).wf(),
        ensures
            final(self).wf(),
            same_but_transfers(*final(self), *old(self)),
            final(self).transfers@ == if old(self).transfers@.contains_key(transfer_id@) {
                old(self).transfers@.insert(
                    transfer_id@,
                    TransferTask { status: TransferStatus::Active, ..old(self).transfers@[transfer_id@] },
                )
            } else {
                old(self).transfers@
            },
    {
        self.set_status(transfer_id, TransferStatus::Active);
    }

    /// Cancel a transfer, or record that it failed: mark it failed, which
    /// stops its sender.
    pub fn cancel_transfer(&mut self, transfer_id: &str)
        requires
            old(self).wf(),
        ensures
            final(self).wf(),
            same_but_transfers(*final(self), *old(self)),
            final(self).transfers@ == if old(self).transfers@.contains_key(transfer_id@) {
                old(self).transfers@.insert(
                    transfer_id@,
                    TransferTask { status: TransferStatus::Failed, ..old(self).transfers@[transfer_id@] },
                )
            } else {
                old(self).transfers@
            },
    {
        self.set_status(transfer_id, TransferStatus::Failed);
    }

    /// What a sender of the transfer does before its next chunk.
    pub fn send_step(&self, transfer_id: &str) -> (res: SendStep)
        requires
            self.wf(),
        ensures
            res == spec_send_step(
                if self.transfers@.contains_key(transfer_id@) {
                    Some(self.transfers@[transfer_id@])
                } else {
                    None
                },
            ),
    {
        send_gate(self.transfers.get_task(transfer_id))
    }
}

/// Pausing a known transfer makes its sender wait; resuming it lets the
/// sender go on; cancelling it stops the sender, as does losing the task.
pub proof fn law_sender_follows_commands(m: Map<Seq<char>, TransferTask>, transfer_id: Seq<char>)
    requires
        m.contains_key(transfer_id),
    ensures
        spec_send_step(
            Some(
                m.insert(
                    transfer_id,
                    TransferTask { status: TransferStatus::Paused, ..m[transfer_id] },
                )[transfer_id],
            ),
        ) == SendStep::Wait,
        spec_send_step(
            Some(
                m.insert(
                    transfer_id,
                    TransferTask { status: TransferStatus::Active, ..m[transfer_id] },
                )[transfer_id],
            ),
        ) == SendStep::Proceed,
        spec_send_step(
            Some(
                m.insert(
                    transfer_id,
                    TransferTask { status: TransferStatus::Failed, ..m[transfer_id] },
                )[transfer_id],
            ),
        ) == SendStep::Stop,
        spec_send_step(None) == SendStep::Stop,
{
}

/// The offset a receiver resumes from is the one its acceptance carries:
/// once a known transfer is being received from `offset` on, the task holds
/// that offset and the port, and is active.
pub proof fn law_resume_offset_carried(
    m: Map<Seq<char>, TransferTask>,
    transfer_id: Seq<char>,
    port: u16,
    offset: u64,
    file_path: String,
)
    requires
        m.contains_key(transfer_id),
    ensures
        ({
            let t = m.insert(
                transfer_id,
                TransferTask {
                    receiver_port: Some(port),
                    resume_offset: offset,
                    file_path,
                    status: TransferStatus::Active,
                    ..m[transfer_id]
                },
            )[transfer_id];
            &&& t.resume_offset == offset
            &&& t.receiver_port == Some(port)
            &&& t.status == TransferStatus::Active
            &&& t.transfer_id == m[transfer_id].transfer_id
            &&& t.device_id == m[transfer_id].device_id
        }),
{
}

/// An offered folder with files is sent as a folder, manifest first: its
/// task is a folder with a non-empty manifest, which the acceptance turns
/// into a folder send of that manifest; its size is the files' total.
pub proof fn law_offered_folder_streams_manifest(
    t: TransferTask,
    transfer_id: String,
    device_id: String,
    folder_name: String,
    folder_path: String,
    manifest: Seq<FolderEntry>,
    now_ms: u64,
)
    requires
        spec_new_folder_task(t, transfer_id, device_id, folder_name, folder_path, manifest, now_ms),
        manifest.len() > 0,
    ensures
        t.is_folder && t.folder_manifest@.len() > 0,
        t.folder_manifest@ == manifest,
        t.file_size == spec_total_size(manifest),
        t.file_count == manifest.len() as u32,
{
}

/// The receiver tracks what the sender offered: the incoming task made from
/// an offer has the outgoing task's id, name, size, kind and file count,
/// and goes the other way.
pub proof fn law_offer_mirrored(
    sent: TransferTask,
    offer: FileOfferPayload,
    received: TransferTask,
    to_device: String,
    from_device: String,
    file_path: String,
    sent_at: u64,
    received_at: u64,
)
    requires
        spec_new_send_task(
            sent,
            offer.transfer_id,
            to_device,
            offer.file_name,
            file_path,
            offer.file_size,
            offer.is_folder,
            offer.file_count,
            sent_at,
        ),
        spec_new_receive_task(
            received,
            offer.transfer_id,
            from_device,
            offer.file_name,
            offer.file_size,
            offer.is_folder,
            offer.file_count,
            received_at,
        ),
    ensures
        received.transfer_id == sent.transfer_id,
        received.file_name == sent.file_name,
        received.file_size == sent.file_size,
        received.is_folder == sent.is_folder,
        received.file_count == sent.file_count,
        received.direction != sent.direction,
        received.status == sent.status,
{
}

/// A rejected offer ends rejected on both sides: the receiver marks its task
/// rejected and sends the rejection under the same id, and the sender marks
/// its own task of that id rejected.
pub proof fn law_rejection_reaches_sender(
    receiver: Map<Seq<char>, TransferTask>,
    sender: Map<Seq<char>, TransferTask>,
    transfer_id: Seq<char>,
)
    requires
        receiver.contains_key(transfer_id),
        sender.contains_key(transfer_id),
    ensures
        receiver.insert(
            transfer_id,
            TransferTask { status: TransferStatus::Rejected, ..receiver[transfer_id] },
        )[transfer_id].status == TransferStatus::Rejected,
        sender.insert(
            transfer_id,
            TransferTask { status: TransferStatus::Rejected, ..sender[transfer_id] },
        )[transfer_id].status == TransferStatus::Rejected,
        !crate::transfer::tracker::spec_is_active(
            sender.insert(
                transfer_id,
                TransferTask { status: TransferStatus::Rejected, ..sender[transfer_id] },
            )[transfer_id],
        ),
{
}

} // verus!
