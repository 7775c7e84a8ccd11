use vstd::prelude::*;

use crate::clock::clock_millis;
use crate::keyed::{
    entries_map, find_key, key_index, key_views, lemma_entries_contains, lemma_entries_empty,
    lemma_entries_index, lemma_entries_push, lemma_entries_update,
};

verus! {

/// One file of a folder transfer: its path relative to the folder, with
/// `/` separators, and its size in bytes.
#[derive(Debug)]
pub struct FolderEntry {
    pub relative_path: String,
    pub size: u64,
}

impl Clone for FolderEntry {
    fn clone(&self) -> (res: Self)
        ensures
            res == *self,
    {
        FolderEntry { relative_path: self.relative_path.clone(), size: self.size }
    }
}

/// The state of a transfer.
#[derive(Debug, Clone, Copy, PartialEq, Eq, Structural)]
pub enum TransferStatus {
    Pending,
    Active,
    Paused,
    Completed,
    Failed,
    Rejected,
}

/// Which way a transfer goes.
#[derive(Debug, Clone, Copy, PartialEq, Eq, Structural)]
pub enum TransferDirection {
    Send,
    Receive,
}

/// A transfer task, as tracked and shown to the user.
#[derive(Debug)]
pub struct TransferTask {
    pub transfer_id: String,
    pub device_id: String,
    pub file_name: String,
    pub file_path: String,
    pub file_size: u64,
    pub transferred_bytes: u64,
    pub status: TransferStatus,
    pub direction: TransferDirection,
    pub speed_bps: u64,
    pub is_folder: bool,
    pub file_count: u32,
    pub created_at: u64,
    /// For the receiver: the port opened to receive the data.
    pub receiver_port: Option<u16>,
    /// For resuming: the offset to start from.
    pub resume_offset: u64,
    /// For folder transfers: the files inside the folder.
    pub folder_manifest: Vec<FolderEntry>,
}

/// Two task records that agree on every field (the manifests by content).
pub open spec fn task_same(a: TransferTask, b: TransferTask) -> bool {
    &&& a.transfer_id == b.transfer_id
    &&& a.device_id == b.device_id
    &&& a.file_name == b.file_name
    &&& a.file_path == b.file_path
    &&& a.file_size == b.file_size
    &&& a.transferred_bytes == b.transferred_bytes
    &&& a.status == b.status
    &&& a.direction == b.direction
    &&& a.speed_bps == b.speed_bps
    &&& a.is_folder == b.is_folder
    &&& a.file_count == b.file_count
    &&& a.created_at == b.created_at
    &&& a.receiver_port == b.receiver_port
    &&& a.resume_offset == b.resume_offset
    &&& a.folder_manifest@ == b.folder_manifest@
}

impl Clone for TransferTask {
    fn clone(&self) -> (res: Self)
        ensures
            task_same(res, *self),
    {
        let manifest = self.folder_manifest.clone();
        proof {
            assert(manifest@ =~= self.folder_manifest@);
        }
        TransferTask {
            transfer_id: self.transfer_id.clone(),
            device_id: self.device_id.clone(),
            file_name: self.file_name.clone(),
            file_path: self.file_path.clone(),
            file_size: self.file_size,
            transferred_bytes: self.transferred_bytes,
            status: self.status,
            direction: self.direction,
            speed_bps: self.speed_bps,
            is_folder: self.is_folder,
            file_count: self.file_count,
            created_at: self.created_at,
            receiver_port: self.receiver_port,
            resume_offset: self.resume_offset,
            folder_manifest: manifest,
        }
    }
}

/// A fresh outgoing task: pending, nothing sent, no receiver port, no
/// resume offset, an empty manifest, created at `now_ms`.
pub open spec fn spec_new_send_task(
    t: TransferTask,
    transfer_id: String,
    device_id: String,
    file_name: String,
    file_path: String,
    file_size: u64,
    is_folder: bool,
    file_count: u32,
    now_ms: u64,
) -> bool {
    &&& t.transfer_id == transfer_id
    &&& t.device_id == device_id
    &&& t.file_name == file_name
    &&& t.file_path == file_path
    &&& t.file_size == file_size
    &&& t.transferred_bytes == 0
    &&& t.status == TransferStatus::Pending
    &&& t.direction == TransferDirection::Send
    &&& t.speed_bps == 0
    &&& t.is_folder == is_folder
    &&& t.file_count == file_count
    &&& t.created_at == now_ms
    &&& t.receiver_port is None
    &&& t.resume_offset == 0
    &&& t.folder_manifest@ == Seq::<FolderEntry>::empty()
}

/// A fresh incoming task: as an outgoing one, but receiving and with an
/// empty file path (set when the transfer is accepted).
pub open spec fn spec_new_receive_task(
    t: TransferTask,
    transfer_id: String,
    device_id: String,
    file_name: String,
    file_size: u64,
    is_folder: bool,
    file_count: u32,
    now_ms: u64,
) -> bool {
    &&& t.transfer_id == transfer_id
    &&& t.device_id == device_id
    &&& t.file_name == file_name
    &&& t.file_path@ == Seq::<char>::empty()
    &&& t.file_size == file_size
    &&& t.transferred_bytes == 0
    &&& t.status == TransferStatus::Pending
    &&& t.direction == TransferDirection::Receive
    &&& t.speed_bps == 0
    &&& t.is_folder == is_folder
    &&& t.file_count == file_count
    &&& t.created_at == now_ms
    &&& t.receiver_port is None
    &&& t.resume_offset == 0
    &&& t.folder_manifest@ == Seq::<FolderEntry>::empty()
}

/// A task counts as active while it is pending, active or paused.
pub open spec fn spec_is_active(t: TransferTask) -> bool {
    t.status == TransferStatus::Active || t.status == TransferStatus::Pending || t.status
        == TransferStatus::Paused
}

/// Whether a listing keeps a task: all tasks, or only the active ones.
pub open spec fn spec_kept(t: TransferTask, only_active: bool) -> bool {
    !only_active || spec_is_active(t)
}

/// `res` lists, under the distinct keys `ks`, a copy of the task of each key
/// of `m` that the listing keeps, and nothing else.
pub open spec fn spec_lists_tasks(
    m: Map<Seq<char>, TransferTask>,
    only_active: bool,
    ks: Seq<Seq<char>>,
    res: Seq<TransferTask>,
) -> bool {
    &&& ks.len() == res.len()
    &&& ks.no_duplicates()
    &&& forall|a: int|
        0 <= a < ks.len() ==> m.contains_key(#[trigger] ks[a]) && spec_kept(m[ks[a]], only_active) && task_same(
            res[a],
            m[ks[a]],
        )
    &&& forall|k: Seq<char>| #[trigger] m.contains_key(k) && spec_kept(m[k], only_active) ==> ks.contains(k)
}

/// Every task is stored under its own transfer id.
pub open spec fn ids_match(m: Map<Seq<char>, TransferTask>) -> bool {
    forall|k: Seq<char>| #[trigger] m.contains_key(k) ==> m[k].transfer_id@ == k
}

/// In a listing of a tracker whose tasks are stored under their own ids,
/// the tasks have distinct ids, and each is a copy of the task stored under
/// its id.
pub proof fn law_listing_ids_distinct(
    m: Map<Seq<char>, TransferTask>,
    only_active: bool,
    ks: Seq<Seq<char>>,
    res: Seq<TransferTask>,
)
    requires
        ids_match(m),
        spec_lists_tasks(m, only_active, ks, res),
    ensures
        forall|a: int, b: int|
            0 <= a < b < res.len() ==> (#[trigger] res[a]).transfer_id@ != (#[trigger] res[b]).transfer_id@,
        forall|a: int|
            0 <= a < res.len() ==> m.contains_key((#[trigger] res[a]).transfer_id@) && task_same(
                res[a],
                m[res[a].transfer_id@],
            ),
{
    assert forall|a: int| 0 <= a < res.len() implies (#[trigger] res[a]).transfer_id@ == ks[a] by {
        assert(m.contains_key(ks[a]));
    }
    assert forall|a: int, b: int|
        0 <= a < b < res.len() implies (#[trigger] res[a]).transfer_id@ != (#[trigger] res[b]).transfer_id@ by {
        assert(res[a].transfer_id@ == ks[a]);
        assert(res[b].transfer_id@ == ks[b]);
    }
}

/// The tracker of transfer tasks, keyed by transfer id.
#[derive(Debug)]
pub struct TransferManager {
    keys: Vec<String>,
    tasks: Vec<TransferTask>,
}

impl View for TransferManager {
    type V = Map<Seq<char>, TransferTask>;

    closed spec fn view(&self) -> Map<Seq<char>, TransferTask> {
        entries_map(key_views(self.keys@), self.tasks@)
    }
}

impl TransferManager {
    /// Internal consistency: one task per key.
    pub closed spec fn wf(&self) -> bool {
        &&& self.keys@.len() == self.tasks@.len()
        &&& key_views(self.keys@).no_duplicates()
    }

    /// An empty tracker.
    pub fn new() -> (res: Self)
        ensures
            res.wf(),
            res@ == Map::<Seq<char>, TransferTask>::empty(),
            ids_match(res@),
    {
        let res = TransferManager { keys: Vec::new(), tasks: Vec::new() };
        proof {
            assert(key_views(res.keys@) =~= Seq::<Seq<char>>::empty());
            lemma_entries_empty::<TransferTask>();
        }
        res
    }

    fn find(&self, transfer_id: &str) -> (res: Option<usize>)
        requires
            self.wf(),
        ensures
            match res {
                Some(i) => i < self.keys@.len() && self.keys@[i as int]@ == transfer_id@
                    && self@.contains_key(transfer_id@) && self@[transfer_id@]
                    == self.tasks@[i as int],
                None => !self@.contains_key(transfer_id@),
            },
    {
        let key = transfer_id.to_owned();
        let res = find_key(&self.keys, &key);
        proof {
            if let Some(i) = res {
                assert(key_views(self.keys@)[i as int] == transfer_id@);
                lemma_entries_index(key_views(self.keys@), self.tasks@, i as int);
            }
        }
        res
    }

    /// Store `task` under `key`, replacing any task stored under it, and
    /// return a reference to the stored task.
    fn put(&mut self, key: String, task: TransferTask) -> (res: &TransferTask)
        requires
            old(self).wf(),
        ensures
            final(self).wf(),
            final(self)@ == old(self)@.insert(key@, task),
            *res == task,
    {
        let ghost ks = key_views(self.keys@);
        let ghost vs = self.tasks@;
        match find_key(&self.keys, &key) {
            Some(i) => {
                self.tasks[i] = task;
                proof {
                    assert(ks[i as int] == key@);
                    lemma_entries_update(ks, vs, i as int, task);
                }
                &self.tasks[i]
            },
            None => {
                let ghost kseq = self.keys@;
                self.keys.push(key);
                self.tasks.push(task);
                proof {
                    assert(key_views(self.keys@) =~= ks.push(key@));
                    lemma_entries_push(ks, vs, key@, task);
                }
                let last = self.tasks.len() - 1;
                &self.tasks[last]
            },
        }
    }

    /// Create an outgoing task created at `now_ms` (replacing any task with
    /// the same id) and return it.
    pub fn create_send_task_at(
        &mut self,
        transfer_id: String,
        device_id: String,
        file_name: String,
        file_path: String,
        file_size: u64,
        is_folder: bool,
        file_count: u32,
        now_ms: u64,
    ) -> (res: &TransferTask)
        requires
            old(self).wf(),
        ensures
            final(self).wf(),
            final(self)@ == old(self)@.insert(transfer_id@, *res),
            ids_match(old(self)@) ==> ids_match(final(self)@),
            spec_new_send_task(
                *res,
                transfer_id,
                device_id,
                file_name,
                file_path,
                file_size,
                is_folder,
                file_count,
                now_ms,
            ),
    {
        let key = transfer_id.clone();
        let manifest: Vec<FolderEntry> = Vec::new();
        let task = TransferTask {
            transfer_id,
            device_id,
            file_name,
            file_path,
            file_size,
            transferred_bytes: 0,
            status: TransferStatus::Pending,
            direction: TransferDirection::Send,
            speed_bps: 0,
            is_folder,
            file_count,
            created_at: now_ms,
            receiver_port: None,
            resume_offset: 0,
            folder_manifest: manifest,
        };
        self.put(key, task)
    }

    /// Create an outgoing task stamped with the current clock (replacing any
    /// task with the same id) and return it.
    pub fn create_send_task(
        &mut self,
        transfer_id: String,
        device_id: String,
        file_name: String,
        file_path: String,
        file_size: u64,
        is_folder: bool,
        file_count: u32,
    ) -> (res: &TransferTask)
        requires
            old(self).wf(),
        ensures
            final(self).wf(),
            final(self)@ == old(self)@.insert(transfer_id@, *res),
            ids_match(old(self)@) ==> ids_match(final(self)@),
            exists|now_ms: u64|
                spec_new_send_task(
                    *res,
                    transfer_id,
                    device_id,
                    file_name,
                    file_path,
                    file_size,
                    is_folder,
                    file_count,
                    now_ms,
                ),
    {
        let now_ms = now_millis();
        self.create_send_task_at(
            transfer_id,
            device_id,
            file_name,
            file_path,
            file_size,
            is_folder,
            file_count,
            now_ms,
        )
    }

    /// Create an incoming task created at `now_ms` (replacing any task with
    /// the same id) and return it.
    pub fn create_receive_task_at(
        &mut self,
        transfer_id: String,
        device_id: String,
        file_name: String,
        file_size: u64,
        is_folder: bool,
        file_count: u32,
        now_ms: u64,
    ) -> (res: &TransferTask)
        requires
            old(self).wf(),
        ensures
            final(self).wf(),
            final(self)@ == old(self)@.insert(transfer_id@, *res),
            ids_match(old(self)@) ==> ids_match(final(self)@),
            spec_new_receive_task(
                *res,
                transfer_id,
                device_id,
                file_name,
                file_size,
                is_folder,
                file_count,
                now_ms,
            ),
    {
        let key = transfer_id.clone();
        let manifest: Vec<FolderEntry> = Vec::new();
        let task = TransferTask {
            transfer_id,
            device_id,
            file_name,
            file_path: String::new(),
            file_size,
            transferred_bytes: 0,
            status: TransferStatus::Pending,
            direction: TransferDirection::Receive,
            speed_bps: 0,
            is_folder,
            file_count,
            created_at: now_ms,
            receiver_port: None,
            resume_offset: 0,
            folder_manifest: manifest,
        };
        self.put(key, task)
    }

    /// Create an incoming task stamped with the current clock (replacing any
    /// task with the same id) and return it.
    pub fn create_receive_task(
        &mut self,
        transfer_id: String,
        device_id: String,
        file_name: String,
        file_size: u64,
        is_folder: bool,
        file_count: u32,
    ) -> (res: &TransferTask)
        requires
            old(self).wf(),
        ensures
            final(self).wf(),
            final(self)@ == old(self)@.insert(transfer_id@, *res),
            ids_match(old(self)@) ==> ids_match(final(self)@),
            exists|now_ms: u64|
                spec_new_receive_task(
                    *res,
                    transfer_id,
                    device_id,
                    file_name,
                    file_size,
                    is_folder,
                    file_count,
                    now_ms,
                ),
    {
        let now_ms = now_millis();
        self.create_receive_task_at(
            transfer_id,
            device_id,
            file_name,
            file_size,
            is_folder,
            file_count,
            now_ms,
        )
    }

    /// The task with the given id, if any.
    pub fn get_task(&self, transfer_id: &str) -> (res: Option<&TransferTask>)
        requires
            self.wf(),
        ensures
            match res {
                Some(t) => self@.contains_key(transfer_id@) && *t == self@[transfer_id@],
                None => !self@.contains_key(transfer_id@),
            },
            ids_match(self@) ==> (res matches Some(t) ==> t.transfer_id@ == transfer_id@),
    {
        match self.find(transfer_id) {
            Some(i) => Some(&self.tasks[i]),
            None => None,
        }
    }

    /// The task with the given id, for updating in place, if any. Whatever
    /// is written through the reference becomes the task of that id.
    pub fn get_task_mut(&mut self, transfer_id: &str) -> (res: Option<&mut TransferTask>)
        requires
            old(self).wf(),
        ensures
            final(self).wf(),
            match res {
                Some(t) => old(self)@.contains_key(transfer_id@) && *t == old(self)@[transfer_id@]
                    && final(self)@ == old(self)@.insert(transfer_id@, *final(t)) && (ids_match(
                    old(self)@,
                ) && final(t).transfer_id@ == transfer_id@ ==> ids_match(final(self)@)),
                None => !old(self)@.contains_key(transfer_id@) && final(self)@ == old(self)@,
            },
    {
        match self.find(transfer_id) {
            Some(i) => {
                proof {
                    lemma_entries_update(key_views(self.keys@), self.tasks@, i as int, self.tasks@[i as int]);
                }
                Some(&mut self.tasks[i])
            },
            None => None,
        }
    }

    /// Record the progress of a transfer; unknown ids are ignored.
    pub fn update_progress(&mut self, transfer_id: &str, transferred: u64, speed: u64)
        requires
            old(self).wf(),
        ensures
            final(self).wf(),
            ids_match(old(self)@) ==> ids_match(final(self)@),
            final(self)@ == if old(self)@.contains_key(transfer_id@) {
                old(self)@.insert(
                    transfer_id@,
                    TransferTask {
                        transferred_bytes: transferred,
                        speed_bps: speed,
                        ..old(self)@[transfer_id@]
                    },
                )
            } else {
                old(self)@
            },
    {
        if let Some(i) = self.find(transfer_id) {
            let ghost ks = key_views(self.keys@);
            let ghost vs = self.tasks@;
            self.tasks[i].transferred_bytes = transferred;
            self.tasks[i].speed_bps = speed;
            proof {
                lemma_entries_update(
                    ks,
                    vs,
                    i as int,
                    TransferTask { transferred_bytes: transferred, speed_bps: speed, ..vs[i as int] },
                );
                assert(self.tasks@ == vs.update(
                    i as int,
                    TransferTask { transferred_bytes: transferred, speed_bps: speed, ..vs[i as int] },
                ));
            }
        }
    }

    /// Set the status of a transfer; unknown ids are ignored.
    pub fn set_status(&mut self, transfer_id: &str, status: TransferStatus)
        requires
            old(self).wf(),
        ensures
            final(self).wf(),
            ids_match(old(self)@) ==> ids_match(final(self)@),
            final(self)@ == if old(self)@.contains_key(transfer_id@) {
                old(self)@.insert(transfer_id@, TransferTask { status, ..old(self)@[transfer_id@] })
            } else {
                old(self)@
            },
    {
        if let Some(i) = self.find(transfer_id) {
            let ghost ks = key_views(self.keys@);
            let ghost vs = self.tasks@;
            self.tasks[i].status = status;
            proof {
                lemma_entries_update(ks, vs, i as int, TransferTask { status, ..vs[i as int] });
                assert(self.tasks@ == vs.update(i as int, TransferTask { status, ..vs[i as int] }));
            }
        }
    }

    fn collect(&self, only_active: bool) -> (res: Vec<TransferTask>)
        requires
            self.wf(),
        ensures
            exists|ks: Seq<Seq<char>>| spec_lists_tasks(self@, only_active, ks, res@),
    {
        let ghost kv = key_views(self.keys@);
        let mut res: Vec<TransferTask> = Vec::new();
        let ghost mut idx: Seq<int> = Seq::empty();
        let n = self.tasks.len();
        let mut i: usize = 0;
        while i < n
            invariant
                0 <= i <= n,
                n == self.tasks@.len(),
                self.wf(),
                kv == key_views(self.keys@),
                idx.len() == res@.len(),
                forall|a: int|
                    0 <= a < idx.len() ==> 0 <= #[trigger] idx[a] < i && spec_kept(self.tasks@[idx[a]], only_active)
                        && task_same(res@[a], self.tasks@[idx[a]]),
                forall|a: int, b: int| 0 <= a < b < idx.len() ==> idx[a] < idx[b],
                forall|j: int| 0 <= j < i && spec_kept(#[trigger] self.tasks@[j], only_active) ==> idx.contains(j),
            decreases n - i,
        {
            let t = &self.tasks[i];
            let active = t.status == TransferStatus::Active || t.status == TransferStatus::Pending
                || t.status == TransferStatus::Paused;
            if !only_active || active {
                let c = t.clone();
                res.push(c);
                proof {
                    let old_idx = idx;
                    idx = idx.push(i as int);
                    assert forall|j: int| 0 <= j < i + 1 && spec_kept(#[trigger] self.tasks@[j], only_active) implies idx.contains(
                        j,
                    ) by {
                        if j < i {
                            let a = choose|a: int| 0 <= a < old_idx.len() && old_idx[a] == j;
                            assert(idx[a] == j);
                        } else {
                            assert(idx[idx.len() - 1] == j);
                        }
                    }
                }
            }
            i = i + 1;
        }
        proof {
            let ks = idx.map_values(|j: int| kv[j]);
            assert forall|a: int, b: int|
                0 <= a < ks.len() && 0 <= b < ks.len() && a != b implies ks[a] != ks[b] by {
                if a < b {
                    assert(idx[a] < idx[b]);
                } else {
                    assert(idx[b] < idx[a]);
                }
            }
            assert forall|a: int| 0 <= a < ks.len() implies self@.contains_key(#[trigger] ks[a])
                && spec_kept(self@[ks[a]], only_active) && task_same(res@[a], self@[ks[a]]) by {
                lemma_entries_index(kv, self.tasks@, idx[a]);
            }
            assert forall|k: Seq<char>| #[trigger] self@.contains_key(k) && spec_kept(self@[k], only_active) implies ks.contains(
                k,
            ) by {
                lemma_entries_contains(kv, self.tasks@, k);
                let j = key_index(kv, k);
                assert(idx.contains(j));
                let a = choose|a: int| 0 <= a < idx.len() && idx[a] == j;
                assert(ks[a] == k);
            }
            assert(spec_lists_tasks(self@, only_active, ks, res@));
        }
        res
    }

    /// Copies of the tasks that are pending, active or paused.
    pub fn get_active_tasks(&self) -> (res: Vec<TransferTask>)
        requires
            self.wf(),
        ensures
            exists|ks: Seq<Seq<char>>| spec_lists_tasks(self@, true, ks, res@),
            ids_match(self@) ==> forall|a: int, b: int|
                0 <= a < b < res@.len() ==> (#[trigger] res@[a]).transfer_id@ != (
                #[trigger] res@[b]).transfer_id@,
    {
        let res = self.collect(true);
        proof {
            if ids_match(self@) {
                let ks = choose|ks: Seq<Seq<char>>| spec_lists_tasks(self@, true, ks, res@);
                law_listing_ids_distinct(self@, true, ks, res@);
            }
        }
        res
    }

    /// Copies of all tasks.
    pub fn get_all_tasks(&self) -> (res: Vec<TransferTask>)
        requires
            self.wf(),
        ensures
            exists|ks: Seq<Seq<char>>| spec_lists_tasks(self@, false, ks, res@),
            ids_match(self@) ==> forall|a: int, b: int|
                0 <= a < b < res@.len() ==> (#[trigger] res@[a]).transfer_id@ != (
                #[trigger] res@[b]).transfer_id@,
    {
        let res = self.collect(false);
        proof {
            if ids_match(self@) {
                let ks = choose|ks: Seq<Seq<char>>| spec_lists_tasks(self@, false, ks, res@);
                law_listing_ids_distinct(self@, false, ks, res@);
            }
        }
        res
    }
}

/// A task created under an id is the task found under that id; the other
/// tasks are as they were.
pub proof fn law_create_then_get(
    m: Map<Seq<char>, TransferTask>,
    transfer_id: Seq<char>,
    task: TransferTask,
    other: Seq<char>,
)
    requires
        other != transfer_id,
    ensures
        m.insert(transfer_id, task).contains_key(transfer_id),
        m.insert(transfer_id, task)[transfer_id] == task,
        m.insert(transfer_id, task).contains_key(other) == m.contains_key(other),
        m.contains_key(other) ==> m.insert(transfer_id, task)[other] == m[other],
{
}

/// Setting a status changes only that task's status; a finished, failed or
/// rejected task no longer counts as active.
pub proof fn law_status_update(t: TransferTask, status: TransferStatus)
    ensures
        task_same(TransferTask { status, ..t }, t) <==> status == t.status,
        (status == TransferStatus::Completed || status == TransferStatus::Failed || status
            == TransferStatus::Rejected) ==> !spec_is_active(TransferTask { status, ..t }),
        (status == TransferStatus::Pending || status == TransferStatus::Active || status
            == TransferStatus::Paused) ==> spec_is_active(TransferTask { status, ..t }),
{
}

/// Milliseconds since the Unix epoch by the system clock; 0 when the clock
/// reads before the epoch.
fn now_millis() -> (res: u64) {
    match clock_millis() {
        Some(ms) => ms,
        None => 0,
    }
}

} // verus!
