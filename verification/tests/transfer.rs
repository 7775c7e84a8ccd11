use peacock::error::PeacockError;
use peacock::transfer::flow::{
    after_chunk, chunk_len, folder_totals, manifest_frame, manifest_len, send_gate, SendStep,
};
use peacock::text::decimal;
use peacock::transfer::naming::{manifest_path, numbered_name, part_name};
use peacock::transfer::tracker::{
    FolderEntry, TransferDirection, TransferManager, TransferStatus,
};

fn entry(p: &str, size: u64) -> FolderEntry {
    FolderEntry { relative_path: p.to_string(), size }
}

#[test]
fn create_then_get() {
    let mut m = TransferManager::new();
    assert!(m.get_task("t1").is_none());
    let t = m.create_send_task_at(
        "t1".into(),
        "dev".into(),
        "a.txt".into(),
        "/tmp/a.txt".into(),
        10,
        false,
        1,
        777,
    );
    assert_eq!(t.status, TransferStatus::Pending);
    assert_eq!(t.direction, TransferDirection::Send);
    assert_eq!(t.created_at, 777);
    let t = m.get_task("t1").unwrap();
    assert_eq!(t.file_name, "a.txt");
    assert_eq!(t.file_path, "/tmp/a.txt");
    assert_eq!(t.transferred_bytes, 0);
    assert_eq!(t.receiver_port, None);
    assert!(t.folder_manifest.is_empty());

    let r = m.create_receive_task_at("t2".into(), "dev".into(), "b".into(), 5, true, 3, 800);
    assert_eq!(r.direction, TransferDirection::Receive);
    assert_eq!(r.file_path, "");
    assert_eq!(r.file_count, 3);
    assert_eq!(m.get_all_tasks().len(), 2);
}

#[test]
fn progress_and_status_updates() {
    let mut m = TransferManager::new();
    m.create_receive_task("t".into(), "d".into(), "f".into(), 100, false, 1);
    m.update_progress("t", 40, 9);
    m.update_progress("unknown", 1, 1);
    let t = m.get_task("t").unwrap();
    assert_eq!((t.transferred_bytes, t.speed_bps), (40, 9));
    assert_eq!(m.get_active_tasks().len(), 1);
    m.set_status("t", TransferStatus::Paused);
    assert_eq!(m.get_active_tasks().len(), 1);
    m.set_status("t", TransferStatus::Completed);
    assert!(m.get_active_tasks().is_empty());
    assert_eq!(m.get_all_tasks().len(), 1);
    if let Some(t) = m.get_task_mut("t") {
        t.receiver_port = Some(5555);
    }
    assert_eq!(m.get_task("t").unwrap().receiver_port, Some(5555));
    assert!(m.get_task_mut("nope").is_none());
}

#[test]
fn same_id_replaces_the_task() {
    let mut m = TransferManager::new();
    m.create_receive_task_at("t".into(), "d".into(), "old".into(), 1, false, 1, 1);
    m.create_receive_task_at("t".into(), "d".into(), "new".into(), 2, false, 1, 2);
    assert_eq!(m.get_all_tasks().len(), 1);
    assert_eq!(m.get_task("t").unwrap().file_name, "new");
}

#[test]
fn folder_totals_count_and_sum() {
    let man = vec![entry("a", 3), entry("b/c", 4), entry("d", 0)];
    assert_eq!(folder_totals(&man), Some((3, 7)));
    assert_eq!(folder_totals(&vec![]), Some((0, 0)));
    let big = vec![entry("a", u64::MAX), entry("b", 1)];
    assert_eq!(folder_totals(&big), None);
}

#[test]
fn sender_gate_follows_status() {
    let mut m = TransferManager::new();
    m.create_send_task_at("t".into(), "d".into(), "f".into(), "/f".into(), 1, false, 1, 0);
    assert_eq!(send_gate(m.get_task("t")), SendStep::Proceed);
    m.set_status("t", TransferStatus::Paused);
    assert_eq!(send_gate(m.get_task("t")), SendStep::Wait);
    m.set_status("t", TransferStatus::Active);
    assert_eq!(send_gate(m.get_task("t")), SendStep::Proceed);
    m.set_status("t", TransferStatus::Failed);
    assert_eq!(send_gate(m.get_task("t")), SendStep::Stop);
    assert_eq!(send_gate(m.get_task("other")), SendStep::Stop);
}

#[test]
fn folder_receiver_reads_in_chunks() {
    assert_eq!(chunk_len(10), 10);
    assert_eq!(chunk_len(65536), 65536);
    assert_eq!(chunk_len(1 << 40), 65536);
    match after_chunk(100_000, 5, 65536) {
        Ok((left, total)) => assert_eq!((left, total), (100_000 - 65536, 65541)),
        Err(e) => panic!("{:?}", e),
    }
    match after_chunk(3, 0, 0) {
        Err(PeacockError::Transfer(m)) => assert_eq!(m, "Connection closed before all data received"),
        other => panic!("{:?}", other),
    }
}

#[test]
fn manifest_frame_round_trip() {
    let json = br#"[{"relative_path":"a/b.txt","size":1234}]"#;
    let f = manifest_frame(json);
    assert_eq!(&f[..8], &(json.len() as u64).to_le_bytes());
    assert_eq!(&f[8..], &json[..]);
    let mut prefix = [0u8; 8];
    prefix.copy_from_slice(&f[..8]);
    assert_eq!(manifest_len(&prefix), json.len() as u64);
    assert_eq!(manifest_len(&[0xFF; 8]), u64::MAX);
    assert_eq!(manifest_len(&[1, 2, 0, 0, 0, 0, 0, 0]), 513);
}

#[test]
fn numbered_names() {
    assert_eq!(numbered_name("file.txt", 1, false), "file(1).txt");
    assert_eq!(numbered_name("file.txt", 2, false), "file(2).txt");
    assert_eq!(numbered_name("archive.tar.gz", 12, false), "archive.tar(12).gz");
    assert_eq!(numbered_name("README", 3, false), "README(3)");
    assert_eq!(numbered_name(".bashrc", 1, false), ".bashrc(1)");
    assert_eq!(numbered_name("photos", 1, true), "photos(1)");
    assert_eq!(numbered_name("v1.2", 1, true), "v1(1)");
    assert_eq!(numbered_name("trailing.", 4, false), "trailing(4).");
    assert_eq!(numbered_name("..", 1, false), "..(1)");
    assert_eq!(numbered_name("相片.jpg", 10, false), "相片(10).jpg");
}

#[test]
fn decimal_text() {
    assert_eq!(decimal(0), "0");
    assert_eq!(decimal(7), "7");
    assert_eq!(decimal(10), "10");
    assert_eq!(decimal(4294967295), "4294967295");
}

#[test]
fn partial_file_name() {
    assert_eq!(part_name("movie.mkv"), "movie.mkv.part");
    assert_eq!(part_name(""), ".part");
}

#[test]
fn manifest_paths_use_slashes() {
    assert_eq!(manifest_path("a\\b\\c.txt"), "a/b/c.txt");
    assert_eq!(manifest_path("a/b.txt"), "a/b.txt");
    assert_eq!(manifest_path(""), "");
    assert_eq!(manifest_path("目录\\文件.md"), "目录/文件.md");
}

#[test]
fn folder_stream_splits_into_files() {
    let json = br#"[{"relative_path":"a","size":3},{"relative_path":"b/c","size":2}]"#;
    let mut stream = manifest_frame(json);
    stream.extend_from_slice(b"abc");
    stream.extend_from_slice(b"de");
    let mut prefix = [0u8; 8];
    prefix.copy_from_slice(&stream[..8]);
    let n = manifest_len(&prefix) as usize;
    assert_eq!(&stream[8..8 + n], &json[..]);
    let mut pos = 8 + n;
    let mut received = 0u64;
    let mut files = Vec::new();
    for size in [3u64, 2] {
        let mut remaining = size;
        let mut content = Vec::new();
        while remaining > 0 {
            let k = chunk_len(remaining).min(1);
            content.extend_from_slice(&stream[pos..pos + k]);
            pos += k;
            let (left, total) = after_chunk(remaining, received, k).unwrap();
            remaining = left;
            received = total;
        }
        files.push(content);
    }
    assert_eq!(files, vec![b"abc".to_vec(), b"de".to_vec()]);
    assert_eq!(received, 5);
    assert_eq!(pos, stream.len());
}
