use peacock::error::PeacockError;
use peacock::launch::{has_flag, pick_send_path, send_arg};
use peacock::messaging::{compose_text, decode_incoming, message_timestamp, Incoming};
use peacock::protocol::payload::WirePayload;
use peacock::protocol::types::{
    FileAcceptPayload, FileOfferPayload, FileRejectPayload, PacketType, SnippetSharePayload,
    TextPayload, MESSAGING_PORT,
};
use peacock::session::{device_id_from_setting, Session};
use peacock::text::{new_uuid_text, parse_uuid, uuid_from_bytes};
use peacock::transfer::flow::SendStep;
use peacock::transfer::tracker::{FolderEntry, TransferDirection, TransferStatus};

const ME: &str = "0b5c6d2e-1f3a-4b5c-8d9e-0a1b2c3d4e5f";

fn session() -> Session {
    let mut s = Session::open(
        ME.to_string(),
        "Desk".to_string(),
        "192.168.1.2".to_string(),
        "linux".to_string(),
        "/home/u/Downloads".to_string(),
    )
    .expect("valid id");
    s.discovery.upsert_from_response_at(
        "peer".to_string(),
        "Phone".to_string(),
        "192.168.1.9".to_string(),
        52001,
        "ios".to_string(),
        10,
    );
    s
}

fn is_uuid_text(s: &str) -> bool {
    s.len() == 36
        && s.char_indices().all(|(i, c)| {
            if [8, 13, 18, 23].contains(&i) {
                c == '-'
            } else {
                c.is_ascii_hexdigit() && !c.is_ascii_uppercase()
            }
        })
}

#[test]
fn open_parses_the_device_id() {
    let s = session();
    assert_eq!(s.device_id_bytes[0], 0x0b);
    assert_eq!(s.device_id_bytes[15], 0x5f);
    assert_eq!(uuid_from_bytes(&s.device_id_bytes), ME);
    assert_eq!(s.tcp_port, MESSAGING_PORT);
    assert!(s.broadcast_enabled);
    assert!(s.transfers.get_all_tasks().is_empty());
    let info = s.self_info();
    assert_eq!(info.device_name, "Desk");
    assert_eq!(info.ip_addr, "192.168.1.2");
    assert_eq!(info.platform, "linux");
    assert_eq!(info.tcp_port, 52001);
    assert!(Session::open("not-a-uuid".into(), "".into(), "".into(), "".into(), "".into()).is_none());
}

#[test]
fn uuid_texts() {
    assert_eq!(parse_uuid(ME).map(|b| uuid_from_bytes(&b)), Some(ME.to_string()));
    assert_eq!(parse_uuid("0B5C6D2E1F3A4B5C8D9E0A1B2C3D4E5F").map(|b| uuid_from_bytes(&b)), Some(ME.to_string()));
    assert!(parse_uuid("xyz").is_none());
    let a = new_uuid_text();
    let b = new_uuid_text();
    assert!(is_uuid_text(&a));
    assert_ne!(a, b);
    assert_eq!(&a[14..15], "4");
    assert!(["8", "9", "a", "b"].contains(&&a[19..20]));
}

#[test]
fn peers_resolve_or_are_not_found() {
    let s = session();
    assert_eq!(s.peer_address("peer").unwrap(), ("192.168.1.9".to_string(), 52001));
    match s.peer_address("ghost") {
        Err(PeacockError::DeviceNotFound(id)) => assert_eq!(id, "ghost"),
        other => panic!("{:?}", other),
    }
    assert_eq!(s.display_name("peer"), "Phone");
    assert_eq!(s.display_name("ghost"), "ghost");
}

#[test]
fn file_offer_flow() {
    let mut s = session();
    let offer = s.offer_file_at("peer".into(), "a.txt".into(), "/x/a.txt".into(), 42, 5000);
    assert!(is_uuid_text(&offer.transfer_id));
    assert_eq!((offer.file_name.as_str(), offer.file_size, offer.is_folder, offer.file_count), ("a.txt", 42, false, 1));
    let t = s.transfers.get_task(&offer.transfer_id).unwrap();
    assert_eq!(t.direction, TransferDirection::Send);
    assert_eq!(t.status, TransferStatus::Pending);
    assert_eq!(t.file_path, "/x/a.txt");
    assert_eq!(t.created_at, 5000);

    // The peer accepts on port 7000 from offset 10.
    let accept = FileAcceptPayload { transfer_id: offer.transfer_id.clone(), receiver_port: 7000, resume_offset: 10 };
    let plan = s.on_file_accept(&accept).expect("known transfer");
    assert_eq!(plan.file_path, "/x/a.txt");
    assert_eq!(plan.receiver_port, 7000);
    assert_eq!(plan.resume_offset, 10);
    assert!(!plan.is_folder);
    assert!(plan.folder_manifest.is_empty());
    let unknown = FileAcceptPayload { transfer_id: "zzz".into(), receiver_port: 1, resume_offset: 0 };
    assert!(s.on_file_accept(&unknown).is_none());

    assert_eq!(s.send_step(&offer.transfer_id), SendStep::Proceed);
    s.pause_transfer(&offer.transfer_id);
    assert_eq!(s.send_step(&offer.transfer_id), SendStep::Wait);
    s.resume_transfer(&offer.transfer_id);
    assert_eq!(s.send_step(&offer.transfer_id), SendStep::Proceed);
    s.finish_transfer(&offer.transfer_id, 42, None);
    let t = s.transfers.get_task(&offer.transfer_id).unwrap();
    assert_eq!(t.status, TransferStatus::Completed);
    assert_eq!(t.transferred_bytes, 42);
    assert_eq!(t.speed_bps, 0);
    assert_eq!(t.file_path, "/x/a.txt");
    s.cancel_transfer(&offer.transfer_id);
    assert_eq!(s.send_step(&offer.transfer_id), SendStep::Stop);
}

#[test]
fn folder_offer_flow() {
    let mut s = session();
    match s.offer_folder_at("peer".into(), "pics".into(), "/p".into(), vec![], 1) {
        Err(PeacockError::Transfer(m)) => assert_eq!(m, "Folder is empty"),
        other => panic!("{:?}", other),
    }
    assert!(s.transfers.get_all_tasks().is_empty());
    let man = vec![
        FolderEntry { relative_path: "a.jpg".into(), size: 10 },
        FolderEntry { relative_path: "sub/b.jpg".into(), size: 32 },
    ];
    let offer = s.offer_folder_at("peer".into(), "pics".into(), "/p".into(), man, 2).unwrap();
    assert!(offer.is_folder);
    assert_eq!(offer.file_count, 2);
    assert_eq!(offer.file_size, 42);
    let t = s.transfers.get_task(&offer.transfer_id).unwrap();
    assert!(t.is_folder);
    assert_eq!(t.folder_manifest.len(), 2);
    assert_eq!(t.folder_manifest[1].relative_path, "sub/b.jpg");
    let plan = s
        .on_file_accept(&FileAcceptPayload { transfer_id: offer.transfer_id.clone(), receiver_port: 9, resume_offset: 0 })
        .unwrap();
    assert!(plan.is_folder);
    assert_eq!(plan.folder_manifest.len(), 2);
    assert_eq!(plan.file_path, "/p");
}

#[test]
fn receive_flow() {
    let mut s = session();
    let offer = FileOfferPayload {
        transfer_id: "in-1".into(),
        file_name: "song.mp3".into(),
        file_size: 300,
        is_folder: false,
        file_count: 1,
    };
    s.on_file_offer_at("peer".into(), offer, 77);
    let t = s.transfers.get_task("in-1").unwrap();
    assert_eq!(t.direction, TransferDirection::Receive);
    assert_eq!(t.device_id, "peer");
    assert_eq!(t.created_at, 77);

    let plan = s.accept_plan("in-1").unwrap();
    assert_eq!(plan.device_id, "peer");
    assert_eq!(plan.file_name, "song.mp3");
    assert_eq!(plan.file_size, 300);
    assert!(!plan.is_folder);
    match s.accept_plan("nope") {
        Err(PeacockError::Transfer(m)) => assert_eq!(m, "Transfer not found"),
        other => panic!("{:?}", other),
    }

    // A .part file of 120 bytes is already there: resume from it.
    s.begin_receive("in-1", 40000, 120, "/dl/song.mp3".into());
    let t = s.transfers.get_task("in-1").unwrap();
    assert_eq!(t.receiver_port, Some(40000));
    assert_eq!(t.resume_offset, 120);
    assert_eq!(t.status, TransferStatus::Active);
    let acc = s.accept_payload("in-1", 40000);
    assert_eq!((acc.transfer_id.as_str(), acc.receiver_port, acc.resume_offset), ("in-1", 40000, 120));
    assert_eq!(s.accept_payload("nope", 1).resume_offset, 0);

    s.finish_transfer("in-1", 300, Some("/dl/song(1).mp3".into()));
    let t = s.transfers.get_task("in-1").unwrap();
    assert_eq!(t.status, TransferStatus::Completed);
    assert_eq!(t.transferred_bytes, 300);
    assert_eq!(t.file_path, "/dl/song(1).mp3");
}

#[test]
fn reject_flow() {
    let mut s = session();
    s.on_file_offer_at(
        "peer".into(),
        FileOfferPayload { transfer_id: "r".into(), file_name: "x".into(), file_size: 1, is_folder: false, file_count: 1 },
        1,
    );
    assert_eq!(s.reject("r").unwrap(), "peer");
    assert_eq!(s.transfers.get_task("r").unwrap().status, TransferStatus::Rejected);
    assert!(matches!(s.reject("nope"), Err(PeacockError::Transfer(ref m)) if m == "Transfer not found"));
    assert_eq!(Session::reject_payload("r").transfer_id, "r");

    // Our own offer, rejected by the peer.
    let offer = s.offer_file_at("peer".into(), "y".into(), "/y".into(), 1, 1);
    s.on_file_reject(&FileRejectPayload { transfer_id: offer.transfer_id.clone() });
    assert_eq!(s.transfers.get_task(&offer.transfer_id).unwrap().status, TransferStatus::Rejected);
}

#[test]
fn incoming_packets_decode_by_kind() {
    let text = TextPayload { message_id: "m".into(), text: "hi".into(), timestamp: 9 };
    match decode_incoming(PacketType::Text.code(), &text.encode()) {
        Incoming::Text(t) => assert_eq!((t.message_id.as_str(), t.text.as_str(), t.timestamp), ("m", "hi", 9)),
        other => panic!("{:?}", other),
    }
    let offer = FileOfferPayload { transfer_id: "t".into(), file_name: "f".into(), file_size: 2, is_folder: true, file_count: 4 };
    assert!(matches!(decode_incoming(20, &offer.encode()), Incoming::FileOffer(ref o) if o.file_count == 4 && o.is_folder));
    let acc = FileAcceptPayload { transfer_id: "t".into(), receiver_port: 3, resume_offset: 4 };
    assert!(matches!(decode_incoming(21, &acc.encode()), Incoming::FileAccept(ref a) if a.receiver_port == 3));
    let rej = FileRejectPayload { transfer_id: "t".into() };
    assert!(matches!(decode_incoming(22, &rej.encode()), Incoming::FileReject(ref r) if r.transfer_id == "t"));
    let sn = SnippetSharePayload { title: "a".into(), content: "b".into(), tag: "c".into(), note: "d".into() };
    assert!(matches!(decode_incoming(31, &sn.encode()), Incoming::SnippetShare(ref s) if s.note == "d"));
    assert!(matches!(decode_incoming(30, &[]), Incoming::Clipboard));
    assert!(matches!(decode_incoming(10, &[1, 2]), Incoming::Malformed(PacketType::Text)));
    assert!(matches!(decode_incoming(22, &[]), Incoming::Malformed(PacketType::FileReject)));
    assert!(matches!(decode_incoming(1, &[]), Incoming::Unhandled(1)));
    assert!(matches!(decode_incoming(4242, &[]), Incoming::Unhandled(4242)));
}

#[test]
fn text_timestamps_and_composition() {
    assert_eq!(message_timestamp(5, 100), 5);
    assert_eq!(message_timestamp(0, 100), 100);
    let t = compose_text("hello".into(), 1234);
    assert_eq!(t.text, "hello");
    assert_eq!(t.timestamp, 1234);
    assert!(is_uuid_text(&t.message_id));
}

#[test]
fn launch_arguments() {
    let args: Vec<String> = ["peacock", "--send", "/tmp/f.txt", "--send", "/other"].iter().map(|s| s.to_string()).collect();
    assert_eq!(send_arg(&args), Some("/tmp/f.txt".to_string()));
    let dangling: Vec<String> = ["peacock", "--send"].iter().map(|s| s.to_string()).collect();
    assert_eq!(send_arg(&dangling), None);
    assert!(!has_flag(&args, "--send-pending"));
    let pending: Vec<String> = ["peacock", "--send-pending"].iter().map(|s| s.to_string()).collect();
    assert!(has_flag(&pending, "--send-pending"));
    assert_eq!(send_arg(&pending), None);
    assert_eq!(pick_send_path(Some("a".into()), Some("b".into())), Some("b".to_string()));
    assert_eq!(pick_send_path(Some("a".into()), Some("".into())), Some("a".to_string()));
    assert_eq!(pick_send_path(None, None), None);
}

#[test]
fn offer_is_mirrored_by_the_receiver() {
    let mut sender = session();
    let mut receiver = Session::open(
        "1b5c6d2e-1f3a-4b5c-8d9e-0a1b2c3d4e5f".to_string(),
        "Phone".to_string(),
        "192.168.1.9".to_string(),
        "ios".to_string(),
        "/dl".to_string(),
    )
    .unwrap();
    let offer = sender.offer_file_at("peer".into(), "doc.pdf".into(), "/d/doc.pdf".into(), 1000, 1);
    let wire = offer.encode();
    let received = match decode_incoming(PacketType::FileOffer.code(), &wire) {
        Incoming::FileOffer(o) => o,
        other => panic!("{:?}", other),
    };
    receiver.on_file_offer_at(ME.to_string(), received, 2);
    let s = sender.transfers.get_task(&offer.transfer_id).unwrap();
    let r = receiver.transfers.get_task(&offer.transfer_id).unwrap();
    assert_eq!(r.file_name, s.file_name);
    assert_eq!(r.file_size, s.file_size);
    assert_eq!(r.is_folder, s.is_folder);
    assert_eq!(r.file_count, s.file_count);
    assert_eq!(r.direction, TransferDirection::Receive);
    assert_eq!(s.direction, TransferDirection::Send);

    // The receiver rejects; the sender hears of it.
    let peer_of_offer = receiver.reject(&offer.transfer_id).unwrap();
    assert_eq!(peer_of_offer, ME);
    let rejection = Session::reject_payload(&offer.transfer_id);
    let back = match decode_incoming(PacketType::FileReject.code(), &rejection.encode()) {
        Incoming::FileReject(r) => r,
        other => panic!("{:?}", other),
    };
    sender.on_file_reject(&back);
    assert_eq!(sender.transfers.get_task(&offer.transfer_id).unwrap().status, TransferStatus::Rejected);
    assert!(sender.transfers.get_active_tasks().is_empty());
}

#[test]
fn beacon_follows_the_broadcast_switch() {
    let mut s = session();
    let b = s.beacon_at(11).expect("broadcasting");
    assert_eq!(b.device_name, "Desk");
    assert_eq!(b.features, 0xFFFF);
    assert_eq!(b.restricted_peers.len(), 1);
    assert_eq!(b.restricted_peers[0].device_id, "peer");
    assert!(s.discovery.get_device("peer").unwrap().is_restricted);
    s.broadcast_enabled = false;
    assert!(s.beacon_at(12).is_none());
}

#[test]
fn device_id_kept_or_made() {
    assert_eq!(device_id_from_setting(Some(ME.to_string())), (ME.to_string(), false));
    let (id, store) = device_id_from_setting(None);
    assert!(store);
    assert!(is_uuid_text(&id));
    let s = Session::open(id.clone(), "n".into(), "ip".into(), "linux".into(), "/d".into()).expect("fresh id opens");
    assert_eq!(uuid_from_bytes(&s.device_id_bytes), id);
}

#[test]
fn listed_tasks_have_distinct_ids_matching_their_keys() {
    let mut s = session();
    let a = s.offer_file_at("peer".into(), "a".into(), "/a".into(), 1, 1);
    let b = s.offer_file_at("peer".into(), "b".into(), "/b".into(), 2, 2);
    s.on_file_offer_at("peer".into(), FileOfferPayload { transfer_id: "in".into(), file_name: "c".into(), file_size: 3, is_folder: false, file_count: 1 }, 3);
    let all = s.transfers.get_all_tasks();
    assert_eq!(all.len(), 3);
    for t in &all {
        assert_eq!(s.transfers.get_task(&t.transfer_id).unwrap().file_name, t.file_name);
    }
    let mut ids: Vec<String> = all.iter().map(|t| t.transfer_id.clone()).collect();
    ids.sort();
    ids.dedup();
    assert_eq!(ids.len(), 3);
    assert_eq!(s.transfers.get_task(&a.transfer_id).unwrap().transfer_id, a.transfer_id);
    assert_eq!(s.transfers.get_task(&b.transfer_id).unwrap().transfer_id, b.transfer_id);
}

#[test]
fn pending_path_is_trimmed() {
    assert_eq!(pick_send_path(Some("a".into()), Some("  /tmp/x.txt\r\n".into())), Some("/tmp/x.txt".to_string()));
    assert_eq!(pick_send_path(Some("a".into()), Some(" \t\n\u{3000}".into())), Some("a".to_string()));
    assert_eq!(pick_send_path(None, Some("\u{00A0}/p q\u{2003}".into())), Some("/p q".to_string()));
    assert_eq!(pick_send_path(None, Some("   ".into())), None);
}
