use peacock::error::PeacockError;
use peacock::protocol::header::PacketHeader;
use peacock::protocol::payload::WirePayload;
use peacock::protocol::types::{
    AnnouncePayload, ClipboardPayload, FileAcceptPayload, FileOfferPayload, FileRejectPayload,
    PacketType, PeerInfo, SnippetSharePayload, TextPayload, CHUNK_SIZE, DISCOVERY_PORT, MAGIC,
    MESSAGING_PORT, OFFLINE_TIMEOUT_SECS, VERSION,
};
use peacock::protocol::wire::{
    build_packet, build_typed_packet, check_header, decode_payload, encode_payload,
    parse_datagram,
};

fn id(seed: u8) -> [u8; 16] {
    let mut b = [0u8; 16];
    for (i, x) in b.iter_mut().enumerate() {
        *x = seed.wrapping_add(i as u8);
    }
    b
}

#[test]
fn constants_match_the_protocol_documents() {
    assert_eq!(MAGIC, *b"PCOK");
    assert_eq!(VERSION, 1);
    assert_eq!(DISCOVERY_PORT, 52000);
    assert_eq!(MESSAGING_PORT, 52001);
    assert_eq!(OFFLINE_TIMEOUT_SECS, 30);
    assert_eq!(CHUNK_SIZE, 64 * 1024);
    assert_eq!(PacketHeader::SIZE, 32);
}

#[test]
fn packet_type_codes_round_trip() {
    let all = [
        (PacketType::Announce, 1u16),
        (PacketType::Bye, 2),
        (PacketType::AnnounceResponse, 3),
        (PacketType::Text, 10),
        (PacketType::FileOffer, 20),
        (PacketType::FileAccept, 21),
        (PacketType::FileReject, 22),
        (PacketType::FileChunk, 23),
        (PacketType::Clipboard, 30),
        (PacketType::SnippetShare, 31),
        (PacketType::Ack, 99),
    ];
    for (t, c) in all {
        assert_eq!(t.code(), c);
        assert_eq!(PacketType::from_u16(c), Some(t));
    }
    for c in [0u16, 4, 9, 11, 24, 32, 98, 100, 65535] {
        assert_eq!(PacketType::from_u16(c), None);
    }
}

#[test]
fn header_bytes_are_big_endian() {
    let h = PacketHeader::new(PacketType::FileOffer, &id(1), 0x0102_0304);
    let b = h.to_bytes();
    assert_eq!(&b[0..4], b"PCOK");
    assert_eq!(&b[4..6], &[0, 1]);
    assert_eq!(&b[6..8], &[0, 20]);
    assert_eq!(&b[8..24], &id(1));
    assert_eq!(&b[24..28], &[1, 2, 3, 4]);
    assert_eq!(&b[28..32], &[0, 0, 0, 0]);
    assert!(h.is_valid());
    assert_eq!(h.get_packet_type(), Some(PacketType::FileOffer));
}

#[test]
fn header_round_trip() {
    let h = PacketHeader::new(PacketType::Text, &id(7), 77);
    let back = PacketHeader::from_bytes(&h.to_bytes()).expect("magic is there");
    assert_eq!(back.magic, h.magic);
    assert_eq!(back.version, h.version);
    assert_eq!(back.packet_type, h.packet_type);
    assert_eq!(back.device_id, h.device_id);
    assert_eq!(back.payload_length, 77);
    assert_eq!(back.reserved, [0u8; 4]);
}

#[test]
fn header_without_magic_is_refused() {
    let mut b = PacketHeader::new(PacketType::Text, &id(0), 0).to_bytes();
    b[0] = b'X';
    assert!(PacketHeader::from_bytes(&b).is_none());
    assert!(matches!(check_header(&b), Err(PeacockError::Network(ref m)) if m == "Invalid packet header"));
}

#[test]
fn header_of_other_version_is_not_valid() {
    let mut b = PacketHeader::new(PacketType::Text, &id(0), 0).to_bytes();
    b[5] = 2;
    let h = PacketHeader::from_bytes(&b).expect("magic is there");
    assert!(!h.is_valid());
    assert!(matches!(check_header(&b), Err(PeacockError::Network(ref m)) if m == "Invalid packet magic/version"));
    b[5] = 1;
    assert!(check_header(&b).is_ok());
}

#[test]
fn unknown_type_code_reads_as_none() {
    let mut b = PacketHeader::new(PacketType::Text, &id(0), 0).to_bytes();
    b[6] = 0;
    b[7] = 55;
    let h = PacketHeader::from_bytes(&b).expect("magic is there");
    assert_eq!(h.packet_type, 55);
    assert_eq!(h.get_packet_type(), None);
}

#[test]
fn text_payload_is_bincode_of_its_fields() {
    let p = TextPayload { message_id: "m-1".to_string(), text: "héllo".to_string(), timestamp: 1234 };
    let ours = encode_payload(&p).unwrap();
    let reference = bincode::serialize(&("m-1".to_string(), "héllo".to_string(), 1234u64)).unwrap();
    assert_eq!(ours, reference);
    let mut expected = vec![3, 0, 0, 0, 0, 0, 0, 0, b'm', b'-', b'1'];
    expected.extend_from_slice(&[6, 0, 0, 0, 0, 0, 0, 0]);
    expected.extend_from_slice("héllo".as_bytes());
    expected.extend_from_slice(&1234u64.to_le_bytes());
    assert_eq!(ours, expected);
}

#[test]
fn offer_accept_reject_payloads_are_bincode_of_their_fields() {
    let offer = FileOfferPayload {
        transfer_id: "t".to_string(),
        file_name: "a.txt".to_string(),
        file_size: 99,
        is_folder: true,
        file_count: 3,
    };
    assert_eq!(
        encode_payload(&offer).unwrap(),
        bincode::serialize(&("t".to_string(), "a.txt".to_string(), 99u64, true, 3u32)).unwrap()
    );
    let accept = FileAcceptPayload { transfer_id: "t".to_string(), receiver_port: 4000, resume_offset: 7 };
    assert_eq!(
        encode_payload(&accept).unwrap(),
        bincode::serialize(&("t".to_string(), 4000u16, 7u64)).unwrap()
    );
    let reject = FileRejectPayload { transfer_id: "t".to_string() };
    assert_eq!(encode_payload(&reject).unwrap(), bincode::serialize(&("t".to_string(),)).unwrap());
}

#[test]
fn announce_payload_is_bincode_of_its_fields() {
    let peer = PeerInfo {
        device_id: "p".to_string(),
        device_name: "Phone".to_string(),
        ip_addr: "192.168.1.9".to_string(),
        tcp_port: 52001,
        platform: "ios".to_string(),
    };
    let a = AnnouncePayload {
        device_name: "Desk".to_string(),
        platform: "linux".to_string(),
        tcp_port: 52001,
        features: 0xFFFF,
        restricted_peers: vec![peer],
    };
    let reference = bincode::serialize(&(
        "Desk".to_string(),
        "linux".to_string(),
        52001u16,
        0xFFFFu32,
        vec![(
            "p".to_string(),
            "Phone".to_string(),
            "192.168.1.9".to_string(),
            52001u16,
            "ios".to_string(),
        )],
    ))
    .unwrap();
    assert_eq!(encode_payload(&a).unwrap(), reference);
    let back: AnnouncePayload = decode_payload(&reference).unwrap();
    assert_eq!(back.device_name, "Desk");
    assert_eq!(back.restricted_peers.len(), 1);
    assert_eq!(back.restricted_peers[0].ip_addr, "192.168.1.9");
    assert_eq!(back.restricted_peers[0].platform, "ios");
}

#[test]
fn payloads_decode_what_was_encoded() {
    let s = SnippetSharePayload {
        title: "T".to_string(),
        content: "body".to_string(),
        tag: "".to_string(),
        note: "n".to_string(),
    };
    let mut bytes = encode_payload(&s).unwrap();
    bytes.extend_from_slice(&[9, 9, 9]);
    let back: SnippetSharePayload = decode_payload(&bytes).unwrap();
    assert_eq!((back.title.as_str(), back.content.as_str(), back.tag.as_str(), back.note.as_str()), ("T", "body", "", "n"));

    let c = ClipboardPayload { content: "x".to_string(), content_type: "text".to_string() };
    let back: ClipboardPayload = decode_payload(&c.encode()).unwrap();
    assert_eq!(back.content, "x");
    assert_eq!(back.content_type, "text");
}

#[test]
fn truncated_payload_is_an_error() {
    let p = TextPayload { message_id: "abc".to_string(), text: "hi".to_string(), timestamp: 5 };
    let bytes = encode_payload(&p).unwrap();
    for n in 0..bytes.len() {
        assert!(matches!(decode_payload::<TextPayload>(&bytes[..n]), Err(PeacockError::Bincode(_))));
    }
    assert!(decode_payload::<TextPayload>(&bytes).is_ok());
}

#[test]
fn bad_bool_and_bad_utf8_are_errors() {
    let offer = FileOfferPayload {
        transfer_id: "t".to_string(),
        file_name: "f".to_string(),
        file_size: 1,
        is_folder: false,
        file_count: 1,
    };
    let mut bytes = encode_payload(&offer).unwrap();
    let bool_at = 8 + 1 + 8 + 1 + 8;
    assert_eq!(bytes[bool_at], 0);
    bytes[bool_at] = 2;
    assert!(decode_payload::<FileOfferPayload>(&bytes).is_err());

    let mut t = encode_payload(&FileRejectPayload { transfer_id: "ab".to_string() }).unwrap();
    t[8] = 0xFF;
    assert!(decode_payload::<FileRejectPayload>(&t).is_err());
}

#[test]
fn built_packet_is_header_then_payload() {
    let payload = [1u8, 2, 3, 4, 5];
    let pkt = build_packet(PacketType::Clipboard, &id(3), &payload);
    assert_eq!(pkt.len(), 37);
    let h = PacketHeader::new(PacketType::Clipboard, &id(3), 5);
    assert_eq!(&pkt[..32], &h.to_bytes());
    assert_eq!(&pkt[32..], &payload);
}

#[test]
fn typed_packet_parses_back() {
    let p = FileAcceptPayload { transfer_id: "xyz".to_string(), receiver_port: 6000, resume_offset: 42 };
    let mut pkt = build_typed_packet(PacketType::FileAccept, &id(5), &p).unwrap();
    pkt.extend_from_slice(&[0xAA, 0xBB]);
    let (h, payload) = parse_datagram(&pkt).expect("well framed");
    assert_eq!(h.get_packet_type(), Some(PacketType::FileAccept));
    assert_eq!(h.device_id, id(5));
    assert_eq!(payload.len() as u32, h.payload_length);
    let back: FileAcceptPayload = decode_payload(&payload).unwrap();
    assert_eq!(back.transfer_id, "xyz");
    assert_eq!(back.receiver_port, 6000);
    assert_eq!(back.resume_offset, 42);
}

#[test]
fn short_or_unframed_datagrams_are_refused() {
    let pkt = build_packet(PacketType::Text, &id(1), &[1, 2, 3]);
    assert!(parse_datagram(&pkt[..31]).is_none());
    assert!(parse_datagram(&pkt[..34]).is_none());
    assert!(parse_datagram(&pkt).is_some());
    let mut bad = pkt.clone();
    bad[1] = 0;
    assert!(parse_datagram(&bad).is_none());
    let mut v2 = pkt.clone();
    v2[5] = 9;
    assert!(parse_datagram(&v2).is_none());
}
