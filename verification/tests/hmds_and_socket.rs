use brooks_cli::hmds::{HmdsDomainConfiguration, HmdsStore, HmdsWebConfiguration};
use brooks_cli::socket::{
    encode_frame, frame_header, frame_length, message_text, Transfer, TransferEvent, TransferStep,
};

#[test]
fn store_reads_back_what_was_written() {
    let mut store: HmdsStore<u32> = HmdsStore::new();
    assert!(store.get("a.example").is_none());
    store.insert("a.example".to_string(), 1);
    store.insert("b.example".to_string(), 2);
    assert_eq!(store.get("a.example").map(|e| e.registration), Some(1));
    assert_eq!(store.get("b.example").map(|e| e.registration), Some(2));
    store.insert("a.example".to_string(), 3);
    assert_eq!(store.get("a.example").map(|e| e.registration), Some(3));
    assert_eq!(store.get("b.example").map(|e| e.registration), Some(2));
    assert_eq!(store.listing().len(), 2);
    store.remove("a.example");
    assert!(store.get("a.example").is_none());
    assert_eq!(store.get("b.example").map(|e| e.registration), Some(2));
    store.remove("nothing");
    assert_eq!(store.listing().len(), 1);
    assert_eq!(store.listing()[0].host, "b.example");
}

#[test]
fn socket_queries_are_answered_from_the_store() {
    let mut store: HmdsStore<&str> = HmdsStore::new();
    store.insert("cdn.example".to_string(), "meta");
    match store.answer_socket_query(b"cdn.example".to_vec()) {
        Some(Some(e)) => assert_eq!(e.registration, "meta"),
        _ => panic!("expected a registration"),
    }
    assert!(matches!(store.answer_socket_query(b"other".to_vec()), Some(None)));
    assert!(store.answer_socket_query(vec![0xff, 0xfe]).is_none());
}

#[test]
fn frame_headers_are_little_endian() {
    assert_eq!(frame_header(0), vec![0; 8]);
    assert_eq!(frame_header(0x0102030405060708), 0x0102030405060708u64.to_le_bytes().to_vec());
    for n in [0u64, 1, 255, 256, 65535, u64::MAX, 1 << 40] {
        assert_eq!(frame_length(&frame_header(n)), n);
        assert_eq!(frame_length(&n.to_le_bytes()), n);
    }
}

#[test]
fn frames_hold_their_length_then_their_bytes() {
    let f = encode_frame(b"abc");
    assert_eq!(f, vec![3, 0, 0, 0, 0, 0, 0, 0, b'a', b'b', b'c']);
    assert_eq!(encode_frame(b""), vec![0; 8]);
}

#[test]
fn message_text_accepts_utf8_only() {
    assert_eq!(message_text(b"host".to_vec()), Some("host".to_string()));
    assert_eq!(message_text("é".as_bytes().to_vec()), Some("é".to_string()));
    assert_eq!(message_text(vec![0xc3]), None);
}

fn run(total: usize, events: Vec<TransferEvent<&'static str>>) -> (Vec<usize>, Option<Result<usize, &'static str>>) {
    let mut t = Transfer::new(total);
    let mut positions = vec![t.position()];
    for e in events {
        match t.step(e) {
            TransferStep::Continue(next) => {
                t = next;
                positions.push(t.position());
            }
            TransferStep::Finished(n) => return (positions, Some(Ok(n))),
            TransferStep::Failed(err) => return (positions, Some(Err(err))),
        }
    }
    (positions, None)
}

#[test]
fn transfers_finish_when_all_bytes_moved() {
    let (pos, end) = run(10, vec![
        TransferEvent::Transferred(4),
        TransferEvent::WouldBlock,
        TransferEvent::Transferred(6),
    ]);
    assert_eq!(pos, vec![0, 4, 4]);
    assert_eq!(end, Some(Ok(10)));
}

#[test]
fn transfers_stop_when_nothing_moves() {
    let (_, end) = run(10, vec![TransferEvent::Transferred(3), TransferEvent::Transferred(0)]);
    assert_eq!(end, Some(Ok(3)));
    let (_, end) = run(0, vec![TransferEvent::Transferred(0)]);
    assert_eq!(end, Some(Ok(0)));
}

#[test]
fn transfers_report_failures() {
    let (_, end) = run(10, vec![TransferEvent::Transferred(3), TransferEvent::Failed("broken")]);
    assert_eq!(end, Some(Err("broken")));
}

#[test]
fn configurations_keep_their_settings() {
    let web = HmdsWebConfiguration::new("127.0.0.1".into(), 8080, chrono::Duration::seconds(300));
    assert_eq!((web.ip.as_str(), web.port, web.timeout), ("127.0.0.1", 8080, chrono::Duration::seconds(300)));
    let dom = HmdsDomainConfiguration::new("/tmp/brooks/server".into(), Some("www".into()), None);
    assert_eq!(dom.server_path, "/tmp/brooks/server");
    assert_eq!(dom.user.as_deref(), Some("www"));
    assert_eq!(dom.group, None);
}
