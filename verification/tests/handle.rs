use tls_mon::cleanup::has_pid;
use tls_mon::cleanup::CLEANUP_INTERVAL_SECS;
use tls_mon::event::Kind;
use tls_mon::event::TlsEvent;
use tls_mon::event::BUFSIZE;
use tls_mon::handle::apply_sniffed;
use tls_mon::handle::maybe_update_protocol_data;
use tls_mon::handle::Handle;
use tls_mon::handle::HPACK_TABLE_SIZE;
use tls_mon::handle::MAX_HEADER_LIST_SIZE;
use tls_mon::http1::Sniffed;
use tls_mon::interpreter::note_read;
use tls_mon::interpreter::open_msg;
use tls_mon::interpreter::open_stream;
use tls_mon::interpreter::record_on_free;
use tls_mon::interpreter::Decoded;

fn event(kind: Kind, ts: u64, payload: &[u8]) -> TlsEvent {
    let mut data = [0u8; BUFSIZE];
    data[..payload.len()].copy_from_slice(payload);
    TlsEvent { kind, pid: 7, tgid: 8, ts, handle: 9, len: payload.len(), data }
}

#[test]
fn event_defaults_to_nothing() {
    let e = TlsEvent::default();
    assert_eq!(e.kind, Kind::Unset);
    assert_eq!((e.pid, e.tgid, e.ts, e.handle, e.len), (0, 0, 0, 0, 0));
    assert!(e.data.iter().all(|b| *b == 0));
    assert_eq!(e.data.len(), 4000);
    assert_eq!(e.scan_len(), 0);
    assert!(e.bytes().is_empty());
}

#[test]
fn payload_is_clipped_to_the_buffer() {
    let mut e = event(Kind::Write, 0, b"abc");
    assert_eq!(e.scan_len(), 3);
    assert_eq!(e.bytes(), b"abc");
    e.len = BUFSIZE;
    assert_eq!(e.scan_len(), BUFSIZE);
    assert_eq!(e.bytes().len(), BUFSIZE);
    e.len = BUFSIZE + 1;
    assert_eq!(e.scan_len(), BUFSIZE);
    e.len = usize::MAX;
    assert_eq!(e.bytes().len(), BUFSIZE);
    assert_eq!(&e.bytes()[..4], b"abc\0");
}

#[test]
fn handle_starts_empty() {
    let h = Handle::default();
    assert!(!h.is_h2);
    assert_eq!(h.pid, 0);
    assert_eq!((h.start_ns, h.last_ns), (0, 0));
    assert_eq!((h.method.as_str(), h.url.as_str(), h.host.as_str()), ("", "", ""));
    assert!(h.streams.is_empty());
    assert!(!h.decoding);
    let h = Handle::new(42);
    assert_eq!(h.pid, 42);
    assert!(!h.is_h2);
    assert!(h.streams.is_empty());
}

#[test]
fn write_updates_the_handle() {
    let mut h = Handle::new(1);
    let write = event(Kind::Write, 50, b"PUT /f HTTP/1.1\r\nhost: up.example\r\n\r\ndata");
    assert!(maybe_update_protocol_data(&mut h, &write).is_none());
    assert_eq!(h.method, "PUT");
    assert_eq!(h.url, "/f");
    assert_eq!(h.host, "up.example");
    assert_eq!((h.start_ns, h.last_ns), (50, 0));
    assert!(!h.is_h2);

    let preface = event(Kind::Write, 60, b"PRI * HTTP/2.0\r\n\r\nSM\r\n\r\n");
    assert!(maybe_update_protocol_data(&mut h, &preface).is_none());
    assert!(h.is_h2);
    // the preface changes nothing else
    assert_eq!(h.method, "PUT");
    assert_eq!((h.start_ns, h.last_ns), (50, 0));

    let headers = event(Kind::Write, 70, &[0, 0, 1, 1, 5, 0, 0, 0, 7, 0x82]);
    let block = maybe_update_protocol_data(&mut h, &headers).unwrap();
    assert_eq!(block.handle, 9);
    assert_eq!(block.stream_id, 7);
    assert_eq!(block.flags, 5);
    assert!(block.fresh);
    assert_eq!(block.frame, vec![0, 0, 1, 1, 5, 0, 0, 0, 7, 0x82]);
    assert_eq!(block.ts, 70);
    assert!(h.decoding);
    assert!(h.streams.is_empty());
}

#[test]
fn scan_result_is_applied_field_by_field() {
    let mut h = Handle::new(1);
    h.last_ns = 5;
    apply_sniffed(&mut h, Sniffed { request: None, host: None }, 10);
    assert_eq!((h.start_ns, h.last_ns), (0, 5));
    apply_sniffed(&mut h, Sniffed { request: None, host: Some("h".to_string()) }, 20);
    assert_eq!((h.start_ns, h.last_ns), (20, 0));
    assert_eq!((h.method.as_str(), h.url.as_str(), h.host.as_str()), ("", "", "h"));
    let request = Some(("GET".to_string(), "/".to_string()));
    apply_sniffed(&mut h, Sniffed { request, host: None }, 30);
    assert_eq!(h.start_ns, 30);
    assert_eq!((h.method.as_str(), h.url.as_str(), h.host.as_str()), ("GET", "/", "h"));
}

#[test]
fn read_is_noted_on_the_handle() {
    let mut h = Handle::new(1);
    assert!(note_read(&mut h, &event(Kind::Read, 33, b"x")).is_none());
    assert_eq!(h.last_ns, 33);
    assert_eq!(h.start_ns, 0);
}

#[test]
fn record_on_free_takes_the_request_of_the_handle() {
    let mut h = Handle::new(1);
    assert!(record_on_free(&h, 10).is_none());
    h.start_ns = 4;
    h.method = "GET".to_string();
    h.host = "a".to_string();
    h.url = "/b".to_string();
    let r = record_on_free(&h, 10).unwrap();
    assert_eq!((r.method.as_str(), r.host.as_str(), r.url.as_str(), r.delta_ns), ("GET", "a", "/b", 6));
    h.last_ns = 7;
    assert_eq!(record_on_free(&h, 10).unwrap().delta_ns, 3);
    h.last_ns = 4;
    assert_eq!(record_on_free(&h, 10).unwrap().delta_ns, 0);
    h.last_ns = 3;
    assert!(record_on_free(&h, 10).is_none());
    h.last_ns = 0;
    assert!(record_on_free(&h, 3).is_none());
    h.is_h2 = true;
    assert!(record_on_free(&h, 10).is_none());
}

#[test]
fn decoded_block_opens_a_stream() {
    let decoded = Decoded {
        method: Some("POST".to_string()),
        authority: None,
        path: Some("/p".to_string()),
    };
    let s = open_stream(decoded, 9);
    assert_eq!((s.start_ns, s.last_ns), (9, 0));
    assert_eq!((s.method.as_str(), s.host.as_str(), s.url.as_str()), ("POST", "", "/p"));
}

#[test]
fn open_message_names_the_path_and_the_thread() {
    let open = event(Kind::OpenAt, 1, b"/lib/libssl.so.3\0");
    let msg = open_msg(1, &open).unwrap();
    assert_eq!(msg.lib_name, "/lib/libssl.so.3");
    assert_eq!(msg.pid, 7);
    assert!(open_msg(8, &open).is_none());
    // the thread does not count, the process does
    assert!(open_msg(7, &open).is_some());
    let one = event(Kind::OpenAt, 1, b"\0");
    assert_eq!(open_msg(1, &one).unwrap().lib_name, "");
    let bad = event(Kind::OpenAt, 1, b"/lib/\xc3\x28/libssl.so.3\0");
    assert_eq!(open_msg(1, &bad).unwrap().lib_name, "/lib/\u{fffd}(/libssl.so.3");
}

#[test]
fn constants() {
    assert_eq!(BUFSIZE, 4000);
    assert_eq!(CLEANUP_INTERVAL_SECS, 60);
    assert_eq!(HPACK_TABLE_SIZE, 2048);
    assert_eq!(MAX_HEADER_LIST_SIZE, 16 * 1024 * 1024);
    assert!(has_pid(&[1, 2, 3], 2));
    assert!(!has_pid(&[1, 2, 3], 4));
    assert!(!has_pid(&[], 0));
}
