use rusty_server::HttpError;
use rusty_server::framer::ReadEvent;
use rusty_server::framer::RequestFramer;

#[test]
fn framer_completes_on_terminator() {
    let mut framer = RequestFramer::new();

    let done = framer.push_chunk(b"GET /test HTTP/1.1\r\nHost: localhost\r\n\r\nExtra body maybe");

    assert!(done);
    let text = framer.text();
    assert!(text.contains("GET /test HTTP/1.1"));
    assert!(text.contains("Host: localhost"));
    assert!(text.contains("\r\n\r\n"));
}

#[test]
fn framer_waits_for_terminator() {
    let mut framer = RequestFramer::new();

    assert!(!framer.push_chunk(b"GET /incomplete HTTP/1.1\r\nHost: test"));
}

#[test]
fn framer_detects_terminator_split_across_reads() {
    // The marker bytes are delivered half in one chunk, half in the next
    let mut framer = RequestFramer::new();

    assert!(!framer.push_chunk(b"GET /big HTTP/1.1\r"));
    assert!(!framer.push_chunk(b"\n\r"));
    assert!(framer.push_chunk(b"\n"));

    assert_eq!(framer.text(), "GET /big HTTP/1.1\r\n\r\n");
}

#[test]
fn framer_detects_terminator_at_start() {
    let mut framer = RequestFramer::new();

    assert!(framer.push_chunk(b"\r\n\r\n"));
    assert_eq!(framer.text(), "\r\n\r\n");
}

#[test]
fn framer_reports_eof_when_peer_closes_early() {
    let mut framer = RequestFramer::new();

    let step = framer.on_read(ReadEvent::Data(b"GET /incomplete HTTP/1.1\r\nHost: test".to_vec()));
    assert!(matches!(step, Ok(false)));

    let step = framer.on_read(ReadEvent::Closed);
    assert!(matches!(step, Err(HttpError::UnexpectedEof)));
}

#[test]
fn framer_completes_through_read_events() {
    let mut framer = RequestFramer::new();

    assert!(matches!(framer.on_read(ReadEvent::Data(b"GET / HTTP/1.1".to_vec())), Ok(false)));
    assert!(matches!(framer.on_read(ReadEvent::Data(b"\r\n\r\n".to_vec())), Ok(true)));
    assert_eq!(framer.text(), "GET / HTTP/1.1\r\n\r\n");
}

#[test]
fn framer_text_replaces_invalid_bytes() {
    let mut framer = RequestFramer::new();

    framer.push_chunk(&[0x47, 0x45, 0x54, 0xff]);

    assert_eq!(framer.text(), "GET\u{fffd}");
}
