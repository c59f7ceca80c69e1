use soclose::connection::{Action, ConnError, Connection, Event, REQUEST_PREFIX_LEN};
use soclose::decimal::decimal_bytes;
use soclose::head::{bytes_equal, render_head, set_header};
use soclose::server::{block_delay_for, SoCloseServer, BLOCK_SIZE};

const MIB: u64 = 1024 * 1024;
const SECOND: u64 = 1_000_000_000;

/// What a client that sends `request` and reads everything sees: the actions
/// asked for, and the bytes written.
fn serve(server: &SoCloseServer, request: &[u8]) -> (Vec<Action>, Vec<u8>) {
    let mut conn = Connection::new();
    let mut actions = Vec::new();
    let mut wire = Vec::new();
    let mut event = Event::Done;
    while !conn.is_finished() {
        let action = conn.step(server, event);
        event = match &action {
            Action::ReadRequest => {
                let n = request.len().min(REQUEST_PREFIX_LEN);
                Event::Received(request[..n].to_vec())
            }
            Action::Write(bytes) => {
                wire.extend_from_slice(bytes);
                Event::Done
            }
            Action::WriteBlock => {
                wire.extend_from_slice(&[0u8; BLOCK_SIZE as usize]);
                Event::Done
            }
            _ => Event::Done,
        };
        actions.push(action);
    }
    (actions, wire)
}

fn contains(hay: &[u8], needle: &[u8]) -> bool {
    hay.windows(needle.len()).any(|w| w == needle)
}

fn header(name: &str, value: &str) -> (Vec<u8>, Vec<u8>) {
    (name.as_bytes().to_vec(), value.as_bytes().to_vec())
}

#[test]
fn truncated_download_example() {
    let server = SoCloseServer::new(100 * MIB, 95 * MIB, None, 0, Vec::new(), Some(10 * SECOND));
    assert_eq!(server.block_count(), 95 * MIB / 8192);
    assert_eq!(server.block_count(), 12160);
    let (actions, wire) = serve(&server, b"GET / HTTP/1.1\r\n\r\n");
    assert!(matches!(actions.last(), Some(Action::Close)));
    let head = server.response_head().clone();
    assert!(contains(&head, b"\r\nContent-Length: 104857600\r\n"));
    assert_eq!(&wire[..head.len()], &head[..]);
    assert_eq!((wire.len() - head.len()) as u64, (95 * MIB / 8192) * 8192);
    assert!(wire[head.len()..].iter().all(|b| *b == 0));
}

#[test]
fn silent_client_gets_no_bytes() {
    let server = SoCloseServer::new(100, 0, None, 0, Vec::new(), Some(10 * SECOND));
    let mut conn = Connection::new();
    assert!(matches!(conn.step(&server, Event::Done), Action::SetDeadline(Some(d)) if d == 10 * SECOND));
    assert!(matches!(conn.step(&server, Event::Done), Action::ReadRequest));
    assert!(matches!(conn.step(&server, Event::Failed), Action::Abort(ConnError::Io)));
    assert!(conn.is_finished());
}

#[test]
fn no_deadline_is_passed_on() {
    let server = SoCloseServer::new(100, 0, None, 0, Vec::new(), None);
    let mut conn = Connection::new();
    assert!(matches!(conn.step(&server, Event::Done), Action::SetDeadline(None)));
}

#[test]
fn other_method_is_refused() {
    let server = SoCloseServer::new(100, 5 * 8192, None, 0, Vec::new(), None);
    let (actions, wire) = serve(&server, b"POST / HTTP/1.1\r\n\r\n");
    assert_eq!(wire, b"HTTP/1.1 405 Method Not Allowed\r\n\r\n".to_vec());
    assert_eq!(actions.len(), 4);
    assert!(matches!(actions.last(), Some(Action::Abort(ConnError::NotGet))));
}

#[test]
fn lower_case_get_is_refused() {
    let server = SoCloseServer::new(100, 8192, None, 0, Vec::new(), None);
    let (_, wire) = serve(&server, b"get /");
    assert_eq!(wire, b"HTTP/1.1 405 Method Not Allowed\r\n\r\n".to_vec());
}

#[test]
fn failed_refusal_is_an_io_error() {
    let server = SoCloseServer::new(100, 8192, None, 0, Vec::new(), None);
    let mut conn = Connection::new();
    conn.step(&server, Event::Done);
    conn.step(&server, Event::Done);
    assert!(matches!(conn.step(&server, Event::Received(b"PUT ".to_vec())), Action::Write(_)));
    assert!(matches!(conn.step(&server, Event::Failed), Action::Abort(ConnError::Io)));
}

#[test]
fn short_request_aborts_without_reply() {
    let server = SoCloseServer::new(100, 8192, None, 0, Vec::new(), None);
    let (actions, wire) = serve(&server, b"GE");
    assert!(wire.is_empty());
    assert!(matches!(actions.last(), Some(Action::Abort(ConnError::Io))));
}

#[test]
fn get_is_served_in_order() {
    let server = SoCloseServer::new(1000, 3 * 8192 + 100, Some(8192), 7, Vec::new(), None);
    assert_eq!(server.block_count(), 3);
    assert_eq!(server.block_delay(), SECOND);
    let (actions, wire) = serve(&server, b"GET /x");
    assert_eq!(actions.len(), 2 * 3 + 5);
    assert!(matches!(actions[0], Action::SetDeadline(None)));
    assert!(matches!(actions[1], Action::ReadRequest));
    assert!(matches!(&actions[2], Action::Write(h) if h == server.response_head()));
    for k in 0..3 {
        assert!(matches!(actions[3 + 2 * k], Action::WriteBlock));
        assert!(matches!(actions[4 + 2 * k], Action::Sleep(d) if d == SECOND));
    }
    assert!(matches!(actions[9], Action::Sleep(7)));
    assert!(matches!(actions[10], Action::Close));
    assert_eq!(wire.len(), server.response_head().len() + 3 * 8192);
}

#[test]
fn body_shorter_than_one_block_sends_head_only() {
    let server = SoCloseServer::new(50, 8191, None, 0, Vec::new(), None);
    assert_eq!(server.block_count(), 0);
    let (actions, wire) = serve(&server, b"GET ");
    assert_eq!(wire, server.response_head().clone());
    assert!(matches!(actions[3], Action::Sleep(0)));
    assert!(matches!(actions[4], Action::Close));
}

#[test]
fn write_failure_in_body_aborts() {
    let server = SoCloseServer::new(50, 4 * 8192, None, 0, Vec::new(), None);
    let mut conn = Connection::new();
    conn.step(&server, Event::Done);
    conn.step(&server, Event::Done);
    conn.step(&server, Event::Received(b"GET ".to_vec()));
    assert!(matches!(conn.step(&server, Event::Done), Action::WriteBlock));
    assert!(matches!(conn.step(&server, Event::Failed), Action::Abort(ConnError::Io)));
    assert!(conn.is_finished());
}

#[test]
fn head_write_failure_aborts() {
    let server = SoCloseServer::new(50, 4 * 8192, None, 0, Vec::new(), None);
    let mut conn = Connection::new();
    conn.step(&server, Event::Done);
    conn.step(&server, Event::Done);
    conn.step(&server, Event::Received(b"GET ".to_vec()));
    assert!(matches!(conn.step(&server, Event::Failed), Action::Abort(ConnError::Io)));
}

#[test]
fn content_length_overrides_given_one() {
    let headers = vec![header("Content-Length", "5"), header("X-Test", "a")];
    let server = SoCloseServer::new(12345, 0, None, 0, headers, None);
    let head = server.response_head().clone();
    assert!(contains(&head, b"Content-Length: 12345\r\n"));
    assert!(!contains(&head, b"Content-Length: 5\r\n"));
    assert!(contains(&head, b"X-Test: a\r\n"));
}

#[test]
fn declared_size_differs_from_sent() {
    let server = SoCloseServer::new(10, 2 * 8192, None, 0, Vec::new(), None);
    assert_eq!(
        server.response_head().clone(),
        b"HTTP/1.0 200 OK\r\nContent-Length: 10\r\n\r\n".to_vec()
    );
    let (_, wire) = serve(&server, b"GET ");
    assert_eq!(wire.len() - server.response_head().len(), 2 * 8192);
}

#[test]
fn last_duplicate_header_wins() {
    let headers = vec![header("X-A", "1"), header("X-A", "2")];
    let server = SoCloseServer::new(10, 0, None, 0, headers, None);
    assert_eq!(
        server.response_head().clone(),
        b"HTTP/1.0 200 OK\r\nX-A: 2\r\nContent-Length: 10\r\n\r\n".to_vec()
    );
}

#[test]
fn header_bytes_need_not_be_text() {
    let headers = vec![(vec![b'X'], vec![0xff, 0x00])];
    let server = SoCloseServer::new(1, 0, None, 0, headers, None);
    assert!(contains(server.response_head(), &[b'X', b':', b' ', 0xff, 0x00, b'\r', b'\n']));
}

#[test]
fn throttle_delays() {
    assert_eq!(block_delay_for(None), 0);
    assert_eq!(block_delay_for(Some(MIB)), 7_812_500);
    assert_eq!(block_delay_for(Some(1_000_000)), 8_192_000);
    assert_eq!(block_delay_for(Some(3)), 2_730_666_666_667);
    assert_eq!(block_delay_for(Some(0)), u64::MAX);
    let rate: u64 = 3;
    let d = block_delay_for(Some(rate)) as u128;
    assert!(d * rate as u128 >= 8192u128 * SECOND as u128);
    assert!((d - 1) * (rate as u128) < 8192u128 * SECOND as u128);
}

#[test]
fn no_throttle_means_no_pause() {
    let server = SoCloseServer::new(10, 8192, None, 0, Vec::new(), None);
    let (actions, _) = serve(&server, b"GET ");
    assert!(matches!(actions[4], Action::Sleep(0)));
}

#[test]
fn connections_are_independent() {
    let server = SoCloseServer::new(10, 2 * 8192, None, 0, Vec::new(), None);
    let mut stalled = Connection::new();
    let mut healthy = Connection::new();
    stalled.step(&server, Event::Done);
    healthy.step(&server, Event::Done);
    stalled.step(&server, Event::Done);
    healthy.step(&server, Event::Done);
    stalled.step(&server, Event::Received(b"GET ".to_vec()));
    assert!(matches!(stalled.step(&server, Event::Failed), Action::Abort(ConnError::Io)));
    assert!(matches!(healthy.step(&server, Event::Received(b"GET ".to_vec())), Action::Write(_)));
    assert!(matches!(healthy.step(&server, Event::Done), Action::WriteBlock));
    assert!(!healthy.is_finished());
    let (actions, _) = serve(&server, b"GET ");
    assert!(matches!(actions.last(), Some(Action::Close)));
}

#[test]
fn decimal_digits() {
    assert_eq!(decimal_bytes(0), b"0".to_vec());
    assert_eq!(decimal_bytes(9), b"9".to_vec());
    assert_eq!(decimal_bytes(10), b"10".to_vec());
    assert_eq!(decimal_bytes(104_857_600), b"104857600".to_vec());
    assert_eq!(decimal_bytes(u64::MAX), b"18446744073709551615".to_vec());
}

#[test]
fn header_list_editing() {
    let mut fields = vec![header("A", "1"), header("B", "2"), header("A", "3")];
    set_header(&mut fields, b"A".to_vec(), b"4".to_vec());
    assert_eq!(fields, vec![header("B", "2"), header("A", "4")]);
    assert_eq!(render_head(&fields), b"HTTP/1.0 200 OK\r\nB: 2\r\nA: 4\r\n\r\n".to_vec());
    assert_eq!(render_head(&Vec::new()), b"HTTP/1.0 200 OK\r\n\r\n".to_vec());
    assert!(bytes_equal(&b"ab".to_vec(), &b"ab".to_vec()));
    assert!(!bytes_equal(&b"ab".to_vec(), &b"ac".to_vec()));
    assert!(!bytes_equal(&b"ab".to_vec(), &b"abc".to_vec()));
}

#[test]
fn accessors_report_configuration() {
    let server = SoCloseServer::new(10, 8192 * 2 + 1, Some(8192), 3 * SECOND, Vec::new(), Some(SECOND));
    assert_eq!(server.block_count(), 2);
    assert_eq!(server.block_delay(), SECOND);
    assert_eq!(server.idle_after(), 3 * SECOND);
    assert_eq!(server.deadline(), Some(SECOND));
}
