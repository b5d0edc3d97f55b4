use eye_cameras::connection::{Connection, ConnectionStep};
use eye_cameras::http::{
    fixed_response, is_unexpected, more_headers, multipart_head, multipart_part, request_path,
    requested_route, route, single_response, Route, SendError,
};
use eye_cameras::server::{peer_closed, Eye, EyeCameraServer, Peek, WaitEvent, WaitStep};
use eye_cameras::text::{chars_of, is_white_space, push_decimal, push_text};

#[test]
fn white_space_is_that_of_unicode() {
    for c in '\0'..=char::MAX {
        assert_eq!(is_white_space(c), c.is_whitespace(), "{c:?}");
    }
}

#[test]
fn decimal_digits() {
    for n in [0, 9, 10, 99, 100, 320_800, 1_000_000_007, usize::MAX] {
        let mut out = vec![1u8];
        push_decimal(&mut out, n);
        assert_eq!(out[0], 1);
        assert_eq!(&out[1..], n.to_string().as_bytes());
    }
}

#[test]
fn texts_and_their_characters() {
    assert_eq!(chars_of("aß\u{1f600}"), vec!['a', 'ß', '\u{1f600}']);
    let mut out = vec![1u8];
    push_text(&mut out, "aß");
    assert_eq!(out, vec![1, 97, 0xc3, 0x9f]);
}

#[test]
fn paths_of_request_lines() {
    for line in [
        "GET /left.jpg HTTP/1.1\r\n",
        "  GET\t/x  ",
        "GET",
        "GET ",
        "",
        "   ",
        "GET /a",
        "GET\u{2003}/Ä b",
        "a b c d",
    ] {
        let expected = line.split_whitespace().nth(1).unwrap_or("/");
        assert_eq!(request_path(line), expected, "{line:?}");
    }
}

#[test]
fn routes() {
    for (path, expected) in [
        ("/left.mjpg", Route::Multipart(Eye::Left)),
        ("/left.mjpeg", Route::Multipart(Eye::Left)),
        ("/right.mjpg", Route::Multipart(Eye::Right)),
        ("/right.mjpeg", Route::Multipart(Eye::Right)),
        ("/left.jpg", Route::Single(Eye::Left)),
        ("/left.jpeg", Route::Single(Eye::Left)),
        ("/right.jpg", Route::Single(Eye::Right)),
        ("/right.jpeg", Route::Single(Eye::Right)),
        ("/", Route::Index),
        ("/left.png", Route::NotFound),
        ("/LEFT.JPG", Route::NotFound),
        ("", Route::NotFound),
    ] {
        assert_eq!(route(&path.to_string()), expected, "{path}");
    }
}

#[test]
fn requests_are_matched_in_any_case() {
    assert_eq!(
        requested_route("GET /LEFT.MjPg HTTP/1.1\r\n"),
        Route::Multipart(Eye::Left)
    );
    assert_eq!(requested_route("get /Right.JPEG HTTP/1.1\r\n"), Route::Single(Eye::Right));
    assert_eq!(requested_route("\r\n"), Route::Index);
    assert_eq!(requested_route("GET /favicon.ico HTTP/1.1\r\n"), Route::NotFound);
    assert_eq!(requested_route("GET /R\u{130}GHT.JPG HTTP/1.1\r\n"), Route::NotFound);
}

#[test]
fn headers_end_with_a_blank_line() {
    assert!(more_headers(Some(12), "Host: here\r\n"));
    assert!(!more_headers(Some(2), "\r\n"));
    assert!(!more_headers(Some(4), " \t\r\n"));
    assert!(!more_headers(Some(0), "Host: here\r\n"));
    assert!(!more_headers(None, "Host: here\r\n"));
    assert!(!more_headers(Some(5), ""));
}

#[test]
fn clients_that_went_away_are_expected() {
    assert!(!is_unexpected(SendError::BrokenPipe));
    assert!(!is_unexpected(SendError::ConnectionReset));
    assert!(!is_unexpected(SendError::ConnectionAborted));
    assert!(is_unexpected(SendError::Other));
}

#[test]
fn fixed_responses() {
    assert_eq!(
        fixed_response(Route::Index).unwrap(),
        b"HTTP/1.1 200 OK\r\nContent-Type: text/plain\r\nConnection: close\r\n\r\nALVR eye cameras\n/left.mjpg\n/right.mjpg\n/left.jpg\n/right.jpg\n"
    );
    assert_eq!(
        fixed_response(Route::NotFound).unwrap(),
        b"HTTP/1.1 404 Not Found\r\nConnection: close\r\n\r\n"
    );
    assert_eq!(fixed_response(Route::Single(Eye::Left)), None);
    assert_eq!(fixed_response(Route::Multipart(Eye::Right)), None);
}

#[test]
fn multipart_responses() {
    assert_eq!(
        multipart_head(),
        b"HTTP/1.1 200 OK\r\nContent-Type: multipart/x-mixed-replace; boundary=alvr-eye-camera-frame\r\nCache-Control: no-cache, no-store\r\nPragma: no-cache\r\nConnection: close\r\n\r\n"
    );
    assert_eq!(
        multipart_part(&b"0123456789\r\n".to_vec()),
        b"--alvr-eye-camera-frame\r\nContent-Type: image/jpeg\r\nContent-Length: 12\r\n\r\n0123456789\r\n\r\n"
    );
}

#[test]
fn single_responses() {
    assert_eq!(
        single_response(Some(&b"abc".to_vec())),
        b"HTTP/1.1 200 OK\r\nContent-Type: image/jpeg\r\nContent-Length: 3\r\nCache-Control: no-cache, no-store\r\nConnection: close\r\n\r\nabc"
    );
    assert_eq!(
        single_response(None),
        b"HTTP/1.1 503 Service Unavailable\r\nConnection: close\r\n\r\n"
    );
}

#[test]
fn parts_read_back() {
    let frames: Vec<Vec<u8>> = vec![b"12".to_vec(), vec![], b"--alvr-eye-camera-frame\r\n".to_vec()];
    let stream: Vec<u8> = frames.iter().flat_map(multipart_part).collect();
    let start = b"--alvr-eye-camera-frame\r\nContent-Type: image/jpeg\r\nContent-Length: ";
    let mut rest = &stream[..];
    for frame in &frames {
        assert!(rest.starts_with(start));
        rest = &rest[start.len()..];
        let digits = rest.iter().take_while(|b| b.is_ascii_digit()).count();
        let len: usize = std::str::from_utf8(&rest[..digits]).unwrap().parse().unwrap();
        rest = &rest[digits + 4..];
        assert_eq!(&rest[..len], &frame[..]);
        rest = &rest[len + 2..];
    }
    assert!(rest.is_empty());
}

fn frame(step: WaitStep) -> (u64, Vec<u8>) {
    match step {
        WaitStep::Frame { sequence, jpeg } => (sequence, jpeg.to_vec()),
        _ => panic!("no frame"),
    }
}

#[test]
fn frames_reach_waiting_connections() {
    let mut server = EyeCameraServer::new();
    let started = WaitEvent::Started;
    assert!(matches!(server.wait_frame(0, Eye::Left, started), WaitStep::Wait));
    server.push_frame(vec![1], vec![2]);
    assert_eq!(frame(server.wait_frame(0, Eye::Left, WaitEvent::Woken)), (1, vec![1]));
    assert_eq!(frame(server.wait_frame(0, Eye::Right, WaitEvent::Woken)), (1, vec![2]));
    assert!(matches!(server.wait_frame(1, Eye::Left, started), WaitStep::Wait));
    let timed_out = WaitEvent::TimedOut { peer_closed: false };
    assert!(matches!(server.wait_frame(1, Eye::Left, timed_out), WaitStep::Wait));
    server.push_frame(vec![3], vec![4]);
    server.push_frame(vec![5], vec![6]);
    assert_eq!(frame(server.wait_frame(1, Eye::Right, timed_out)), (3, vec![6]));
}

#[test]
fn connections_give_up() {
    let mut server = EyeCameraServer::new();
    server.push_frame(vec![1], vec![2]);
    let closed = WaitEvent::TimedOut { peer_closed: true };
    assert!(matches!(server.wait_frame(0, Eye::Left, closed), WaitStep::GiveUp));
    assert!(matches!(server.wait_frame(1, Eye::Left, closed), WaitStep::GiveUp));
    server.shut_down();
    assert!(matches!(
        server.wait_frame(1, Eye::Left, WaitEvent::Woken),
        WaitStep::GiveUp
    ));
    // a frame that was not sent yet still is
    assert_eq!(frame(server.wait_frame(0, Eye::Left, WaitEvent::Woken)), (1, vec![1]));
}

fn requested(line: &str) -> Connection {
    let mut connection = Connection::new();
    assert!(matches!(connection.step, ConnectionStep::ReadRequest));
    connection.request_read(Some(line));
    assert!(matches!(connection.step, ConnectionStep::ReadHeader));
    connection.header_read(Some(12), "Host: here\r\n");
    assert!(matches!(connection.step, ConnectionStep::ReadHeader));
    connection.header_read(Some(2), "\r\n");
    connection
}

fn outgoing(connection: &Connection) -> Vec<u8> {
    match &connection.step {
        ConnectionStep::Send(bytes) => bytes.clone(),
        _ => panic!("nothing to send"),
    }
}

#[test]
fn stream_sends_each_frame_once() {
    let mut server = EyeCameraServer::new();
    let mut connection = requested("GET /Left.mjpg HTTP/1.1\r\n");
    assert_eq!(outgoing(&connection), multipart_head());
    connection.sent(Ok(()));
    let mut sent = Vec::new();
    for look in 0u8..6 {
        if look % 2 == 0 {
            server.push_frame(vec![look], vec![]);
        }
        let (eye, last_sequence) = match connection.step {
            ConnectionStep::AwaitFrame { eye, last_sequence } => (eye, last_sequence),
            _ => panic!("the connection does not wait"),
        };
        if let WaitStep::Frame { sequence, jpeg } =
            server.wait_frame(last_sequence, eye, WaitEvent::Woken)
        {
            connection.awaited(Some((sequence, &jpeg)));
            assert_eq!(outgoing(&connection), multipart_part(&jpeg));
            connection.sent(Ok(()));
            sent.push((sequence, jpeg[0]));
        }
    }
    assert_eq!(sent, vec![(1, 0), (2, 2), (3, 4)]);
    connection.awaited(None);
    assert!(matches!(connection.step, ConnectionStep::ShutDown { warn: false }));
}

#[test]
fn connection_gets_the_newest_frame() {
    let mut server = EyeCameraServer::new();
    for k in 0u8..5 {
        server.push_frame(vec![k], vec![k + 100]);
    }
    let woken = WaitEvent::Woken;
    assert_eq!(frame(server.wait_frame(2, Eye::Left, woken)), (5, vec![4]));
    assert_eq!(frame(server.wait_frame(0, Eye::Right, woken)), (5, vec![104]));
}

#[test]
fn single_request_gets_one_frame() {
    let mut connection = requested("GET /right.jpg HTTP/1.1\r\n");
    assert!(matches!(
        connection.step,
        ConnectionStep::AwaitFrame { eye: Eye::Right, last_sequence: 0 }
    ));
    connection.awaited(Some((9, &vec![1, 2])));
    assert_eq!(outgoing(&connection), single_response(Some(&vec![1, 2])));
    connection.sent(Ok(()));
    assert!(matches!(connection.step, ConnectionStep::ShutDown { warn: false }));

    let mut connection = requested("GET /right.jpg HTTP/1.1\r\n");
    connection.awaited(None);
    assert_eq!(outgoing(&connection), single_response(None));
    connection.sent(Ok(()));
    assert!(matches!(connection.step, ConnectionStep::ShutDown { warn: false }));
}

#[test]
fn other_requests_get_one_response() {
    for (line, route) in [("GET / HTTP/1.1\r\n", Route::Index), ("GET /x\r\n", Route::NotFound)] {
        let mut connection = requested(line);
        assert_eq!(outgoing(&connection), fixed_response(route).unwrap());
        connection.sent(Ok(()));
        assert!(matches!(connection.step, ConnectionStep::ShutDown { warn: false }));
    }
}

#[test]
fn connections_fail() {
    let mut connection = Connection::new();
    connection.request_read(None);
    assert!(matches!(connection.step, ConnectionStep::Leave));
    let mut connection = requested("GET /left.mjpg HTTP/1.1\r\n");
    connection.sent(Err(SendError::Other));
    assert!(matches!(connection.step, ConnectionStep::ShutDown { warn: true }));
    let mut connection = requested("GET /left.mjpg HTTP/1.1\r\n");
    connection.sent(Err(SendError::BrokenPipe));
    assert!(matches!(connection.step, ConnectionStep::ShutDown { warn: false }));
    let mut connection = Connection::new();
    connection.request_read(Some("GET / HTTP/1.1\r\n"));
    connection.header_read(None, "");
    assert_eq!(outgoing(&connection), fixed_response(Route::Index).unwrap());
}

#[test]
fn closed_peers() {
    assert!(peer_closed(Some(Peek::Bytes(0))));
    assert!(!peer_closed(Some(Peek::Bytes(1))));
    assert!(!peer_closed(Some(Peek::WouldBlock)));
    assert!(peer_closed(Some(Peek::Failed)));
    assert!(!peer_closed(None));
}
