use unixsockmon::{
    receive, Closing, ConnAction, ConnEvent, Connection, Framing, SendError, ServeAction, ServeEvent,
    ServePhase, Server, SockMonitor,
};

/// Brings a server up on a path where no file lies.
fn listening(path: &str, framing: Framing) -> Server {
    let mut server = SockMonitor::new(path).serve(framing);
    for event in [ServeEvent::Started, ServeEvent::Probed { present: false }, ServeEvent::Bound] {
        server = server.step(event).0;
    }
    assert_eq!(server.phase(), ServePhase::Listening);
    server
}

/// Has the server accept one connection.
fn accept(server: Server) -> (Server, Connection) {
    match server.step(ServeEvent::Accepted) {
        (server, ServeAction::Dispatch(conn)) => (server, conn),
        (_, other) => panic!("{:?} in place of a dispatch", other),
    }
}

/// Drives a connection whose peer sends `request` and then waits for the
/// response or, where `hangs_up` is set, closes its sending side. No read
/// returns more than `piece` bytes. Returns what was written back.
fn drive<H>(conn: Connection, request: &[u8], piece: usize, hangs_up: bool, handler: &H) -> Vec<u8>
where
    H: Fn(String) -> Result<String, String>,
{
    let mut conn = conn;
    let mut sent: usize = 0;
    let mut written: Vec<u8> = Vec::new();
    let mut event = ConnEvent::Opened;
    loop {
        let (next, action) = conn.step(event);
        conn = next;
        event = match action {
            ConnAction::Read { at_most } => {
                let left = request.len() - sent;
                if left == 0 {
                    assert!(hangs_up, "the server reads on after the whole request");
                    ConnEvent::EndOfStream
                } else {
                    let n = left.min(piece).min(at_most);
                    assert!(n > 0);
                    sent += n;
                    ConnEvent::Received(request[sent - n..sent].to_vec())
                }
            }
            ConnAction::Handle(request) => match handler(request) {
                Ok(reply) => ConnEvent::Replied(reply),
                Err(_) => ConnEvent::Failed,
            },
            ConnAction::Write(bytes) => {
                written.extend_from_slice(&bytes);
                ConnEvent::Written
            }
            ConnAction::Close(_) => return written,
        };
    }
}

/// One whole exchange: the server accepts, reads `request`, answers.
fn exchange<H>(server: Server, request: &[u8], piece: usize, handler: &H) -> (Server, Vec<u8>)
where
    H: Fn(String) -> Result<String, String>,
{
    let (server, conn) = accept(server);
    (server, drive(conn, request, piece, false, handler))
}

#[test]
fn test_mon_string() {
    let handler = |req: String| -> Result<String, String> {
        println!("{}", req);
        assert_eq!(req, "a fox jumps over the lazy dog");
        Ok("OK".to_string())
    };
    let server = listening("/tmp/mon-line.sock", Framing::Line);

    let client = SockMonitor::new("/tmp/mon-line.sock");
    let (server, up) = (std::cell::Cell::new(Some(server)), "/tmp/mon-line.sock");
    let transport = |path: &str, request: Vec<u8>| -> Result<Vec<u8>, String> {
        assert_eq!(path, up);
        let (next, response) = exchange(server.take().unwrap(), &request, 7, &handler);
        server.set(Some(next));
        Ok(response)
    };
    let resp = client.send_string("a fox jumps over the lazy dog\n", &transport);
    assert!(resp.is_ok());
    assert_eq!(resp.unwrap(), "OK");
    let resp = client.send_string("a fox jumps over the lazy dog", &transport);
    assert!(resp.is_ok());
    assert_eq!(resp.unwrap(), "OK");
}

#[test]
fn test_mon_bytes() {
    let handler = |req: String| -> Result<String, String> {
        println!("{}", req);
        assert_eq!(req, "a fox jumps over the lazy dog");
        Ok("OK".to_string())
    };
    let server = listening("/tmp/mon-bytes.sock", Framing::LengthPrefixed);

    let client = SockMonitor::new("/tmp/mon-bytes.sock");
    let msg = "a fox jumps over the lazy dog";
    let resp = client.send_bytes(msg.as_bytes(), |path: &str, request: Vec<u8>| -> Result<Vec<u8>, String> {
        assert_eq!(path, "/tmp/mon-bytes.sock");
        Ok(exchange(server, &request, 8192, &handler).1)
    });
    assert!(resp.is_ok());
    assert_eq!(resp.unwrap(), "OK");
}

/// Sends `msg` by both strategies to a server whose handler is `handler`,
/// with reads of at most `piece` bytes, and returns both replies.
fn both_ways<H>(msg: &str, piece: usize, handler: &H) -> [Result<String, SendError<String>>; 2]
where
    H: Fn(String) -> Result<String, String>,
{
    let mon = SockMonitor::new("/tmp/mon.sock");
    let by_line = mon.send_string(msg, |_: &str, request: Vec<u8>| -> Result<Vec<u8>, String> {
        Ok(exchange(listening("/tmp/mon.sock", Framing::Line), &request, piece, handler).1)
    });
    let by_length = mon.send_bytes(msg.as_bytes(), |_: &str, request: Vec<u8>| -> Result<Vec<u8>, String> {
        Ok(exchange(listening("/tmp/mon.sock", Framing::LengthPrefixed), &request, piece, handler).1)
    });
    [by_line, by_length]
}

#[test]
fn handler_receives_what_was_sent() {
    let seen = std::cell::RefCell::new(Vec::new());
    let handler = |req: String| -> Result<String, String> {
        seen.borrow_mut().push(req);
        Ok(String::new())
    };
    let messages = ["", "x", "a fox jumps over the lazy dog", "tab\tand\rreturn", "sn\u{f6} \u{2603} \u{1F600}"];
    for msg in messages {
        for piece in [1usize, 2, 3, 5, 8192] {
            seen.borrow_mut().clear();
            for reply in both_ways(msg, piece, &handler) {
                assert_eq!(reply, Ok(String::new()));
            }
            assert_eq!(*seen.borrow(), vec![msg.to_string(), msg.to_string()]);
        }
    }
}

#[test]
fn handler_receives_the_line_without_the_senders_newline() {
    let handler = |req: String| -> Result<String, String> { Ok(format!("<{}>", req)) };
    let mon = SockMonitor::new("/tmp/mon.sock");
    for msg in ["", "ping", "\u{2603}"] {
        let with = format!("{}\n", msg);
        for sent in [msg, with.as_str()] {
            let reply = mon.send_string(sent, |_: &str, request: Vec<u8>| -> Result<Vec<u8>, String> {
                Ok(exchange(listening("/tmp/mon.sock", Framing::Line), &request, 4, &handler).1)
            });
            assert_eq!(reply, Ok(format!("<{}>", msg)));
        }
    }
}

#[test]
fn framed_request_keeps_its_newlines() {
    let handler = |req: String| -> Result<String, String> { Ok(format!("<{}>", req)) };
    let mon = SockMonitor::new("/tmp/mon.sock");
    let reply = mon.send_bytes(b"two\nlines\n", |_: &str, request: Vec<u8>| -> Result<Vec<u8>, String> {
        Ok(exchange(listening("/tmp/mon.sock", Framing::LengthPrefixed), &request, 3, &handler).1)
    });
    assert_eq!(reply, Ok("<two\nlines\n>".to_string()));
}

#[test]
fn client_receives_the_reply_exactly() {
    for reply in ["OK", "", "two\nlines\n", " padded ", "sn\u{f6} \u{2603}", "ERR"] {
        let handler = |_: String| -> Result<String, String> { Ok(reply.to_string()) };
        for got in both_ways("anything", 8192, &handler) {
            assert_eq!(got, Ok(reply.to_string()));
        }
    }
}

#[test]
fn client_receives_the_sentinel_on_failure() {
    let handler = |req: String| -> Result<String, String> { Err(format!("cannot do {}", req)) };
    for got in both_ways("anything", 8192, &handler) {
        assert_eq!(got, Ok("ERR".to_string()));
    }
}

#[test]
fn both_strategies_return_ok() {
    let handler = |_: String| -> Result<String, String> { Ok("OK".to_string()) };
    for got in both_ways("a fox jumps over the lazy dog", 8192, &handler) {
        assert_eq!(got, Ok("OK".to_string()));
    }
}

#[test]
fn truncated_request_never_reaches_the_handler() {
    let handler = |req: String| -> Result<String, String> {
        panic!("the handler was asked for {:?}", req)
    };
    let whole = unixsockmon::wire::encode_framed(b"a fox jumps over the lazy dog");
    for kept in 0..whole.len() {
        for piece in [1usize, 4, 8192] {
            let (server, conn) = accept(listening("/tmp/mon.sock", Framing::LengthPrefixed));
            let written = drive(conn, &whole[..kept], piece, true, &handler);
            assert_eq!(written, Vec::<u8>::new());
            assert_eq!(receive::<String>(Ok(written)), Ok(String::new()));
            assert_eq!(server.phase(), ServePhase::Listening);
        }
    }
}

#[test]
fn server_goes_on_after_a_bad_request() {
    let handler = |req: String| -> Result<String, String> { Ok(format!("echo:{}", req)) };
    let server = listening("/tmp/mon.sock", Framing::LengthPrefixed);
    let (server, conn) = accept(server);
    assert_eq!(drive(conn, &[0, 0, 0, 9, b'x'], 8192, true, &handler), Vec::<u8>::new());
    let (server, conn) = accept(server);
    assert_eq!(drive(conn, &[0, 0, 0, 1, 0xFF], 8192, false, &handler), Vec::<u8>::new());
    let (server, response) = exchange(server, &[0, 0, 0, 2, b'h', b'i'], 8192, &handler);
    assert_eq!(response, b"echo:hi".to_vec());
    assert_eq!(server.phase(), ServePhase::Listening);
}

#[test]
fn interleaved_clients_get_their_own_replies() {
    let handler = |req: String| -> Result<String, String> { Ok(format!("echo:{}", req)) };
    let mon = SockMonitor::new("/tmp/mon.sock");
    let mut server = listening("/tmp/mon.sock", Framing::Line);

    // Twenty clients connect before any of them is served.
    let mut requests: Vec<Vec<u8>> = Vec::new();
    let mut conns: Vec<Option<Connection>> = Vec::new();
    for n in 1..=20 {
        requests.push(unixsockmon::wire::encode_line(&format!("ping-{}", n)));
        let (next, conn) = accept(server);
        server = next;
        conns.push(Some(conn));
    }

    // Their connections advance in turn, one step and at most three bytes
    // at a time, the later ones first.
    let mut sent = vec![0usize; 20];
    let mut events: Vec<Option<ConnEvent>> = (0..20).map(|_| Some(ConnEvent::Opened)).collect();
    let mut responses: Vec<Vec<u8>> = vec![Vec::new(); 20];
    let mut open = 20;
    while open > 0 {
        for i in (0..20).rev() {
            let Some(event) = events[i].take() else { continue };
            let (next, action) = conns[i].take().unwrap().step(event);
            conns[i] = Some(next);
            events[i] = match action {
                ConnAction::Read { at_most } => {
                    let n = (requests[i].len() - sent[i]).min(3).min(at_most);
                    assert!(n > 0);
                    sent[i] += n;
                    Some(ConnEvent::Received(requests[i][sent[i] - n..sent[i]].to_vec()))
                }
                ConnAction::Handle(request) => Some(match handler(request) {
                    Ok(reply) => ConnEvent::Replied(reply),
                    Err(_) => ConnEvent::Failed,
                }),
                ConnAction::Write(bytes) => {
                    responses[i].extend_from_slice(&bytes);
                    Some(ConnEvent::Written)
                }
                ConnAction::Close(why) => {
                    assert_eq!(why, Closing::Answered);
                    open -= 1;
                    None
                }
            };
        }
    }

    for (i, response) in responses.into_iter().enumerate() {
        let msg = format!("ping-{}", i + 1);
        let reply = mon.send_string(&msg, |_: &str, request: Vec<u8>| -> Result<Vec<u8>, String> {
            assert_eq!(request, requests[i]);
            Ok(response)
        });
        assert_eq!(reply, Ok(format!("echo:ping-{}", i + 1)));
    }
}

#[test]
fn transport_gets_the_path_and_the_request() {
    let mon = SockMonitor::new("/run/some where/mon.sock");
    let reply = mon.send_string("hello", |path: &str, request: Vec<u8>| -> Result<Vec<u8>, String> {
        assert_eq!(path, "/run/some where/mon.sock");
        assert_eq!(request, b"hello\n".to_vec());
        Ok(b"world".to_vec())
    });
    assert_eq!(reply, Ok("world".to_string()));
    let reply = mon.send_bytes(b"hello", |path: &str, request: Vec<u8>| -> Result<Vec<u8>, String> {
        assert_eq!(path, "/run/some where/mon.sock");
        assert_eq!(request, vec![0, 0, 0, 5, b'h', b'e', b'l', b'l', b'o']);
        Ok(b"world".to_vec())
    });
    assert_eq!(reply, Ok("world".to_string()));
}

#[test]
fn transport_error_is_passed_on() {
    let mon = SockMonitor::new("/tmp/nobody-listens.sock");
    let reply = mon.send_string("hello", |_: &str, _: Vec<u8>| -> Result<Vec<u8>, String> {
        Err("connection refused".to_string())
    });
    assert_eq!(reply, Err(SendError::Transport("connection refused".to_string())));
    let reply = mon.send_bytes(b"hello", |_: &str, _: Vec<u8>| -> Result<Vec<u8>, u32> { Err(111) });
    assert_eq!(reply, Err(SendError::Transport(111)));
}

#[test]
fn response_that_is_not_text_is_a_decode_error() {
    let mon = SockMonitor::new("/tmp/mon.sock");
    let reply = mon.send_string("hello", |_: &str, _: Vec<u8>| -> Result<Vec<u8>, String> {
        Ok(vec![b'O', b'K', 0xFF])
    });
    assert_eq!(reply, Err(SendError::Decode));
    let reply = mon.send_bytes(b"hello", |_: &str, _: Vec<u8>| -> Result<Vec<u8>, String> {
        Ok(vec![0xE2, 0x98])
    });
    assert_eq!(reply, Err(SendError::Decode));
}

#[test]
fn receive_makes_text_of_bytes() {
    assert_eq!(receive::<String>(Ok(b"OK".to_vec())), Ok("OK".to_string()));
    assert_eq!(receive::<String>(Ok(Vec::new())), Ok(String::new()));
    assert_eq!(receive::<String>(Ok(vec![0xE2, 0x98, 0x83])), Ok("\u{2603}".to_string()));
    assert_eq!(receive::<String>(Ok(vec![0x80])), Err(SendError::Decode));
    assert_eq!(receive(Err("gone".to_string())), Err(SendError::Transport("gone".to_string())));
}
