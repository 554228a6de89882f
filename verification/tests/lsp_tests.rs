use red::framing::{decode_message, encode_message, Frame, FrameError};
use red::lsp::{
    classify, dispatch, path_of_uri, response_result, uri_of, Incoming, Lsp, LspError,
    MessageFields, Received,
};

#[test]
fn frame_has_header_and_body() {
    assert_eq!(encode_message(b"{}"), b"Content-Length: 2\r\n\r\n{}".to_vec());
    assert_eq!(encode_message(b""), b"Content-Length: 0\r\n\r\n".to_vec());
    let body = vec![b'x'; 1234];
    let message = encode_message(&body);
    assert!(message.starts_with(b"Content-Length: 1234\r\n\r\n"));
    assert_eq!(message.len(), 24 + 1234);
}

fn message(frame: Frame) -> (Vec<u8>, usize) {
    match frame {
        Frame::Message { body, consumed } => (body, consumed),
        other => panic!("no message: {:?}", other),
    }
}

#[test]
fn decode_reads_what_encode_wrote() {
    for body in ["", "{}", "{\"jsonrpc\":\"2.0\",\"id\":1}", "\u{e9}\r\n\r\nContent-Length: 3"] {
        let mut stream = encode_message(body.as_bytes());
        let written = stream.len();
        stream.extend_from_slice(b"Content-Length: 1\r\n\r\nx");
        let (read, consumed) = message(decode_message(&stream));
        assert_eq!(read, body.as_bytes());
        assert_eq!(consumed, written);
        let (next, rest) = message(decode_message(&stream[consumed..]));
        assert_eq!(next, b"x");
        assert_eq!(consumed + rest, stream.len());
    }
}

#[test]
fn decode_takes_other_headers_and_the_last_length() {
    let stream = b"Content-Type: application/json\r\nContent-Length: 9\r\nContent-Length: +02\r\n\r\nabcdef";
    let (body, consumed) = message(decode_message(stream));
    assert_eq!(body, b"ab");
    assert_eq!(consumed, stream.len() - 4);
}

fn is_incomplete(frame: Frame) -> bool {
    matches!(frame, Frame::Incomplete)
}

fn error_of(frame: Frame) -> Option<FrameError> {
    match frame {
        Frame::Malformed(e) => Some(e),
        _ => None,
    }
}

#[test]
fn decode_waits_for_more() {
    assert!(is_incomplete(decode_message(b"")));
    assert!(is_incomplete(decode_message(b"Content-Length: 5")));
    assert!(is_incomplete(decode_message(b"Content-Length: 5\r\n")));
    assert!(is_incomplete(decode_message(b"Content-Length: 5\r\n\r\nabcd")));
    assert!(!is_incomplete(decode_message(b"Content-Length: 5\r\n\r\nabcde")));
}

#[test]
fn decode_tells_what_is_wrong() {
    assert_eq!(error_of(decode_message(b"Content-Length: 5\n\nabcde")), Some(FrameError::BadLineEnd));
    assert_eq!(error_of(decode_message(b"\nrest")), Some(FrameError::BadLineEnd));
    assert_eq!(error_of(decode_message(b"Content-Length 5\r\n\r\n")), Some(FrameError::BadHeader));
    assert_eq!(error_of(decode_message(b"Content-Length:5\r\n\r\n")), Some(FrameError::BadHeader));
    assert_eq!(error_of(decode_message(b"Content-Length: five\r\n\r\n")), Some(FrameError::BadLength));
    assert_eq!(error_of(decode_message(b"Content-Length: \r\n\r\n")), Some(FrameError::BadLength));
    assert_eq!(error_of(decode_message(b"Content-Length: -1\r\n\r\n")), Some(FrameError::BadLength));
    assert_eq!(
        error_of(decode_message(b"Content-Length: 99999999999999999999999999\r\n\r\n")),
        Some(FrameError::BadLength)
    );
    assert_eq!(error_of(decode_message(b"\r\nbody")), Some(FrameError::MissingLength));
    assert_eq!(error_of(decode_message(b"A: b\r\n\r\nbody")), Some(FrameError::MissingLength));
}

#[test]
fn ids_count_up_from_one() {
    let mut lsp = Lsp::new();
    assert!(!lsp.is_ready());
    assert_eq!(lsp.get_next_id(), 1);
    assert_eq!(lsp.get_next_id(), 2);
    assert_eq!(lsp.get_next_id(), 3);
    lsp.next_id = usize::MAX;
    assert_eq!(lsp.get_next_id(), usize::MAX);
    assert_eq!(lsp.get_next_id(), 0);
}

#[test]
fn requests_wait_for_the_handshake() {
    let mut lsp = Lsp::new();
    lsp.start("python");
    assert_eq!(lsp.lang, "python");
    assert!(matches!(lsp.begin_request(), Err(LspError::NotReady)));
    assert_eq!(lsp.next_id, 1);
    assert_eq!(lsp.begin_init(), 0);
    assert_eq!(lsp.pending, vec![0]);
    lsp.finish_init();
    assert!(lsp.is_ready());
    assert!(lsp.pending.is_empty());

    let first = lsp.begin_request().unwrap();
    let second = lsp.begin_request().unwrap();
    assert_eq!((first, second), (1, 2));
    assert_eq!(lsp.pending, vec![1, 2]);

    let answer = "{\"jsonrpc\":\"2.0\",\"id\":1,\"result\":{\"items\":[1,2]}}";
    assert_eq!(lsp.finish_request(1, Some(answer)).unwrap(), "{\"items\":[1,2]}");
    assert_eq!(lsp.pending, vec![2]);
    assert!(matches!(lsp.finish_request(2, None), Err(LspError::NoResponse)));
    assert!(lsp.pending.is_empty());
}

#[test]
fn responses_are_told_apart() {
    let mut lsp = Lsp::new();
    lsp.finish_init();
    let id = lsp.begin_request().unwrap();
    assert!(matches!(lsp.finish_request(id, Some("not json")), Err(LspError::BadResponse)));
    assert!(matches!(
        lsp.finish_request(id, Some("{\"id\":1,\"result\":1}")),
        Err(LspError::BadResponse)
    ));
    assert!(matches!(
        lsp.finish_request(id, Some("{\"jsonrpc\":\"2.0\",\"result\":1}")),
        Err(LspError::BadResponse)
    ));
    assert!(matches!(
        lsp.finish_request(id, Some("{\"jsonrpc\":\"2.0\",\"id\":1}")),
        Err(LspError::MissingResult)
    ));
    assert!(matches!(
        lsp.finish_request(id, Some("{\"jsonrpc\":\"2.0\",\"id\":1,\"result\":null}")),
        Err(LspError::MissingResult)
    ));
    match lsp.finish_request(
        id,
        Some("{\"jsonrpc\":\"2.0\",\"id\":1,\"error\":{\"code\":-32601,\"message\":\"no\"}}"),
    ) {
        Err(LspError::Server(e)) => assert_eq!(e, "{\"code\":-32601,\"message\":\"no\"}"),
        other => panic!("{:?}", other),
    }
    assert_eq!(
        lsp.finish_request(id, Some("{\"jsonrpc\":\"2.0\",\"id\":1,\"error\":null,\"result\":[]}"))
            .unwrap(),
        "[]"
    );
}

fn fields() -> MessageFields {
    MessageFields {
        jsonrpc: Some("2.0".to_string()),
        has_id: true,
        id: Some(7),
        method: None,
        params: None,
        result: Some("true".to_string()),
        error: None,
    }
}

#[test]
fn classify_and_result_on_given_members() {
    match classify(&fields(), "body") {
        Incoming::Response { id, body } => assert_eq!((id, body.as_str()), (7, "body")),
        other => panic!("{:?}", other),
    }
    let mut note = fields();
    note.id = None;
    note.has_id = false;
    note.method = Some("textDocument/publishDiagnostics".to_string());
    note.params = Some("{\"uri\":\"file:///a\"}".to_string());
    match classify(&note, "whole") {
        Incoming::Diagnostics { params } => assert_eq!(params, "{\"uri\":\"file:///a\"}"),
        other => panic!("{:?}", other),
    }
    note.params = None;
    assert!(matches!(classify(&note, ""), Incoming::Other));
    note.params = Some("1".to_string());
    note.method = Some("window/logMessage".to_string());
    assert!(matches!(classify(&note, ""), Incoming::Other));

    assert_eq!(response_result(&fields()).unwrap(), "true");
    let mut bad = fields();
    bad.error = Some("\"boom\"".to_string());
    assert!(matches!(response_result(&bad), Err(LspError::Server(_))));
}

#[test]
fn dispatch_reads_the_message() {
    match dispatch("{\"jsonrpc\":\"2.0\",\"id\":12,\"result\":null}").unwrap() {
        Incoming::Response { id, .. } => assert_eq!(id, 12),
        other => panic!("{:?}", other),
    }
    match dispatch(
        "{\"jsonrpc\":\"2.0\",\"method\":\"textDocument/publishDiagnostics\",\"params\":{\"diagnostics\":[]}}",
    )
    .unwrap()
    {
        Incoming::Diagnostics { params } => assert_eq!(params, "{\"diagnostics\":[]}"),
        other => panic!("{:?}", other),
    }
    assert!(matches!(dispatch("{\"method\":\"x\",\"id\":\"seven\"}").unwrap(), Incoming::Other));
    assert!(dispatch("{").is_none());
}

#[test]
fn documents_open_once_and_count_versions() {
    let mut lsp = Lsp::new();
    assert!(lsp.did_open("/a.py"));
    assert!(!lsp.did_open("/a.py"));
    assert!(lsp.did_open("/b.py"));
    assert_eq!(lsp.get_next_version("/a.py"), 0);
    assert_eq!(lsp.get_next_version("/a.py"), 1);
    assert_eq!(lsp.get_next_version("/b.py"), 0);
    assert_eq!(lsp.get_next_version("/a.py"), 2);
    assert!(lsp.did_close("/a.py"));
    assert!(!lsp.did_close("/a.py"));
    assert!(!lsp.did_close("/never"));
    assert!(lsp.did_open("/a.py"));
}

#[test]
fn addresses_and_paths() {
    assert_eq!(uri_of("/home/u/a.rs"), "file:///home/u/a.rs");
    assert_eq!(path_of_uri("file:///home/u/a.rs"), Some("/home/u/a.rs".to_string()));
    assert_eq!(path_of_uri("xfile://a file://b"), Some("a ".to_string()));
    assert_eq!(path_of_uri("file://"), Some("".to_string()));
    assert_eq!(path_of_uri("/plain/path"), None);
}

#[test]
fn the_reader_takes_one_message_at_a_time() {
    let mut lsp = Lsp::new();
    lsp.finish_init();
    let id = lsp.begin_request().unwrap();

    let answer = format!("{{\"jsonrpc\":\"2.0\",\"id\":{},\"result\":null}}", id);
    let mut stream = encode_message(answer.as_bytes());
    let first = stream.len();
    let told = "{\"method\":\"textDocument/publishDiagnostics\",\"params\":{\"uri\":\"u\"}}";
    stream.extend_from_slice(&encode_message(told.as_bytes()));

    assert!(matches!(lsp.receive(&stream[..10]), Received::Incomplete));
    assert!(matches!(lsp.receive(&stream[..first - 1]), Received::Incomplete));
    match lsp.receive(&stream) {
        Received::Message { consumed, incoming: Incoming::Response { id: got, body }, expected } => {
            assert_eq!(consumed, first);
            assert_eq!(got, id);
            assert_eq!(body, answer);
            assert!(expected);
        }
        other => panic!("{:?}", other),
    }
    match lsp.receive(&stream[first..]) {
        Received::Message { consumed, incoming: Incoming::Diagnostics { params }, expected } => {
            assert_eq!(consumed, stream.len() - first);
            assert_eq!(params, "{\"uri\":\"u\"}");
            assert!(!expected);
        }
        other => panic!("{:?}", other),
    }

    // an answer that nothing waits for
    let late = encode_message(b"{\"id\":77,\"result\":1}");
    assert!(matches!(
        lsp.receive(&late),
        Received::Message { incoming: Incoming::Response { id: 77, .. }, expected: false, .. }
    ));
    let other = encode_message(b"{\"method\":\"window/logMessage\"}");
    assert!(matches!(lsp.receive(&other), Received::Message { incoming: Incoming::Other, .. }));

    let no_text = encode_message(&[0xff, 0xfe, 0x7b]);
    assert!(matches!(lsp.receive(&no_text), Received::NotText(n) if n == no_text.len()));
    let no_json = encode_message(b"{oops");
    assert!(matches!(lsp.receive(&no_json), Received::NotJson(n) if n == no_json.len()));
    assert!(matches!(lsp.receive(b"Content-Length: x\r\n\r\n"), Received::Malformed(_)));
    assert!(matches!(lsp.receive(b""), Received::Incomplete));
}

#[test]
fn members_are_read_by_their_names() {
    let answer = red::lsp::read_fields(r#"{"jsonrpc":"2.0","id":7,"result":{"a":[1,2]}}"#).unwrap();
    assert_eq!(answer.jsonrpc.as_deref(), Some("2.0"));
    assert!(answer.has_id);
    assert_eq!(answer.id, Some(7));
    assert_eq!(answer.method, None);
    assert_eq!(answer.params, None);
    assert_eq!(answer.result.as_deref(), Some(r#"{"a":[1,2]}"#));
    assert_eq!(answer.error, None);

    let note = red::lsp::read_fields(
        r#"{"jsonrpc":"2.0","method":"textDocument/publishDiagnostics","params":{"uri":"file:///a"}}"#,
    )
    .unwrap();
    assert!(!note.has_id);
    assert_eq!(note.id, None);
    assert_eq!(note.method.as_deref(), Some("textDocument/publishDiagnostics"));
    assert_eq!(note.params.as_deref(), Some(r#"{"uri":"file:///a"}"#));

    // an id that is no unsigned number is there, but gives no number
    let named = red::lsp::read_fields(r#"{"id":"seven","error":null,"method":5}"#).unwrap();
    assert!(named.has_id);
    assert_eq!(named.id, None);
    assert_eq!(named.error.as_deref(), Some("null"));
    assert_eq!(named.method, None);
    assert_eq!(named.jsonrpc, None);

    // a value that is no object has no members
    let list = red::lsp::read_fields("[1, 2]").unwrap();
    assert!(!list.has_id);
    assert_eq!(list.result, None);

    assert!(red::lsp::read_fields("not json").is_none());
    assert!(red::lsp::read_fields("").is_none());
}
