use index_enclave::codec::{
    assemble_head, build_head, check_value, decode, frame_head, now, HttpCodec, LastRenderedNow,
};
use index_enclave::request::{check_visible, has_header, header_value, RawRequest};
use index_enclave::response::Response;
use index_enclave::results::{Error, ErrorKind};
use index_enclave::wire::{RawHead, Version};

const SERVER: &str = "index.teggle.io/v1beta1";

fn raw(bytes: &[u8]) -> RawRequest {
    RawRequest::new(bytes.to_vec(), 1_000).expect("decodes")
}

#[test]
fn decodes_a_request_without_body() {
    let r = raw(b"GET /ping?x=1 HTTP/1.1\r\nHost: example.org\r\nX-Mixed-Case: Yes\r\n\r\n");
    assert!(r.ready());
    assert_eq!(r.len(), 64);
    assert!(!r.is_upgrade_websocket());
    assert!(!r.is_upgrade_keepalive());
    assert!(r.validate(10).is_ok());
    let req = r.extract().expect("request");
    assert_eq!(req.method(), &b"GET".to_vec());
    assert_eq!(req.uri(), &b"/ping?x=1".to_vec());
    assert_eq!(req.path(), &b"/ping".to_vec());
    assert_eq!(req.version(), Version::Http11);
    assert_eq!(
        req.headers(),
        &vec![
            (b"host".to_vec(), b"example.org".to_vec()),
            (b"x-mixed-case".to_vec(), b"Yes".to_vec()),
        ]
    );
    assert!(req.body().is_empty());
    assert!(!req.is_websocket());
    assert!(req.should_keep_alive());
    assert_eq!(req.header(b"Host"), Some(&b"example.org".to_vec()));
    assert_eq!(req.header(b"missing"), None);
    assert!(req.has_header_value(b"x-mixed-case", b"yes"));
    assert!(!req.has_header_value(b"x-mixed-case", b"no"));
    assert_eq!(req.var(b"name"), None);
}

#[test]
fn gathers_head_and_body_in_pieces() {
    let mut r = raw(b"POST /test/post HTTP/1.1\r\nContent-Type: application/json\r\nContent-Le");
    assert!(!r.ready());
    assert!(r.validate(100).is_err());
    r.next(b"ngth: 24\r\n\r\n{\"name\":".to_vec()).expect("decodes");
    assert!(!r.ready());
    assert!(r.validate(24).is_ok());
    let too_large = r.validate(23).expect_err("too large");
    assert_eq!(too_large.kind(), ErrorKind::PayloadTooLarge);
    assert_eq!(too_large.message(), "too many bytes sent (24 > 23)");
    r.next(Vec::new()).expect("nothing new");
    assert!(!r.ready());
    r.next(b"\"x\",\"email\":\"y\"}".to_vec()).expect("body");
    assert!(r.ready());
    assert_eq!(r.len(), 68 + 20 + 16);
    let req = r.extract().expect("request");
    assert_eq!(req.body(), &b"{\"name\":\"x\",\"email\":\"y\"}".to_vec());
    assert_eq!(req.header(b"content-type"), Some(&b"application/json".to_vec()));
}

#[test]
fn validation_without_head_is_a_server_fault() {
    let r = raw(b"GET /pi");
    let e = r.validate(100).expect_err("no head");
    assert_eq!(e.kind(), ErrorKind::ServerFault);
    assert_eq!(e.message(), "request validation failed - no request object");
}

#[test]
fn invalid_bytes_are_a_decode_fault() {
    let e = RawRequest::new(b"GET /ping HTTP/2.0\r\n\r\n".to_vec(), 0).err().expect("fault");
    assert_eq!(e.kind(), ErrorKind::DecodeFault);
    assert_eq!(e.message(), "failed to parse http request: Version");
    let e = RawRequest::new(b"G\x00T / HTTP/1.1\r\n\r\n".to_vec(), 0).err().expect("fault");
    assert_eq!(e.kind(), ErrorKind::DecodeFault);
    assert_eq!(e.message(), "failed to parse http request: Token");
}

#[test]
fn sixteen_headers_fit_and_seventeen_do_not() {
    let mut text = String::from("GET / HTTP/1.1\r\n");
    for i in 0..16 {
        text.push_str(&format!("h{}: v\r\n", i));
    }
    let mut sixteen = text.clone();
    sixteen.push_str("\r\n");
    let req = raw(sixteen.as_bytes()).extract().expect("request");
    assert_eq!(req.headers().len(), 16);
    text.push_str("h16: v\r\n\r\n");
    let e = RawRequest::new(text.into_bytes(), 0).err().expect("fault");
    assert_eq!(e.kind(), ErrorKind::DecodeFault);
    assert_eq!(e.message(), "failed to parse http request: TooManyHeaders");
}

#[test]
fn decode_leaves_the_body_in_the_buffer() {
    let mut buf = bytes::BytesMut::from(&b"GET / HTTP/1.0\r\n\r\nrest"[..]);
    let head = decode(&mut buf).expect("ok").expect("complete").head.expect("head");
    assert_eq!(head.version, Version::Http10);
    assert_eq!(&buf[..], b"rest");
    let mut partial = bytes::BytesMut::from(&b"GET / HT"[..]);
    assert!(decode(&mut partial).expect("ok").is_none());
    assert_eq!(&partial[..], b"GET / HT");
    let codec = HttpCodec::new(SERVER);
    let mut again = bytes::BytesMut::from(&b"GET /x HTTP/1.1\r\n\r\n"[..]);
    assert!(codec.decode(&mut again).expect("ok").is_some());
    assert!(again.is_empty());
}

#[test]
fn build_head_checks_version_values_and_names() {
    let head = |version: u8, name: &[u8], value: &[u8], target: &[u8]| RawHead {
        method: b"GET".to_vec(),
        target: target.to_vec(),
        version,
        headers: vec![(name.to_vec(), value.to_vec())],
        len: 0,
    };
    let e = build_head(head(2, b"a", b"b", b"/")).expect_err("version");
    assert_eq!(e.kind(), ErrorKind::DecodeFault);
    assert_eq!(e.message(), "only HTTP/1.0 or 1.1 accepted");
    let e = build_head(head(1, b"a", b"b\x01", b"/")).expect_err("value");
    assert_eq!(e.kind(), ErrorKind::DecodeFault);
    assert_eq!(e.message(), "header decode error");
    assert!(build_head(head(1, b"bad name", b"b", b"/")).expect("builder").head.is_none());
    let mut bad_method = head(1, b"a", b"b", b"/");
    bad_method.method = b"G T".to_vec();
    assert!(build_head(bad_method).expect("builder").head.is_none());
    let mut empty_method = head(1, b"a", b"b", b"/");
    empty_method.method = Vec::new();
    assert!(build_head(empty_method).expect("builder").head.is_none());
    assert!(build_head(head(1, b"a", b"b", b"/ /")).expect("builder").head.is_none());
    let ok = build_head(head(0, b"Accept", b"b\t\xff", b"/p?q")).expect("builder").head.expect("head");
    assert_eq!(ok.headers, vec![(b"accept".to_vec(), b"b\t\xff".to_vec())]);
    assert_eq!(ok.path, b"/p".to_vec());
    assert_eq!(ok.version, Version::Http10);
}

#[test]
fn header_lookup_takes_the_first_of_a_name() {
    let headers = vec![
        (b"connection".to_vec(), b"Upgrade".to_vec()),
        (b"connection".to_vec(), b"close".to_vec()),
        (b"bin".to_vec(), vec![0xc3, 0x28]),
    ];
    assert_eq!(header_value(&headers, b"Connection"), Some(&b"Upgrade".to_vec()));
    assert!(has_header(&headers, b"connection", b"upgrade"));
    assert!(!has_header(&headers, b"connection", b"close"));
    assert!(!has_header(&headers, b"bin", &[0xc3, 0x28]));
    assert!(check_visible(b"a\tb ~"));
    assert!(!check_visible(b"\x7f"));
    assert!(check_value(b"\x80\t"));
    assert!(!check_value(b"\n"));
}

#[test]
fn upgrade_detection() {
    let r = raw(b"GET /ws HTTP/1.1\r\nConnection: Upgrade\r\nUpgrade: WebSocket\r\n\r\n");
    assert!(r.is_upgrade_websocket());
    assert!(r.is_upgrade_keepalive());
    assert!(r.extract().expect("request").is_websocket());
    let r = raw(b"GET / HTTP/1.0\r\nConnection: Keep-Alive\r\n\r\n");
    assert!(r.is_upgrade_keepalive());
    assert!(!r.is_upgrade_websocket());
    let req = r.extract().expect("request");
    assert!(req.should_keep_alive());
    assert!(!req.is_websocket());
    let r = raw(b"GET / HTTP/1.0\r\n\r\n");
    assert!(!r.extract().expect("request").should_keep_alive());
}

#[test]
fn deadline_is_strict() {
    let r = raw(b"GET /");
    assert!(!r.check_timeout(999));
    assert!(!r.check_timeout(1_000));
    assert!(r.check_timeout(1_001));
}

#[test]
fn unreadable_content_length_counts_as_none() {
    let r = raw(b"POST / HTTP/1.1\r\nContent-Length: ten\r\n\r\n");
    assert!(r.ready());
    let r = raw(b"POST / HTTP/1.1\r\nContent-Length: 3\r\n\r\nab");
    assert!(!r.ready());
}

#[test]
fn frames_a_response_bit_exactly() {
    let req = raw(b"GET /ping HTTP/1.1\r\n\r\n").extract().expect("request");
    let mut res = Response::from_request(&req);
    res.ok("PONG").expect("json");
    let mut codec = HttpCodec::new(SERVER);
    let framed = res.encode(&mut codec, now(784_111_777).expect("date")).expect("body");
    assert!(!framed.close());
    assert_eq!(
        String::from_utf8(framed.body().clone()).expect("text"),
        "HTTP/1.1 200 OK\r\nServer: index.teggle.io/v1beta1\r\nContent-Length: 18\r\nDate: Sun, 06 Nov 1994 08:49:37 GMT\r\ncontent-type: application/json\r\n\r\n{\"message\":\"PONG\"}"
    );
}

#[test]
fn headers_go_out_in_insertion_order() {
    let mut res = Response::new();
    assert!(res.header(b"X-Second", b"2"));
    assert!(res.header(b"a-first", b"1"));
    assert!(!res.header(b"bad name", b"1"));
    assert!(!res.header(b"name", b"bad\nvalue"));
    res.status(404);
    res.version(Version::Http11);
    res.body(b"gone".to_vec());
    let mut codec = HttpCodec::new("s");
    let framed = res.encode(&mut codec, now(0).expect("date")).expect("body");
    assert!(framed.close());
    assert_eq!(
        String::from_utf8(framed.body().clone()).expect("text"),
        "HTTP/1.1 404 Not Found\r\nServer: s\r\nContent-Length: 4\r\nDate: Thu, 01 Jan 1970 00:00:00 GMT\r\nx-second: 2\r\na-first: 1\r\n\r\ngone"
    );
}

#[test]
fn a_status_without_reason_says_so() {
    let mut res = Response::new();
    res.status(599);
    res.body(Vec::new());
    let mut codec = HttpCodec::new("s");
    let framed = res.encode(&mut codec, now(0).expect("date")).expect("body");
    assert!(String::from_utf8(framed.body().clone())
        .expect("text")
        .starts_with("HTTP/1.0 599 <unknown status code>\r\nServer: s\r\nContent-Length: 0\r\n"));
}

#[test]
fn encode_without_body_fails() {
    let mut codec = HttpCodec::new(SERVER);
    let e = Response::new().encode(&mut codec, now(1).expect("date")).expect_err("no body");
    assert_eq!(e.kind(), ErrorKind::ServerFault);
    assert_eq!(e.message(), "encode called on response with no body");
}

#[test]
fn error_responses_carry_status_and_message() {
    let body_of = |kind: ErrorKind| {
        let res = Response::from_error(&Error::new_with_kind(kind, "why".to_string()));
        let mut codec = HttpCodec::new("s");
        let framed = res.encode(&mut codec, now(0).expect("date")).expect("body");
        assert!(framed.close());
        let text = String::from_utf8(framed.body().clone()).expect("text");
        let at = text.find("\r\n\r\n").expect("separator");
        (text[..text.find("\r\n").expect("line")].to_string(), text[at + 4..].to_string())
    };
    assert_eq!(
        body_of(ErrorKind::ServerFault),
        ("HTTP/1.0 500 Internal Server Error".to_string(), "{\"status\":500,\"message\":\"Server Fault\"}".to_string())
    );
    assert_eq!(
        body_of(ErrorKind::PayloadTooLarge),
        ("HTTP/1.0 413 Payload Too Large".to_string(), "{\"status\":413,\"message\":\"Payload Too Large\"}".to_string())
    );
    assert_eq!(
        body_of(ErrorKind::TimedOut),
        ("HTTP/1.0 408 Request Timeout".to_string(), "{\"status\":408,\"message\":\"Request Timeout\"}".to_string())
    );
    assert_eq!(
        body_of(ErrorKind::HttpClientTimedOut),
        ("HTTP/1.0 504 Gateway Timeout".to_string(), "{\"status\":504,\"message\":\"Gateway Timeout\"}".to_string())
    );
    assert_eq!(
        body_of(ErrorKind::WSFault),
        ("HTTP/1.0 400 Bad Request".to_string(), "{\"status\":400,\"message\":\"Bad Request\"}".to_string())
    );
}

#[test]
fn json_messages_are_escaped() {
    let mut res = Response::new();
    res.ok("say \"hi\"\n").expect("json");
    let mut codec = HttpCodec::new("s");
    let framed = res.encode(&mut codec, now(0).expect("date")).expect("body");
    let text = String::from_utf8(framed.body().clone()).expect("text");
    assert!(text.ends_with("\r\n\r\n{\"message\":\"say \\\"hi\\\"\\n\"}"));
    assert!(text.contains("Content-Length: 26\r\n"));
    let mut res = Response::new();
    res.fault().expect("json");
    let framed = res.encode(&mut codec, now(0).expect("date")).expect("body");
    assert!(String::from_utf8(framed.body().clone())
        .expect("text")
        .ends_with("{\"status\":500,\"message\":\"Server Fault\"}"));
}

#[test]
fn dates_are_cached_by_second() {
    let mut last = LastRenderedNow::new();
    assert!(last.buffer().is_empty());
    let first = last.render(now(86_400).expect("date")).clone();
    assert_eq!(first, b"Fri, 02 Jan 1970 00:00:00 GMT".to_vec());
    assert_eq!(last.buffer(), &first);
    assert_eq!(last.render(now(86_400).expect("date")), &first);
    assert_eq!(last.render(now(86_401).expect("date")), &b"Fri, 02 Jan 1970 00:00:01 GMT".to_vec());
    assert!(now(253_402_300_799).is_some());
    assert!(now(253_402_300_800).is_none());
    assert_eq!(now(5).expect("date").unix_secs(), 5);
}

#[test]
fn greetings_need_a_name_that_is_text() {
    use_request(b"caf\xc3\xa9", Some("{\"message\":\"Hello caf\u{e9}\"}"));
    use_request(b"\xff\xfe", None);
}

fn use_request(name: &[u8], expected: Option<&str>) {
    let mut req = raw(b"GET /hello/x HTTP/1.1\r\n\r\n").extract().expect("request");
    let mut vars = index_enclave::vars::Vars::new();
    vars.insert(b"name".to_vec(), name.to_vec());
    req.vars(vars);
    assert_eq!(req.var(b"name"), Some(&name.to_vec()));
    assert_eq!(req.var(b"other"), None);
    let mut res = Response::from_request(&req);
    let result = index_enclave::routes::hello(&req, &mut res);
    match expected {
        Some(body) => {
            result.expect("greeted");
            let mut codec = HttpCodec::new(SERVER);
            let framed = res.encode(&mut codec, now(0).expect("date")).expect("body");
            assert!(framed.body().ends_with(body.as_bytes()));
        }
        None => {
            let e = result.expect_err("no text");
            assert_eq!(e.kind(), ErrorKind::ServerFault);
            assert!(!res.has_body());
        }
    }
}

#[test]
fn a_request_without_route_has_no_vars() {
    let req = raw(b"GET /hello/x HTTP/1.1\r\n\r\n").extract().expect("request");
    let mut res = Response::new();
    let e = index_enclave::routes::hello(&req, &mut res).expect_err("no name");
    assert_eq!(e.kind(), ErrorKind::ServerFault);
    let e = index_enclave::routes::calc(&req, &mut res).expect_err("no numbers");
    assert_eq!(e.kind(), ErrorKind::ServerFault);
    index_enclave::routes::ping(&mut res).expect("pong");
    assert!(res.has_body());
}

#[test]
fn a_head_is_framed_from_plain_values() {
    let headers = vec![(b"x-a".to_vec(), b"1".to_vec()), (b"x-b".to_vec(), b"".to_vec())];
    let bytes = frame_head(b"srv", Version::Http10, 299, b"Fine", &headers, 1234, b"today");
    assert_eq!(
        String::from_utf8(bytes).expect("text"),
        "HTTP/1.0 299 Fine\r\nServer: srv\r\nContent-Length: 1234\r\nDate: today\r\nx-a: 1\r\nx-b: \r\n\r\n"
    );
    let bytes = frame_head(b"", Version::Http11, 0, b"", &Vec::new(), 0, b"");
    assert_eq!(
        String::from_utf8(bytes).expect("text"),
        "HTTP/1.1 0 \r\nServer: \r\nContent-Length: 0\r\nDate: \r\n\r\n"
    );
}

#[test]
fn a_head_is_assembled_from_what_was_canonicalized() {
    let raw = || RawHead {
        method: b"get".to_vec(),
        target: b"/t?q".to_vec(),
        version: 1,
        headers: vec![(b"A".to_vec(), b"1".to_vec())],
        len: 9,
    };
    let all = assemble_head(
        raw(),
        Version::Http10,
        Some(b"GET".to_vec()),
        Some(b"/t".to_vec()),
        Some(vec![(b"a".to_vec(), b"1".to_vec())]),
    )
    .head
    .expect("head");
    assert_eq!(all.method, b"GET".to_vec());
    assert_eq!(all.target, b"/t?q".to_vec());
    assert_eq!(all.path, b"/t".to_vec());
    assert_eq!(all.version, Version::Http10);
    assert_eq!(all.headers, vec![(b"a".to_vec(), b"1".to_vec())]);
    assert!(assemble_head(raw(), Version::Http11, None, Some(vec![]), Some(vec![])).head.is_none());
    assert!(assemble_head(raw(), Version::Http11, Some(vec![]), None, Some(vec![])).head.is_none());
    assert!(assemble_head(raw(), Version::Http11, Some(vec![]), Some(vec![]), None).head.is_none());
}

#[test]
fn json_bodies_are_framed_around_the_quoted_message() {
    let mut res = Response::new();
    res.json_message(b"\"hi\"".to_vec());
    let mut codec = HttpCodec::new("s");
    let framed = res.encode(&mut codec, now(0).expect("date")).expect("body");
    let text = String::from_utf8(framed.body().clone()).expect("text");
    assert!(text.starts_with("HTTP/1.0 200 OK\r\n"));
    assert!(text.ends_with("\r\ncontent-type: application/json\r\n\r\n{\"message\":\"hi\"}"));
    let mut res = Response::new();
    res.json_error(418, b"\"teapot\"".to_vec());
    let framed = res.encode(&mut codec, now(0).expect("date")).expect("body");
    let text = String::from_utf8(framed.body().clone()).expect("text");
    assert!(text.starts_with("HTTP/1.0 418 I'm a teapot\r\n"));
    assert!(text.ends_with("\r\n\r\n{\"status\":418,\"message\":\"teapot\"}"));
    let mut res = Response::new();
    res.json(b"[1]".to_vec());
    res.json(b"[2]".to_vec());
    let framed = res.encode(&mut codec, now(0).expect("date")).expect("body");
    let text = String::from_utf8(framed.body().clone()).expect("text");
    assert!(text.ends_with(
        "content-type: application/json\r\ncontent-type: application/json\r\n\r\n[2]"
    ));
}

#[test]
fn a_decoded_head_written_back_is_the_head() {
    let head = b"POST /a/b?c=d HTTP/1.1\r\nhost: example.org\r\ncontent-length: 4\r\nx-token: a b\r\n\r\n";
    let mut src = head.to_vec();
    src.extend_from_slice(b"body");
    let mut buf = bytes::BytesMut::from(&src[..]);
    let decoded = decode(&mut buf).expect("ok").expect("complete").head.expect("head");
    // What follows the head stays in the buffer.
    assert_eq!(&buf[..], b"body");
    let mut written = Vec::new();
    written.extend_from_slice(&decoded.method);
    written.push(b' ');
    written.extend_from_slice(&decoded.target);
    written.extend_from_slice(b" HTTP/1.1\r\n");
    for (name, value) in decoded.headers.iter() {
        written.extend_from_slice(name);
        written.extend_from_slice(b": ");
        written.extend_from_slice(value);
        written.extend_from_slice(b"\r\n");
    }
    written.extend_from_slice(b"\r\n");
    assert_eq!(decoded.version, Version::Http11);
    assert_eq!(written, head.to_vec());
}
