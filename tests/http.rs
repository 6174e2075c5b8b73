use canteen::conn::{has_head_end, Connection, Phase, ReadOutcome, WriteOutcome};
use canteen::http::{bytes_equal, parse_method, Method, Request, Response};

#[test]
fn parses_request_line() {
    let r = Request::from_bytes(b"POST /a/b?c=1 HTTP/1.1\r\nHost: h\r\n\r\nbody".to_vec());
    assert_eq!(r.method, Method::Post);
    assert_eq!(r.path, b"/a/b?c=1".to_vec());
    assert_eq!(r.body, b"body".to_vec());
    let r = Request::from_bytes(b"BREW /pot HTTP/1.1\r\n\r\n".to_vec());
    assert_eq!(r.method, Method::Other);
    assert_eq!(r.path, b"/pot".to_vec());
    let r = Request::from_bytes(b"GET\r\n\r\n".to_vec());
    assert_eq!(r.method, Method::Get);
    assert_eq!(r.path, Vec::<u8>::new());
    assert_eq!(r.body, Vec::<u8>::new());
    let r = Request::from_bytes(b"PUT /x HTTP/1.1\r\nA: b".to_vec());
    assert_eq!(r.method, Method::Put);
    assert_eq!(r.body, Vec::<u8>::new());
    let r = Request::from_bytes(b"PUT /x HTTP/1.1\r\n\r\n\r\n\r\nz".to_vec());
    assert_eq!(r.body, b"\r\n\r\nz".to_vec());
}

#[test]
fn method_words() {
    assert_eq!(parse_method(&b"GET".to_vec()), Method::Get);
    assert_eq!(parse_method(&b"DELETE".to_vec()), Method::Delete);
    assert_eq!(parse_method(&b"OPTIONS".to_vec()), Method::Options);
    assert_eq!(parse_method(&b"get".to_vec()), Method::Other);
}

#[test]
fn byte_equality() {
    assert!(bytes_equal(b"/x", b"/x"));
    assert!(!bytes_equal(b"/x", b"/y"));
    assert!(!bytes_equal(b"/x", b"/xy"));
}

#[test]
fn head_end_detection() {
    assert!(has_head_end(&b"GET / HTTP/1.1\r\n\r\n".to_vec()));
    assert!(!has_head_end(&b"GET / HTTP/1.1\r\n".to_vec()));
    assert!(!has_head_end(&b"\r\n\r".to_vec()));
}

#[test]
fn serialises_response() {
    let mut r = Response::new(404, b"nope".to_vec());
    r.add_header(b"Content-Type".to_vec(), b"text/plain".to_vec());
    r.add_header(b"X-A".to_vec(), b"1".to_vec());
    assert_eq!(
        r.gen_output(),
        b"HTTP/1.1 404 Not Found\r\nContent-Type: text/plain\r\nX-A: 1\r\n\r\nnope".to_vec()
    );
    let r = Response::new(200, b"hi".to_vec());
    assert_eq!(r.gen_output(), b"HTTP/1.1 200 OK\r\n\r\nhi".to_vec());
    let r = Response::new(299, vec![]);
    assert_eq!(r.gen_output(), b"HTTP/1.1 299 \r\n\r\n".to_vec());
}

#[test]
fn connection_transitions() {
    let mut c = Connection::new(7);
    assert_eq!(c.phase, Phase::AwaitingRead);
    assert!(!c.readable(ReadOutcome::Data(b"GET / HTTP/1.1\r\n".to_vec())));
    assert!(c.readable(ReadOutcome::Data(b"\r\n".to_vec())));
    assert_eq!(c.phase, Phase::Dispatching);
    c.respond(b"0123456789".to_vec());
    assert_eq!(c.phase, Phase::AwaitingWrite);
    assert!(!c.writable(WriteOutcome::Wrote(4)));
    assert_eq!(c.o_buf, b"456789".to_vec());
    assert!(c.writable(WriteOutcome::Wrote(6)));
    assert_eq!(c.phase, Phase::Closing);
}
