use canteen::conn::{Interest, Phase, ReadOutcome, WriteOutcome};
use canteen::http::{Method, Request, Response};
use canteen::route::ConfigError;
use canteen::server::{Event, EventKind, ReadStep, Server, WriteStep, FIRST_CLIENT, LISTENER};

type Handler = fn(&Request) -> Response;

fn hello(_req: &Request) -> Response {
    Response::new(200, b"hi".to_vec())
}

fn other(_req: &Request) -> Response {
    Response::new(200, b"other".to_vec())
}

fn not_found(_req: &Request) -> Response {
    Response::new(404, b"Not Found".to_vec())
}

fn hello_server() -> Server<Handler> {
    let mut s: Server<Handler> = Server::new(not_found, 16);
    s.add_route("/hello", vec![Method::Get], hello).unwrap();
    s
}

fn dispatch(s: &mut Server<Handler>, raw: &[u8]) -> Response {
    let t = s.accept().unwrap();
    match s.readable(t, ReadOutcome::Data(raw.to_vec())) {
        ReadStep::Dispatch(req, h) => h(&req),
        _ => panic!("request was not dispatched"),
    }
}

#[test]
fn hello_and_not_found() {
    let mut s = hello_server();
    let r = dispatch(&mut s, b"GET /hello HTTP/1.1\r\nHost: x\r\n\r\n");
    assert_eq!(r.status, 200);
    assert_eq!(r.body, b"hi".to_vec());
    let r = dispatch(&mut s, b"GET /other HTTP/1.1\r\n\r\n");
    assert_eq!(r.status, 404);
}

#[test]
fn resolve_picks_route_or_default() {
    let mut s = hello_server();
    s.add_route("/other", vec![Method::Get, Method::Post], other).unwrap();
    assert_eq!(s.resolve(Method::Get, b"/hello")(&Request::from_bytes(vec![])).body, b"hi".to_vec());
    assert_eq!(s.resolve(Method::Post, b"/other")(&Request::from_bytes(vec![])).body, b"other".to_vec());
    // the method is not allowed on /hello
    assert_eq!(s.resolve(Method::Post, b"/hello")(&Request::from_bytes(vec![])).status, 404);
    assert_eq!(s.resolve(Method::Get, b"/nowhere")(&Request::from_bytes(vec![])).status, 404);
}

#[test]
fn duplicate_route_is_refused() {
    let mut s = hello_server();
    assert_eq!(s.add_route("/hello", vec![Method::Post], other), Err(ConfigError::DuplicateRoute));
    // the table is unchanged: GET /hello still goes to the first handler
    assert_eq!(s.resolve(Method::Get, b"/hello")(&Request::from_bytes(vec![])).body, b"hi".to_vec());
    assert_eq!(s.resolve(Method::Post, b"/hello")(&Request::from_bytes(vec![])).status, 404);
}

#[test]
fn set_default_replaces_fallback() {
    let mut s = hello_server();
    s.set_default(other);
    assert_eq!(s.resolve(Method::Get, b"/x")(&Request::from_bytes(vec![])).body, b"other".to_vec());
}

#[test]
fn request_in_two_reads() {
    let mut s = hello_server();
    let t = s.accept().unwrap();
    let raw = b"GET /hello HTTP/1.1\r\nHost: example\r\n\r\n";
    let half = raw.len() / 2;
    match s.readable(t, ReadOutcome::Data(raw[..half].to_vec())) {
        ReadStep::Rearm(i) => assert_eq!(i, Interest { readable: true, writable: false }),
        _ => panic!("expected to keep reading"),
    }
    assert_eq!(s.lookup(t).unwrap().phase, Phase::AwaitingRead);
    match s.readable(t, ReadOutcome::WouldBlock) {
        ReadStep::Rearm(_) => {}
        _ => panic!("expected to keep reading"),
    }
    match s.readable(t, ReadOutcome::Data(raw[half..].to_vec())) {
        ReadStep::Dispatch(req, h) => {
            assert_eq!(req.method, Method::Get);
            assert_eq!(req.path, b"/hello".to_vec());
            assert_eq!(req.raw, raw.to_vec());
            assert_eq!(h(&req).body, b"hi".to_vec());
        }
        _ => panic!("expected dispatch"),
    }
    assert_eq!(s.lookup(t).unwrap().phase, Phase::Dispatching);
}

#[test]
fn response_in_three_writes() {
    let mut s = hello_server();
    let t = s.accept().unwrap();
    match s.readable(t, ReadOutcome::Data(b"GET /hello HTTP/1.1\r\n\r\n".to_vec())) {
        ReadStep::Dispatch(_, _) => {}
        _ => panic!("expected dispatch"),
    }
    let payload: Vec<u8> = (0..10_000u32).map(|i| (i % 251) as u8).collect();
    assert!(s.respond(t, payload.clone()));
    let mut sent: Vec<u8> = Vec::new();
    for (k, n) in [4000usize, 3000, 3000].iter().enumerate() {
        let pending = s.lookup(t).unwrap().o_buf.clone();
        sent.extend_from_slice(&pending[..*n]);
        let step = s.writable(t, WriteOutcome::Wrote(*n));
        if k < 2 {
            assert_eq!(step, WriteStep::Rearm(Interest { readable: false, writable: true }));
            assert!(s.contains(t));
        } else {
            assert_eq!(step, WriteStep::Done);
            assert!(!s.contains(t));
        }
    }
    assert_eq!(sent, payload);
}

#[test]
fn write_of_zero_bytes_keeps_everything() {
    let mut s = hello_server();
    let t = s.accept().unwrap();
    let _ = s.readable(t, ReadOutcome::Data(b"GET / HTTP/1.1\r\n\r\n".to_vec()));
    assert!(s.respond(t, b"abc".to_vec()));
    assert_eq!(s.writable(t, WriteOutcome::Wrote(0)), WriteStep::Rearm(Interest { readable: false, writable: true }));
    assert_eq!(s.lookup(t).unwrap().o_buf, b"abc".to_vec());
    assert_eq!(s.writable(t, WriteOutcome::Wrote(1)), WriteStep::Rearm(Interest { readable: false, writable: true }));
    assert_eq!(s.lookup(t).unwrap().o_buf, b"bc".to_vec());
}

#[test]
fn failures_close_the_connection() {
    let mut s = hello_server();
    let t = s.accept().unwrap();
    assert!(matches!(s.readable(t, ReadOutcome::Failed), ReadStep::Closed));
    assert!(!s.contains(t));
    let t = s.accept().unwrap();
    let _ = s.readable(t, ReadOutcome::Data(b"GET / HTTP/1.1\r\n\r\n".to_vec()));
    assert!(s.respond(t, b"abc".to_vec()));
    assert_eq!(s.writable(t, WriteOutcome::Failed), WriteStep::Closed);
    assert!(!s.contains(t));
    let t = s.accept().unwrap();
    let _ = s.readable(t, ReadOutcome::Data(b"GET / HTTP/1.1\r\n\r\n".to_vec()));
    assert!(s.respond(t, b"abc".to_vec()));
    assert_eq!(s.writable(t, WriteOutcome::Wrote(4)), WriteStep::Closed);
    assert!(!s.contains(t));
}

#[test]
fn events_on_unknown_or_wrong_phase() {
    let mut s = hello_server();
    assert!(matches!(s.readable(99, ReadOutcome::WouldBlock), ReadStep::Unknown));
    assert_eq!(s.writable(99, WriteOutcome::Wrote(0)), WriteStep::Unknown);
    assert!(!s.respond(99, vec![]));
    let t = s.accept().unwrap();
    assert_eq!(s.writable(t, WriteOutcome::Wrote(0)), WriteStep::Ignored);
    assert!(!s.respond(t, vec![1]));
    let _ = s.readable(t, ReadOutcome::Data(b"GET / HTTP/1.1\r\n\r\n".to_vec()));
    assert!(matches!(s.readable(t, ReadOutcome::WouldBlock), ReadStep::Ignored));
}

#[test]
fn registry_lifecycle() {
    let mut s = hello_server();
    let a = s.accept().unwrap();
    let b = s.accept().unwrap();
    assert_ne!(a, b);
    assert_eq!(a, FIRST_CLIENT);
    assert!(s.contains(a) && s.contains(b));
    assert_eq!(s.lookup(a).unwrap().token, a);
    assert!(s.reset_connection(a));
    assert!(!s.contains(a));
    assert!(s.lookup(a).is_none());
    assert!(!s.reset_connection(a));
    assert!(s.contains(b));
    let c = s.accept().unwrap();
    assert_ne!(c, b);
    assert!(s.contains(c));
}

#[test]
fn registry_capacity() {
    let mut s: Server<Handler> = Server::new(not_found, 2);
    let a = s.accept().unwrap();
    let b = s.accept().unwrap();
    let _ = s.readable(a, ReadOutcome::Data(b"GET /x".to_vec()));
    assert_eq!(s.accept(), None);
    assert_eq!(s.lookup(a).unwrap().i_buf, b"GET /x".to_vec());
    assert!(s.contains(b));
    assert!(s.reset_connection(b));
    assert_eq!(s.accept(), Some(b));
}

#[test]
fn classify_events() {
    let s = hello_server();
    let ev = |token, readable, writable, hup_or_error| Event { token, readable, writable, hup_or_error };
    assert_eq!(s.classify(&ev(LISTENER, true, false, true)), EventKind::Reset);
    assert_eq!(s.classify(&ev(5, true, true, true)), EventKind::Reset);
    assert_eq!(s.classify(&ev(LISTENER, true, false, false)), EventKind::Accept);
    assert_eq!(s.classify(&ev(5, true, true, false)), EventKind::Read);
    assert_eq!(s.classify(&ev(5, false, true, false)), EventKind::Write);
    assert_eq!(s.classify(&ev(LISTENER, false, true, false)), EventKind::Ignore);
    assert_eq!(s.classify(&ev(5, false, false, false)), EventKind::Ignore);
}
