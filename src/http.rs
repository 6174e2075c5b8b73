use vstd::prelude::*;
use crate::conn::head_end_at;

verus! {

/// The request methods a route can allow.
#[derive(PartialEq, Eq, Structural, Debug, Clone, Copy)]
pub enum Method {
    Get,
    Post,
    Put,
    Delete,
    Patch,
    Head,
    Options,
    Other,
}

/// The method named by the first word of a request line.
pub open spec fn method_of(tok: Seq<u8>) -> Method {
    if tok == seq![71u8, 69, 84] {
        Method::Get
    } else if tok == seq![80u8, 79, 83, 84] {
        Method::Post
    } else if tok == seq![80u8, 85, 84] {
        Method::Put
    } else if tok == seq![68u8, 69, 76, 69, 84, 69] {
        Method::Delete
    } else if tok == seq![80u8, 65, 84, 67, 72] {
        Method::Patch
    } else if tok == seq![72u8, 69, 65, 68] {
        Method::Head
    } else if tok == seq![79u8, 80, 84, 73, 79, 78, 83] {
        Method::Options
    } else {
        Method::Other
    }
}

pub open spec fn is_separator(b: u8) -> bool {
    b == 32u8 || b == 13u8 || b == 10u8
}

/// The end of the word of `s` that starts at `start`: the first space, carriage
/// return or line feed from there on, or the end of `s`.
pub open spec fn word_end(s: Seq<u8>, start: int) -> int
    decreases s.len() - start,
{
    if start < 0 || start >= s.len() {
        s.len() as int
    } else if is_separator(s[start]) {
        start
    } else {
        word_end(s, start + 1)
    }
}

/// The first word of the request line.
pub open spec fn method_word(s: Seq<u8>) -> Seq<u8> {
    s.subrange(0, word_end(s, 0))
}

/// The second word of the request line, where a space follows the first one.
pub open spec fn request_path(s: Seq<u8>) -> Seq<u8> {
    let e = word_end(s, 0);
    if e < s.len() && s[e] == 32u8 {
        s.subrange(e + 1, word_end(s, e + 1))
    } else {
        Seq::empty()
    }
}

/// The position of the first blank line that ends a request head at or after
/// `i`, or -1 where there is none.
pub open spec fn find_head_end(s: Seq<u8>, i: int) -> int
    decreases s.len() - i,
{
    if i < 0 || i + 4 > s.len() {
        -1
    } else if head_end_at(s, i) {
        i
    } else {
        find_head_end(s, i + 1)
    }
}

/// The bytes after the head of a request; empty where the head is not complete.
pub open spec fn request_body(s: Seq<u8>) -> Seq<u8> {
    let e = find_head_end(s, 0);
    if e < 0 {
        Seq::empty()
    } else {
        s.subrange(e + 4, s.len() as int)
    }
}

/// A request as the route table sees it: its method, its path, its body and
/// all the bytes it came in.
pub struct Request {
    pub method: Method,
    pub path: Vec<u8>,
    pub body: Vec<u8>,
    pub raw: Vec<u8>,
}

fn head_end_from(s: &Vec<u8>) -> (r: Option<usize>)
    ensures
        r matches Some(e) ==> e as int == find_head_end(s@, 0) && e + 4 <= s@.len(),
        r is None ==> find_head_end(s@, 0) < 0,
{
    let n: usize = s.len();
    let mut i: usize = 0;
    while i < n && n - i >= 4
        invariant
            n == s@.len(),
            i <= n,
            find_head_end(s@, 0) == find_head_end(s@, i as int),
        decreases n - i,
    {
        if s[i] == 13u8 && s[i + 1] == 10u8 && s[i + 2] == 13u8 && s[i + 3] == 10u8 {
            return Some(i);
        }
        i = i + 1;
    }
    None
}

/// Whether two byte strings are equal.
pub fn bytes_equal(a: &[u8], b: &[u8]) -> (r: bool)
    ensures
        r == (a@ == b@),
{
    if a.len() != b.len() {
        return false;
    }
    let mut i: usize = 0;
    while i < a.len()
        invariant
            a@.len() == b@.len(),
            i <= a@.len(),
            forall|j: int| 0 <= j < i ==> a@[j] == b@[j],
        decreases a@.len() - i,
    {
        if a[i] != b[i] {
            return false;
        }
        i = i + 1;
    }
    assert(a@ =~= b@);
    true
}

fn word_end_from(s: &Vec<u8>, start: usize) -> (r: usize)
    requires
        start <= s@.len(),
    ensures
        r as int == word_end(s@, start as int),
        start <= r <= s@.len(),
{
    let mut i: usize = start;
    while i < s.len() && !(s[i] == 32u8 || s[i] == 13u8 || s[i] == 10u8)
        invariant
            start <= i <= s@.len(),
            word_end(s@, start as int) == word_end(s@, i as int),
        decreases s@.len() - i,
    {
        i = i + 1;
    }
    i
}

fn copy_range(s: &Vec<u8>, from: usize, to: usize) -> (r: Vec<u8>)
    requires
        from <= to <= s@.len(),
    ensures
        r@ == s@.subrange(from as int, to as int),
{
    let mut r: Vec<u8> = Vec::new();
    let mut i: usize = from;
    while i < to
        invariant
            from <= i <= to,
            to <= s@.len(),
            r@ == s@.subrange(from as int, i as int),
        decreases to - i,
    {
        r.push(s[i]);
        i = i + 1;
        assert(r@ =~= s@.subrange(from as int, i as int));
    }
    r
}

/// The method named by `tok`.
pub fn parse_method(tok: &Vec<u8>) -> (r: Method)
    ensures
        r == method_of(tok@),
{
    if bytes_equal(tok.as_slice(), vec![71u8, 69, 84].as_slice()) {
        Method::Get
    } else if bytes_equal(tok.as_slice(), vec![80u8, 79, 83, 84].as_slice()) {
        Method::Post
    } else if bytes_equal(tok.as_slice(), vec![80u8, 85, 84].as_slice()) {
        Method::Put
    } else if bytes_equal(tok.as_slice(), vec![68u8, 69, 76, 69, 84, 69].as_slice()) {
        Method::Delete
    } else if bytes_equal(tok.as_slice(), vec![80u8, 65, 84, 67, 72].as_slice()) {
        Method::Patch
    } else if bytes_equal(tok.as_slice(), vec![72u8, 69, 65, 68].as_slice()) {
        Method::Head
    } else if bytes_equal(tok.as_slice(), vec![79u8, 80, 84, 73, 79, 78, 83].as_slice()) {
        Method::Options
    } else {
        Method::Other
    }
}

impl Request {
    /// Reads the method and the path from the request line of `raw`.
    pub fn from_bytes(raw: Vec<u8>) -> (r: Request)
        ensures
            r.method == method_of(method_word(raw@)),
            r.path@ == request_path(raw@),
            r.body@ == request_body(raw@),
            r.raw@ == raw@,
    {
        let e: usize = word_end_from(&raw, 0);
        let word = copy_range(&raw, 0, e);
        let method = parse_method(&word);
        let path = if e < raw.len() && raw[e] == 32u8 {
            let p: usize = e + 1;
            let pe: usize = word_end_from(&raw, p);
            copy_range(&raw, p, pe)
        } else {
            Vec::new()
        };
        let body = match head_end_from(&raw) {
            Some(e) => copy_range(&raw, e + 4, raw.len()),
            None => Vec::new(),
        };
        Request { method, path, body, raw }
    }
}

/// The reason phrase sent after a status code.
pub open spec fn reason_of(status: u16) -> Seq<u8> {
    if status == 200 {
        seq![79u8, 75]
    } else if status == 400 {
        seq![66u8, 97, 100, 32, 82, 101, 113, 117, 101, 115, 116]
    } else if status == 404 {
        seq![78u8, 111, 116, 32, 70, 111, 117, 110, 100]
    } else if status == 500 {
        seq![
            73u8, 110, 116, 101, 114, 110, 97, 108, 32, 83, 101, 114, 118, 101, 114, 32, 69, 114,
            114, 111, 114,
        ]
    } else {
        Seq::empty()
    }
}

/// "HTTP/1.1 ", the three digits of the status, a space, the reason phrase and
/// the end of the line.
pub open spec fn status_line(status: u16) -> Seq<u8> {
    seq![72u8, 84, 84, 80, 47, 49, 46, 49, 32] + seq![
        (48 + status / 100) as u8,
        (48 + (status / 10) % 10) as u8,
        (48 + status % 10) as u8,
        32u8,
    ] + reason_of(status) + seq![13u8, 10]
}

/// Each header as "name: value" and the end of a line, in order.
pub open spec fn headers_wire(hs: Seq<(Seq<u8>, Seq<u8>)>) -> Seq<u8>
    decreases hs.len(),
{
    if hs.len() == 0 {
        Seq::empty()
    } else {
        headers_wire(hs.drop_last()) + hs.last().0 + seq![58u8, 32] + hs.last().1 + seq![13u8, 10]
    }
}

/// A response: status code, headers in order, and body.
pub struct Response {
    pub status: u16,
    pub headers: Vec<(Vec<u8>, Vec<u8>)>,
    pub body: Vec<u8>,
}

pub open spec fn headers_view(hs: Seq<(Vec<u8>, Vec<u8>)>) -> Seq<(Seq<u8>, Seq<u8>)> {
    hs.map_values(|h: (Vec<u8>, Vec<u8>)| (h.0@, h.1@))
}

/// The bytes sent for a response: status line, headers, blank line, body.
pub open spec fn wire(status: u16, hs: Seq<(Seq<u8>, Seq<u8>)>, body: Seq<u8>) -> Seq<u8> {
    status_line(status) + headers_wire(hs) + seq![13u8, 10] + body
}

fn push_all(out: &mut Vec<u8>, s: &Vec<u8>)
    ensures
        final(out)@ == old(out)@ + s@,
{
    let mut i: usize = 0;
    while i < s.len()
        invariant
            i <= s@.len(),
            out@ == old(out)@ + s@.subrange(0, i as int),
        decreases s@.len() - i,
    {
        out.push(s[i]);
        i = i + 1;
        assert(out@ =~= old(out)@ + s@.subrange(0, i as int));
    }
    assert(s@.subrange(0, s@.len() as int) =~= s@);
}

fn reason_bytes(status: u16) -> (r: Vec<u8>)
    ensures
        r@ == reason_of(status),
{
    if status == 200 {
        vec![79u8, 75]
    } else if status == 400 {
        vec![66u8, 97, 100, 32, 82, 101, 113, 117, 101, 115, 116]
    } else if status == 404 {
        vec![78u8, 111, 116, 32, 70, 111, 117, 110, 100]
    } else if status == 500 {
        vec![
            73u8, 110, 116, 101, 114, 110, 97, 108, 32, 83, 101, 114, 118, 101, 114, 32, 69, 114,
            114, 111, 114,
        ]
    } else {
        Vec::new()
    }
}

impl Response {
    /// A response with `status`, no headers and `body`.
    pub fn new(status: u16, body: Vec<u8>) -> (r: Response)
        ensures
            r.status == status,
            r.headers@.len() == 0,
            r.body@ == body@,
    {
        Response { status, headers: Vec::new(), body }
    }

    /// Adds a header after those already there.
    pub fn add_header(&mut self, name: Vec<u8>, value: Vec<u8>)
        ensures
            final(self).status == old(self).status,
            final(self).body@ == old(self).body@,
            headers_view(final(self).headers@) == headers_view(old(self).headers@).push((name@, value@)),
    {
        let ghost nv = (name@, value@);
        self.headers.push((name, value));
        assert(headers_view(self.headers@) =~= headers_view(old(self).headers@).push(nv));
    }

    /// The bytes that go out on the wire for this response.
    pub fn gen_output(&self) -> (r: Vec<u8>)
        requires
            100 <= self.status <= 999,
        ensures
            r@ == wire(self.status, headers_view(self.headers@), self.body@),
    {
        let s: u16 = self.status;
        let mut out: Vec<u8> = vec![72u8, 84, 84, 80, 47, 49, 46, 49, 32];
        out.push((48 + s / 100) as u8);
        out.push((48 + (s / 10) % 10) as u8);
        out.push((48 + s % 10) as u8);
        out.push(32u8);
        let reason = reason_bytes(s);
        push_all(&mut out, &reason);
        out.push(13u8);
        out.push(10u8);
        let ghost head = out@;
        assert(head =~= status_line(s));
        let mut i: usize = 0;
        while i < self.headers.len()
            invariant
                i <= self.headers@.len(),
                out@ == head + headers_wire(headers_view(self.headers@).take(i as int)),
            decreases self.headers@.len() - i,
        {
            let ghost before = out@;
            push_all(&mut out, &self.headers[i].0);
            out.push(58u8);
            out.push(32u8);
            push_all(&mut out, &self.headers[i].1);
            out.push(13u8);
            out.push(10u8);
            let ghost hs = headers_view(self.headers@).take(i as int + 1);
            assert(hs.drop_last() =~= headers_view(self.headers@).take(i as int));
            assert(out@ =~= before + hs.last().0 + seq![58u8, 32] + hs.last().1 + seq![13u8, 10]);
            i = i + 1;
        }
        assert(headers_view(self.headers@).take(i as int) =~= headers_view(self.headers@));
        out.push(13u8);
        out.push(10u8);
        push_all(&mut out, &self.body);
        assert(out@ =~= wire(s, headers_view(self.headers@), self.body@));
        out
    }
}

} // verus!
