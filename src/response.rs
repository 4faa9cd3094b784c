//! Framing response bytes: status line, headers, blank line, body.
use vstd::prelude::*;
use vstd::string::StringSliceAdditionalSpecFns;
use crate::bytes::{append_bytes, bytes_eq, copy_range, dec_digits, opt_bytes, push_decimal};
use crate::request::is_ws;

verus! {

/// The byte `,`.
pub const COMMA: u8 = 44;

/// `200 OK` with no headers and no body.
pub open spec fn ok_empty() -> Seq<u8> {
    "HTTP/1.1 200 OK\r\n\r\n".spec_bytes()
}

/// `404 Not Found` with no headers and no body.
pub open spec fn not_found() -> Seq<u8> {
    "HTTP/1.1 404 Not Found\r\n\r\n".spec_bytes()
}

/// `201 Created` with no headers and no body.
pub open spec fn created() -> Seq<u8> {
    "HTTP/1.1 201 Created\r\n\r\n".spec_bytes()
}

/// Status line and headers of a plain-text answer, up to the length value.
pub open spec fn text_head() -> Seq<u8> {
    "HTTP/1.1 200 OK\r\nContent-Type: text/plain\r\nContent-Length: ".spec_bytes()
}

/// Status line and headers of a file answer, up to the length value.
pub open spec fn octet_head() -> Seq<u8> {
    "HTTP/1.1 200 OK\r\nContent-Type: application/octet-stream\r\nContent-Length: ".spec_bytes()
}

/// The header line that announces a gzip-encoded body, with its leading line
/// break.
pub open spec fn gzip_header() -> Seq<u8> {
    "\r\nContent-Encoding: gzip".spec_bytes()
}

/// The line break that ends the last header and the blank line after it.
pub open spec fn end_of_head() -> Seq<u8> {
    "\r\n\r\n".spec_bytes()
}

/// The one supported content encoding, `gzip`.
pub open spec fn gzip_token() -> Seq<u8> {
    "gzip".spec_bytes()
}

/// A `200 OK` answer: `head`, the decimal length of `body`, the `extra`
/// header lines, a blank line, and `body`.
pub open spec fn sized_response(head: Seq<u8>, body: Seq<u8>, extra: Seq<u8>) -> Seq<u8> {
    head + dec_digits(body.len()) + extra + end_of_head() + body
}

/// The answer to a file read, given the file's bytes or `None` when it could
/// not be opened.
pub open spec fn file_answer(content: Option<Seq<u8>>) -> Seq<u8> {
    match content {
        Some(c) => sized_response(octet_head(), c, seq![]),
        None => not_found(),
    }
}

/// `t` without its leading ASCII whitespace.
pub open spec fn trim_start(t: Seq<u8>) -> Seq<u8>
    decreases t.len(),
{
    if t.len() > 0 && is_ws(t[0]) {
        trim_start(t.drop_first())
    } else {
        t
    }
}

/// `t` without its trailing ASCII whitespace.
pub open spec fn trim_end(t: Seq<u8>) -> Seq<u8>
    decreases t.len(),
{
    if t.len() > 0 && is_ws(t.last()) {
        trim_end(t.drop_last())
    } else {
        t
    }
}

/// `t` without leading and trailing ASCII whitespace.
pub open spec fn trim(t: Seq<u8>) -> Seq<u8> {
    trim_end(trim_start(t))
}

/// Whether one of the comma-separated fields of `s`, from the field that
/// starts at `start` on (`i` is how far it has been scanned), trims to `gzip`.
pub open spec fn gzip_listed_from(s: Seq<u8>, start: int, i: int) -> bool
    decreases s.len() - i,
{
    if i >= s.len() {
        trim(s.subrange(start, s.len() as int)) == gzip_token()
    } else if s[i] == COMMA {
        trim(s.subrange(start, i)) == gzip_token() || gzip_listed_from(s, i + 1, i + 1)
    } else {
        gzip_listed_from(s, start, i + 1)
    }
}

/// Whether an `Accept-Encoding` value lists `gzip` among its comma-separated,
/// whitespace-trimmed fields.
pub open spec fn gzip_listed(s: Seq<u8>) -> bool {
    gzip_listed_from(s, 0, 0)
}

/// The echo answer for `payload`, given the `Accept-Encoding` value if any.
pub open spec fn echo_spec(payload: Seq<u8>, accept: Option<Seq<u8>>) -> Seq<u8> {
    let extra = match accept {
        Some(a) => if gzip_listed(a) {
            gzip_header()
        } else {
            seq![]
        },
        None => seq![],
    };
    sized_response(text_head(), payload, extra)
}

/// The content encodings the server recognises.
#[derive(PartialEq, Eq, Structural, Clone, Copy, Debug)]
pub enum AcceptType {
    Gzip,
}

impl AcceptType {
    /// Reads an encoding token: exactly `gzip`, case-sensitive.
    pub fn parse(t: &[u8]) -> (r: Option<AcceptType>)
        ensures
            r is Some <==> t@ == gzip_token(),
    {
        if bytes_eq(t, "gzip".as_bytes()) {
            Some(AcceptType::Gzip)
        } else {
            None
        }
    }
}

/// The bounds of `s[a..b]` with leading and trailing whitespace dropped.
fn trim_bounds(s: &[u8], a: usize, b: usize) -> (r: (usize, usize))
    requires
        a <= b <= s@.len(),
    ensures
        a <= r.0 <= r.1 <= b,
        s@.subrange(r.0 as int, r.1 as int) == trim(s@.subrange(a as int, b as int)),
{
    let mut x: usize = a;
    while x < b && (s[x] == 32 || s[x] == 9 || s[x] == 10 || s[x] == 12 || s[x] == 13)
        invariant
            a <= x <= b <= s@.len(),
            trim_start(s@.subrange(a as int, b as int)) == trim_start(s@.subrange(x as int, b as int)),
        decreases b - x,
    {
        assert(s@.subrange(x as int, b as int).drop_first() =~= s@.subrange(x + 1, b as int));
        x = x + 1;
    }
    let mut y: usize = b;
    while y > x && (s[y - 1] == 32 || s[y - 1] == 9 || s[y - 1] == 10 || s[y - 1] == 12 || s[y - 1]
        == 13)
        invariant
            a <= x <= y <= b <= s@.len(),
            trim_end(s@.subrange(x as int, b as int)) == trim_end(s@.subrange(x as int, y as int)),
        decreases y - x,
    {
        assert(s@.subrange(x as int, y as int).drop_last() =~= s@.subrange(x as int, y - 1));
        y = y - 1;
    }
    (x, y)
}

/// Whether the `Accept-Encoding` value `s` lists `gzip`: its fields are split
/// at commas and trimmed, and the first one that names a supported encoding
/// is taken.
pub fn accepts_gzip(s: &[u8]) -> (r: bool)
    ensures
        r == gzip_listed(s@),
{
    let mut start: usize = 0;
    let mut i: usize = 0;
    while i < s.len()
        invariant
            start <= i <= s@.len(),
            gzip_listed(s@) == gzip_listed_from(s@, start as int, i as int),
        decreases s@.len() - i,
    {
        if s[i] == COMMA {
            let (x, y) = trim_bounds(s, start, i);
            let field = copy_range(s, x, y);
            if AcceptType::parse(field.as_slice()).is_some() {
                return true;
            }
            start = i + 1;
        }
        i = i + 1;
    }
    let (x, y) = trim_bounds(s, start, i);
    let field = copy_range(s, x, y);
    AcceptType::parse(field.as_slice()).is_some()
}

/// The answer to `/echo/<payload>`: `200 OK`, `Content-Type: text/plain`, the
/// payload's length, `Content-Encoding: gzip` when the `Accept-Encoding` value
/// lists `gzip`, and the payload as the body. The body is sent as it is.
pub fn echo_response(echo_payload: &[u8], accept_type: Option<&[u8]>) -> (r: Vec<u8>)
    ensures
        r@ == echo_spec(echo_payload@, opt_bytes(accept_type)),
{
    let mut out: Vec<u8> = Vec::new();
    append_bytes(&mut out, "HTTP/1.1 200 OK\r\nContent-Type: text/plain\r\nContent-Length: ".as_bytes());
    push_decimal(&mut out, echo_payload.len());
    let ghost before = out@;
    let gz = match accept_type {
        Some(a) => accepts_gzip(a),
        None => false,
    };
    if gz {
        append_bytes(&mut out, "\r\nContent-Encoding: gzip".as_bytes());
    } else {
        assert(out@ =~= before + Seq::<u8>::empty());
    }
    append_bytes(&mut out, "\r\n\r\n".as_bytes());
    append_bytes(&mut out, echo_payload);
    out
}

/// The answer to `/user-agent`: `200 OK`, `Content-Type: text/plain`, and the
/// `User-Agent` value as the body.
pub fn user_agent_response(user_agent: &[u8]) -> (r: Vec<u8>)
    ensures
        r@ == sized_response(text_head(), user_agent@, seq![]),
{
    let mut out: Vec<u8> = Vec::new();
    append_bytes(&mut out, "HTTP/1.1 200 OK\r\nContent-Type: text/plain\r\nContent-Length: ".as_bytes());
    push_decimal(&mut out, user_agent.len());
    assert(out@ =~= out@ + Seq::<u8>::empty());
    append_bytes(&mut out, "\r\n\r\n".as_bytes());
    append_bytes(&mut out, user_agent);
    out
}

/// The answer to a file read: `404 Not Found` when the file could not be
/// opened (`None`), else `200 OK`, `Content-Type: application/octet-stream`
/// and the file's bytes as the body.
pub fn get_file_response(file_content: Option<&[u8]>) -> (r: Vec<u8>)
    ensures
        r@ == file_answer(opt_bytes(file_content)),
{
    match file_content {
        None => not_found_response(),
        Some(c) => {
            let mut out: Vec<u8> = Vec::new();
            append_bytes(
                &mut out,
                "HTTP/1.1 200 OK\r\nContent-Type: application/octet-stream\r\nContent-Length: ".as_bytes(),
            );
            push_decimal(&mut out, c.len());
            assert(out@ =~= out@ + Seq::<u8>::empty());
            append_bytes(&mut out, "\r\n\r\n".as_bytes());
            append_bytes(&mut out, c);
            out
        },
    }
}

/// The answer once a file has been written: `201 Created`.
pub fn post_file_response() -> (r: Vec<u8>)
    ensures
        r@ == created(),
{
    let mut out: Vec<u8> = Vec::new();
    append_bytes(&mut out, "HTTP/1.1 201 Created\r\n\r\n".as_bytes());
    out
}

/// The answer to `/`: `200 OK` and nothing else.
pub fn root_response() -> (r: Vec<u8>)
    ensures
        r@ == ok_empty(),
{
    let mut out: Vec<u8> = Vec::new();
    append_bytes(&mut out, "HTTP/1.1 200 OK\r\n\r\n".as_bytes());
    out
}

/// The answer to an unknown path or a missing file: `404 Not Found`.
pub fn not_found_response() -> (r: Vec<u8>)
    ensures
        r@ == not_found(),
{
    let mut out: Vec<u8> = Vec::new();
    append_bytes(&mut out, "HTTP/1.1 404 Not Found\r\n\r\n".as_bytes());
    out
}

} // verus!
