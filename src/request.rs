//! Parsing one HTTP/1.1 request off a byte buffer.
//!
//! The request head runs up to the first blank line (`CR LF CR LF`). Its first
//! line holds the method, path and version separated by ASCII whitespace; each
//! later line is a header `name: value`. A `content-length` header frames the
//! body that follows the blank line.
use vstd::prelude::*;
use vstd::string::StringSliceAdditionalSpecFns;
use crate::bytes::{all_digits, bytes_eq, copy_range, dec_value, parse_decimal};

verus! {

/// Carriage return.
pub const CR: u8 = 13;
/// Line feed.
pub const LF: u8 = 10;
/// The byte `:`.
pub const COLON: u8 = 58;
/// The byte ` `.
pub const SPACE: u8 = 32;

/// ASCII whitespace, as `u8::is_ascii_whitespace` has it.
pub open spec fn is_ws(b: u8) -> bool {
    b == 32 || b == 9 || b == 10 || b == 12 || b == 13
}

/// Whether `s[i..i + 2]` is `CR LF`.
pub open spec fn crlf_at(s: Seq<u8>, i: int) -> bool {
    0 <= i && i + 1 < s.len() && s[i] == CR && s[i + 1] == LF
}

/// Whether `s[i..i + 4]` is `CR LF CR LF`.
pub open spec fn blank_line_at(s: Seq<u8>, i: int) -> bool {
    crlf_at(s, i) && crlf_at(s, i + 2)
}

/// The first position at or after `i` where `CR LF CR LF` starts.
pub open spec fn head_end_from(s: Seq<u8>, i: int) -> Option<int>
    decreases s.len() - i,
{
    if i < 0 || i + 4 > s.len() {
        None
    } else if blank_line_at(s, i) {
        Some(i)
    } else {
        head_end_from(s, i + 1)
    }
}

/// The lines of `s[..h]`, split at each `CR LF`; `start` is where the current
/// line began and `i` how far it has been scanned. No line is produced for an
/// empty remainder at `h`.
pub open spec fn lines_from(s: Seq<u8>, start: int, i: int, h: int) -> Seq<Seq<u8>>
    decreases h - i,
{
    if i >= h {
        if start >= h {
            seq![]
        } else {
            seq![s.subrange(start, h)]
        }
    } else if crlf_at(s, i) {
        if i + 2 < h {
            seq![s.subrange(start, i)] + lines_from(s, i + 2, i + 2, h)
        } else {
            seq![s.subrange(start, i)]
        }
    } else {
        lines_from(s, start, i + 1, h)
    }
}

/// The first position at or after `i` in `l` that is not whitespace.
pub open spec fn skip_ws(l: Seq<u8>, i: int) -> int
    decreases l.len() - i,
{
    if i >= l.len() || i < 0 {
        i
    } else if is_ws(l[i]) {
        skip_ws(l, i + 1)
    } else {
        i
    }
}

/// The first position at or after `i` in `l` that is whitespace, or the end.
pub open spec fn token_end(l: Seq<u8>, i: int) -> int
    decreases l.len() - i,
{
    if i >= l.len() || i < 0 {
        i
    } else if is_ws(l[i]) {
        i
    } else {
        token_end(l, i + 1)
    }
}

/// The first three whitespace-separated tokens of a request line, if it has
/// three; later tokens are ignored.
pub open spec fn request_tokens(l: Seq<u8>) -> Option<(Seq<u8>, Seq<u8>, Seq<u8>)> {
    let s0 = skip_ws(l, 0);
    let e0 = token_end(l, s0);
    let s1 = skip_ws(l, e0);
    let e1 = token_end(l, s1);
    let s2 = skip_ws(l, e1);
    let e2 = token_end(l, s2);
    if s2 < l.len() {
        Some((l.subrange(s0, e0), l.subrange(s1, e1), l.subrange(s2, e2)))
    } else {
        None
    }
}

/// Returns the first position at or after `i` in `l` that is not whitespace.
pub fn skip_whitespace(l: &[u8], i: usize) -> (r: usize)
    requires
        i <= l@.len(),
    ensures
        r as int == skip_ws(l@, i as int),
        i <= r <= l@.len(),
{
    let mut j: usize = i;
    while j < l.len() && (l[j] == 32 || l[j] == 9 || l[j] == 10 || l[j] == 12 || l[j] == 13)
        invariant
            i <= j <= l@.len(),
            skip_ws(l@, i as int) == skip_ws(l@, j as int),
        decreases l@.len() - j,
    {
        j = j + 1;
    }
    j
}

/// Returns the end of the token that starts at `i` in `l`.
pub fn find_token_end(l: &[u8], i: usize) -> (r: usize)
    requires
        i <= l@.len(),
    ensures
        r as int == token_end(l@, i as int),
        i <= r <= l@.len(),
{
    let mut j: usize = i;
    while j < l.len() && !(l[j] == 32 || l[j] == 9 || l[j] == 10 || l[j] == 12 || l[j] == 13)
        invariant
            i <= j <= l@.len(),
            token_end(l@, i as int) == token_end(l@, j as int),
        decreases l@.len() - j,
    {
        j = j + 1;
    }
    j
}

/// Splits a request line into its method, path and version tokens.
pub fn request_line_tokens(l: &[u8]) -> (r: Option<(Vec<u8>, Vec<u8>, Vec<u8>)>)
    ensures
        match (r, request_tokens(l@)) {
            (Some(t), Some(m)) => t.0@ == m.0 && t.1@ == m.1 && t.2@ == m.2,
            (None, None) => true,
            _ => false,
        },
{
    let s0 = skip_whitespace(l, 0);
    let e0 = find_token_end(l, s0);
    let s1 = skip_whitespace(l, e0);
    let e1 = find_token_end(l, s1);
    let s2 = skip_whitespace(l, e1);
    let e2 = find_token_end(l, s2);
    if s2 < l.len() {
        Some((copy_range(l, s0, e0), copy_range(l, s1, e1), copy_range(l, s2, e2)))
    } else {
        None
    }
}

/// Returns where the request head ends: the first `CR LF CR LF` in `s`.
pub fn find_head_end(s: &[u8]) -> (r: Option<usize>)
    ensures
        match r {
            Some(h) => head_end_from(s@, 0) == Some(h as int) && h + 4 <= s@.len(),
            None => head_end_from(s@, 0) is None,
        },
{
    let mut i: usize = 0;
    while i <= s.len() && 4 <= s.len() - i
        invariant
            head_end_from(s@, 0) == head_end_from(s@, i as int),
        decreases s@.len() - i,
    {
        if s[i] == CR && s[i + 1] == LF && s[i + 2] == CR && s[i + 3] == LF {
            return Some(i);
        }
        i = i + 1;
    }
    None
}

/// The lines of the head `s[..h]`, as `(start, end)` spans of `s`.
pub fn split_lines(s: &[u8], h: usize) -> (r: Vec<(usize, usize)>)
    requires
        h + 4 <= s@.len(),
    ensures
        forall|k: int| 0 <= k < r@.len() ==> (#[trigger] r@[k]).0 <= r@[k].1 <= s@.len(),
        r@.map_values(|p: (usize, usize)| s@.subrange(p.0 as int, p.1 as int))
            == lines_from(s@, 0, 0, h as int),
{
    let mut r: Vec<(usize, usize)> = Vec::new();
    let mut start: usize = 0;
    let mut j: usize = 0;
    while j < h
        invariant
            h + 4 <= s@.len(),
            start <= j <= h + 1,
            forall|k: int| 0 <= k < r@.len() ==> (#[trigger] r@[k]).0 <= r@[k].1 <= s@.len(),
            lines_from(s@, 0, 0, h as int)
                == r@.map_values(|p: (usize, usize)| s@.subrange(p.0 as int, p.1 as int))
                + lines_from(s@, start as int, j as int, h as int),
        decreases h + 1 - j,
    {
        if s[j] == CR && s[j + 1] == LF {
            let ghost old_r = r@;
            r.push((start, j));
            assert(r@.map_values(|p: (usize, usize)| s@.subrange(p.0 as int, p.1 as int))
                =~= old_r.map_values(|p: (usize, usize)| s@.subrange(p.0 as int, p.1 as int))
                + seq![s@.subrange(start as int, j as int)]);
            start = j + 2;
            j = j + 2;
        } else {
            j = j + 1;
        }
    }
    if start < h {
        let ghost old_r = r@;
        r.push((start, h));
        assert(r@.map_values(|p: (usize, usize)| s@.subrange(p.0 as int, p.1 as int))
            =~= old_r.map_values(|p: (usize, usize)| s@.subrange(p.0 as int, p.1 as int))
            + seq![s@.subrange(start as int, h as int)]);
    } else {
        assert(r@.map_values(|p: (usize, usize)| s@.subrange(p.0 as int, p.1 as int))
            =~= r@.map_values(|p: (usize, usize)| s@.subrange(p.0 as int, p.1 as int))
            + lines_from(s@, start as int, j as int, h as int));
    }
    r
}

/// The request methods this server supports.
#[derive(PartialEq, Eq, Structural, Clone, Copy, Debug)]
pub enum HttpMethod {
    Get,
    Post,
}

/// The method that a request-line token names, if it is a supported one.
pub open spec fn method_of(m: Seq<u8>) -> Option<HttpMethod> {
    if m == "GET".spec_bytes() {
        Some(HttpMethod::Get)
    } else if m == "POST".spec_bytes() {
        Some(HttpMethod::Post)
    } else {
        None
    }
}

impl HttpMethod {
    /// Reads a method token: `GET` or `POST`, case-sensitive.
    pub fn parse(s: &[u8]) -> (r: Option<HttpMethod>)
        ensures
            r == method_of(s@),
    {
        if bytes_eq(s, "GET".as_bytes()) {
            Some(HttpMethod::Get)
        } else if bytes_eq(s, "POST".as_bytes()) {
            Some(HttpMethod::Post)
        } else {
            None
        }
    }
}

/// An ASCII upper-case letter mapped to lower case; other bytes unchanged.
pub open spec fn lower_byte(b: u8) -> u8 {
    if 65 <= b && b <= 90 {
        (b + 32) as u8
    } else {
        b
    }
}

/// `s` with its ASCII letters in lower case.
pub open spec fn ascii_lower(s: Seq<u8>) -> Seq<u8> {
    s.map_values(|b: u8| lower_byte(b))
}

/// Returns `s` with its ASCII letters in lower case.
pub fn to_ascii_lower(s: &[u8]) -> (r: Vec<u8>)
    ensures
        r@ == ascii_lower(s@),
{
    let mut r: Vec<u8> = Vec::new();
    let mut i: usize = 0;
    while i < s.len()
        invariant
            i <= s@.len(),
            r@ == ascii_lower(s@.take(i as int)),
        decreases s@.len() - i,
    {
        let b = s[i];
        let lb = if 65 <= b && b <= 90 {
            b + 32
        } else {
            b
        };
        r.push(lb);
        i = i + 1;
        assert(ascii_lower(s@.take(i as int)) =~= ascii_lower(s@.take(i as int - 1)).push(lb));
    }
    assert(s@.take(i as int) =~= s@);
    r
}

/// The first position at or after `i` in `l` where `": "` starts.
pub open spec fn sep_from(l: Seq<u8>, i: int) -> Option<int>
    decreases l.len() - i,
{
    if i < 0 || i + 1 >= l.len() {
        None
    } else if l[i] == COLON && l[i + 1] == SPACE {
        Some(i)
    } else {
        sep_from(l, i + 1)
    }
}

/// A header line split at its first `": "`: the lower-cased name and the
/// value as it stands.
pub open spec fn header_pair(l: Seq<u8>) -> Option<(Seq<u8>, Seq<u8>)> {
    match sep_from(l, 0) {
        Some(p) => Some((ascii_lower(l.take(p)), l.skip(p + 2))),
        None => None,
    }
}

/// The headers of a run of header lines in order, or `None` if a line has no
/// `": "`.
pub open spec fn header_pairs(ls: Seq<Seq<u8>>) -> Option<Seq<(Seq<u8>, Seq<u8>)>>
    decreases ls.len(),
{
    if ls.len() == 0 {
        Some(seq![])
    } else {
        match (header_pairs(ls.drop_last()), header_pair(ls.last())) {
            (Some(ps), Some(p)) => Some(ps.push(p)),
            _ => None,
        }
    }
}

/// The header mapping: each name to the value of its last occurrence.
pub open spec fn pairs_map(ps: Seq<(Seq<u8>, Seq<u8>)>) -> Map<Seq<u8>, Seq<u8>>
    decreases ps.len(),
{
    if ps.len() == 0 {
        Map::empty()
    } else {
        pairs_map(ps.drop_last()).insert(ps.last().0, ps.last().1)
    }
}

/// The name and value of each stored header, as byte sequences.
pub open spec fn pairs_view(v: Seq<(Vec<u8>, Vec<u8>)>) -> Seq<(Seq<u8>, Seq<u8>)> {
    v.map_values(|p: (Vec<u8>, Vec<u8>)| (p.0@, p.1@))
}

/// Returns where the first `": "` of `l` starts.
pub fn find_separator(l: &[u8]) -> (r: Option<usize>)
    ensures
        match r {
            Some(p) => sep_from(l@, 0) == Some(p as int) && p + 2 <= l@.len(),
            None => sep_from(l@, 0) is None,
        },
{
    let mut i: usize = 0;
    while i < l.len() && 1 < l.len() - i
        invariant
            i <= l@.len(),
            sep_from(l@, 0) == sep_from(l@, i as int),
        decreases l@.len() - i,
    {
        if l[i] == COLON && l[i + 1] == SPACE {
            return Some(i);
        }
        i = i + 1;
    }
    None
}

/// Splits a header line into its lower-cased name and its value.
pub fn parse_header(l: &[u8]) -> (r: Option<(Vec<u8>, Vec<u8>)>)
    ensures
        match (r, header_pair(l@)) {
            (Some(p), Some(m)) => p.0@ == m.0 && p.1@ == m.1,
            (None, None) => true,
            _ => false,
        },
{
    match find_separator(l) {
        None => None,
        Some(p) => {
            let name = copy_range(l, 0, p);
            let n = l.len();
            let value = copy_range(l, p + 2, n);
            assert(l@.subrange(0, p as int) =~= l@.take(p as int));
            assert(l@.subrange(p + 2, l@.len() as int) =~= l@.skip(p + 2));
            Some((to_ascii_lower(name.as_slice()), value))
        },
    }
}

/// Returns the index of the last stored header named `name`; that header's
/// value is what the mapping holds for `name`.
pub fn find_header(headers: &Vec<(Vec<u8>, Vec<u8>)>, name: &[u8]) -> (r: Option<usize>)
    ensures
        match r {
            Some(i) => i < headers@.len() && pairs_map(pairs_view(headers@)).contains_key(name@)
                && pairs_map(pairs_view(headers@))[name@] == headers@[i as int].1@,
            None => !pairs_map(pairs_view(headers@)).contains_key(name@),
        },
{
    let ghost pv = pairs_view(headers@);
    let mut i: usize = headers.len();
    assert(pv.take(i as int) =~= pv);
    while i > 0
        invariant
            i <= headers@.len(),
            pv == pairs_view(headers@),
            pairs_map(pv).contains_key(name@) == pairs_map(pv.take(i as int)).contains_key(name@),
            pairs_map(pv).contains_key(name@) ==> pairs_map(pv)[name@] == pairs_map(
                pv.take(i as int),
            )[name@],
        decreases i,
    {
        assert(pv.take(i as int).drop_last() =~= pv.take(i as int - 1));
        if bytes_eq(headers[i - 1].0.as_slice(), name) {
            return Some(i - 1);
        }
        i = i - 1;
    }
    None
}

/// Why a buffer does not hold a request.
#[derive(PartialEq, Eq, Structural, Clone, Copy, Debug)]
pub enum ParseError {
    /// The head or the body has not fully arrived yet.
    Incomplete,
    /// A missing request-line token or a header line without `": "`.
    Malformed,
    /// A method other than `GET` and `POST`.
    UnsupportedMethod,
    /// A `content-length` value that is not a decimal number fitting `usize`.
    BadContentLength,
}

/// What a request says, as mathematical values.
pub struct RequestModel {
    pub method: HttpMethod,
    pub path: Seq<u8>,
    pub version: Seq<u8>,
    pub headers: Map<Seq<u8>, Seq<u8>>,
    pub body: Option<Seq<u8>>,
}

/// The byte `+`.
pub const PLUS: u8 = 43;

/// The number that a `content-length` value states: decimal digits, after an
/// optional `+`, that fit in `usize`.
pub open spec fn length_value(v: Seq<u8>) -> Option<nat> {
    let d = if v.len() > 0 && v[0] == PLUS {
        v.skip(1)
    } else {
        v
    };
    if all_digits(d) && dec_value(d) <= usize::MAX {
        Some(dec_value(d))
    } else {
        None
    }
}

/// Reads a `content-length` value.
pub fn parse_length(v: &[u8]) -> (r: Option<usize>)
    ensures
        match r {
            Some(n) => length_value(v@) == Some(n as nat),
            None => length_value(v@) is None,
        },
{
    if v.len() > 0 && v[0] == PLUS {
        let n = v.len();
        let d = &v[1..n];
        assert(d@ =~= v@.skip(1));
        parse_decimal(d)
    } else {
        parse_decimal(v)
    }
}

/// The name of the header that frames the body.
pub open spec fn content_length_name() -> Seq<u8> {
    "content-length".spec_bytes()
}

/// The body length that the headers declare: zero without a
/// `content-length` header.
pub open spec fn declared_length(hs: Map<Seq<u8>, Seq<u8>>) -> Result<nat, ParseError> {
    if hs.contains_key(content_length_name()) {
        match length_value(hs[content_length_name()]) {
            Some(n) => Ok(n),
            None => Err(ParseError::BadContentLength),
        }
    } else {
        Ok(0)
    }
}

/// The request that the buffer `s` begins with. Bytes after the declared
/// body are not part of it.
pub open spec fn parse_spec(s: Seq<u8>) -> Result<RequestModel, ParseError> {
    match head_end_from(s, 0) {
        None => Err(ParseError::Incomplete),
        Some(h) => {
            let lines = lines_from(s, 0, 0, h);
            if lines.len() == 0 {
                Err(ParseError::Malformed)
            } else {
                match request_tokens(lines[0]) {
                    None => Err(ParseError::Malformed),
                    Some(t) => match method_of(t.0) {
                        None => Err(ParseError::UnsupportedMethod),
                        Some(method) => match header_pairs(lines.drop_first()) {
                            None => Err(ParseError::Malformed),
                            Some(ps) => {
                                let hs = pairs_map(ps);
                                match declared_length(hs) {
                                    Err(e) => Err(e),
                                    Ok(n) => if s.len() < h + 4 + n {
                                        Err(ParseError::Incomplete)
                                    } else {
                                        Ok(
                                            RequestModel {
                                                method,
                                                path: t.1,
                                                version: t.2,
                                                headers: hs,
                                                body: if n > 0 {
                                                    Some(s.subrange(h + 4, h + 4 + n))
                                                } else {
                                                    None
                                                },
                                            },
                                        )
                                    },
                                }
                            },
                        },
                    },
                }
            }
        },
    }
}

/// A parsed request. Header names are stored lower-cased, in arrival order;
/// for a repeated name the last one counts.
pub struct HttpRequest {
    pub method: HttpMethod,
    pub path: Vec<u8>,
    pub version: Vec<u8>,
    pub headers: Vec<(Vec<u8>, Vec<u8>)>,
    pub body: Option<Vec<u8>>,
}

impl View for HttpRequest {
    type V = RequestModel;

    open spec fn view(&self) -> RequestModel {
        RequestModel {
            method: self.method,
            path: self.path@,
            version: self.version@,
            headers: pairs_map(pairs_view(self.headers@)),
            body: match self.body {
                Some(b) => Some(b@),
                None => None,
            },
        }
    }
}

proof fn lemma_header_pairs_fail_extends(ls: Seq<Seq<u8>>, k: int)
    requires
        0 <= k <= ls.len(),
        header_pairs(ls.take(k)) is None,
    ensures
        header_pairs(ls) is None,
    decreases ls.len() - k,
{
    if k < ls.len() {
        assert(ls.take(k + 1).drop_last() =~= ls.take(k));
        lemma_header_pairs_fail_extends(ls, k + 1);
    } else {
        assert(ls.take(k) =~= ls);
    }
}

impl HttpRequest {
    /// Parses the request that the buffer `s` begins with.
    pub fn parse(s: &[u8]) -> (r: Result<HttpRequest, ParseError>)
        ensures
            match r {
                Ok(q) => parse_spec(s@) == Ok::<RequestModel, ParseError>(q@),
                Err(e) => parse_spec(s@) == Err::<RequestModel, ParseError>(e),
            },
    {
        let h = match find_head_end(s) {
            None => return Err(ParseError::Incomplete),
            Some(h) => h,
        };
        let spans = split_lines(s, h);
        let ghost lines = lines_from(s@, 0, 0, h as int);
        assert(spans@.len() == lines.len()) by {
            assert(spans@.map_values(|p: (usize, usize)| s@.subrange(p.0 as int, p.1 as int)).len()
                == spans@.len());
        }
        if spans.len() == 0 {
            return Err(ParseError::Malformed);
        }
        let first = copy_range(s, spans[0].0, spans[0].1);
        assert(first@ == lines[0]) by {
            assert(spans@.map_values(|p: (usize, usize)| s@.subrange(p.0 as int, p.1 as int))[0]
                == lines[0]);
        }
        let (m, path, version) = match request_line_tokens(first.as_slice()) {
            None => return Err(ParseError::Malformed),
            Some(t) => t,
        };
        let method = match HttpMethod::parse(m.as_slice()) {
            None => return Err(ParseError::UnsupportedMethod),
            Some(x) => x,
        };
        let ghost hl = lines.drop_first();
        let mut headers: Vec<(Vec<u8>, Vec<u8>)> = Vec::new();
        let mut k: usize = 1;
        assert(hl.take(0) =~= Seq::<Seq<u8>>::empty());
        assert(pairs_view(headers@) =~= Seq::<(Seq<u8>, Seq<u8>)>::empty());
        while k < spans.len()
            invariant
                1 <= k <= spans@.len(),
                spans@.len() == lines.len(),
                h + 4 <= s@.len(),
                head_end_from(s@, 0) == Some(h as int),
                lines == lines_from(s@, 0, 0, h as int),
                request_tokens(lines[0]) matches Some(t) && t.0 == m@ && t.1 == path@ && t.2 == version@,
                method_of(m@) == Some(method),
                hl == lines.drop_first(),
                forall|j: int| 0 <= j < spans@.len() ==> (#[trigger] spans@[j]).0 <= spans@[j].1 <= s@.len(),
                spans@.map_values(|p: (usize, usize)| s@.subrange(p.0 as int, p.1 as int)) == lines,
                header_pairs(hl.take(k - 1)) == Some(pairs_view(headers@)),
            decreases spans@.len() - k,
        {
            let line = copy_range(s, spans[k].0, spans[k].1);
            assert(line@ == lines[k as int]) by {
                assert(spans@.map_values(|p: (usize, usize)| s@.subrange(p.0 as int, p.1 as int))[k as int]
                    == lines[k as int]);
            }
            assert(hl.take(k as int).drop_last() =~= hl.take(k - 1));
            assert(hl.take(k as int).last() == lines[k as int]);
            match parse_header(line.as_slice()) {
                None => {
                    proof {
                        lemma_header_pairs_fail_extends(hl, k as int);
                    }
                    return Err(ParseError::Malformed);
                },
                Some(p) => {
                    let ghost before = headers@;
                    headers.push(p);
                    assert(pairs_view(headers@) =~= pairs_view(before).push((p.0@, p.1@)));
                },
            }
            k = k + 1;
        }
        assert(hl.take(k - 1) =~= hl);
        let n: usize = match find_header(&headers, "content-length".as_bytes()) {
            None => 0,
            Some(i) => match parse_length(headers[i].1.as_slice()) {
                None => return Err(ParseError::BadContentLength),
                Some(n) => n,
            },
        };
        let len = s.len();
        let start = h + 4;
        if len - start < n {
            return Err(ParseError::Incomplete);
        }
        let body = if n > 0 {
            Some(copy_range(s, start, start + n))
        } else {
            None
        };
        let q = HttpRequest { method, path, version, headers, body };
        assert(q@.headers == pairs_map(pairs_view(q.headers@)));
        Ok(q)
    }

    /// The value of header `name` (lower-case), if the request has one.
    pub fn header(&self, name: &[u8]) -> (r: Option<&Vec<u8>>)
        ensures
            match r {
                Some(v) => self@.headers.contains_key(name@) && self@.headers[name@] == v@,
                None => !self@.headers.contains_key(name@),
            },
    {
        match find_header(&self.headers, name) {
            Some(i) => Some(&self.headers[i].1),
            None => None,
        }
    }
}

} // verus!
