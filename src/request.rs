use vstd::prelude::*;
use vstd::utf8::*;

use crate::headers::{inserted, value_of, HeaderEntry, Headers};
use crate::response::{decimal_value, is_digit};
use crate::vocab::HttpMethod;

verus! {

/// What `String::from_utf8_lossy` makes of a byte sequence that is not
/// valid UTF-8.
pub uninterp spec fn lossy_text(b: Seq<u8>) -> Seq<char>;

/// The text of a byte sequence: its UTF-8 decoding where it is valid UTF-8,
/// else the decoding that replaces each invalid sequence.
pub open spec fn decoded_text(b: Seq<u8>) -> Seq<char> {
    if valid_utf8(b) {
        decode_utf8(b)
    } else {
        lossy_text(b)
    }
}

/// Relies on `String::from_utf8_lossy`: valid UTF-8 is decoded as it is, and
/// otherwise the text depends on the bytes alone (invalid sequences become
/// U+FFFD).
#[verifier::external_body]
fn text_of(b: &[u8]) -> (r: String)
    ensures
        valid_utf8(b@) ==> r@ == decode_utf8(b@),
        !valid_utf8(b@) ==> r@ == lossy_text(b@),
{
    String::from_utf8_lossy(b).into_owned()
}

/// A header line split at its first `": "`, as bytes.
pub type RawHeader = (Seq<u8>, Seq<u8>);

/// Space, tab, line feed, vertical tab, form feed or carriage return: the
/// whitespace that separates the tokens of a request line. The request line
/// is split on these bytes before any decoding, so Unicode whitespace
/// outside ASCII (such as U+00A0) stays part of a token.
pub open spec fn is_space(c: u8) -> bool {
    c == 32 || (9 <= c && c <= 13)
}

/// Whether a CRLF pair starts at `i`.
pub open spec fn crlf_at(b: Seq<u8>, i: int) -> bool {
    0 <= i && i + 1 < b.len() && b[i] == 13 && b[i + 1] == 10
}

/// The end of the line that starts at `p`: the first CRLF at or after `p`,
/// or the end of the input when no CRLF follows.
pub open spec fn line_end(b: Seq<u8>, p: int) -> int
    decreases b.len() - p,
{
    if p < 0 || p + 1 >= b.len() {
        b.len() as int
    } else if crlf_at(b, p) {
        p
    } else {
        line_end(b, p + 1)
    }
}

/// The first position in `p..e` that does not hold a space, or `e`.
pub open spec fn skip_spaces(b: Seq<u8>, p: int, e: int) -> int
    decreases e - p,
{
    if p >= e || !is_space(b[p]) {
        p
    } else {
        skip_spaces(b, p + 1, e)
    }
}

/// The first position in `p..e` that holds a space, or `e`.
pub open spec fn skip_word(b: Seq<u8>, p: int, e: int) -> int
    decreases e - p,
{
    if p >= e || is_space(b[p]) {
        p
    } else {
        skip_word(b, p + 1, e)
    }
}

/// The first position in `p..e` where `": "` starts and ends before `e`,
/// or `e`.
pub open spec fn find_sep(b: Seq<u8>, p: int, e: int) -> int
    decreases e - p,
{
    if p + 1 >= e {
        e
    } else if b[p] == 58 && b[p + 1] == 32 {
        p
    } else {
        find_sep(b, p + 1, e)
    }
}

/// The header lines from `p` on, up to the first empty line, with the
/// position where the body starts; `None` when a line has no `": "`.
pub open spec fn header_block(b: Seq<u8>, p: int) -> Option<(Seq<RawHeader>, int)>
    decreases b.len() - p,
{
    let e = line_end(b, p);
    if p < 0 || e < p || e > b.len() {
        None
    } else if e == p {
        Some((Seq::empty(), if e < b.len() { e + 2 } else { b.len() as int }))
    } else {
        let c = find_sep(b, p, e);
        if c == e {
            None
        } else {
            let h = (b.subrange(p, c), b.subrange(c + 2, e));
            if e + 2 > b.len() {
                Some((seq![h], b.len() as int))
            } else {
                match header_block(b, e + 2) {
                    Some((rest, s)) => Some((seq![h] + rest, s)),
                    None => None,
                }
            }
        }
    }
}

/// The headers that a run of header lines gives, decoded, a later line for
/// a name overwriting an earlier one.
pub open spec fn headers_of(raw: Seq<RawHeader>) -> Seq<HeaderEntry>
    decreases raw.len(),
{
    if raw.len() == 0 {
        Seq::empty()
    } else {
        inserted(headers_of(raw.drop_last()), decoded_text(raw.last().0), decoded_text(raw.last().1))
    }
}

/// The digits of a length, after an optional leading `+`.
pub open spec fn length_digits(s: Seq<char>) -> Seq<char> {
    if s.len() > 0 && s[0] == '+' {
        s.drop_first()
    } else {
        s
    }
}

/// The value of a `Content-Length`: one or more decimal digits after an
/// optional `+`, no larger than `usize::MAX`.
pub open spec fn length_value(s: Seq<char>) -> Option<int> {
    if length_digits(s).len() > 0 && all_digits(length_digits(s))
        && decimal_value(length_digits(s)) <= usize::MAX {
        Some(decimal_value(length_digits(s)))
    } else {
        None
    }
}

/// Whether every character of `d` is a decimal digit.
pub open spec fn all_digits(d: Seq<char>) -> bool {
    forall|i: int| 0 <= i < d.len() ==> is_digit(#[trigger] d[i])
}

/// The declared body length: 0 with no `Content-Length`, `None` when its
/// value is not a length.
pub open spec fn declared_length(h: Seq<HeaderEntry>) -> Option<int> {
    match value_of(h, "Content-Length"@) {
        None => Some(0),
        Some(v) => length_value(v),
    }
}

/// Method, path, headers and the position where the body starts, of the
/// bytes first read from a connection.
pub open spec fn request_head(b: Seq<u8>) -> Option<(HttpMethod, Seq<char>, Seq<HeaderEntry>, int)> {
    let e0 = line_end(b, 0);
    let ms = skip_spaces(b, 0, e0);
    let me = skip_word(b, ms, e0);
    let ps = skip_spaces(b, me, e0);
    let pe = skip_word(b, ps, e0);
    let block = if e0 < b.len() {
        header_block(b, e0 + 2)
    } else {
        Some((Seq::empty(), b.len() as int))
    };
    if ms == me || ps == pe {
        None
    } else {
        match (HttpMethod::of_token(decoded_text(b.subrange(ms, me))), block) {
            (Some(m), Some((raw, s))) => Some((m, decoded_text(b.subrange(ps, pe)), headers_of(raw), s)),
            _ => None,
        }
    }
}

/// The request that the bytes first read from a connection begin, with the
/// body bytes they already hold and the number of body bytes still to come.
/// `None` for a malformed request, a `Content-Length` that is not a length,
/// and one smaller than the body bytes already read.
pub open spec fn parsed_request(b: Seq<u8>) -> Option<(HttpMethod, Seq<char>, Seq<HeaderEntry>, Seq<u8>, int)> {
    match request_head(b) {
        Some((m, path, h, s)) => match declared_length(h) {
            Some(len) => if len >= b.len() - s {
                Some((m, path, h, b.subrange(s, b.len() as int), len - (b.len() - s)))
            } else {
                None
            },
            None => None,
        },
        None => None,
    }
}

fn is_space_byte(c: u8) -> (r: bool)
    ensures
        r == is_space(c),
{
    c == 32 || (9 <= c && c <= 13)
}

fn find_line_end(b: &[u8], p: usize) -> (r: usize)
    requires
        p <= b@.len(),
    ensures
        r == line_end(b@, p as int),
        p <= r <= b@.len(),
        r < b@.len() ==> crlf_at(b@, r as int),
{
    let n = b.len();
    let mut i = p;
    while i < n
        invariant
            n == b@.len(),
            p <= i <= n,
            line_end(b@, p as int) == line_end(b@, i as int),
        decreases n - i,
    {
        if i + 1 >= n {
            return n;
        }
        if b[i] == 13 && b[i + 1] == 10 {
            return i;
        }
        i = i + 1;
    }
    n
}

fn skip_spaces_in(b: &[u8], p: usize, e: usize) -> (r: usize)
    requires
        p <= e <= b@.len(),
    ensures
        r == skip_spaces(b@, p as int, e as int),
        p <= r <= e,
{
    let mut i = p;
    while i < e
        invariant
            p <= i <= e <= b@.len(),
            skip_spaces(b@, p as int, e as int) == skip_spaces(b@, i as int, e as int),
        decreases e - i,
    {
        if !is_space_byte(b[i]) {
            return i;
        }
        i = i + 1;
    }
    e
}

fn skip_word_in(b: &[u8], p: usize, e: usize) -> (r: usize)
    requires
        p <= e <= b@.len(),
    ensures
        r == skip_word(b@, p as int, e as int),
        p <= r <= e,
{
    let mut i = p;
    while i < e
        invariant
            p <= i <= e <= b@.len(),
            skip_word(b@, p as int, e as int) == skip_word(b@, i as int, e as int),
        decreases e - i,
    {
        if is_space_byte(b[i]) {
            return i;
        }
        i = i + 1;
    }
    e
}

fn find_sep_in(b: &[u8], p: usize, e: usize) -> (r: usize)
    requires
        p <= e <= b@.len(),
    ensures
        r == find_sep(b@, p as int, e as int),
        p <= r <= e,
        r < e ==> r + 2 <= e,
{
    let mut i = p;
    while i < e
        invariant
            p <= i <= e <= b@.len(),
            find_sep(b@, p as int, e as int) == find_sep(b@, i as int, e as int),
        decreases e - i,
    {
        if i + 1 >= e {
            return e;
        }
        if b[i] == 58 && b[i + 1] == 32 {
            return i;
        }
        i = i + 1;
    }
    e
}

/// Reads the header lines from `p` on; the result gives the headers and the
/// position where the body starts.
fn parse_headers(b: &[u8], p: usize) -> (r: Result<(Headers, usize), ParseError>)
    requires
        p <= b@.len(),
    ensures
        match header_block(b@, p as int) {
            Some((raw, s)) => r matches Ok((h, t)) && h.wf() && h@ == headers_of(raw) && t == s,
            None => r is Err,
        },
        r matches Ok((h, t)) ==> t <= b@.len(),
{
    let n = b.len();
    let mut h = Headers::new();
    let mut q = p;
    let ghost mut acc: Seq<RawHeader> = Seq::empty();
    assert(acc + Seq::<RawHeader>::empty() =~= Seq::<RawHeader>::empty());
    loop
        invariant
            n == b@.len(),
            q <= n,
            h.wf(),
            h@ == headers_of(acc),
            header_block(b@, p as int) == match header_block(b@, q as int) {
                Some((rest, s)) => Some((acc + rest, s)),
                None => None,
            },
        decreases n - q,
    {
        let e = find_line_end(b, q);
        if e == q {
            assert(acc + Seq::<RawHeader>::empty() =~= acc);
            return Ok((h, if e < n { e + 2 } else { n }));
        }
        let c = find_sep_in(b, q, e);
        if c == e {
            return Err(ParseError::Malformed);
        }
        let key = text_of(&b[q..c]);
        let value = text_of(&b[c + 2..e]);
        let ghost raw: RawHeader = (b@.subrange(q as int, c as int), b@.subrange(c + 2, e as int));
        h.insert(key, value);
        proof {
            let next = acc.push(raw);
            assert(next.drop_last() =~= acc);
            match header_block(b@, e + 2) {
                Some((rest, s)) => {
                    assert(acc + (seq![raw] + rest) =~= next + rest);
                },
                None => {},
            }
            assert(acc + seq![raw] =~= next);
            acc = next;
        }
        if e >= n {
            return Ok((h, n));
        }
        q = e + 2;
    }
}

/// A run of digits has a value of at least zero.
proof fn decimal_nonneg(d: Seq<char>)
    requires
        forall|k: int| 0 <= k < d.len() ==> is_digit(#[trigger] d[k]),
    ensures
        decimal_value(d) >= 0,
    decreases d.len(),
{
    if d.len() > 0 {
        let p = d.drop_last();
        assert forall|k: int| 0 <= k < p.len() implies is_digit(#[trigger] p[k]) by {
            assert(is_digit(d[k]));
        }
        decimal_nonneg(p);
        assert(is_digit(d[d.len() - 1]));
    }
}

/// Every prefix of a run of digits has a value no larger than the whole.
proof fn decimal_prefix_bound(d: Seq<char>, i: int)
    requires
        0 <= i <= d.len(),
        forall|k: int| 0 <= k < d.len() ==> is_digit(#[trigger] d[k]),
    ensures
        decimal_value(d.subrange(0, i)) <= decimal_value(d),
    decreases d.len() - i,
{
    if i < d.len() {
        decimal_prefix_bound(d, i + 1);
        let pre = d.subrange(0, i + 1);
        assert(pre.drop_last() =~= d.subrange(0, i));
        let q = d.subrange(0, i);
        assert forall|k: int| 0 <= k < q.len() implies is_digit(#[trigger] q[k]) by {
            assert(is_digit(d[k]));
        }
        decimal_nonneg(q);
        assert(is_digit(d[i]));
        assert(pre.last() == d[i]);
    } else {
        assert(d.subrange(0, i) =~= d);
    }
}

/// Reads a `Content-Length` value.
pub fn parse_length(s: &str) -> (r: Option<usize>)
    ensures
        r matches Some(v) ==> length_value(s@) == Some(v as int),
        r is None ==> length_value(s@) is None,
{
    let n = s.unicode_len();
    let mut i: usize = 0;
    if n > 0 && s.get_char(0) == '+' {
        i = 1;
    }
    let ghost d = length_digits(s@);
    assert(d =~= s@.subrange(i as int, n as int));
    if i == n {
        return None;
    }
    let start = i;
    let mut v: usize = 0;
    while i < n
        invariant
            n == s@.len(),
            d == s@.subrange(start as int, n as int),
            d == length_digits(s@),
            start < n,
            start <= i <= n,
            forall|k: int| 0 <= k < i - start ==> is_digit(#[trigger] d[k]),
            v as int == decimal_value(d.subrange(0, i - start)),
        decreases n - i,
    {
        let c = s.get_char(i);
        if !('0' <= c && c <= '9') {
            assert(!is_digit(d[i - start]));
            assert(!all_digits(d));
            assert(length_value(s@) is None);
            return None;
        }
        let digit = (c as u32 - '0' as u32) as usize;
        let ghost pre = d.subrange(0, i - start + 1);
        assert(pre.drop_last() =~= d.subrange(0, i - start));
        assert(pre.last() == c);
        if v > (usize::MAX - digit) / 10 {
            proof {
                assert(decimal_value(pre) > usize::MAX) by (nonlinear_arith)
                    requires
                        decimal_value(pre) == 10 * v + digit,
                        v > (usize::MAX - digit) / 10,
                        digit <= 9,
                ;
                if all_digits(d) {
                    decimal_prefix_bound(d, i - start + 1);
                    assert(decimal_value(d) > usize::MAX);
                }
                assert(length_value(s@) is None);
            }
            return None;
        }
        assert(10 * v + digit <= usize::MAX) by (nonlinear_arith)
            requires
                v <= (usize::MAX - digit) / 10,
                digit <= 9,
        ;
        v = 10 * v + digit;
        i = i + 1;
    }
    assert(d.subrange(0, n - start) =~= d);
    Some(v)
}

fn copy_bytes(b: &[u8], from: usize, to: usize) -> (r: Vec<u8>)
    requires
        from <= to <= b@.len(),
    ensures
        r@ == b@.subrange(from as int, to as int),
{
    let mut r: Vec<u8> = Vec::new();
    let mut i = from;
    while i < to
        invariant
            from <= i <= to <= b@.len(),
            r@ == b@.subrange(from as int, i as int),
        decreases to - i,
    {
        r.push(b[i]);
        i = i + 1;
        assert(r@ =~= b@.subrange(from as int, i as int));
    }
    r
}

/// Why a request could not be read.
#[derive(Debug, Clone, Copy, PartialEq, Eq, Structural)]
pub enum ParseError {
    /// The request line, a header line or the `Content-Length` is not in
    /// the expected form, or the method is unknown.
    Malformed,
}

/// A request as read from a connection.
#[derive(Debug)]
pub struct HttpRequest {
    pub method: HttpMethod,
    pub path: String,
    pub headers: Headers,
    /// The body bytes, kept as they came.
    pub body: Vec<u8>,
}

/// A request whose body may still lack bytes.
#[derive(Debug)]
pub struct PendingRequest {
    pub request: HttpRequest,
    /// How many body bytes are still to be read.
    pub remaining: usize,
}

impl PendingRequest {
    /// The request, with the bytes of the one further read appended to its body.
    pub fn complete(self, more: &[u8]) -> (r: HttpRequest)
        ensures
            r.method == self.request.method,
            r.path@ == self.request.path@,
            r.headers@ == self.request.headers@,
            r.headers.wf() == self.request.headers.wf(),
            r.body@ == self.request.body@ + more@,
    {
        let mut request = self.request;
        let mut i: usize = 0;
        let ghost start = request.body@;
        while i < more.len()
            invariant
                i <= more@.len(),
                request.body@ == start + more@.subrange(0, i as int),
                request.method == self.request.method,
                request.path@ == self.request.path@,
                request.headers@ == self.request.headers@,
                request.headers.wf() == self.request.headers.wf(),
            decreases more@.len() - i,
        {
            request.body.push(more[i]);
            i = i + 1;
            assert(request.body@ =~= start + more@.subrange(0, i as int));
        }
        assert(more@.subrange(0, more@.len() as int) =~= more@);
        request
    }
}

/// Reads a request from the bytes of the first read on a connection: the
/// request line `METHOD PATH ...` (tokens separated by ASCII whitespace),
/// header lines `Name: Value` up to an empty line, and what follows as the
/// start of the body. A `Content-Length`
/// header gives the body length (0 without one); the result says how many
/// body bytes a further read must still bring.
pub fn parse_request(b: &[u8]) -> (r: Result<PendingRequest, ParseError>)
    ensures
        match parsed_request(b@) {
            Some((m, path, h, body, rest)) => r matches Ok(p) && p.request.method == m
                && p.request.path@ == path && p.request.headers@ == h && p.request.headers.wf()
                && p.request.body@ == body && p.remaining as int == rest,
            None => r is Err,
        },
{
    let n = b.len();
    let e0 = find_line_end(b, 0);
    let ms = skip_spaces_in(b, 0, e0);
    let me = skip_word_in(b, ms, e0);
    let ps = skip_spaces_in(b, me, e0);
    let pe = skip_word_in(b, ps, e0);
    if ms == me || ps == pe {
        return Err(ParseError::Malformed);
    }
    let token = text_of(&b[ms..me]);
    let method = match HttpMethod::from_str(token.as_str()) {
        Ok(m) => m,
        Err(_) => return Err(ParseError::Malformed),
    };
    let path = text_of(&b[ps..pe]);
    let (headers, s) = if e0 < n {
        match parse_headers(b, e0 + 2) {
            Ok(hs) => hs,
            Err(e) => return Err(e),
        }
    } else {
        (Headers::new(), n)
    };
    assert(s <= n);
    let declared = match headers.get("Content-Length") {
        None => 0,
        Some(v) => match parse_length(v.as_str()) {
            Some(x) => x,
            None => return Err(ParseError::Malformed),
        },
    };
    let have = n - s;
    if declared < have {
        return Err(ParseError::Malformed);
    }
    let body = copy_bytes(b, s, n);
    Ok(PendingRequest {
        request: HttpRequest { method, path, headers, body },
        remaining: declared - have,
    })
}

/// A line runs on past positions that hold no CRLF.
proof fn line_end_past(b: Seq<u8>, p: int, q: int)
    requires
        0 <= p <= q < b.len(),
        forall|i: int| p <= i < q ==> !crlf_at(b, i),
    ensures
        line_end(b, p) == line_end(b, q),
    decreases q - p,
{
    if p < q {
        line_end_past(b, p + 1, q);
    }
}

/// A line ends no earlier than it starts.
proof fn line_end_bounds(b: Seq<u8>, p: int)
    requires
        0 <= p,
    ensures
        line_end(b, p) >= p || line_end(b, p) == b.len(),
    decreases b.len() - p,
{
    if p + 1 < b.len() && !crlf_at(b, p) {
        line_end_bounds(b, p + 1);
    }
}

/// A word runs on past positions that hold no space.
proof fn skip_word_past(b: Seq<u8>, p: int, q: int, e: int)
    requires
        p <= q <= e,
        forall|i: int| p <= i < q ==> !is_space(#[trigger] b[i]),
    ensures
        skip_word(b, p, e) == skip_word(b, q, e),
    decreases q - p,
{
    if p < q {
        skip_word_past(b, p + 1, q, e);
    }
}

/// A method token is ASCII capital letters.
proof fn method_token_letters(m: HttpMethod)
    ensures
        m.token().len() >= 3,
        forall|i: int| 0 <= i < m.token().len() ==> 'A' <= #[trigger] m.token()[i] <= 'Z',
{
    reveal_strlit("GET");
    reveal_strlit("POST");
    reveal_strlit("PUT");
    reveal_strlit("PATCH");
    reveal_strlit("DELETE");
    reveal_strlit("HEAD");
    reveal_strlit("OPTIONS");
    reveal_strlit("TRACE");
}

/// A request that starts with a method's token, written in UTF-8 and
/// followed by a space, is read as that method: the parser's first token is
/// exactly those bytes, and they name the method.
pub proof fn method_token_read(b: Seq<u8>, m: HttpMethod)
    requires
        b.len() > m.token().len(),
        b.subrange(0, m.token().len() as int) == encode_utf8(m.token()),
        b[m.token().len() as int] == 32,
    ensures
        skip_spaces(b, 0, line_end(b, 0)) == 0,
        skip_word(b, 0, line_end(b, 0)) == m.token().len(),
        HttpMethod::of_token(decoded_text(b.subrange(0, m.token().len() as int))) == Some(m),
        parsed_request(b) matches Some(r) ==> r.0 == m,
{
    let t = m.token();
    let k = t.len() as int;
    method_token_letters(m);
    assert(is_ascii_chars(t));
    is_ascii_chars_encode_utf8(t);
    assert forall|i: int| 0 <= i < k implies 65 <= #[trigger] b[i] <= 90 && !crlf_at(b, i) by {
        assert(b[i] == b.subrange(0, k)[i]);
        assert('A' <= t[i] <= 'Z');
    }
    line_end_past(b, 0, k);
    line_end_bounds(b, k + 1);
    assert(!crlf_at(b, k));
    let e0 = line_end(b, 0);
    assert(e0 > k);
    assert forall|i: int| 0 <= i < k implies !is_space(#[trigger] b[i]) by {
        assert(65 <= b[i] <= 90);
    }
    skip_word_past(b, 0, k, e0);
    assert(!is_space(b[0]));
    encode_utf8_valid_utf8(t);
    encode_utf8_decode_utf8(t);
    crate::vocab::method_token_round_trip(m);
}

/// A request whose first token names no method is refused.
pub proof fn unknown_method_refused(b: Seq<u8>)
    requires
        ({
            let e0 = line_end(b, 0);
            let ms = skip_spaces(b, 0, e0);
            HttpMethod::of_token(decoded_text(b.subrange(ms, skip_word(b, ms, e0)))) is None
        }),
    ensures
        parsed_request(b) is None,
{
}

/// The bytes ` HTTP/1.1` followed by an empty line.
pub open spec fn version_and_blank_line() -> Seq<u8> {
    seq![32u8, 72, 84, 84, 80, 47, 49, 46, 49, 13, 10, 13, 10]
}

/// A request made of a method's token, a space, a path without whitespace,
/// ` HTTP/1.1` and an empty line is read whole: that method, that path, no
/// headers, an empty body and nothing left to read.
pub proof fn simple_request_read(b: Seq<u8>, m: HttpMethod, path: Seq<u8>)
    requires
        path.len() > 0,
        forall|i: int| 0 <= i < path.len() ==> !is_space(#[trigger] path[i]),
        b == encode_utf8(m.token()) + seq![32u8] + path + version_and_blank_line(),
    ensures
        parsed_request(b) == Some((m, decoded_text(path), Seq::<HeaderEntry>::empty(), Seq::<u8>::empty(), 0int)),
{
    let t = m.token();
    method_token_letters(m);
    assert(is_ascii_chars(t));
    is_ascii_chars_encode_utf8(t);
    let k = t.len() as int;
    let q = k + 1 + path.len();
    let v = version_and_blank_line();
    assert(b.len() == q + 13);
    assert(b.subrange(0, k) =~= encode_utf8(t));
    assert(b[k] == 32);
    method_token_read(b, m);
    assert forall|i: int| 0 <= i < path.len() implies b[k + 1 + i] == path[i] by {}
    assert forall|i: int| 0 <= i < 13 implies b[q + i] == v[i] by {}
    assert forall|i: int| 0 <= i < q + 9 implies !crlf_at(b, i) by {
        if i < k {
            assert(b[i] == encode_utf8(t)[i]);
            assert('A' <= t[i] <= 'Z');
        } else if i == k {
        } else if i < q {
            assert(b[i] == path[i - k - 1]);
            assert(!is_space(path[i - k - 1]));
        } else {
            assert(b[i] == v[i - q]);
        }
    }
    line_end_past(b, 0, q + 9);
    assert(crlf_at(b, q + 9));
    let e0 = line_end(b, 0);
    assert(e0 == q + 9);
    assert(!is_space(b[k + 1])) by {
        assert(b[k + 1] == path[0]);
    }
    assert(skip_spaces(b, k + 1, e0) == k + 1);
    assert(is_space(b[k]));
    assert(skip_spaces(b, k, e0) == k + 1);
    assert forall|i: int| k + 1 <= i < q implies !is_space(#[trigger] b[i]) by {
        assert(b[i] == path[i - k - 1]);
    }
    skip_word_past(b, k + 1, q, e0);
    assert(is_space(b[q]));
    assert(skip_word(b, k + 1, e0) == q);
    assert(b.subrange(k + 1, q) =~= path);
    assert(crlf_at(b, q + 11));
    assert(line_end(b, q + 11) == q + 11);
    assert(header_block(b, q + 11) == Some((Seq::<RawHeader>::empty(), q + 13)));
    assert(headers_of(Seq::<RawHeader>::empty()) == Seq::<HeaderEntry>::empty());
    assert(!crate::headers::has_name(Seq::<HeaderEntry>::empty(), "Content-Length"@));
    assert(declared_length(Seq::<HeaderEntry>::empty()) == Some(0int));
    assert(b.subrange(q + 13, q + 13) =~= Seq::<u8>::empty());
}

/// A body split across two reads: the bytes of the first read that follow
/// the header block are the start of the body, the further read is asked
/// for exactly the declared length less those bytes, and when it brings that
/// many, the body assembled from both has the declared length.
pub proof fn body_across_reads(b: Seq<u8>, more: Seq<u8>)
    requires
        request_head(b) is Some,
    ensures
        ({
            let (m, path, h, s) = request_head(b).unwrap();
            match declared_length(h) {
                Some(n) => n >= b.len() - s ==> {
                    &&& parsed_request(b) == Some((m, path, h, b.subrange(s, b.len() as int), n - (b.len() - s)))
                    &&& more.len() == n - (b.len() - s) ==> (b.subrange(s, b.len() as int) + more).len() == n
                },
                None => parsed_request(b) is None,
            }
        }),
{
    let e0 = line_end(b, 0);
    if e0 < b.len() {
        line_end_crlf(b, 0);
        header_block_start(b, e0 + 2);
    }
    let (_, _, _, s) = request_head(b).unwrap();
    assert(0 <= s <= b.len());
}

/// A line that ends before the input does ends at a CRLF.
proof fn line_end_crlf(b: Seq<u8>, p: int)
    ensures
        line_end(b, p) < b.len() ==> crlf_at(b, line_end(b, p)),
    decreases b.len() - p,
{
    if !(p < 0 || p + 1 >= b.len()) && !crlf_at(b, p) {
        line_end_crlf(b, p + 1);
    }
}

/// The body starts within the input.
proof fn header_block_start(b: Seq<u8>, p: int)
    ensures
        header_block(b, p) matches Some((raw, s)) ==> 0 <= s <= b.len(),
    decreases b.len() - p,
{
    line_end_crlf(b, p);
    let e = line_end(b, p);
    if !(p < 0 || e < p || e > b.len()) && e != p && e + 2 <= b.len() {
        header_block_start(b, e + 2);
    }
}

} // verus!
