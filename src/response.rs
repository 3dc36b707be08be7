use vstd::prelude::*;
use vstd::string::*;

use crate::headers::{inserted, HeaderEntry, Headers};
use crate::vocab::HttpStatusCode;

verus! {

/// The character of a decimal digit.
pub open spec fn digit_char(d: int) -> char {
    if d == 0 { '0' }
    else if d == 1 { '1' }
    else if d == 2 { '2' }
    else if d == 3 { '3' }
    else if d == 4 { '4' }
    else if d == 5 { '5' }
    else if d == 6 { '6' }
    else if d == 7 { '7' }
    else if d == 8 { '8' }
    else { '9' }
}

/// Whether `c` is a decimal digit.
pub open spec fn is_digit(c: char) -> bool {
    '0' <= c && c <= '9'
}

/// The value of a decimal digit character.
pub open spec fn digit_value(c: char) -> int {
    c as int - '0' as int
}

/// The value of a run of decimal digits.
pub open spec fn decimal_value(s: Seq<char>) -> int
    decreases s.len(),
{
    if s.len() == 0 {
        0
    } else {
        10 * decimal_value(s.drop_last()) + digit_value(s.last())
    }
}

/// A three-digit code written in decimal.
pub open spec fn code_text(c: int) -> Seq<char> {
    seq![digit_char(c / 100), digit_char((c / 10) % 10), digit_char(c % 10)]
}

/// The status line of a response.
pub open spec fn status_line(status: HttpStatusCode) -> Seq<char> {
    "HTTP/1.1 "@ + code_text(status.code()) + " "@ + status.reason() + "\r\n"@
}

/// One `Name: Value` line per entry, in order.
pub open spec fn header_lines(s: Seq<HeaderEntry>) -> Seq<char>
    decreases s.len(),
{
    if s.len() == 0 {
        Seq::empty()
    } else {
        header_lines(s.drop_last()) + s.last().0 + ": "@ + s.last().1 + "\r\n"@
    }
}

/// The wire text of a response: status line, header lines, a blank line and
/// the body as it is.
pub open spec fn response_text(status: HttpStatusCode, headers: Seq<HeaderEntry>, body: Seq<char>) -> Seq<char> {
    status_line(status) + header_lines(headers) + "\r\n"@ + body
}

/// Each digit character reads back as its digit.
pub proof fn digit_char_value(d: int)
    requires
        0 <= d < 10,
    ensures
        is_digit(digit_char(d)),
        digit_value(digit_char(d)) == d,
{
}

/// The digits of every status code read back as that code.
pub proof fn status_code_round_trip(status: HttpStatusCode)
    ensures
        code_text(status.code()).len() == 3,
        forall|i: int| 0 <= i < 3 ==> is_digit(#[trigger] code_text(status.code())[i]),
        decimal_value(code_text(status.code())) == status.code(),
{
    let c = status.code();
    let t = code_text(c);
    digit_char_value(c / 100);
    digit_char_value((c / 10) % 10);
    digit_char_value(c % 10);
    assert(t.drop_last().drop_last() =~= seq![t[0]]);
    assert(t.drop_last().drop_last().drop_last() =~= Seq::<char>::empty());
    assert(decimal_value(Seq::<char>::empty()) == 0);
    assert(t.drop_last() =~= seq![t[0], t[1]]);
    assert(decimal_value(t.drop_last().drop_last()) == c / 100);
    assert(decimal_value(t.drop_last()) == 10 * (c / 100) + (c / 10) % 10);
}

/// A written response begins with its status line, which holds the
/// status's numeric code, in three digits that read back as that code, and
/// its reason phrase.
pub proof fn response_status_line(resp: HttpResponse)
    ensures
        resp.text().subrange(0, status_line(resp.status).len() as int) == status_line(resp.status),
        status_line(resp.status) == "HTTP/1.1 "@ + code_text(resp.status.code()) + " "@
            + resp.status.reason() + "\r\n"@,
        decimal_value(code_text(resp.status.code())) == resp.status.code(),
{
    status_code_round_trip(resp.status);
    let l = status_line(resp.status);
    assert(resp.text().subrange(0, l.len() as int) =~= l);
}

/// The line written for one header: its name, `": "`, its value and CRLF.
pub open spec fn header_line(e: HeaderEntry) -> Seq<char> {
    e.0 + ": "@ + e.1 + "\r\n"@
}

/// The header part of a written response is one line per header, in the
/// headers' order, each line the header's name, `": "`, its value and CRLF,
/// and nothing else: the status line, those lines, an empty line and the
/// body as it is.
pub proof fn response_header_lines(resp: HttpResponse)
    ensures
        resp.text() == status_line(resp.status)
            + resp.headers@.map_values(|e: HeaderEntry| header_line(e)).flatten() + "\r\n"@ + resp.body@,
{
    header_lines_flatten(resp.headers@);
}

proof fn header_lines_flatten(s: Seq<HeaderEntry>)
    ensures
        header_lines(s) == s.map_values(|e: HeaderEntry| header_line(e)).flatten(),
    decreases s.len(),
{
    let lines = s.map_values(|e: HeaderEntry| header_line(e));
    lines.lemma_flatten_and_flatten_alt_are_equivalent();
    if s.len() > 0 {
        header_lines_flatten(s.drop_last());
        let prev = s.drop_last().map_values(|e: HeaderEntry| header_line(e));
        assert(lines.drop_last() =~= prev);
        prev.lemma_flatten_and_flatten_alt_are_equivalent();
        assert(header_lines(s) =~= header_lines(s.drop_last()) + header_line(s.last()));
    } else {
        assert(lines =~= Seq::<Seq<char>>::empty());
    }
}

fn digit_str(d: i32) -> (r: &'static str)
    requires
        0 <= d < 10,
    ensures
        r@ == seq![digit_char(d as int)],
{
    proof {
        reveal_strlit("0");
        reveal_strlit("1");
        reveal_strlit("2");
        reveal_strlit("3");
        reveal_strlit("4");
        reveal_strlit("5");
        reveal_strlit("6");
        reveal_strlit("7");
        reveal_strlit("8");
        reveal_strlit("9");
    }
    let r = if d == 0 { "0" }
    else if d == 1 { "1" }
    else if d == 2 { "2" }
    else if d == 3 { "3" }
    else if d == 4 { "4" }
    else if d == 5 { "5" }
    else if d == 6 { "6" }
    else if d == 7 { "7" }
    else if d == 8 { "8" }
    else { "9" };
    assert(r@ =~= seq![digit_char(d as int)]);
    r
}

/// A response: status, headers and body.
#[derive(Debug)]
pub struct HttpResponse {
    pub status: HttpStatusCode,
    pub headers: Headers,
    pub body: String,
}

impl HttpResponse {
    /// The wire text of this response.
    pub open spec fn text(&self) -> Seq<char> {
        response_text(self.status, self.headers@, self.body@)
    }

    /// Writes the response in HTTP/1.1 form. No header is added: a
    /// `Content-Length` is there only if the response holds one.
    pub fn to_string(&self) -> (r: String)
        ensures
            r@ == self.text(),
    {
        let (code, reason) = self.status.to_http_status();
        let mut out = String::new();
        out.append("HTTP/1.1 ");
        out.append(digit_str(code / 100));
        out.append(digit_str((code / 10) % 10));
        out.append(digit_str(code % 10));
        out.append(" ");
        out.append(reason);
        out.append("\r\n");
        let ghost head = out@;
        assert(head =~= status_line(self.status));
        let n = self.headers.len();
        let mut i: usize = 0;
        while i < n
            invariant
                n == self.headers@.len(),
                i <= n,
                out@ == head + header_lines(self.headers@.subrange(0, i as int)),
            decreases n - i,
        {
            let (key, value) = self.headers.entry(i);
            out.append(key.as_str());
            out.append(": ");
            out.append(value.as_str());
            out.append("\r\n");
            let ghost s = self.headers@.subrange(0, i + 1);
            assert(s.drop_last() =~= self.headers@.subrange(0, i as int));
            i = i + 1;
            assert(out@ =~= head + header_lines(s));
        }
        assert(self.headers@.subrange(0, n as int) =~= self.headers@);
        out.append("\r\n");
        out.append(self.body.as_str());
        assert(out@ =~= self.text());
        out
    }
}

/// Builds a response step by step, starting from `200 OK` with no headers
/// and an empty body.
pub struct HttpResponseBuilder {
    status: HttpStatusCode,
    headers: Headers,
    body: String,
}

impl View for HttpResponseBuilder {
    type V = (HttpStatusCode, Seq<HeaderEntry>, Seq<char>);

    closed spec fn view(&self) -> (HttpStatusCode, Seq<HeaderEntry>, Seq<char>) {
        (self.status, self.headers@, self.body@)
    }
}

impl HttpResponseBuilder {
    /// Header names are unique.
    pub closed spec fn wf(&self) -> bool {
        self.headers.wf()
    }

    /// `200 OK`, no headers, an empty body.
    pub fn new() -> (r: HttpResponseBuilder)
        ensures
            r@ == (HttpStatusCode::Success, Seq::<HeaderEntry>::empty(), Seq::<char>::empty()),
            r.wf(),
    {
        HttpResponseBuilder { status: HttpStatusCode::Success, headers: Headers::new(), body: String::new() }
    }

    /// Sets the status.
    pub fn status(self, status: HttpStatusCode) -> (r: HttpResponseBuilder)
        requires
            self.wf(),
        ensures
            r@ == (status, self@.1, self@.2),
            r.wf(),
    {
        let mut b = self;
        b.status = status;
        b
    }

    /// Sets a header; a later value for the same name replaces the earlier.
    pub fn header(self, key: &str, value: &str) -> (r: HttpResponseBuilder)
        requires
            self.wf(),
        ensures
            r@ == (self@.0, inserted(self@.1, key@, value@), self@.2),
            r.wf(),
    {
        let mut b = self;
        b.headers.insert(key.to_owned(), value.to_owned());
        b
    }

    /// Sets the body.
    pub fn body(self, body: &str) -> (r: HttpResponseBuilder)
        requires
            self.wf(),
        ensures
            r@ == (self@.0, self@.1, body@),
            r.wf(),
    {
        let mut b = self;
        b.body = body.to_owned();
        b
    }

    /// The response built so far.
    pub fn build(self) -> (r: HttpResponse)
        requires
            self.wf(),
        ensures
            r.status == self@.0,
            r.headers@ == self@.1,
            r.body@ == self@.2,
            r.headers.wf(),
    {
        HttpResponse { status: self.status, headers: self.headers, body: self.body }
    }
}

} // verus!
