use vstd::prelude::*;

verus! {

/// The status codes a handler may answer with.
#[derive(Debug, Clone, Copy, PartialEq, Eq, Structural)]
pub enum HttpStatusCode {
    Success,
    Created,
    Accepted,
    NoContent,
    MovedPermanently,
    Found,
    NotModified,
    BadRequest,
    Unauthorized,
    Forbidden,
    NotFound,
    MethodNotAllowed,
    InternalServerError,
    NotImplemented,
    BadGateway,
    ServiceUnavailable,
}

impl HttpStatusCode {
    /// The numeric code of the status.
    pub open spec fn code(self) -> int {
        match self {
            HttpStatusCode::Success => 200,
            HttpStatusCode::Created => 201,
            HttpStatusCode::Accepted => 202,
            HttpStatusCode::NoContent => 204,
            HttpStatusCode::MovedPermanently => 301,
            HttpStatusCode::Found => 302,
            HttpStatusCode::NotModified => 304,
            HttpStatusCode::BadRequest => 400,
            HttpStatusCode::Unauthorized => 401,
            HttpStatusCode::Forbidden => 403,
            HttpStatusCode::NotFound => 404,
            HttpStatusCode::MethodNotAllowed => 405,
            HttpStatusCode::InternalServerError => 500,
            HttpStatusCode::NotImplemented => 501,
            HttpStatusCode::BadGateway => 502,
            HttpStatusCode::ServiceUnavailable => 503,
        }
    }

    /// The reason phrase written after the numeric code.
    pub open spec fn reason(self) -> Seq<char> {
        match self {
            HttpStatusCode::Success => "OK"@,
            HttpStatusCode::Created => "CREATED"@,
            HttpStatusCode::Accepted => "ACCEPTED"@,
            HttpStatusCode::NoContent => "NO CONTENT"@,
            HttpStatusCode::MovedPermanently => "MOVED PERMANENTLY"@,
            HttpStatusCode::Found => "FOUND"@,
            HttpStatusCode::NotModified => "NOT MODIFIED"@,
            HttpStatusCode::BadRequest => "BAD REQUEST"@,
            HttpStatusCode::Unauthorized => "UNAUTHORIZED"@,
            HttpStatusCode::Forbidden => "FORBIDDEN"@,
            HttpStatusCode::NotFound => "NOT FOUND"@,
            HttpStatusCode::MethodNotAllowed => "METHOD NOT ALLOWED"@,
            HttpStatusCode::InternalServerError => "INTERNAL SERVER ERROR"@,
            HttpStatusCode::NotImplemented => "NOT IMPLEMENTED"@,
            HttpStatusCode::BadGateway => "BAD GATEWAY"@,
            HttpStatusCode::ServiceUnavailable => "SERVICE UNAVAILABLE"@,
        }
    }

    /// The numeric code and the reason phrase of the status.
    pub fn to_http_status(self) -> (r: (i32, &'static str))
        ensures
            r.0 as int == self.code(),
            r.1@ == self.reason(),
    {
        match self {
            HttpStatusCode::Success => (200, "OK"),
            HttpStatusCode::Created => (201, "CREATED"),
            HttpStatusCode::Accepted => (202, "ACCEPTED"),
            HttpStatusCode::NoContent => (204, "NO CONTENT"),
            HttpStatusCode::MovedPermanently => (301, "MOVED PERMANENTLY"),
            HttpStatusCode::Found => (302, "FOUND"),
            HttpStatusCode::NotModified => (304, "NOT MODIFIED"),
            HttpStatusCode::BadRequest => (400, "BAD REQUEST"),
            HttpStatusCode::Unauthorized => (401, "UNAUTHORIZED"),
            HttpStatusCode::Forbidden => (403, "FORBIDDEN"),
            HttpStatusCode::NotFound => (404, "NOT FOUND"),
            HttpStatusCode::MethodNotAllowed => (405, "METHOD NOT ALLOWED"),
            HttpStatusCode::InternalServerError => (500, "INTERNAL SERVER ERROR"),
            HttpStatusCode::NotImplemented => (501, "NOT IMPLEMENTED"),
            HttpStatusCode::BadGateway => (502, "BAD GATEWAY"),
            HttpStatusCode::ServiceUnavailable => (503, "SERVICE UNAVAILABLE"),
        }
    }
}

/// The request methods the parser accepts.
#[derive(Debug, Clone, Copy, PartialEq, Eq, Structural)]
pub enum HttpMethod {
    Get,
    Post,
    Put,
    Patch,
    Delete,
    Head,
    Options,
    Trace,
}

impl HttpMethod {
    /// The wire token of the method.
    pub open spec fn token(self) -> Seq<char> {
        match self {
            HttpMethod::Get => "GET"@,
            HttpMethod::Post => "POST"@,
            HttpMethod::Put => "PUT"@,
            HttpMethod::Patch => "PATCH"@,
            HttpMethod::Delete => "DELETE"@,
            HttpMethod::Head => "HEAD"@,
            HttpMethod::Options => "OPTIONS"@,
            HttpMethod::Trace => "TRACE"@,
        }
    }

    /// The method whose token is `s`, if any.
    pub open spec fn of_token(s: Seq<char>) -> Option<HttpMethod> {
        if s == "GET"@ {
            Some(HttpMethod::Get)
        } else if s == "POST"@ {
            Some(HttpMethod::Post)
        } else if s == "PUT"@ {
            Some(HttpMethod::Put)
        } else if s == "PATCH"@ {
            Some(HttpMethod::Patch)
        } else if s == "DELETE"@ {
            Some(HttpMethod::Delete)
        } else if s == "HEAD"@ {
            Some(HttpMethod::Head)
        } else if s == "OPTIONS"@ {
            Some(HttpMethod::Options)
        } else if s == "TRACE"@ {
            Some(HttpMethod::Trace)
        } else {
            None
        }
    }

    /// Reads a method token; any token outside the vocabulary is refused.
    pub fn from_str(method: &str) -> (r: Result<HttpMethod, ()>)
        ensures
            r matches Ok(m) ==> HttpMethod::of_token(method@) == Some(m),
            r is Err ==> HttpMethod::of_token(method@) is None,
    {
        if same_chars(method, "GET") {
            Ok(HttpMethod::Get)
        } else if same_chars(method, "POST") {
            Ok(HttpMethod::Post)
        } else if same_chars(method, "PUT") {
            Ok(HttpMethod::Put)
        } else if same_chars(method, "PATCH") {
            Ok(HttpMethod::Patch)
        } else if same_chars(method, "DELETE") {
            Ok(HttpMethod::Delete)
        } else if same_chars(method, "HEAD") {
            Ok(HttpMethod::Head)
        } else if same_chars(method, "OPTIONS") {
            Ok(HttpMethod::Options)
        } else if same_chars(method, "TRACE") {
            Ok(HttpMethod::Trace)
        } else {
            Err(())
        }
    }
}

/// Whether two strings hold the same characters.
pub fn same_chars(a: &str, b: &str) -> (r: bool)
    ensures
        r == (a@ == b@),
{
    let n = a.unicode_len();
    if n != b.unicode_len() {
        return false;
    }
    let mut i: usize = 0;
    while i < n
        invariant
            n == a@.len(),
            n == b@.len(),
            i <= n,
            forall|j: int| 0 <= j < i ==> a@[j] == b@[j],
        decreases n - i,
    {
        if a.get_char(i) != b.get_char(i) {
            return false;
        }
        i = i + 1;
    }
    assert(a@ =~= b@);
    true
}

/// Every method's token is read back as that method, and only as it.
pub proof fn method_token_round_trip(m: HttpMethod)
    ensures
        HttpMethod::of_token(m.token()) == Some(m),
{
    reveal_strlit("GET");
    reveal_strlit("POST");
    reveal_strlit("PUT");
    reveal_strlit("PATCH");
    reveal_strlit("DELETE");
    reveal_strlit("HEAD");
    reveal_strlit("OPTIONS");
    reveal_strlit("TRACE");
    assert("GET"@ =~= seq!['G', 'E', 'T']);
    assert("POST"@ =~= seq!['P', 'O', 'S', 'T']);
    assert("PUT"@ =~= seq!['P', 'U', 'T']);
    assert("PATCH"@ =~= seq!['P', 'A', 'T', 'C', 'H']);
    assert("DELETE"@ =~= seq!['D', 'E', 'L', 'E', 'T', 'E']);
    assert("HEAD"@ =~= seq!['H', 'E', 'A', 'D']);
    assert("OPTIONS"@ =~= seq!['O', 'P', 'T', 'I', 'O', 'N', 'S']);
    assert("TRACE"@ =~= seq!['T', 'R', 'A', 'C', 'E']);
}

} // verus!
