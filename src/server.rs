use vstd::prelude::*;

use crate::headers::HeaderEntry;
use crate::request::{parse_request, parsed_request, HttpRequest, PendingRequest};
use crate::response::HttpResponse;
use crate::vocab::HttpMethod;

verus! {

/// Where a connection stands. A connection starts in `Parsing`, and each
/// call of `HttpServer::step` hands it the bytes of one read.
pub enum Connection {
    /// Nothing read yet: the next bytes are the start of a request.
    Parsing,
    /// The request is read up to its body, whose missing bytes the next
    /// read brings.
    ReadingBody(PendingRequest),
    /// The connection is done with: nothing is read or written on it again.
    Closed,
}

/// What the caller does on the connection after a step.
pub enum ConnectionAction {
    /// Read at most this many bytes and hand them to the next step.
    Read(usize),
    /// Write this text, flush, and close the connection.
    Respond(String),
    /// Close the connection without writing anything.
    Close,
}

/// A server that answers each request with its handler.
pub struct HttpServer<F: Fn(HttpRequest) -> HttpResponse> {
    handler: F,
}

impl<F: Fn(HttpRequest) -> HttpResponse> HttpServer<F> {
    /// The handler the server was made with.
    pub closed spec fn handler(&self) -> F {
        self.handler
    }

    /// The handler answers every request.
    pub open spec fn handles_all(&self) -> bool {
        forall|r: HttpRequest| #[trigger] self.handler().requires((r,))
    }

    /// `text` is what the handler may answer, written out, to a request with
    /// this method, path, headers and body.
    pub open spec fn answers(
        &self,
        method: HttpMethod,
        path: Seq<char>,
        headers: Seq<HeaderEntry>,
        body: Seq<u8>,
        text: Seq<char>,
    ) -> bool {
        exists|req: HttpRequest, resp: HttpResponse|
            req.method == method && req.path@ == path && req.headers@ == headers && req.body@ == body
                && #[trigger] self.handler().ensures((req,), resp) && resp.text() == text
    }

    /// A server around `handler`, which must accept every request.
    pub fn new(handler: F) -> (r: HttpServer<F>)
        requires
            forall|req: HttpRequest| #[trigger] handler.requires((req,)),
        ensures
            r.handler() == handler,
            r.handles_all(),
    {
        HttpServer { handler }
    }

    fn respond(&self, req: HttpRequest) -> (r: String)
        requires
            self.handles_all(),
        ensures
            self.answers(req.method, req.path@, req.headers@, req.body@, r@),
    {
        let ghost old_req = req;
        assert(self.handler() == self.handler);
        assert(self.handler().requires((old_req,)));
        let resp = (self.handler)(req);
        let text = resp.to_string();
        assert(self.handler().ensures((old_req,), resp));
        text
    }

    /// Moves a connection on by the bytes of one read. A connection that
    /// does not begin with a well-formed request is closed with nothing
    /// written; one whose request is read whole is answered and closed; a
    /// closed connection stays closed and nothing more is read on it.
    pub fn step(&self, state: Connection, data: &[u8]) -> (r: (Connection, ConnectionAction))
        requires
            self.handles_all(),
        ensures
            r.1 is Read <==> r.0 is ReadingBody,
            r.1 is Respond || r.1 is Close ==> r.0 is Closed,
            match state {
                Connection::Parsing => match parsed_request(data@) {
                    None => r.1 is Close,
                    Some((m, path, h, body, rest)) => if rest == 0 {
                        r.1 matches ConnectionAction::Respond(t) && self.answers(m, path, h, body, t@)
                    } else {
                        &&& r.1 matches ConnectionAction::Read(k) && k == rest
                        &&& r.0 matches Connection::ReadingBody(p) && p.request.method == m
                            && p.request.path@ == path && p.request.headers@ == h
                            && p.request.headers.wf() && p.request.body@ == body
                            && p.remaining as int == rest
                    },
                },
                Connection::ReadingBody(p) => r.1 matches ConnectionAction::Respond(t)
                    && self.answers(p.request.method, p.request.path@, p.request.headers@, p.request.body@ + data@, t@),
                Connection::Closed => r.1 is Close,
            },
    {
        match state {
            Connection::Parsing => match parse_request(data) {
                Err(_) => (Connection::Closed, ConnectionAction::Close),
                Ok(p) => {
                    if p.remaining == 0 {
                        (Connection::Closed, ConnectionAction::Respond(self.respond(p.request)))
                    } else {
                        let n = p.remaining;
                        (Connection::ReadingBody(p), ConnectionAction::Read(n))
                    }
                },
            },
            Connection::ReadingBody(p) => {
                let req = p.complete(data);
                (Connection::Closed, ConnectionAction::Respond(self.respond(req)))
            },
            Connection::Closed => (Connection::Closed, ConnectionAction::Close),
        }
    }
}

} // verus!
