//! The model of an outgoing request: everything the transport needs, as plain
//! values, fixed before any network work starts.
use vstd::prelude::*;

verus! {

#[derive(Debug, Clone, Copy, PartialEq, Eq, Structural)]
pub enum HttpMethod {
    Get,
    Post,
}

/// The mathematical value of a header list.
pub open spec fn headers_view(hs: Seq<(Vec<u8>, Vec<u8>)>) -> Seq<(Seq<u8>, Seq<u8>)> {
    Seq::new(hs.len(), |i: int| (hs[i].0@, hs[i].1@))
}

/// A fully-formed request: method, URL, headers and body, ready to hand to
/// the transport.
#[derive(Debug)]
pub struct ApiRequest {
    pub method: HttpMethod,
    pub url: Vec<u8>,
    pub headers: Vec<(Vec<u8>, Vec<u8>)>,
    pub body: Vec<u8>,
}

impl ApiRequest {
    /// A bodyless request with no headers yet.
    pub fn new(method: HttpMethod, url: Vec<u8>) -> (r: Self)
        ensures
            r.method == method,
            r.url@ == url@,
            headers_view(r.headers@) == Seq::<(Seq<u8>, Seq<u8>)>::empty(),
            r.body@ == Seq::<u8>::empty(),
    {
        let r = ApiRequest { method, url, headers: Vec::new(), body: Vec::new() };
        proof {
            assert(headers_view(r.headers@) =~= Seq::<(Seq<u8>, Seq<u8>)>::empty());
        }
        r
    }

    /// The same request with one header appended.
    pub fn header(self, name: Vec<u8>, value: Vec<u8>) -> (r: Self)
        ensures
            r.method == self.method,
            r.url@ == self.url@,
            headers_view(r.headers@) == headers_view(self.headers@).push((name@, value@)),
            r.body@ == self.body@,
    {
        let ghost orig = self.headers@;
        let ghost nv = (name@, value@);
        let mut r = self;
        r.headers.push((name, value));
        proof {
            assert(headers_view(r.headers@) =~= headers_view(orig).push(nv));
        }
        r
    }

    /// The same request with its body replaced.
    pub fn with_body(self, body: Vec<u8>) -> (r: Self)
        ensures
            r.method == self.method,
            r.url@ == self.url@,
            headers_view(r.headers@) == headers_view(self.headers@),
            r.body@ == body@,
    {
        ApiRequest { body, ..self }
    }
}

} // verus!
