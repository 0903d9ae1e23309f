//! The transport client: owner of the HTTP connection pool, and the URL
//! builder that turns a method name and optional parameters into the request
//! URL.  Network dispatch itself suspends and therefore lives outside this
//! crate; everything here computes plain values.
use crate::errors::ClientError;
use crate::query::{params_view, present_pairs, query_string};
use crate::request::{ApiRequest, HttpMethod};
use crate::session::SlackClientSession;
use crate::token::SlackApiToken;
use vstd::prelude::*;
use vstd::slice::slice_to_vec;

verus! {

#[verifier::external_type_specification]
#[verifier::external_body]
#[verifier::reject_recursive_types(C)]
#[verifier::reject_recursive_types(B)]
pub struct ExHyperClient<C, B>(hyper::Client<C, B>);

#[verifier::external_type_specification]
#[verifier::external_body]
#[verifier::reject_recursive_types(R)]
pub struct ExHttpConnector<R>(hyper::client::HttpConnector<R>);

#[verifier::external_type_specification]
#[verifier::external_body]
pub struct ExGaiResolver(hyper::client::connect::dns::GaiResolver);

#[verifier::external_type_specification]
#[verifier::external_body]
pub struct ExBody(hyper::Body);

/// Relies on hyper::Client::new: a fresh connection pool; connections are
/// opened lazily, so construction performs no network work.
#[verifier::external_body]
fn new_connection_pool() -> hyper::Client<hyper::client::HttpConnector, hyper::Body> {
    hyper::Client::new()
}

/// Whether the url crate accepts these bytes, read as UTF-8, as a URL.  The
/// outcome depends on the bytes alone.
pub uninterp spec fn is_parsable_url(s: Seq<u8>) -> bool;

/// Relies on url::Url::parse: it accepts or rejects a candidate URL string,
/// deterministically in the string.
#[verifier::external_body]
pub(crate) fn url_accepts(s: &[u8]) -> (r: bool)
    ensures
        r == is_parsable_url(s@),
{
    match core::str::from_utf8(s) {
        Ok(t) => match url::Url::parse(t) {
            Ok(_) => true,
            Err(_) => false,
        },
        Err(_) => false,
    }
}

/// The fixed API origin, `https://slack.com/api`, as bytes.
pub open spec fn slack_api_base() -> Seq<u8> {
    seq![
        104u8,
        116,
        116,
        112,
        115,
        58,
        47,
        47,
        115,
        108,
        97,
        99,
        107,
        46,
        99,
        111,
        109,
        47,
        97,
        112,
        105,
    ]
}

/// The URL path for a method: the base, one `/`, and the method name.
pub open spec fn method_uri_path(method: Seq<u8>) -> Seq<u8> {
    slack_api_base() + seq![47u8] + method
}

/// A URL with its query string attached: unchanged when no pair has a present
/// value, else the URL, one `?`, and the encoded present pairs.
pub open spec fn url_with_params(url: Seq<u8>, params: Seq<(Seq<u8>, Option<Seq<u8>>)>) -> Seq<
    u8,
> {
    if present_pairs(params).len() == 0 {
        url
    } else {
        url + seq![63u8] + query_string(present_pairs(params))
    }
}

fn slack_api_base_vec() -> (r: Vec<u8>)
    ensures
        r@ == slack_api_base(),
{
    let r: Vec<u8> = vec![
        104,
        116,
        116,
        112,
        115,
        58,
        47,
        47,
        115,
        108,
        97,
        99,
        107,
        46,
        99,
        111,
        109,
        47,
        97,
        112,
        105,
    ];
    proof {
        assert(r@ =~= slack_api_base());
    }
    r
}

/// The owner of the HTTP connection pool.  Stateless for callers beyond
/// connection reuse; safe to share across sessions.
#[derive(Debug)]
pub struct SlackClient {
    pub connector: hyper::Client<hyper::client::HttpConnector, hyper::Body>,
}

impl SlackClient {
    /// A client with a fresh connection pool.  No network contact happens
    /// until a request is dispatched.
    pub fn new() -> Self {
        SlackClient { connector: new_connection_pool() }
    }

    /// The URL path for a method: the fixed base, exactly one `/`, and the
    /// method name.
    pub fn create_method_uri_path(method_relative_uri: &[u8]) -> (r: Vec<u8>)
        ensures
            r@ == method_uri_path(method_relative_uri@),
    {
        let mut out = slack_api_base_vec();
        out.push(47);
        let mut m = slice_to_vec(method_relative_uri);
        out.append(&mut m);
        proof {
            assert(out@ =~= method_uri_path(method_relative_uri@));
        }
        out
    }

    /// A URL taken as it stands.  Handing over a string the URL parser
    /// rejects is a programmer error, so callers owe a parseable one.
    pub fn create_url(url_str: &[u8]) -> (r: Vec<u8>)
        requires
            is_parsable_url(url_str@),
        ensures
            r@ == url_str@,
    {
        slice_to_vec(url_str)
    }

    /// `create_url` behind a runtime check: the URL when the parser accepts
    /// it, `UrlConstruction` when it does not.
    pub fn try_create_url(url_str: &[u8]) -> (r: Result<Vec<u8>, ClientError>)
        ensures
            is_parsable_url(url_str@) ==> (r matches Ok(u) && u@ == url_str@),
            !is_parsable_url(url_str@) ==> r == Err::<Vec<u8>, ClientError>(
                ClientError::UrlConstruction,
            ),
    {
        if url_accepts(url_str) {
            Ok(Self::create_url(url_str))
        } else {
            Err(ClientError::UrlConstruction)
        }
    }

    /// The URL with the query string for `params` attached: pairs with an
    /// absent value are dropped, the rest are form-urlencoded in their given
    /// order.  An empty or all-absent parameter list leaves the URL exactly
    /// as it was, with no `?`.  As with `create_url`, callers owe a base the
    /// URL parser accepts.
    pub fn create_url_with_params(
        url_str: &[u8],
        params: &Vec<(Vec<u8>, Option<Vec<u8>>)>,
    ) -> (r: Vec<u8>)
        requires
            is_parsable_url(url_str@),
        ensures
            r@ == url_with_params(url_str@, params_view(params@)),
    {
        let mut out = slice_to_vec(url_str);
        let mut q = crate::query::build_query_string(params);
        if q.len() > 0 {
            out.push(63);
            out.append(&mut q);
            proof {
                assert(out@ =~= url_with_params(url_str@, params_view(params@)));
            }
        } else {
            proof {
                assert(query_string(present_pairs(params_view(params@))).len() == 0);
                assert(present_pairs(params_view(params@)).len() == 0) by {
                    if present_pairs(params_view(params@)).len() > 0 {
                        crate::query::lemma_query_string_nonempty(params_view(params@));
                    }
                }
            }
        }
        out
    }

    /// Opens an authenticated session bound to this client and its own copy
    /// of the token.  Pure construction: no network work.
    pub fn open_session<'a>(&'a self, token: &SlackApiToken) -> (s: SlackClientSession<'a>)
        ensures
            s.client == self,
            s.token@ == token@,
    {
        SlackClientSession { client: self, token: token.clone() }
    }

    /// The unauthenticated request for a method: a GET of the method's URL
    /// with the given parameters, no headers, no body.  Dispatch and decoding
    /// happen at the transport edge.
    pub fn get(
        &self,
        method_relative_uri: &[u8],
        params: &Vec<(Vec<u8>, Option<Vec<u8>>)>,
    ) -> (r: ApiRequest)
        requires
            is_parsable_url(method_uri_path(method_relative_uri@)),
        ensures
            r.method == HttpMethod::Get,
            r.url@ == url_with_params(method_uri_path(method_relative_uri@), params_view(params@)),
            crate::request::headers_view(r.headers@) == Seq::<(Seq<u8>, Seq<u8>)>::empty(),
            r.body@ == Seq::<u8>::empty(),
    {
        let path = Self::create_method_uri_path(method_relative_uri);
        let full = Self::create_url_with_params(path.as_slice(), params);
        ApiRequest::new(HttpMethod::Get, full)
    }

    /// `get` behind a runtime check of the URL, for callers that cannot know
    /// whether the method name forms a parseable URL.
    pub fn try_get(
        &self,
        method_relative_uri: &[u8],
        params: &Vec<(Vec<u8>, Option<Vec<u8>>)>,
    ) -> (r: Result<ApiRequest, ClientError>)
        ensures
            is_parsable_url(method_uri_path(method_relative_uri@)) ==> (r matches Ok(req)
                && req.method == HttpMethod::Get && req.url@ == url_with_params(
                method_uri_path(method_relative_uri@),
                params_view(params@),
            ) && crate::request::headers_view(req.headers@) == Seq::<(Seq<u8>, Seq<u8>)>::empty()
                && req.body@ == Seq::<u8>::empty()),
            !is_parsable_url(method_uri_path(method_relative_uri@)) ==> (r matches Err(e) && e
                == ClientError::UrlConstruction),
    {
        let path = Self::create_method_uri_path(method_relative_uri);
        if url_accepts(path.as_slice()) {
            Ok(self.get(method_relative_uri, params))
        } else {
            Err(ClientError::UrlConstruction)
        }
    }
}

/// A built URL's query string decodes back to exactly the present pairs, in
/// their original order: what `url_with_params` puts after the `?` is
/// recovered losslessly by `parse_query`.
pub proof fn lemma_built_query_round_trip(url: Seq<u8>, params: Seq<(Seq<u8>, Option<Seq<u8>>)>)
    requires
        present_pairs(params).len() > 0,
    ensures
        url_with_params(url, params) == url + seq![63u8] + query_string(present_pairs(params)),
        crate::query::parse_query(url_with_params(url, params).skip(url.len() as int + 1)) == Some(
            present_pairs(params),
        ),
{
    crate::query::lemma_query_round_trip(present_pairs(params));
    assert((url + seq![63u8] + query_string(present_pairs(params))).skip(url.len() as int + 1)
        =~= query_string(present_pairs(params)));
}

/// A parameter list whose values are all absent yields the bare URL: the
/// built URL is identical to the one built with no parameters at all.
pub proof fn lemma_all_absent_params_leave_url(url: Seq<u8>, params: Seq<(Seq<u8>, Option<Seq<u8>>)>)
    requires
        forall|i: int| 0 <= i < params.len() ==> params[i].1 is None,
    ensures
        url_with_params(url, params) == url,
{
    lemma_present_pairs_all_absent(params);
}

proof fn lemma_present_pairs_all_absent(params: Seq<(Seq<u8>, Option<Seq<u8>>)>)
    requires
        forall|i: int| 0 <= i < params.len() ==> params[i].1 is None,
    ensures
        present_pairs(params).len() == 0,
    decreases params.len(),
{
    if params.len() > 0 {
        assert(forall|i: int|
            0 <= i < params.drop_first().len() ==> params.drop_first()[i] == params[i + 1]);
        lemma_present_pairs_all_absent(params.drop_first());
    }
}

} // verus!
