//! An authenticated session: one token bound to a borrowed transport client.
//! Its calls build fully-formed requests carrying the bearer-auth header;
//! dispatch and decoding happen at the transport edge.
use crate::client::{is_parsable_url, method_uri_path, url_with_params, SlackClient};
use crate::errors::ClientError;
use crate::query::params_view;
use crate::request::{headers_view, ApiRequest, HttpMethod};
use crate::token::SlackApiToken;
use vstd::prelude::*;
use vstd::slice::slice_to_vec;

verus! {

/// The `Authorization` header name, as bytes.
pub open spec fn authorization_header_name() -> Seq<u8> {
    seq![65u8, 117, 116, 104, 111, 114, 105, 122, 97, 116, 105, 111, 110]
}

/// The `Bearer ` prefix of the header value, trailing space included.
pub open spec fn bearer_prefix() -> Seq<u8> {
    seq![66u8, 101, 97, 114, 101, 114, 32]
}

/// The bearer-auth header value for a token: `Bearer ` followed by exactly
/// the token's value.
pub open spec fn bearer_value(token_value: Seq<u8>) -> Seq<u8> {
    bearer_prefix() + token_value
}

/// The `content-type` header name, as bytes.
pub open spec fn content_type_header_name() -> Seq<u8> {
    seq![99u8, 111, 110, 116, 101, 110, 116, 45, 116, 121, 112, 101]
}

/// The `application/json` content type, as bytes.
pub open spec fn json_content_type() -> Seq<u8> {
    seq![97u8, 112, 112, 108, 105, 99, 97, 116, 105, 111, 110, 47, 106, 115, 111, 110]
}

fn authorization_header_name_vec() -> (r: Vec<u8>)
    ensures
        r@ == authorization_header_name(),
{
    let r: Vec<u8> = vec![65, 117, 116, 104, 111, 114, 105, 122, 97, 116, 105, 111, 110];
    proof {
        assert(r@ =~= authorization_header_name());
    }
    r
}

fn bearer_header_value(token_value: &[u8]) -> (r: Vec<u8>)
    ensures
        r@ == bearer_value(token_value@),
{
    let mut out: Vec<u8> = vec![66, 101, 97, 114, 101, 114, 32];
    proof {
        assert(out@ =~= bearer_prefix());
    }
    let mut t = slice_to_vec(token_value);
    out.append(&mut t);
    out
}

fn content_type_header_name_vec() -> (r: Vec<u8>)
    ensures
        r@ == content_type_header_name(),
{
    let r: Vec<u8> = vec![99, 111, 110, 116, 101, 110, 116, 45, 116, 121, 112, 101];
    proof {
        assert(r@ =~= content_type_header_name());
    }
    r
}

fn json_content_type_vec() -> (r: Vec<u8>)
    ensures
        r@ == json_content_type(),
{
    let r: Vec<u8> = vec![97, 112, 112, 108, 105, 99, 97, 116, 105, 111, 110, 47, 106, 115, 111, 110];
    proof {
        assert(r@ =~= json_content_type());
    }
    r
}

/// A session: a borrowed transport client and an owned token.  Cheap to
/// create, held no longer than the calling scope, never outliving its client.
#[derive(Debug)]
pub struct SlackClientSession<'a> {
    pub client: &'a SlackClient,
    pub token: SlackApiToken,
}

impl<'a> SlackClientSession<'a> {
    /// The request with this session's bearer-auth header appended: the value
    /// is `Bearer ` followed by exactly the token's value.
    pub fn setup_token_auth_header(&self, request: ApiRequest) -> (r: ApiRequest)
        ensures
            r.method == request.method,
            r.url@ == request.url@,
            headers_view(r.headers@) == headers_view(request.headers@).push(
                (authorization_header_name(), bearer_value(self.token@.value)),
            ),
            r.body@ == request.body@,
    {
        request.header(
            authorization_header_name_vec(),
            bearer_header_value(self.token.value.as_slice()),
        )
    }

    /// The authenticated GET request for a method: its URL with the given
    /// parameters, the bearer-auth header, and no body.  Callers owe a method
    /// name that forms a parseable URL; dispatch and decoding happen at the
    /// transport edge.
    pub fn get(
        &self,
        method_relative_uri: &[u8],
        params: &Vec<(Vec<u8>, Option<Vec<u8>>)>,
    ) -> (r: ApiRequest)
        requires
            is_parsable_url(method_uri_path(method_relative_uri@)),
        ensures
            r.method == HttpMethod::Get,
            r.url@ == url_with_params(method_uri_path(method_relative_uri@), params_view(params@)),
            headers_view(r.headers@) == seq![
                (authorization_header_name(), bearer_value(self.token@.value)),
            ],
            r.body@ == Seq::<u8>::empty(),
    {
        let bare = self.client.get(method_relative_uri, params);
        let r = self.setup_token_auth_header(bare);
        proof {
            assert(headers_view(r.headers@) =~= seq![
                (authorization_header_name(), bearer_value(self.token@.value)),
            ]);
        }
        r
    }

    /// `get` behind a runtime check of the URL.
    pub fn try_get(
        &self,
        method_relative_uri: &[u8],
        params: &Vec<(Vec<u8>, Option<Vec<u8>>)>,
    ) -> (r: Result<ApiRequest, ClientError>)
        ensures
            is_parsable_url(method_uri_path(method_relative_uri@)) ==> (r matches Ok(req)
                && req.method == HttpMethod::Get && req.url@ == url_with_params(
                method_uri_path(method_relative_uri@),
                params_view(params@),
            ) && headers_view(req.headers@) == seq![
                (authorization_header_name(), bearer_value(self.token@.value)),
            ] && req.body@ == Seq::<u8>::empty()),
            !is_parsable_url(method_uri_path(method_relative_uri@)) ==> (r matches Err(e) && e
                == ClientError::UrlConstruction),
    {
        match self.client.try_get(method_relative_uri, params) {
            Ok(bare) => {
                let r = self.setup_token_auth_header(bare);
                proof {
                    assert(headers_view(r.headers@) =~= seq![
                        (authorization_header_name(), bearer_value(self.token@.value)),
                    ]);
                }
                Ok(r)
            },
            Err(e) => Err(e),
        }
    }

    /// The authenticated POST request for a method: its URL with no query
    /// parameters, the bearer-auth header, `content-type: application/json`,
    /// and the given JSON text as body.  The payload is serialized by the
    /// caller, so a value its encoder rejects never reaches this point.
    pub fn post(&self, method_relative_uri: &[u8], body_json: Vec<u8>) -> (r: ApiRequest)
        requires
            is_parsable_url(method_uri_path(method_relative_uri@)),
        ensures
            r.method == HttpMethod::Post,
            r.url@ == method_uri_path(method_relative_uri@),
            headers_view(r.headers@) == seq![
                (authorization_header_name(), bearer_value(self.token@.value)),
                (content_type_header_name(), json_content_type()),
            ],
            r.body@ == body_json@,
    {
        let path = SlackClient::create_method_uri_path(method_relative_uri);
        let url = SlackClient::create_url(path.as_slice());
        let bare = ApiRequest::new(HttpMethod::Post, url);
        let with_auth = self.setup_token_auth_header(bare);
        let with_type = with_auth.header(content_type_header_name_vec(), json_content_type_vec());
        let r = with_type.with_body(body_json);
        proof {
            assert(headers_view(r.headers@) =~= seq![
                (authorization_header_name(), bearer_value(self.token@.value)),
                (content_type_header_name(), json_content_type()),
            ]);
        }
        r
    }

    /// `post` behind a runtime check of the URL.
    pub fn try_post(&self, method_relative_uri: &[u8], body_json: Vec<u8>) -> (r: Result<
        ApiRequest,
        ClientError,
    >)
        ensures
            is_parsable_url(method_uri_path(method_relative_uri@)) ==> (r matches Ok(req)
                && req.method == HttpMethod::Post && req.url@ == method_uri_path(
                method_relative_uri@,
            ) && headers_view(req.headers@) == seq![
                (authorization_header_name(), bearer_value(self.token@.value)),
                (content_type_header_name(), json_content_type()),
            ] && req.body@ == body_json@),
            !is_parsable_url(method_uri_path(method_relative_uri@)) ==> (r matches Err(e) && e
                == ClientError::UrlConstruction),
    {
        let path = SlackClient::create_method_uri_path(method_relative_uri);
        if crate::client::url_accepts(path.as_slice()) {
            Ok(self.post(method_relative_uri, body_json))
        } else {
            Err(ClientError::UrlConstruction)
        }
    }
}

/// Two sessions' bearer headers agree exactly when their tokens agree: a
/// session's requests carry its own token's header, and sessions over
/// different tokens never share one.
pub proof fn lemma_bearer_values_independent(t1: Seq<u8>, t2: Seq<u8>)
    ensures
        bearer_value(t1) == bearer_value(t2) <==> t1 == t2,
{
    if bearer_value(t1) == bearer_value(t2) {
        let p = bearer_prefix();
        assert(bearer_value(t1).len() == p.len() + t1.len());
        assert(t1.len() == t2.len());
        assert forall|i: int| 0 <= i < t1.len() implies t1[i] == t2[i] by {
            assert(t1[i] == bearer_value(t1)[p.len() + i]);
            assert(t2[i] == bearer_value(t2)[p.len() + i]);
        }
        assert(t1 =~= t2);
    }
}

} // verus!
