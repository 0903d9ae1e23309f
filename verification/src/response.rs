//! Interpreting the outcome of a dispatched request: a connection-level
//! failure is surfaced unchanged as a `Transport` error, and a received body
//! is parsed as JSON, whole, before any value is returned.  HTTP status codes
//! are not inspected here: a body that parses is a success, whatever the
//! status said.
use crate::errors::ClientError;
use vstd::prelude::*;

verus! {

#[verifier::external_type_specification]
#[verifier::external_body]
pub struct ExJsonValue(serde_json::Value);

#[verifier::external_type_specification]
#[verifier::external_body]
pub struct ExJsonError(serde_json::Error);

/// Whether serde_json's parser accepts these bytes as a complete JSON
/// document.  The outcome depends on the bytes alone.
pub uninterp spec fn is_json(b: Seq<u8>) -> bool;

/// Relies on serde_json::from_slice::<Value>: it returns Ok exactly when the
/// bytes are JSON its parser accepts, deterministically in the bytes.
#[verifier::external_body]
fn parse_json_value(b: &[u8]) -> (r: Result<serde_json::Value, serde_json::Error>)
    ensures
        r matches Ok(_) <==> is_json(b@),
{
    serde_json::from_slice::<serde_json::Value>(b)
}

/// Turns a transport outcome into the call's result.  A failed exchange is a
/// `Transport` error carrying the transport's message unchanged; a received
/// body yields its JSON value exactly when the parser accepts it, and a
/// `Decode` error otherwise — never a partially-decoded value.
pub fn decode_webapi_response(outcome: Result<Vec<u8>, Vec<u8>>) -> (r: Result<
    serde_json::Value,
    ClientError,
>)
    ensures
        outcome matches Err(m) ==> r == Err::<serde_json::Value, ClientError>(
            ClientError::Transport(m),
        ),
        outcome matches Ok(b) ==> {
            &&& ((r matches Ok(_)) <==> is_json(b@))
            &&& !is_json(b@) ==> r == Err::<serde_json::Value, ClientError>(ClientError::Decode)
        },
{
    match outcome {
        Err(m) => Err(ClientError::Transport(m)),
        Ok(body) => match parse_json_value(body.as_slice()) {
            Ok(v) => Ok(v),
            Err(_) => Err(ClientError::Decode),
        },
    }
}

} // verus!
