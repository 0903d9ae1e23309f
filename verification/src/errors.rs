//! The error kinds a web-API call can surface.
use vstd::prelude::*;

verus! {

/// What went wrong with a web-API call.  `UrlConstruction` marks a request
/// whose pieces do not form a valid URL; `Transport` carries the message of a
/// connection-level failure unchanged; `Decode` marks a response body that is
/// not JSON the decoder accepts; `Serialize` marks a request payload that
/// could not be encoded to JSON.
#[derive(Debug, Clone, PartialEq)]
pub enum ClientError {
    UrlConstruction,
    Transport(Vec<u8>),
    Decode,
    Serialize,
}

} // verus!
