//! A minimal generic client for a JSON-over-HTTPS web API with bearer-token
//! authentication: URL building with form-urlencoded query parameters,
//! credential-bound sessions that stamp requests with their auth header, and
//! interpretation of transport outcomes as JSON.  Network dispatch itself
//! suspends and lives with the embedding program; everything here computes
//! plain values and is specified over them.
pub mod client;
pub mod encoding;
pub mod errors;
pub mod query;
pub mod request;
pub mod response;
pub mod session;
pub mod token;

pub use crate::client::SlackClient;
pub use crate::errors::ClientError;
pub use crate::request::ApiRequest;
pub use crate::request::HttpMethod;
pub use crate::response::decode_webapi_response;
pub use crate::session::SlackClientSession;
pub use crate::token::SlackApiToken;
