//! A minimal, sans-IO Oblivious HTTP (RFC 9458) client: binary HTTP request
//! construction, request encapsulation and response decapsulation, and key
//! configuration parsing (RFC 9540).

pub mod error;
pub mod outside;
pub mod message;
pub mod query;
pub mod keys;
pub mod target;
pub mod response;
pub mod seal;
pub mod client;
pub mod retry;
pub mod builder;

pub use error::ClientError;
pub use builder::RequestBuilder;
pub use client::{KeyFetch, OhttpClient, OhttpRequest, ResponseContext, OHTTP_REQ_CONTENT_TYPE};
pub use keys::{parse_key_config, parse_key_config_response, KeyConfig};
pub use response::Response;
pub use url::Url;
