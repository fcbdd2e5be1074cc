//! Resolving a per-request path against the client's target URL, keeping it
//! on the target's origin, and splitting the result into the scheme,
//! authority and path that a binary HTTP request carries. URL parsing,
//! resolution and origins are the `url` crate's.

use vstd::prelude::*;
use vstd::utf8::encode_utf8;
use vstd::string::StrSliceExecFns;
use crate::client::KeyFetch;
use crate::error::ClientError;
use crate::message::varint_limit;
use crate::query::{append_query, str_pairs_bytes, with_query};

verus! {

/// What `url::Url::parse(base)` then `join(reference)` gives, serialized;
/// `None` where either fails.
pub uninterp spec fn url_joined(base: Seq<char>, reference: Seq<char>) -> Option<Seq<char>>;

/// Whether the origins of `url::Url::parse(a)` and `url::Url::parse(b)` are
/// equal; `None` where either parse fails.
pub uninterp spec fn url_same_origin(a: Seq<char>, b: Seq<char>) -> Option<bool>;

/// The scheme, the host and port (`[BeforeHost..AfterPort]`), and everything
/// from the path on (`[BeforePath..]`) of `url::Url::parse(url)`; `None`
/// where the parse fails.
pub uninterp spec fn url_request_parts(url: Seq<char>) -> Option<(Seq<char>, Seq<char>, Seq<char>)>;

/// The host (`host_str`) and the port or the scheme's default port
/// (`port_or_known_default`) of `url::Url::parse(url)`; `None` where the
/// parse fails.
pub uninterp spec fn url_host_and_port(url: Seq<char>) -> Option<(Option<Seq<char>>, Option<u16>)>;

/// `url::Url::join` of `reference` on the URL that `url::Url::parse` makes
/// of `base`, serialized. Its result is named by `url_joined`.
#[verifier::external_body]
fn join_url(base: &str, reference: &str) -> (r: Result<String, url::ParseError>)
    ensures
        r matches Ok(s) ==> url_joined(base@, reference@) == Some(s@),
        r is Err ==> url_joined(base@, reference@) is None,
{
    url::Url::parse(base)?.join(reference).map(String::from)
}

/// Equality of `url::Url::origin` of the two parsed URLs. Its result is
/// named by `url_same_origin` (an opaque origin is equal to no other one,
/// so the answer depends on the two strings alone).
#[verifier::external_body]
fn same_origin(a: &str, b: &str) -> (r: Result<bool, url::ParseError>)
    ensures
        r matches Ok(same) ==> url_same_origin(a@, b@) == Some(same),
        r is Err ==> url_same_origin(a@, b@) is None,
{
    Ok(url::Url::parse(a)?.origin() == url::Url::parse(b)?.origin())
}

/// `scheme()`, `[Position::BeforeHost..Position::AfterPort]` and
/// `[Position::BeforePath..]` of the URL that `url::Url::parse` makes of
/// `url`. Its result is named by `url_request_parts`.
#[verifier::external_body]
fn request_parts(url: &str) -> (r: Result<(String, String, String), url::ParseError>)
    ensures
        r matches Ok(p) ==> url_request_parts(url@) == Some((p.0@, p.1@, p.2@)),
        r is Err ==> url_request_parts(url@) is None,
{
    let u = url::Url::parse(url)?;
    let authority = &u[url::Position::BeforeHost..url::Position::AfterPort];
    Ok((u.scheme().to_owned(), authority.to_owned(), u[url::Position::BeforePath..].to_owned()))
}

/// `host_str()` and `port_or_known_default()` of the URL that
/// `url::Url::parse` makes of `url`. Its result is named by
/// `url_host_and_port`.
#[verifier::external_body]
fn host_and_port(url: &str) -> (r: Result<(Option<String>, Option<u16>), url::ParseError>)
    ensures
        r matches Ok(p) ==> url_host_and_port(url@) == Some(
            (
                match p.0 {
                    Some(h) => Some(h@),
                    None => None,
                },
                p.1,
            ),
        ),
        r is Err ==> url_host_and_port(url@) is None,
{
    let u = url::Url::parse(url)?;
    Ok((u.host_str().map(String::from), u.port_or_known_default()))
}

/// `url::ParseError::Overflow`, the `url` crate's error for URLs too long
/// to hold.
#[verifier::external_body]
fn overflow_error() -> url::ParseError {
    url::ParseError::Overflow
}

/// The scheme, authority and path (with query) of an inner request, as bytes.
pub struct RequestTarget {
    pub scheme: Vec<u8>,
    pub authority: Vec<u8>,
    pub path: Vec<u8>,
}

/// How `path` fares against `target`: `None` when the `url` crate cannot
/// resolve it or read the result, `Some(false)` when it resolves to another
/// origin, `Some(true)` when it stays on the target's origin.
pub open spec fn stays_on_origin(target: Seq<char>, path: Seq<char>) -> Option<bool> {
    match url_joined(target, path) {
        None => None,
        Some(joined) => url_same_origin(joined, target),
    }
}

/// The scheme, authority and path (with the serialized query parameters)
/// that `path` resolves to on `target`, as bytes, where it stays on the
/// target's origin and the `url` crate can read the result.
pub open spec fn resolved_parts(
    target: Seq<char>,
    path: Seq<char>,
    query: Seq<(Seq<u8>, Seq<u8>)>,
) -> Option<(Seq<u8>, Seq<u8>, Seq<u8>)> {
    if stays_on_origin(target, path) == Some(true) {
        match url_request_parts(url_joined(target, path).unwrap()) {
            Some(p) => Some((encode_utf8(p.0), encode_utf8(p.1), with_query(encode_utf8(p.2), query))),
            None => None,
        }
    } else {
        None
    }
}

/// The three parts are short enough for binary HTTP's length prefixes.
pub open spec fn parts_fit(p: (Seq<u8>, Seq<u8>, Seq<u8>)) -> bool {
    p.0.len() < varint_limit() && p.1.len() < varint_limit() && p.2.len() < varint_limit()
}

/// The outcome of resolving `path` (with `query`) on `target`.
pub open spec fn resolution(
    target: Seq<char>,
    path: Seq<char>,
    query: Seq<(Seq<u8>, Seq<u8>)>,
    r: Result<RequestTarget, ClientError>,
) -> bool {
    &&& (stays_on_origin(target, path) == Some(false) ==> r matches Err(
        ClientError::PathEscapesOrigin,
    ))
    &&& (stays_on_origin(target, path) is None ==> r matches Err(ClientError::Url(_)))
    &&& stays_on_origin(target, path) == Some(true) ==> match resolved_parts(target, path, query) {
        None => r matches Err(ClientError::Url(_)),
        Some(p) => if parts_fit(p) {
            (r matches Ok(t) && t.scheme@ == p.0 && t.authority@ == p.1 && t.path@ == p.2)
        } else {
            r matches Err(ClientError::Url(_))
        },
    }
}

fn fits_varint(v: &Vec<u8>) -> (b: bool)
    ensures
        b == (v@.len() < varint_limit()),
{
    (v.len() as u64) < 0x4000_0000_0000_0000u64
}

/// Resolve `path` against `target` with `url::Url::join`, refuse a result
/// on another origin (`PathEscapesOrigin`), append the query parameters to
/// its query, and split it into scheme, authority and path.
pub fn resolve_request_target(target: &str, path: &str, query: &[(&str, &str)]) -> (r: Result<
    RequestTarget,
    ClientError,
>)
    ensures
        resolution(target@, path@, str_pairs_bytes(query@), r),
{
    let joined = match join_url(target, path) {
        Ok(j) => j,
        Err(e) => return Err(ClientError::Url(e)),
    };
    match same_origin(joined.as_str(), target) {
        Err(e) => return Err(ClientError::Url(e)),
        Ok(false) => return Err(ClientError::PathEscapesOrigin),
        Ok(true) => {},
    }
    let (scheme, authority, rest) = match request_parts(joined.as_str()) {
        Ok(p) => p,
        Err(e) => return Err(ClientError::Url(e)),
    };
    let scheme = scheme.as_str().as_bytes_vec();
    let authority = authority.as_str().as_bytes_vec();
    let path = append_query(rest.as_str().as_bytes(), query);
    if !(fits_varint(&scheme) && fits_varint(&authority) && fits_varint(&path)) {
        return Err(ClientError::Url(overflow_error()));
    }
    Ok(RequestTarget { scheme, authority, path })
}

/// The host and port to tunnel through on the relay at `relay`
/// (`host_str` and `port_or_known_default`), or `NoRelayHost` when it has
/// neither a host nor a known port.
pub fn relay_host_and_port(relay: &str) -> (r: Result<(String, u16), ClientError>)
    ensures
        match url_host_and_port(relay@) {
            None => r matches Err(ClientError::Url(_)),
            Some((Some(host), Some(port))) => (r matches Ok(hp) && hp.0@ == host && hp.1 == port),
            Some(_) => r matches Err(ClientError::NoRelayHost),
        },
{
    match host_and_port(relay) {
        Err(e) => Err(ClientError::Url(e)),
        Ok((Some(host), Some(port))) => Ok((host, port)),
        Ok(_) => Err(ClientError::NoRelayHost),
    }
}

/// The proxy through which a key endpoint is fetched on `route`: none for a
/// direct fetch, and for a fetch through the relay at `relay` the relay's
/// host and port to tunnel through with `CONNECT` (or the error of
/// `relay_host_and_port`).
pub fn key_fetch_proxy(route: KeyFetch, relay: &str) -> (r: Result<Option<(String, u16)>, ClientError>)
    ensures
        route is Direct ==> r matches Ok(None),
        route is ViaRelay ==> match url_host_and_port(relay@) {
            None => r matches Err(ClientError::Url(_)),
            Some((Some(host), Some(port))) => (r matches Ok(Some(hp)) && hp.0@ == host && hp.1 == port),
            Some(_) => r matches Err(ClientError::NoRelayHost),
        },
{
    match route {
        KeyFetch::Direct => Ok(None),
        KeyFetch::ViaRelay => match relay_host_and_port(relay) {
            Ok(hp) => Ok(Some(hp)),
            Err(e) => Err(e),
        },
    }
}

} // verus!
