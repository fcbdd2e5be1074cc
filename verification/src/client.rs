//! The client: bound to a relay, a target and a gateway key configuration,
//! it builds and encapsulates inner requests and hands back the context that
//! decapsulates their responses.

use vstd::prelude::*;
use vstd::string::{StrSliceExecFns, StringSliceAdditionalSpecFns};
use vstd::slice::slice_to_vec;
use crate::error::ClientError;
use crate::keys::KeyConfig;
use crate::message::{
    lemma_field_lines_prefix_grows,
    InnerRequest,
    field_lines,
    fields_view,
    known_length_request,
    varint_limit,
    write_known_length_request,
};
use crate::query::{lemma_str_pairs_bytes, str_pairs_bytes, str_pairs_view, utf8_pairs};
use vstd::utf8::encode_utf8;
use crate::response::{response_from_message, Response};
use crate::seal::{
    open_response,
    opened_len,
    opening_is_determined,
    opens_to,
    pad_to_known_length,
    seal_request,
    sealed_overhead,
    sealed_to,
};
pub use crate::seal::ResponseContext;
use crate::target::{
    parts_fit,
    resolve_request_target,
    resolved_parts,
    stays_on_origin,
};

verus! {

/// Media type of an encapsulated request, per RFC 9458.
pub const OHTTP_REQ_CONTENT_TYPE: &'static str = "message/ohttp-req";

/// How to reach the gateway's key endpoint when refetching after a rotation.
#[derive(Debug, Clone, Copy, PartialEq, Eq)]
pub enum KeyFetch {
    /// Tunnel the GET through the relay with HTTP `CONNECT`, so the gateway
    /// only ever sees the relay's address.
    ViaRelay,
    /// GET the gateway directly, which reveals the client's address to it.
    Direct,
}

/// What a client is: the encoding of its key configuration, its relay and
/// target URLs, the known length its plaintexts are padded to (if any), and
/// the key endpoint and route it refetches its configuration from (if any).
pub struct ClientView {
    pub key_config: Seq<u8>,
    pub relay: Seq<char>,
    pub target: Seq<char>,
    pub known_length: Option<usize>,
    pub key_refresh: Option<(Seq<char>, KeyFetch)>,
}

/// An OHTTP client bound to a relay, a target, and a gateway key
/// configuration. Per-request paths are resolved on the target's origin.
#[derive(Debug)]
pub struct OhttpClient {
    key_config: KeyConfig,
    relay: String,
    target: String,
    known_length: Option<usize>,
    key_refresh: Option<(String, KeyFetch)>,
}

impl View for OhttpClient {
    type V = ClientView;

    closed spec fn view(&self) -> ClientView {
        ClientView {
            key_config: self.key_config@,
            relay: self.relay@,
            target: self.target@,
            known_length: self.known_length,
            key_refresh: match self.key_refresh {
                Some(kr) => Some((kr.0@, kr.1)),
                None => None,
            },
        }
    }
}

/// The outer request to send to the relay with any HTTP client:
/// `POST {url}` with `Content-Type: {content_type}` and `{body}` as the body.
#[derive(Debug, Clone)]
pub struct OhttpRequest {
    pub url: String,
    pub content_type: &'static str,
    pub body: Vec<u8>,
}

/// The bytes of an optional body.
pub open spec fn opt_bytes(body: Option<&[u8]>) -> Option<Seq<u8>> {
    match body {
        Some(b) => Some(b@),
        None => None,
    }
}

/// The content of an optional body; none is empty content.
pub open spec fn body_bytes(body: Option<Seq<u8>>) -> Seq<u8> {
    match body {
        Some(b) => b,
        None => seq![],
    }
}

/// The inputs of an inner request are short enough for binary HTTP's length
/// prefixes (the encoder panics otherwise).
pub open spec fn request_inputs_fit(
    method: Seq<char>,
    headers: Seq<(Seq<char>, Seq<char>)>,
    body: Option<Seq<u8>>,
) -> bool {
    &&& encode_utf8(method).len() < varint_limit()
    &&& field_lines(utf8_pairs(headers)).len() < varint_limit()
    &&& body_bytes(body).len() < varint_limit()
}

/// The known-length binary HTTP encoding of the inner request that `path`
/// (with `query`) on `target` makes, where it resolves on the target's
/// origin to parts that fit.
pub open spec fn inner_encoding(
    target: Seq<char>,
    method: Seq<char>,
    path: Seq<char>,
    headers: Seq<(Seq<char>, Seq<char>)>,
    query: Seq<(Seq<char>, Seq<char>)>,
    body: Option<Seq<u8>>,
) -> Option<Seq<u8>> {
    match resolved_parts(target, path, utf8_pairs(query)) {
        Some(p) => if parts_fit(p) {
            Some(
                known_length_request(
                    encode_utf8(method),
                    p.0,
                    p.1,
                    p.2,
                    utf8_pairs(headers),
                    body_bytes(body),
                ),
            )
        } else {
            None
        },
        None => None,
    }
}

/// Building an inner request fails, when it does, with the error of
/// resolving its path: `PathEscapesOrigin` for another origin, and a `Url`
/// error when the `url` crate cannot resolve or read it.
pub open spec fn inner_failure<T>(target: Seq<char>, path: Seq<char>, r: Result<T, ClientError>) -> bool {
    &&& (stays_on_origin(target, path) == Some(false) ==> r matches Err(
        ClientError::PathEscapesOrigin,
    ))
    &&& (stays_on_origin(target, path) != Some(false) ==> r matches Err(ClientError::Url(_)))
}

/// The outcome of encapsulating an inner request whose encoding (if it can
/// be built) is `enc`, for `client`.
pub open spec fn encapsulation(
    client: ClientView,
    path: Seq<char>,
    enc: Option<Seq<u8>>,
    r: Result<(OhttpRequest, ResponseContext), ClientError>,
) -> bool {
    match enc {
        None => inner_failure(client.target, path, r),
        Some(enc) => match client.known_length {
            Some(n) => if enc.len() > n {
                r matches Err(ClientError::KnownLengthTooSmall { needed, known_length })
                    && needed == enc.len() && known_length == n
            } else {
                encapsulated(client, enc, r)
            },
            None => encapsulated(client, enc, r) && !(r matches Err(
                ClientError::GetRandom(_),
            )),
        },
    }
}

/// Adopting a key configuration: the client holds it afterwards, and
/// reports whether it differs from the one it held.
pub open spec fn spec_set_key_config(client: ClientView, key_config: Seq<u8>) -> (ClientView, bool) {
    (ClientView { key_config, ..client }, client.key_config != key_config)
}

/// Adopting a configuration twice reports a change at most the first time:
/// a refetch that brings back the key just adopted changes nothing.
pub proof fn lemma_adopting_same_key_twice(client: ClientView, key_config: Seq<u8>)
    ensures
        !spec_set_key_config(spec_set_key_config(client, key_config).0, key_config).1,
        spec_set_key_config(spec_set_key_config(client, key_config).0, key_config).0
            == spec_set_key_config(client, key_config).0,
{
}

/// Adopting a configuration changes nothing but the configuration, and
/// reports no change exactly when it is the one already held.
pub proof fn lemma_adopting_touches_only_the_key(client: ClientView, key_config: Seq<u8>)
    ensures
        spec_set_key_config(client, key_config).0.key_config == key_config,
        spec_set_key_config(client, key_config).0.relay == client.relay,
        spec_set_key_config(client, key_config).0.target == client.target,
        spec_set_key_config(client, key_config).0.known_length == client.known_length,
        spec_set_key_config(client, key_config).0.key_refresh == client.key_refresh,
        !spec_set_key_config(client, key_config).1 <==> client.key_config == key_config,
{
}

/// The header fields as byte strings.
fn header_fields(headers: &[(&str, &str)]) -> (f: Vec<(Vec<u8>, Vec<u8>)>)
    ensures
        fields_view(f@) == str_pairs_bytes(headers@),
{
    let mut f: Vec<(Vec<u8>, Vec<u8>)> = Vec::new();
    let mut i: usize = 0;
    while i < headers.len()
        invariant
            i <= headers@.len(),
            f@.len() == i,
            forall|j: int|
                0 <= j < i ==> (#[trigger] f@[j]).0@ == headers@[j].0.spec_bytes() && f@[j].1@
                    == headers@[j].1.spec_bytes(),
        decreases headers.len() - i,
    {
        let (name, value) = headers[i];
        f.push((name.as_bytes_vec(), value.as_bytes_vec()));
        i = i + 1;
    }
    proof {
        assert(fields_view(f@) =~= str_pairs_bytes(headers@));
    }
    f
}

/// The byte length of the variable-length integer encoding of `n`.
pub open spec fn varint_len(n: int) -> int {
    if n < 0x40 {
        1
    } else if n < 0x4000 {
        2
    } else if n < 0x4000_0000 {
        4
    } else {
        8
    }
}

proof fn lemma_length_prefixed_len(b: Seq<u8>)
    requires
        b.len() < varint_limit(),
    ensures
        crate::message::length_prefixed(b).len() == varint_len(b.len() as int) + b.len(),
{
    crate::message::lemma_be_bytes_len(b.len(), 1);
    crate::message::lemma_be_bytes_len(b.len() + 0x4000, 2);
    crate::message::lemma_be_bytes_len(b.len() + 0x8000_0000, 4);
    crate::message::lemma_be_bytes_len(b.len() + 0xC000_0000_0000_0000, 8);
}

fn varint_len_exec(n: usize) -> (l: u128)
    ensures
        l == varint_len(n as int),
{
    if n < 0x40 {
        1
    } else if n < 0x4000 {
        2
    } else if n < 0x4000_0000 {
        4
    } else {
        8
    }
}

/// Whether the inputs of an inner request are short enough for binary
/// HTTP's length prefixes, which `inner_request` and `encapsulate` require.
pub fn request_inputs_fit_exec(method: &str, headers: &[(&str, &str)], body: Option<&[u8]>) -> (b: bool)
    ensures
        b == request_inputs_fit(method@, str_pairs_view(headers@), opt_bytes(body)),
{
    let limit: u128 = 0x4000_0000_0000_0000;
    if method.as_bytes().len() as u128 >= limit {
        return false;
    }
    let body_len: usize = match body {
        Some(b) => b.len(),
        None => 0,
    };
    if body_len as u128 >= limit {
        return false;
    }
    let ghost fields = str_pairs_bytes(headers@);
    let mut total: u128 = 0;
    let mut i: usize = 0;
    while i < headers.len()
        invariant
            i <= headers@.len(),
            fields == str_pairs_bytes(headers@),
            total == field_lines(fields.take(i as int)).len(),
            total < limit,
            limit == varint_limit(),
            method.spec_bytes().len() < varint_limit(),
            body_bytes(opt_bytes(body)).len() < varint_limit(),
        decreases headers.len() - i,
    {
        let (name, value) = headers[i];
        let n: usize = name.as_bytes().len();
        let v: usize = value.as_bytes().len();
        proof {
            assert(fields[i as int] == (name.spec_bytes(), value.spec_bytes()));
            assert(fields.take(i + 1).drop_last() =~= fields.take(i as int));
            assert(fields.take(i + 1).last() == fields[i as int]);
        }
        if n as u128 >= limit || v as u128 >= limit {
            proof {
                let l = field_lines(fields.take(i + 1));
                assert(l.len() >= n + v);
                lemma_field_lines_prefix_grows(fields, i + 1);
                lemma_str_pairs_bytes(headers@);
            }
            return false;
        }
        proof {
            lemma_length_prefixed_len(name.spec_bytes());
            lemma_length_prefixed_len(value.spec_bytes());
        }
        total = total + varint_len_exec(n) + n as u128 + varint_len_exec(v) + v as u128;
        i = i + 1;
        proof {
            assert(total == field_lines(fields.take(i as int)).len());
        }
        if total >= limit {
            proof {
                lemma_str_pairs_bytes(headers@);
                lemma_field_lines_prefix_grows(fields, i as int);
            }
            return false;
        }
    }
    proof {
        assert(fields.take(i as int) =~= fields);
        lemma_str_pairs_bytes(headers@);
    }
    true
}

fn bytes_equal(a: &[u8], b: &[u8]) -> (eq: bool)
    ensures
        eq == (a@ == b@),
{
    if a.len() != b.len() {
        return false;
    }
    let mut i: usize = 0;
    while i < a.len()
        invariant
            a@.len() == b@.len(),
            i <= a@.len(),
            forall|j: int| 0 <= j < i ==> a@[j] == b@[j],
        decreases a.len() - i,
    {
        if a[i] != b[i] {
            return false;
        }
        i = i + 1;
    }
    proof {
        assert(a@ =~= b@);
    }
    true
}

impl Clone for OhttpClient {
    fn clone(&self) -> (c: Self)
        ensures
            c@ == self@,
    {
        OhttpClient {
            key_config: self.key_config.clone(),
            relay: self.relay.clone(),
            target: self.target.clone(),
            known_length: self.known_length,
            key_refresh: match &self.key_refresh {
                Some((url, route)) => Some((url.clone(), *route)),
                None => None,
            },
        }
    }
}

impl OhttpClient {
    /// Bind a client to a relay, a target, and an already-known gateway key
    /// configuration. The relay and the target are given as URL strings
    /// (a `url::Url`'s serialization, `as_str()`).
    pub fn new(relay: &str, target: &str, key_config: KeyConfig) -> (c: Self)
        ensures
            c@ == (ClientView {
                key_config: key_config@,
                relay: relay@,
                target: target@,
                known_length: None,
                key_refresh: None,
            }),
    {
        OhttpClient {
            key_config,
            relay: relay.to_owned(),
            target: target.to_owned(),
            known_length: None,
            key_refresh: None,
        }
    }

    /// Pad every encapsulated request's binary HTTP plaintext to exactly
    /// `n` bytes.
    pub fn known_length(self, n: usize) -> (c: Self)
        ensures
            c@ == (ClientView { known_length: Some(n), ..self@ }),
    {
        OhttpClient { known_length: Some(n), ..self }
    }

    /// Let this client recover from key rotations by refetching
    /// `gateway_key_url` over `route`.
    pub fn with_key_refresh(self, gateway_key_url: &str, route: KeyFetch) -> (c: Self)
        ensures
            c@ == (ClientView { key_refresh: Some((gateway_key_url@, route)), ..self@ }),
    {
        OhttpClient { key_refresh: Some((gateway_key_url.to_owned(), route)), ..self }
    }

    /// The key configuration that requests are encapsulated to.
    pub fn key_config(&self) -> (k: KeyConfig)
        ensures
            k@ == self@.key_config,
    {
        self.key_config.clone()
    }

    /// Adopt `key_config`, returning whether it differs from the one held.
    pub fn set_key_config(&mut self, key_config: KeyConfig) -> (changed: bool)
        ensures
            (final(self)@, changed) == spec_set_key_config(old(self)@, key_config@),
    {
        let changed = !bytes_equal(self.key_config.as_bytes(), key_config.as_bytes());
        self.key_config = key_config;
        changed
    }

    /// The key endpoint and route to refetch the configuration from, or
    /// `NoGatewayKeyUrl` when the client was given none.
    pub fn refresh_route(&self) -> (r: Result<(String, KeyFetch), ClientError>)
        ensures
            match self@.key_refresh {
                Some((url, route)) => (r matches Ok(rr) && rr.0@ == url && rr.1 == route),
                None => r matches Err(ClientError::NoGatewayKeyUrl),
            },
    {
        match &self.key_refresh {
            Some((url, route)) => Ok((url.clone(), *route)),
            None => Err(ClientError::NoGatewayKeyUrl),
        }
    }

    /// The relay URL, serialized.
    pub fn relay(&self) -> (r: &str)
        ensures
            r@ == self@.relay,
    {
        self.relay.as_str()
    }

    /// The target URL, serialized.
    pub fn target(&self) -> (t: &str)
        ensures
            t@ == self@.target,
    {
        self.target.as_str()
    }

    /// The binary HTTP encoding of the inner request: `method` on `path`
    /// resolved against the target (with `query` appended), with `headers`
    /// in order and `body` as content.
    pub fn inner_request(
        &self,
        method: &str,
        path: &str,
        headers: &[(&str, &str)],
        query: &[(&str, &str)],
        body: Option<&[u8]>,
    ) -> (r: Result<Vec<u8>, ClientError>)
        requires
            request_inputs_fit(method@, str_pairs_view(headers@), opt_bytes(body)),
        ensures
            match inner_encoding(
                self@.target,
                method@,
                path@,
                str_pairs_view(headers@),
                str_pairs_view(query@),
                opt_bytes(body),
            ) {
                Some(enc) => (r matches Ok(b) && b@ == enc),
                None => inner_failure(self@.target, path@, r),
            },
    {
        let ghost qb = str_pairs_bytes(query@);
        proof {
            lemma_str_pairs_bytes(query@);
            lemma_str_pairs_bytes(headers@);
        }
        let resolved = resolve_request_target(self.target.as_str(), path, query);
        let target = match resolved {
            Ok(t) => t,
            Err(e) => {
                proof {
                    let so = stays_on_origin(self@.target, path@);
                    match so {
                        Some(true) => {
                            let rp = resolved_parts(self@.target, path@, qb);
                            assert(rp is None || !parts_fit(rp->0));
                        },
                        _ => {},
                    }
                    assert(inner_encoding(
                        self@.target,
                        method@,
                        path@,
                        str_pairs_view(headers@),
                        str_pairs_view(query@),
                        opt_bytes(body),
                    ) is None);
                }
                return Err(e);
            },
        };
        proof {
            let so = stays_on_origin(self@.target, path@);
            assert(so is Some && so->0);
            assert(resolved_parts(self@.target, path@, qb) == Some(
                (target.scheme@, target.authority@, target.path@),
            ));
        }
        let content = match body {
            Some(b) => slice_to_vec(b),
            None => Vec::new(),
        };
        let req = InnerRequest {
            method: method.as_bytes_vec(),
            scheme: target.scheme,
            authority: target.authority,
            path: target.path,
            fields: header_fields(headers),
            content,
        };
        match write_known_length_request(&req) {
            Ok(bytes) => Ok(bytes),
            Err(e) => Err(ClientError::Bhttp(e)),
        }
    }

    /// Encapsulate an inner request to the target: build its binary HTTP
    /// encoding, pad it to the known length if one is set, and seal it to
    /// the key configuration. Returns the outer request to POST to the
    /// relay, and the one-shot context that decapsulates its response.
    pub fn encapsulate(
        &self,
        method: &str,
        path: &str,
        headers: &[(&str, &str)],
        query: &[(&str, &str)],
        body: Option<&[u8]>,
    ) -> (r: Result<(OhttpRequest, ResponseContext), ClientError>)
        requires
            request_inputs_fit(method@, str_pairs_view(headers@), opt_bytes(body)),
        ensures
            encapsulation(
                self@,
                path@,
                inner_encoding(
                    self@.target,
                    method@,
                    path@,
                    str_pairs_view(headers@),
                    str_pairs_view(query@),
                    opt_bytes(body),
                ),
                r,
            ),
    {
        let ghost spec_enc = inner_encoding(
            self@.target,
            method@,
            path@,
            str_pairs_view(headers@),
            str_pairs_view(query@),
            opt_bytes(body),
        );
        let encoded = match self.inner_request(method, path, headers, query, body) {
            Ok(p) => p,
            Err(e) => return Err(e),
        };
        let ghost enc = encoded@;
        assert(spec_enc == Some(enc));
        let plaintext = match self.known_length {
            Some(n) => match pad_to_known_length(encoded, n) {
                Ok(p) => p,
                Err(e) => return Err(e),
            },
            None => encoded,
        };
        assert(padded_plaintext(self@.known_length, enc, plaintext@));
        let sealed_to_config = seal_request(self.key_config.as_bytes(), plaintext.as_slice());
        let (sealed, context) = match sealed_to_config {
            Ok(s) => s,
            Err(e) => {
                let r = Err(ClientError::Ohttp(e));
                assert(encapsulated(self@, enc, r));
                return r;
            },
        };
        assert(sealed_to(self@.key_config, plaintext@, sealed@));
        let r = Ok(
            (
                OhttpRequest {
                    url: self.relay.clone(),
                    content_type: OHTTP_REQ_CONTENT_TYPE,
                    body: sealed,
                },
                context,
            ),
        );
        assert(encapsulated(self@, enc, r));
        r
    }
}

/// The plaintext that is sealed for an inner request encoded as `enc`:
/// the encoding itself, or, with a known length `n`, `n` bytes that start
/// with it (the rest is random padding).
pub open spec fn padded_plaintext(known_length: Option<usize>, enc: Seq<u8>, pt: Seq<u8>) -> bool {
    match known_length {
        None => pt == enc,
        Some(n) => pt.len() == n && pt.take(enc.len() as int) == enc,
    }
}

/// The outcome of sealing the inner request encoded as `enc`: an outer
/// request to the client's relay, of the encapsulated media type, whose body
/// is a sealing to the client's key configuration of the (padded) encoding,
/// starting with the configuration's key and KEM identifiers and as long as
/// that plaintext plus the configuration's overhead, with the context to
/// open its response; or an `Ohttp` or `GetRandom` error.
pub open spec fn encapsulated(
    client: ClientView,
    enc: Seq<u8>,
    r: Result<(OhttpRequest, ResponseContext), ClientError>,
) -> bool {
    match r {
        Ok((req, ctx)) => {
            &&& req.url@ == client.relay
            &&& req.content_type@ == OHTTP_REQ_CONTENT_TYPE@
            &&& ctx.key_config() == client.key_config
            &&& ctx.sealed_request() == req.body@
            &&& 3 <= client.key_config.len()
            &&& req.body@.take(3) == client.key_config.take(3)
            &&& exists|pt: Seq<u8>|
                {
                    &&& padded_plaintext(client.known_length, enc, pt)
                    &&& sealed_to(client.key_config, pt, req.body@)
                    &&& req.body@.len() == pt.len() + sealed_overhead(client.key_config)
                }
        },
        Err(e) => {
            ||| e is GetRandom
            ||| e is Ohttp && exists|pt: Seq<u8>|
                {
                    &&& padded_plaintext(client.known_length, enc, pt)
                    &&& forall|sealed: Seq<u8>| !#[trigger] sealed_to(client.key_config, pt, sealed)
                }
        },
    }
}

/// With a known length, the size of the outer request does not depend on
/// the inner request: any two requests that fit encapsulate to bodies of
/// the same length, the known length plus the configuration's overhead.
pub proof fn lemma_known_length_hides_request_size(
    client: ClientView,
    path1: Seq<char>,
    enc1: Seq<u8>,
    r1: Result<(OhttpRequest, ResponseContext), ClientError>,
    path2: Seq<char>,
    enc2: Seq<u8>,
    r2: Result<(OhttpRequest, ResponseContext), ClientError>,
)
    requires
        client.known_length is Some,
        encapsulation(client, path1, Some(enc1), r1),
        encapsulation(client, path2, Some(enc2), r2),
        r1 is Ok,
        r2 is Ok,
    ensures
        r1->Ok_0.0.body@.len() == client.known_length->0 + sealed_overhead(client.key_config),
        r1->Ok_0.0.body@.len() == r2->Ok_0.0.body@.len(),
{
}

/// Without a known length, the outer body is as long as the inner request's
/// encoding plus the configuration's overhead; with one, as long as the
/// known length plus that overhead. So padding a request of `L` bytes to
/// `n` lengthens its outer body by exactly `n - L`.
pub proof fn lemma_padding_adds_exactly_the_difference(
    client: ClientView,
    n: usize,
    path: Seq<char>,
    enc: Seq<u8>,
    unpadded: Result<(OhttpRequest, ResponseContext), ClientError>,
    padded: Result<(OhttpRequest, ResponseContext), ClientError>,
)
    requires
        client.known_length is None,
        encapsulation(client, path, Some(enc), unpadded),
        encapsulation(ClientView { known_length: Some(n), ..client }, path, Some(enc), padded),
        unpadded is Ok,
        padded is Ok,
    ensures
        enc.len() <= n,
        padded->Ok_0.0.body@.len() == unpadded->Ok_0.0.body@.len() + (n - enc.len()),
{
}

/// The result of opening `encapsulated`, the response to the request
/// sealed as `request` to `config`: a response read from what the context of
/// that request opens it to, a `Bhttp` error when the opening is not binary
/// HTTP, `NotAResponse` when it is a request, and an `Ohttp` error when it
/// cannot be opened. Where the opening is determined by the configuration
/// and the request, an `Ohttp` error means there is no opening, and the
/// opening read is the only one.
pub open spec fn opened_response(
    config: Seq<u8>,
    request: Seq<u8>,
    encapsulated: Seq<u8>,
    r: Result<Response, ClientError>,
) -> bool {
    ||| r matches Err(ClientError::Ohttp(_)) && (opening_is_determined(config) ==> forall|p: Seq<u8>|
        !#[trigger] opens_to(config, request, encapsulated, p))
    ||| exists|pt: Seq<u8>|
        {
            &&& opens_to(config, request, encapsulated, pt)
            &&& opening_is_determined(config) ==> forall|p: Seq<u8>|
                #[trigger] opens_to(config, request, encapsulated, p) ==> p == pt
            &&& opened_len(encapsulated.len() as int, pt.len() as int)
            &&& response_from_message(pt, r)
        }
}

/// Whatever a response opens to is what decapsulation reads: once the
/// context opens `encapsulated` to `pt`, the result is exactly what `pt`
/// reads as (a response with its status, fields and content, whatever the
/// status, or a `Bhttp` or `NotAResponse` error), and never an `Ohttp`
/// error.
pub proof fn lemma_decapsulation_reads_the_opening(
    config: Seq<u8>,
    request: Seq<u8>,
    encapsulated: Seq<u8>,
    pt: Seq<u8>,
    r: Result<Response, ClientError>,
)
    requires
        opened_response(config, request, encapsulated, r),
        opening_is_determined(config),
        opens_to(config, request, encapsulated, pt),
    ensures
        response_from_message(pt, r),
        !(r matches Err(ClientError::Ohttp(_))),
{
}

/// Encapsulation fails with `Ohttp` only when the plaintext handed to the
/// seal cannot be sealed to the client's key configuration: if every
/// plaintext that the inner request pads to can be sealed, an inner request
/// that builds succeeds, or, with a known length, fails only for want of
/// random padding.
pub proof fn lemma_encapsulation_succeeds_when_sealing_can(
    client: ClientView,
    path: Seq<char>,
    enc: Seq<u8>,
    r: Result<(OhttpRequest, ResponseContext), ClientError>,
)
    requires
        encapsulation(client, path, Some(enc), r),
        client.known_length matches Some(n) ==> enc.len() <= n,
        forall|pt: Seq<u8>|
            #[trigger] padded_plaintext(client.known_length, enc, pt) ==> exists|sealed: Seq<u8>|
                sealed_to(client.key_config, pt, sealed),
    ensures
        r is Ok || (client.known_length is Some && r matches Err(ClientError::GetRandom(_))),
{
    if r matches Err(ClientError::Ohttp(_)) {
        let pt = choose|pt: Seq<u8>|
            {
                &&& padded_plaintext(client.known_length, enc, pt)
                &&& forall|sealed: Seq<u8>| !#[trigger] sealed_to(client.key_config, pt, sealed)
            };
        let sealed = choose|sealed: Seq<u8>| sealed_to(client.key_config, pt, sealed);
        assert(sealed_to(client.key_config, pt, sealed));
    }
}

impl ResponseContext {
    /// Decapsulate the raw body of the relay's response into the inner
    /// response: open it with the request's secret, then read the binary
    /// HTTP response inside (see `Response::from_bhttp`).
    pub fn decapsulate(self, encapsulated: &[u8]) -> (r: Result<Response, ClientError>)
        ensures
            opened_response(self.key_config(), self.sealed_request(), encapsulated@, r),
            r matches Ok(resp) ==> 200 <= resp@.status <= 599,
    {
        let ghost config = self.key_config();
        let ghost request = self.sealed_request();
        let plaintext = match open_response(self, encapsulated) {
            Ok(pt) => pt,
            Err(e) => return Err(ClientError::Ohttp(e)),
        };
        let r = Response::from_bhttp(plaintext.as_slice());
        assert(opens_to(config, request, encapsulated@, plaintext@) && response_from_message(plaintext@, r));
        r
    }

    /// The inner response from the relay's answer to the outer request: an
    /// `UnexpectedStatus` error unless the status is 200, and the
    /// decapsulated body otherwise.
    pub fn decapsulate_relay_response(self, status: i32, body: &[u8]) -> (r: Result<
        Response,
        ClientError,
    >)
        ensures
            status != 200 ==> (r matches Err(ClientError::UnexpectedStatus(s)) && s == status),
            status == 200 ==> opened_response(self.key_config(), self.sealed_request(), body@, r),
            r matches Ok(resp) ==> 200 <= resp@.status <= 599,
    {
        if status != 200 {
            return Err(ClientError::UnexpectedStatus(status));
        }
        self.decapsulate(body)
    }
}

} // verus!
