//! A request builder bound to a client: the method and path of an inner
//! request on the client's target origin, its header fields, query
//! parameters and body. Sending it is the caller's I/O; the builder
//! encapsulates it and, through its client, adopts a refetched key
//! configuration.

use vstd::prelude::*;
use crate::client::{
    ClientView,
    KeyFetch,
    OhttpClient,
    OhttpRequest,
    ResponseContext,
    encapsulation,
    inner_encoding,
    request_inputs_fit,
    request_inputs_fit_exec,
    spec_set_key_config,
};
use crate::client::body_bytes;
use crate::message::known_length_request;
use crate::query::{str_pairs_view, utf8_pairs};
use crate::target::{parts_fit, resolved_parts};
use vstd::utf8::encode_utf8;
use crate::error::ClientError;
use crate::keys::KeyConfig;

verus! {

/// What a request builder holds: method, path, header fields and query
/// parameters in order, and the body, if one was set.
pub struct BuilderView {
    pub method: Seq<char>,
    pub path: Seq<char>,
    pub headers: Seq<(Seq<char>, Seq<char>)>,
    pub params: Seq<(Seq<char>, Seq<char>)>,
    pub body: Option<Seq<u8>>,
}

/// The character strings of string pairs.
pub open spec fn string_pairs_view(pairs: Seq<(String, String)>) -> Seq<(Seq<char>, Seq<char>)> {
    pairs.map_values(|p: (String, String)| (p.0@, p.1@))
}

/// Builds an inner request against a path on the client's target origin.
/// Created by `OhttpClient::request` and its shorthands.
pub struct RequestBuilder<'a> {
    client: &'a mut OhttpClient,
    method: String,
    path: String,
    headers: Vec<(String, String)>,
    params: Vec<(String, String)>,
    body: Option<Vec<u8>>,
}

/// The request that `OhttpClient::request(method, path)` starts.
pub open spec fn fresh_request(method: Seq<char>, path: Seq<char>) -> BuilderView {
    BuilderView { method, path, headers: seq![], params: seq![], body: None }
}

/// `header(name, value)`: the field is appended.
pub open spec fn with_header(v: BuilderView, name: Seq<char>, value: Seq<char>) -> BuilderView {
    BuilderView { headers: v.headers.push((name, value)), ..v }
}

/// `param(key, value)`: the parameter is appended.
pub open spec fn with_param(v: BuilderView, key: Seq<char>, value: Seq<char>) -> BuilderView {
    BuilderView { params: v.params.push((key, value)), ..v }
}

/// `body(b)`: the body is replaced.
pub open spec fn with_body(v: BuilderView, body: Seq<u8>) -> BuilderView {
    BuilderView { body: Some(body), ..v }
}

/// One `header` call per pair, in order.
pub open spec fn with_headers(v: BuilderView, fields: Seq<(Seq<char>, Seq<char>)>) -> BuilderView
    decreases fields.len(),
{
    if fields.len() == 0 {
        v
    } else {
        with_header(with_headers(v, fields.drop_last()), fields.last().0, fields.last().1)
    }
}

/// One `param` call per pair, in order.
pub open spec fn with_params(v: BuilderView, params: Seq<(Seq<char>, Seq<char>)>) -> BuilderView
    decreases params.len(),
{
    if params.len() == 0 {
        v
    } else {
        with_param(with_params(v, params.drop_last()), params.last().0, params.last().1)
    }
}

proof fn lemma_with_headers(v: BuilderView, fields: Seq<(Seq<char>, Seq<char>)>)
    ensures
        with_headers(v, fields) == (BuilderView { headers: v.headers + fields, ..v }),
    decreases fields.len(),
{
    if fields.len() == 0 {
        assert(v.headers + fields =~= v.headers);
    } else {
        lemma_with_headers(v, fields.drop_last());
        assert((v.headers + fields.drop_last()).push(fields.last()) =~= v.headers + fields);
    }
}

proof fn lemma_with_params(v: BuilderView, params: Seq<(Seq<char>, Seq<char>)>)
    ensures
        with_params(v, params) == (BuilderView { params: v.params + params, ..v }),
    decreases params.len(),
{
    if params.len() == 0 {
        assert(v.params + params =~= v.params);
    } else {
        lemma_with_params(v, params.drop_last());
        assert((v.params + params.drop_last()).push(params.last()) =~= v.params + params);
    }
}

/// Header and parameter calls are independent: their relative order does
/// not matter.
pub proof fn lemma_header_and_param_commute(
    v: BuilderView,
    name: Seq<char>,
    value: Seq<char>,
    key: Seq<char>,
    param: Seq<char>,
)
    ensures
        with_param(with_header(v, name, value), key, param) == with_header(
            with_param(v, key, param),
            name,
            value,
        ),
{
}

/// A whole builder chain: `request(method, path)`, then `header` for each
/// field and `param` for each parameter, in call order, then `body` if
/// given, holds exactly that request. Encapsulated, it is the inner request
/// with that method, the fields in call order, the path resolved with the
/// parameters form-encoded and appended in call order after any query
/// already there, and that body (empty without a `body` call).
pub proof fn lemma_builder_chain(
    target: Seq<char>,
    method: Seq<char>,
    path: Seq<char>,
    fields: Seq<(Seq<char>, Seq<char>)>,
    params: Seq<(Seq<char>, Seq<char>)>,
    body: Option<Seq<u8>>,
)
    ensures
        ({
            let chained = with_params(with_headers(fresh_request(method, path), fields), params);
            let built = match body {
                Some(b) => with_body(chained, b),
                None => chained,
            };
            &&& built == (BuilderView { method, path, headers: fields, params, body })
            &&& inner_encoding(target, built.method, built.path, built.headers, built.params, built.body)
                == match resolved_parts(target, path, utf8_pairs(params)) {
                Some(p) => if parts_fit(p) {
                    Some(
                        known_length_request(
                            encode_utf8(method),
                            p.0,
                            p.1,
                            p.2,
                            utf8_pairs(fields),
                            body_bytes(body),
                        ),
                    )
                } else {
                    None
                },
                None => None,
            }
        }),
{
    let start = fresh_request(method, path);
    lemma_with_headers(start, fields);
    assert(start.headers + fields =~= fields);
    let h = with_headers(start, fields);
    lemma_with_params(h, params);
    assert(h.params + params =~= params);
}

/// Borrowed string pairs.
fn as_str_pairs(pairs: &Vec<(String, String)>) -> (r: Vec<(&str, &str)>)
    ensures
        str_pairs_view(r@) == string_pairs_view(pairs@),
{
    let mut r: Vec<(&str, &str)> = Vec::new();
    let mut i: usize = 0;
    while i < pairs.len()
        invariant
            i <= pairs@.len(),
            r@.len() == i,
            forall|j: int|
                0 <= j < i ==> (#[trigger] r@[j]).0@ == pairs@[j].0@ && r@[j].1@ == pairs@[j].1@,
        decreases pairs.len() - i,
    {
        r.push((pairs[i].0.as_str(), pairs[i].1.as_str()));
        i = i + 1;
    }
    proof {
        assert(str_pairs_view(r@) =~= string_pairs_view(pairs@));
    }
    r
}

impl OhttpClient {
    /// Start building an inner request with the given method and path on
    /// the client's target origin.
    pub fn request<'a>(&'a mut self, method: &str, path: &str) -> (b: RequestBuilder<'a>)
        ensures
            b.view() == fresh_request(method@, path@),
            b.client() == old(self)@,
    {
        let b = RequestBuilder {
            client: self,
            method: method.to_owned(),
            path: path.to_owned(),
            headers: Vec::new(),
            params: Vec::new(),
            body: None,
        };
        proof {
            assert(string_pairs_view(b.headers@) =~= seq![]);
            assert(string_pairs_view(b.params@) =~= seq![]);
        }
        b
    }

    /// Shorthand for `request("GET", path)`.
    pub fn get<'a>(&'a mut self, path: &str) -> (b: RequestBuilder<'a>)
        ensures
            b.view() == fresh_request("GET"@, path@),
            b.client() == old(self)@,
    {
        self.request("GET", path)
    }

    /// Shorthand for `request("HEAD", path)`.
    pub fn head<'a>(&'a mut self, path: &str) -> (b: RequestBuilder<'a>)
        ensures
            b.view() == fresh_request("HEAD"@, path@),
            b.client() == old(self)@,
    {
        self.request("HEAD", path)
    }

    /// Shorthand for `request("POST", path)`.
    pub fn post<'a>(&'a mut self, path: &str) -> (b: RequestBuilder<'a>)
        ensures
            b.view() == fresh_request("POST"@, path@),
            b.client() == old(self)@,
    {
        self.request("POST", path)
    }

    /// Shorthand for `request("PUT", path)`.
    pub fn put<'a>(&'a mut self, path: &str) -> (b: RequestBuilder<'a>)
        ensures
            b.view() == fresh_request("PUT"@, path@),
            b.client() == old(self)@,
    {
        self.request("PUT", path)
    }

    /// Shorthand for `request("DELETE", path)`.
    pub fn delete<'a>(&'a mut self, path: &str) -> (b: RequestBuilder<'a>)
        ensures
            b.view() == fresh_request("DELETE"@, path@),
            b.client() == old(self)@,
    {
        self.request("DELETE", path)
    }

    /// Shorthand for `request("CONNECT", path)`.
    pub fn connect<'a>(&'a mut self, path: &str) -> (b: RequestBuilder<'a>)
        ensures
            b.view() == fresh_request("CONNECT"@, path@),
            b.client() == old(self)@,
    {
        self.request("CONNECT", path)
    }

    /// Shorthand for `request("OPTIONS", path)`.
    pub fn options<'a>(&'a mut self, path: &str) -> (b: RequestBuilder<'a>)
        ensures
            b.view() == fresh_request("OPTIONS"@, path@),
            b.client() == old(self)@,
    {
        self.request("OPTIONS", path)
    }

    /// Shorthand for `request("TRACE", path)`.
    pub fn trace<'a>(&'a mut self, path: &str) -> (b: RequestBuilder<'a>)
        ensures
            b.view() == fresh_request("TRACE"@, path@),
            b.client() == old(self)@,
    {
        self.request("TRACE", path)
    }

    /// Shorthand for `request("PATCH", path)`.
    pub fn patch<'a>(&'a mut self, path: &str) -> (b: RequestBuilder<'a>)
        ensures
            b.view() == fresh_request("PATCH"@, path@),
            b.client() == old(self)@,
    {
        self.request("PATCH", path)
    }
}

impl<'a> RequestBuilder<'a> {
    /// The request held so far.
    pub closed spec fn view(&self) -> BuilderView {
        BuilderView {
            method: self.method@,
            path: self.path@,
            headers: string_pairs_view(self.headers@),
            params: string_pairs_view(self.params@),
            body: match self.body {
                Some(b) => Some(b@),
                None => None,
            },
        }
    }

    /// The client the request goes through.
    pub closed spec fn client(&self) -> ClientView {
        self.client@
    }

    /// Add a header field to the inner request.
    pub fn header(self, name: &str, value: &str) -> (b: Self)
        ensures
            b.view() == with_header(self.view(), name@, value@),
            b.client() == self.client(),
    {
        let mut b = self;
        b.headers.push((name.to_owned(), value.to_owned()));
        proof {
            assert(string_pairs_view(b.headers@) =~= string_pairs_view(self.headers@).push(
                (name@, value@),
            ));
        }
        b
    }

    /// Add a query parameter to the inner request; parameters are
    /// form-encoded and appended after any query already present on the
    /// resolved path.
    pub fn param(self, key: &str, value: &str) -> (b: Self)
        ensures
            b.view() == with_param(self.view(), key@, value@),
            b.client() == self.client(),
    {
        let mut b = self;
        b.params.push((key.to_owned(), value.to_owned()));
        proof {
            assert(string_pairs_view(b.params@) =~= string_pairs_view(self.params@).push(
                (key@, value@),
            ));
        }
        b
    }

    /// Set the inner request's body.
    pub fn body(self, body: &[u8]) -> (b: Self)
        ensures
            b.view() == with_body(self.view(), body@),
            b.client() == self.client(),
    {
        RequestBuilder { body: Some(vstd::slice::slice_to_vec(body)), ..self }
    }

    /// Whether the request's method, header fields and body are short
    /// enough for binary HTTP's length prefixes, which `encapsulate`
    /// requires.
    pub fn fits(&self) -> (b: bool)
        ensures
            b == request_inputs_fit(self.view().method, self.view().headers, self.view().body),
    {
        let headers = as_str_pairs(&self.headers);
        let body = match &self.body {
            Some(b) => Some(b.as_slice()),
            None => None,
        };
        request_inputs_fit_exec(self.method.as_str(), headers.as_slice(), body)
    }

    /// Encapsulate the inner request through the client (see
    /// `OhttpClient::encapsulate`).
    pub fn encapsulate(&self) -> (r: Result<(OhttpRequest, ResponseContext), ClientError>)
        requires
            request_inputs_fit(self.view().method, self.view().headers, self.view().body),
        ensures
            encapsulation(
                self.client(),
                self.view().path,
                inner_encoding(
                    self.client().target,
                    self.view().method,
                    self.view().path,
                    self.view().headers,
                    self.view().params,
                    self.view().body,
                ),
                r,
            ),
    {
        let headers = as_str_pairs(&self.headers);
        let params = as_str_pairs(&self.params);
        let body = match &self.body {
            Some(b) => Some(b.as_slice()),
            None => None,
        };
        self.client.encapsulate(
            self.method.as_str(),
            self.path.as_str(),
            headers.as_slice(),
            params.as_slice(),
            body,
        )
    }

    /// The client's relay URL, serialized.
    pub fn relay(&self) -> (r: &str)
        ensures
            r@ == self.client().relay,
    {
        self.client.relay()
    }

    /// The key endpoint and route to refetch the configuration from, or
    /// `NoGatewayKeyUrl` (see `OhttpClient::refresh_route`).
    pub fn refresh_route(&self) -> (r: Result<(String, KeyFetch), ClientError>)
        ensures
            match self.client().key_refresh {
                Some((url, route)) => (r matches Ok(rr) && rr.0@ == url && rr.1 == route),
                None => r matches Err(ClientError::NoGatewayKeyUrl),
            },
    {
        self.client.refresh_route()
    }

    /// Adopt a refetched key configuration in the client, returning whether
    /// it changed (see `OhttpClient::set_key_config`).
    pub fn adopt_key_config(&mut self, key_config: KeyConfig) -> (changed: bool)
        ensures
            (final(self).client(), changed) == spec_set_key_config(old(self).client(), key_config@),
            final(self).view() == old(self).view(),
    {
        self.client.set_key_config(key_config)
    }
}

} // verus!
