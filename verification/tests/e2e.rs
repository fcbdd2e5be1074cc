//! End-to-end exchanges against an in-process gateway: the gateway serves
//! its key configuration, decapsulates requests, answers them the way the
//! echo target does ("<method> <path> <body>"), and encapsulates the
//! response. The sends go through the library's send policy.

use std::io::Cursor;

use ohttp::hpke::{Aead, Kdf, Kem};
use ohttp::SymmetricSuite;
use ohttp_client::retry::{send_start, send_step, SendAction, SendEvent};
use ohttp_client::target::relay_host_and_port;
use ohttp_client::{
    parse_key_config, parse_key_config_response, ClientError, KeyFetch, OhttpClient, RequestBuilder,
    Response, Url,
};

const RELAY_URL: &str = "http://127.0.0.1:9001/";
const GATEWAY_URL: &str = "http://127.0.0.1:9002/.well-known/ohttp-gateway";
const TARGET_URL: &str = "http://127.0.0.1:9003";
const CONNECT_PROXY_URL: &str = "http://127.0.0.1:9004/";

struct Gateway {
    current: ohttp::Server,
    retired: Option<ohttp::Server>,
    next_key_id: u8,
}

fn new_server(key_id: u8) -> ohttp::Server {
    let config = ohttp::KeyConfig::new(
        key_id,
        Kem::X25519Sha256,
        vec![SymmetricSuite::new(Kdf::HkdfSha256, Aead::ChaCha20Poly1305)],
    )
    .unwrap();
    ohttp::Server::new(config).unwrap()
}

impl Gateway {
    fn start() -> Self {
        Gateway { current: new_server(1), retired: None, next_key_id: 2 }
    }

    /// GET on the key endpoint: status, content type, body.
    fn keys(&self) -> (i32, &'static str, Vec<u8>) {
        (
            200,
            "application/ohttp-keys",
            ohttp::KeyConfig::encode_list(&[self.current.config()]).unwrap(),
        )
    }

    /// A rotation with no overlap: the old key is gone.
    fn rotate_keys(&mut self) {
        self.current = new_server(self.next_key_id);
        self.next_key_id += 1;
    }

    /// A rotation with an overlap window: the old key still decapsulates.
    fn rotate_keys_overlap(&mut self) {
        let old = std::mem::replace(&mut self.current, new_server(self.next_key_id));
        self.retired = Some(old);
        self.next_key_id += 1;
    }

    /// POST of an encapsulated request: status, content type, body.
    fn post(&self, content_type: &str, body: &[u8]) -> (i32, &'static str, Vec<u8>) {
        assert_eq!(content_type, "message/ohttp-req");
        let opened = self
            .current
            .decapsulate(body)
            .or_else(|e| match &self.retired {
                Some(old) => old.decapsulate(body),
                None => Err(e),
            });
        let (inner_bytes, server_ctx) = match opened {
            Ok(o) => o,
            Err(_) => return (400, "text/plain", b"cannot decapsulate".to_vec()),
        };
        let inner = bhttp::Message::read_bhttp(&mut Cursor::new(&inner_bytes[..])).unwrap();
        let method = String::from_utf8(inner.control().method().unwrap().to_vec()).unwrap();
        let path = String::from_utf8(inner.control().path().unwrap().to_vec()).unwrap();
        let mut echoed = format!("{} {} ", method, path).into_bytes();
        echoed.extend_from_slice(inner.content());

        let mut res = bhttp::Message::response(bhttp::StatusCode::try_from(200u16).unwrap());
        res.put_header("content-type", "text/plain");
        res.write_content(&echoed);
        let mut res_bytes = Vec::new();
        res.write_bhttp(bhttp::Mode::KnownLength, &mut res_bytes).unwrap();
        (200, "message/ohttp-res", server_ctx.encapsulate(&res_bytes).unwrap())
    }
}

fn attempt(builder: &RequestBuilder<'_>, gateway: &Gateway) -> Result<Response, ClientError> {
    assert!(builder.fits());
    let (req, ctx) = builder.encapsulate()?;
    assert_eq!(req.url, RELAY_URL);
    let (status, _, body) = gateway.post(req.content_type, &req.body);
    ctx.decapsulate_relay_response(status, &body)
}

fn refresh(builder: &mut RequestBuilder<'_>, gateway: &Gateway) -> Result<bool, ClientError> {
    let (url, _route) = builder.refresh_route()?;
    assert_eq!(url, GATEWAY_URL);
    let (status, _, body) = gateway.keys();
    let key_config = parse_key_config_response(status, &body)?;
    Ok(builder.adopt_key_config(key_config))
}

fn send(mut builder: RequestBuilder<'_>, gateway: &Gateway) -> Result<Response, ClientError> {
    let (mut state, mut action) = send_start();
    loop {
        let event = match action {
            SendAction::Attempt => SendEvent::Attempted(attempt(&builder, gateway)),
            SendAction::Refresh => SendEvent::Refreshed(refresh(&mut builder, gateway)),
            SendAction::Complete(outcome) => return outcome,
        };
        let (next_state, next_action) = send_step(state, event);
        state = next_state;
        action = next_action;
    }
}

fn refresh_key_config(client: &mut OhttpClient, gateway: &Gateway) -> Result<bool, ClientError> {
    let (_url, _route) = client.refresh_route()?;
    let (status, _, body) = gateway.keys();
    let key_config = parse_key_config_response(status, &body)?;
    Ok(client.set_key_config(key_config))
}

fn fetch_key_config(gateway: &Gateway) -> ohttp_client::KeyConfig {
    let (status, _, body) = gateway.keys();
    parse_key_config_response(status, &body).unwrap()
}

fn from_gateway(relay: &str, gateway: &Gateway) -> OhttpClient {
    // The key fetch is tunneled through the relay's host and port.
    let (host, port) = relay_host_and_port(relay).unwrap();
    assert_eq!(host, "127.0.0.1");
    assert_eq!(port, 9004);
    OhttpClient::new(
        Url::parse(relay).unwrap().as_str(),
        Url::parse(TARGET_URL).unwrap().as_str(),
        fetch_key_config(gateway),
    )
    .with_key_refresh(GATEWAY_URL, KeyFetch::ViaRelay)
}

#[test]
fn e2e_through_relay_and_gateway() {
    let gateway = Gateway::start();

    let (status, content_type, keys) = gateway.keys();
    assert_eq!(status, 200);
    assert_eq!(content_type, "application/ohttp-keys");

    let client = OhttpClient::new(
        Url::parse(RELAY_URL).unwrap().as_str(),
        Url::parse(TARGET_URL).unwrap().as_str(),
        parse_key_config(&keys).unwrap(),
    );

    let (req, ctx) = client
        .encapsulate("POST", "/echo", &[("content-type", "text/plain")], &[("x", "1")], Some(b"hello"))
        .unwrap();
    let (status, content_type, body) = gateway.post(req.content_type, &req.body);
    assert_eq!(status, 200);
    assert_eq!(content_type, "message/ohttp-res");

    let response = ctx.decapsulate(&body).unwrap();
    assert_eq!(response.status(), 200);
    assert_eq!(response.header("content-type"), Some(&b"text/plain"[..]));
    assert_eq!(response.body(), b"POST /echo?x=1 hello");
}

#[test]
fn e2e_with_known_length_padding() {
    let gateway = Gateway::start();
    let (status, _, keys) = gateway.keys();
    assert_eq!(status, 200);
    let key_config = parse_key_config(&keys).unwrap();

    let known_length = 1024;
    let client = OhttpClient::new(
        Url::parse(RELAY_URL).unwrap().as_str(),
        Url::parse(TARGET_URL).unwrap().as_str(),
        key_config.clone(),
    )
    .known_length(known_length);

    let (req, ctx) = client
        .encapsulate("POST", "/echo", &[("content-type", "text/plain")], &[("x", "1")], Some(b"hello"))
        .unwrap();

    let (unpadded, _) = OhttpClient::new(
        Url::parse(RELAY_URL).unwrap().as_str(),
        Url::parse(TARGET_URL).unwrap().as_str(),
        key_config,
    )
    .encapsulate("POST", "/echo", &[("content-type", "text/plain")], &[("x", "1")], Some(b"hello"))
    .unwrap();
    assert!(
        req.body.len() > unpadded.body.len(),
        "padded {} vs unpadded {}",
        req.body.len(),
        unpadded.body.len()
    );

    let (status, _, body) = gateway.post(req.content_type, &req.body);
    assert_eq!(status, 200);

    let response = ctx.decapsulate(&body).unwrap();
    assert_eq!(response.status(), 200);
    assert_eq!(response.header("content-type"), Some(&b"text/plain"[..]));
    assert_eq!(response.body(), b"POST /echo?x=1 hello");
}

#[test]
fn e2e_send_with_bitreq_feature() {
    let gateway = Gateway::start();
    let (status, _, keys) = gateway.keys();
    assert_eq!(status, 200);

    let mut client = OhttpClient::new(
        Url::parse(RELAY_URL).unwrap().as_str(),
        Url::parse(TARGET_URL).unwrap().as_str(),
        parse_key_config(&keys).unwrap(),
    );

    let response = send(
        client.post("/echo").param("x", "1").header("content-type", "text/plain").body(b"hello"),
        &gateway,
    )
    .unwrap();

    assert_eq!(response.status(), 200);
    assert_eq!(response.body(), b"POST /echo?x=1 hello");
}

#[test]
fn e2e_fetch_key_config_and_send_with_bitreq() {
    let gateway = Gateway::start();

    let key_config = fetch_key_config(&gateway);
    let mut client = OhttpClient::new(
        Url::parse(RELAY_URL).unwrap().as_str(),
        Url::parse(TARGET_URL).unwrap().as_str(),
        key_config,
    );

    let response = send(
        client.post("/echo").param("x", "1").header("content-type", "text/plain").body(b"hello"),
        &gateway,
    )
    .unwrap();

    assert_eq!(response.status(), 200);
    assert_eq!(response.header("content-type"), Some(&b"text/plain"[..]));
    assert_eq!(response.body(), b"POST /echo?x=1 hello");
}

#[test]
fn e2e_from_gateway() {
    let gateway = Gateway::start();
    let client = from_gateway(CONNECT_PROXY_URL, &gateway);

    let (req, ctx) = client
        .encapsulate("POST", "/echo", &[("content-type", "text/plain")], &[("x", "1")], Some(b"hello"))
        .unwrap();
    let (status, _, body) = gateway.post(req.content_type, &req.body);
    assert_eq!(status, 200);

    let response = ctx.decapsulate(&body).unwrap();
    assert_eq!(response.status(), 200);
    assert_eq!(response.header("content-type"), Some(&b"text/plain"[..]));
    assert_eq!(response.body(), b"POST /echo?x=1 hello");
}

#[test]
fn e2e_rotation_is_transparent_to_send() {
    let mut gateway = Gateway::start();

    let key_config = fetch_key_config(&gateway);
    let mut client = OhttpClient::new(
        Url::parse(RELAY_URL).unwrap().as_str(),
        Url::parse(TARGET_URL).unwrap().as_str(),
        key_config.clone(),
    )
    .with_key_refresh(GATEWAY_URL, KeyFetch::Direct);

    let response = send(client.post("/echo").body(b"hello"), &gateway).unwrap();
    assert_eq!(response.body(), b"POST /echo hello");

    gateway.rotate_keys();

    let response = send(client.post("/echo").body(b"after"), &gateway).unwrap();
    assert_eq!(response.status(), 200);
    assert_eq!(response.body(), b"POST /echo after");

    assert_ne!(client.key_config().encode().unwrap(), key_config.encode().unwrap());
}

#[test]
fn e2e_rotation_with_overlap_is_not_disruptive() {
    let mut gateway = Gateway::start();

    let key_config = fetch_key_config(&gateway);
    let mut client = OhttpClient::new(
        Url::parse(RELAY_URL).unwrap().as_str(),
        Url::parse(TARGET_URL).unwrap().as_str(),
        key_config.clone(),
    )
    .with_key_refresh(GATEWAY_URL, KeyFetch::Direct);

    gateway.rotate_keys_overlap();

    let response = send(client.post("/echo").body(b"hello"), &gateway).unwrap();
    assert_eq!(response.body(), b"POST /echo hello");

    assert_eq!(client.key_config().encode().unwrap(), key_config.encode().unwrap());
}

#[test]
fn e2e_rotation_without_refresh_route_surfaces_error() {
    let mut gateway = Gateway::start();

    let key_config = fetch_key_config(&gateway);
    let mut client = OhttpClient::new(
        Url::parse(RELAY_URL).unwrap().as_str(),
        Url::parse(TARGET_URL).unwrap().as_str(),
        key_config,
    );

    gateway.rotate_keys();

    let err = match send(client.post("/echo").body(b"hello"), &gateway) {
        Ok(_) => panic!("expected the gateway's 400 to reach the caller"),
        Err(err) => err,
    };
    assert!(
        matches!(err, ClientError::UnexpectedStatus(400)),
        "expected the gateway's 400 to reach the caller, got {err:?}"
    );
    assert!(err.is_possibly_stale_key());

    assert!(matches!(
        refresh_key_config(&mut client, &gateway),
        Err(ClientError::NoGatewayKeyUrl)
    ));
}

#[test]
fn e2e_refresh_key_config_via_relay() {
    let mut gateway = Gateway::start();
    let mut client = from_gateway(CONNECT_PROXY_URL, &gateway);
    let original = client.key_config().encode().unwrap();

    assert!(!refresh_key_config(&mut client, &gateway).unwrap());
    assert_eq!(client.key_config().encode().unwrap(), original);

    gateway.rotate_keys();
    assert!(refresh_key_config(&mut client, &gateway).unwrap());
    assert_ne!(client.key_config().encode().unwrap(), original);
}
