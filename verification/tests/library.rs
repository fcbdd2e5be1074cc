use std::io::Cursor;

use ohttp::hpke::{Aead, Kdf, Kem};
use ohttp::SymmetricSuite;
use ohttp_client::query::append_form_urlencoded;
use ohttp_client::retry::{send_start, send_step, SendAction, SendEvent, SendState};
use ohttp_client::target::{key_fetch_proxy, relay_host_and_port};
use ohttp_client::{
    parse_key_config, parse_key_config_response, ClientError, KeyConfig, OhttpClient, Response,
    Url, OHTTP_REQ_CONTENT_TYPE,
};

fn server() -> ohttp::Server {
    let config = ohttp::KeyConfig::new(
        1,
        Kem::X25519Sha256,
        vec![SymmetricSuite::new(Kdf::HkdfSha256, Aead::ChaCha20Poly1305)],
    )
    .unwrap();
    ohttp::Server::new(config).unwrap()
}

fn key_config_of(server: &ohttp::Server) -> KeyConfig {
    parse_key_config(&ohttp::KeyConfig::encode_list(&[server.config()]).unwrap()).unwrap()
}

fn client(server: &ohttp::Server, target: &str) -> OhttpClient {
    OhttpClient::new(
        Url::parse("https://relay.example/").unwrap().as_str(),
        Url::parse(target).unwrap().as_str(),
        key_config_of(server),
    )
}

fn response_bytes(status: u16, headers: &[(&str, &str)], body: &[u8]) -> Vec<u8> {
    let mut msg = bhttp::Message::response(bhttp::StatusCode::try_from(status).unwrap());
    for (n, v) in headers {
        msg.put_header(*n, *v);
    }
    msg.write_content(body);
    let mut out = Vec::new();
    msg.write_bhttp(bhttp::Mode::KnownLength, &mut out).unwrap();
    out
}

fn inner_path(bytes: &[u8]) -> Vec<u8> {
    let msg = bhttp::Message::read_bhttp(&mut Cursor::new(bytes)).unwrap();
    msg.control().path().unwrap().to_vec()
}

#[test]
fn inner_request_is_the_known_length_encoding() {
    let s = server();
    let c = client(&s, "https://target.example/");
    let bytes = c.inner_request("GET", "/", &[("a", "b")], &[], Some(b"xy")).unwrap();
    let mut expected = vec![0u8];
    expected.extend_from_slice(b"\x03GET\x05https\x0etarget.example\x01/");
    expected.extend_from_slice(b"\x04\x01a\x01b");
    expected.extend_from_slice(b"\x02xy");
    expected.push(0);
    assert_eq!(bytes, expected);

    let bare = c.inner_request("GET", "/", &[], &[], None).unwrap();
    assert_eq!(bare, b"\x00\x03GET\x05https\x0etarget.example\x01/\x00\x00\x00".to_vec());
}

#[test]
fn relative_paths_resolve_under_the_target() {
    let s = server();
    let c = client(&s, "https://target.example:8443/api/v1/");
    let bytes = c.inner_request("GET", "thing", &[], &[], None).unwrap();
    assert_eq!(inner_path(&bytes), b"/api/v1/thing".to_vec());
    let bytes = c.inner_request("GET", "/root", &[], &[], None).unwrap();
    assert_eq!(inner_path(&bytes), b"/root".to_vec());
    let msg = bhttp::Message::read_bhttp(&mut Cursor::new(&bytes[..])).unwrap();
    assert_eq!(msg.control().authority(), Some(&b"target.example:8443"[..]));
    assert_eq!(msg.control().scheme(), Some(&b"https"[..]));
}

#[test]
fn paths_on_other_origins_are_refused() {
    let s = server();
    let c = client(&s, "https://target.example/");
    for path in ["https://evil.example/x", "//evil.example/x", "http://target.example/x", "https://target.example:444/"] {
        assert!(
            matches!(c.inner_request("GET", path, &[], &[], None), Err(ClientError::PathEscapesOrigin)),
            "{path}"
        );
        assert!(matches!(
            c.encapsulate("GET", path, &[], &[], None),
            Err(ClientError::PathEscapesOrigin)
        ));
    }
    // The same origin, written out in full, stays.
    let bytes = c.inner_request("GET", "https://target.example:443/ok", &[], &[], None).unwrap();
    assert_eq!(inner_path(&bytes), b"/ok".to_vec());
}

#[test]
fn unparsable_paths_are_url_errors() {
    let s = server();
    let c = client(&s, "https://target.example/");
    assert!(matches!(c.inner_request("GET", "http://[::1", &[], &[], None), Err(ClientError::Url(_))));
}

#[test]
fn query_parameters_are_form_encoded_after_the_query() {
    let s = server();
    let c = client(&s, "https://t.example/base/");
    let bytes = c.inner_request("GET", "p?q=1#frag", &[], &[("a b", "c&d")], None).unwrap();
    assert_eq!(inner_path(&bytes), b"/base/p?q=1&a+b=c%26d#frag".to_vec());

    // The url crate's own query serializer agrees.
    let mut u = Url::parse("https://t.example/base/p?q=1#frag").unwrap();
    u.query_pairs_mut().append_pair("a b", "c&d");
    assert_eq!(&u[url::Position::BeforePath..], "/base/p?q=1&a+b=c%26d#frag");

    let bytes = c.inner_request("GET", "/p", &[], &[("x", "1"), ("é", "=")], None).unwrap();
    assert_eq!(inner_path(&bytes), b"/p?x=1&%C3%A9=%3D".to_vec());
    let bytes = c.inner_request("GET", "/p?", &[], &[("x", "1")], None).unwrap();
    assert_eq!(inner_path(&bytes), b"/p?x=1".to_vec());
    let bytes = c.inner_request("GET", "/p?y", &[], &[], None).unwrap();
    assert_eq!(inner_path(&bytes), b"/p?y".to_vec());
}

#[test]
fn form_encoding_matches_the_url_crate_on_every_byte() {
    for b in 0..=255u8 {
        let mut out = Vec::new();
        append_form_urlencoded(&mut out, &[b]);
        let expected: String = url::form_urlencoded::byte_serialize(&[b]).collect();
        assert_eq!(out, expected.into_bytes(), "byte {b}");
    }
    let mut out = b"k=".to_vec();
    append_form_urlencoded(&mut out, b"a b*-._~!");
    assert_eq!(out, b"k=a+b*-._%7E%21".to_vec());
}

#[test]
fn known_length_pads_to_exactly_the_length() {
    let s = server();
    let c = client(&s, "https://target.example/").known_length(1024);
    let (req, _) = c.encapsulate("POST", "/echo", &[], &[], Some(b"hello")).unwrap();
    // X25519: 7-byte header, 32-byte encapsulated key, 16-byte tag.
    assert_eq!(req.body.len(), 1024 + 7 + 32 + 16);
    let (plaintext, _) = s.decapsulate(&req.body).unwrap();
    assert_eq!(plaintext.len(), 1024);
    let unpadded = c.inner_request("POST", "/echo", &[], &[], Some(b"hello")).unwrap();
    assert_eq!(&plaintext[..unpadded.len()], &unpadded[..]);
}

#[test]
fn unpadded_plaintext_is_the_inner_request() {
    let s = server();
    let c = client(&s, "https://target.example/");
    let (req, _) = c.encapsulate("POST", "/echo", &[("k", "v")], &[], Some(b"hello")).unwrap();
    let inner = c.inner_request("POST", "/echo", &[("k", "v")], &[], Some(b"hello")).unwrap();
    assert_eq!(req.body.len(), inner.len() + 7 + 32 + 16);
    assert_eq!(req.body[0], 1); // the key identifier
    let (plaintext, _) = s.decapsulate(&req.body).unwrap();
    assert_eq!(plaintext, inner);
    assert_eq!(req.content_type, OHTTP_REQ_CONTENT_TYPE);
    assert_eq!(req.url, "https://relay.example/");
}

#[test]
fn known_length_too_small_is_refused() {
    let s = server();
    let c = client(&s, "https://target.example/");
    let needed = c.inner_request("POST", "/echo", &[], &[], Some(b"hello")).unwrap().len();
    let small = c.clone().known_length(needed - 1);
    match small.encapsulate("POST", "/echo", &[], &[], Some(b"hello")) {
        Err(ClientError::KnownLengthTooSmall { needed: n, known_length }) => {
            assert_eq!(n, needed);
            assert_eq!(known_length, needed - 1);
        }
        _ => panic!("expected KnownLengthTooSmall"),
    }
    // Exactly the needed length is fine, with no padding.
    let exact = c.known_length(needed);
    let (req, _) = exact.encapsulate("POST", "/echo", &[], &[], Some(b"hello")).unwrap();
    let (plaintext, _) = s.decapsulate(&req.body).unwrap();
    assert_eq!(plaintext.len(), needed);
}

#[test]
fn response_header_lookup_ignores_case_and_takes_the_first() {
    let bytes = response_bytes(
        200,
        &[("Content-Type", "text/plain"), ("x-a", "1"), ("X-A", "2")],
        b"body",
    );
    let response = Response::from_bhttp(&bytes).unwrap();
    assert_eq!(response.status(), 200);
    assert_eq!(response.header("content-type"), Some(&b"text/plain"[..]));
    assert_eq!(response.header("CONTENT-TYPE"), Some(&b"text/plain"[..]));
    assert_eq!(response.header("x-a"), Some(&b"1"[..]));
    assert_eq!(response.header("X-a"), Some(&b"1"[..]));
    assert_eq!(response.header("missing"), None);
    assert_eq!(response.header("content-typ"), None);
    let headers = response.headers();
    assert_eq!(headers.len(), 3);
    assert_eq!(headers[2], (&b"X-A"[..], &b"2"[..]));
    assert_eq!(response.body(), b"body");
    assert_eq!(response.clone().into_body(), b"body".to_vec());
}

#[test]
fn a_request_is_not_a_response() {
    let s = server();
    let c = client(&s, "https://target.example/");
    let request = c.inner_request("GET", "/", &[], &[], None).unwrap();
    assert!(matches!(Response::from_bhttp(&request), Err(ClientError::NotAResponse)));
    assert!(matches!(Response::from_bhttp(&[0x07]), Err(ClientError::Bhttp(_))));
    assert!(matches!(Response::from_bhttp(&[0x01, 0x40]), Err(ClientError::Bhttp(_))));
}

#[test]
fn decapsulation_failures() {
    let s = server();
    let c = client(&s, "https://target.example/");
    let (_, ctx) = c.encapsulate("GET", "/", &[], &[], None).unwrap();
    assert!(matches!(ctx.decapsulate(&[0u8; 10]), Err(ClientError::Ohttp(_))));
    let (_, ctx) = c.encapsulate("GET", "/", &[], &[], None).unwrap();
    assert!(matches!(
        ctx.decapsulate_relay_response(502, b""),
        Err(ClientError::UnexpectedStatus(502))
    ));
}

#[test]
fn decapsulated_status_and_body() {
    let s = server();
    let c = client(&s, "https://target.example/");
    let (req, ctx) = c.encapsulate("GET", "/", &[], &[], None).unwrap();
    let (_, server_ctx) = s.decapsulate(&req.body).unwrap();
    let enc = server_ctx.encapsulate(&response_bytes(404, &[("a", "b")], b"nope")).unwrap();
    let response = ctx.decapsulate_relay_response(200, &enc).unwrap();
    assert_eq!(response.status(), 404);
    assert_eq!(response.header("A"), Some(&b"b"[..]));
    assert_eq!(response.into_body(), b"nope".to_vec());
}

#[test]
fn stale_key_errors_are_400_and_401() {
    assert!(ClientError::UnexpectedStatus(400).is_possibly_stale_key());
    assert!(ClientError::UnexpectedStatus(401).is_possibly_stale_key());
    for status in [200, 403, 404, 429, 500] {
        assert!(!ClientError::UnexpectedStatus(status).is_possibly_stale_key());
    }
    assert!(!ClientError::NoKeyConfig.is_possibly_stale_key());
    assert!(!ClientError::PathEscapesOrigin.is_possibly_stale_key());
}

#[test]
fn key_config_lists() {
    let s = server();
    let good = s.config().encode().unwrap();

    // An unsupported KEM is dropped; the next configuration is taken.
    let mut list = vec![0x00, 0x03, 9, 0x00, 0x99];
    list.extend_from_slice(&(good.len() as u16).to_be_bytes());
    list.extend_from_slice(&good);
    let parsed = parse_key_config(&list).unwrap();
    assert_eq!(parsed.encode().unwrap(), good);

    assert!(matches!(parse_key_config(&[0x00, 0x03, 9, 0x00, 0x99]), Err(ClientError::NoKeyConfig)));
    assert!(matches!(parse_key_config(&[0x00, 0x10, 1]), Err(ClientError::Ohttp(_))));
    assert!(matches!(parse_key_config(&[0x00]), Err(ClientError::Ohttp(_))));

    let body = ohttp::KeyConfig::encode_list(&[s.config()]).unwrap();
    assert!(matches!(
        parse_key_config_response(404, &body),
        Err(ClientError::UnexpectedStatus(404))
    ));
    assert_eq!(parse_key_config_response(200, &body).unwrap().encode().unwrap(), good);
}

#[test]
fn configurations_left_without_a_suite_are_skipped() {
    let s = server();
    let good = s.config().encode().unwrap();
    let mut stripped = good.clone();
    // The only suite becomes HKDF-SHA384, which the backend does not support,
    // so decoding keeps the configuration with no suite at all.
    let n = stripped.len();
    stripped[n - 4] = 0x00;
    stripped[n - 3] = 0x02;
    let mut alone = (stripped.len() as u16).to_be_bytes().to_vec();
    alone.extend_from_slice(&stripped);
    assert!(matches!(parse_key_config(&alone), Err(ClientError::NoKeyConfig)));
    let mut list = alone.clone();
    list.extend_from_slice(&(good.len() as u16).to_be_bytes());
    list.extend_from_slice(&good);
    assert_eq!(parse_key_config(&list).unwrap().encode().unwrap(), good);
}

#[test]
fn send_policy_refetches_at_most_once() {
    // A gateway that rejects every attempt as stale and a key endpoint that
    // always serves a new key.
    let (mut state, mut action) = send_start();
    let mut attempts = 0;
    let mut refreshes = 0;
    loop {
        let event = match action {
            SendAction::Attempt => {
                attempts += 1;
                SendEvent::Attempted(Err(ClientError::UnexpectedStatus(401)))
            }
            SendAction::Refresh => {
                refreshes += 1;
                SendEvent::Refreshed(Ok(true))
            }
            SendAction::Complete(outcome) => {
                assert!(matches!(outcome, Err(ClientError::UnexpectedStatus(401))));
                break;
            }
        };
        (state, action) = send_step(state, event);
    }
    assert!(matches!(state, SendState::Finished));
    assert_eq!(attempts, 2);
    assert_eq!(refreshes, 1);
}

#[test]
fn adopting_a_key_config_reports_changes() {
    let s1 = server();
    let s2 = server();
    let mut c = client(&s1, "https://target.example/");
    assert!(!c.set_key_config(key_config_of(&s1)));
    assert!(c.set_key_config(key_config_of(&s2)));
    assert!(!c.set_key_config(key_config_of(&s2)));
    assert_eq!(c.key_config().encode().unwrap(), s2.config().encode().unwrap());
    assert!(matches!(c.refresh_route(), Err(ClientError::NoGatewayKeyUrl)));
    let c = c.with_key_refresh("https://gw.example/keys", ohttp_client::KeyFetch::Direct);
    let (url, route) = c.refresh_route().unwrap();
    assert_eq!(url, "https://gw.example/keys");
    assert_eq!(route, ohttp_client::KeyFetch::Direct);
    assert_eq!(c.relay(), "https://relay.example/");
    assert_eq!(c.target(), "https://target.example/");
}

#[test]
fn key_fetches_tunnel_through_the_relay_only_when_asked() {
    assert_eq!(key_fetch_proxy(ohttp_client::KeyFetch::Direct, "https://relay.example/").unwrap(), None);
    assert_eq!(
        key_fetch_proxy(ohttp_client::KeyFetch::ViaRelay, "https://relay.example:8443/").unwrap(),
        Some(("relay.example".to_string(), 8443))
    );
    assert!(matches!(
        key_fetch_proxy(ohttp_client::KeyFetch::ViaRelay, "data:text/plain,hi"),
        Err(ClientError::NoRelayHost)
    ));
    assert!(matches!(key_fetch_proxy(ohttp_client::KeyFetch::Direct, "not a url"), Ok(None)));
}

#[test]
fn relay_proxy_addresses() {
    assert_eq!(
        relay_host_and_port("https://relay.example/").unwrap(),
        ("relay.example".to_string(), 443)
    );
    assert_eq!(relay_host_and_port("http://[::1]:8080/").unwrap(), ("[::1]".to_string(), 8080));
    assert!(matches!(relay_host_and_port("data:text/plain,hi"), Err(ClientError::NoRelayHost)));
    assert!(matches!(relay_host_and_port("not a url"), Err(ClientError::Url(_))));
}

fn ok_response() -> Response {
    Response::from_bhttp(&response_bytes(200, &[], b"ok")).unwrap()
}

#[test]
fn send_policy_success_needs_one_attempt() {
    let (state, action) = send_start();
    assert!(matches!(state, SendState::FirstAttempt));
    assert!(matches!(action, SendAction::Attempt));
    let (state, action) = send_step(state, SendEvent::Attempted(Ok(ok_response())));
    assert!(matches!(state, SendState::Finished));
    assert!(matches!(action, SendAction::Complete(Ok(_))));
}

#[test]
fn send_policy_other_errors_surface_at_once() {
    let (state, _) = send_start();
    let (state, action) = send_step(state, SendEvent::Attempted(Err(ClientError::UnexpectedStatus(404))));
    assert!(matches!(state, SendState::Finished));
    assert!(matches!(action, SendAction::Complete(Err(ClientError::UnexpectedStatus(404)))));
}

#[test]
fn send_policy_failed_or_unchanged_refresh_reports_the_request_error() {
    for refreshed in [Ok(false), Err(ClientError::NoGatewayKeyUrl)] {
        let (state, _) = send_start();
        let (state, action) =
            send_step(state, SendEvent::Attempted(Err(ClientError::UnexpectedStatus(401))));
        assert!(matches!(state, SendState::Refreshing(_)));
        assert!(matches!(action, SendAction::Refresh));
        let (state, action) = send_step(state, SendEvent::Refreshed(refreshed));
        assert!(matches!(state, SendState::Finished));
        assert!(matches!(action, SendAction::Complete(Err(ClientError::UnexpectedStatus(401)))));
    }
}

#[test]
fn send_policy_retries_once_after_a_changed_key() {
    let (state, _) = send_start();
    let (state, _) = send_step(state, SendEvent::Attempted(Err(ClientError::UnexpectedStatus(400))));
    let (state, action) = send_step(state, SendEvent::Refreshed(Ok(true)));
    assert!(matches!(state, SendState::SecondAttempt));
    assert!(matches!(action, SendAction::Attempt));
    // A second stale-key failure is final: no third attempt.
    let (state, action) = send_step(state, SendEvent::Attempted(Err(ClientError::UnexpectedStatus(400))));
    assert!(matches!(state, SendState::Finished));
    assert!(matches!(action, SendAction::Complete(Err(ClientError::UnexpectedStatus(400)))));
}

#[test]
fn new_holds_the_relay_and_the_target() {
    let s = server();
    let c = client(&s, "https://target.example:8443/api/");
    assert_eq!(c.relay(), "https://relay.example/");
    assert_eq!(c.target(), "https://target.example:8443/api/");
    assert_eq!(c.key_config().encode().unwrap(), s.config().encode().unwrap());
}

#[test]
fn padding_lengthens_the_body_by_exactly_the_difference() {
    let s = server();
    let c = client(&s, "https://target.example/");
    let inner = c.inner_request("POST", "/echo", &[], &[("x", "1")], Some(b"hello")).unwrap();
    let (unpadded, _) = c.encapsulate("POST", "/echo", &[], &[("x", "1")], Some(b"hello")).unwrap();
    let (padded, _) = c
        .clone()
        .known_length(1024)
        .encapsulate("POST", "/echo", &[], &[("x", "1")], Some(b"hello"))
        .unwrap();
    assert_eq!(padded.body.len(), unpadded.body.len() + (1024 - inner.len()));
    assert_eq!(&padded.body[..3], &s.config().encode().unwrap()[..3]);
}

#[test]
fn corrupted_or_foreign_responses_do_not_open() {
    let s = server();
    let c = client(&s, "https://target.example/");
    let (req, ctx) = c.encapsulate("GET", "/", &[], &[], None).unwrap();
    let (_, server_ctx) = s.decapsulate(&req.body).unwrap();
    let mut enc = server_ctx.encapsulate(&response_bytes(200, &[], b"ok")).unwrap();
    let last = enc.len() - 1;
    enc[last] ^= 1;
    assert!(matches!(ctx.decapsulate(&enc), Err(ClientError::Ohttp(_))));

    // The answer to another request does not open with this context.
    let (req1, ctx1) = c.encapsulate("GET", "/one", &[], &[], None).unwrap();
    let (req2, _) = c.encapsulate("GET", "/two", &[], &[], None).unwrap();
    let _ = req1;
    let (_, server_ctx2) = s.decapsulate(&req2.body).unwrap();
    let other = server_ctx2.encapsulate(&response_bytes(200, &[], b"two")).unwrap();
    assert!(matches!(ctx1.decapsulate(&other), Err(ClientError::Ohttp(_))));
}
