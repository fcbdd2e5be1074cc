# ohttp_client

A minimal, sans-IO Oblivious HTTP (RFC 9458) client, written in Verus. It
builds binary HTTP (RFC 9292) inner requests, encapsulates them to a
gateway's key configuration (RFC 9540), and decapsulates the responses. The
caller sends the outer request with any HTTP client.

Layout:

- `src/` — the verified library.
  - `keys.rs`: key configuration lists, the configuration a client uses.
  - `target.rs`: resolving a per-request path on the target's origin.
  - `query.rs`: form-encoded query parameters.
  - `message.rs`: the known-length binary HTTP request encoding; decoding.
  - `seal.rs`: HPKE sealing and opening (the `ohttp` crate), padding.
  - `client.rs`: the client, `encapsulate`, `decapsulate`.
  - `response.rs`: the inner response and its header lookup.
  - `builder.rs`: request builders bound to a client.
  - `retry.rs`: the send policy after a key rotation, as a state machine.
  - `error.rs`, `outside.rs`: the error type and the outside crates' types.
- `tests/` — tests against an in-process gateway built with `ohttp::Server`.
- `app/` — the I/O: `bitreq` key fetches and sending, the `wasm-bindgen`
  surface, and an error type with `thiserror`.
