//! Request encapsulation and response decapsulation (RFC 9458 §4.3, §4.4),
//! done by the `ohttp` crate with HPKE, and padding of the binary HTTP
//! plaintext to a known length with bytes from the system random source.

use vstd::prelude::*;
use crate::error::ClientError;
use crate::keys::{be16, usable_by_client};

verus! {

/// Declaration of the `ohttp` crate's response decapsulation context.
#[verifier::external_type_specification]
#[verifier::external_body]
pub struct ExClientResponse(ohttp::ClientResponse);

/// The length of the encapsulated key of the KEMs that `ohttp` knows:
/// 32 bytes for X25519, 65 for P-256 and 1120 for X-Wing.
pub open spec fn kem_enc_len(kem: int) -> int {
    if kem == 0x20 {
        32
    } else if kem == 0x10 {
        65
    } else if kem == 0x647a {
        1120
    } else {
        0
    }
}

/// What sealing adds to a plaintext for an encoded configuration: the 7-byte
/// header (key identifier, KEM, KDF and AEAD identifiers), the
/// configuration's KEM's encapsulated key, and the 16-byte AEAD tag.
pub open spec fn sealed_overhead(config: Seq<u8>) -> int {
    7 + kem_enc_len(be16(config, 1)) + 16
}

/// `sealed` is an encapsulation of `plaintext` to the encoded key
/// configuration `config` (RFC 9458 §4.3), under some ephemeral key: what
/// `ohttp::ClientRequest::encapsulate` produces, whatever key it drew. A
/// relation of the three values, not a function: the ephemeral key is
/// random.
pub uninterp spec fn sealed_to(config: Seq<u8>, plaintext: Seq<u8>, sealed: Seq<u8>) -> bool;

/// One-shot context to decapsulate the response to a single encapsulated
/// request. Consumed by `decapsulate`. Only `seal_request` makes one, with
/// the request it sealed.
pub struct ResponseContext {
    context: ohttp::ClientResponse,
    key_config: Ghost<Seq<u8>>,
    sealed_request: Ghost<Seq<u8>>,
}

impl ResponseContext {
    /// The key configuration that the request was sealed to.
    pub closed spec fn key_config(&self) -> Seq<u8> {
        self.key_config@
    }

    /// The sealed request whose response this context opens.
    pub closed spec fn sealed_request(&self) -> Seq<u8> {
        self.sealed_request@
    }
}

/// `ohttp::ClientRequest::from_encoded_config` on `config` (decode the
/// configuration, select its first cipher suite), then
/// `ohttp::ClientRequest::encapsulate` of `plaintext`, which returns the
/// sealed request together with the `ohttp::ClientResponse` that opens its
/// response; the two are kept together in a `ResponseContext`. The
/// selection indexes the suites that remain once unsupported ones are
/// stripped, and panics when none remain; `usable_by_client` rules that
/// input out. The output depends on a fresh ephemeral key, so what is
/// stated holds of every outcome: it is a sealing of `plaintext` to
/// `config`; it starts with the configuration's key identifier and KEM
/// identifier (`build_info` writes them from the decoded configuration);
/// and its length is the plaintext's plus the header, the KEM's
/// encapsulated key and the tag (the `expected_len` of the source).
/// Whether the call fails does not depend on the ephemeral key: decoding
/// and the suite selection read `config`; the KEM's encapsulation fails
/// only for a recipient key of small order (X25519 clamps the ephemeral
/// scalar to a multiple of the cofactor, below eight times the group
/// order, so its product with any other key is never zero; P-256 keys are
/// validated on decoding; ML-KEM checks the key itself); and sealing fails
/// only on the AEAD's plaintext length limit. So a failure means that no
/// sealing of `plaintext` to `config` exists.
#[verifier::external_body]
pub(crate) fn seal_request(config: &[u8], plaintext: &[u8]) -> (r: Result<
    (Vec<u8>, ResponseContext),
    ohttp::Error,
>)
    requires
        usable_by_client(config@),
    ensures
        r matches Ok(sealed) ==> sealed_to(config@, plaintext@, sealed.0@),
        r is Err ==> forall|s: Seq<u8>| !sealed_to(config@, plaintext@, s),
        r matches Ok(sealed) ==> sealed.1.sealed_request() == sealed.0@ && sealed.1.key_config()
            == config@,
        r matches Ok(sealed) ==> 3 <= config@.len() && sealed.0@.len() == plaintext@.len()
            + sealed_overhead(config@) && sealed.0@.take(3) == config@.take(3),
{
    let (sealed, context) = ohttp::ClientRequest::from_encoded_config(config)?.encapsulate(plaintext)?;
    let ctx = ResponseContext {
        context,
        key_config: Ghost(config@),
        sealed_request: Ghost(sealed@),
    };
    Ok((sealed, ctx))
}

/// The plaintext length of an encapsulated response of `n` bytes: the
/// response nonce (`max(Nn, Nk)`: 16 bytes for AES-128-GCM, 32 for
/// ChaCha20Poly1305) and the 16-byte AEAD tag are removed.
pub open spec fn opened_len(n: int, opened: int) -> bool {
    opened + 16 + 16 == n || opened + 32 + 16 == n
}

/// `plaintext` is what the context made when sealing `request` to the key
/// configuration `config` opens the encapsulated response `encapsulated` to
/// (RFC 9458 §4.4): what `ohttp::ClientResponse::decapsulate` returns. The
/// opening depends on the secret drawn for that sealing, which is not a
/// value here, so this is a relation of the byte strings.
pub uninterp spec fn opens_to(
    config: Seq<u8>,
    request: Seq<u8>,
    encapsulated: Seq<u8>,
    plaintext: Seq<u8>,
) -> bool;

/// A configuration whose sealed requests determine the secret that opens
/// their responses. The secret comes from the KEM's shared secret and the
/// request header, and for X25519 and P-256 the shared secret is fixed by
/// the recipient key and the encapsulated key that the request carries.
/// X-Wing is left out: two ML-KEM encapsulations may, with negligible
/// probability, share a ciphertext and differ in their shared secret.
pub open spec fn opening_is_determined(config: Seq<u8>) -> bool {
    3 <= config.len() && be16(config, 1) != 0x647a
}

/// `ohttp::ClientResponse::decapsulate` with the context of `response`:
/// open an encapsulated response with the secret of the request it answers.
/// The plaintext depends on that secret, so what is stated is that it is
/// the opening of `encapsulated` by the context of the sealed request, and
/// its length (nonce and tag removed). Decapsulation is deterministic given
/// the secret (key derivation, then the AEAD's open), so where the secret
/// is determined by the configuration and the request, the opening found is
/// the only one, and a failure means there is none.
#[verifier::external_body]
pub(crate) fn open_response(response: ResponseContext, encapsulated: &[u8]) -> (r: Result<
    Vec<u8>,
    ohttp::Error,
>)
    ensures
        r matches Ok(pt) ==> opens_to(
            response.key_config(),
            response.sealed_request(),
            encapsulated@,
            pt@,
        ),
        r matches Ok(pt) ==> opened_len(encapsulated@.len() as int, pt@.len() as int),
        opening_is_determined(response.key_config()) ==> (r matches Ok(pt) ==> forall|p: Seq<u8>|
            #[trigger] opens_to(response.key_config(), response.sealed_request(), encapsulated@, p)
                ==> p == pt@),
        opening_is_determined(response.key_config()) ==> (r is Err ==> forall|p: Seq<u8>|
            !#[trigger] opens_to(response.key_config(), response.sealed_request(), encapsulated@, p)),
{
    response.context.decapsulate(encapsulated)
}

/// `getrandom::fill` on `n` fresh bytes. The bytes are random; only their
/// number is stated.
#[verifier::external_body]
fn random_bytes(n: usize) -> (r: Result<Vec<u8>, getrandom::Error>)
    ensures
        r matches Ok(v) ==> v@.len() == n,
{
    let mut v = vec![0u8; n];
    getrandom::fill(&mut v)?;
    Ok(v)
}

/// Pad `plaintext` with random bytes to exactly `known_length` bytes. A
/// plaintext longer than that is refused with `KnownLengthTooSmall`; the
/// random source may fail (`GetRandom`).
pub fn pad_to_known_length(plaintext: Vec<u8>, known_length: usize) -> (r: Result<Vec<u8>, ClientError>)
    ensures
        plaintext@.len() > known_length ==> (r matches Err(
            ClientError::KnownLengthTooSmall { needed, known_length: k },
        ) && needed == plaintext@.len() && k == known_length),
        plaintext@.len() <= known_length ==> (r is Ok || r matches Err(ClientError::GetRandom(_))),
        r matches Ok(padded) ==> padded@.len() == known_length && padded@.take(
            plaintext@.len() as int,
        ) == plaintext@,
{
    let needed = plaintext.len();
    if needed > known_length {
        return Err(ClientError::KnownLengthTooSmall { needed, known_length });
    }
    let mut padding = match random_bytes(known_length - needed) {
        Ok(p) => p,
        Err(e) => return Err(ClientError::GetRandom(e)),
    };
    let mut padded = plaintext;
    padded.append(&mut padding);
    proof {
        assert(padded@.take(needed as int) =~= plaintext@);
    }
    Ok(padded)
}

} // verus!
