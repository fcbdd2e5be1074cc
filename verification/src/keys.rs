//! Gateway key configurations (RFC 9458 §3, RFC 9540): decoding the
//! `application/ohttp-keys` list that a key endpoint serves, and picking the
//! configuration that a client encapsulates to.

use vstd::prelude::*;
use crate::error::ClientError;

verus! {

/// The big-endian 16-bit integer at `b[i..i + 2]`.
pub open spec fn be16(b: Seq<u8>, i: int) -> int {
    b[i] * 256 + b[i + 1]
}

/// The length of the public key of the KEMs that `ohttp` knows (X25519,
/// P-256, X-Wing), or -1 for another KEM identifier.
pub open spec fn kem_public_key_len(kem: int) -> int {
    if kem == 0x20 {
        32
    } else if kem == 0x10 {
        65
    } else if kem == 0x647a {
        1216
    } else {
        -1
    }
}

/// The (KDF, AEAD) cipher suites that `b` lists, where `b` has the layout of
/// one encoded key configuration: key identifier, KEM identifier, public key
/// of that KEM's length, then a non-empty list of 4-byte suites whose byte
/// length ends the encoding.
pub open spec fn listed_suites(b: Seq<u8>) -> Option<Seq<(int, int)>> {
    if b.len() < 3 {
        None
    } else {
        let npk = kem_public_key_len(be16(b, 1));
        if npk < 0 || b.len() < 5 + npk {
            None
        } else {
            let sl = be16(b, 3 + npk);
            if b.len() != 5 + npk + sl || sl == 0 || sl % 4 != 0 {
                None
            } else {
                Some(
                    Seq::new(
                        (sl / 4) as nat,
                        |i: int| (be16(b, 5 + npk + 4 * i), be16(b, 7 + npk + 4 * i)),
                    ),
                )
            }
        }
    }
}

/// A suite whose KDF and AEAD identifiers `ohttp` knows.
pub open spec fn known_suite(s: (int, int)) -> bool {
    1 <= s.0 <= 3 && 1 <= s.1 <= 3
}

/// A suite that `ohttp` can use: HKDF-SHA256 with AES-128-GCM or
/// ChaCha20Poly1305.
pub open spec fn supported_suite(s: (int, int)) -> bool {
    s.0 == 1 && (s.1 == 1 || s.1 == 3)
}

/// An encoded configuration that, if it lists only suites that `ohttp`
/// knows, lists one that it supports.
pub open spec fn usable_by_client(b: Seq<u8>) -> bool {
    match listed_suites(b) {
        None => true,
        Some(suites) => (forall|i: int| 0 <= i < suites.len() ==> known_suite(#[trigger] suites[i]))
            ==> exists|i: int| 0 <= i < suites.len() && supported_suite(#[trigger] suites[i]),
    }
}

/// What `ohttp::KeyConfig::decode_list` makes of `bytes`, each configuration
/// re-encoded with `ohttp::KeyConfig::encode`; `None` where either fails.
pub uninterp spec fn ohttp_key_config_list(bytes: Seq<u8>) -> Option<Seq<Seq<u8>>>;

/// `ohttp::KeyConfig::decode_list` on `bytes`, then `encode` on each
/// configuration. The result is named by `ohttp_key_config_list`. Each
/// encoding is usable by a client: `decode` strips the suites that `ohttp`
/// does not support, so `encode` writes supported suites only (and an empty
/// list, which is not a configuration's layout, when none is left).
#[verifier::external_body]
fn decode_key_config_list(bytes: &[u8]) -> (r: Result<Vec<Vec<u8>>, ohttp::Error>)
    ensures
        r matches Ok(list) ==> ohttp_key_config_list(bytes@) == Some(
            list@.map_values(|c: Vec<u8>| c@),
        ),
        r matches Ok(list) ==> forall|i: int|
            0 <= i < list@.len() ==> usable_by_client(#[trigger] list@[i]@),
        r is Err ==> ohttp_key_config_list(bytes@) is None,
{
    ohttp::KeyConfig::decode_list(bytes)?.iter().map(ohttp::KeyConfig::encode).collect()
}

/// A gateway key configuration, held as its encoding (RFC 9458 §3.1): key
/// identifier, KEM, public key and cipher suites.
#[derive(Debug)]
pub struct KeyConfig {
    encoded: Vec<u8>,
}

impl View for KeyConfig {
    type V = Seq<u8>;

    closed spec fn view(&self) -> Seq<u8> {
        self.encoded@
    }
}

impl KeyConfig {
    #[verifier::type_invariant]
    spec fn inv(self) -> bool {
        usable_by_client(self.encoded@)
    }

    /// The configuration's encoding, as `ohttp::KeyConfig::encode` writes it.
    pub fn encode(&self) -> (r: Result<Vec<u8>, ClientError>)
        ensures
            r matches Ok(bytes) && bytes@ == self@,
    {
        Ok(self.encoded.clone())
    }

    /// The configuration's encoding, borrowed.
    pub fn as_bytes(&self) -> (b: &[u8])
        ensures
            b@ == self@,
            usable_by_client(b@),
    {
        proof {
            use_type_invariant(self);
        }
        self.encoded.as_slice()
    }
}

impl Clone for KeyConfig {
    fn clone(&self) -> (c: Self)
        ensures
            c@ == self@,
    {
        proof {
            use_type_invariant(self);
        }
        KeyConfig { encoded: self.encoded.clone() }
    }
}

/// An encoded configuration that still lists a cipher suite. `ohttp` keeps a
/// configuration whose suites it supports none of, with an empty suite list,
/// and a client cannot encapsulate to such a one.
pub open spec fn lists_a_suite(b: Seq<u8>) -> bool {
    listed_suites(b) is Some
}

/// The result of parsing a key endpoint's body: the first configuration of
/// the list that still lists a suite, `NoKeyConfig` when the list holds none,
/// and an `Ohttp` error when the list cannot be decoded.
pub open spec fn parsed_key_config(bytes: Seq<u8>, r: Result<KeyConfig, ClientError>) -> bool {
    match ohttp_key_config_list(bytes) {
        None => r matches Err(ClientError::Ohttp(_)),
        Some(list) => if forall|i: int| 0 <= i < list.len() ==> !lists_a_suite(#[trigger] list[i]) {
            r matches Err(ClientError::NoKeyConfig)
        } else {
            r matches Ok(k) && exists|i: int|
                0 <= i < list.len() && k@ == list[i] && lists_a_suite(#[trigger] list[i])
                    && forall|j: int| 0 <= j < i ==> !lists_a_suite(#[trigger] list[j])
        },
    }
}

/// Parsing picks the first configuration of the decoded list that has the
/// layout of one with any non-empty list of suites: whenever entry `i`
/// lists suites and no entry before it does, the result is entry `i`.
pub proof fn lemma_parse_picks_first_configuration_with_suites(
    bytes: Seq<u8>,
    r: Result<KeyConfig, ClientError>,
    list: Seq<Seq<u8>>,
    i: int,
)
    requires
        parsed_key_config(bytes, r),
        ohttp_key_config_list(bytes) == Some(list),
        0 <= i < list.len(),
        listed_suites(list[i]) is Some,
        forall|j: int| 0 <= j < i ==> (#[trigger] listed_suites(list[j])) is None,
    ensures
        r matches Ok(k) && k@ == list[i],
{
    assert(lists_a_suite(list[i]));
    let l = ohttp_key_config_list(bytes)->0;
    assert(l == list);
    assert(!forall|j: int| 0 <= j < l.len() ==> !lists_a_suite(#[trigger] l[j]));
    assert(r is Ok);
    let k = r->Ok_0;
    let w = choose|w: int|
        0 <= w < list.len() && k@ == list[w] && lists_a_suite(#[trigger] list[w])
            && forall|j: int| 0 <= j < w ==> !lists_a_suite(#[trigger] list[j]);
    if w < i {
        assert(listed_suites(list[w]) is None);
        assert(lists_a_suite(list[w]));
    } else if i < w {
        assert(!lists_a_suite(list[i]));
    }
}

/// Whether `b` has the layout of an encoded configuration with a non-empty
/// suite list.
fn has_suite_list(b: &[u8]) -> (r: bool)
    ensures
        r == lists_a_suite(b@),
{
    if b.len() < 3 {
        return false;
    }
    let kem: usize = b[1] as usize * 256 + b[2] as usize;
    let npk: usize = if kem == 0x20 {
        32
    } else if kem == 0x10 {
        65
    } else if kem == 0x647a {
        1216
    } else {
        return false;
    };
    if b.len() < 5 + npk {
        return false;
    }
    let sl: usize = b[3 + npk] as usize * 256 + b[4 + npk] as usize;
    b.len() == 5 + npk + sl && sl != 0 && sl % 4 == 0
}

/// Parse the body of a gateway key endpoint response
/// (`application/ohttp-keys`, RFC 9540) into the first usable key
/// configuration.
pub fn parse_key_config(bytes: &[u8]) -> (r: Result<KeyConfig, ClientError>)
    ensures
        parsed_key_config(bytes@, r),
{
    match decode_key_config_list(bytes) {
        Err(e) => Err(ClientError::Ohttp(e)),
        Ok(list) => {
            let ghost configs = list@.map_values(|c: Vec<u8>| c@);
            let mut i: usize = 0;
            while i < list.len()
                invariant
                    i <= list.len(),
                    ohttp_key_config_list(bytes@) == Some(configs),
                    configs.len() == list.len(),
                    forall|j: int| 0 <= j < list.len() ==> #[trigger] configs[j] == list@[j]@,
                    forall|j: int| 0 <= j < list.len() ==> usable_by_client(#[trigger] list@[j]@),
                    forall|j: int| 0 <= j < i ==> !lists_a_suite(#[trigger] configs[j]),
                decreases list.len() - i,
            {
                if has_suite_list(list[i].as_slice()) {
                    proof {
                        assert(usable_by_client(list@[i as int]@));
                    }
                    let k = KeyConfig { encoded: list[i].clone() };
                    assert(k@ == configs[i as int] && lists_a_suite(configs[i as int]));
                    return Ok(k);
                }
                i = i + 1;
            }
            Err(ClientError::NoKeyConfig)
        },
    }
}

/// The key configuration that a key endpoint answered with `status` and
/// `body`: an `UnexpectedStatus` error unless the status is 200, and what
/// `parse_key_config` makes of the body otherwise.
pub fn parse_key_config_response(status: i32, body: &[u8]) -> (r: Result<KeyConfig, ClientError>)
    ensures
        status != 200 ==> (r matches Err(ClientError::UnexpectedStatus(s)) && s == status),
        status == 200 ==> parsed_key_config(body@, r),
{
    if status != 200 {
        return Err(ClientError::UnexpectedStatus(status));
    }
    parse_key_config(body)
}

} // verus!
