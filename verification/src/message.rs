//! Binary HTTP (RFC 9292) messages: the known-length request encoding that
//! goes inside an encapsulated request, and the decoding of the response that
//! comes out of a decapsulated one. Encoding and decoding are done by the
//! `bhttp` crate.

use vstd::prelude::*;

verus! {

/// 2^62: variable-length integers (RFC 9000 §16) hold values below this.
pub open spec fn varint_limit() -> int {
    0x4000_0000_0000_0000
}

/// The `n` low-order bytes of `v`, most significant first.
pub open spec fn be_bytes(v: nat, n: nat) -> Seq<u8>
    decreases n,
{
    if n == 0 {
        seq![]
    } else {
        be_bytes(v / 256, (n - 1) as nat).push((v % 256) as u8)
    }
}

/// The QUIC variable-length integer encoding of `v` (for `v < 2^62`): the
/// two top bits of the first byte give the length, 1, 2, 4 or 8 bytes.
pub open spec fn varint(v: nat) -> Seq<u8> {
    if v < 0x40 {
        be_bytes(v, 1)
    } else if v < 0x4000 {
        be_bytes(v + 0x4000, 2)
    } else if v < 0x4000_0000 {
        be_bytes(v + 0x8000_0000, 4)
    } else {
        be_bytes(v + 0xC000_0000_0000_0000, 8)
    }
}

/// A byte string preceded by its length as a variable-length integer.
pub open spec fn length_prefixed(b: Seq<u8>) -> Seq<u8> {
    varint(b.len()) + b
}

/// The fields of a field section, each as its length-prefixed name followed
/// by its length-prefixed value, in order.
pub open spec fn field_lines(fields: Seq<(Seq<u8>, Seq<u8>)>) -> Seq<u8>
    decreases fields.len(),
{
    if fields.len() == 0 {
        seq![]
    } else {
        field_lines(fields.drop_last()) + length_prefixed(fields.last().0) + length_prefixed(
            fields.last().1,
        )
    }
}

/// The known-length binary HTTP encoding of a request with the given control
/// data, header fields and content, with no trailer fields: framing indicator
/// 0, the four length-prefixed control data fields, the length-prefixed
/// field section, the length-prefixed content and an empty trailer section.
pub open spec fn known_length_request(
    method: Seq<u8>,
    scheme: Seq<u8>,
    authority: Seq<u8>,
    path: Seq<u8>,
    fields: Seq<(Seq<u8>, Seq<u8>)>,
    content: Seq<u8>,
) -> Seq<u8> {
    varint(0) + length_prefixed(method) + length_prefixed(scheme) + length_prefixed(authority)
        + length_prefixed(path) + length_prefixed(field_lines(fields)) + length_prefixed(content)
        + varint(0)
}

pub proof fn lemma_be_bytes_len(v: nat, n: nat)
    ensures
        be_bytes(v, n).len() == n,
    decreases n,
{
    if n > 0 {
        lemma_be_bytes_len(v / 256, (n - 1) as nat);
    }
}

/// A field section's encoding only grows as fields are added.
pub proof fn lemma_field_lines_prefix_grows(fields: Seq<(Seq<u8>, Seq<u8>)>, i: int)
    requires
        0 <= i <= fields.len(),
    ensures
        field_lines(fields.take(i)).len() <= field_lines(fields).len(),
    decreases fields.len(),
{
    if i < fields.len() {
        assert(fields.drop_last().take(i) =~= fields.take(i));
        lemma_field_lines_prefix_grows(fields.drop_last(), i);
    } else {
        assert(fields.take(i) =~= fields);
    }
}

/// The byte strings of a list of fields.
pub open spec fn fields_view(fields: Seq<(Vec<u8>, Vec<u8>)>) -> Seq<(Seq<u8>, Seq<u8>)> {
    fields.map_values(|f: (Vec<u8>, Vec<u8>)| (f.0@, f.1@))
}

/// An inner HTTP request, as the binary HTTP encoder takes it: control data
/// (method, scheme, authority, path and query), header fields in order, and
/// content.
pub struct InnerRequest {
    pub method: Vec<u8>,
    pub scheme: Vec<u8>,
    pub authority: Vec<u8>,
    pub path: Vec<u8>,
    pub fields: Vec<(Vec<u8>, Vec<u8>)>,
    pub content: Vec<u8>,
}

impl InnerRequest {
    /// The known-length binary HTTP encoding of this request.
    pub open spec fn encoding(&self) -> Seq<u8> {
        known_length_request(
            self.method@,
            self.scheme@,
            self.authority@,
            self.path@,
            fields_view(self.fields@),
            self.content@,
        )
    }

    /// Every length that the encoding writes as a variable-length integer is
    /// below 2^62.
    pub open spec fn encodable(&self) -> bool {
        &&& self.method@.len() < varint_limit()
        &&& self.scheme@.len() < varint_limit()
        &&& self.authority@.len() < varint_limit()
        &&& self.path@.len() < varint_limit()
        &&& field_lines(fields_view(self.fields@)).len() < varint_limit()
        &&& self.content@.len() < varint_limit()
    }
}

/// `bhttp::Message::write_bhttp` in known-length mode, on a message built
/// with `bhttp::Message::request` from the request's control data, one
/// `put_header` per field in order (which appends the field) and one
/// `write_content`. Writing into a `Vec` cannot fail, and the output is
/// exactly the RFC 9292 known-length encoding above (see `write_bhttp`,
/// `ControlData::write_bhttp`, `FieldSection::write_bhttp` and `write_vec` in
/// the crate's source). `write_varint` panics on values of 2^62 or more,
/// which `encodable` rules out.
#[verifier::external_body]
pub(crate) fn write_known_length_request(req: &InnerRequest) -> (r: Result<Vec<u8>, bhttp::Error>)
    requires
        req.encodable(),
    ensures
        r is Ok,
        r matches Ok(bytes) ==> bytes@ == req.encoding(),
{
    let mut msg = bhttp::Message::request(
        req.method.clone(),
        req.scheme.clone(),
        req.authority.clone(),
        req.path.clone(),
    );
    for (name, value) in &req.fields {
        msg.put_header(name.as_slice(), value.as_slice());
    }
    msg.write_content(&req.content);
    let mut out = Vec::new();
    msg.write_bhttp(bhttp::Mode::KnownLength, &mut out)?;
    Ok(out)
}

/// What `bhttp::Message::read_bhttp` makes of `bytes`, where it succeeds:
/// the final status code (for a response), the header fields in order, and
/// the content.
pub uninterp spec fn bhttp_decoded(bytes: Seq<u8>) -> Option<
    (Option<u16>, Seq<(Seq<u8>, Seq<u8>)>, Seq<u8>),
>;

/// `bhttp::Message::read_bhttp` on `bytes`, with the message handed back as
/// its final status code (`control().status()`), its header fields
/// (`header().iter()`) and its content. Its result is named by
/// `bhttp_decoded`; beyond that, the contract states only that a status is
/// a final one: `StatusCode` accepts 100..=599 and the reader skips
/// informational (1xx) responses.
#[verifier::external_body]
pub(crate) fn read_bhttp_message(bytes: &[u8]) -> (r: Result<
    (Option<u16>, Vec<(Vec<u8>, Vec<u8>)>, Vec<u8>),
    bhttp::Error,
>)
    ensures
        r matches Ok(m) ==> bhttp_decoded(bytes@) == Some((m.0, fields_view(m.1@), m.2@)),
        r matches Ok(m) ==> (m.0 matches Some(code) ==> 200 <= code <= 599),
        r is Err ==> bhttp_decoded(bytes@) is None,
{
    let msg = bhttp::Message::read_bhttp(&mut std::io::Cursor::new(bytes))?;
    let fields = msg.header().iter().map(|f| (f.name().to_vec(), f.value().to_vec())).collect();
    Ok((msg.control().status().map(|s| s.code()), fields, msg.content().to_vec()))
}

} // verus!
