//! The decapsulated inner response.

use vstd::prelude::*;
use crate::error::ClientError;
use vstd::string::StringSliceAdditionalSpecFns;
use vstd::slice::slice_to_vec;
use crate::message::{bhttp_decoded, fields_view, read_bhttp_message};

verus! {

/// ASCII lower-casing of one byte, as `u8::to_ascii_lowercase` does it.
pub open spec fn ascii_lower(b: u8) -> u8 {
    if 0x41 <= b <= 0x5a {
        (b + 0x20) as u8
    } else {
        b
    }
}

/// ASCII case-insensitive equality of two byte strings, as
/// `[u8]::eq_ignore_ascii_case` documents it: equal once both are
/// lower-cased.
pub open spec fn eq_ignore_ascii_case(a: Seq<u8>, b: Seq<u8>) -> bool {
    a.len() == b.len() && forall|i: int| 0 <= i < a.len() ==> ascii_lower(a[i]) == ascii_lower(b[i])
}

/// The index of the first field named `name` (ASCII case-insensitively),
/// or `fields.len()` when there is none.
pub open spec fn first_field_named(fields: Seq<(Seq<u8>, Seq<u8>)>, name: Seq<u8>) -> int
    decreases fields.len(),
{
    if fields.len() == 0 {
        0
    } else if eq_ignore_ascii_case(fields[0].0, name) {
        0
    } else {
        1 + first_field_named(fields.drop_first(), name)
    }
}

/// The value of the first field named `name`, if any.
pub open spec fn field_value(fields: Seq<(Seq<u8>, Seq<u8>)>, name: Seq<u8>) -> Option<Seq<u8>> {
    let i = first_field_named(fields, name);
    if i < fields.len() {
        Some(fields[i].1)
    } else {
        None
    }
}

proof fn lemma_first_field_same(fields: Seq<(Seq<u8>, Seq<u8>)>, a: Seq<u8>, b: Seq<u8>)
    requires
        eq_ignore_ascii_case(a, b),
    ensures
        first_field_named(fields, a) == first_field_named(fields, b),
    decreases fields.len(),
{
    if fields.len() > 0 {
        let n = fields[0].0;
        if eq_ignore_ascii_case(n, a) {
            assert(eq_ignore_ascii_case(n, b));
        } else {
            assert(!eq_ignore_ascii_case(n, b)) by {
                if eq_ignore_ascii_case(n, b) {
                    assert forall|i: int| 0 <= i < n.len() implies ascii_lower(n[i]) == ascii_lower(
                        a[i],
                    ) by {
                        assert(ascii_lower(a[i]) == ascii_lower(b[i]));
                    }
                }
            }
            lemma_first_field_same(fields.drop_first(), a, b);
        }
    }
}

/// Header lookup ignores ASCII case: two names that differ only in the case
/// of their letters find the same value.
pub proof fn lemma_header_lookup_ignores_case(fields: Seq<(Seq<u8>, Seq<u8>)>, a: Seq<u8>, b: Seq<u8>)
    requires
        eq_ignore_ascii_case(a, b),
    ensures
        field_value(fields, a) == field_value(fields, b),
{
    lemma_first_field_same(fields, a, b);
}

/// What a response is: its status code, header fields in order, and body.
pub struct ResponseView {
    pub status: u16,
    pub headers: Seq<(Seq<u8>, Seq<u8>)>,
    pub body: Seq<u8>,
}

/// The decapsulated inner response from the target.
#[derive(Debug)]
pub struct Response {
    status: u16,
    headers: Vec<(Vec<u8>, Vec<u8>)>,
    body: Vec<u8>,
}

impl View for Response {
    type V = ResponseView;

    closed spec fn view(&self) -> ResponseView {
        ResponseView { status: self.status, headers: fields_view(self.headers@), body: self.body@ }
    }
}

/// What a binary HTTP message read as a response gives: `Bhttp` when it
/// cannot be decoded, `NotAResponse` when it is a request, and otherwise its
/// status, header fields and content.
pub open spec fn response_from_message(bytes: Seq<u8>, r: Result<Response, ClientError>) -> bool {
    match bhttp_decoded(bytes) {
        None => r matches Err(ClientError::Bhttp(_)),
        Some((None, _, _)) => r matches Err(ClientError::NotAResponse),
        Some((Some(status), headers, body)) => (r matches Ok(resp) && resp@ == ResponseView {
            status,
            headers,
            body,
        }),
    }
}

proof fn lemma_first_field_bound(fields: Seq<(Seq<u8>, Seq<u8>)>, name: Seq<u8>)
    ensures
        0 <= first_field_named(fields, name) <= fields.len(),
        first_field_named(fields, name) < fields.len() ==> eq_ignore_ascii_case(
            fields[first_field_named(fields, name)].0,
            name,
        ),
    decreases fields.len(),
{
    if fields.len() > 0 && !eq_ignore_ascii_case(fields[0].0, name) {
        lemma_first_field_bound(fields.drop_first(), name);
    }
}

proof fn lemma_first_field_at(fields: Seq<(Seq<u8>, Seq<u8>)>, name: Seq<u8>, k: int)
    requires
        0 <= k <= fields.len(),
        k < fields.len() ==> eq_ignore_ascii_case(fields[k].0, name),
        forall|i: int| 0 <= i < k ==> !eq_ignore_ascii_case(#[trigger] fields[i].0, name),
    ensures
        first_field_named(fields, name) == k,
    decreases fields.len(),
{
    if fields.len() > 0 && k > 0 {
        assert(!eq_ignore_ascii_case(fields[0].0, name));
        assert forall|i: int| 0 <= i < k - 1 implies !eq_ignore_ascii_case(
            #[trigger] fields.drop_first()[i].0,
            name,
        ) by {
            assert(fields.drop_first()[i] == fields[i + 1]);
        }
        lemma_first_field_at(fields.drop_first(), name, k - 1);
    }
}

fn lower(b: u8) -> (l: u8)
    ensures
        l == ascii_lower(b),
{
    if 0x41 <= b && b <= 0x5a {
        b + 0x20
    } else {
        b
    }
}

/// ASCII case-insensitive equality of two byte strings.
pub fn bytes_eq_ignore_ascii_case(a: &[u8], b: &[u8]) -> (eq: bool)
    ensures
        eq == eq_ignore_ascii_case(a@, b@),
{
    if a.len() != b.len() {
        return false;
    }
    let mut i: usize = 0;
    while i < a.len()
        invariant
            a@.len() == b@.len(),
            i <= a@.len(),
            forall|j: int| 0 <= j < i ==> ascii_lower(a@[j]) == ascii_lower(b@[j]),
        decreases a.len() - i,
    {
        if lower(a[i]) != lower(b[i]) {
            return false;
        }
        i = i + 1;
    }
    true
}

/// A copy of a list of fields.
fn clone_fields(fields: &Vec<(Vec<u8>, Vec<u8>)>) -> (c: Vec<(Vec<u8>, Vec<u8>)>)
    ensures
        fields_view(c@) == fields_view(fields@),
{
    let mut c: Vec<(Vec<u8>, Vec<u8>)> = Vec::new();
    let mut i: usize = 0;
    while i < fields.len()
        invariant
            i <= fields@.len(),
            c@.len() == i,
            forall|j: int|
                0 <= j < i ==> (#[trigger] c@[j]).0@ == fields@[j].0@ && c@[j].1@ == fields@[j].1@,
        decreases fields.len() - i,
    {
        let name = slice_to_vec(fields[i].0.as_slice());
        let value = slice_to_vec(fields[i].1.as_slice());
        c.push((name, value));
        i = i + 1;
    }
    proof {
        assert(fields_view(c@) =~= fields_view(fields@));
    }
    c
}

impl Clone for Response {
    fn clone(&self) -> (c: Self)
        ensures
            c@ == self@,
    {
        Response {
            status: self.status,
            headers: clone_fields(&self.headers),
            body: slice_to_vec(self.body.as_slice()),
        }
    }
}

impl Response {
    /// Read a binary HTTP message as the inner response: its status, header
    /// fields and content.
    pub fn from_bhttp(bytes: &[u8]) -> (r: Result<Response, ClientError>)
        ensures
            response_from_message(bytes@, r),
            r matches Ok(resp) ==> 200 <= resp@.status <= 599,
    {
        match read_bhttp_message(bytes) {
            Err(e) => Err(ClientError::Bhttp(e)),
            Ok((None, _, _)) => Err(ClientError::NotAResponse),
            Ok((Some(status), headers, body)) => Ok(Response { status, headers, body }),
        }
    }

    /// The status code.
    pub fn status(&self) -> (s: u16)
        ensures
            s == self@.status,
    {
        self.status
    }

    /// Value of the first header with the given name (ASCII
    /// case-insensitive).
    pub fn header(&self, name: &str) -> (v: Option<&[u8]>)
        ensures
            match field_value(self@.headers, name.spec_bytes()) {
                Some(value) => (v matches Some(x) && x@ == value),
                None => v is None,
            },
    {
        let n = name.as_bytes();
        let ghost fields = self@.headers;
        let mut i: usize = 0;
        while i < self.headers.len()
            invariant
                fields == fields_view(self.headers@),
                n@ == name.spec_bytes(),
                i <= self.headers@.len(),
                forall|j: int| 0 <= j < i ==> !eq_ignore_ascii_case(#[trigger] fields[j].0, n@),
            decreases self.headers.len() - i,
        {
            if bytes_eq_ignore_ascii_case(self.headers[i].0.as_slice(), n) {
                proof {
                    assert(fields.len() == self.headers@.len());
                    assert(fields[i as int] == (self.headers@[i as int].0@, self.headers@[i as int].1@));
                    lemma_first_field_at(fields, n@, i as int);
                }
                return Some(self.headers[i].1.as_slice());
            }
            i = i + 1;
        }
        proof {
            lemma_first_field_at(fields, n@, i as int);
        }
        None
    }

    /// All header fields, in order.
    pub fn headers(&self) -> (h: Vec<(&[u8], &[u8])>)
        ensures
            h@.len() == self@.headers.len(),
            forall|i: int|
                0 <= i < h@.len() ==> (#[trigger] h@[i]).0@ == self@.headers[i].0 && h@[i].1@
                    == self@.headers[i].1,
    {
        let mut h: Vec<(&[u8], &[u8])> = Vec::new();
        let mut i: usize = 0;
        while i < self.headers.len()
            invariant
                i <= self.headers@.len(),
                h@.len() == i,
                forall|j: int|
                    0 <= j < i ==> (#[trigger] h@[j]).0@ == self@.headers[j].0 && h@[j].1@
                        == self@.headers[j].1,
            decreases self.headers.len() - i,
        {
            h.push((self.headers[i].0.as_slice(), self.headers[i].1.as_slice()));
            i = i + 1;
        }
        h
    }

    /// The body.
    pub fn body(&self) -> (b: &[u8])
        ensures
            b@ == self@.body,
    {
        self.body.as_slice()
    }

    /// The body, taken out of the response.
    pub fn into_body(self) -> (b: Vec<u8>)
        ensures
            b@ == self@.body,
    {
        self.body
    }
}

} // verus!
