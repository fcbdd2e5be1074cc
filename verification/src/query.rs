//! Query parameters: `application/x-www-form-urlencoded` serialization of
//! name/value pairs, and their placement after any query already present in
//! a request target.

use vstd::prelude::*;
use vstd::slice::slice_to_vec;
use vstd::string::StringSliceAdditionalSpecFns;
use vstd::utf8::encode_utf8;

verus! {

/// Bytes that the form serializer leaves as they are: ASCII letters and
/// digits, `*`, `-`, `.` and `_`.
pub open spec fn form_unchanged(b: u8) -> bool {
    ||| b == 0x2a
    ||| b == 0x2d
    ||| b == 0x2e
    ||| b == 0x5f
    ||| 0x30 <= b <= 0x39
    ||| 0x41 <= b <= 0x5a
    ||| 0x61 <= b <= 0x7a
}

/// The upper-case ASCII hexadecimal digit for `d < 16`.
pub open spec fn hex_digit(d: u8) -> u8 {
    if d < 10 {
        (0x30 + d) as u8
    } else {
        (0x41 + d - 10) as u8
    }
}

/// The serialization of one byte: itself, `+` for a space, or `%XX` with
/// upper-case hexadecimal digits.
pub open spec fn form_byte(b: u8) -> Seq<u8> {
    if form_unchanged(b) {
        seq![b]
    } else if b == 0x20 {
        seq![0x2bu8]
    } else {
        seq![0x25u8, hex_digit(b / 16), hex_digit(b % 16)]
    }
}

/// The `application/x-www-form-urlencoded` byte serialization of `s`, byte
/// by byte.
pub open spec fn form_urlencoded(s: Seq<u8>) -> Seq<u8>
    decreases s.len(),
{
    if s.len() == 0 {
        seq![]
    } else {
        form_urlencoded(s.drop_last()) + form_byte(s.last())
    }
}

/// One serialized pair: `name=value`.
pub open spec fn encoded_pair(pair: (Seq<u8>, Seq<u8>)) -> Seq<u8> {
    form_urlencoded(pair.0) + seq![0x3du8] + form_urlencoded(pair.1)
}

/// Serialized pairs, separated by `&`.
pub open spec fn encoded_pairs(pairs: Seq<(Seq<u8>, Seq<u8>)>) -> Seq<u8>
    decreases pairs.len(),
{
    if pairs.len() == 0 {
        seq![]
    } else if pairs.len() == 1 {
        encoded_pair(pairs[0])
    } else {
        encoded_pairs(pairs.drop_last()) + seq![0x26u8] + encoded_pair(pairs.last())
    }
}

/// The index of the first `b` in `s`, or `s.len()` if there is none.
pub open spec fn first_index_of(s: Seq<u8>, b: u8) -> nat
    decreases s.len(),
{
    if s.len() == 0 {
        0
    } else if s[0] == b {
        0
    } else {
        1 + first_index_of(s.drop_first(), b)
    }
}

/// The UTF-8 bytes of string pairs.
pub open spec fn str_pairs_bytes(pairs: Seq<(&str, &str)>) -> Seq<(Seq<u8>, Seq<u8>)> {
    pairs.map_values(|p: (&str, &str)| (p.0.spec_bytes(), p.1.spec_bytes()))
}

/// The characters of string pairs.
pub open spec fn str_pairs_view(pairs: Seq<(&str, &str)>) -> Seq<(Seq<char>, Seq<char>)> {
    pairs.map_values(|p: (&str, &str)| (p.0@, p.1@))
}

/// The UTF-8 bytes of pairs of character strings.
pub open spec fn utf8_pairs(pairs: Seq<(Seq<char>, Seq<char>)>) -> Seq<(Seq<u8>, Seq<u8>)> {
    pairs.map_values(|p: (Seq<char>, Seq<char>)| (encode_utf8(p.0), encode_utf8(p.1)))
}

/// The bytes of string pairs are the UTF-8 encoding of their characters.
pub proof fn lemma_str_pairs_bytes(pairs: Seq<(&str, &str)>)
    ensures
        str_pairs_bytes(pairs) == utf8_pairs(str_pairs_view(pairs)),
{
    assert(str_pairs_bytes(pairs) =~= utf8_pairs(str_pairs_view(pairs)));
}

/// `target` (a path, then an optional `?query`, then an optional
/// `#fragment`) with the serialized `pairs` appended to its query, before
/// any fragment: after a new `?` when there is no query, directly when the
/// query is empty, and after a `&` otherwise. No pairs leave it unchanged.
pub open spec fn with_query(target: Seq<u8>, pairs: Seq<(Seq<u8>, Seq<u8>)>) -> Seq<u8> {
    if pairs.len() == 0 {
        target
    } else {
        let f = first_index_of(target, 0x23);
        let before = target.take(f as int);
        let q = first_index_of(before, 0x3f);
        let sep = if q == before.len() {
            seq![0x3fu8]
        } else if q + 1 == before.len() {
            seq![]
        } else {
            seq![0x26u8]
        };
        before + sep + encoded_pairs(pairs) + target.skip(f as int)
    }
}

/// A byte that can stand in a serialized pair: one left as it is, `+`,
/// `%`, or an upper-case hexadecimal digit.
pub open spec fn form_output_byte(b: u8) -> bool {
    form_unchanged(b) || b == 0x2b || b == 0x25 || (0x30 <= b <= 0x39) || (0x41 <= b <= 0x46)
}

/// The serialization of any bytes is made of unchanged bytes, `+`, `%` and
/// hexadecimal digits only: never `&`, `=`, `#`, `?` or a space, so
/// serialized names and values cannot break out of their pair, and the
/// original bytes are recoverable.
pub proof fn lemma_form_urlencoded_is_safe(s: Seq<u8>)
    ensures
        forall|i: int|
            0 <= i < form_urlencoded(s).len() ==> form_output_byte(#[trigger] form_urlencoded(s)[i]),
    decreases s.len(),
{
    if s.len() > 0 {
        lemma_form_urlencoded_is_safe(s.drop_last());
        let prev = form_urlencoded(s.drop_last());
        let last = form_byte(s.last());
        assert(forall|i: int| 0 <= i < last.len() ==> form_output_byte(#[trigger] last[i]));
        assert forall|i: int| 0 <= i < form_urlencoded(s).len() implies form_output_byte(
            #[trigger] form_urlencoded(s)[i],
        ) by {
            if i < prev.len() {
                assert(form_urlencoded(s)[i] == prev[i]);
            } else {
                assert(form_urlencoded(s)[i] == last[i - prev.len()]);
            }
        }
    }
}

/// The number of bytes `b` in `s`.
pub open spec fn count_byte(s: Seq<u8>, b: u8) -> nat
    decreases s.len(),
{
    if s.len() == 0 {
        0
    } else {
        count_byte(s.drop_last(), b) + (if s.last() == b {
            1nat
        } else {
            0nat
        })
    }
}

proof fn lemma_count_byte_add(x: Seq<u8>, y: Seq<u8>, b: u8)
    ensures
        count_byte(x + y, b) == count_byte(x, b) + count_byte(y, b),
    decreases y.len(),
{
    if y.len() > 0 {
        lemma_count_byte_add(x, y.drop_last(), b);
        assert((x + y).drop_last() =~= x + y.drop_last());
    } else {
        assert(x + y =~= x);
    }
}

proof fn lemma_count_byte_absent(s: Seq<u8>, b: u8)
    requires
        forall|i: int| 0 <= i < s.len() ==> s[i] != b,
    ensures
        count_byte(s, b) == 0,
    decreases s.len(),
{
    if s.len() > 0 {
        lemma_count_byte_absent(s.drop_last(), b);
    }
}

/// A serialized pair holds no `&`.
proof fn lemma_encoded_pair_has_no_separator(pair: (Seq<u8>, Seq<u8>))
    ensures
        count_byte(encoded_pair(pair), 0x26) == 0,
{
    lemma_form_urlencoded_is_safe(pair.0);
    lemma_form_urlencoded_is_safe(pair.1);
    let e = encoded_pair(pair);
    let n = form_urlencoded(pair.0);
    assert forall|i: int| 0 <= i < e.len() implies e[i] != 0x26 by {
        if i < n.len() {
            assert(e[i] == n[i]);
            assert(form_output_byte(n[i]));
        } else if i > n.len() {
            assert(e[i] == form_urlencoded(pair.1)[i - n.len() - 1]);
            assert(form_output_byte(form_urlencoded(pair.1)[i - n.len() - 1]));
        }
    }
    lemma_count_byte_absent(e, 0x26);
}

/// Adding a pair after at least one other appends `&` and the new pair to
/// the serialization of the others.
pub proof fn lemma_encoded_pairs_push(pairs: Seq<(Seq<u8>, Seq<u8>)>, pair: (Seq<u8>, Seq<u8>))
    requires
        pairs.len() > 0,
    ensures
        encoded_pairs(pairs.push(pair)) == encoded_pairs(pairs) + seq![0x26u8] + encoded_pair(pair),
{
    assert(pairs.push(pair).drop_last() =~= pairs);
}

/// `n` serialized pairs hold exactly `n - 1` separators: every pair after
/// the first is set off by one `&`, and no name or value adds one.
pub proof fn lemma_encoded_pairs_separators(pairs: Seq<(Seq<u8>, Seq<u8>)>)
    requires
        pairs.len() > 0,
    ensures
        count_byte(encoded_pairs(pairs), 0x26) == pairs.len() - 1,
    decreases pairs.len(),
{
    lemma_encoded_pair_has_no_separator(pairs.last());
    if pairs.len() == 1 {
        lemma_encoded_pair_has_no_separator(pairs[0]);
    } else {
        lemma_encoded_pairs_separators(pairs.drop_last());
        let x = encoded_pairs(pairs.drop_last());
        lemma_count_byte_add(x + seq![0x26u8], encoded_pair(pairs.last()), 0x26);
        lemma_count_byte_add(x, seq![0x26u8], 0x26);
        let amp = seq![0x26u8];
        assert(amp.drop_last() =~= Seq::<u8>::empty());
        assert(count_byte(amp.drop_last(), 0x26) == 0);
        assert(count_byte(amp, 0x26) == 1);
        assert(encoded_pairs(pairs) == x + amp + encoded_pair(pairs.last()));
    }
}

/// Appending query parameters keeps the target's path and any query it
/// already has: the result starts with everything before the fragment.
pub proof fn lemma_query_keeps_path_and_query(target: Seq<u8>, pairs: Seq<(Seq<u8>, Seq<u8>)>)
    ensures
        with_query(target, pairs).take(first_index_of(target, 0x23) as int) == target.take(
            first_index_of(target, 0x23) as int,
        ),
        pairs.len() == 0 ==> with_query(target, pairs) == target,
{
    lemma_first_index_bound(target, 0x23);
    if pairs.len() > 0 {
        let f = first_index_of(target, 0x23) as int;
        let before = target.take(f);
        let q = first_index_of(before, 0x3f);
        let sep = if q == before.len() {
            seq![0x3fu8]
        } else if q + 1 == before.len() {
            seq![]
        } else {
            seq![0x26u8]
        };
        assert((before + sep + encoded_pairs(pairs) + target.skip(f)).take(f) =~= before);
    }
}

proof fn lemma_first_index_bound(s: Seq<u8>, b: u8)
    ensures
        first_index_of(s, b) <= s.len(),
        first_index_of(s, b) < s.len() ==> s[first_index_of(s, b) as int] == b,
        forall|i: int| 0 <= i < first_index_of(s, b) ==> s[i] != b,
    decreases s.len(),
{
    if s.len() > 0 && s[0] != b {
        lemma_first_index_bound(s.drop_first(), b);
        assert forall|i: int| 0 <= i < first_index_of(s, b) implies s[i] != b by {
            if i > 0 {
                assert(s[i] == s.drop_first()[i - 1]);
            }
        }
    }
}

proof fn lemma_first_index_char(s: Seq<u8>, b: u8, k: int)
    requires
        0 <= k <= s.len(),
        k < s.len() ==> s[k] == b,
        forall|i: int| 0 <= i < k ==> s[i] != b,
    ensures
        first_index_of(s, b) == k,
    decreases s.len(),
{
    if s.len() > 0 && k > 0 {
        assert(s[0] != b);
        assert forall|i: int| 0 <= i < k - 1 implies s.drop_first()[i] != b by {
            assert(s.drop_first()[i] == s[i + 1]);
        }
        lemma_first_index_char(s.drop_first(), b, k - 1);
    }
}

/// Index of the first `b` in `s`, or `s.len()` if there is none.
fn find_byte(s: &[u8], b: u8) -> (i: usize)
    ensures
        i == first_index_of(s@, b),
{
    let mut i: usize = 0;
    while i < s.len()
        invariant
            i <= s@.len(),
            forall|j: int| 0 <= j < i ==> s@[j] != b,
        decreases s.len() - i,
    {
        if s[i] == b {
            proof {
                lemma_first_index_char(s@, b, i as int);
            }
            return i;
        }
        i = i + 1;
    }
    proof {
        lemma_first_index_char(s@, b, i as int);
    }
    i
}

/// `url::form_urlencoded::byte_serialize` on `s`, its pieces joined: each
/// byte is kept when it is an ASCII letter or digit or one of `*-._`, a
/// space becomes `+`, and any other byte becomes `%` and two upper-case
/// hexadecimal digits (`byte_serialized_unchanged` and
/// `percent_encode_byte` in the `form_urlencoded` and `percent-encoding`
/// sources).
#[verifier::external_body]
fn form_serialize(s: &[u8]) -> (r: Vec<u8>)
    ensures
        r@ == form_urlencoded(s@),
{
    url::form_urlencoded::byte_serialize(s).collect::<String>().into_bytes()
}

/// Appends the form serialization of `s` to `out`.
pub fn append_form_urlencoded(out: &mut Vec<u8>, s: &[u8])
    ensures
        final(out)@ == old(out)@ + form_urlencoded(s@),
{
    let mut serialized = form_serialize(s);
    out.append(&mut serialized);
}

/// Appends `name=value`, serialized, to `out`.
fn append_pair(out: &mut Vec<u8>, name: &str, value: &str)
    ensures
        final(out)@ == old(out)@ + encoded_pair((name.spec_bytes(), value.spec_bytes())),
{
    let ghost start = out@;
    append_form_urlencoded(out, name.as_bytes());
    out.push(0x3d);
    append_form_urlencoded(out, value.as_bytes());
    proof {
        assert(out@ =~= start + encoded_pair((name.spec_bytes(), value.spec_bytes())));
    }
}

/// `target` with the serialized `pairs` appended to its query (see
/// `with_query`).
pub fn append_query(target: &[u8], pairs: &[(&str, &str)]) -> (out: Vec<u8>)
    ensures
        out@ == with_query(target@, str_pairs_bytes(pairs@)),
{
    let ghost ps = str_pairs_bytes(pairs@);
    if pairs.len() == 0 {
        return slice_to_vec(target);
    }
    let f = find_byte(target, 0x23);
    proof {
        lemma_first_index_bound(target@, 0x23);
    }
    let mut out: Vec<u8> = Vec::new();
    let mut i: usize = 0;
    while i < f
        invariant
            f <= target@.len(),
            i <= f,
            out@ == target@.take(i as int),
        decreases f - i,
    {
        out.push(target[i]);
        i = i + 1;
        proof {
            assert(out@ =~= target@.take(i as int));
        }
    }
    let ghost before = out@;
    let q = find_byte(out.as_slice(), 0x3f);
    proof {
        lemma_first_index_bound(before, 0x3f);
    }
    if q == out.len() {
        out.push(0x3f);
    } else if q + 1 != out.len() {
        out.push(0x26);
    }
    let ghost with_sep = out@;
    let mut k: usize = 0;
    while k < pairs.len()
        invariant
            k <= pairs@.len(),
            ps == str_pairs_bytes(pairs@),
            out@ == with_sep + encoded_pairs(ps.take(k as int)),
        decreases pairs.len() - k,
    {
        let ghost prev = out@;
        if k > 0 {
            out.push(0x26);
        }
        append_pair(&mut out, pairs[k].0, pairs[k].1);
        k = k + 1;
        proof {
            let t = ps.take(k as int);
            assert(t.drop_last() =~= ps.take(k - 1));
            assert(t.last() == (pairs@[k - 1].0.spec_bytes(), pairs@[k - 1].1.spec_bytes()));
            if k == 1 {
                assert(ps.take(0) =~= Seq::<(Seq<u8>, Seq<u8>)>::empty());
                assert(out@ =~= with_sep + encoded_pairs(t));
            } else {
                assert(out@ =~= with_sep + encoded_pairs(t));
            }
        }
    }
    proof {
        assert(ps.take(pairs@.len() as int) =~= ps);
    }
    let mut j: usize = f;
    while j < target.len()
        invariant
            f <= j <= target@.len(),
            out@ == with_sep + encoded_pairs(ps) + target@.subrange(f as int, j as int),
        decreases target.len() - j,
    {
        out.push(target[j]);
        j = j + 1;
        proof {
            assert(out@ =~= with_sep + encoded_pairs(ps) + target@.subrange(f as int, j as int));
        }
    }
    proof {
        assert(target@.subrange(f as int, j as int) =~= target@.skip(f as int));
    }
    out
}

} // verus!
