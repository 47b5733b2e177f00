//! Primitives of the binary wire format.
//!
//! Every value that crosses the mesh is encoded as a flat byte sequence:
//! little-endian fixed-width integers, length-prefixed byte strings, UTF-8
//! text and length-prefixed lists. The spec-level encoders and decoders
//! below define the format; the lemmas show that a decoder reads back
//! exactly what the encoder wrote, even when the encoding is embedded in a
//! larger buffer.

use vstd::bytes::*;
use vstd::prelude::*;
use vstd::utf8::*;

verus! {

// ------------------------------------------------------------------
// Spec-level encoders
// ------------------------------------------------------------------
pub open spec fn enc_u8(x: u8) -> Seq<u8> {
    seq![x]
}

pub open spec fn enc_u32(x: u32) -> Seq<u8> {
    spec_u32_to_le_bytes(x)
}

pub open spec fn enc_u64(x: u64) -> Seq<u8> {
    spec_u64_to_le_bytes(x)
}

/// A byte string: a `u64` length followed by the bytes themselves.
pub open spec fn enc_bytes(b: Seq<u8>) -> Seq<u8> {
    enc_u64(b.len() as u64) + b
}

/// Text: the UTF-8 encoding of the characters, as a byte string.
pub open spec fn enc_str(s: Seq<char>) -> Seq<u8> {
    enc_bytes(encode_utf8(s))
}

/// A list: a `u64` element count followed by each element's encoding.
pub open spec fn enc_list<T>(elems: Seq<T>, f: spec_fn(T) -> Seq<u8>) -> Seq<u8> {
    enc_u64(elems.len() as u64) + enc_list_body(elems, f)
}

pub open spec fn enc_list_body<T>(elems: Seq<T>, f: spec_fn(T) -> Seq<u8>) -> Seq<u8>
    decreases elems.len(),
{
    if elems.len() == 0 {
        Seq::empty()
    } else {
        f(elems[0]) + enc_list_body(elems.drop_first(), f)
    }
}

/// An optional value: a presence tag, then the value if present.
pub open spec fn enc_option<T>(v: Option<T>, f: spec_fn(T) -> Seq<u8>) -> Seq<u8> {
    match v {
        Option::None => enc_u8(0),
        Option::Some(x) => enc_u8(1) + f(x),
    }
}

// ------------------------------------------------------------------
// Well-formedness: the sizes a faithful encoding needs
// ------------------------------------------------------------------
/// Text whose UTF-8 form fits under the length prefix.
pub open spec fn wf_str(s: Seq<char>) -> bool {
    encode_utf8(s).len() <= u64::MAX
}

// ------------------------------------------------------------------
// Spec-level decoders: (buffer, position) -> Option<(value, position')>
// ------------------------------------------------------------------
pub open spec fn dec_u8(b: Seq<u8>, i: int) -> Option<(u8, int)> {
    if 0 <= i && i + 1 <= b.len() {
        Some((b[i], i + 1))
    } else {
        None
    }
}

pub open spec fn dec_u32(b: Seq<u8>, i: int) -> Option<(u32, int)> {
    if 0 <= i && i + 4 <= b.len() {
        Some((spec_u32_from_le_bytes(b.subrange(i, i + 4)), i + 4))
    } else {
        None
    }
}

pub open spec fn dec_u64(b: Seq<u8>, i: int) -> Option<(u64, int)> {
    if 0 <= i && i + 8 <= b.len() {
        Some((spec_u64_from_le_bytes(b.subrange(i, i + 8)), i + 8))
    } else {
        None
    }
}

pub open spec fn dec_bytes(b: Seq<u8>, i: int) -> Option<(Seq<u8>, int)> {
    match dec_u64(b, i) {
        Some((n, j)) => {
            if j + n <= b.len() {
                Some((b.subrange(j, j + n), j + n))
            } else {
                None
            }
        },
        None => None,
    }
}

pub open spec fn dec_str(b: Seq<u8>, i: int) -> Option<(Seq<char>, int)> {
    match dec_bytes(b, i) {
        Some((bs, j)) => {
            if valid_utf8(bs) {
                Some((decode_utf8(bs), j))
            } else {
                None
            }
        },
        None => None,
    }
}

pub open spec fn dec_list<T>(
    b: Seq<u8>,
    i: int,
    g: spec_fn(Seq<u8>, int) -> Option<(T, int)>,
) -> Option<(Seq<T>, int)> {
    match dec_u64(b, i) {
        Some((n, j)) => dec_list_body(b, j, n as int, g),
        None => None,
    }
}

pub open spec fn dec_list_body<T>(
    b: Seq<u8>,
    i: int,
    n: int,
    g: spec_fn(Seq<u8>, int) -> Option<(T, int)>,
) -> Option<(Seq<T>, int)>
    decreases n,
{
    if n <= 0 {
        Some((Seq::empty(), i))
    } else {
        match g(b, i) {
            Some((x, j)) => match dec_list_body(b, j, n - 1, g) {
                Some((xs, k)) => Some((seq![x] + xs, k)),
                None => None,
            },
            None => None,
        }
    }
}

pub open spec fn dec_option<T>(
    b: Seq<u8>,
    i: int,
    g: spec_fn(Seq<u8>, int) -> Option<(T, int)>,
) -> Option<(Option<T>, int)> {
    match dec_u8(b, i) {
        Some((t, j)) => {
            if t == 0 {
                Some((Option::None, j))
            } else if t == 1 {
                match g(b, j) {
                    Some((x, k)) => Some((Option::Some(x), k)),
                    None => None,
                }
            } else {
                None
            }
        },
        None => None,
    }
}

// ------------------------------------------------------------------
// Embedded-read lemmas: when a buffer holds an encoding at position i,
// the decoder at i yields the encoded value and stops right after it.
// ------------------------------------------------------------------
/// States that the buffer holds the byte sequence `e` at position `i`.
pub open spec fn holds_at(b: Seq<u8>, i: int, e: Seq<u8>) -> bool {
    &&& 0 <= i
    &&& i + e.len() <= b.len()
    &&& b.subrange(i, i + e.len()) == e
}

/// Splits `holds_at` over a concatenation of two encodings.
pub proof fn lemma_holds_at_split(b: Seq<u8>, i: int, e1: Seq<u8>, e2: Seq<u8>)
    requires
        holds_at(b, i, e1 + e2),
    ensures
        holds_at(b, i, e1),
        holds_at(b, i + e1.len(), e2),
{
    assert(b.subrange(i, i + e1.len()) =~= e1) by {
        assert forall|k: int| 0 <= k < e1.len() implies b.subrange(i, i + e1.len())[k] == e1[k] by {
            assert(b.subrange(i, i + (e1 + e2).len())[k] == (e1 + e2)[k]);
        }
    }
    assert(b.subrange(i + e1.len(), i + e1.len() + e2.len()) =~= e2) by {
        assert forall|k: int| 0 <= k < e2.len() implies b.subrange(
            i + e1.len(),
            i + e1.len() + e2.len(),
        )[k] == e2[k] by {
            assert(b.subrange(i, i + (e1 + e2).len())[e1.len() + k] == (e1 + e2)[e1.len() + k]);
        }
    }
}

pub proof fn lemma_dec_u8(b: Seq<u8>, i: int, x: u8)
    requires
        holds_at(b, i, enc_u8(x)),
    ensures
        dec_u8(b, i) == Some((x, i + 1)),
{
    assert(b.subrange(i, i + 1)[0] == b[i]);
}

pub proof fn lemma_dec_u32(b: Seq<u8>, i: int, x: u32)
    requires
        holds_at(b, i, enc_u32(x)),
    ensures
        dec_u32(b, i) == Some((x, i + 4)),
{
    lemma_auto_spec_u32_to_from_le_bytes();
}

pub proof fn lemma_dec_u64(b: Seq<u8>, i: int, x: u64)
    requires
        holds_at(b, i, enc_u64(x)),
    ensures
        dec_u64(b, i) == Some((x, i + 8)),
{
    lemma_auto_spec_u64_to_from_le_bytes();
}

pub proof fn lemma_dec_bytes(b: Seq<u8>, i: int, bs: Seq<u8>)
    requires
        holds_at(b, i, enc_bytes(bs)),
        bs.len() <= u64::MAX,
    ensures
        dec_bytes(b, i) == Some((bs, i + 8 + bs.len())),
{
    lemma_auto_spec_u64_to_from_le_bytes();
    lemma_holds_at_split(b, i, enc_u64(bs.len() as u64), bs);
    lemma_dec_u64(b, i, bs.len() as u64);
}

pub proof fn lemma_dec_str(b: Seq<u8>, i: int, s: Seq<char>)
    requires
        holds_at(b, i, enc_str(s)),
        wf_str(s),
    ensures
        dec_str(b, i) == Some((s, i + enc_str(s).len())),
{
    broadcast use encode_utf8_valid_utf8, encode_utf8_decode_utf8;

    lemma_auto_spec_u64_to_from_le_bytes();
    lemma_dec_bytes(b, i, encode_utf8(s));
    assert(valid_utf8(encode_utf8(s)));
    assert(decode_utf8(encode_utf8(s)) == s);
}

/// Element-wise hypothesis for the generic list lemma: wherever a buffer
/// holds `f(x)` for an element `x` of `elems`, the element decoder `g`
/// reads `x` back.
pub open spec fn list_elems_read_back<T>(
    elems: Seq<T>,
    f: spec_fn(T) -> Seq<u8>,
    g: spec_fn(Seq<u8>, int) -> Option<(T, int)>,
) -> bool {
    forall|k: int, b2: Seq<u8>, i2: int|
        #![trigger g(b2, i2), elems[k]]
        0 <= k < elems.len() && holds_at(b2, i2, f(elems[k])) ==> g(b2, i2) == Some(
            (elems[k], i2 + f(elems[k]).len()),
        )
}

pub proof fn lemma_dec_list_body<T>(
    b: Seq<u8>,
    i: int,
    elems: Seq<T>,
    f: spec_fn(T) -> Seq<u8>,
    g: spec_fn(Seq<u8>, int) -> Option<(T, int)>,
)
    requires
        holds_at(b, i, enc_list_body(elems, f)),
        list_elems_read_back(elems, f, g),
    ensures
        dec_list_body(b, i, elems.len() as int, g) == Some(
            (elems, i + enc_list_body(elems, f).len()),
        ),
    decreases elems.len(),
{
    if elems.len() == 0 {
        assert(dec_list_body(b, i, 0, g) == Some((Seq::<T>::empty(), i)));
        assert(elems =~= Seq::<T>::empty());
    } else {
        let head = f(elems[0]);
        let rest = enc_list_body(elems.drop_first(), f);
        lemma_holds_at_split(b, i, head, rest);
        assert(g(b, i) == Some((elems[0], i + head.len())));
        assert(list_elems_read_back(elems.drop_first(), f, g)) by {
            assert forall|k: int, b2: Seq<u8>, i2: int|
                #![trigger g(b2, i2), elems.drop_first()[k]]
                0 <= k < elems.drop_first().len() && holds_at(
                    b2,
                    i2,
                    f(elems.drop_first()[k]),
                ) implies g(b2, i2) == Some(
                (elems.drop_first()[k], i2 + f(elems.drop_first()[k]).len()),
            ) by {
                assert(elems.drop_first()[k] == elems[k + 1]);
            }
        }
        lemma_dec_list_body(b, i + head.len(), elems.drop_first(), f, g);
        let tail = elems.drop_first();
        assert(seq![elems[0]] + tail =~= elems);
    }
}

pub proof fn lemma_dec_list<T>(
    b: Seq<u8>,
    i: int,
    elems: Seq<T>,
    f: spec_fn(T) -> Seq<u8>,
    g: spec_fn(Seq<u8>, int) -> Option<(T, int)>,
)
    requires
        holds_at(b, i, enc_list(elems, f)),
        elems.len() <= u64::MAX,
        list_elems_read_back(elems, f, g),
    ensures
        dec_list(b, i, g) == Some((elems, i + enc_list(elems, f).len())),
{
    lemma_auto_spec_u64_to_from_le_bytes();
    lemma_holds_at_split(b, i, enc_u64(elems.len() as u64), enc_list_body(elems, f));
    lemma_dec_u64(b, i, elems.len() as u64);
    lemma_dec_list_body(b, i + 8, elems, f, g);
}

/// Appending one element to a list appends its encoding.
pub proof fn lemma_enc_list_body_snoc<T>(s: Seq<T>, f: spec_fn(T) -> Seq<u8>)
    requires
        s.len() > 0,
    ensures
        enc_list_body(s, f) == enc_list_body(s.drop_last(), f) + f(s.last()),
    decreases s.len(),
{
    if s.len() == 1 {
        assert(s.drop_last() =~= Seq::<T>::empty());
        assert(s.drop_first() =~= Seq::<T>::empty());
        assert(enc_list_body(s, f) =~= enc_list_body(s.drop_last(), f) + f(s.last()));
    } else {
        lemma_enc_list_body_snoc(s.drop_first(), f);
        assert(s.drop_first().drop_last() =~= s.drop_last().drop_first());
        assert(s.drop_first().last() == s.last());
        assert(s.drop_last()[0] == s[0]);
        assert(f(s[0]) + (enc_list_body(s.drop_last().drop_first(), f) + f(s.last())) =~= (f(
            s[0],
        ) + enc_list_body(s.drop_last().drop_first(), f)) + f(s.last()));
    }
}

pub proof fn lemma_dec_option<T>(
    b: Seq<u8>,
    i: int,
    v: Option<T>,
    f: spec_fn(T) -> Seq<u8>,
    g: spec_fn(Seq<u8>, int) -> Option<(T, int)>,
)
    requires
        holds_at(b, i, enc_option(v, f)),
        v matches Option::Some(x) ==> forall|b2: Seq<u8>, i2: int|
            holds_at(b2, i2, f(x)) ==> #[trigger] g(b2, i2) == Some((x, i2 + f(x).len())),
    ensures
        dec_option(b, i, g) == Some((v, i + enc_option(v, f).len())),
{
    match v {
        Option::None => {
            lemma_dec_u8(b, i, 0);
        },
        Option::Some(x) => {
            lemma_holds_at_split(b, i, enc_u8(1), f(x));
            lemma_dec_u8(b, i, 1);
        },
    }
}

// ------------------------------------------------------------------
// Executable primitives
// ------------------------------------------------------------------
/// Appends the encoding of a `u8` to the output buffer.
pub fn put_u8(out: &mut Vec<u8>, x: u8)
    ensures
        final(out)@ == old(out)@ + enc_u8(x),
{
    out.push(x);
    assert(out@ =~= old(out)@ + enc_u8(x));
}

/// Appends the encoding of a `u32` to the output buffer.
pub fn put_u32(out: &mut Vec<u8>, x: u32)
    ensures
        final(out)@ == old(out)@ + enc_u32(x),
{
    let bs = u32_to_le_bytes(x);
    let mut k: usize = 0;
    while k < bs.len()
        invariant
            bs@ == enc_u32(x),
            bs.len() == 4,
            k <= 4,
            out@ == old(out)@ + bs@.subrange(0, k as int),
        decreases 4 - k,
    {
        out.push(bs[k]);
        k = k + 1;
        assert(out@ =~= old(out)@ + bs@.subrange(0, k as int));
    }
    assert(bs@.subrange(0, 4) =~= bs@);
}

/// Appends the encoding of a `u64` to the output buffer.
pub fn put_u64(out: &mut Vec<u8>, x: u64)
    ensures
        final(out)@ == old(out)@ + enc_u64(x),
{
    let bs = u64_to_le_bytes(x);
    let mut k: usize = 0;
    while k < bs.len()
        invariant
            bs@ == enc_u64(x),
            bs.len() == 8,
            k <= 8,
            out@ == old(out)@ + bs@.subrange(0, k as int),
        decreases 8 - k,
    {
        out.push(bs[k]);
        k = k + 1;
        assert(out@ =~= old(out)@ + bs@.subrange(0, k as int));
    }
    assert(bs@.subrange(0, 8) =~= bs@);
}

/// Appends a length-prefixed byte string to the output buffer.
pub fn put_bytes(out: &mut Vec<u8>, bs: &Vec<u8>)
    ensures
        final(out)@ == old(out)@ + enc_bytes(bs@),
{
    put_u64(out, bs.len() as u64);
    let ghost mid = out@;
    let mut k: usize = 0;
    while k < bs.len()
        invariant
            out@ == mid + bs@.subrange(0, k as int),
            k <= bs.len(),
            mid == old(out)@ + enc_u64(bs@.len() as u64),
        decreases bs.len() - k,
    {
        out.push(bs[k]);
        k = k + 1;
        assert(out@ =~= mid + bs@.subrange(0, k as int));
    }
    assert(bs@.subrange(0, bs@.len() as int) =~= bs@);
    assert(out@ =~= old(out)@ + enc_bytes(bs@));
}

/// Appends length-prefixed UTF-8 text to the output buffer.
pub fn put_str(out: &mut Vec<u8>, s: &str)
    ensures
        final(out)@ == old(out)@ + enc_str(s@),
{
    let bs = s.as_bytes_vec();
    put_bytes(out, &bs);
}

/// Relies on `String::from_utf8`: yields the text whose UTF-8 encoding is
/// exactly the given bytes, and fails exactly on invalid UTF-8.
#[verifier::external_body]
fn string_from_utf8(v: Vec<u8>) -> (r: Option<String>)
    ensures
        match r {
            Some(s) => valid_utf8(v@) && s@ == decode_utf8(v@),
            None => !valid_utf8(v@),
        },
{
    String::from_utf8(v).ok()
}

/// Reads one byte.
pub fn take_u8(b: &Vec<u8>, pos: usize) -> (r: Option<(u8, usize)>)
    ensures
        match dec_u8(b@, pos as int) {
            Some((v, j)) => r matches Some(p) && p.0 == v && p.1 == j,
            None => r is None,
        },
{
    if pos < b.len() {
        Some((b[pos], pos + 1))
    } else {
        None
    }
}

/// Reads a little-endian `u32`.
pub fn take_u32(b: &Vec<u8>, pos: usize) -> (r: Option<(u32, usize)>)
    ensures
        match dec_u32(b@, pos as int) {
            Some((v, j)) => r matches Some(p) && p.0 == v && p.1 == j,
            None => r is None,
        },
{
    if pos < b.len() && 4 <= b.len() - pos {
        let mut part: Vec<u8> = Vec::new();
        let mut k: usize = 0;
        while k < 4
            invariant
                k <= 4,
                pos + 4 <= b.len(),
                part@ == b@.subrange(pos as int, pos as int + k as int),
            decreases 4 - k,
        {
            part.push(b[pos + k]);
            k = k + 1;
            assert(part@ =~= b@.subrange(pos as int, pos as int + k as int));
        }
        let x = u32_from_le_bytes(part.as_slice());
        Some((x, pos + 4))
    } else {
        None
    }
}

/// Reads a little-endian `u64`.
pub fn take_u64(b: &Vec<u8>, pos: usize) -> (r: Option<(u64, usize)>)
    ensures
        match dec_u64(b@, pos as int) {
            Some((v, j)) => r matches Some(p) && p.0 == v && p.1 == j,
            None => r is None,
        },
{
    if pos < b.len() && 8 <= b.len() - pos {
        let mut part: Vec<u8> = Vec::new();
        let mut k: usize = 0;
        while k < 8
            invariant
                k <= 8,
                pos + 8 <= b.len(),
                part@ == b@.subrange(pos as int, pos as int + k as int),
            decreases 8 - k,
        {
            part.push(b[pos + k]);
            k = k + 1;
            assert(part@ =~= b@.subrange(pos as int, pos as int + k as int));
        }
        let x = u64_from_le_bytes(part.as_slice());
        Some((x, pos + 8))
    } else {
        None
    }
}

/// Reads a length-prefixed byte string.
pub fn take_bytes(b: &Vec<u8>, pos: usize) -> (r: Option<(Vec<u8>, usize)>)
    ensures
        match dec_bytes(b@, pos as int) {
            Some((v, j)) => r matches Some(p) && p.0@ == v && p.1 == j,
            None => r is None,
        },
{
    match take_u64(b, pos) {
        None => None,
        Some((n, j)) => {
            if n <= (b.len() - j) as u64 {
                let n = n as usize;
                let mut part: Vec<u8> = Vec::new();
                let mut k: usize = 0;
                while k < n
                    invariant
                        k <= n,
                        j + n <= b.len(),
                        part@ == b@.subrange(j as int, j as int + k as int),
                    decreases n - k,
                {
                    part.push(b[j + k]);
                    k = k + 1;
                    assert(part@ =~= b@.subrange(j as int, j as int + k as int));
                }
                Some((part, j + n))
            } else {
                None
            }
        },
    }
}

/// Reads length-prefixed UTF-8 text.
pub fn take_str(b: &Vec<u8>, pos: usize) -> (r: Option<(String, usize)>)
    ensures
        match dec_str(b@, pos as int) {
            Some((v, j)) => r matches Some(p) && p.0@ == v && p.1 == j,
            None => r is None,
        },
{
    match take_bytes(b, pos) {
        None => None,
        Some((bs, j)) => match string_from_utf8(bs) {
            Some(s) => Some((s, j)),
            None => None,
        },
    }
}

} // verus!
