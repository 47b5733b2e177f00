//! Length-delimited framing of the byte stream.
//!
//! Each frame is a 4-byte big-endian length followed by that many payload
//! bytes; every frame carries one encoded message. `frame_extract` works
//! incrementally: given the bytes buffered so far, it either yields the
//! first complete frame and how much it consumed, or asks for more bytes.

use vstd::prelude::*;

verus! {

/// The 4-byte big-endian form of a frame length.
pub open spec fn enc_frame_len(n: u32) -> Seq<u8> {
    seq![
        ((n >> 24) & 0xff) as u8,
        ((n >> 16) & 0xff) as u8,
        ((n >> 8) & 0xff) as u8,
        (n & 0xff) as u8,
    ]
}

/// A whole frame: length prefix, then the payload.
pub open spec fn frame_enc(p: Seq<u8>) -> Seq<u8> {
    enc_frame_len(p.len() as u32) + p
}

/// The length read from the first four bytes of a buffer.
pub open spec fn dec_frame_len(b: Seq<u8>) -> u32
    recommends
        b.len() >= 4,
{
    (((b[0] as u32) << 24) | ((b[1] as u32) << 16) | ((b[2] as u32) << 8) | (b[3] as u32)) as u32
}

/// The first complete frame of a buffer: its payload and the bytes
/// consumed, or nothing when the buffer does not yet hold a whole frame.
pub open spec fn frame_dec(b: Seq<u8>) -> Option<(Seq<u8>, int)> {
    if b.len() < 4 {
        None
    } else {
        let n = dec_frame_len(b) as int;
        if b.len() >= 4 + n {
            Some((b.subrange(4, 4 + n), 4 + n))
        } else {
            None
        }
    }
}

pub proof fn lemma_frame_len_round_trip(n: u32)
    ensures
        dec_frame_len(enc_frame_len(n)) == n,
        enc_frame_len(n).len() == 4,
{
    assert((((((n >> 24) & 0xff) as u8) as u32) << 24 | ((((n >> 16) & 0xff) as u8) as u32) << 16
        | ((((n >> 8) & 0xff) as u8) as u32) << 8 | (((n & 0xff) as u8) as u32)) == n)
        by (bit_vector);
}

/// The framing round trip: however many bytes of later frames follow it in
/// the buffer, the first frame extracts to exactly its payload.
pub proof fn lemma_frame_round_trip(p: Seq<u8>, rest: Seq<u8>)
    requires
        p.len() <= u32::MAX,
    ensures
        frame_dec(frame_enc(p) + rest) == Some((p, 4 + p.len() as int)),
{
    let n = p.len() as u32;
    lemma_frame_len_round_trip(n);
    let b = frame_enc(p) + rest;
    assert(b[0] == enc_frame_len(n)[0]);
    assert(b[1] == enc_frame_len(n)[1]);
    assert(b[2] == enc_frame_len(n)[2]);
    assert(b[3] == enc_frame_len(n)[3]);
    assert(dec_frame_len(b) == n);
    assert(b.subrange(4, 4 + p.len() as int) =~= p);
}

/// Wraps a payload in one frame. Fails exactly when the payload is too
/// long for the 4-byte length prefix.
pub fn frame_encode(payload: &Vec<u8>) -> (r: Option<Vec<u8>>)
    ensures
        match r {
            Some(f) => payload@.len() <= u32::MAX && f@ == frame_enc(payload@),
            None => payload@.len() > u32::MAX,
        },
{
    if payload.len() as u64 > u32::MAX as u64 {
        return None;
    }
    let n = payload.len() as u32;
    let mut out: Vec<u8> = Vec::new();
    out.push(((n >> 24) & 0xff) as u8);
    out.push(((n >> 16) & 0xff) as u8);
    out.push(((n >> 8) & 0xff) as u8);
    out.push((n & 0xff) as u8);
    assert(out@ =~= enc_frame_len(n));
    let ghost pre = out@;
    let mut k: usize = 0;
    while k < payload.len()
        invariant
            k <= payload@.len(),
            pre == enc_frame_len(payload@.len() as u32),
            out@ == pre + payload@.subrange(0, k as int),
        decreases payload@.len() - k,
    {
        out.push(payload[k]);
        k = k + 1;
        assert(out@ =~= pre + payload@.subrange(0, k as int));
    }
    assert(payload@.subrange(0, payload@.len() as int) =~= payload@);
    Some(out)
}

/// Extracts the first complete frame from the buffered bytes: the payload
/// and how many bytes to drop from the buffer. Returns nothing while the
/// buffer holds no complete frame.
pub fn frame_extract(buf: &Vec<u8>) -> (r: Option<(Vec<u8>, usize)>)
    ensures
        match frame_dec(buf@) {
            Some((p, j)) => r matches Some(q) && q.0@ == p && q.1 == j,
            None => r is None,
        },
{
    if buf.len() < 4 {
        return None;
    }
    let n: u32 = (((buf[0] as u32) << 24) | ((buf[1] as u32) << 16) | ((buf[2] as u32) << 8) | (
    buf[3] as u32)) as u32;
    assert(n == dec_frame_len(buf@));
    if ((buf.len() - 4) as u64) < (n as u64) {
        return None;
    }
    let n = n as usize;
    let buflen = buf.len();
    let mut payload: Vec<u8> = Vec::new();
    let mut k: usize = 0;
    while k < n
        invariant
            k <= n,
            buflen == buf@.len(),
            4 + n <= buflen,
            payload@ == buf@.subrange(4, 4 + k as int),
        decreases n - k,
    {
        payload.push(buf[4 + k]);
        k = k + 1;
        assert(payload@ =~= buf@.subrange(4, 4 + k as int));
    }
    Some((payload, 4 + n))
}

} // verus!
