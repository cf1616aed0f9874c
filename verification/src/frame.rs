//! The frame codec of the native-messaging wire protocol.
//!
//! A frame is a 32-bit payload length followed by exactly that many payload
//! bytes. The length prefix is little-endian on both the encode and the
//! decode side; this is the single fixed convention for the whole session.
//! A frame is atomic: a buffer that holds fewer bytes than a whole frame
//! decodes to nothing at all, never to a partial payload.

use vstd::prelude::*;

verus! {

/// The little-endian bytes of a frame's 32-bit length prefix.
pub open spec fn spec_le_bytes(n: u32) -> Seq<u8> {
    seq![
        (n & 0xff) as u8,
        ((n >> 8) & 0xff) as u8,
        ((n >> 16) & 0xff) as u8,
        ((n >> 24) & 0xff) as u8,
    ]
}

/// The 32-bit value that four little-endian bytes carry.
pub open spec fn spec_le_value(b: Seq<u8>) -> u32
    recommends
        b.len() == 4,
{
    (b[0] as u32) | ((b[1] as u32) << 8) | ((b[2] as u32) << 16) | ((b[3] as u32) << 24)
}

/// A whole frame: the length prefix followed by the payload itself.
pub open spec fn spec_frame(payload: Seq<u8>) -> Seq<u8>
    recommends
        payload.len() <= u32::MAX,
{
    spec_le_bytes(payload.len() as u32) + payload
}

/// One frame read from position `i` of a byte buffer: the payload and the
/// position just past it, or nothing when fewer bytes than a whole frame
/// remain.
pub open spec fn spec_decode_frame(s: Seq<u8>, i: int) -> Option<(Seq<u8>, int)> {
    if 0 <= i && i + 4 <= s.len() {
        let n = spec_le_value(s.subrange(i, i + 4)) as int;
        if i + 4 + n <= s.len() {
            Some((s.subrange(i + 4, i + 4 + n), i + 4 + n))
        } else {
            None
        }
    } else {
        None
    }
}

/// Reading four little-endian bytes gives back the value they were made from.
pub proof fn lemma_le_value_of_le_bytes(n: u32)
    ensures
        spec_le_value(spec_le_bytes(n)) == n,
{
    assert(((n & 0xff) as u8 as u32) | ((((n >> 8) & 0xff) as u8 as u32) << 8) | ((((n >> 16)
        & 0xff) as u8 as u32) << 16) | ((((n >> 24) & 0xff) as u8 as u32) << 24) == n)
        by (bit_vector);
}

/// The little-endian bytes of a 32-bit length prefix.
pub fn u32_to_le_bytes(n: u32) -> (r: Vec<u8>)
    ensures
        r@ == spec_le_bytes(n),
{
    assert(n & 0xff < 256 && (n >> 8) & 0xff < 256 && (n >> 16) & 0xff < 256 && (n >> 24) & 0xff
        < 256) by (bit_vector);
    let mut r: Vec<u8> = Vec::new();
    r.push((n & 0xff) as u8);
    r.push(((n >> 8) & 0xff) as u8);
    r.push(((n >> 16) & 0xff) as u8);
    r.push(((n >> 24) & 0xff) as u8);
    proof {
        assert(r@ =~= spec_le_bytes(n));
    }
    r
}

/// The 32-bit value of a four-byte little-endian length prefix.
pub fn u32_from_le_bytes(b0: u8, b1: u8, b2: u8, b3: u8) -> (r: u32)
    ensures
        r == spec_le_value(seq![b0, b1, b2, b3]),
{
    (b0 as u32) | ((b1 as u32) << 8) | ((b2 as u32) << 16) | ((b3 as u32) << 24)
}

/// Encodes one frame: the payload's length as four little-endian bytes,
/// then the payload.
pub fn encode_frame(payload: &Vec<u8>) -> (r: Vec<u8>)
    requires
        payload@.len() <= u32::MAX,
    ensures
        r@ == spec_frame(payload@),
{
    let n: u32 = payload.len() as u32;
    let mut r = u32_to_le_bytes(n);
    let mut i: usize = 0;
    proof {
        assert(r@ + payload@.subrange(0, 0) =~= r@);
    }
    while i < payload.len()
        invariant
            i <= payload@.len(),
            payload@.len() <= u32::MAX,
            r@ == spec_le_bytes(payload@.len() as u32) + payload@.subrange(0, i as int),
        decreases payload@.len() - i,
    {
        r.push(payload[i]);
        i = i + 1;
        proof {
            assert(payload@.subrange(0, i as int) =~= payload@.subrange(0, i - 1).push(
                payload@[i - 1],
            ));
            assert(r@ =~= spec_le_bytes(payload@.len() as u32) + payload@.subrange(0, i as int));
        }
    }
    proof {
        assert(payload@.subrange(0, payload@.len() as int) =~= payload@);
    }
    r
}

/// Decodes one frame from position `start` of a byte buffer. Returns the
/// payload and the position just past the frame; returns nothing exactly
/// when the buffer ends before the length prefix or the payload is complete.
pub fn decode_frame(input: &Vec<u8>, start: usize) -> (r: Option<(Vec<u8>, usize)>)
    ensures
        match r {
            Some(p) => spec_decode_frame(input@, start as int) == Some((p.0@, p.1 as int)),
            None => spec_decode_frame(input@, start as int) is None,
        },
{
    if start > input.len() || input.len() - start < 4 {
        return None;
    }
    let n: u32 = u32_from_le_bytes(input[start], input[start + 1], input[start + 2], input[start
        + 3]);
    proof {
        assert(input@.subrange(start as int, start as int + 4) =~= seq![
            input@[start as int],
            input@[start as int + 1],
            input@[start as int + 2],
            input@[start as int + 3],
        ]);
    }
    let n_usize: usize = n as usize;
    if input.len() - (start + 4) < n_usize {
        return None;
    }
    let base: usize = start + 4;
    let total: usize = input.len();
    let mut payload: Vec<u8> = Vec::new();
    let mut i: usize = 0;
    while i < n_usize
        invariant
            i <= n_usize,
            base + n_usize <= total,
            total == input@.len(),
            payload@ == input@.subrange(base as int, base as int + i as int),
        decreases n_usize - i,
    {
        payload.push(input[base + i]);
        i = i + 1;
        proof {
            assert(input@.subrange(base as int, base as int + i as int) =~= input@.subrange(
                base as int,
                base as int + i - 1,
            ).push(input@[base as int + i - 1]));
        }
    }
    Some((payload, base + n_usize))
}

/// Framing exactness, first half: decoding an encoded frame of payload `p`
/// gives back exactly `p` and consumes the whole frame.
pub proof fn lemma_frame_round_trip(payload: Seq<u8>)
    requires
        payload.len() <= u32::MAX,
    ensures
        spec_decode_frame(spec_frame(payload), 0) == Some((payload, 4 + payload.len() as int)),
{
    lemma_le_value_of_le_bytes(payload.len() as u32);
    assert(spec_frame(payload).subrange(0, 4) =~= spec_le_bytes(payload.len() as u32));
    assert(spec_frame(payload).subrange(4, 4 + payload.len() as int) =~= payload);
}

/// Framing exactness, second half: a buffer that ends anywhere before the
/// end of an encoded frame decodes to nothing; no partial payload surfaces.
pub proof fn lemma_frame_incomplete(payload: Seq<u8>, k: int)
    requires
        payload.len() <= u32::MAX,
        0 <= k < spec_frame(payload).len(),
    ensures
        spec_decode_frame(spec_frame(payload).take(k), 0) is None,
{
    if k >= 4 {
        lemma_le_value_of_le_bytes(payload.len() as u32);
        assert(spec_frame(payload).take(k).subrange(0, 4) =~= spec_le_bytes(
            payload.len() as u32,
        ));
    }
}

} // verus!
