//! The eight-byte wire form of a send time.
//!
//! A timestamp travels as the 64-bit pattern of its value, most significant
//! byte first. Turning an instant into that pattern and back (seconds since the
//! epoch as an IEEE-754 double) is done by the caller; this module frames and
//! checks the bytes.
use vstd::prelude::*;

verus! {

/// Length in bytes of one encoded timestamp.
pub const TIMESTAMP_LEN: usize = 8;

/// Why a byte sequence could not be read as a timestamp.
#[derive(Debug, Clone, Copy, PartialEq, Eq, Structural)]
pub enum CodecError {
    /// Fewer than eight bytes were given.
    InsufficientData,
}

/// Byte `k` (0 = most significant) of `x`.
pub open spec fn byte_of(x: u64, k: int) -> u8 {
    #[verifier::truncate] (((x >> ((56 - 8 * k) as u64)) & 0xff) as u8)
}

/// The big-endian bytes of `x`.
pub open spec fn be_bytes(x: u64) -> Seq<u8> {
    Seq::new(8, |k: int| byte_of(x, k))
}

/// The value whose big-endian bytes are the first eight of `b`.
pub open spec fn from_be(b: Seq<u8>) -> u64
    recommends
        b.len() >= 8,
{
    (b[0] as u64) << 56u64 | (b[1] as u64) << 48u64 | (b[2] as u64) << 40u64 | (b[3] as u64)
        << 32u64 | (b[4] as u64) << 24u64 | (b[5] as u64) << 16u64 | (b[6] as u64) << 8u64
        | (b[7] as u64)
}

/// Writes `bits` as eight bytes, most significant first.
pub fn encode(bits: u64) -> (r: [u8; 8])
    ensures
        r@ == be_bytes(bits),
{
    let r: [u8; 8] = [
        #[verifier::truncate] (((bits >> 56u64) & 0xff) as u8),
        #[verifier::truncate] (((bits >> 48u64) & 0xff) as u8),
        #[verifier::truncate] (((bits >> 40u64) & 0xff) as u8),
        #[verifier::truncate] (((bits >> 32u64) & 0xff) as u8),
        #[verifier::truncate] (((bits >> 24u64) & 0xff) as u8),
        #[verifier::truncate] (((bits >> 16u64) & 0xff) as u8),
        #[verifier::truncate] (((bits >> 8u64) & 0xff) as u8),
        #[verifier::truncate] ((bits & 0xff) as u8),
    ];
    assert(bits >> 0u64 == bits) by (bit_vector);
    assert forall|k: int| 0 <= k < 8 implies r@[k] == byte_of(bits, k) by {
        assert(k == 0 || k == 1 || k == 2 || k == 3 || k == 4 || k == 5 || k == 6 || k == 7);
    }
    assert(r@ =~= be_bytes(bits));
    r
}

/// Reads the first eight bytes of `bytes` as a big-endian value; fails with
/// `InsufficientData` when fewer than eight are given.
pub fn decode(bytes: &[u8]) -> (r: Result<u64, CodecError>)
    ensures
        bytes@.len() < 8 ==> r == Err::<u64, CodecError>(CodecError::InsufficientData),
        bytes@.len() >= 8 ==> r == Ok::<u64, CodecError>(from_be(bytes@)),
{
    if bytes.len() < TIMESTAMP_LEN {
        return Err(CodecError::InsufficientData);
    }
    Ok((bytes[0] as u64) << 56u64 | (bytes[1] as u64) << 48u64 | (bytes[2] as u64) << 40u64
        | (bytes[3] as u64) << 32u64 | (bytes[4] as u64) << 24u64 | (bytes[5] as u64) << 16u64
        | (bytes[6] as u64) << 8u64 | (bytes[7] as u64))
}

/// Decoding what was encoded gives the value back.
pub proof fn lemma_decode_encode(x: u64)
    ensures
        be_bytes(x).len() == 8,
        from_be(be_bytes(x)) == x,
{
    let b = be_bytes(x);
    assert(from_be(b) == x) by {
        assert(b[0] == ((x >> 56u64) & 0xff) as u8);
        assert(b[1] == ((x >> 48u64) & 0xff) as u8);
        assert(b[2] == ((x >> 40u64) & 0xff) as u8);
        assert(b[3] == ((x >> 32u64) & 0xff) as u8);
        assert(b[4] == ((x >> 24u64) & 0xff) as u8);
        assert(b[5] == ((x >> 16u64) & 0xff) as u8);
        assert(b[6] == ((x >> 8u64) & 0xff) as u8);
        assert(b[7] == ((x >> 0u64) & 0xff) as u8);
        assert(((((x >> 56u64) & 0xff) as u8) as u64) << 56u64 | ((((x >> 48u64) & 0xff) as u8)
            as u64) << 48u64 | ((((x >> 40u64) & 0xff) as u8) as u64) << 40u64 | ((((x >> 32u64)
            & 0xff) as u8) as u64) << 32u64 | ((((x >> 24u64) & 0xff) as u8) as u64) << 24u64 | ((((x
            >> 16u64) & 0xff) as u8) as u64) << 16u64 | ((((x >> 8u64) & 0xff) as u8) as u64) << 8u64
            | ((((x >> 0u64) & 0xff) as u8) as u64) == x) by (bit_vector);
    }
}

/// Encoding what was decoded gives back the eight bytes that were read.
pub proof fn lemma_encode_decode(b: Seq<u8>)
    requires
        b.len() == 8,
    ensures
        be_bytes(from_be(b)) == b,
{
    let x = from_be(b);
    let (b0, b1, b2, b3, b4, b5, b6, b7) = (b[0], b[1], b[2], b[3], b[4], b[5], b[6], b[7]);
    assert(x == (b0 as u64) << 56u64 | (b1 as u64) << 48u64 | (b2 as u64) << 40u64 | (b3 as u64)
        << 32u64 | (b4 as u64) << 24u64 | (b5 as u64) << 16u64 | (b6 as u64) << 8u64
        | (b7 as u64));
    assert(byte_of(x, 0) == b0 && byte_of(x, 1) == b1 && byte_of(x, 2) == b2 && byte_of(x, 3) == b3)
        by (bit_vector)
        requires
            x == (b0 as u64) << 56u64 | (b1 as u64) << 48u64 | (b2 as u64) << 40u64 | (b3 as u64)
                << 32u64 | (b4 as u64) << 24u64 | (b5 as u64) << 16u64 | (b6 as u64) << 8u64
                | (b7 as u64),
    ;
    assert(byte_of(x, 4) == b4 && byte_of(x, 5) == b5 && byte_of(x, 6) == b6 && byte_of(x, 7) == b7)
        by (bit_vector)
        requires
            x == (b0 as u64) << 56u64 | (b1 as u64) << 48u64 | (b2 as u64) << 40u64 | (b3 as u64)
                << 32u64 | (b4 as u64) << 24u64 | (b5 as u64) << 16u64 | (b6 as u64) << 8u64
                | (b7 as u64),
    ;
    assert(be_bytes(x) =~= b);
}

} // verus!
