//! SEC1 uncompressed-point codec: `0x04 || X || Y` with fixed-width
//! big-endian coordinates.

use vstd::prelude::*;

use crate::errors::DecodeError;
use crate::num::copy_range;

verus! {

/// The tag byte that opens an uncompressed point encoding.
pub const UNCOMPRESSED_TAG: u8 = 0x04;

/// What decoding an uncompressed point returns: a tag other than `0x04` is
/// an encoding error whatever the input's length; any other input that is
/// not exactly `1 + 2 * elem_len` bytes is a length error; otherwise the two
/// coordinates are the two halves after the tag, returned without modular
/// reduction.
pub open spec fn spec_decode_uncompressed_point(input: Seq<u8>, elem_len: nat) -> Result<
    (Seq<u8>, Seq<u8>),
    DecodeError,
> {
    if input.len() > 0 && input[0] != UNCOMPRESSED_TAG {
        Err(DecodeError::InvalidEncoding)
    } else if input.len() != 1 + 2 * elem_len {
        Err(DecodeError::InvalidLength)
    } else {
        Ok(
            (
                input.subrange(1, 1 + elem_len as int),
                input.subrange(1 + elem_len as int, 1 + 2 * elem_len as int),
            ),
        )
    }
}

/// The uncompressed encoding of a coordinate pair.
pub open spec fn spec_encode_uncompressed_point(x: Seq<u8>, y: Seq<u8>) -> Seq<u8> {
    seq![UNCOMPRESSED_TAG] + x + y
}

/// Decode a SEC1 uncompressed public-key point into its two coordinate byte
/// strings, each exactly `elem_len` bytes, unreduced. Pure structural
/// validation: whether the point lies on the curve is the curve engine's
/// responsibility.
pub fn decode_uncompressed_point(input: &Vec<u8>, elem_len: usize) -> (r: Result<
    (Vec<u8>, Vec<u8>),
    DecodeError,
>)
    requires
        elem_len <= usize::MAX / 2 - 1,
    ensures
        match r {
            Ok((x, y)) => spec_decode_uncompressed_point(input@, elem_len as nat) == Ok::<
                _,
                DecodeError,
            >((x@, y@)),
            Err(e) => spec_decode_uncompressed_point(input@, elem_len as nat) == Err::<
                (Seq<u8>, Seq<u8>),
                _,
            >(e),
        },
{
    if input.len() > 0 && input[0] != UNCOMPRESSED_TAG {
        return Err(DecodeError::InvalidEncoding);
    }
    if input.len() != 1 + 2 * elem_len {
        return Err(DecodeError::InvalidLength);
    }
    let x = copy_range(input, 1, 1 + elem_len);
    let y = copy_range(input, 1 + elem_len, 1 + 2 * elem_len);
    Ok((x, y))
}

/// Encode a coordinate pair as a SEC1 uncompressed point:
/// `0x04 || X || Y`.
pub fn encode_uncompressed_point(x: &Vec<u8>, y: &Vec<u8>) -> (out: Vec<u8>)
    requires
        x@.len() + y@.len() + 1 <= usize::MAX,
    ensures
        out@ == spec_encode_uncompressed_point(x@, y@),
{
    let mut out: Vec<u8> = Vec::new();
    out.push(UNCOMPRESSED_TAG);
    let mut i: usize = 0;
    while i < x.len()
        invariant
            i <= x@.len(),
            out@ == seq![UNCOMPRESSED_TAG] + x@.subrange(0, i as int),
        decreases x@.len() - i,
    {
        out.push(x[i]);
        proof {
            assert(seq![UNCOMPRESSED_TAG] + x@.subrange(0, (i + 1) as int) =~= (seq![
                UNCOMPRESSED_TAG,
            ] + x@.subrange(0, i as int)).push(x@[i as int]));
        }
        i = i + 1;
    }
    proof {
        assert(x@.subrange(0, x@.len() as int) =~= x@);
    }
    let mut j: usize = 0;
    while j < y.len()
        invariant
            j <= y@.len(),
            out@ == seq![UNCOMPRESSED_TAG] + x@ + y@.subrange(0, j as int),
        decreases y@.len() - j,
    {
        out.push(y[j]);
        proof {
            assert(seq![UNCOMPRESSED_TAG] + x@ + y@.subrange(0, (j + 1) as int) =~= (seq![
                UNCOMPRESSED_TAG,
            ] + x@ + y@.subrange(0, j as int)).push(y@[j as int]));
        }
        j = j + 1;
    }
    proof {
        assert(out@ =~= spec_encode_uncompressed_point(x@, y@));
    }
    out
}

/// A point encoding whose first byte is not the uncompressed tag is rejected
/// with an encoding error, regardless of the input's length.
pub proof fn lemma_decode_bad_tag_rejected(input: Seq<u8>, elem_len: nat)
    requires
        input.len() > 0,
        input[0] != UNCOMPRESSED_TAG,
    ensures
        spec_decode_uncompressed_point(input, elem_len) == Err::<(Seq<u8>, Seq<u8>), _>(
            DecodeError::InvalidEncoding,
        ),
{
}

/// A point encoding that opens with the uncompressed tag (or is empty) but
/// does not have exactly `1 + 2 * elem_len` bytes is rejected with a length
/// error.
pub proof fn lemma_decode_wrong_length_rejected(input: Seq<u8>, elem_len: nat)
    requires
        input.len() != 1 + 2 * elem_len,
        input.len() > 0 ==> input[0] == UNCOMPRESSED_TAG,
    ensures
        spec_decode_uncompressed_point(input, elem_len) == Err::<(Seq<u8>, Seq<u8>), _>(
            DecodeError::InvalidLength,
        ),
{
}

/// Round trip: encoding a coordinate pair of the right width and decoding it
/// back yields the original coordinates unchanged.
pub proof fn lemma_point_round_trip(x: Seq<u8>, y: Seq<u8>, elem_len: nat)
    requires
        x.len() == elem_len,
        y.len() == elem_len,
    ensures
        spec_decode_uncompressed_point(spec_encode_uncompressed_point(x, y), elem_len) == Ok::<
            _,
            DecodeError,
        >((x, y)),
{
    let e = spec_encode_uncompressed_point(x, y);
    assert(e.subrange(1, 1 + elem_len as int) =~= x);
    assert(e.subrange(1 + elem_len as int, 1 + 2 * elem_len as int) =~= y);
}

} // verus!
