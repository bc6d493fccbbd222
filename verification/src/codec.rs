use vstd::prelude::*;
use crate::cursor::SaveCursor;
use crate::error::{DecodeError, EncodeError};

verus! {

/// What every record of a save file can do: read itself from a cursor and
/// append its bytes to a buffer.
///
/// An implementor fixes, as two spec functions over its view, what its
/// decoder makes of a run of bytes and what its encoder writes; the two
/// executable methods are held to them.
pub trait SaveData: Sized + View {
    /// The value that the decoder reads from the front of `input` and the
    /// number of bytes that it takes, or the error with which it refuses.
    spec fn spec_deserialize(input: Seq<u8>) -> Result<(Self::V, nat), DecodeError>;

    /// The bytes that the encoder writes for `value`, or the error with which
    /// it refuses.
    spec fn spec_serialize(value: Self::V) -> Result<Seq<u8>, EncodeError>;

    /// Reads one value from the bytes that `cursor` has left. The buffer is
    /// never changed; on success the cursor has moved past the value's bytes.
    fn deserialize(cursor: &mut SaveCursor) -> (r: Result<Self, DecodeError>)
        ensures
            final(cursor).buffer() == old(cursor).buffer(),
            match Self::spec_deserialize(old(cursor).remaining()) {
                Ok((value, n)) => {
                    &&& r matches Ok(v)
                    &&& v@ == value
                    &&& final(cursor).consumed() == old(cursor).consumed() + n
                    &&& final(cursor).remaining() == old(cursor).remaining().skip(n as int)
                },
                Err(e) => r matches Err(err) && err == e,
            },
    ;

    /// Appends the value's bytes to `output`. On failure what `output` held
    /// is still its front.
    fn serialize(&self, output: &mut Vec<u8>) -> (r: Result<(), EncodeError>)
        ensures
            match Self::spec_serialize(self@) {
                Ok(bytes) => r is Ok && final(output)@ == old(output)@ + bytes,
                Err(e) => {
                    &&& r matches Err(err)
                    &&& err == e
                    &&& old(output)@.is_prefix_of(final(output)@)
                },
            },
    ;
}

/// The number that four bytes stand for, least significant byte first.
pub open spec fn spec_u32_from_le(bytes: Seq<u8>) -> u32
    recommends
        bytes.len() == 4,
{
    (bytes[0] as int + 0x100 * bytes[1] as int + 0x1_0000 * bytes[2] as int + 0x100_0000
        * bytes[3] as int) as u32
}

/// The four bytes of a number, least significant byte first.
pub open spec fn spec_u32_to_le(value: u32) -> Seq<u8> {
    seq![
        (value % 0x100) as u8,
        (value / 0x100 % 0x100) as u8,
        (value / 0x1_0000 % 0x100) as u8,
        (value / 0x100_0000) as u8,
    ]
}

/// Reading back the four bytes of a number gives the number.
pub proof fn lemma_u32_le_round_trip(value: u32)
    ensures
        spec_u32_to_le(value).len() == 4,
        spec_u32_from_le(spec_u32_to_le(value)) == value,
{
    let v = value as int;
    assert(v == v % 0x100 + 0x100 * (v / 0x100 % 0x100) + 0x1_0000 * (v / 0x1_0000 % 0x100)
        + 0x100_0000 * (v / 0x100_0000)) by {
        assert(v == 0x100 * (v / 0x100) + v % 0x100);
        assert(v / 0x100 == 0x100 * (v / 0x100 / 0x100) + v / 0x100 % 0x100);
        assert(v / 0x100 / 0x100 == v / 0x1_0000) by (nonlinear_arith)
            requires
                v >= 0,
        ;
        assert(v / 0x1_0000 == 0x100 * (v / 0x1_0000 / 0x100) + v / 0x1_0000 % 0x100);
        assert(v / 0x1_0000 / 0x100 == v / 0x100_0000) by (nonlinear_arith)
            requires
                v >= 0,
        ;
    }
}

/// Four bytes are the bytes of the number that they stand for.
pub proof fn lemma_u32_le_bytes_round_trip(bytes: Seq<u8>)
    requires
        bytes.len() == 4,
    ensures
        spec_u32_to_le(spec_u32_from_le(bytes)) == bytes,
{
    let b0 = bytes[0] as int;
    let b1 = bytes[1] as int;
    let b2 = bytes[2] as int;
    let b3 = bytes[3] as int;
    let v = b0 + 0x100 * b1 + 0x1_0000 * b2 + 0x100_0000 * b3;
    assert(spec_u32_from_le(bytes) == v);
    assert(v % 0x100 == b0 && v / 0x100 == b1 + 0x100 * b2 + 0x1_0000 * b3) by (nonlinear_arith)
        requires
            v == b0 + 0x100 * (b1 + 0x100 * b2 + 0x1_0000 * b3),
            0 <= b0 < 0x100,
    ;
    let w = b1 + 0x100 * b2 + 0x1_0000 * b3;
    assert(w % 0x100 == b1 && w / 0x100 == b2 + 0x100 * b3) by (nonlinear_arith)
        requires
            w == b1 + 0x100 * (b2 + 0x100 * b3),
            0 <= b1 < 0x100,
    ;
    let x = b2 + 0x100 * b3;
    assert(x % 0x100 == b2 && x / 0x100 == b3) by (nonlinear_arith)
        requires
            x == b2 + 0x100 * b3,
            0 <= b2 < 0x100,
    ;
    assert(v / 0x1_0000 == x) by (nonlinear_arith)
        requires
            v / 0x100 == w,
            w / 0x100 == x,
            v >= 0,
    ;
    assert(v / 0x100_0000 == b3) by (nonlinear_arith)
        requires
            v / 0x1_0000 == x,
            x / 0x100 == b3,
            v >= 0,
    ;
    assert(spec_u32_to_le(spec_u32_from_le(bytes)) =~= bytes);
}

impl SaveData for u32 {
    open spec fn spec_deserialize(input: Seq<u8>) -> Result<(u32, nat), DecodeError> {
        if input.len() < 4 {
            Err(DecodeError::TruncatedInput)
        } else {
            Ok((spec_u32_from_le(input.take(4)), 4))
        }
    }

    open spec fn spec_serialize(value: u32) -> Result<Seq<u8>, EncodeError> {
        Ok(spec_u32_to_le(value))
    }

    /// A failed read leaves the cursor where it was.
    fn deserialize(cursor: &mut SaveCursor) -> (r: Result<u32, DecodeError>)
        ensures
            r is Err ==> final(cursor).consumed() == old(cursor).consumed(),
    {
        let bytes = cursor.read(4)?;
        let b0: u32 = bytes[0] as u32;
        let b1: u32 = bytes[1] as u32;
        let b2: u32 = bytes[2] as u32;
        let b3: u32 = bytes[3] as u32;
        let value: u32 = b0 + 0x100 * b1 + 0x1_0000 * b2 + 0x100_0000 * b3;
        Ok(value)
    }

    fn serialize(&self, output: &mut Vec<u8>) -> (r: Result<(), EncodeError>) {
        let value: u32 = *self;
        output.push((value % 0x100) as u8);
        output.push((value / 0x100 % 0x100) as u8);
        output.push((value / 0x1_0000 % 0x100) as u8);
        output.push((value / 0x100_0000) as u8);
        assert(output@ =~= old(output)@ + spec_u32_to_le(value));
        Ok(())
    }
}

} // verus!
