use vstd::prelude::*;
use vstd::array::array_fill_for_copy_types;
use vstd::slice::slice_to_vec;
use crate::codec::SaveData;
use crate::cursor::SaveCursor;
use crate::error::{DecodeError, EncodeError};

verus! {

/// `LEN` bytes whose meaning is unknown: kept as they were read and written
/// back unchanged.
#[derive(Clone, Copy, Debug)]
pub struct Dummy<const LEN: usize>(pub [u8; LEN]);

impl<const LEN: usize> View for Dummy<LEN> {
    type V = Seq<u8>;

    open spec fn view(&self) -> Seq<u8> {
        self.0@
    }
}

impl<const LEN: usize> Dummy<LEN> {
    /// The bytes, in the order in which they were read.
    pub fn as_bytes(&self) -> (bytes: &[u8])
        ensures
            bytes@ == self@,
            bytes@.len() == LEN,
    {
        self.0.as_slice()
    }
}

impl<const LEN: usize> SaveData for Dummy<LEN> {
    open spec fn spec_deserialize(input: Seq<u8>) -> Result<(Seq<u8>, nat), DecodeError> {
        if input.len() < LEN {
            Err(DecodeError::TruncatedInput)
        } else {
            Ok((input.take(LEN as int), LEN as nat))
        }
    }

    open spec fn spec_serialize(value: Seq<u8>) -> Result<Seq<u8>, EncodeError> {
        Ok(value)
    }

    /// A failed read leaves the cursor where it was.
    fn deserialize(cursor: &mut SaveCursor) -> (r: Result<Self, DecodeError>)
        ensures
            r is Err ==> final(cursor).consumed() == old(cursor).consumed(),
    {
        let bytes = cursor.read(LEN)?;
        let mut span: [u8; LEN] = array_fill_for_copy_types(0u8);
        let mut i: usize = 0;
        while i < LEN
            invariant
                i <= LEN,
                bytes@.len() == LEN,
                span@.len() == LEN,
                forall|k: int| 0 <= k < i ==> span@[k] == bytes@[k],
            decreases LEN - i,
        {
            span[i] = bytes[i];
            i += 1;
        }
        assert(span@ =~= bytes@);
        Ok(Dummy(span))
    }

    fn serialize(&self, output: &mut Vec<u8>) -> (r: Result<(), EncodeError>) {
        let mut i: usize = 0;
        while i < LEN
            invariant
                i <= LEN,
                self.0@.len() == LEN,
                output@ == old(output)@ + self.0@.take(i as int),
            decreases LEN - i,
        {
            output.push(self.0[i]);
            assert(self.0@.take(i + 1) =~= self.0@.take(i as int).push(self.0@[i as int]));
            i += 1;
        }
        assert(self.0@.take(LEN as int) =~= self.0@);
        Ok(())
    }
}

/// The body of the optional world record: every byte of its archive entry,
/// uninterpreted.
#[derive(Clone, Debug)]
pub struct WorldSavePackage {
    data: Vec<u8>,
}

impl View for WorldSavePackage {
    type V = Seq<u8>;

    closed spec fn view(&self) -> Seq<u8> {
        self.data@
    }
}

impl WorldSavePackage {
    /// The bytes of the record.
    pub fn as_bytes(&self) -> (bytes: &[u8])
        ensures
            bytes@ == self@,
    {
        self.data.as_slice()
    }
}

impl SaveData for WorldSavePackage {
    open spec fn spec_deserialize(input: Seq<u8>) -> Result<(Seq<u8>, nat), DecodeError> {
        Ok((input, input.len()))
    }

    open spec fn spec_serialize(value: Seq<u8>) -> Result<Seq<u8>, EncodeError> {
        Ok(value)
    }

    fn deserialize(cursor: &mut SaveCursor) -> (r: Result<Self, DecodeError>) {
        let data = slice_to_vec(cursor.read_to_end());
        proof {
            let rest = old(cursor).remaining();
            assert(rest.skip(rest.len() as int) =~= Seq::<u8>::empty());
        }
        Ok(WorldSavePackage { data })
    }

    fn serialize(&self, output: &mut Vec<u8>) -> (r: Result<(), EncodeError>) {
        output.extend_from_slice(self.data.as_slice());
        Ok(())
    }
}

} // verus!
