use vstd::prelude::*;
use vstd::slice::slice_subrange;
use crate::error::DecodeError;

verus! {

/// A sequential reader over a byte buffer that it owns and never changes.
pub struct SaveCursor {
    bytes: Vec<u8>,
    position: usize,
}

impl SaveCursor {
    #[verifier::type_invariant]
    spec fn in_bounds(self) -> bool {
        self.position <= self.bytes.len()
    }

    /// The whole buffer, read or not.
    pub closed spec fn buffer(&self) -> Seq<u8> {
        self.bytes@
    }

    /// How many bytes have been read so far.
    pub closed spec fn consumed(&self) -> nat {
        self.position as nat
    }

    /// The bytes that have not been read yet.
    pub open spec fn remaining(&self) -> Seq<u8> {
        self.buffer().skip(self.consumed() as int)
    }

    pub fn new(bytes: Vec<u8>) -> (cursor: SaveCursor)
        ensures
            cursor.buffer() == bytes@,
            cursor.consumed() == 0,
            cursor.remaining() == bytes@,
    {
        let cursor = SaveCursor { bytes, position: 0 };
        assert(cursor.buffer().skip(0) =~= cursor.buffer());
        cursor
    }

    /// Hands out the next `n` bytes, or fails and leaves the cursor as it was
    /// when fewer than `n` are left.
    pub fn read(&mut self, n: usize) -> (r: Result<&[u8], DecodeError>)
        ensures
            final(self).buffer() == old(self).buffer(),
            match r {
                Ok(bytes) => {
                    &&& n <= old(self).remaining().len()
                    &&& bytes@ == old(self).remaining().take(n as int)
                    &&& final(self).consumed() == old(self).consumed() + n
                    &&& final(self).remaining() == old(self).remaining().skip(n as int)
                },
                Err(e) => {
                    &&& n > old(self).remaining().len()
                    &&& e == DecodeError::TruncatedInput
                    &&& final(self).consumed() == old(self).consumed()
                },
            },
    {
        proof {
            use_type_invariant(&*self);
        }
        if n > self.bytes.len() - self.position {
            return Err(DecodeError::TruncatedInput);
        }
        let start = self.position;
        self.position = start + n;
        let out = slice_subrange(self.bytes.as_slice(), start, start + n);
        assert(out@ =~= old(self).remaining().take(n as int));
        assert(self.remaining() =~= old(self).remaining().skip(n as int));
        Ok(out)
    }

    /// Hands out every byte that is left; the cursor then stands at the end
    /// of its buffer.
    pub fn read_to_end(&mut self) -> (bytes: &[u8])
        ensures
            final(self).buffer() == old(self).buffer(),
            bytes@ == old(self).remaining(),
            final(self).consumed() == old(self).consumed() + old(self).remaining().len(),
            final(self).consumed() == old(self).buffer().len(),
            final(self).remaining() == Seq::<u8>::empty(),
    {
        proof {
            use_type_invariant(&*self);
        }
        let start = self.position;
        let end = self.bytes.len();
        self.position = end;
        let out = slice_subrange(self.bytes.as_slice(), start, end);
        assert(out@ =~= old(self).remaining());
        assert(self.remaining() =~= Seq::<u8>::empty());
        out
    }
}

} // verus!
