use vstd::prelude::*;
use crate::error::Error;
use crate::stream::{looped_offset, looped_read, read_looped};

verus! {

/// Deterministic stub source: a replayable in-memory byte stream with a
/// persistent cursor that wraps to the start on end-of-stream.
pub struct MockRng {
    data: Vec<u8>,
    offset: u64,
}

impl MockRng {
    /// The backing stream never runs dry and the cursor stays inside it.
    pub closed spec fn wf(&self) -> bool {
        &&& self.data@.len() > 0
        &&& (self.offset as int) < self.data@.len()
    }

    /// The bytes the stream repeats forever.
    pub closed spec fn stream(&self) -> Seq<u8> {
        self.data@
    }

    /// The persistent read cursor.
    pub closed spec fn cursor(&self) -> int {
        self.offset as int
    }

    pub fn new(data: Vec<u8>) -> (rng: MockRng)
        requires
            data@.len() > 0,
        ensures
            rng.wf(),
            rng.stream() == data@,
            rng.cursor() == 0,
    {
        MockRng { data, offset: 0 }
    }

    /// Read exactly `num_bytes`, wrapping to the start of the stream on
    /// end-of-stream; the cursor advances accordingly. Never fails.
    pub fn read_bytes(&mut self, num_bytes: usize) -> (r: Result<Vec<u8>, Error>)
        requires
            old(self).wf(),
        ensures
            final(self).wf(),
            final(self).stream() == old(self).stream(),
            r matches Ok(bytes) && bytes@ == looped_read(
                old(self).stream(),
                old(self).cursor(),
                num_bytes as nat,
            ),
            final(self).cursor() == looped_offset(
                old(self).stream(),
                old(self).cursor(),
                num_bytes as nat,
            ),
    {
        let len = self.data.len();
        let pos = self.offset as usize;
        proof {
            assert(pos < len);
        }
        let (bytes, new_pos) = read_looped(&self.data, pos, num_bytes);
        self.offset = new_pos as u64;
        Ok(bytes)
    }
}

} // verus!
