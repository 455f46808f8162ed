use vstd::prelude::*;
use crate::error::Error;
use crate::mock_rng::MockRng;
use crate::stream::looped_read;

verus! {

/// Position-wise XOR of two equally long byte sequences.
pub open spec fn xor_bytes(a: Seq<u8>, b: Seq<u8>) -> Seq<u8> {
    Seq::new(a.len(), |i: int| a[i] ^ b[i])
}

/// What one combined read of `n` bytes yields from two replayable streams:
/// the XOR of the next `n` bytes of each. A pure function of the stream
/// contents and cursors, so equal states always give equal output.
pub open spec fn two_source_read(d1: Seq<u8>, o1: int, d2: Seq<u8>, o2: int, n: nat) -> Seq<u8> {
    xor_bytes(looped_read(d1, o1, n), looped_read(d2, o2, n))
}

/// Determinism of the combination: two combined reads over equal stream
/// states and equal requests yield exactly the same output.
pub proof fn lemma_combination_deterministic(
    d1: Seq<u8>,
    o1: int,
    d2: Seq<u8>,
    o2: int,
    e1: Seq<u8>,
    p1: int,
    e2: Seq<u8>,
    p2: int,
    n: nat,
    m: nat,
)
    requires
        d1 == e1,
        o1 == p1,
        d2 == e2,
        o2 == p2,
        n == m,
    ensures
        two_source_read(d1, o1, d2, o2, n) == two_source_read(e1, p1, e2, p2, m),
{
}

/// Two deterministic replayable streams combined by XOR.
pub struct TwoSourceRng {
    src1: MockRng,
    src2: MockRng,
}

impl TwoSourceRng {
    pub closed spec fn wf(&self) -> bool {
        &&& self.src1.wf()
        &&& self.src2.wf()
    }

    pub closed spec fn first(&self) -> MockRng {
        self.src1
    }

    pub closed spec fn second(&self) -> MockRng {
        self.src2
    }

    pub fn new(data1: Vec<u8>, data2: Vec<u8>) -> (rng: TwoSourceRng)
        requires
            data1@.len() > 0,
            data2@.len() > 0,
        ensures
            rng.wf(),
            rng.first().stream() == data1@,
            rng.first().cursor() == 0,
            rng.second().stream() == data2@,
            rng.second().cursor() == 0,
    {
        TwoSourceRng { src1: MockRng::new(data1), src2: MockRng::new(data2) }
    }

    /// Read `num_bytes` from both streams and XOR them position by
    /// position. Both cursors advance; the output is a pure function of
    /// the stream states, so repeating a call on equal states repeats the
    /// output.
    pub fn read_bytes(&mut self, num_bytes: usize) -> (r: Result<Vec<u8>, Error>)
        requires
            old(self).wf(),
        ensures
            final(self).wf(),
            r matches Ok(v) && v@ == two_source_read(
                old(self).first().stream(),
                old(self).first().cursor(),
                old(self).second().stream(),
                old(self).second().cursor(),
                num_bytes as nat,
            ),
            final(self).first().stream() == old(self).first().stream(),
            final(self).second().stream() == old(self).second().stream(),
            final(self).first().cursor() == crate::stream::looped_offset(
                old(self).first().stream(),
                old(self).first().cursor(),
                num_bytes as nat,
            ),
            final(self).second().cursor() == crate::stream::looped_offset(
                old(self).second().stream(),
                old(self).second().cursor(),
                num_bytes as nat,
            ),
    {
        let buf1 = match self.src1.read_bytes(num_bytes) {
            Ok(b) => b,
            Err(e) => {
                return Err(e);
            },
        };
        let buf2 = match self.src2.read_bytes(num_bytes) {
            Ok(b) => b,
            Err(e) => {
                return Err(e);
            },
        };
        let mut out: Vec<u8> = Vec::with_capacity(num_bytes);
        let mut i: usize = 0;
        while i < num_bytes
            invariant
                i <= num_bytes,
                buf1@.len() == num_bytes,
                buf2@.len() == num_bytes,
                out@ == xor_bytes(buf1@, buf2@).take(i as int),
            decreases num_bytes - i,
        {
            out.push(buf1[i] ^ buf2[i]);
            proof {
                assert(out@ =~= xor_bytes(buf1@, buf2@).take(i + 1));
            }
            i = i + 1;
        }
        proof {
            assert(out@ =~= xor_bytes(buf1@, buf2@));
        }
        Ok(out)
    }
}

} // verus!
