//! In-memory byte sink. Every encoder in this crate appends to a [`Buffer`]
//! and reports exactly how many bytes landed, so that byte offsets recorded
//! elsewhere stay in step with the produced output.
use vstd::prelude::*;

verus! {

/// Growable byte sink that every encoder in this crate appends to.
///
/// The buffer is append-only: no operation ever removes or rewrites bytes
/// that already landed.
pub struct Buffer {
    data: Vec<u8>,
}

impl Buffer {
    /// The bytes accumulated so far.
    pub closed spec fn view(&self) -> Seq<u8> {
        self.data@
    }

    /// Create an empty buffer.
    pub fn new() -> (r: Buffer)
        ensures
            r@ == Seq::<u8>::empty(),
    {
        Buffer { data: Vec::new() }
    }

    /// Number of bytes accumulated so far.
    pub fn len(&self) -> (n: usize)
        ensures
            n == self@.len(),
    {
        self.data.len()
    }

    /// Read access to the accumulated bytes.
    pub fn as_slice(&self) -> (r: &[u8])
        ensures
            r@ == self@,
    {
        self.data.as_slice()
    }

    /// Append `bytes` to the buffer and report how many bytes landed.
    pub fn write_slice(&mut self, bytes: &[u8]) -> (n: usize)
        ensures
            final(self)@ == old(self)@ + bytes@,
            n == bytes@.len(),
            final(self)@.len() <= usize::MAX,
    {
        let mut i: usize = 0;
        while i < bytes.len()
            invariant
                i <= bytes@.len(),
                self@ == old(self)@ + bytes@.subrange(0, i as int),
            decreases bytes@.len() - i,
        {
            self.data.push(bytes[i]);
            i = i + 1;
            proof {
                assert(self@ =~= old(self)@ + bytes@.subrange(0, i as int));
            }
        }
        proof {
            assert(bytes@.subrange(0, bytes@.len() as int) =~= bytes@);
            vstd::std_specs::vec::axiom_spec_len(&self.data);
        }
        bytes.len()
    }

    /// The accumulated bytes always fit the machine's address space.
    pub proof fn lemma_len_bound(&self)
        ensures
            self@.len() <= usize::MAX,
    {
        vstd::std_specs::vec::axiom_spec_len(&self.data);
    }

    /// Append the whole contents of `bytes` and report how many bytes landed.
    pub fn write_vec(&mut self, bytes: &Vec<u8>) -> (n: usize)
        ensures
            final(self)@ == old(self)@ + bytes@,
            n == bytes@.len(),
            final(self)@.len() <= usize::MAX,
    {
        self.write_slice(bytes.as_slice())
    }
}

} // verus!
