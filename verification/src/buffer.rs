//! The reusable block buffer that travels through the pipeline.

use vstd::prelude::*;

verus! {

/// A fixed-capacity block of bytes together with the number of bytes that the
/// last read put into it.
///
/// A buffer is moved from owner to owner and never shared: whoever holds the
/// value is the only one who can touch its storage.
#[derive(Debug)]
pub struct Buf {
    /// How many leading bytes of `data` are valid.
    pub length: usize,
    /// The storage; its length is the buffer's capacity.
    pub data: Vec<u8>,
}

impl View for Buf {
    type V = Seq<u8>;

    /// The valid bytes.
    open spec fn view(&self) -> Seq<u8> {
        self.data@.take(self.length as int)
    }
}

impl Buf {
    /// The valid length never exceeds the capacity.
    pub open spec fn wf(&self) -> bool {
        self.length <= self.data.len()
    }

    /// A buffer as it is at pipeline start: `capacity` zero bytes of storage,
    /// none of them valid.
    pub open spec fn is_fresh(&self, capacity: usize) -> bool {
        &&& self.length == 0
        &&& self.data@ == Seq::new(capacity as nat, |i: int| 0u8)
    }

    /// Allocates a buffer of `capacity` bytes that holds no valid data yet.
    pub fn new(capacity: usize) -> (buf: Buf)
        ensures
            buf.is_fresh(capacity),
            buf.wf(),
    {
        let buf = Buf { length: 0, data: vec![0u8; capacity] };
        assert(buf.data@ =~= Seq::new(capacity as nat, |i: int| 0u8));
        buf
    }

    /// The size of the storage.
    pub fn capacity(&self) -> (n: usize)
        ensures
            n == self.data.len(),
    {
        self.data.len()
    }

    /// The valid bytes, borrowed.
    pub fn as_slice(&self) -> (ret: &[u8])
        requires
            self.wf(),
        ensures
            ret@ == self@,
    {
        let (ret, _) = self.data.as_slice().split_at(self.length);
        ret
    }

    /// Whether two buffers hold the same block: the same number of valid
    /// bytes, and the same bytes. Storage past the valid length is ignored.
    pub fn content_eq(&self, other: &Buf) -> (same: bool)
        requires
            self.wf(),
            other.wf(),
        ensures
            same == (self@ == other@),
    {
        if self.length != other.length {
            assert(self@.len() != other@.len());
            return false;
        }
        let mut i: usize = 0;
        while i < self.length
            invariant
                i <= self.length,
                self.length == other.length,
                self.wf(),
                other.wf(),
                forall|j: int| 0 <= j < i ==> self.data@[j] == other.data@[j],
            decreases self.length - i,
        {
            if self.data[i] != other.data[i] {
                assert(self@[i as int] != other@[i as int]);
                return false;
            }
            i += 1;
        }
        assert(self@ =~= other@);
        true
    }
}

} // verus!
