use vstd::prelude::*;

verus! {

/// A pull-based byte source: each pull yields the next byte, or nothing once the
/// source is exhausted.
pub trait ByteSource {
    /// The bytes that the source has yet to yield, in order.
    spec fn rest(&self) -> Seq<u8>;

    fn pull(&mut self) -> (r: Option<u8>)
        ensures
            old(self).rest().len() == 0 ==> r is None && final(self).rest() == old(self).rest(),
            old(self).rest().len() > 0 ==> r == Some(old(self).rest()[0]) && final(self).rest()
                == old(self).rest().drop_first(),
    ;
}

/// A byte source over bytes held in memory.
pub struct ByteStream {
    data: Vec<u8>,
    at: usize,
}

impl ByteStream {
    pub fn new(data: Vec<u8>) -> (r: ByteStream)
        ensures
            r.rest() == data@,
    {
        let r = ByteStream { data, at: 0 };
        assert(r.data@.subrange(0, r.data@.len() as int) =~= r.data@);
        r
    }
}

impl ByteSource for ByteStream {
    closed spec fn rest(&self) -> Seq<u8> {
        if self.at <= self.data@.len() {
            self.data@.subrange(self.at as int, self.data@.len() as int)
        } else {
            Seq::empty()
        }
    }

    fn pull(&mut self) -> (r: Option<u8>) {
        if self.at < self.data.len() {
            let b = self.data[self.at];
            self.at = self.at + 1;
            proof {
                assert(final(self).rest() =~= old(self).rest().drop_first());
            }
            Some(b)
        } else {
            None
        }
    }
}

} // verus!
