//! A fixed-capacity circular buffer: pushing overwrites the oldest entry and
//! hands it back.
use vstd::prelude::*;

verus! {

/// A ring over a fixed-length backing vector; `pos` is the oldest entry,
/// which the next push replaces.
#[derive(Clone)]
pub struct CBuf<T> {
    buf: Vec<T>,
    pos: usize,
}

impl<T> CBuf<T> {
    pub closed spec fn spec_buf(&self) -> Seq<T> {
        self.buf@
    }

    pub closed spec fn spec_pos(&self) -> int {
        self.pos as int
    }

    pub open spec fn wf(&self) -> bool {
        &&& self.spec_buf().len() > 0
        &&& 0 <= self.spec_pos() < self.spec_buf().len()
    }

    /// The entry `index` steps past the oldest one.
    pub open spec fn spec_index(&self, index: int) -> T
        recommends
            self.wf(),
            0 <= index < self.spec_buf().len(),
    {
        self.spec_buf()[(self.spec_pos() + index) % (self.spec_buf().len() as int)]
    }

    /// Wrap a non-empty vector; its order is kept, the first entry oldest.
    pub fn from_vec(buf: Vec<T>) -> (r: CBuf<T>)
        requires
            buf@.len() > 0,
        ensures
            r.spec_buf() == buf@,
            r.spec_pos() == 0,
            r.wf(),
    {
        CBuf { buf, pos: 0 }
    }

    /// Replace the oldest entry with `val`, handing the oldest back; the
    /// ring advances one step.
    pub fn push(&mut self, val: T) -> (old_val: T)
        requires
            old(self).wf(),
        ensures
            old_val == old(self).spec_buf()[old(self).spec_pos()],
            final(self).spec_buf() == old(self).spec_buf().update(old(self).spec_pos(), val),
            final(self).spec_pos() == (old(self).spec_pos() + 1) % (
            old(self).spec_buf().len() as int),
            final(self).wf(),
    {
        let len = self.buf.len();
        self.buf.insert(self.pos, val);
        let old_val = self.buf.remove(self.pos + 1);
        proof {
            assert(self.buf@ =~= old(self).spec_buf().update(old(self).spec_pos(), val));
        }
        self.pos = (self.pos + 1) % len;
        old_val
    }

    /// How many entries the ring holds.
    pub fn len(&self) -> (r: usize)
        ensures
            r == self.spec_buf().len(),
    {
        self.buf.len()
    }

    /// The entry `index` steps past the oldest one.
    pub fn get(&self, index: usize) -> (r: &T)
        requires
            self.wf(),
            index < self.spec_buf().len(),
        ensures
            *r == self.spec_index(index as int),
    {
        let len = self.buf.len();
        let i = if index < len - self.pos {
            self.pos + index
        } else {
            index - (len - self.pos)
        };
        proof {
            let p = self.spec_pos();
            let n = self.spec_buf().len() as int;
            if index < n - p {
                assert((p + index) % n == p + index) by (nonlinear_arith)
                    requires
                        0 <= p + index < n,
                ;
            } else {
                assert((p + index) % n == p + index - n) by (nonlinear_arith)
                    requires
                        n <= p + index < 2 * n,
                        n > 0,
                ;
            }
        }
        &self.buf[i]
    }
}

} // verus!
