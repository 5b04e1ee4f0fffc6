//! Bounded vectored I/O: a list of byte buffers that can be split at an
//! arbitrary byte boundary, so that only the prefix summing to at most a
//! file slice's length is handed to a write, while the remainder is kept
//! for the next file.
//!
//! The split has three shapes: the bound falls at or beyond the end of
//! the buffers (nothing to split), exactly on a buffer boundary (the
//! buffer list is split in two), or inside one buffer (that buffer itself
//! is cut in two). After a partial transfer the cursor can be advanced,
//! which consumes whole buffers and trims the first remaining one; the
//! tail is never touched by an advance.

use crate::byteseq::copy_range;
use vstd::prelude::*;

verus! {

/// One I/O buffer: an owned contiguous byte vector.
#[derive(Debug)]
pub struct IoVec(Vec<u8>);

impl View for IoVec {
    type V = Seq<u8>;

    closed spec fn view(&self) -> Seq<u8> {
        self.0@
    }
}

impl IoVec {
    /// Creates a buffer holding a copy of the given bytes.
    pub fn from_slice(value: &[u8]) -> (r: IoVec)
        ensures
            r@ == value@,
    {
        let mut v: Vec<u8> = Vec::new();
        crate::byteseq::extend_bytes(&mut v, value);
        IoVec(v)
    }

    /// Creates a buffer holding a copy of the given bytes.
    pub fn from_slice_mut(value: &[u8]) -> (r: IoVec)
        ensures
            r@ == value@,
    {
        IoVec::from_slice(value)
    }

    /// Creates a buffer taking ownership of the given byte vector.
    pub fn from_vec(value: Vec<u8>) -> (r: IoVec)
        ensures
            r@ == value@,
    {
        IoVec(value)
    }

    /// An immutable borrow of the held bytes.
    pub fn as_slice(&self) -> (r: &[u8])
        ensures
            r@ == self@,
    {
        self.0.as_slice()
    }

    /// A mutable borrow of the held bytes.
    pub fn as_mut_slice(&mut self) -> (r: &mut Vec<u8>)
        ensures
            r@ == old(self)@,
            final(self)@ == final(r)@,
    {
        &mut self.0
    }

    /// Unwraps the buffer into the byte vector it holds.
    pub fn into_vec(self) -> (r: Vec<u8>)
        ensures
            r@ == self@,
    {
        self.0
    }

    /// The number of bytes held.
    pub fn len(&self) -> (r: usize)
        ensures
            r == self@.len(),
    {
        self.0.len()
    }
}

/// All bytes of a buffer list, in order.
pub open spec fn bytes_of(bufs: Seq<IoVec>) -> Seq<u8> {
    bufs.map_values(|b: IoVec| b@).flatten()
}

/// An empty buffer list holds no bytes.
pub proof fn lemma_bytes_of_empty()
    ensures
        bytes_of(Seq::<IoVec>::empty()) == Seq::<u8>::empty(),
{
    assert(Seq::<IoVec>::empty().map_values(|b: IoVec| b@) =~= Seq::<Seq<u8>>::empty());
}

/// Appending one buffer appends its bytes.
pub proof fn lemma_bytes_of_push(bufs: Seq<IoVec>, b: IoVec)
    ensures
        bytes_of(bufs.push(b)) == bytes_of(bufs) + b@,
{
    let vs = bufs.map_values(|x: IoVec| x@);
    assert(bufs.push(b).map_values(|x: IoVec| x@) =~= vs.push(b@));
    vs.lemma_flatten_push(b@);
}

/// The bytes of a nonempty buffer list start with its first buffer.
pub proof fn lemma_bytes_of_first(bufs: Seq<IoVec>)
    requires
        bufs.len() > 0,
    ensures
        bytes_of(bufs) == bufs[0]@ + bytes_of(bufs.drop_first()),
{
    let f = |b: IoVec| b@;
    let vs = bufs.map_values(f);
    assert(vs.len() > 0);
    assert(vs.first() == bufs[0]@);
    assert(vs.drop_first() =~= bufs.drop_first().map_values(f));
}

/// Putting one buffer in front prepends its bytes.
pub proof fn lemma_bytes_of_cons(b: IoVec, bufs: Seq<IoVec>)
    ensures
        bytes_of(seq![b] + bufs) == b@ + bytes_of(bufs),
{
    lemma_bytes_of_first(seq![b] + bufs);
    assert((seq![b] + bufs)[0] == b);
    assert((seq![b] + bufs).drop_first() =~= bufs);
}

/// A buffer list with at least one byte has at least one buffer.
pub proof fn lemma_bytes_of_nonempty(bufs: Seq<IoVec>)
    requires
        bytes_of(bufs).len() > 0,
    ensures
        bufs.len() > 0,
{
    if bufs.len() == 0 {
        assert(bufs =~= Seq::<IoVec>::empty());
        lemma_bytes_of_empty();
    }
}

/// The smaller of two mathematical integers.
pub open spec fn min_int(a: int, b: int) -> int {
    if a <= b {
        a
    } else {
        b
    }
}

/// A view over a list of I/O buffers, bounded by a byte limit: the
/// *first half* holds exactly the bytes up to the limit and is what a
/// bounded write may transfer; the *tail* holds every byte past the
/// limit, to be materialized for the next file.
#[derive(Debug)]
pub struct IoVecs {
    /// The buffers whose bytes fall below the byte limit.
    first: Vec<IoVec>,
    /// The buffers holding the bytes past the byte limit. When the limit
    /// fell inside one buffer, that buffer's overhanging part stands at
    /// the front of this list.
    tail: Vec<IoVec>,
    /// Whether the bound actually split the buffers.
    split: bool,
}

impl IoVecs {
    /// The bytes the bounded view exposes to a write.
    pub closed spec fn first_bytes(&self) -> Seq<u8> {
        bytes_of(self.first@)
    }

    /// The bytes past the bound, kept for the next file.
    pub closed spec fn tail_bytes(&self) -> Seq<u8> {
        bytes_of(self.tail@)
    }

    /// The number of buffers in the first half.
    pub closed spec fn first_buf_count(&self) -> nat {
        self.first@.len()
    }

    /// Whether the bound split the buffer list.
    pub closed spec fn spec_is_split(&self) -> bool {
        self.split
    }

    /// Whether the bound split the buffer list in two.
    pub fn is_split(&self) -> (r: bool)
        ensures
            r == self.spec_is_split(),
    {
        self.split
    }

    /// Bounds the buffers by `max_len` bytes, splitting the list in two
    /// if the total byte count exceeds the limit.
    ///
    /// The first half exposes the first `min(total, max_len)` bytes of
    /// the buffers and the tail holds every byte after them, so together
    /// they hold exactly the input bytes. A buffer straddling the limit
    /// is cut in two at the limit.
    pub fn bounded(bufs: Vec<IoVec>, max_len: usize) -> (r: IoVecs)
        requires
            max_len >= 1,
        ensures
            r.first_bytes() == bytes_of(bufs@).take(
                min_int(bytes_of(bufs@).len() as int, max_len as int),
            ),
            r.tail_bytes() == bytes_of(bufs@).skip(
                min_int(bytes_of(bufs@).len() as int, max_len as int),
            ),
            r.first_bytes() + r.tail_bytes() == bytes_of(bufs@),
            r.first_bytes().len() == min_int(bytes_of(bufs@).len() as int, max_len as int),
            bytes_of(bufs@).len() > max_len ==> r.spec_is_split(),
            bytes_of(bufs@).len() < max_len ==> !r.spec_is_split(),
            !r.spec_is_split() ==> r.tail_bytes() == Seq::<u8>::empty(),
    {
        let ghost orig = bufs@;
        let ghost ob = bytes_of(orig);
        let mut bufs = bufs;
        let mut first: Vec<IoVec> = Vec::new();
        let mut tail: Vec<IoVec> = Vec::new();
        let mut acc: usize = 0;
        let ghost mut k: int = 0;
        proof {
            lemma_bytes_of_empty();
            assert(orig.take(0) =~= Seq::<IoVec>::empty());
            assert(bufs@ =~= orig.skip(0));
            assert(bytes_of(first@).take(0) =~= Seq::<u8>::empty());
        }
        while bufs.len() > 0
            invariant
                max_len >= 1,
                0 <= k <= orig.len(),
                bufs@ == orig.skip(k),
                acc == bytes_of(first@).len(),
                acc == min_int(bytes_of(orig.take(k)).len() as int, max_len as int),
                bytes_of(first@) == bytes_of(orig.take(k)).take(acc as int),
                bytes_of(tail@) == bytes_of(orig.take(k)).skip(acc as int),
                tail@.len() > 0 ==> acc == max_len,
                tail@.len() == 0 ==> acc == bytes_of(orig.take(k)).len(),
            decreases bufs@.len(),
        {
            let ghost pb = bytes_of(orig.take(k));
            let b = bufs.remove(0);
            proof {
                assert(orig.skip(k)[0] == orig[k]);
                assert(orig.skip(k).remove(0) =~= orig.skip(k + 1));
                assert(orig.take(k + 1) =~= orig.take(k).push(orig[k]));
                lemma_bytes_of_push(orig.take(k), orig[k]);
            }
            let ghost pb1 = bytes_of(orig.take(k + 1));
            let ghost bview = b@;
            let blen = b.len();
            if acc == max_len {
                let ghost pre_tail = tail@;
                tail.push(b);
                proof {
                    lemma_bytes_of_push(pre_tail, b);
                    assert(bytes_of(tail@) =~= pb1.skip(acc as int));
                    assert(bytes_of(first@) =~= pb1.take(acc as int));
                }
            } else if blen <= max_len - acc {
                // the whole buffer still fits under the limit
                let ghost pre_first = first@;
                first.push(b);
                proof {
                    lemma_bytes_of_push(pre_first, b);
                    assert(bytes_of(tail@) =~= Seq::<u8>::empty());
                }
                acc = acc + blen;
                proof {
                    assert(bytes_of(first@) =~= pb1.take(acc as int));
                    assert(bytes_of(tail@) =~= pb1.skip(acc as int));
                }
            } else {
                // the limit falls inside this buffer: cut it in two
                let cut = max_len - acc;
                let bv = b.into_vec();
                let head = IoVec::from_vec(copy_range(&bv, 0, cut));
                let rest = IoVec::from_vec(copy_range(&bv, cut, blen - cut));
                let ghost pre_first = first@;
                first.push(head);
                let ghost pre_tail = tail@;
                tail.push(rest);
                acc = max_len;
                proof {
                    lemma_bytes_of_push(pre_first, head);
                    lemma_bytes_of_push(pre_tail, rest);
                    assert(bytes_of(pre_tail) =~= Seq::<u8>::empty());
                    assert(bytes_of(first@) =~= pb1.take(acc as int));
                    assert(bytes_of(tail@) =~= pb1.skip(acc as int));
                }
            }
            proof {
                k = k + 1;
            }
        }
        proof {
            assert(orig.take(k) =~= orig);
        }
        let split = tail.len() > 0;
        let r = IoVecs { first, tail, split };
        proof {
            assert(r.first_bytes() + r.tail_bytes() =~= ob);
            if ob.len() > max_len {
                assert(r.tail_bytes().len() > 0);
            }
        }
        r
    }

    /// Wraps the buffers without any bound: the first half is the whole
    /// list and the tail is empty.
    pub fn unbounded(bufs: Vec<IoVec>) -> (r: IoVecs)
        ensures
            r.first_bytes() == bytes_of(bufs@),
            r.tail_bytes() == Seq::<u8>::empty(),
            !r.spec_is_split(),
            r.first_buf_count() == bufs@.len(),
    {
        proof {
            lemma_bytes_of_empty();
        }
        IoVecs { first: bufs, tail: Vec::new(), split: false }
    }

    /// Splits the buffers at a buffer boundary: buffers up to and
    /// including `pos` form the first half, the rest the tail.
    pub fn split_at_buffer_boundary(bufs: Vec<IoVec>, pos: usize) -> (r: IoVecs)
        requires
            pos < bufs@.len(),
        ensures
            r.first_bytes() == bytes_of(bufs@.take(pos + 1)),
            r.tail_bytes() == bytes_of(bufs@.skip(pos + 1)),
            r.spec_is_split(),
    {
        let ghost orig = bufs@;
        let n = bufs.len();
        let end = pos + 1;
        let mut bufs = bufs;
        let mut first: Vec<IoVec> = Vec::new();
        let mut i: usize = 0;
        proof {
            assert(first@ =~= orig.take(0));
            assert(bufs@ =~= orig.skip(0));
        }
        while i < end
            invariant
                pos < orig.len(),
                end == pos + 1,
                i <= pos + 1,
                bufs@ == orig.skip(i as int),
                first@ == orig.take(i as int),
            decreases pos + 1 - i,
        {
            let b = bufs.remove(0);
            first.push(b);
            proof {
                assert(orig.skip(i as int).remove(0) =~= orig.skip(i + 1));
                assert(orig.take(i as int).push(orig.skip(i as int)[0]) =~= orig.take(i + 1));
            }
            i = i + 1;
        }
        IoVecs { first, tail: bufs, split: true }
    }

    /// An immutable borrow of the first half of the split.
    pub fn as_slice(&self) -> (r: &Vec<IoVec>)
        ensures
            r@.len() == self.first_buf_count(),
            bytes_of(r@) == self.first_bytes(),
    {
        &self.first
    }

    /// The bytes of the first half, flattened into one vector.
    pub fn as_u8_vec(&self) -> (r: Vec<u8>)
        ensures
            r@ == self.first_bytes(),
    {
        let mut r: Vec<u8> = Vec::new();
        let n = self.first.len();
        let mut i: usize = 0;
        proof {
            lemma_bytes_of_empty();
            assert(self.first@.take(0) =~= Seq::<IoVec>::empty());
        }
        while i < n
            invariant
                n == self.first@.len(),
                i <= n,
                r@ == bytes_of(self.first@.take(i as int)),
            decreases n - i,
        {
            let b = &self.first[i];
            crate::byteseq::extend_bytes(&mut r, b.as_slice());
            proof {
                assert(self.first@.take(i + 1) =~= self.first@.take(i as int).push(
                    self.first@[i as int],
                ));
                lemma_bytes_of_push(self.first@.take(i as int), self.first@[i as int]);
            }
            i = i + 1;
        }
        proof {
            assert(self.first@.take(n as int) =~= self.first@);
        }
        r
    }

    /// Advances the cursor of the first half by `n` bytes: whole buffers
    /// are consumed and the first remaining buffer is trimmed at its
    /// front. The tail is untouched. Advancing past the first half is
    /// excluded by the precondition.
    pub fn advance(&mut self, n: usize)
        requires
            n <= old(self).first_bytes().len(),
        ensures
            final(self).first_bytes() == old(self).first_bytes().skip(n as int),
            final(self).tail_bytes() == old(self).tail_bytes(),
            final(self).spec_is_split() == old(self).spec_is_split(),
    {
        let mut remaining = n;
        proof {
            assert(bytes_of(self.first@).skip(n as int) =~= old(self).first_bytes().skip(n as int));
        }
        while self.first.len() > 0 && self.first[0].len() <= remaining
            invariant
                remaining <= bytes_of(self.first@).len(),
                bytes_of(self.first@).skip(remaining as int) == old(self).first_bytes().skip(
                    n as int,
                ),
                self.tail == old(self).tail,
                self.split == old(self).split,
            decreases self.first@.len(),
        {
            let ghost pre = self.first@;
            let b = self.first.remove(0);
            let blen = b.len();
            proof {
                lemma_bytes_of_first(pre);
                assert(pre.remove(0) =~= pre.drop_first());
                assert(bytes_of(pre.drop_first()) =~= bytes_of(pre).skip(blen as int));
                assert(bytes_of(self.first@).skip((remaining - blen) as int) =~= bytes_of(
                    pre,
                ).skip(remaining as int));
            }
            remaining = remaining - blen;
        }
        if remaining > 0 {
            proof {
                lemma_bytes_of_nonempty(self.first@);
            }
            let ghost pre = self.first@;
            let b = self.first.remove(0);
            let blen = b.len();
            let bv = b.into_vec();
            let trimmed = IoVec::from_vec(copy_range(&bv, remaining, blen - remaining));
            self.first.insert(0, trimmed);
            proof {
                lemma_bytes_of_first(pre);
                assert(pre.remove(0) =~= pre.drop_first());
                assert(bytes_of(pre.drop_first()) =~= bytes_of(pre).skip(blen as int));
                let cur = self.first@;
                assert(cur =~= seq![trimmed] + pre.drop_first());
                lemma_bytes_of_cons(trimmed, pre.drop_first());
                assert(bytes_of(cur) =~= bytes_of(pre).skip(remaining as int));
            }
        } else {
            proof {
                assert(bytes_of(self.first@).skip(0) =~= bytes_of(self.first@));
            }
        }
    }

    /// Consumes the view and hands back the tail: the buffers holding
    /// every byte past the bound, the cut buffer's overhanging part
    /// first. The tail is empty when nothing was split.
    pub fn into_tail(self) -> (r: Vec<IoVec>)
        ensures
            bytes_of(r@) == self.tail_bytes(),
    {
        self.tail
    }
}

/// Advances the cursor of a plain buffer list by `n` bytes, consuming
/// whole buffers and trimming the first remaining one. Used by the read
/// path, where no byte limit guards the buffers: advancing to or past
/// the end simply leaves an empty list.
pub fn advance(bufs: Vec<IoVec>, n: usize) -> (r: Vec<IoVec>)
    ensures
        n <= bytes_of(bufs@).len() ==> bytes_of(r@) == bytes_of(bufs@).skip(n as int),
        n > bytes_of(bufs@).len() ==> bytes_of(r@) == Seq::<u8>::empty(),
{
    let ghost ob = bytes_of(bufs@);
    let mut bufs = bufs;
    let mut remaining = n;
    proof {
        assert(bytes_of(bufs@) =~= ob.skip(0));
    }
    while bufs.len() > 0 && bufs[0].len() <= remaining
        invariant
            remaining <= n,
            n - remaining <= ob.len(),
            bytes_of(bufs@) == ob.skip((n - remaining) as int),
        decreases bufs@.len(),
    {
        let ghost pre = bufs@;
        let b = bufs.remove(0);
        let blen = b.len();
        proof {
            lemma_bytes_of_first(pre);
            assert(pre.remove(0) =~= pre.drop_first());
            assert(bytes_of(pre.drop_first()) =~= bytes_of(pre).skip(blen as int));
            assert(bytes_of(bufs@) =~= ob.skip((n - (remaining - blen)) as int));
        }
        remaining = remaining - blen;
    }
    if remaining > 0 && bufs.len() > 0 {
        let ghost pre = bufs@;
        let b = bufs.remove(0);
        let blen = b.len();
        let bv = b.into_vec();
        let trimmed = IoVec::from_vec(copy_range(&bv, remaining, blen - remaining));
        bufs.insert(0, trimmed);
        proof {
            lemma_bytes_of_first(pre);
            assert(pre.remove(0) =~= pre.drop_first());
            assert(bytes_of(pre.drop_first()) =~= bytes_of(pre).skip(blen as int));
            let cur = bufs@;
            assert(cur =~= seq![trimmed] + pre.drop_first());
            lemma_bytes_of_cons(trimmed, pre.drop_first());
            assert(bytes_of(cur) =~= bytes_of(pre).skip(remaining as int));
            assert(bytes_of(cur) =~= ob.skip(n as int));
        }
    } else {
        proof {
            if bufs@.len() == 0 {
                assert(bufs@ =~= Seq::<IoVec>::empty());
                lemma_bytes_of_empty();
            }
            if remaining == 0 {
                assert(ob.skip((n - remaining) as int) =~= ob.skip(n as int));
            }
        }
    }
    bufs
}

} // verus!
