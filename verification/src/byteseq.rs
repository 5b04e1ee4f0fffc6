//! Small verified helpers over byte vectors: equality, big-endian integer
//! fields, and range copies. The peer codec and the I/O planner build all
//! their wire and disk images out of these.

use vstd::prelude::*;

verus! {

/// Compares two byte vectors for equality of their contents.
pub fn vec_u8_eq(a: &Vec<u8>, b: &Vec<u8>) -> (r: bool)
    ensures
        r == (a@ == b@),
{
    if a.len() != b.len() {
        assert(a@ != b@) by {
            assert(a@.len() != b@.len());
        }
        return false;
    }
    let n = a.len();
    let mut i: usize = 0;
    while i < n
        invariant
            n == a@.len() == b@.len(),
            i <= n,
            forall|j: int| 0 <= j < i ==> a@[j] == b@[j],
        decreases n - i,
    {
        if a[i] != b[i] {
            return false;
        }
        i += 1;
    }
    assert(a@ =~= b@);
    true
}

/// Compares two byte slices for equality of their contents.
pub fn slice_u8_eq(a: &[u8], b: &[u8]) -> (r: bool)
    ensures
        r == (a@ == b@),
{
    if a.len() != b.len() {
        assert(a@ != b@) by {
            assert(a@.len() != b@.len());
        }
        return false;
    }
    let n = a.len();
    let mut i: usize = 0;
    while i < n
        invariant
            n == a@.len() == b@.len(),
            i <= n,
            forall|j: int| 0 <= j < i ==> a@[j] == b@[j],
        decreases n - i,
    {
        if a[i] != b[i] {
            return false;
        }
        i += 1;
    }
    assert(a@ =~= b@);
    true
}

/// The four bytes of `v` in big-endian order.
pub open spec fn spec_u32_be(v: u32) -> Seq<u8> {
    seq![
        (v / 0x1000000) as u8,
        ((v / 0x10000) % 0x100) as u8,
        ((v / 0x100) % 0x100) as u8,
        (v % 0x100) as u8,
    ]
}

/// The big-endian `u32` value of four bytes.
pub open spec fn spec_be_u32(b: Seq<u8>) -> int {
    b[0] * 0x1000000 + b[1] * 0x10000 + b[2] * 0x100 + b[3]
}

/// Appends the four big-endian bytes of `v` to `buf`.
pub fn push_u32_be(buf: &mut Vec<u8>, v: u32)
    ensures
        final(buf)@ == old(buf)@ + spec_u32_be(v),
{
    buf.push((v / 0x1000000) as u8);
    buf.push(((v / 0x10000) % 0x100) as u8);
    buf.push(((v / 0x100) % 0x100) as u8);
    buf.push((v % 0x100) as u8);
    assert(buf@ =~= old(buf)@ + spec_u32_be(v));
}

/// Reads the big-endian `u32` stored at `pos` in `buf`.
pub fn read_u32_be(buf: &Vec<u8>, pos: usize) -> (r: u32)
    requires
        pos + 4 <= buf@.len(),
    ensures
        r == spec_be_u32(buf@.subrange(pos as int, pos as int + 4)),
{
    let blen = buf.len();
    let b0 = buf[pos] as u32;
    let b1 = buf[pos + 1] as u32;
    let b2 = buf[pos + 2] as u32;
    let b3 = buf[pos + 3] as u32;
    let ghost s = buf@.subrange(pos as int, pos as int + 4);
    assert(s[0] == buf@[pos as int] && s[1] == buf@[pos as int + 1] && s[2] == buf@[pos as int + 2]
        && s[3] == buf@[pos as int + 3]);
    b0 * 0x1000000 + b1 * 0x10000 + b2 * 0x100 + b3
}

/// Round trip: the big-endian bytes of `v` decode back to `v`.
pub proof fn lemma_u32_be_round_trip(v: u32)
    ensures
        spec_be_u32(spec_u32_be(v)) == v,
{
}

/// Appends all bytes of `src` to `buf`.
pub fn extend_bytes(buf: &mut Vec<u8>, src: &[u8])
    ensures
        final(buf)@ == old(buf)@ + src@,
{
    let n = src.len();
    let mut i: usize = 0;
    while i < n
        invariant
            n == src@.len(),
            i <= n,
            buf@ == old(buf)@ + src@.take(i as int),
        decreases n - i,
    {
        buf.push(src[i]);
        assert(buf@ =~= old(buf)@ + src@.take(i as int + 1));
        i += 1;
    }
    assert(buf@ =~= old(buf)@ + src@);
}

/// Copies the byte range `[start, start + len)` of `src` into a new vector.
pub fn copy_range(src: &Vec<u8>, start: usize, len: usize) -> (r: Vec<u8>)
    requires
        start + len <= src@.len(),
    ensures
        r@ == src@.subrange(start as int, start as int + len as int),
{
    let srclen = src.len();
    let mut r: Vec<u8> = Vec::new();
    let mut i: usize = 0;
    while i < len
        invariant
            start + len <= srclen == src@.len(),
            i <= len,
            r@ == src@.subrange(start as int, start as int + i as int),
        decreases len - i,
    {
        r.push(src[start + i]);
        assert(r@ =~= src@.subrange(start as int, start as int + i as int + 1));
        i += 1;
    }
    r
}

/// Removes the first `n` bytes of `buf`, keeping the rest in order.
pub fn consume_front(buf: &mut Vec<u8>, n: usize)
    requires
        n <= old(buf)@.len(),
    ensures
        final(buf)@ == old(buf)@.skip(n as int),
{
    let mut rest: Vec<u8> = Vec::new();
    let len = buf.len();
    let mut i: usize = n;
    while i < len
        invariant
            n <= len == buf@.len(),
            buf@ == old(buf)@,
            n <= i <= len,
            rest@ == buf@.subrange(n as int, i as int),
        decreases len - i,
    {
        rest.push(buf[i]);
        assert(rest@ =~= buf@.subrange(n as int, i as int + 1));
        i += 1;
    }
    assert(rest@ =~= old(buf)@.skip(n as int));
    *buf = rest;
}

} // verus!
