//! Byte strings: little-endian numbers, and the few operations on vectors of
//! bytes that the other modules share.

use vstd::prelude::*;

verus! {

/// The two bytes of `x`, the low one first.
pub open spec fn le16(x: u16) -> Seq<u8> {
    seq![(x % 256) as u8, (x / 256) as u8]
}

/// The four bytes of `x`, the lowest first.
pub open spec fn le32(x: u32) -> Seq<u8> {
    seq![
        (x % 256) as u8,
        (x / 256 % 256) as u8,
        (x / 65536 % 256) as u8,
        (x / 16777216) as u8,
    ]
}

/// `data` with its first byte changed in its lowest bit; an empty string
/// stays empty.
pub open spec fn flip_first(data: Seq<u8>) -> Seq<u8> {
    if data.len() == 0 {
        data
    } else {
        data.update(0, data[0] ^ 1)
    }
}

/// `count` bytes of value `val`.
pub open spec fn repeat(val: u8, count: nat) -> Seq<u8> {
    Seq::new(count, |i: int| val)
}

/// `data` followed by as many bytes of value `val` as it takes to reach a
/// multiple of `align`.
pub open spec fn padded(data: Seq<u8>, align: int, val: u8) -> Seq<u8> {
    data + repeat(val, ((align - (data.len() as int) % align) % align) as nat)
}

/// Appends the two bytes of `x`, the low one first.
pub fn push_u16(buf: &mut Vec<u8>, x: u16)
    ensures
        final(buf)@ == old(buf)@ + le16(x),
{
    buf.push((x % 256) as u8);
    buf.push((x / 256) as u8);
    assert(buf@ =~= old(buf)@ + le16(x));
}

/// Appends the four bytes of `x`, the lowest first.
pub fn push_u32(buf: &mut Vec<u8>, x: u32)
    ensures
        final(buf)@ == old(buf)@ + le32(x),
{
    buf.push((x % 256) as u8);
    buf.push((x / 256 % 256) as u8);
    buf.push((x / 65536 % 256) as u8);
    buf.push((x / 16777216) as u8);
    assert(buf@ =~= old(buf)@ + le32(x));
}

/// Appends the bytes of `src`.
pub fn push_all(buf: &mut Vec<u8>, src: &Vec<u8>)
    ensures
        final(buf)@ == old(buf)@ + src@,
{
    let mut i: usize = 0;
    while i < src.len()
        invariant
            i <= src.len(),
            buf@ == old(buf)@ + src@.subrange(0, i as int),
        decreases src.len() - i,
    {
        buf.push(src[i]);
        assert(src@.subrange(0, i + 1) =~= src@.subrange(0, i as int).push(src@[i as int]));
        i = i + 1;
    }
    assert(src@.subrange(0, src@.len() as int) =~= src@);
}

/// A copy of the bytes of `src` from `from` up to `to`.
pub fn copy_range(src: &Vec<u8>, from: usize, to: usize) -> (res: Vec<u8>)
    requires
        from <= to <= src@.len(),
    ensures
        res@ == src@.subrange(from as int, to as int),
{
    let mut res: Vec<u8> = Vec::new();
    let mut i: usize = from;
    while i < to
        invariant
            from <= i <= to <= src@.len(),
            res@ == src@.subrange(from as int, i as int),
        decreases to - i,
    {
        res.push(src[i]);
        assert(src@.subrange(from as int, i + 1) =~= src@.subrange(from as int, i as int).push(
            src@[i as int],
        ));
        i = i + 1;
    }
    res
}

/// Tells whether two byte strings are the same.
pub fn same_bytes(a: &Vec<u8>, b: &Vec<u8>) -> (res: bool)
    ensures
        res == (a@ == b@),
{
    if a.len() != b.len() {
        return false;
    }
    let mut i: usize = 0;
    while i < a.len()
        invariant
            i <= a.len(),
            a@.len() == b@.len(),
            forall|j: int| 0 <= j < i ==> a@[j] == b@[j],
        decreases a.len() - i,
    {
        if a[i] != b[i] {
            return false;
        }
        i = i + 1;
    }
    assert(a@ =~= b@);
    true
}

/// A copy of `data` with its first byte changed in its lowest bit.
pub fn flipped(data: &Vec<u8>) -> (res: Vec<u8>)
    ensures
        res@ == flip_first(data@),
{
    let mut res: Vec<u8> = copy_range(data, 0, data.len());
    assert(res@ =~= data@);
    if res.len() > 0 {
        let b: u8 = res[0];
        res[0] = b ^ 1;
    }
    res
}

/// Appends bytes of value `val` until the length is a multiple of `align`.
pub fn pad_to(buf: &mut Vec<u8>, align: usize, val: u8)
    requires
        align > 0,
        old(buf)@.len() + align <= usize::MAX,
    ensures
        final(buf)@ == padded(old(buf)@, align as int, val),
        final(buf)@.len() % (align as nat) == 0,
        final(buf)@.len() < old(buf)@.len() + align,
{
    let rem: usize = buf.len() % align;
    let count: usize = if rem == 0 {
        0
    } else {
        align - rem
    };
    assert(count == (align - (old(buf)@.len() as int) % (align as int)) % (align as int)) by {
        if rem != 0 {
            vstd::arithmetic::div_mod::lemma_small_mod((align - rem) as nat, align as nat);
        } else {
            vstd::arithmetic::div_mod::lemma_mod_self_0(align as int);
        }
    }
    let mut i: usize = 0;
    while i < count
        invariant
            i <= count,
            buf@ == old(buf)@ + repeat(val, i as nat),
            old(buf)@.len() + count <= usize::MAX,
        decreases count - i,
    {
        buf.push(val);
        assert(repeat(val, (i + 1) as nat) =~= repeat(val, i as nat).push(val));
        i = i + 1;
    }
    assert((old(buf)@.len() + count) % (align as int) == 0) by {
        let n = old(buf)@.len() as int;
        let a = align as int;
        vstd::arithmetic::div_mod::lemma_fundamental_div_mod(n, a);
        if rem != 0 {
            assert(n + count == a * (n / a) + a);
            assert(a * (n / a) + a == (n / a + 1) * a) by (nonlinear_arith);
            vstd::arithmetic::div_mod::lemma_mod_multiples_basic(n / a + 1, a);
        }
    }
}

} // verus!
