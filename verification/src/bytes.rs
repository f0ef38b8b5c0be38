use vstd::prelude::*;

verus! {

/// Little-endian 16-bit integer stored at byte offset `i` of `s`.
pub open spec fn le16(s: Seq<u8>, i: int) -> int {
    s[i] + 0x100 * s[i + 1]
}

/// Little-endian 32-bit integer stored at byte offset `i` of `s`.
pub open spec fn le32(s: Seq<u8>, i: int) -> int {
    s[i] + 0x100 * s[i + 1] + 0x1_0000 * s[i + 2] + 0x100_0000 * s[i + 3]
}

/// Little-endian 64-bit integer stored at byte offset `i` of `s`.
pub open spec fn le64(s: Seq<u8>, i: int) -> int {
    le32(s, i) + 0x1_0000_0000 * le32(s, i + 4)
}

pub proof fn lemma_le32_bounds(s: Seq<u8>, i: int)
    requires
        0 <= i,
        i + 4 <= s.len(),
    ensures
        0 <= le32(s, i) <= 0xFFFF_FFFF,
{
}

pub proof fn lemma_le64_bounds(s: Seq<u8>, i: int)
    requires
        0 <= i,
        i + 8 <= s.len(),
    ensures
        0 <= le64(s, i) <= 0xFFFF_FFFF_FFFF_FFFF,
{
    lemma_le32_bounds(s, i);
    lemma_le32_bounds(s, i + 4);
}

/// Decode a little-endian u16 at `off`.
pub fn read_u16_le(buf: &Vec<u8>, off: usize) -> (r: u16)
    requires
        off + 2 <= buf@.len(),
    ensures
        r == le16(buf@, off as int),
{
    proof {
        vstd::std_specs::vec::axiom_spec_len(buf);
    }
    let b0 = buf[off] as u16;
    let b1 = buf[off + 1] as u16;
    b0 + b1 * 0x100
}

/// Decode a little-endian u32 at `off`.
pub fn read_u32_le(buf: &Vec<u8>, off: usize) -> (r: u32)
    requires
        off + 4 <= buf@.len(),
    ensures
        r == le32(buf@, off as int),
{
    proof {
        vstd::std_specs::vec::axiom_spec_len(buf);
    }
    let b0 = buf[off] as u32;
    let b1 = buf[off + 1] as u32;
    let b2 = buf[off + 2] as u32;
    let b3 = buf[off + 3] as u32;
    b0 + b1 * 0x100 + b2 * 0x1_0000 + b3 * 0x100_0000
}

/// Decode a little-endian u64 at `off`.
pub fn read_u64_le(buf: &Vec<u8>, off: usize) -> (r: u64)
    requires
        off + 8 <= buf@.len(),
    ensures
        r == le64(buf@, off as int),
{
    proof {
        vstd::std_specs::vec::axiom_spec_len(buf);
    }
    let lo = read_u32_le(buf, off) as u64;
    let hi = read_u32_le(buf, off + 4) as u64;
    proof {
        lemma_le32_bounds(buf@, off as int);
        lemma_le32_bounds(buf@, off + 4);
    }
    lo + hi * 0x1_0000_0000
}

/// Copy out `v[start..end]` into a fresh vector.
pub fn vec_subrange(v: &Vec<u8>, start: usize, end: usize) -> (r: Vec<u8>)
    requires
        start <= end,
        end <= v@.len(),
    ensures
        r@ == v@.subrange(start as int, end as int),
{
    let mut r: Vec<u8> = Vec::new();
    assert(r@ =~= v@.subrange(start as int, start as int));
    let mut i = start;
    while i < end
        invariant
            start <= i <= end,
            end <= v@.len(),
            r@ == v@.subrange(start as int, i as int),
        decreases end - i,
    {
        r.push(v[i]);
        assert(r@ =~= v@.subrange(start as int, i + 1));
        i = i + 1;
    }
    r
}

/// Byte-wise equality of two vectors.
pub fn vec_eq(a: &Vec<u8>, b: &Vec<u8>) -> (r: bool)
    ensures
        r == (a@ == b@),
{
    if a.len() != b.len() {
        return false;
    }
    let mut i: usize = 0;
    while i < a.len()
        invariant
            i <= a@.len(),
            a@.len() == b@.len(),
            forall|j: int| 0 <= j < i ==> a@[j] == b@[j],
        decreases a@.len() - i,
    {
        if a[i] != b[i] {
            return false;
        }
        i = i + 1;
    }
    assert(a@ =~= b@);
    true
}

/// A fresh vector of `n` zero bytes.
pub fn zero_vec(n: usize) -> (r: Vec<u8>)
    ensures
        r@ == Seq::<u8>::new(n as nat, |i: int| 0u8),
{
    let mut r: Vec<u8> = Vec::new();
    let mut i: usize = 0;
    while i < n
        invariant
            i <= n,
            r@.len() == i,
            forall|j: int| 0 <= j < i ==> r@[j] == 0u8,
        decreases n - i,
    {
        r.push(0u8);
        i = i + 1;
    }
    assert(r@ =~= Seq::<u8>::new(n as nat, |i: int| 0u8));
    r
}

/// Bounded values have a bounded product.
pub proof fn lemma_mul_le(a: int, amax: int, b: int, bmax: int)
    by (nonlinear_arith)
    requires
        0 <= a <= amax,
        0 <= b <= bmax,
    ensures
        a * b <= amax * bmax,
{
}

} // verus!
