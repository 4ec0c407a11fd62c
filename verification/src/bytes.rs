//! Little-endian byte encodings of machine words, and in-place updates of
//! byte sequences, with the lemmas the rest of the crate builds on.

use vstd::prelude::*;

verus! {

/// `s` with the bytes starting at `off` replaced by `r`.
pub open spec fn splice(s: Seq<u8>, off: int, r: Seq<u8>) -> Seq<u8> {
    s.take(off).add(r).add(s.skip(off + r.len()))
}

/// Pointwise reading of a `splice`.
pub proof fn lemma_splice_index(s: Seq<u8>, off: int, r: Seq<u8>)
    requires
        0 <= off,
        off + r.len() <= s.len(),
    ensures
        splice(s, off, r).len() == s.len(),
        forall|i: int| 0 <= i < off ==> #[trigger] splice(s, off, r)[i] == s[i],
        forall|i: int| off <= i < off + r.len() ==> #[trigger] splice(s, off, r)[i] == r[i - off],
        forall|i: int|
            off + r.len() <= i < s.len() ==> #[trigger] splice(s, off, r)[i] == s[i],
{
}

/// The two little-endian bytes of a 16-bit word.
pub open spec fn u16_le(v: u16) -> Seq<u8> {
    seq![(v & 0xff) as u8, ((v >> 8) & 0xff) as u8]
}

/// The four little-endian bytes of a 32-bit word.
pub open spec fn u32_le(v: u32) -> Seq<u8> {
    seq![
        (v & 0xff) as u8,
        ((v >> 8) & 0xff) as u8,
        ((v >> 16) & 0xff) as u8,
        ((v >> 24) & 0xff) as u8,
    ]
}

/// The eight little-endian bytes of a 64-bit word.
pub open spec fn u64_le(v: u64) -> Seq<u8> {
    seq![
        (v & 0xff) as u8,
        ((v >> 8) & 0xff) as u8,
        ((v >> 16) & 0xff) as u8,
        ((v >> 24) & 0xff) as u8,
        ((v >> 32) & 0xff) as u8,
        ((v >> 40) & 0xff) as u8,
        ((v >> 48) & 0xff) as u8,
        ((v >> 56) & 0xff) as u8,
    ]
}

/// The 16-bit word read little-endian from the first two bytes of `s`.
#[verifier::opaque]
pub open spec fn le16_val(s: Seq<u8>) -> u16 {
    ((s[0] as u16) | (s[1] as u16) << 8) as u16
}

/// The 32-bit word read little-endian from the first four bytes of `s`.
#[verifier::opaque]
pub open spec fn le32_val(s: Seq<u8>) -> u32 {
    ((s[0] as u32) | (s[1] as u32) << 8 | (s[2] as u32) << 16 | (s[3] as u32) << 24) as u32
}

/// The 64-bit word read little-endian from the first eight bytes of `s`.
#[verifier::opaque]
pub open spec fn le64_val(s: Seq<u8>) -> u64 {
    ((s[0] as u64) | (s[1] as u64) << 8 | (s[2] as u64) << 16 | (s[3] as u64) << 24 | (s[4] as u64) << 32
        | (s[5] as u64) << 40 | (s[6] as u64) << 48 | (s[7] as u64) << 56) as u64
}

/// Encoding a word and reading it back gives the word again.
pub proof fn lemma_le16_roundtrip(v: u16)
    ensures
        u16_le(v).len() == 2,
        le16_val(u16_le(v)) == v,
{
    reveal(le16_val);
    let b0 = (v & 0xff) as u8;
    let b1 = ((v >> 8) & 0xff) as u8;
    assert(u16_le(v)[0] == b0 && u16_le(v)[1] == b1);
    assert((b0 as u16) | ((b1 as u16) << 8) == v) by (bit_vector)
        requires
            b0 == (v & 0xff) as u8 && b1 == ((v >> 8) & 0xff) as u8,
    ;
}

/// Encoding a word and reading it back gives the word again.
pub proof fn lemma_le32_roundtrip(v: u32)
    ensures
        u32_le(v).len() == 4,
        le32_val(u32_le(v)) == v,
{
    reveal(le32_val);
    let b0 = (v & 0xff) as u8;
    let b1 = ((v >> 8) & 0xff) as u8;
    let b2 = ((v >> 16) & 0xff) as u8;
    let b3 = ((v >> 24) & 0xff) as u8;
    assert(u32_le(v)[0] == b0 && u32_le(v)[1] == b1 && u32_le(v)[2] == b2 && u32_le(v)[3] == b3);
    assert((b0 as u32) | ((b1 as u32) << 8) | ((b2 as u32) << 16) | ((b3 as u32) << 24) == v)
        by (bit_vector)
        requires
            b0 == (v & 0xff) as u8 && b1 == ((v >> 8) & 0xff) as u8 && b2 == ((v >> 16)
                & 0xff) as u8 && b3 == ((v >> 24) & 0xff) as u8,
    ;
}

/// Encoding a word and reading it back gives the word again.
pub proof fn lemma_le64_roundtrip(v: u64)
    ensures
        u64_le(v).len() == 8,
        le64_val(u64_le(v)) == v,
{
    reveal(le64_val);
    let b0 = (v & 0xff) as u8;
    let b1 = ((v >> 8) & 0xff) as u8;
    let b2 = ((v >> 16) & 0xff) as u8;
    let b3 = ((v >> 24) & 0xff) as u8;
    let b4 = ((v >> 32) & 0xff) as u8;
    let b5 = ((v >> 40) & 0xff) as u8;
    let b6 = ((v >> 48) & 0xff) as u8;
    let b7 = ((v >> 56) & 0xff) as u8;
    assert(u64_le(v)[0] == b0 && u64_le(v)[1] == b1 && u64_le(v)[2] == b2 && u64_le(v)[3] == b3
        && u64_le(v)[4] == b4 && u64_le(v)[5] == b5 && u64_le(v)[6] == b6 && u64_le(v)[7] == b7);
    assert((b0 as u64) | ((b1 as u64) << 8) | ((b2 as u64) << 16) | ((b3 as u64) << 24) | ((b4 as u64)
        << 32) | ((b5 as u64) << 40) | ((b6 as u64) << 48) | ((b7 as u64) << 56) == v)
        by (bit_vector)
        requires
            b0 == (v & 0xff) as u8 && b1 == ((v >> 8) & 0xff) as u8 && b2 == ((v >> 16)
                & 0xff) as u8 && b3 == ((v >> 24) & 0xff) as u8 && b4 == ((v >> 32) & 0xff) as u8
                && b5 == ((v >> 40) & 0xff) as u8 && b6 == ((v >> 48) & 0xff) as u8 && b7 == ((v
                >> 56) & 0xff) as u8,
    ;
}

/// Eight bytes are exactly the encoding of the word they carry.
pub proof fn lemma_u64_le_of_val(s: Seq<u8>)
    requires
        s.len() == 8,
    ensures
        u64_le(le64_val(s)) == s,
{
    reveal(le64_val);
    let b0 = s[0];
    let b1 = s[1];
    let b2 = s[2];
    let b3 = s[3];
    let b4 = s[4];
    let b5 = s[5];
    let b6 = s[6];
    let b7 = s[7];
    let v = le64_val(s);
    assert((v & 0xff) as u8 == b0 && ((v >> 8) & 0xff) as u8 == b1 && ((v >> 16) & 0xff) as u8
        == b2 && ((v >> 24) & 0xff) as u8 == b3 && ((v >> 32) & 0xff) as u8 == b4 && ((v >> 40)
        & 0xff) as u8 == b5 && ((v >> 48) & 0xff) as u8 == b6 && ((v >> 56) & 0xff) as u8 == b7)
        by (bit_vector)
        requires
            v == ((b0 as u64) | (b1 as u64) << 8 | (b2 as u64) << 16 | (b3 as u64) << 24 | (
            b4 as u64) << 32 | (b5 as u64) << 40 | (b6 as u64) << 48 | (b7 as u64) << 56) as u64,
    ;
    assert(u64_le(v) =~= s);
}

/// Appends the two little-endian bytes of `x`.
pub fn push_u16_le(v: &mut Vec<u8>, x: u16)
    ensures
        final(v)@ == old(v)@ + u16_le(x),
{
    v.push((x & 0xff) as u8);
    v.push(((x >> 8) & 0xff) as u8);
    proof {
        assert(v@ =~= old(v)@ + u16_le(x));
    }
}

/// Appends the four little-endian bytes of `x`.
pub fn push_u32_le(v: &mut Vec<u8>, x: u32)
    ensures
        final(v)@ == old(v)@ + u32_le(x),
{
    v.push((x & 0xff) as u8);
    v.push(((x >> 8) & 0xff) as u8);
    v.push(((x >> 16) & 0xff) as u8);
    v.push(((x >> 24) & 0xff) as u8);
    proof {
        assert(v@ =~= old(v)@ + u32_le(x));
    }
}

/// Appends the eight little-endian bytes of `x`.
pub fn push_u64_le(v: &mut Vec<u8>, x: u64)
    ensures
        final(v)@ == old(v)@ + u64_le(x),
{
    v.push((x & 0xff) as u8);
    v.push(((x >> 8) & 0xff) as u8);
    v.push(((x >> 16) & 0xff) as u8);
    v.push(((x >> 24) & 0xff) as u8);
    v.push(((x >> 32) & 0xff) as u8);
    v.push(((x >> 40) & 0xff) as u8);
    v.push(((x >> 48) & 0xff) as u8);
    v.push(((x >> 56) & 0xff) as u8);
    proof {
        assert(v@ =~= old(v)@ + u64_le(x));
    }
}

/// Appends one byte.
pub fn push_u8(v: &mut Vec<u8>, x: u8)
    ensures
        final(v)@ == old(v)@ + seq![x],
{
    v.push(x);
    proof {
        assert(v@ =~= old(v)@ + seq![x]);
    }
}

/// Appends the little-endian bytes of each word in `vals`, in order.
pub fn push_u64s(v: &mut Vec<u8>, vals: &Vec<u64>)
    ensures
        final(v)@.len() == old(v)@.len() + 8 * vals@.len(),
        final(v)@.subrange(0, old(v)@.len() as int) == old(v)@,
        forall|k: int|
            0 <= k < vals@.len() ==> final(v)@.subrange(
                old(v)@.len() + 8 * k,
                old(v)@.len() + 8 * k + 8,
            ) == u64_le(#[trigger] vals@[k]),
{
    let ghost off = v@.len() as int;
    let n = vals.len();
    let mut i: usize = 0;
    while i < n
        invariant
            n == vals@.len(),
            i <= n,
            v@.len() == off + 8 * i,
            0 <= off,
            v@.subrange(0, off) == old(v)@,
            forall|k: int|
                0 <= k < i ==> v@.subrange(off + 8 * k, off + 8 * k + 8) == u64_le(
                    #[trigger] vals@[k],
                ),
        decreases n - i,
    {
        let ghost v0 = v@;
        push_u64_le(v, vals[i]);
        proof {
            assert(v@.subrange(0, off) =~= v0.subrange(0, off));
            assert forall|k: int| 0 <= k < i + 1 implies v@.subrange(
                off + 8 * k,
                off + 8 * k + 8,
            ) == u64_le(#[trigger] vals@[k]) by {
                if k < i {
                    assert(v@.subrange(off + 8 * k, off + 8 * k + 8) =~= v0.subrange(
                        off + 8 * k,
                        off + 8 * k + 8,
                    ));
                } else {
                    assert(v@.subrange(off + 8 * k, off + 8 * k + 8) =~= u64_le(vals@[k]));
                }
            }
        }
        i += 1;
    }
    proof {
        assert(v@.subrange(0, off) =~= old(v)@);
    }
}

/// Reads the 16-bit word stored little-endian at `off`.
pub fn read_u16_le(s: &[u8], off: usize) -> (r: u16)
    requires
        off + 2 <= s@.len(),
    ensures
        r == le16_val(s@.subrange(off as int, off + 2)),
{
    let b0 = s[off];
    let b1 = s[off + 1];
    proof {
        reveal(le16_val);
        let sub = s@.subrange(off as int, off + 2);
        assert(sub[0] == s@[off as int] && sub[1] == s@[off + 1]);
    }
    b0 as u16 | (b1 as u16) << 8
}

/// Reads the 32-bit word stored little-endian at `off`.
pub fn read_u32_le(s: &[u8], off: usize) -> (r: u32)
    requires
        off + 4 <= s@.len(),
    ensures
        r == le32_val(s@.subrange(off as int, off + 4)),
{
    let b0 = s[off];
    let b1 = s[off + 1];
    let b2 = s[off + 2];
    let b3 = s[off + 3];
    proof {
        reveal(le32_val);
        let sub = s@.subrange(off as int, off + 4);
        assert(sub[0] == s@[off as int] && sub[1] == s@[off + 1] && sub[2] == s@[off + 2]
            && sub[3] == s@[off + 3]);
    }
    b0 as u32 | (b1 as u32) << 8 | (b2 as u32) << 16 | (b3 as u32) << 24
}

/// Reads the 64-bit word stored little-endian at `off`.
pub fn read_u64_le(s: &[u8], off: usize) -> (r: u64)
    requires
        off + 8 <= s@.len(),
    ensures
        r == le64_val(s@.subrange(off as int, off + 8)),
{
    let b0 = s[off];
    let b1 = s[off + 1];
    let b2 = s[off + 2];
    let b3 = s[off + 3];
    let b4 = s[off + 4];
    let b5 = s[off + 5];
    let b6 = s[off + 6];
    let b7 = s[off + 7];
    proof {
        reveal(le64_val);
        let sub = s@.subrange(off as int, off + 8);
        assert(sub[0] == s@[off as int] && sub[1] == s@[off + 1] && sub[2] == s@[off + 2]
            && sub[3] == s@[off + 3] && sub[4] == s@[off + 4] && sub[5] == s@[off + 5] && sub[6]
            == s@[off + 6] && sub[7] == s@[off + 7]);
    }
    b0 as u64 | (b1 as u64) << 8 | (b2 as u64) << 16 | (b3 as u64) << 24 | (b4 as u64) << 32 | (
    b5 as u64) << 40 | (b6 as u64) << 48 | (b7 as u64) << 56
}

} // verus!
