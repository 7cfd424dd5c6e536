//! Little-endian and big-endian byte codecs shared by the wire and on-disk
//! formats, with their round-trip facts.

use vstd::prelude::*;

verus! {

pub open spec fn le16(v: u16) -> Seq<u8> {
    seq![(v & 0xff) as u8, (v >> 8) as u8]
}

pub open spec fn le32(v: u32) -> Seq<u8> {
    seq![(v & 0xff) as u8, ((v >> 8) & 0xff) as u8, ((v >> 16) & 0xff) as u8, (v >> 24) as u8]
}

pub open spec fn le64(v: u64) -> Seq<u8> {
    seq![
        (v & 0xff) as u8, ((v >> 8) & 0xff) as u8, ((v >> 16) & 0xff) as u8, ((v >> 24) & 0xff) as u8,
        ((v >> 32) & 0xff) as u8, ((v >> 40) & 0xff) as u8, ((v >> 48) & 0xff) as u8, (v >> 56) as u8,
    ]
}

pub open spec fn be16(v: u16) -> Seq<u8> {
    seq![(v >> 8) as u8, (v & 0xff) as u8]
}

/// Little-endian `u16` stored at `o`.
pub open spec fn rd16(s: Seq<u8>, o: int) -> u16 {
    (s[o] as u16) | ((s[o + 1] as u16) << 8u16)
}

/// Little-endian `u32` stored at `o`.
pub open spec fn rd32(s: Seq<u8>, o: int) -> u32 {
    (s[o] as u32) | ((s[o + 1] as u32) << 8u32) | ((s[o + 2] as u32) << 16u32) | ((s[o + 3] as u32) << 24u32)
}

/// Little-endian `u64` stored at `o`.
pub open spec fn rd64(s: Seq<u8>, o: int) -> u64 {
    (s[o] as u64) | ((s[o + 1] as u64) << 8u64) | ((s[o + 2] as u64) << 16u64) | ((s[o + 3] as u64) << 24u64)
        | ((s[o + 4] as u64) << 32u64) | ((s[o + 5] as u64) << 40u64) | ((s[o + 6] as u64) << 48u64)
        | ((s[o + 7] as u64) << 56u64)
}

/// Big-endian `u16` stored at `o`.
pub open spec fn rdbe16(s: Seq<u8>, o: int) -> u16 {
    ((s[o] as u16) << 8u16) | (s[o + 1] as u16)
}

pub proof fn lemma_le16(v: u16, s: Seq<u8>, o: int)
    requires
        0 <= o,
        o + 2 <= s.len(),
        s.subrange(o, o + 2) == le16(v),
    ensures
        rd16(s, o) == v,
{
    assert(s[o] == le16(v)[0]);
    assert(s[o + 1] == le16(v)[1]);
    let a = s[o];
    let b = s[o + 1];
    assert(a == (v & 0xff) as u8 && b == (v >> 8) as u8 ==> (a as u16) | ((b as u16) << 8u16) == v) by (bit_vector);
}

pub proof fn lemma_be16(v: u16, s: Seq<u8>, o: int)
    requires
        0 <= o,
        o + 2 <= s.len(),
        s.subrange(o, o + 2) == be16(v),
    ensures
        rdbe16(s, o) == v,
{
    assert(s[o] == be16(v)[0]);
    assert(s[o + 1] == be16(v)[1]);
    let a = s[o];
    let b = s[o + 1];
    assert(a == (v >> 8) as u8 && b == (v & 0xff) as u8 ==> ((a as u16) << 8u16) | (b as u16) == v) by (bit_vector);
}

pub proof fn lemma_le32(v: u32, s: Seq<u8>, o: int)
    requires
        0 <= o,
        o + 4 <= s.len(),
        s.subrange(o, o + 4) == le32(v),
    ensures
        rd32(s, o) == v,
{
    assert(s[o] == le32(v)[0]);
    assert(s[o + 1] == le32(v)[1]);
    assert(s[o + 2] == le32(v)[2]);
    assert(s[o + 3] == le32(v)[3]);
    let a = s[o];
    let b = s[o + 1];
    let c = s[o + 2];
    let d = s[o + 3];
    assert(a == (v & 0xff) as u8 && b == ((v >> 8) & 0xff) as u8 && c == ((v >> 16) & 0xff) as u8 && d == (v >> 24) as u8
        ==> (a as u32) | ((b as u32) << 8u32) | ((c as u32) << 16u32) | ((d as u32) << 24u32) == v) by (bit_vector);
}

pub proof fn lemma_le64(v: u64, s: Seq<u8>, o: int)
    requires
        0 <= o,
        o + 8 <= s.len(),
        s.subrange(o, o + 8) == le64(v),
    ensures
        rd64(s, o) == v,
{
    assert(s[o] == le64(v)[0]);
    assert(s[o + 1] == le64(v)[1]);
    assert(s[o + 2] == le64(v)[2]);
    assert(s[o + 3] == le64(v)[3]);
    assert(s[o + 4] == le64(v)[4]);
    assert(s[o + 5] == le64(v)[5]);
    assert(s[o + 6] == le64(v)[6]);
    assert(s[o + 7] == le64(v)[7]);
    let b0 = s[o];
    let b1 = s[o + 1];
    let b2 = s[o + 2];
    let b3 = s[o + 3];
    let b4 = s[o + 4];
    let b5 = s[o + 5];
    let b6 = s[o + 6];
    let b7 = s[o + 7];
    assert(b0 == (v & 0xff) as u8 && b1 == ((v >> 8) & 0xff) as u8 && b2 == ((v >> 16) & 0xff) as u8
        && b3 == ((v >> 24) & 0xff) as u8 && b4 == ((v >> 32) & 0xff) as u8 && b5 == ((v >> 40) & 0xff) as u8
        && b6 == ((v >> 48) & 0xff) as u8 && b7 == (v >> 56) as u8
        ==> (b0 as u64) | ((b1 as u64) << 8u64) | ((b2 as u64) << 16u64) | ((b3 as u64) << 24u64)
        | ((b4 as u64) << 32u64) | ((b5 as u64) << 40u64) | ((b6 as u64) << 48u64) | ((b7 as u64) << 56u64) == v) by (bit_vector);
}

pub fn push_le16(out: &mut Vec<u8>, v: u16)
    ensures
        final(out)@ == old(out)@ + le16(v),
{
    out.push((v & 0xff) as u8);
    out.push((v >> 8) as u8);
    assert(final(out)@ =~= old(out)@ + le16(v));
}

pub fn push_le32(out: &mut Vec<u8>, v: u32)
    ensures
        final(out)@ == old(out)@ + le32(v),
{
    out.push((v & 0xff) as u8);
    out.push(((v >> 8) & 0xff) as u8);
    out.push(((v >> 16) & 0xff) as u8);
    out.push((v >> 24) as u8);
    assert(final(out)@ =~= old(out)@ + le32(v));
}

pub fn push_le64(out: &mut Vec<u8>, v: u64)
    ensures
        final(out)@ == old(out)@ + le64(v),
{
    out.push((v & 0xff) as u8);
    out.push(((v >> 8) & 0xff) as u8);
    out.push(((v >> 16) & 0xff) as u8);
    out.push(((v >> 24) & 0xff) as u8);
    out.push(((v >> 32) & 0xff) as u8);
    out.push(((v >> 40) & 0xff) as u8);
    out.push(((v >> 48) & 0xff) as u8);
    out.push((v >> 56) as u8);
    assert(final(out)@ =~= old(out)@ + le64(v));
}

pub fn read_le16(s: &[u8], o: usize) -> (r: u16)
    requires
        o + 2 <= s@.len(),
    ensures
        r == rd16(s@, o as int),
{
    (s[o] as u16) | ((s[o + 1] as u16) << 8u16)
}

pub fn read_le32(s: &[u8], o: usize) -> (r: u32)
    requires
        o + 4 <= s@.len(),
    ensures
        r == rd32(s@, o as int),
{
    (s[o] as u32) | ((s[o + 1] as u32) << 8u32) | ((s[o + 2] as u32) << 16u32) | ((s[o + 3] as u32) << 24u32)
}

pub fn read_le64(s: &[u8], o: usize) -> (r: u64)
    requires
        o + 8 <= s@.len(),
    ensures
        r == rd64(s@, o as int),
{
    (s[o] as u64) | ((s[o + 1] as u64) << 8u64) | ((s[o + 2] as u64) << 16u64) | ((s[o + 3] as u64) << 24u64)
        | ((s[o + 4] as u64) << 32u64) | ((s[o + 5] as u64) << 40u64) | ((s[o + 6] as u64) << 48u64)
        | ((s[o + 7] as u64) << 56u64)
}

pub fn read_be16(s: &[u8], o: usize) -> (r: u16)
    requires
        o + 2 <= s@.len(),
    ensures
        r == rdbe16(s@, o as int),
{
    ((s[o] as u16) << 8u16) | (s[o + 1] as u16)
}

/// One FNV-1a round.
pub open spec fn fnv_step(h: u32, b: u8) -> u32 {
    vstd::wrapping::u32_specs::wrapping_mul(h ^ (b as u32), 0x0100_0193u32)
}

/// FNV-1a (32-bit) of `s`.
pub open spec fn fnv32(s: Seq<u8>) -> u32
    decreases s.len(),
{
    if s.len() == 0 {
        0x811c_9dc5u32
    } else {
        fnv_step(fnv32(s.drop_last()), s.last())
    }
}

/// FNV-1a of `bytes[start..end]`.
pub fn fnv32_range(bytes: &[u8], start: usize, end: usize) -> (r: u32)
    requires
        start <= end <= bytes@.len(),
    ensures
        r == fnv32(bytes@.subrange(start as int, end as int)),
{
    let mut h: u32 = 0x811c_9dc5;
    let mut i: usize = start;
    assert(bytes@.subrange(start as int, start as int) =~= Seq::<u8>::empty());
    while i < end
        invariant
            start <= i <= end <= bytes@.len(),
            h == fnv32(bytes@.subrange(start as int, i as int)),
        decreases end - i,
    {
        assert(bytes@.subrange(start as int, i + 1).drop_last() =~= bytes@.subrange(start as int, i as int));
        h = (h ^ (bytes[i] as u32)).wrapping_mul(0x0100_0193);
        i += 1;
    }
    h
}

/// Concatenation of the encodings `f(x)` of the items of `s`.
pub open spec fn enc_all<T>(s: Seq<T>, f: spec_fn(T) -> Seq<u8>) -> Seq<u8>
    decreases s.len(),
{
    if s.len() == 0 {
        Seq::empty()
    } else {
        enc_all(s.drop_last(), f) + f(s.last())
    }
}

pub proof fn lemma_enc_all_len<T>(s: Seq<T>, f: spec_fn(T) -> Seq<u8>, k: nat)
    requires
        forall|x: T| (#[trigger] f(x)).len() == k,
    ensures
        enc_all(s, f).len() == k * s.len(),
    decreases s.len(),
{
    if s.len() > 0 {
        lemma_enc_all_len(s.drop_last(), f, k);
        assert(k * s.len() == k * (s.len() - 1) + k) by (nonlinear_arith)
            requires s.len() > 0;
    }
}

/// The `i`-th item's encoding sits at `k * i` in the concatenation.
pub proof fn lemma_enc_all_at<T>(s: Seq<T>, f: spec_fn(T) -> Seq<u8>, k: nat, i: int)
    requires
        forall|x: T| (#[trigger] f(x)).len() == k,
        0 <= i < s.len(),
    ensures
        k * i + k <= enc_all(s, f).len(),
        enc_all(s, f).subrange(k * i, k * i + k) == f(s[i]),
    decreases s.len(),
{
    lemma_enc_all_len(s, f, k);
    lemma_enc_all_len(s.drop_last(), f, k);
    let pre = enc_all(s.drop_last(), f);
    assert(k * i + k <= k * s.len()) by (nonlinear_arith)
        requires 0 <= i < s.len();
    if i < s.len() - 1 {
        lemma_enc_all_at(s.drop_last(), f, k, i);
        assert(enc_all(s, f).subrange(k * i, k * i + k) =~= pre.subrange(k * i, k * i + k));
    } else {
        assert(k * i == k * (s.len() - 1));
        assert(enc_all(s, f).subrange(k * i, k * i + k) =~= f(s.last()));
    }
}

/// Copies `image` to the front of `out`, leaving the rest of `out` as it was.
pub fn copy_prefix(out: &mut [u8], image: &Vec<u8>)
    requires
        image@.len() <= old(out)@.len(),
    ensures
        final(out)@ == image@ + old(out)@.skip(image@.len() as int),
{
    let n = image.len();
    let mut j: usize = 0;
    while j < n
        invariant
            n == image@.len(),
            n <= out@.len(),
            j <= n,
            out@.len() == old(out)@.len(),
            forall|k: int| 0 <= k < j ==> out@[k] == image@[k],
            forall|k: int| j <= k < out@.len() ==> out@[k] == old(out)@[k],
        decreases n - j,
    {
        out[j] = image[j];
        j += 1;
    }
    assert(out@ =~= image@ + old(out)@.skip(n as int));
}

pub fn push_be16(out: &mut Vec<u8>, v: u16)
    ensures
        final(out)@ == old(out)@ + be16(v),
{
    out.push((v >> 8) as u8);
    out.push((v & 0xff) as u8);
    assert(final(out)@ =~= old(out)@ + be16(v));
}

/// Appends every byte of `tail`.
pub fn push_all(out: &mut Vec<u8>, tail: &[u8])
    ensures
        final(out)@ == old(out)@ + tail@,
{
    let mut i: usize = 0;
    while i < tail.len()
        invariant
            i <= tail@.len(),
            out@ == old(out)@ + tail@.take(i as int),
        decreases tail@.len() - i,
    {
        assert(tail@.take(i + 1) =~= tail@.take(i as int).push(tail@[i as int]));
        out.push(tail[i]);
        i += 1;
    }
    assert(tail@.take(i as int) =~= tail@);
}

/// Sum of the bytes of `s`, modulo 256.
pub open spec fn sum8(s: Seq<u8>) -> u8
    decreases s.len(),
{
    if s.len() == 0 {
        0
    } else {
        vstd::wrapping::u8_specs::wrapping_add(sum8(s.drop_last()), s.last())
    }
}

/// Sum of `bytes[start..end]` modulo 256.
pub fn sum8_range(bytes: &[u8], start: usize, end: usize) -> (r: u8)
    requires
        start <= end <= bytes@.len(),
    ensures
        r == sum8(bytes@.subrange(start as int, end as int)),
{
    let mut sum: u8 = 0;
    let mut i: usize = start;
    assert(bytes@.subrange(start as int, start as int) =~= Seq::<u8>::empty());
    while i < end
        invariant
            start <= i <= end <= bytes@.len(),
            sum == sum8(bytes@.subrange(start as int, i as int)),
        decreases end - i,
    {
        assert(bytes@.subrange(start as int, i + 1).drop_last() =~= bytes@.subrange(start as int, i as int));
        sum = sum.wrapping_add(bytes[i]);
        i += 1;
    }
    sum
}

/// The first four bytes of `bytes` spell `tag`.
pub fn starts_with4(bytes: &[u8], tag: [u8; 4]) -> (r: bool)
    requires
        4 <= bytes@.len(),
    ensures
        r == (bytes@.subrange(0, 4) == tag@),
{
    let r = bytes[0] == tag[0] && bytes[1] == tag[1] && bytes[2] == tag[2] && bytes[3] == tag[3];
    if r {
        assert(bytes@.subrange(0, 4) =~= tag@);
    } else {
        assert(bytes@.subrange(0, 4) != tag@) by {
            if bytes@.subrange(0, 4) == tag@ {
                assert(bytes@.subrange(0, 4)[0] == tag@[0]);
                assert(bytes@.subrange(0, 4)[1] == tag@[1]);
                assert(bytes@.subrange(0, 4)[2] == tag@[2]);
                assert(bytes@.subrange(0, 4)[3] == tag@[3]);
            }
        }
    }
    r
}

} // verus!
