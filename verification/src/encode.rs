//! Little-endian integer encodings, Bitcoin's CompactSize length prefix,
//! and lowercase hex: the primitive byte formats that the template hash
//! and the transaction serializer are built from.

use vstd::prelude::*;

verus! {

/// The two little-endian bytes of a 16-bit integer.
pub open spec fn u16_le(x: u16) -> Seq<u8> {
    seq![(x & 0xff) as u8, ((x >> 8) & 0xff) as u8]
}

/// The four little-endian bytes of a 32-bit integer.
pub open spec fn u32_le(x: u32) -> Seq<u8> {
    seq![
        (x & 0xff) as u8,
        ((x >> 8) & 0xff) as u8,
        ((x >> 16) & 0xff) as u8,
        ((x >> 24) & 0xff) as u8,
    ]
}

/// The eight little-endian bytes of a 64-bit integer.
pub open spec fn u64_le(x: u64) -> Seq<u8> {
    seq![
        (x & 0xff) as u8,
        ((x >> 8) & 0xff) as u8,
        ((x >> 16) & 0xff) as u8,
        ((x >> 24) & 0xff) as u8,
        ((x >> 32) & 0xff) as u8,
        ((x >> 40) & 0xff) as u8,
        ((x >> 48) & 0xff) as u8,
        ((x >> 56) & 0xff) as u8,
    ]
}

/// Bitcoin's CompactSize encoding of a length: one byte below 0xfd,
/// otherwise a marker byte followed by the little-endian value.
pub open spec fn compact_size(n: nat) -> Seq<u8> {
    if n < 0xfd {
        seq![n as u8]
    } else if n <= 0xffff {
        seq![0xfdu8] + u16_le(n as u16)
    } else if n <= 0xffffffff {
        seq![0xfeu8] + u32_le(n as u32)
    } else {
        seq![0xffu8] + u64_le(n as u64)
    }
}

/// The ASCII code of the lowercase hex digit for a value below 16.
pub open spec fn hex_digit(n: u8) -> u8
    recommends
        n < 16,
{
    if n < 10 {
        (0x30 + n) as u8
    } else {
        (0x57 + n) as u8
    }
}

/// The ASCII lowercase hex encoding of a byte sequence, two digits per byte.
pub open spec fn hex_bytes(data: Seq<u8>) -> Seq<u8>
    decreases data.len(),
{
    if data.len() == 0 {
        Seq::empty()
    } else {
        seq![hex_digit(data[0] >> 4), hex_digit(data[0] & 0x0f)] + hex_bytes(data.drop_first())
    }
}

/// Appends the bytes of a slice to a vector.
pub fn push_bytes(v: &mut Vec<u8>, b: &[u8])
    ensures
        final(v)@ == old(v)@ + b@,
{
    let mut i: usize = 0;
    while i < b.len()
        invariant
            i <= b@.len(),
            v@ == old(v)@ + b@.take(i as int),
        decreases b@.len() - i,
    {
        assert(b@.take(i + 1) =~= b@.take(i as int) + seq![b@[i as int]]);
        v.push(b[i]);
        i += 1;
    }
    assert(b@.take(b@.len() as int) =~= b@);
}

/// Copies a byte slice into a fresh vector.
pub fn copy_bytes(b: &[u8]) -> (r: Vec<u8>)
    ensures
        r@ == b@,
{
    let mut v: Vec<u8> = Vec::new();
    push_bytes(&mut v, b);
    v
}

/// Appends the two little-endian bytes of a 16-bit integer.
pub fn push_u16_le(v: &mut Vec<u8>, x: u16)
    ensures
        final(v)@ == old(v)@ + u16_le(x),
{
    v.push((x & 0xff) as u8);
    v.push(((x >> 8) & 0xff) as u8);
    assert(v@ =~= old(v)@ + u16_le(x));
}

/// Appends the four little-endian bytes of a 32-bit integer.
pub fn push_u32_le(v: &mut Vec<u8>, x: u32)
    ensures
        final(v)@ == old(v)@ + u32_le(x),
{
    v.push((x & 0xff) as u8);
    v.push(((x >> 8) & 0xff) as u8);
    v.push(((x >> 16) & 0xff) as u8);
    v.push(((x >> 24) & 0xff) as u8);
    assert(v@ =~= old(v)@ + u32_le(x));
}

/// Appends the eight little-endian bytes of a 64-bit integer.
pub fn push_u64_le(v: &mut Vec<u8>, x: u64)
    ensures
        final(v)@ == old(v)@ + u64_le(x),
{
    v.push((x & 0xff) as u8);
    v.push(((x >> 8) & 0xff) as u8);
    v.push(((x >> 16) & 0xff) as u8);
    v.push(((x >> 24) & 0xff) as u8);
    v.push(((x >> 32) & 0xff) as u8);
    v.push(((x >> 40) & 0xff) as u8);
    v.push(((x >> 48) & 0xff) as u8);
    v.push(((x >> 56) & 0xff) as u8);
    assert(v@ =~= old(v)@ + u64_le(x));
}

/// Appends the CompactSize encoding of a length.
pub fn push_compact_size(v: &mut Vec<u8>, n: u64)
    ensures
        final(v)@ == old(v)@ + compact_size(n as nat),
{
    if n < 0xfd {
        v.push(n as u8);
        assert(v@ =~= old(v)@ + compact_size(n as nat));
    } else if n <= 0xffff {
        v.push(0xfd);
        push_u16_le(v, n as u16);
        assert(v@ =~= old(v)@ + compact_size(n as nat));
    } else if n <= 0xffffffff {
        v.push(0xfe);
        push_u32_le(v, n as u32);
        assert(v@ =~= old(v)@ + compact_size(n as nat));
    } else {
        v.push(0xff);
        push_u64_le(v, n);
        assert(v@ =~= old(v)@ + compact_size(n as nat));
    }
}

/// Encodes a byte sequence as lowercase ASCII hex, two digits per byte.
pub fn to_hex(data: &Vec<u8>) -> (r: Vec<u8>)
    ensures
        r@ == hex_bytes(data@),
{
    let mut r: Vec<u8> = Vec::new();
    let mut i: usize = 0;
    assert(data@.skip(0) =~= data@);
    while i < data.len()
        invariant
            i <= data@.len(),
            hex_bytes(data@) =~= r@ + hex_bytes(data@.skip(i as int)),
        decreases data@.len() - i,
    {
        let b = data[i];
        proof {
            assert(data@.skip(i as int).len() > 0);
            assert(data@.skip(i as int)[0] == data@[i as int]);
            assert(data@.skip(i as int).drop_first() =~= data@.skip(i + 1));
        }
        assert(b >> 4 < 16 && b & 0x0f < 16) by (bit_vector);
        let hi = b >> 4;
        let lo = b & 0x0f;
        if hi < 10 {
            r.push(0x30 + hi);
        } else {
            r.push(0x57 + hi);
        }
        if lo < 10 {
            r.push(0x30 + lo);
        } else {
            r.push(0x57 + lo);
        }
        i += 1;
    }
    assert(data@.skip(data@.len() as int) =~= Seq::<u8>::empty());
    r
}

/// Two 16-bit integers with the same little-endian bytes are equal.
pub proof fn lemma_u16_le_injective(a: u16, b: u16)
    requires
        u16_le(a) == u16_le(b),
    ensures
        a == b,
{
    assert((a & 0xff) as u8 == (b & 0xff) as u8 && ((a >> 8) & 0xff) as u8 == ((b >> 8)
        & 0xff) as u8) by {
        assert(u16_le(a)[0] == u16_le(b)[0]);
        assert(u16_le(a)[1] == u16_le(b)[1]);
    }
    assert(a == b) by (bit_vector)
        requires
            (a & 0xff) as u8 == (b & 0xff) as u8,
            ((a >> 8) & 0xff) as u8 == ((b >> 8) & 0xff) as u8,
    ;
}

/// Two 32-bit integers with the same little-endian bytes are equal.
pub proof fn lemma_u32_le_injective(a: u32, b: u32)
    requires
        u32_le(a) == u32_le(b),
    ensures
        a == b,
{
    assert((a & 0xff) as u8 == (b & 0xff) as u8 && ((a >> 8) & 0xff) as u8 == ((b >> 8)
        & 0xff) as u8 && ((a >> 16) & 0xff) as u8 == ((b >> 16) & 0xff) as u8 && ((a >> 24)
        & 0xff) as u8 == ((b >> 24) & 0xff) as u8) by {
        assert(u32_le(a)[0] == u32_le(b)[0]);
        assert(u32_le(a)[1] == u32_le(b)[1]);
        assert(u32_le(a)[2] == u32_le(b)[2]);
        assert(u32_le(a)[3] == u32_le(b)[3]);
    }
    assert(a == b) by (bit_vector)
        requires
            (a & 0xff) as u8 == (b & 0xff) as u8,
            ((a >> 8) & 0xff) as u8 == ((b >> 8) & 0xff) as u8,
            ((a >> 16) & 0xff) as u8 == ((b >> 16) & 0xff) as u8,
            ((a >> 24) & 0xff) as u8 == ((b >> 24) & 0xff) as u8,
    ;
}

/// Two 64-bit integers with the same little-endian bytes are equal.
pub proof fn lemma_u64_le_injective(a: u64, b: u64)
    requires
        u64_le(a) == u64_le(b),
    ensures
        a == b,
{
    assert((a & 0xff) as u8 == (b & 0xff) as u8 && ((a >> 8) & 0xff) as u8 == ((b >> 8)
        & 0xff) as u8 && ((a >> 16) & 0xff) as u8 == ((b >> 16) & 0xff) as u8 && ((a >> 24)
        & 0xff) as u8 == ((b >> 24) & 0xff) as u8 && ((a >> 32) & 0xff) as u8 == ((b >> 32)
        & 0xff) as u8 && ((a >> 40) & 0xff) as u8 == ((b >> 40) & 0xff) as u8 && ((a >> 48)
        & 0xff) as u8 == ((b >> 48) & 0xff) as u8 && ((a >> 56) & 0xff) as u8 == ((b >> 56)
        & 0xff) as u8) by {
        assert(u64_le(a)[0] == u64_le(b)[0]);
        assert(u64_le(a)[1] == u64_le(b)[1]);
        assert(u64_le(a)[2] == u64_le(b)[2]);
        assert(u64_le(a)[3] == u64_le(b)[3]);
        assert(u64_le(a)[4] == u64_le(b)[4]);
        assert(u64_le(a)[5] == u64_le(b)[5]);
        assert(u64_le(a)[6] == u64_le(b)[6]);
        assert(u64_le(a)[7] == u64_le(b)[7]);
    }
    assert(a == b) by (bit_vector)
        requires
            (a & 0xff) as u8 == (b & 0xff) as u8,
            ((a >> 8) & 0xff) as u8 == ((b >> 8) & 0xff) as u8,
            ((a >> 16) & 0xff) as u8 == ((b >> 16) & 0xff) as u8,
            ((a >> 24) & 0xff) as u8 == ((b >> 24) & 0xff) as u8,
            ((a >> 32) & 0xff) as u8 == ((b >> 32) & 0xff) as u8,
            ((a >> 40) & 0xff) as u8 == ((b >> 40) & 0xff) as u8,
            ((a >> 48) & 0xff) as u8 == ((b >> 48) & 0xff) as u8,
            ((a >> 56) & 0xff) as u8 == ((b >> 56) & 0xff) as u8,
    ;
}

/// Two concatenations of equal length prefixes are equal part by part.
pub proof fn lemma_concat_parts_equal(a: Seq<u8>, b: Seq<u8>, x: Seq<u8>, y: Seq<u8>)
    requires
        a + x == b + y,
        a.len() == b.len(),
    ensures
        a == b,
        x == y,
{
    assert(a =~= (a + x).take(a.len() as int));
    assert(b =~= (b + y).take(b.len() as int));
    assert(x =~= (a + x).skip(a.len() as int));
    assert(y =~= (b + y).skip(b.len() as int));
}

/// CompactSize is a prefix code: if two encodings followed by arbitrary
/// tails agree byte for byte, the encoded lengths agree and so do the
/// tails.
pub proof fn lemma_compact_size_prefix(m: nat, n: nat, x: Seq<u8>, y: Seq<u8>)
    requires
        m <= u64::MAX,
        n <= u64::MAX,
        compact_size(m) + x == compact_size(n) + y,
    ensures
        m == n,
        x == y,
{
    let cm = compact_size(m);
    let cn = compact_size(n);
    assert((cm + x)[0] == cm[0]);
    assert((cn + y)[0] == cn[0]);
    assert(cm[0] == cn[0]);
    if m < 0xfd {
        assert(cm[0] == m as u8);
        assert((m as u8) < 0xfd);
        assert(n < 0xfd);
        assert(cn[0] == n as u8);
        assert(m == n);
        lemma_concat_parts_equal(cm, cn, x, y);
    } else if m <= 0xffff {
        assert(cm[0] == 0xfd);
        assert(0xfd <= n && n <= 0xffff);
        lemma_concat_parts_equal(cm, cn, x, y);
        assert(u16_le(m as u16) =~= cm.skip(1));
        assert(u16_le(n as u16) =~= cn.skip(1));
        lemma_u16_le_injective(m as u16, n as u16);
    } else if m <= 0xffffffff {
        assert(cm[0] == 0xfe);
        assert(0xffff < n && n <= 0xffffffff);
        lemma_concat_parts_equal(cm, cn, x, y);
        assert(u32_le(m as u32) =~= cm.skip(1));
        assert(u32_le(n as u32) =~= cn.skip(1));
        lemma_u32_le_injective(m as u32, n as u32);
    } else {
        assert(cm[0] == 0xff);
        assert(0xffffffff < n);
        lemma_concat_parts_equal(cm, cn, x, y);
        assert(u64_le(m as u64) =~= cm.skip(1));
        assert(u64_le(n as u64) =~= cn.skip(1));
        lemma_u64_le_injective(m as u64, n as u64);
    }
}

} // verus!
