//! Writing and reading little-endian integers.

use vstd::arithmetic::div_mod::{lemma_fundamental_div_mod, lemma_fundamental_div_mod_converse};
use vstd::prelude::*;

#[allow(unused_imports)]
use crate::endian::{
    half_at, le16, le16_all, le32, le32_all, le64, le64_all, long_at, word_at,
};

verus! {

broadcast use crate::endian::le16_len;

/// Concatenations of equally long first parts agree exactly where both parts do.
pub proof fn append_injective<T>(a: Seq<T>, x: Seq<T>, b: Seq<T>, y: Seq<T>)
    requires
        a.len() == b.len(),
    ensures
        a + x == b + y <==> a == b && x == y,
{
    if a + x == b + y {
        assert((a + x).take(a.len() as int) =~= a);
        assert((b + y).take(b.len() as int) =~= b);
        assert((a + x).skip(a.len() as int) =~= x);
        assert((b + y).skip(b.len() as int) =~= y);
    }
}

/// The remainder by `m * m`, from the two low digits in base `m`.
proof fn mod_square(n: int, m: int)
    requires
        m > 0,
    ensures
        n % (m * m) == (n / m % m) * m + n % m,
{
    let h = n / m;
    let (q, r, low) = (h / m, h % m, n % m);
    lemma_fundamental_div_mod(n, m);
    lemma_fundamental_div_mod(h, m);
    assert(n == q * (m * m) + (r * m + low)) by (nonlinear_arith)
        requires
            n == m * h + low,
            h == m * q + r,
    ;
    assert(0 <= r * m + low < m * m) by (nonlinear_arith)
        requires
            0 <= r < m,
            0 <= low < m,
    ;
    lemma_fundamental_div_mod_converse(n, m * m, q, r * m + low);
}

/// A 16-bit encoding holds the value modulo 2^16 and nothing else.
pub proof fn le16_determined(a: int, b: int)
    ensures
        le16(a) == le16(b) <==> a % 0x1_0000 == b % 0x1_0000,
{
    reveal(le16);
    mod_square(a, 0x100);
    mod_square(b, 0x100);
    assert(le16(a)[0] == a % 0x100 && le16(b)[0] == b % 0x100);
    assert(le16(a)[1] == a / 0x100 % 0x100 && le16(b)[1] == b / 0x100 % 0x100);
}

/// A 32-bit encoding holds the value modulo 2^32 and nothing else.
pub proof fn le32_determined(a: int, b: int)
    ensures
        le32(a) == le32(b) <==> a % 0x1_0000_0000 == b % 0x1_0000_0000,
{
    let (ha, hb) = (a / 0x1_0000, b / 0x1_0000);
    le16_determined(a, b);
    le16_determined(ha, hb);
    append_injective(le16(a), le16(ha), le16(b), le16(hb));
    mod_square(a, 0x1_0000);
    mod_square(b, 0x1_0000);
}

/// A 64-bit encoding holds the value modulo 2^64 and nothing else.
pub proof fn le64_determined(a: int, b: int)
    ensures
        le64(a) == le64(b) <==> a % 0x1_0000_0000_0000_0000 == b % 0x1_0000_0000_0000_0000,
{
    let (ha, hb) = (a / 0x1_0000_0000, b / 0x1_0000_0000);
    le32_determined(a, b);
    le32_determined(ha, hb);
    append_injective(le32(a), le32(ha), le32(b), le32(hb));
    mod_square(a, 0x1_0000_0000);
    mod_square(b, 0x1_0000_0000);
}

/// The length of an encoded sequence, and that the encoding determines the values.
pub proof fn le16_all_determined(a: Seq<u16>, b: Seq<u16>)
    ensures
        le16_all(a).len() == 2 * a.len(),
        le16_all(a) == le16_all(b) ==> a == b,
    decreases a.len(),
{
    if a.len() > 0 && b.len() > 0 {
        le16_all_determined(a.drop_last(), b.drop_last());
        if le16_all(a) == le16_all(b) {
            le16_all_len(b);
            le16_all_len(b.drop_last());
            append_injective(
                le16_all(a.drop_last()),
                le16(a.last() as int),
                le16_all(b.drop_last()),
                le16(b.last() as int),
            );
            le16_determined(a.last() as int, b.last() as int);
            assert(a =~= a.drop_last().push(a.last()));
            assert(b =~= b.drop_last().push(b.last()));
        }
    } else {
        le16_all_len(a);
        le16_all_len(b);
        assert(a.len() == b.len() ==> a =~= b);
    }
}

proof fn le16_all_len(a: Seq<u16>)
    ensures
        le16_all(a).len() == 2 * a.len(),
    decreases a.len(),
{
    if a.len() > 0 {
        le16_all_len(a.drop_last());
    }
}

/// The length of an encoded sequence, and that the encoding determines the values.
pub proof fn le32_all_determined(a: Seq<u32>, b: Seq<u32>)
    ensures
        le32_all(a).len() == 4 * a.len(),
        le32_all(a) == le32_all(b) ==> a == b,
    decreases a.len(),
{
    if a.len() > 0 && b.len() > 0 {
        le32_all_determined(a.drop_last(), b.drop_last());
        if le32_all(a) == le32_all(b) {
            le32_all_len(b);
            le32_all_len(b.drop_last());
            append_injective(
                le32_all(a.drop_last()),
                le32(a.last() as int),
                le32_all(b.drop_last()),
                le32(b.last() as int),
            );
            le32_determined(a.last() as int, b.last() as int);
            assert(a =~= a.drop_last().push(a.last()));
            assert(b =~= b.drop_last().push(b.last()));
        }
    } else {
        le32_all_len(a);
        le32_all_len(b);
        assert(a.len() == b.len() ==> a =~= b);
    }
}

proof fn le32_all_len(a: Seq<u32>)
    ensures
        le32_all(a).len() == 4 * a.len(),
    decreases a.len(),
{
    if a.len() > 0 {
        le32_all_len(a.drop_last());
    }
}

/// The length of an encoded sequence, and that the encoding determines the values.
pub proof fn le64_all_determined(a: Seq<u64>, b: Seq<u64>)
    ensures
        le64_all(a).len() == 8 * a.len(),
        le64_all(a) == le64_all(b) ==> a == b,
    decreases a.len(),
{
    if a.len() > 0 && b.len() > 0 {
        le64_all_determined(a.drop_last(), b.drop_last());
        if le64_all(a) == le64_all(b) {
            le64_all_len(b);
            le64_all_len(b.drop_last());
            append_injective(
                le64_all(a.drop_last()),
                le64(a.last() as int),
                le64_all(b.drop_last()),
                le64(b.last() as int),
            );
            le64_determined(a.last() as int, b.last() as int);
            assert(a =~= a.drop_last().push(a.last()));
            assert(b =~= b.drop_last().push(b.last()));
        }
    } else {
        le64_all_len(a);
        le64_all_len(b);
        assert(a.len() == b.len() ==> a =~= b);
    }
}

proof fn le64_all_len(a: Seq<u64>)
    ensures
        le64_all(a).len() == 8 * a.len(),
    decreases a.len(),
{
    if a.len() > 0 {
        le64_all_len(a.drop_last());
    }
}

/// Appends the encoding of a 16-bit value.
pub fn push_u16(out: &mut Vec<u8>, v: u16)
    ensures
        final(out)@ == old(out)@ + le16(v as int),
{
    out.push((v % 0x100) as u8);
    out.push((v / 0x100) as u8);
    proof {
        reveal(le16);
    }
}

/// Appends the encoding of a 32-bit value.
pub fn push_u32(out: &mut Vec<u8>, v: u32)
    ensures
        final(out)@ == old(out)@ + le32(v as int),
{
    push_u16(out, (v % 0x1_0000) as u16);
    push_u16(out, (v / 0x1_0000) as u16);
    proof {
        le16_determined(v as int % 0x1_0000, v as int);
    }
}

/// Appends the encoding of a 64-bit value.
pub fn push_u64(out: &mut Vec<u8>, v: u64)
    ensures
        final(out)@ == old(out)@ + le64(v as int),
{
    push_u32(out, (v % 0x1_0000_0000) as u32);
    push_u32(out, (v / 0x1_0000_0000) as u32);
    proof {
        le32_determined(v as int % 0x1_0000_0000, v as int);
    }
}

/// Appends the encoding of a signed 32-bit value.
pub fn push_i32(out: &mut Vec<u8>, v: i32)
    ensures
        final(out)@ == old(out)@ + le32(v as int),
{
    let u: u32 = v as u32;
    proof {
        assert(v >= 0 ==> v as u32 == v) by (bit_vector);
        assert(v < 0 ==> v as u32 == v + 0x1_0000_0000) by (bit_vector);
        le32_determined(u as int, v as int);
    }
    push_u32(out, u);
}

/// Appends the encoding of a signed 64-bit value.
pub fn push_i64(out: &mut Vec<u8>, v: i64)
    ensures
        final(out)@ == old(out)@ + le64(v as int),
{
    let u: u64 = v as u64;
    proof {
        assert(v >= 0 ==> v as u64 == v) by (bit_vector);
        assert(v < 0 ==> v as u64 == v + 0x1_0000_0000_0000_0000) by (bit_vector);
        le64_determined(u as int, v as int);
    }
    push_u64(out, u);
}

/// Appends the encodings of 16-bit values in order.
pub fn push_u16s(out: &mut Vec<u8>, vs: &[u16])
    ensures
        final(out)@ == old(out)@ + le16_all(vs@),
{
    let ghost start = out@;
    let mut i: usize = 0;
    assert(out@ =~= start + le16_all(vs@.take(0)));
    while i < vs.len()
        invariant
            i <= vs@.len(),
            out@ == start + le16_all(vs@.take(i as int)),
        decreases vs@.len() - i,
    {
        push_u16(out, vs[i]);
        assert(vs@.take(i + 1).drop_last() =~= vs@.take(i as int));
        i = i + 1;
        assert(out@ =~= start + le16_all(vs@.take(i as int)));
    }
    assert(vs@.take(i as int) =~= vs@);
}

/// Appends the encodings of 32-bit values in order.
pub fn push_u32s(out: &mut Vec<u8>, vs: &[u32])
    ensures
        final(out)@ == old(out)@ + le32_all(vs@),
{
    let ghost start = out@;
    let mut i: usize = 0;
    assert(out@ =~= start + le32_all(vs@.take(0)));
    while i < vs.len()
        invariant
            i <= vs@.len(),
            out@ == start + le32_all(vs@.take(i as int)),
        decreases vs@.len() - i,
    {
        push_u32(out, vs[i]);
        assert(vs@.take(i + 1).drop_last() =~= vs@.take(i as int));
        i = i + 1;
        assert(out@ =~= start + le32_all(vs@.take(i as int)));
    }
    assert(vs@.take(i as int) =~= vs@);
}

/// The 16-bit value encoded by the two bytes of `data` at `pos`.
pub fn read_u16(data: &[u8], pos: usize) -> (v: u16)
    requires
        pos + 2 <= data.len(),
    ensures
        le16(v as int) == data@.subrange(pos as int, pos + 2),
{
    let v: u16 = data[pos] as u16 + 0x100 * (data[pos + 1] as u16);
    proof {
        reveal(le16);
        assert(le16(v as int) =~= data@.subrange(pos as int, pos + 2));
    }
    v
}

/// The 32-bit value encoded by the four bytes of `data` at `pos`.
pub fn read_u32(data: &[u8], pos: usize) -> (v: u32)
    requires
        pos + 4 <= data.len(),
    ensures
        le32(v as int) == data@.subrange(pos as int, pos + 4),
{
    let low: u16 = read_u16(data, pos);
    let high: u16 = read_u16(data, pos + 2);
    let v: u32 = low as u32 + high as u32 * 0x1_0000;
    proof {
        le16_determined(v as int, low as int);
        assert(data@.subrange(pos as int, pos + 2) + data@.subrange(pos + 2, pos + 4)
            =~= data@.subrange(pos as int, pos + 4));
    }
    v
}

/// The 64-bit value encoded by the eight bytes of `data` at `pos`.
pub fn read_u64(data: &[u8], pos: usize) -> (v: u64)
    requires
        pos + 8 <= data.len(),
    ensures
        le64(v as int) == data@.subrange(pos as int, pos + 8),
{
    let low: u32 = read_u32(data, pos);
    let high: u32 = read_u32(data, pos + 4);
    let v: u64 = low as u64 + high as u64 * 0x1_0000_0000;
    proof {
        le32_determined(v as int, low as int);
        assert(data@.subrange(pos as int, pos + 4) + data@.subrange(pos + 4, pos + 8)
            =~= data@.subrange(pos as int, pos + 8));
    }
    v
}

/// The bytes of a 16-bit encoding, weighted by powers of 256 from the first on,
/// add up to the value modulo 2^16.
pub proof fn le16_is_little_endian(n: int)
    ensures
        le16(n).len() == 2,
        le16(n)[0] + 0x100 * le16(n)[1] == n % 0x1_0000,
        half_at(le16(n), 0) == n % 0x1_0000,
{
    reveal(le16);
    reveal(half_at);
    mod_square(n, 0x100);
}

/// The bytes of a 32-bit encoding, weighted by powers of 256 from the first on,
/// add up to the value modulo 2^32.
pub proof fn le32_is_little_endian(n: int)
    ensures
        le32(n).len() == 4,
        le32(n)[0] + 0x100 * le32(n)[1] + 0x1_0000 * le32(n)[2] + 0x100_0000 * le32(n)[3] == n
            % 0x1_0000_0000,
        word_at(le32(n), 0) == n % 0x1_0000_0000,
{
    reveal(half_at);
    le16_is_little_endian(n);
    le16_is_little_endian(n / 0x1_0000);
    mod_square(n, 0x1_0000);
    let (low, high) = (le16(n), le16(n / 0x1_0000));
    assert(le32(n)[0] == low[0] && le32(n)[1] == low[1]);
    assert(le32(n)[2] == high[0] && le32(n)[3] == high[1]);
}

/// The bytes of a 64-bit encoding, weighted by powers of 256 from the first on,
/// add up to the value modulo 2^64.
pub proof fn le64_is_little_endian(n: int)
    ensures
        le64(n).len() == 8,
        le64(n)[0] + 0x100 * le64(n)[1] + 0x1_0000 * le64(n)[2] + 0x100_0000 * le64(n)[3]
            + 0x1_0000_0000 * le64(n)[4] + 0x100_0000_0000 * le64(n)[5] + 0x1_0000_0000_0000
            * le64(n)[6] + 0x100_0000_0000_0000 * le64(n)[7] == n % 0x1_0000_0000_0000_0000,
        long_at(le64(n), 0) == n % 0x1_0000_0000_0000_0000,
{
    reveal(half_at);
    le32_is_little_endian(n);
    le32_is_little_endian(n / 0x1_0000_0000);
    mod_square(n, 0x1_0000_0000);
    let (low, high) = (le32(n), le32(n / 0x1_0000_0000));
    assert(forall|i: int| 0 <= i < 4 ==> le64(n)[i] == low[i]);
    assert(forall|i: int| 0 <= i < 4 ==> le64(n)[i + 4] == high[i]);
    assert(le64(n)[4] == high[0] && le64(n)[5] == high[1]);
    assert(le64(n)[6] == high[2] && le64(n)[7] == high[3]);
}

/// The numbers at a place in a sequence of bytes, spelled out byte by byte.
pub proof fn numbers_are_little_endian(bytes: Seq<u8>, pos: int)
    ensures
        half_at(bytes, pos) == bytes[pos] + 0x100 * bytes[pos + 1],
        word_at(bytes, pos) == bytes[pos] + 0x100 * bytes[pos + 1] + 0x1_0000 * bytes[pos + 2]
            + 0x100_0000 * bytes[pos + 3],
        long_at(bytes, pos) == bytes[pos] + 0x100 * bytes[pos + 1] + 0x1_0000 * bytes[pos + 2]
            + 0x100_0000 * bytes[pos + 3] + 0x1_0000_0000 * bytes[pos + 4] + 0x100_0000_0000
            * bytes[pos + 5] + 0x1_0000_0000_0000 * bytes[pos + 6] + 0x100_0000_0000_0000
            * bytes[pos + 7],
{
    reveal(half_at);
}

/// The numbers in a stretch of bytes are those in the whole at the same place.
pub proof fn numbers_in_part(bytes: Seq<u8>, part: Seq<u8>, pos: int)
    requires
        0 <= pos,
        pos + part.len() <= bytes.len(),
        bytes.subrange(pos, pos + part.len()) == part,
    ensures
        part.len() == 2 ==> half_at(bytes, pos) == half_at(part, 0),
        part.len() == 4 ==> word_at(bytes, pos) == word_at(part, 0),
        part.len() == 8 ==> long_at(bytes, pos) == long_at(part, 0),
{
    reveal(half_at);
    assert(forall|i: int| 0 <= i < part.len() ==> part[i] == #[trigger] bytes[pos + i]);
    if part.len() == 2 {
        assert(part[0] == bytes[pos + 0] && part[1] == bytes[pos + 1]);
    } else if part.len() == 4 {
        assert(part[0] == bytes[pos + 0] && part[1] == bytes[pos + 1]);
        assert(part[2] == bytes[pos + 2] && part[3] == bytes[pos + 3]);
    } else if part.len() == 8 {
        assert(part[0] == bytes[pos + 0] && part[1] == bytes[pos + 1]);
        assert(part[2] == bytes[pos + 2] && part[3] == bytes[pos + 3]);
        assert(part[4] == bytes[pos + 4] && part[5] == bytes[pos + 5]);
        assert(part[6] == bytes[pos + 6] && part[7] == bytes[pos + 7]);
    }
}

/// The 16-bit value at index `i` of a sequence stands at byte `2 * i`.
pub proof fn le16_all_at(vs: Seq<u16>, i: int)
    requires
        0 <= i < vs.len(),
    ensures
        le16_all(vs).len() == 2 * vs.len(),
        le16_all(vs).subrange(2 * i, 2 * i + 2) == le16(vs[i] as int),
        half_at(le16_all(vs), 2 * i) == vs[i],
    decreases vs.len(),
{
    let init = le16_all(vs.drop_last());
    le16_all_len(vs);
    le16_all_len(vs.drop_last());
    if i < vs.len() - 1 {
        le16_all_at(vs.drop_last(), i);
        assert(le16_all(vs).subrange(2 * i, 2 * i + 2) =~= init.subrange(2 * i, 2 * i + 2));
    } else {
        assert(le16_all(vs).subrange(2 * i, 2 * i + 2) =~= le16(vs[i] as int));
    }
    le16_is_little_endian(vs[i] as int);
    numbers_in_part(le16_all(vs), le16(vs[i] as int), 2 * i);
}

/// The 32-bit value at index `i` of a sequence stands at byte `4 * i`.
pub proof fn le32_all_at(vs: Seq<u32>, i: int)
    requires
        0 <= i < vs.len(),
    ensures
        le32_all(vs).len() == 4 * vs.len(),
        le32_all(vs).subrange(4 * i, 4 * i + 4) == le32(vs[i] as int),
        word_at(le32_all(vs), 4 * i) == vs[i],
    decreases vs.len(),
{
    let init = le32_all(vs.drop_last());
    le32_all_len(vs);
    le32_all_len(vs.drop_last());
    if i < vs.len() - 1 {
        le32_all_at(vs.drop_last(), i);
        assert(le32_all(vs).subrange(4 * i, 4 * i + 4) =~= init.subrange(4 * i, 4 * i + 4));
    } else {
        assert(le32_all(vs).subrange(4 * i, 4 * i + 4) =~= le32(vs[i] as int));
    }
    le32_is_little_endian(vs[i] as int);
    numbers_in_part(le32_all(vs), le32(vs[i] as int), 4 * i);
}

/// The 64-bit value at index `i` of a sequence stands at byte `8 * i`.
pub proof fn le64_all_at(vs: Seq<u64>, i: int)
    requires
        0 <= i < vs.len(),
    ensures
        le64_all(vs).len() == 8 * vs.len(),
        le64_all(vs).subrange(8 * i, 8 * i + 8) == le64(vs[i] as int),
        long_at(le64_all(vs), 8 * i) == vs[i],
    decreases vs.len(),
{
    let init = le64_all(vs.drop_last());
    le64_all_len(vs);
    le64_all_len(vs.drop_last());
    if i < vs.len() - 1 {
        le64_all_at(vs.drop_last(), i);
        assert(le64_all(vs).subrange(8 * i, 8 * i + 8) =~= init.subrange(8 * i, 8 * i + 8));
    } else {
        assert(le64_all(vs).subrange(8 * i, 8 * i + 8) =~= le64(vs[i] as int));
    }
    le64_is_little_endian(vs[i] as int);
    numbers_in_part(le64_all(vs), le64(vs[i] as int), 8 * i);
}

} // verus!
