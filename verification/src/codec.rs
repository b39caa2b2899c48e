//! Fixed-width integer encodings: big-endian for the fields of a key, so that keys sort as the
//! numbers do, and little-endian for counter values, as the store's atomic add expects them.

use crate::order::{lemma_lex_lt_fields, lemma_lex_total, lex_lt, precedes_at};
use vstd::prelude::*;

verus! {

/// 256 to the power `width`.
pub open spec fn pow256(width: nat) -> nat
    decreases width,
{
    if width == 0 {
        1
    } else {
        256 * pow256((width - 1) as nat)
    }
}

/// The `width` low-order base-256 digits of `value`, most significant first.
pub open spec fn be_bytes(value: nat, width: nat) -> Seq<u8>
    decreases width,
{
    if width == 0 {
        Seq::empty()
    } else {
        be_bytes(value / 256, (width - 1) as nat).push((value % 256) as u8)
    }
}

/// The number whose base-256 digits, most significant first, are `bytes`.
pub open spec fn be_value(bytes: Seq<u8>) -> nat
    decreases bytes.len(),
{
    if bytes.len() == 0 {
        0
    } else {
        be_value(bytes.drop_last()) * 256 + bytes.last() as nat
    }
}

/// The `width` low-order base-256 digits of `value`, least significant first.
pub open spec fn le_bytes(value: nat, width: nat) -> Seq<u8>
    decreases width,
{
    if width == 0 {
        Seq::empty()
    } else {
        seq![(value % 256) as u8] + le_bytes(value / 256, (width - 1) as nat)
    }
}

/// The number whose base-256 digits, least significant first, are `bytes`.
pub open spec fn le_value(bytes: Seq<u8>) -> nat
    decreases bytes.len(),
{
    if bytes.len() == 0 {
        0
    } else {
        bytes[0] as nat + 256 * le_value(bytes.drop_first())
    }
}

/// The two's complement of a 64-bit signed number, as a natural number below 2^64.
pub open spec fn unsigned64(n: i64) -> nat {
    if n >= 0 {
        n as nat
    } else {
        (n + 0x1_0000_0000_0000_0000) as nat
    }
}

/// The signed number whose two's complement is `v`.
pub open spec fn signed64(v: nat) -> i64 {
    if v < 0x8000_0000_0000_0000 {
        v as i64
    } else {
        (v - 0x1_0000_0000_0000_0000) as i64
    }
}

/// The two's complement of a 32-bit signed number, as a natural number below 2^32.
pub open spec fn unsigned32(n: i32) -> nat {
    if n >= 0 {
        n as nat
    } else {
        (n + 0x1_0000_0000) as nat
    }
}

/// The number that the low 32 bits of `n` stand for, read with a sign.
pub open spec fn low_i32(n: i64) -> i32 {
    let low = unsigned64(n) % 0x1_0000_0000;
    if low < 0x8000_0000 {
        low as i32
    } else {
        (low - 0x1_0000_0000) as i32
    }
}

/// Eight bytes, most significant first.
pub open spec fn i64_be(n: i64) -> Seq<u8> {
    be_bytes(unsigned64(n), 8)
}

/// Eight bytes, least significant first.
pub open spec fn i64_le(n: i64) -> Seq<u8> {
    le_bytes(unsigned64(n), 8)
}

/// Four bytes, most significant first.
pub open spec fn i32_be(n: i32) -> Seq<u8> {
    be_bytes(unsigned32(n), 4)
}

/// Four bytes, most significant first.
pub open spec fn u32_be(n: u32) -> Seq<u8> {
    be_bytes(n as nat, 4)
}

/// Four bytes, least significant first.
pub open spec fn u32_le(n: u32) -> Seq<u8> {
    le_bytes(n as nat, 4)
}

/// What a stored little-endian value stands for: zero where fewer than eight bytes are there,
/// else the number in the first eight.
pub open spec fn decode_i64_le_spec(buf: Seq<u8>) -> i64 {
    if buf.len() < 8 {
        0
    } else {
        signed64(le_value(buf.subrange(0, 8)))
    }
}

/// What a stored big-endian value stands for: zero where fewer than eight bytes are there,
/// else the number in the first eight.
pub open spec fn decode_i64_be_spec(buf: Seq<u8>) -> i64 {
    if buf.len() < 8 {
        0
    } else {
        signed64(be_value(buf.subrange(0, 8)))
    }
}

/// The number in the four bytes of `buf` that start at `at`, most significant first.
pub open spec fn u32_be_at(buf: Seq<u8>, at: int) -> int {
    be_value(buf.subrange(at, at + 4)) as int
}

pub proof fn lemma_pow256_values()
    ensures
        pow256(0) == 1,
        pow256(1) == 0x100,
        pow256(3) == 0x100_0000,
        pow256(4) == 0x1_0000_0000,
        pow256(8) == 0x1_0000_0000_0000_0000,
{
    reveal_with_fuel(pow256, 9);
}

pub proof fn lemma_be_bytes_len(value: nat, width: nat)
    ensures
        be_bytes(value, width).len() == width,
    decreases width,
{
    if width > 0 {
        lemma_be_bytes_len(value / 256, (width - 1) as nat);
    }
}

pub proof fn lemma_le_bytes_len(value: nat, width: nat)
    ensures
        le_bytes(value, width).len() == width,
    decreases width,
{
    if width > 0 {
        lemma_le_bytes_len(value / 256, (width - 1) as nat);
    }
}

/// Decoding what was encoded gives the number back, where the width holds it.
pub proof fn lemma_be_round_trip(value: nat, width: nat)
    requires
        value < pow256(width),
    ensures
        be_value(be_bytes(value, width)) == value,
    decreases width,
{
    if width > 0 {
        let rest = be_bytes(value / 256, (width - 1) as nat);
        lemma_be_round_trip(value / 256, (width - 1) as nat);
        assert(be_bytes(value, width).drop_last() =~= rest);
    }
}

/// Decoding what was encoded gives the number back, where the width holds it.
pub proof fn lemma_le_round_trip(value: nat, width: nat)
    requires
        value < pow256(width),
    ensures
        le_value(le_bytes(value, width)) == value,
    decreases width,
{
    if width > 0 {
        let rest = le_bytes(value / 256, (width - 1) as nat);
        lemma_le_round_trip(value / 256, (width - 1) as nat);
        assert(le_bytes(value, width).drop_first() =~= rest);
    }
}

pub proof fn lemma_be_value_bound(bytes: Seq<u8>)
    ensures
        be_value(bytes) < pow256(bytes.len()),
    decreases bytes.len(),
{
    if bytes.len() > 0 {
        lemma_be_value_bound(bytes.drop_last());
    }
}

pub proof fn lemma_le_value_bound(bytes: Seq<u8>)
    ensures
        le_value(bytes) < pow256(bytes.len()),
    decreases bytes.len(),
{
    if bytes.len() > 0 {
        lemma_le_value_bound(bytes.drop_first());
    }
}

/// Big-endian strings of one length sort as their numbers do.
pub proof fn lemma_be_order(a: Seq<u8>, b: Seq<u8>)
    requires
        a.len() == b.len(),
    ensures
        lex_lt(a, b) <==> be_value(a) < be_value(b),
        a == b <==> be_value(a) == be_value(b),
    decreases a.len(),
{
    if a.len() == 0 {
        assert(a =~= b);
        assert(!lex_lt(a, b)) by {
            if lex_lt(a, b) {
                let i = choose|i: int| precedes_at(a, b, i);
            }
        }
    } else {
        let a0 = a.drop_last();
        let b0 = b.drop_last();
        let x = seq![a.last()];
        let y = seq![b.last()];
        assert(a =~= a0 + x);
        assert(b =~= b0 + y);
        lemma_be_order(a0, b0);
        lemma_lex_lt_fields(a0, x, b0, y);
        lemma_lex_total(a0, b0);
        lemma_be_order(b0, a0);
        assert(lex_lt(x, y) <==> a.last() < b.last()) by {
            if lex_lt(x, y) {
                let i = choose|i: int| precedes_at(x, y, i);
                assert(i == 0);
            }
            if a.last() < b.last() {
                assert(precedes_at(x, y, 0));
            }
        }
        if a0 == b0 && a.last() == b.last() {
            assert(a =~= b);
        }
    }
}

/// Of two numbers that are not negative, the smaller has the smaller big-endian encoding.
pub proof fn lemma_i64_be_order(a: i64, b: i64)
    requires
        0 <= a,
        0 <= b,
    ensures
        lex_lt(i64_be(a), i64_be(b)) <==> a < b,
        i64_be(a) == i64_be(b) <==> a == b,
{
    lemma_pow256_values();
    lemma_be_bytes_len(a as nat, 8);
    lemma_be_bytes_len(b as nat, 8);
    lemma_be_round_trip(a as nat, 8);
    lemma_be_round_trip(b as nat, 8);
    lemma_be_order(i64_be(a), i64_be(b));
}

/// Of two numbers that are not negative, the smaller has the smaller big-endian encoding.
pub proof fn lemma_i32_be_order(a: i32, b: i32)
    requires
        0 <= a,
        0 <= b,
    ensures
        lex_lt(i32_be(a), i32_be(b)) <==> a < b,
        i32_be(a) == i32_be(b) <==> a == b,
{
    lemma_pow256_values();
    lemma_be_bytes_len(a as nat, 4);
    lemma_be_bytes_len(b as nat, 4);
    lemma_be_round_trip(a as nat, 4);
    lemma_be_round_trip(b as nat, 4);
    lemma_be_order(i32_be(a), i32_be(b));
}

/// A number of 32 bits is its own low 32 bits.
pub proof fn lemma_low_i32(n: i32)
    ensures
        low_i32(n as i64) == n,
{
}

/// A stored counter reads back as the number that was written.
pub proof fn lemma_decode_encode_i64_le(n: i64)
    ensures
        i64_le(n).len() == 8,
        decode_i64_le_spec(i64_le(n)) == n,
{
    lemma_pow256_values();
    lemma_le_bytes_len(unsigned64(n), 8);
    lemma_le_round_trip(unsigned64(n), 8);
    assert(i64_le(n).subrange(0, 8) =~= i64_le(n));
}

/// A stored expiry time reads back as the number that was written.
pub proof fn lemma_decode_encode_i64_be(n: i64)
    ensures
        i64_be(n).len() == 8,
        decode_i64_be_spec(i64_be(n)) == n,
{
    lemma_pow256_values();
    lemma_be_bytes_len(unsigned64(n), 8);
    lemma_be_round_trip(unsigned64(n), 8);
    assert(i64_be(n).subrange(0, 8) =~= i64_be(n));
}

/// The first byte of a four-byte length is zero where the length is below 2^24.
pub proof fn lemma_u32_be_first_byte(n: u32)
    ensures
        u32_be(n).len() == 4,
        n < 0x100_0000 ==> u32_be(n)[0] == 0,
{
    reveal_with_fuel(be_bytes, 5);
    lemma_be_bytes_len(n as nat, 4);
}

proof fn lemma_be_value_8(s: Seq<u8>)
    requires
        s.len() == 8,
    ensures
        be_value(s) == ((((((s[0] as nat * 256 + s[1] as nat) * 256 + s[2] as nat) * 256
            + s[3] as nat) * 256 + s[4] as nat) * 256 + s[5] as nat) * 256 + s[6] as nat) * 256
            + s[7] as nat,
{
    let s7 = s.drop_last();
    let s6 = s7.drop_last();
    let s5 = s6.drop_last();
    let s4 = s5.drop_last();
    lemma_be_value_4(s4);
    assert(be_value(s5) == be_value(s4) * 256 + s5.last() as nat);
    assert(be_value(s6) == be_value(s5) * 256 + s6.last() as nat);
    assert(be_value(s7) == be_value(s6) * 256 + s7.last() as nat);
    assert(be_value(s) == be_value(s7) * 256 + s.last() as nat);
}

proof fn lemma_be_value_4(s: Seq<u8>)
    requires
        s.len() == 4,
    ensures
        be_value(s) == ((s[0] as nat * 256 + s[1] as nat) * 256 + s[2] as nat) * 256
            + s[3] as nat,
{
    let s3 = s.drop_last();
    let s2 = s3.drop_last();
    let s1 = s2.drop_last();
    let s0 = s1.drop_last();
    assert(be_value(s0) == 0);
    assert(be_value(s1) == be_value(s0) * 256 + s1.last() as nat);
    assert(be_value(s2) == be_value(s1) * 256 + s2.last() as nat);
    assert(be_value(s3) == be_value(s2) * 256 + s3.last() as nat);
    assert(be_value(s) == be_value(s3) * 256 + s.last() as nat);
}

proof fn lemma_le_value_8(s: Seq<u8>)
    requires
        s.len() == 8,
    ensures
        le_value(s) == s[0] as nat + 256 * (s[1] as nat + 256 * (s[2] as nat + 256 * (s[3] as nat
            + 256 * (s[4] as nat + 256 * (s[5] as nat + 256 * (s[6] as nat + 256
            * s[7] as nat)))))),
{
    let s1 = s.drop_first();
    let s2 = s1.drop_first();
    let s3 = s2.drop_first();
    let s4 = s3.drop_first();
    let s5 = s4.drop_first();
    let s6 = s5.drop_first();
    let s7 = s6.drop_first();
    let s8 = s7.drop_first();
    assert(le_value(s8) == 0);
    assert(le_value(s7) == s7[0] as nat + 256 * le_value(s8));
    assert(le_value(s6) == s6[0] as nat + 256 * le_value(s7));
    assert(le_value(s5) == s5[0] as nat + 256 * le_value(s6));
    assert(le_value(s4) == s4[0] as nat + 256 * le_value(s5));
    assert(le_value(s3) == s3[0] as nat + 256 * le_value(s4));
    assert(le_value(s2) == s2[0] as nat + 256 * le_value(s3));
    assert(le_value(s1) == s1[0] as nat + 256 * le_value(s2));
    assert(le_value(s) == s[0] as nat + 256 * le_value(s1));
}

/// The two's complement of `n`, computed without a wrapping cast.
fn to_unsigned64(n: i64) -> (u: u64)
    ensures
        u == unsigned64(n),
{
    if n >= 0 {
        n as u64
    } else {
        ((n - i64::MIN) as u64) + 0x8000_0000_0000_0000u64
    }
}

/// The signed number whose two's complement is `u`.
fn to_signed64(u: u64) -> (n: i64)
    ensures
        n == signed64(u as nat),
{
    if u < 0x8000_0000_0000_0000u64 {
        u as i64
    } else {
        ((u - 0x8000_0000_0000_0000u64) as i64) + i64::MIN
    }
}

/// Cuts a number to its low 32 bits; a number that fits in them is unchanged.
pub fn truncate_i32(n: i64) -> (r: i32)
    ensures
        r == low_i32(n),
        i32::MIN <= n <= i32::MAX ==> r == n,
{
    let low: u64 = to_unsigned64(n) % 0x1_0000_0000u64;
    if low < 0x8000_0000u64 {
        low as i32
    } else {
        ((low as i64) - 0x1_0000_0000i64) as i32
    }
}

/// The eight bytes of `u`, most significant first.
fn u64_digits(u: u64) -> (d: [u8; 8])
    ensures
        d@ == be_bytes(u as nat, 8),
        d@.reverse() == le_bytes(u as nat, 8),
{
    let b7: u8 = (u % 256) as u8;
    let u6: u64 = u / 256;
    let b6: u8 = (u6 % 256) as u8;
    let u5: u64 = u6 / 256;
    let b5: u8 = (u5 % 256) as u8;
    let u4: u64 = u5 / 256;
    let b4: u8 = (u4 % 256) as u8;
    let u3: u64 = u4 / 256;
    let b3: u8 = (u3 % 256) as u8;
    let u2: u64 = u3 / 256;
    let b2: u8 = (u2 % 256) as u8;
    let u1: u64 = u2 / 256;
    let b1: u8 = (u1 % 256) as u8;
    let u0: u64 = u1 / 256;
    let b0: u8 = (u0 % 256) as u8;
    let d = [b0, b1, b2, b3, b4, b5, b6, b7];
    proof {
        reveal_with_fuel(be_bytes, 9);
        reveal_with_fuel(le_bytes, 9);
        assert(d@ =~= be_bytes(u as nat, 8));
        assert(d@.reverse() =~= le_bytes(u as nat, 8));
    }
    d
}

/// The four bytes of `u`, most significant first.
fn u32_digits(u: u32) -> (d: [u8; 4])
    ensures
        d@ == be_bytes(u as nat, 4),
        d@.reverse() == le_bytes(u as nat, 4),
{
    let b3: u8 = (u % 256) as u8;
    let u2: u32 = u / 256;
    let b2: u8 = (u2 % 256) as u8;
    let u1: u32 = u2 / 256;
    let b1: u8 = (u1 % 256) as u8;
    let u0: u32 = u1 / 256;
    let b0: u8 = (u0 % 256) as u8;
    let d = [b0, b1, b2, b3];
    proof {
        reveal_with_fuel(be_bytes, 5);
        reveal_with_fuel(le_bytes, 5);
        assert(d@ =~= be_bytes(u as nat, 4));
        assert(d@.reverse() =~= le_bytes(u as nat, 4));
    }
    d
}

/// A counter value as the store's atomic add reads it.
pub fn encode_i64_le(n: i64) -> (out: [u8; 8])
    ensures
        out@ == i64_le(n),
{
    let d = u64_digits(to_unsigned64(n));
    let out = [d[7], d[6], d[5], d[4], d[3], d[2], d[1], d[0]];
    assert(out@ =~= d@.reverse());
    out
}

/// Reads a counter value; fewer than eight bytes read as zero.
pub fn decode_i64_le(buf: &[u8]) -> (n: i64)
    ensures
        n == decode_i64_le_spec(buf@),
{
    if buf.len() < 8 {
        return 0;
    }
    proof {
        lemma_le_value_8(buf@.subrange(0, 8));
    }
    let mut u: u64 = buf[7] as u64;
    u = u * 256 + buf[6] as u64;
    u = u * 256 + buf[5] as u64;
    u = u * 256 + buf[4] as u64;
    u = u * 256 + buf[3] as u64;
    u = u * 256 + buf[2] as u64;
    u = u * 256 + buf[1] as u64;
    u = u * 256 + buf[0] as u64;
    to_signed64(u)
}

/// A number as it stands in a key or in an expiry value.
pub fn encode_i64_be(n: i64) -> (out: [u8; 8])
    ensures
        out@ == i64_be(n),
{
    u64_digits(to_unsigned64(n))
}

/// Reads an expiry value; fewer than eight bytes read as zero.
pub fn decode_i64_be(buf: &[u8]) -> (n: i64)
    ensures
        n == decode_i64_be_spec(buf@),
{
    if buf.len() < 8 {
        return 0;
    }
    proof {
        lemma_be_value_8(buf@.subrange(0, 8));
    }
    let mut u: u64 = buf[0] as u64;
    u = u * 256 + buf[1] as u64;
    u = u * 256 + buf[2] as u64;
    u = u * 256 + buf[3] as u64;
    u = u * 256 + buf[4] as u64;
    u = u * 256 + buf[5] as u64;
    u = u * 256 + buf[6] as u64;
    u = u * 256 + buf[7] as u64;
    to_signed64(u)
}

/// A priority as it stands in a key.
pub fn encode_i32_be(n: i32) -> (out: [u8; 4])
    ensures
        out@ == i32_be(n),
{
    let u: u32 = if n >= 0 {
        n as u32
    } else {
        ((n - i32::MIN) as u32) + 0x8000_0000u32
    };
    u32_digits(u)
}

/// A length as it stands before an id in a key.
pub fn encode_u32_be(n: u32) -> (out: [u8; 4])
    ensures
        out@ == u32_be(n),
{
    u32_digits(n)
}

/// An offset as the store reads it at the end of a versionstamped key.
pub fn encode_u32_le(n: u32) -> (out: [u8; 4])
    ensures
        out@ == u32_le(n),
{
    let d = u32_digits(n);
    let out = [d[3], d[2], d[1], d[0]];
    assert(out@ =~= d@.reverse());
    out
}

/// Reads the four-byte length that starts at `at`.
pub fn decode_u32_be(buf: &[u8], at: usize) -> (n: u32)
    requires
        at + 4 <= buf@.len(),
    ensures
        n == u32_be_at(buf@, at as int),
{
    proof {
        lemma_be_value_4(buf@.subrange(at as int, at + 4));
    }
    let mut u: u32 = buf[at] as u32;
    u = u * 256 + buf[at + 1] as u32;
    u = u * 256 + buf[at + 2] as u32;
    u = u * 256 + buf[at + 3] as u32;
    u
}

} // verus!
