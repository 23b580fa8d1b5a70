//! Integer conversions: those that keep the low bits, as two's complement hardware does, and
//! those to and from big endian bytes.

use vstd::prelude::*;

verus! {

/// The number in `[-m / 2, m / 2)` that is congruent to `n` modulo the even number `m`.
pub open spec fn wrap_signed(n: int, m: int) -> int {
    if n % m < m / 2 {
        n % m
    } else {
        n % m - m
    }
}

/// `n` read as a signed 32-bit number.
pub fn wrap_i32(n: u32) -> (r: i32)
    ensures
        r == wrap_signed(n as int, 0x1_0000_0000),
{
    if n < 0x8000_0000 {
        n as i32
    } else {
        (n as i64 - 0x1_0000_0000) as i32
    }
}

/// The low 16 bits of `n`, read as a signed number.
pub fn wrap_i16(n: i64) -> (r: i16)
    ensures
        r == wrap_signed(n as int, 0x1_0000),
{
    let low: u16 = wrap_u16(n);
    if low < 0x8000 {
        low as i16
    } else {
        (low as i32 - 0x1_0000) as i16
    }
}

/// The low 16 bits of `n`.
pub fn wrap_u16(n: i64) -> (r: u16)
    ensures
        r == n as int % 0x1_0000,
{
    let bits: u64 = n as u64;
    assert(bits as u16 == bits & 0xffff) by (bit_vector);
    assert(bits & 0xffff == bits % 0x1_0000) by (bit_vector);
    assert(n >= 0 ==> bits == n) by (bit_vector)
        requires
            bits == n as u64,
    ;
    assert(n < 0 ==> bits == n + 0x1_0000_0000_0000_0000) by (bit_vector)
        requires
            bits == n as u64,
    ;
    (bits % 0x1_0000) as u16
}

/// The low `len` bytes of `n`, most significant first.
pub open spec fn be_bytes(n: nat, len: nat) -> Seq<u8>
    decreases len,
{
    if len == 0 {
        Seq::empty()
    } else {
        be_bytes(n / 256, (len - 1) as nat).push((n % 256) as u8)
    }
}

/// The number that the bytes of `s` spell, most significant first.
pub open spec fn be_value(s: Seq<u8>) -> nat
    decreases s.len(),
{
    if s.len() == 0 {
        0
    } else {
        256 * be_value(s.drop_last()) + s.last() as nat
    }
}

/// `256` to the power of `len`.
pub open spec fn byte_range(len: nat) -> nat
    decreases len,
{
    if len == 0 {
        1
    } else {
        256 * byte_range((len - 1) as nat)
    }
}

/// Writing a number that fits and reading it back gives the number.
pub proof fn be_bytes_round_trip(n: nat, len: nat)
    requires
        n < byte_range(len),
    ensures
        be_bytes(n, len).len() == len,
        be_value(be_bytes(n, len)) == n,
    decreases len,
{
    if len > 0 {
        be_bytes_round_trip(n / 256, (len - 1) as nat);
        let s = be_bytes(n, len);
        assert(s.drop_last() =~= be_bytes(n / 256, (len - 1) as nat));
    }
}

/// There are as many bytes as asked for.
pub proof fn lemma_be_bytes_len(n: nat, len: nat)
    ensures
        be_bytes(n, len).len() == len,
    decreases len,
{
    if len > 0 {
        lemma_be_bytes_len(n / 256, (len - 1) as nat);
    }
}

/// Appends the low `len` bytes of `n`, most significant first.
pub fn push_be(out: &mut Vec<u8>, n: u64, len: usize)
    ensures
        final(out)@ == old(out)@ + be_bytes(n as nat, len as nat),
    decreases len,
{
    if len > 0 {
        push_be(out, n / 256, len - 1);
        out.push((n % 256) as u8);
    }
}

/// Reads a number of at most eight bytes, most significant first.
pub fn read_be(bytes: &[u8]) -> (r: u64)
    requires
        bytes@.len() <= 8,
    ensures
        r == be_value(bytes@),
{
    let mut value: u64 = 0;
    let mut i: usize = 0;
    proof {
        reveal_with_fuel(byte_range, 9);
    }
    while i < bytes.len()
        invariant
            i <= bytes@.len() <= 8,
            value == be_value(bytes@.take(i as int)),
            value < byte_range(i as nat),
        decreases bytes@.len() - i,
    {
        proof {
            reveal_with_fuel(byte_range, 9);
            assert(bytes@.take(i + 1).drop_last() =~= bytes@.take(i as int));
        }
        value = 256 * value + bytes[i] as u64;
        i += 1;
    }
    assert(bytes@.take(i as int) =~= bytes@);
    value
}

} // verus!
