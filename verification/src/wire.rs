//! Numbers as bytes: unsigned integers of a fixed width, least significant
//! byte first, and signed 32-bit integers in two's complement.

use vstd::prelude::*;

verus! {

/// 256 to the power of `n`.
pub open spec fn pow256(n: nat) -> nat
    decreases n,
{
    if n == 0 {
        1
    } else {
        256 * pow256((n - 1) as nat)
    }
}

/// The `n` lowest bytes of `x`, least significant first.
pub open spec fn le_bytes(x: nat, n: nat) -> Seq<u8>
    decreases n,
{
    if n == 0 {
        Seq::empty()
    } else {
        seq![(x % 256) as u8] + le_bytes(x / 256, (n - 1) as nat)
    }
}

/// The number that bytes spell, least significant first.
pub open spec fn le_value(b: Seq<u8>) -> nat
    decreases b.len(),
{
    if b.len() == 0 {
        0
    } else {
        b[0] as nat + 256 * le_value(b.skip(1))
    }
}

/// A signed 32-bit integer as the unsigned number with the same bits.
pub open spec fn i32_bits(x: i32) -> nat {
    if x >= 0 {
        x as nat
    } else {
        (x + 0x1_0000_0000) as nat
    }
}

/// The signed 32-bit integer with the bits of an unsigned number under
/// 2 to the 32.
pub open spec fn bits_i32(u: nat) -> i32 {
    if u < 0x8000_0000 {
        u as i32
    } else {
        (u - 0x1_0000_0000) as i32
    }
}

/// The powers of 256 that fit the widths in use.
pub proof fn lemma_pow256_values()
    ensures
        pow256(0) == 1,
        pow256(1) == 0x100,
        pow256(2) == 0x1_0000,
        pow256(3) == 0x100_0000,
        pow256(4) == 0x1_0000_0000,
        pow256(5) == 0x100_0000_0000,
        pow256(6) == 0x1_0000_0000_0000,
        pow256(7) == 0x100_0000_0000_0000,
        pow256(8) == 0x1_0000_0000_0000_0000,
{
    reveal_with_fuel(pow256, 9);
}

/// A number written in `n` bytes takes `n` bytes.
pub proof fn lemma_le_bytes_len(x: nat, n: nat)
    ensures
        le_bytes(x, n).len() == n,
    decreases n,
{
    if n > 0 {
        lemma_le_bytes_len(x / 256, (n - 1) as nat);
    }
}

/// What `n` bytes spell is below 256 to the `n`.
pub proof fn lemma_le_value_bound(b: Seq<u8>)
    ensures
        le_value(b) < pow256(b.len()),
    decreases b.len(),
{
    if b.len() > 0 {
        lemma_le_value_bound(b.skip(1));
    }
}

/// Reading back what was written gives the number, if it fits the width.
pub proof fn lemma_le_round_trip(x: nat, n: nat)
    requires
        x < pow256(n),
    ensures
        le_value(le_bytes(x, n)) == x,
    decreases n,
{
    if n > 0 {
        let rest = le_bytes(x / 256, (n - 1) as nat);
        lemma_le_round_trip(x / 256, (n - 1) as nat);
        assert(le_bytes(x, n).skip(1) =~= rest);
    }
}

/// Writing what was read gives the bytes: no two rows of bytes of one
/// width spell the same number.
pub proof fn lemma_le_canonical(b: Seq<u8>)
    ensures
        le_bytes(le_value(b), b.len()) == b,
    decreases b.len(),
{
    if b.len() > 0 {
        lemma_le_canonical(b.skip(1));
    }
}

/// A signed integer comes back from its bits, and bits under 2 to the 32
/// come back from their signed integer.
pub proof fn lemma_i32_bits(x: i32, u: nat)
    ensures
        i32_bits(x) < 0x1_0000_0000,
        bits_i32(i32_bits(x)) == x,
        u < 0x1_0000_0000 ==> i32_bits(bits_i32(u)) == u,
{
}

/// Appends the `n` lowest bytes of `x`, least significant first.
pub fn put_le(out: &mut Vec<u8>, x: u64, n: usize)
    requires
        n <= 8,
    ensures
        final(out)@ == old(out)@ + le_bytes(x as nat, n as nat),
{
    let mut v = x;
    let mut i: usize = 0;
    while i < n
        invariant
            i <= n,
            old(out)@ + le_bytes(x as nat, n as nat) == out@ + le_bytes(v as nat, (n - i) as nat),
        decreases n - i,
    {
        proof {
            let rest = le_bytes(v as nat / 256, (n - i - 1) as nat);
            assert(out@ + le_bytes(v as nat, (n - i) as nat) =~= out@.push((v % 256) as u8)
                + rest);
        }
        out.push((v % 256) as u8);
        v = v / 256;
        i += 1;
    }
}

/// Reads `n` bytes at `at` as a number, least significant first; `None`
/// where fewer than `n` bytes are left.
pub fn get_le(bytes: &[u8], at: usize, n: usize) -> (r: Option<u64>)
    requires
        n <= 8,
        at <= bytes.len(),
    ensures
        match r {
            Some(v) => at + n <= bytes.len() && v == le_value(bytes@.subrange(at as int, at + n)),
            None => bytes.len() - at < n,
        },
{
    if bytes.len() - at < n {
        return None;
    }
    let mut v: u64 = 0;
    let mut i: usize = 0;
    proof {
        lemma_pow256_values();
    }
    while i < n
        invariant
            i <= n <= 8,
            at + n <= bytes.len(),
            v == le_value(bytes@.subrange(at + n - i, at + n)),
            v < pow256(i as nat),
        decreases n - i,
    {
        let b = bytes[at + n - 1 - i];
        proof {
            lemma_pow256_values();
            let longer = bytes@.subrange(at + n - i - 1, at + n);
            assert(longer.skip(1) =~= bytes@.subrange(at + n - i, at + n));
        }
        v = v * 256 + b as u64;
        i += 1;
    }
    Some(v)
}

} // verus!
