//! Fixed-width integers as bytes, and the number a byte string stands for.
//!
//! Byte strings are read as base-256 numerals. `le_value` reads the first
//! byte as the least significant digit, `be_value` reads it as the most
//! significant one.

use vstd::prelude::*;

verus! {

/// The number written by `s` in base 256, least significant byte first.
pub open spec fn le_value(s: Seq<u8>) -> nat
    decreases s.len(),
{
    if s.len() == 0 {
        0
    } else {
        s[0] as nat + 256 * le_value(s.drop_first())
    }
}

/// The number written by `s` in base 256, most significant byte first.
pub open spec fn be_value(s: Seq<u8>) -> nat {
    le_value(s.reverse())
}

/// The `n` least significant base-256 digits of `x`, least significant first.
pub open spec fn le_bytes(x: nat, n: nat) -> Seq<u8>
    decreases n,
{
    if n == 0 {
        Seq::empty()
    } else {
        seq![(x % 256) as u8] + le_bytes(x / 256, (n - 1) as nat)
    }
}

/// The `n` least significant base-256 digits of `x`, most significant first.
pub open spec fn be_bytes(x: nat, n: nat) -> Seq<u8> {
    le_bytes(x, n).reverse()
}

/// `n` zero bytes.
pub open spec fn zeros(n: nat) -> Seq<u8> {
    Seq::new(n, |i: int| 0u8)
}

/// `le_bytes` yields exactly as many digits as it is asked for.
pub proof fn lemma_le_bytes_len(x: nat, n: nat)
    ensures
        le_bytes(x, n).len() == n,
    decreases n,
{
    if n > 0 {
        lemma_le_bytes_len(x / 256, (n - 1) as nat);
    }
}

/// Decoding undoes encoding for every 64-bit number.
pub proof fn lemma_le_value_of_le_bytes_u64(x: u64)
    ensures
        le_bytes(x as nat, 8).len() == 8,
        le_value(le_bytes(x as nat, 8)) == x,
{
    let x0 = x as nat;
    let x1 = x0 / 256;
    let x2 = x1 / 256;
    let x3 = x2 / 256;
    let x4 = x3 / 256;
    let x5 = x4 / 256;
    let x6 = x5 / 256;
    let x7 = x6 / 256;
    let x8 = x7 / 256;
    assert(x8 == 0);
    lemma_le_step(x7, 0);
    lemma_le_step(x6, 1);
    lemma_le_step(x5, 2);
    lemma_le_step(x4, 3);
    lemma_le_step(x3, 4);
    lemma_le_step(x2, 5);
    lemma_le_step(x1, 6);
    lemma_le_step(x0, 7);
    assert(le_bytes(x8, 0) =~= Seq::<u8>::empty());
    assert(le_value(le_bytes(x8, 0)) == 0);
    lemma_le_bytes_len(x0, 8);
}

/// One digit more: the value grows by the digit that the rest is shifted past.
proof fn lemma_le_step(x: nat, n: nat)
    ensures
        le_value(le_bytes(x, n + 1)) == x % 256 + 256 * le_value(le_bytes(x / 256, n)),
{
    let rest = le_bytes(x / 256, n);
    let all = le_bytes(x, n + 1);
    assert(all =~= seq![(x % 256) as u8] + rest);
    assert(all.drop_first() =~= rest);
    assert(all[0] == (x % 256) as u8);
}

/// Encoding undoes decoding for every byte string.
pub proof fn lemma_le_bytes_of_le_value(s: Seq<u8>)
    ensures
        le_bytes(le_value(s), s.len()) == s,
    decreases s.len(),
{
    if s.len() == 0 {
        assert(le_bytes(le_value(s), 0) =~= s);
    } else {
        let rest = s.drop_first();
        lemma_le_bytes_of_le_value(rest);
        let v = le_value(s);
        assert(v == s[0] as nat + 256 * le_value(rest));
        assert(v % 256 == s[0] as nat);
        assert(v / 256 == le_value(rest));
        assert(le_bytes(v, s.len()) =~= seq![s[0]] + rest);
        assert(seq![s[0]] + rest =~= s);
    }
}

/// Zero bytes stand for zero.
pub proof fn lemma_le_value_zeros(n: nat)
    ensures
        le_value(zeros(n)) == 0,
    decreases n,
{
    if n > 0 {
        lemma_le_value_zeros((n - 1) as nat);
        assert(zeros(n).drop_first() =~= zeros((n - 1) as nat));
    }
}

/// Zero bytes after the most significant digit do not change the number.
pub proof fn lemma_le_value_zero_extended(s: Seq<u8>, n: nat)
    ensures
        le_value(s + zeros(n)) == le_value(s),
    decreases s.len(),
{
    if s.len() == 0 {
        assert(s + zeros(n) =~= zeros(n));
        lemma_le_value_zeros(n);
    } else {
        lemma_le_value_zero_extended(s.drop_first(), n);
        assert((s + zeros(n)).drop_first() =~= s.drop_first() + zeros(n));
    }
}

/// Up to eight bytes stand for a number that fits in 64 bits.
pub proof fn lemma_le_value_u64_bound(s: Seq<u8>)
    requires
        s.len() <= 8,
    ensures
        s.len() == 0 ==> le_value(s) == 0,
        s.len() == 1 ==> le_value(s) < 0x100,
        s.len() == 2 ==> le_value(s) < 0x1_0000,
        s.len() == 3 ==> le_value(s) < 0x100_0000,
        s.len() == 4 ==> le_value(s) < 0x1_0000_0000,
        s.len() == 5 ==> le_value(s) < 0x100_0000_0000,
        s.len() == 6 ==> le_value(s) < 0x1_0000_0000_0000,
        s.len() == 7 ==> le_value(s) < 0x100_0000_0000_0000,
        le_value(s) <= u64::MAX,
    decreases s.len(),
{
    if s.len() > 0 {
        lemma_le_value_u64_bound(s.drop_first());
    }
}

/// Reading from place `k` on: the digit at `k`, then the rest one place up.
pub proof fn lemma_le_value_skip(s: Seq<u8>, k: int)
    requires
        0 <= k < s.len(),
    ensures
        le_value(s.skip(k)) == s[k] as nat + 256 * le_value(s.skip(k + 1)),
{
    assert(s.skip(k).drop_first() =~= s.skip(k + 1));
}

/// The `N` least significant bytes of `x`, least significant first.
pub fn low_le_bytes<const N: usize>(x: u64) -> (bytes: [u8; N])
    ensures
        bytes@ == le_bytes(x as nat, N as nat),
{
    let mut bytes: [u8; N] = [0u8; N];
    let mut rest: u64 = x;
    let mut i: usize = 0;
    while i < N
        invariant
            i <= N,
            bytes@.len() == N,
            bytes@.subrange(0, i as int) + le_bytes(rest as nat, (N - i) as nat) == le_bytes(
                x as nat,
                N as nat,
            ),
        decreases N - i,
    {
        let digit: u8 = (rest % 256) as u8;
        let ghost before = bytes@;
        bytes[i] = digit;
        proof {
            let tail = le_bytes((rest / 256) as nat, (N - i - 1) as nat);
            assert(le_bytes(rest as nat, (N - i) as nat) =~= seq![digit] + tail);
            assert(bytes@.subrange(0, i as int + 1) =~= before.subrange(0, i as int) + seq![
                digit,
            ]);
            assert(bytes@.subrange(0, i as int + 1) + tail =~= before.subrange(0, i as int) + (
            seq![digit] + tail));
        }
        rest = rest / 256;
        i = i + 1;
    }
    proof {
        assert(le_bytes(rest as nat, 0) =~= Seq::<u8>::empty());
        assert(bytes@.subrange(0, N as int) =~= bytes@);
        assert(bytes@ + Seq::<u8>::empty() =~= bytes@);
    }
    bytes
}

/// The eight bytes of `x`, least significant first.
pub fn u64_to_le_bytes(x: u64) -> (bytes: [u8; 8])
    ensures
        bytes@ == le_bytes(x as nat, 8),
        le_value(bytes@) == x,
{
    proof {
        lemma_le_value_of_le_bytes_u64(x);
    }
    low_le_bytes::<8>(x)
}

/// The 64-bit number that eight bytes stand for, least significant first.
pub fn u64_from_le_bytes(bytes: &[u8; 8]) -> (x: u64)
    ensures
        x == le_value(bytes@),
        bytes@ == le_bytes(x as nat, 8),
{
    let mut x: u64 = 0;
    let mut i: usize = 8;
    proof {
        assert(bytes@.skip(8) =~= Seq::<u8>::empty());
    }
    while i > 0
        invariant
            i <= 8,
            bytes@.len() == 8,
            x == le_value(bytes@.skip(i as int)),
        decreases i,
    {
        proof {
            lemma_le_value_skip(bytes@, i - 1);
            lemma_le_value_u64_bound(bytes@.skip(i - 1));
        }
        i = i - 1;
        x = x * 256 + bytes[i] as u64;
    }
    proof {
        assert(bytes@.skip(0) =~= bytes@);
        lemma_le_bytes_of_le_value(bytes@);
    }
    x
}

/// Copies `N` bytes out of `bytes`, starting at `at`.
pub fn read_array<const N: usize>(bytes: &[u8], at: usize) -> (out: [u8; N])
    requires
        at + N <= bytes@.len(),
    ensures
        out@ == bytes@.subrange(at as int, at + N),
{
    let len: usize = bytes.len();
    let mut out: [u8; N] = [0u8; N];
    let mut i: usize = 0;
    while i < N
        invariant
            i <= N,
            len == bytes@.len(),
            at + N <= bytes@.len(),
            out@.len() == N,
            forall|k: int| 0 <= k < i ==> out@[k] == bytes@[at + k],
        decreases N - i,
    {
        out[i] = bytes[at + i];
        i = i + 1;
    }
    proof {
        assert(out@ =~= bytes@.subrange(at as int, at + N));
    }
    out
}

/// Appends the bytes of `part` to `bytes`.
pub fn append_bytes(bytes: &mut Vec<u8>, part: &[u8])
    ensures
        final(bytes)@ == old(bytes)@ + part@,
{
    let mut i: usize = 0;
    while i < part.len()
        invariant
            i <= part@.len(),
            bytes@ == old(bytes)@ + part@.subrange(0, i as int),
        decreases part@.len() - i,
    {
        bytes.push(part[i]);
        proof {
            assert(part@.subrange(0, i + 1) =~= part@.subrange(0, i as int).push(part@[i as int]));
        }
        i = i + 1;
    }
    proof {
        assert(part@.subrange(0, i as int) =~= part@);
    }
}

} // verus!
