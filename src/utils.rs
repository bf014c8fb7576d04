//! Big-endian integer readers of one to eight bytes.
use vstd::prelude::*;

verus! {

/// 256 to the power `n`.
pub open spec fn pow256(n: nat) -> nat
    decreases n,
{
    if n == 0 { 1 } else { 256 * pow256((n - 1) as nat) }
}

/// The unsigned big-endian number that the bytes `s` spell.
pub open spec fn be_uint(s: Seq<u8>) -> nat
    decreases s.len(),
{
    if s.len() == 0 { 0 } else { (be_uint(s.drop_last()) * 256 + s.last()) as nat }
}

/// The number spelled by the `n` bytes at the start of `s`, if `s` holds
/// that many.
pub open spec fn be_prefix(s: Seq<u8>, n: nat) -> Option<nat> {
    if s.len() < n { None } else { Some(be_uint(s.subrange(0, n as int))) }
}

/// A number of `n` bytes is below `256^n`.
pub proof fn lemma_be_uint_bound(s: Seq<u8>)
    ensures
        be_uint(s) < pow256(s.len()),
    decreases s.len(),
{
    if s.len() > 0 {
        lemma_be_uint_bound(s.drop_last());
        assert(pow256(s.len()) == 256 * pow256((s.len() - 1) as nat));
    }
}

/// `256^n` grows with `n`.
pub proof fn lemma_pow256_mono(a: nat, b: nat)
    requires
        a <= b,
    ensures
        pow256(a) <= pow256(b),
    decreases b,
{
    if a < b {
        lemma_pow256_mono(a, (b - 1) as nat);
    }
}

/// Reads `n` big-endian bytes from the start of `input` into a `u64`.
///
/// Returns `None` when the input holds fewer than `n` bytes.
pub fn be_u64_n(input: &[u8], n: usize) -> (r: Option<u64>)
    requires
        1 <= n <= 8,
    ensures
        r matches Some(v) ==> be_prefix(input@, n as nat) == Some(v as nat),
        r is None <==> be_prefix(input@, n as nat) is None,
{
    if input.len() < n {
        return None;
    }
    let mut acc: u64 = 0;
    let mut i: usize = 0;
    while i < n
        invariant
            1 <= n <= 8,
            n <= input@.len(),
            i <= n,
            acc as nat == be_uint(input@.subrange(0, i as int)),
        decreases n - i,
    {
        proof {
            let s = input@.subrange(0, i as int + 1);
            assert(s.drop_last() =~= input@.subrange(0, i as int));
            lemma_be_uint_bound(input@.subrange(0, i as int));
            lemma_pow256_mono(i as nat, 7);
            reveal_with_fuel(pow256, 8);
            assert(acc * 256 + input@[i as int] < 0x1_0000_0000_0000_0000) by (nonlinear_arith)
                requires
                    acc < pow256(7),
                    pow256(7) == 0x100_0000_0000_0000,
                    input@[i as int] < 256,
            ;
        }
        acc = acc * 256 + input[i] as u64;
        i = i + 1;
    }
    Some(acc)
}

/// Reads `n` big-endian bytes from the start of `input` as a `usize`.
///
/// Returns `None` when the input holds fewer than `n` bytes, or when the
/// number does not fit in a platform word.
pub fn be_usize_n(input: &[u8], n: usize) -> (r: Option<usize>)
    requires
        1 <= n <= 8,
    ensures
        r matches Some(v) ==> be_prefix(input@, n as nat) == Some(v as nat),
        r is None <==> match be_prefix(input@, n as nat) {
            Some(v) => v > usize::MAX,
            None => true,
        },
{
    match be_u64_n(input, n) {
        Some(v) => {
            if v as u128 <= usize::MAX as u128 {
                Some(v as usize)
            } else {
                None
            }
        },
        None => None,
    }
}

} // verus!
