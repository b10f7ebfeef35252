use vstd::prelude::*;
use vstd::arithmetic::div_mod::{lemma_mul_mod_noop_left, lemma_mul_mod_noop_right};
use vstd::arithmetic::mul::lemma_mul_is_associative;

verus! {

/// The 64-bit FNV offset basis: the hash of the empty input.
pub const FNV_OFFSET_BASIS: u64 = 0xcbf29ce484222325;

/// The 64-bit FNV prime.
pub const FNV_PRIME: u64 = 0x100000001b3;

/// One FNV-1a round: mix a byte into the running state, then multiply by the prime modulo 2^64.
pub open spec fn fnv1a_step(state: u64, byte: u8) -> u64 {
    ((((state ^ (byte as u64)) as nat) * (FNV_PRIME as nat)) % 0x1_0000_0000_0000_0000) as u64
}

/// FNV-1a over `bytes`, continuing from `state`.
pub open spec fn fnv1a_from(state: u64, bytes: Seq<u8>) -> u64
    decreases bytes.len(),
{
    if bytes.len() == 0 {
        state
    } else {
        fnv1a_step(fnv1a_from(state, bytes.drop_last()), bytes.last())
    }
}

/// The 64-bit FNV-1a hash of `bytes`.
pub open spec fn fnv1a_64(bytes: Seq<u8>) -> u64 {
    fnv1a_from(FNV_OFFSET_BASIS, bytes)
}

/// Hashing a concatenation is hashing its second part from where the first left off.
pub proof fn law_fnv1a_concat(state: u64, a: Seq<u8>, b: Seq<u8>)
    ensures
        fnv1a_from(state, a + b) == fnv1a_from(fnv1a_from(state, a), b),
    decreases b.len(),
{
    if b.len() == 0 {
        assert(a + b =~= a);
    } else {
        assert((a + b).drop_last() =~= a + b.drop_last());
        law_fnv1a_concat(state, a, b.drop_last());
    }
}

/// The hash of no bytes is the offset basis.
pub proof fn law_fnv1a_empty()
    ensures
        fnv1a_64(Seq::<u8>::empty()) == FNV_OFFSET_BASIS,
{
}

/// The inverse of the FNV prime modulo 2^64.
pub open spec fn fnv_prime_inverse() -> nat {
    0xce965057aff6957b
}

/// Multiplying by the prime modulo 2^64 is undone by multiplying by its inverse.
proof fn lemma_prime_multiplication_undone(x: u64)
    ensures
        ((((x as nat) * (FNV_PRIME as nat)) % 0x1_0000_0000_0000_0000) * fnv_prime_inverse())
            % 0x1_0000_0000_0000_0000 == x as nat,
{
    let m: int = 0x1_0000_0000_0000_0000;
    let p: int = FNV_PRIME as int;
    let q: int = fnv_prime_inverse() as int;
    let a: int = x as int;
    lemma_mul_mod_noop_left(a * p, q, m);
    lemma_mul_is_associative(a, p, q);
    assert(p * q == 0xce9650590f * m + 1);
    assert((p * q) % m == 1);
    lemma_mul_mod_noop_right(a, p * q, m);
    assert(a * 1 == a);
    assert(a % m == a);
}

/// One round mixes the byte, zero-extended, into the low eight bits of the
/// state and then multiplies by the prime: undoing the multiplication gives
/// back the state with its high 56 bits untouched and its low eight bits
/// exclusive-or'ed with the byte.
pub proof fn law_fnv1a_round(state: u64, byte: u8)
    ensures
        ({
            let h = fnv1a_from(state, seq![byte]);
            let mixed = (((h as nat) * fnv_prime_inverse()) % 0x1_0000_0000_0000_0000) as u64;
            &&& mixed >> 8u64 == state >> 8u64
            &&& mixed & 0xffu64 == (state & 0xffu64) ^ (byte as u64)
        }),
{
    let x: u64 = state ^ (byte as u64);
    assert(seq![byte].drop_last() =~= Seq::<u8>::empty());
    assert(seq![byte].last() == byte);
    assert(fnv1a_from(state, Seq::<u8>::empty()) == state);
    assert(fnv1a_from(state, seq![byte]) == fnv1a_step(state, byte));
    lemma_prime_multiplication_undone(x);
    assert(x >> 8u64 == state >> 8u64) by (bit_vector)
        requires
            x == state ^ (byte as u64),
    ;
    assert(x & 0xffu64 == (state & 0xffu64) ^ (byte as u64)) by (bit_vector)
        requires
            x == state ^ (byte as u64),
    ;
}

/// A round is one-to-one in its state, and in its byte for a given state.
proof fn lemma_step_injective(s1: u64, s2: u64, b1: u8, b2: u8)
    requires
        fnv1a_step(s1, b1) == fnv1a_step(s2, b2),
        s1 == s2 || b1 == b2,
    ensures
        s1 == s2 && b1 == b2,
{
    let x1: u64 = s1 ^ (b1 as u64);
    let x2: u64 = s2 ^ (b2 as u64);
    lemma_prime_multiplication_undone(x1);
    lemma_prime_multiplication_undone(x2);
    assert(x1 == x2);
    assert(s1 == s2 ==> (s1 ^ (b1 as u64) == s2 ^ (b2 as u64) ==> b1 == b2)) by (bit_vector);
    assert(b1 == b2 ==> (s1 ^ (b1 as u64) == s2 ^ (b2 as u64) ==> s1 == s2)) by (bit_vector);
}

/// Two inputs of the same length that differ in exactly one byte never hash
/// to the same value, from any starting state.
pub proof fn law_fnv1a_single_byte_difference(state: u64, a: Seq<u8>, b: Seq<u8>, i: int)
    requires
        a.len() == b.len(),
        0 <= i < a.len(),
        a[i] != b[i],
        forall|j: int| 0 <= j < a.len() && j != i ==> a[j] == b[j],
    ensures
        fnv1a_from(state, a) != fnv1a_from(state, b),
    decreases a.len(),
{
    let n = a.len() - 1;
    if i == n {
        assert(a.drop_last() =~= b.drop_last());
        if fnv1a_from(state, a) == fnv1a_from(state, b) {
            lemma_step_injective(
                fnv1a_from(state, a.drop_last()),
                fnv1a_from(state, b.drop_last()),
                a.last(),
                b.last(),
            );
        }
    } else {
        law_fnv1a_single_byte_difference(state, a.drop_last(), b.drop_last(), i);
        assert(a[n] == b[n]);
        if fnv1a_from(state, a) == fnv1a_from(state, b) {
            lemma_step_injective(
                fnv1a_from(state, a.drop_last()),
                fnv1a_from(state, b.drop_last()),
                a.last(),
                b.last(),
            );
        }
    }
}

/// 64-bit FNV-1a hash of a byte string.
pub fn const_fnv1a_64(bytes: &[u8]) -> (hash: u64)
    ensures
        hash == fnv1a_64(bytes@),
{
    let mut hash: u64 = FNV_OFFSET_BASIS;
    let n: usize = bytes.len();
    let mut i: usize = 0;
    while i < n
        invariant
            n == bytes@.len(),
            i <= n,
            hash == fnv1a_from(FNV_OFFSET_BASIS, bytes@.take(i as int)),
        decreases n - i,
    {
        let b: u8 = bytes[i];
        assert(bytes@.take(i as int + 1).drop_last() =~= bytes@.take(i as int));
        hash = (hash ^ (b as u64)).wrapping_mul(FNV_PRIME);
        i = i + 1;
    }
    assert(bytes@.take(n as int) =~= bytes@);
    hash
}

} // verus!
