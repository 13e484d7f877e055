//! Number-theoretic groundwork: little-endian byte values, dot products of
//! scalar sequences, powers of two, and the modular-arithmetic lemmas the
//! protocol proofs rest on.

use vstd::prelude::*;
use vstd::arithmetic::div_mod::{
    lemma_add_mod_noop, lemma_add_mod_noop_right, lemma_mul_mod_noop_right, lemma_small_mod,
};

verus! {

/// The value of a byte string read as a little-endian integer.
pub open spec fn le_val(s: Seq<u8>) -> nat
    decreases s.len(),
{
    if s.len() == 0 {
        0
    } else {
        (s[0] + 256 * le_val(s.subrange(1, s.len() as int))) as nat
    }
}

/// The `n`-byte little-endian encoding of `v % 256^n`.
pub open spec fn le_bytes(v: nat, n: nat) -> Seq<u8>
    decreases n,
{
    if n == 0 {
        Seq::empty()
    } else {
        seq![(v % 256) as u8] + le_bytes(v / 256, (n - 1) as nat)
    }
}

/// The little-endian encoding has exactly the requested length.
pub proof fn lemma_le_bytes_len(v: nat, n: nat)
    ensures
        le_bytes(v, n).len() == n,
    decreases n,
{
    if n > 0 {
        lemma_le_bytes_len(v / 256, (n - 1) as nat);
    }
}

/// The dot product `sum a[i] * x[i]`, not reduced; sequences of unequal
/// length are truncated to the shorter one.
pub open spec fn dot(a: Seq<nat>, x: Seq<nat>) -> nat
    decreases a.len(),
{
    if a.len() == 0 || x.len() == 0 {
        0
    } else {
        dot(a.drop_last(), x.drop_last()) + a.last() * x.last()
    }
}

/// Whether `n` is a power of two; `0` is not one.
pub open spec fn is_pow2(n: nat) -> bool
    decreases n,
{
    if n == 0 {
        false
    } else if n == 1 {
        true
    } else {
        n % 2 == 0 && is_pow2(n / 2)
    }
}

/// Runtime power-of-two test matching `is_pow2`.
pub fn check_pow2(n: usize) -> (b: bool)
    ensures
        b == is_pow2(n as nat),
{
    if n == 0 {
        return false;
    }
    let mut m: usize = n;
    while m % 2 == 0
        invariant
            1 <= m,
            is_pow2(n as nat) == is_pow2(m as nat),
        decreases m,
    {
        m = m / 2;
    }
    m == 1
}

/// Reducing the left addend first does not change a sum's residue.
pub proof fn lemma_mod_add_left(a: nat, b: nat, q: nat)
    requires
        q > 0,
    ensures
        ((a % q) + b) % q == (a + b) % q,
{
    lemma_add_mod_noop_right(b as int, a as int, q as int);
}

/// Reducing both addends first does not change a sum's residue.
pub proof fn lemma_mod_add_both(a: nat, b: nat, q: nat)
    requires
        q > 0,
    ensures
        ((a % q) + (b % q)) % q == (a + b) % q,
{
    lemma_add_mod_noop(a as int, b as int, q as int);
}

/// Reducing the left factor first does not change a product's residue.
pub proof fn lemma_mod_mul_left(a: nat, b: nat, q: nat)
    requires
        q > 0,
    ensures
        ((a % q) * b) % q == (a * b) % q,
{
    vstd::arithmetic::div_mod::lemma_mul_mod_noop_left(a as int, b as int, q as int);
}

/// Reducing the right factor first does not change a product's residue.
pub proof fn lemma_mod_mul_right(a: nat, b: nat, q: nat)
    requires
        q > 0,
    ensures
        (a * (b % q)) % q == (a * b) % q,
{
    lemma_mul_mod_noop_right(a as int, b as int, q as int);
}

/// Extending both prefixes by one entry adds that entry's product to the
/// dot product.
pub proof fn lemma_dot_take_step(a: Seq<nat>, x: Seq<nat>, i: int)
    requires
        0 <= i < a.len(),
        i < x.len(),
    ensures
        dot(a.take(i + 1), x.take(i + 1)) == dot(a.take(i), x.take(i)) + a[i] * x[i],
{
    assert(a.take(i + 1).drop_last() =~= a.take(i));
    assert(x.take(i + 1).drop_last() =~= x.take(i));
    assert(a.take(i + 1).last() == a[i]);
    assert(x.take(i + 1).last() == x[i]);
}

/// Replacing one entry of `x` changes the dot product by the matching
/// coefficient times the difference of the entries.
pub proof fn lemma_dot_update(a: Seq<nat>, x: Seq<nat>, j: int, v: nat)
    requires
        a.len() == x.len(),
        0 <= j < x.len(),
    ensures
        dot(a, x.update(j, v)) + a[j] * x[j] == dot(a, x) + a[j] * v,
    decreases x.len(),
{
    let y = x.update(j, v);
    if j == x.len() - 1 {
        assert(y.drop_last() =~= x.drop_last());
    } else {
        assert(y.drop_last() =~= x.drop_last().update(j, v));
        assert(y.last() == x.last());
        lemma_dot_update(a.drop_last(), x.drop_last(), j, v);
    }
}

/// Two numbers with the same residue, each less than the modulus away
/// from the other, are equal.
pub proof fn lemma_mod_same_in_window(a: nat, b: nat, q: nat)
    requires
        q > 0,
        a % q == b % q,
        b < a + q,
        a < b + q,
    ensures
        a == b,
{
    lemma_small_mod(0, q);
    vstd::arithmetic::div_mod::lemma_sub_mod_noop(b as int, a as int, q as int);
    if a <= b {
        lemma_small_mod((b - a) as nat, q);
        assert((b - a) % (q as int) == b - a);
    } else {
        vstd::arithmetic::div_mod::lemma_sub_mod_noop(a as int, b as int, q as int);
        lemma_small_mod((a - b) as nat, q);
        assert((a - b) % (q as int) == a - b);
    }
}

/// The pointwise masking `c * x[i] + b[i] mod q` of a vector `x` by a
/// blinding vector `b` under a challenge `c`.
pub open spec fn masked(c: nat, x: Seq<nat>, b: Seq<nat>, q: nat) -> Seq<nat> {
    Seq::new(x.len(), |i: int| (c * x[i] + b[i]) % q)
}

/// A dot product distributes over masking: evaluating any form on the
/// masked vector gives the challenge times the evaluation on `x`, plus the
/// evaluation on `b`, modulo `q`.
pub proof fn lemma_dot_masked(a: Seq<nat>, x: Seq<nat>, b: Seq<nat>, c: nat, q: nat)
    requires
        q > 0,
        a.len() == x.len(),
        b.len() == x.len(),
    ensures
        dot(a, masked(c, x, b, q)) % q == (c * dot(a, x) + dot(a, b)) % q,
    decreases x.len(),
{
    let z = masked(c, x, b, q);
    if x.len() == 0 {
        assert(z.len() == 0);
        assert(dot(a, z) == 0);
        assert(dot(a, x) == 0);
        assert(dot(a, b) == 0);
    } else {
        let a1 = a.drop_last();
        let x1 = x.drop_last();
        let b1 = b.drop_last();
        assert(z.drop_last() =~= masked(c, x1, b1, q));
        lemma_dot_masked(a1, x1, b1, c, q);
        let al = a.last();
        let xl = x.last();
        let bl = b.last();
        let d1 = dot(a1, z.drop_last());
        assert(z.last() == (c * xl + bl) % q);
        assert(dot(a, z) == d1 + al * ((c * xl + bl) % q));
        // Drop the inner reductions of both terms of dot(a, z).
        assert((d1 + al * ((c * xl + bl) % q)) % q == (d1 + al * (c * xl + bl)) % q) by {
            lemma_mod_mul_right(al, (c * xl + bl) as nat, q);
            lemma_mod_add_left((al * ((c * xl + bl) % q)) as nat, d1, q);
            lemma_mod_add_left((al * (c * xl + bl)) as nat, d1, q);
        }
        assert((d1 + al * (c * xl + bl)) % q == (c * dot(a1, x1) + dot(a1, b1) + al * (c * xl + bl))
            % q) by {
            lemma_mod_add_left(d1, (al * (c * xl + bl)) as nat, q);
            lemma_mod_add_left((c * dot(a1, x1) + dot(a1, b1)) as nat, (al * (c * xl + bl)) as nat,
                q);
        }
        assert(c * dot(a1, x1) + dot(a1, b1) + al * (c * xl + bl) == c * dot(a, x) + dot(a, b))
            by (nonlinear_arith)
            requires
                dot(a, x) == dot(a1, x1) + al * xl,
                dot(a, b) == dot(a1, b1) + al * bl,
        ;
        assert(dot(a, z) % q == (c * dot(a, x) + dot(a, b)) % q);
    }
}

} // verus!
