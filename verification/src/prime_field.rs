//! Arithmetic modulo a prime: Euclid's lemma and Fermat's little theorem, which make
//! `a^(p-2) mod p` the multiplicative inverse of every nonzero residue `a`.

use vstd::prelude::*;
use vstd::arithmetic::div_mod::*;
use vstd::arithmetic::mul::*;
use vstd::arithmetic::power::pow;
use vstd::set_lib::{lemma_int_range, lemma_len_subset, set_int_range};

verus! {

/// `p` is a prime: greater than one, with no divisor strictly between one and itself.
pub open spec fn is_prime(p: int) -> bool {
    p > 1 && forall|d: int| 1 < d < p ==> #[trigger] (p % d) != 0
}

/// `k! = 1 · 2 · … · k`.
pub open spec fn factorial(k: nat) -> int
    decreases k,
{
    if k == 0 {
        1
    } else {
        k * factorial((k - 1) as nat)
    }
}

/// The product of the entries of `s`.
pub open spec fn seq_product(s: Seq<int>) -> int
    decreases s.len(),
{
    if s.len() == 0 {
        1
    } else {
        seq_product(s.drop_last()) * s.last()
    }
}

/// The residues `a·1, a·2, …, a·k`, each reduced modulo `p`.
pub open spec fn scaled_residues(a: int, p: int, k: nat) -> Seq<int> {
    Seq::new(k, |j: int| (a * (j + 1)) % p)
}

/// Euclid's lemma: a prime that divides `a·b`, with `a` a nonzero residue, divides `b`.
pub proof fn lemma_prime_divides_factor(p: int, a: int, b: int)
    requires
        is_prime(p),
        0 < a < p,
        (a * b) % p == 0,
    ensures
        b % p == 0,
    decreases a,
{
    if a > 1 {
        let q = p / a;
        let r = p % a;
        lemma_fundamental_div_mod(p, a);
        lemma_mod_pos_bound(p, a);
        assert(r != 0);
        let k = (a * b) / p;
        lemma_fundamental_div_mod(a * b, p);
        assert(r * b == (b - q * k) * p) by (nonlinear_arith)
            requires
                p == a * q + r,
                a * b == p * k + 0,
        ;
        lemma_mod_multiples_basic(b - q * k, p);
        lemma_prime_divides_factor(p, r, b);
    } else {
        assert(a * b == b) by (nonlinear_arith)
            requires
                a == 1,
        ;
    }
}

/// A prime `p` divides no factorial of a number below `p`.
pub proof fn lemma_prime_not_divides_factorial(p: int, k: nat)
    requires
        is_prime(p),
        k < p,
    ensures
        factorial(k) % p != 0,
    decreases k,
{
    if k == 0 {
        lemma_small_mod(1, p as nat);
    } else {
        lemma_prime_not_divides_factorial(p, (k - 1) as nat);
        if factorial(k) % p == 0 {
            lemma_prime_divides_factor(p, k as int, factorial((k - 1) as nat));
        }
    }
}

/// Taking out one entry of a sequence divides its product by that entry.
proof fn lemma_seq_product_remove(s: Seq<int>, i: int)
    requires
        0 <= i < s.len(),
    ensures
        seq_product(s) == s[i] * seq_product(s.remove(i)),
    decreases s.len(),
{
    if i == s.len() - 1 {
        assert(s.remove(i) =~= s.drop_last());
        lemma_mul_is_commutative(s[i], seq_product(s.drop_last()));
    } else {
        let d = s.drop_last();
        lemma_seq_product_remove(d, i);
        assert(s.remove(i).drop_last() =~= d.remove(i));
        assert(s.remove(i).last() == s.last());
        lemma_mul_is_associative(s[i], seq_product(d.remove(i)), s.last());
    }
}

/// The product of `m` distinct numbers drawn from `1..=m` is `m!`.
proof fn lemma_seq_product_of_arrangement(s: Seq<int>, m: nat)
    requires
        s.no_duplicates(),
        s.len() == m,
        forall|i: int| 0 <= i < s.len() ==> 1 <= #[trigger] s[i] <= m,
    ensures
        seq_product(s) == factorial(m),
    decreases m,
{
    if m > 0 {
        if !s.contains(m as int) {
            s.unique_seq_to_set();
            assert(s.to_set().subset_of(set_int_range(1, m as int)));
            lemma_int_range(1, m as int);
            lemma_len_subset(s.to_set(), set_int_range(1, m as int));
        }
        let i = s.index_of(m as int);
        let t = s.remove(i);
        assert forall|j: int| 0 <= j < t.len() implies 1 <= #[trigger] t[j] <= m - 1 by {
            if j < i {
                assert(t[j] == s[j]);
            } else {
                assert(t[j] == s[j + 1]);
            }
        }
        assert(t.no_duplicates()) by {
            assert forall|x: int, y: int| 0 <= x < y < t.len() implies t[x] != t[y] by {
                let sx = if x < i { x } else { x + 1 };
                let sy = if y < i { y } else { y + 1 };
                assert(t[x] == s[sx] && t[y] == s[sy] && sx != sy);
            }
        }
        lemma_seq_product_remove(s, i);
        lemma_seq_product_of_arrangement(t, (m - 1) as nat);
    } else {
        assert(s.len() == 0);
    }
}

/// The product of the scaled residues `a·j mod p` for `j` in `1..=k` agrees modulo `p` with
/// `a^k · k!`.
proof fn lemma_scaled_residues_product(a: int, p: int, k: nat)
    requires
        p > 1,
    ensures
        seq_product(scaled_residues(a, p, k)) % p == (pow(a, k) * factorial(k)) % p,
    decreases k,
{
    if k > 0 {
        let km = (k - 1) as nat;
        let s = scaled_residues(a, p, k);
        assert(s.drop_last() =~= scaled_residues(a, p, km));
        let prev = seq_product(scaled_residues(a, p, km));
        lemma_scaled_residues_product(a, p, km);
        reveal(pow);
        assert(s.last() == (a * k) % p);
        assert(seq_product(s) == prev * ((a * k) % p));
        lemma_mul_mod_noop_general(prev, a * k, p);
        lemma_mul_mod_noop_general(pow(a, km) * factorial(km), a * k, p);
        assert(pow(a, km) * factorial(km) * (a * k) == pow(a, k) * factorial(k)) by (nonlinear_arith)
            requires
                pow(a, k) == a * pow(a, km),
                factorial(k) == k * factorial(km),
        ;
    } else {
        reveal(pow);
        lemma_small_mod(1, p as nat);
    }
}

/// Fermat's little theorem: for a prime `p` and a nonzero residue `a`, `a^(p-1) ≡ 1 (mod p)`.
pub proof fn lemma_fermat_little(a: int, p: int)
    requires
        is_prime(p),
        0 < a < p,
    ensures
        pow(a, (p - 1) as nat) % p == 1,
{
    let m = (p - 1) as nat;
    let s = scaled_residues(a, p, m);
    assert forall|i: int| 0 <= i < s.len() implies 1 <= #[trigger] s[i] <= m by {
        lemma_mod_pos_bound(a * (i + 1), p);
        if s[i] == 0 {
            lemma_prime_divides_factor(p, a, i + 1);
            lemma_small_mod((i + 1) as nat, p as nat);
        }
    }
    assert(s.no_duplicates()) by {
        assert forall|x: int, y: int| 0 <= x < y < s.len() implies s[x] != s[y] by {
            if s[x] == s[y] {
                lemma_sub_mod_noop(a * (y + 1), a * (x + 1), p);
                lemma_small_mod(0, p as nat);
                assert(a * (y + 1) - a * (x + 1) == a * (y - x)) by (nonlinear_arith);
                lemma_prime_divides_factor(p, a, y - x);
                lemma_small_mod((y - x) as nat, p as nat);
            }
        }
    }
    lemma_seq_product_of_arrangement(s, m);
    lemma_scaled_residues_product(a, p, m);
    let e = pow(a, m);
    let f = factorial(m);
    lemma_prime_not_divides_factorial(p, m);
    lemma_mod_bound(f, p);
    lemma_sub_mod_noop(e * f, f, p);
    lemma_small_mod(0, p as nat);
    assert(e * f - f == f * (e - 1)) by (nonlinear_arith);
    lemma_mul_mod_noop_general(f, e - 1, p);
    lemma_prime_divides_factor(p, f % p, e - 1);
    lemma_fundamental_div_mod(e - 1, p);
    lemma_mod_multiples_vanish((e - 1) / p, 1, p);
    lemma_small_mod(1, p as nat);
}

/// For a prime `p`, `a^(p-2) mod p` is the inverse of the nonzero residue `a`: their product is
/// `1` modulo `p`, it is itself a nonzero residue, and taking it twice gives `a` back.
pub proof fn lemma_fermat_inverse(a: int, p: int)
    requires
        is_prime(p),
        0 < a < p,
    ensures
        (a * (pow(a, (p - 2) as nat) % p)) % p == 1,
        0 < pow(a, (p - 2) as nat) % p < p,
        pow(pow(a, (p - 2) as nat) % p, (p - 2) as nat) % p == a,
{
    let e = (p - 2) as nat;
    let r = pow(a, e) % p;
    reveal(pow);
    lemma_fermat_little(a, p);
    assert(pow(a, (p - 1) as nat) == a * pow(a, e));
    lemma_mul_mod_noop_general(a, pow(a, e), p);
    lemma_mod_bound(pow(a, e), p);
    if r == 0 {
        lemma_small_mod(0, p as nat);
    }
    lemma_fermat_little(r, p);
    assert(pow(r, (p - 1) as nat) == r * pow(r, e));
    lemma_mul_mod_noop_general(r, pow(r, e), p);
    let t = pow(r, e) % p;
    lemma_mod_bound(pow(r, e), p);
    // t ≡ t·(a·r) = a·(r·t) ≡ a
    lemma_mul_mod_noop_general(t, a * r, p);
    lemma_mul_mod_noop_general(a, r * t, p);
    assert(t * (a * r) == a * (r * t)) by (nonlinear_arith);
    lemma_small_mod(t as nat, p as nat);
    lemma_small_mod(a as nat, p as nat);
}

} // verus!
