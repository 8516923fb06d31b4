//! Little-endian byte sequences as a mathematical model.
use vstd::arithmetic::div_mod::{
    lemma_breakdown, lemma_div_denominator, lemma_fundamental_div_mod_converse,
};
use vstd::prelude::*;

verus! {

/// 256 raised to the power `n`.
pub open spec fn pow256(n: nat) -> nat
    decreases n,
{
    if n == 0 {
        1
    } else {
        256 * pow256((n - 1) as nat)
    }
}

/// The lowest `n` bytes of `v`, least significant first.
pub open spec fn le_bytes(v: nat, n: nat) -> Seq<u8>
    decreases n,
{
    if n == 0 {
        seq![]
    } else {
        le_bytes(v, (n - 1) as nat).push(((v / pow256((n - 1) as nat)) % 256) as u8)
    }
}

/// The number that the bytes `s` spell, least significant first.
pub open spec fn le_value(s: Seq<u8>) -> nat
    decreases s.len(),
{
    if s.len() == 0 {
        0
    } else {
        le_value(s.drop_last()) + pow256((s.len() - 1) as nat) * (s.last() as nat)
    }
}

pub proof fn lemma_pow256_positive(n: nat)
    ensures
        pow256(n) > 0,
    decreases n,
{
    if n > 0 {
        lemma_pow256_positive((n - 1) as nat);
    }
}

pub proof fn lemma_pow256_values()
    ensures
        pow256(1) == 0x100,
        pow256(2) == 0x1_0000,
        pow256(4) == 0x1_0000_0000,
        pow256(8) == 0x1_0000_0000_0000_0000,
{
    reveal_with_fuel(pow256, 9);
}

pub proof fn lemma_le_bytes_len(v: nat, n: nat)
    ensures
        le_bytes(v, n).len() == n,
    decreases n,
{
    if n > 0 {
        lemma_le_bytes_len(v, (n - 1) as nat);
    }
}

/// A sequence of `n` bytes spells a number below 256^n.
pub proof fn lemma_le_value_bound(s: Seq<u8>)
    ensures
        le_value(s) < pow256(s.len()),
    decreases s.len(),
{
    if s.len() > 0 {
        let p = pow256((s.len() - 1) as nat);
        lemma_le_value_bound(s.drop_last());
        let a = le_value(s.drop_last());
        let b = s.last() as nat;
        assert(a + p * b < 256 * p) by (nonlinear_arith)
            requires
                a < p,
                b <= 255,
        ;
    }
}

/// Spelling the lowest `n` bytes of `v` and reading them back gives `v` modulo 256^n.
pub proof fn lemma_le_value_of_bytes(v: nat, n: nat)
    ensures
        le_value(le_bytes(v, n)) == v % pow256(n),
    decreases n,
{
    if n == 0 {
        assert(le_bytes(v, 0) =~= seq![]);
    } else {
        let m = (n - 1) as nat;
        let p = pow256(m);
        lemma_pow256_positive(m);
        lemma_le_bytes_len(v, n);
        lemma_le_value_of_bytes(v, m);
        assert(le_bytes(v, n).drop_last() =~= le_bytes(v, m));
        lemma_breakdown(v as int, p as int, 256);
        assert(p * 256 == pow256(n)) by (nonlinear_arith)
            requires
                pow256(n) == 256 * p,
        ;
    }
}

/// Two byte sequences of one length that spell the same number are equal.
pub proof fn lemma_le_value_injective(a: Seq<u8>, b: Seq<u8>)
    requires
        a.len() == b.len(),
        le_value(a) == le_value(b),
    ensures
        a == b,
    decreases a.len(),
{
    if a.len() > 0 {
        let p = pow256((a.len() - 1) as nat);
        lemma_pow256_positive((a.len() - 1) as nat);
        lemma_le_value_bound(a.drop_last());
        lemma_le_value_bound(b.drop_last());
        let x = le_value(a) as int;
        assert(p * (a.last() as nat) == (a.last() as nat) * p);
        assert(p * (b.last() as nat) == (b.last() as nat) * p);
        lemma_fundamental_div_mod_converse(
            x,
            p as int,
            a.last() as int,
            le_value(a.drop_last()) as int,
        );
        lemma_fundamental_div_mod_converse(
            x,
            p as int,
            b.last() as int,
            le_value(b.drop_last()) as int,
        );
        lemma_le_value_injective(a.drop_last(), b.drop_last());
        assert(a =~= a.drop_last().push(a.last()));
        assert(b =~= b.drop_last().push(b.last()));
    }
}

/// Reading `n` bytes and spelling the number back in `n` bytes gives the same bytes.
pub proof fn lemma_le_bytes_of_value(s: Seq<u8>)
    ensures
        le_bytes(le_value(s), s.len()) == s,
{
    lemma_le_value_of_bytes(le_value(s), s.len());
    lemma_le_value_bound(s);
    lemma_pow256_positive(s.len());
    vstd::arithmetic::div_mod::lemma_small_mod(le_value(s), pow256(s.len()));
    lemma_le_bytes_len(le_value(s), s.len());
    lemma_le_value_injective(le_bytes(le_value(s), s.len()), s);
}

/// Appending one more byte of `v` to its lowest `n` bytes gives its lowest `n + 1` bytes.
pub proof fn lemma_le_bytes_step(v: nat, n: nat, x: nat)
    requires
        x == v / pow256(n),
    ensures
        le_bytes(v, n + 1) == le_bytes(v, n).push((x % 256) as u8),
        x / 256 == v / pow256(n + 1),
{
    lemma_pow256_positive(n);
    lemma_div_denominator(v as int, pow256(n) as int, 256);
    assert(pow256(n) * 256 == pow256(n + 1)) by (nonlinear_arith)
        requires
            pow256(n + 1) == 256 * pow256(n),
    ;
}

} // verus!
