//! The mathematical model of a byte: a sequence of eight bits, the number
//! they stand for, and the text they are written as.

use vstd::prelude::*;

verus! {

/// The weight of the bit at position `i`: two to the power `i`.
pub open spec fn bit_weight(i: nat) -> nat
    decreases i,
{
    if i == 0 {
        1
    } else {
        2 * bit_weight((i - 1) as nat)
    }
}

/// Whether the binary expansion of `value` has a one at position `i`:
/// whether `value`, halved `i` times, is odd.
pub open spec fn bit_of(value: nat, i: nat) -> bool
    decreases i,
{
    if i == 0 {
        value % 2 == 1
    } else {
        bit_of(value / 2, (i - 1) as nat)
    }
}

/// The eight bits of `value`, least significant first.
pub open spec fn dec_bits(value: u8) -> Seq<bool> {
    Seq::new(8, |i: int| bit_of(value as nat, i as nat))
}

/// The sum of the weights of the bits that are set among the first `n`.
pub open spec fn value_below(bits: Seq<bool>, n: nat) -> nat
    decreases n,
{
    if n == 0 {
        0
    } else {
        value_below(bits, (n - 1) as nat) + if bits[n - 1] {
            bit_weight((n - 1) as nat)
        } else {
            0
        }
    }
}

/// The number that `bits` stand for, `bits[0]` being the least significant.
pub open spec fn bits_value(bits: Seq<bool>) -> nat {
    value_below(bits, bits.len())
}

/// How many of the first `n` bits are set.
pub open spec fn ones_below(bits: Seq<bool>, n: nat) -> nat
    decreases n,
{
    if n == 0 {
        0
    } else {
        ones_below(bits, (n - 1) as nat) + if bits[n - 1] {
            1nat
        } else {
            0nat
        }
    }
}

/// How many bits are set.
pub open spec fn ones_count(bits: Seq<bool>) -> nat {
    ones_below(bits, bits.len())
}

/// A well-formed pattern: exactly eight characters, each '0' or '1'.
pub open spec fn is_pattern(text: Seq<char>) -> bool {
    &&& text.len() == 8
    &&& forall|i: int| 0 <= i < text.len() ==> text[i] == '0' || text[i] == '1'
}

/// The bits that a pattern denotes: its last character is bit 0.
pub open spec fn pattern_bits(text: Seq<char>) -> Seq<bool> {
    Seq::new(text.len(), |i: int| text[text.len() - 1 - i] == '1')
}

/// The pattern that bits are written as: the highest bit comes first.
pub open spec fn bits_pattern(bits: Seq<bool>) -> Seq<char> {
    Seq::new(
        bits.len(),
        |i: int|
            if bits[bits.len() - 1 - i] {
                '1'
            } else {
                '0'
            },
    )
}

/// Every weight is positive.
pub proof fn lemma_weight_positive(i: nat)
    ensures
        bit_weight(i) > 0,
    decreases i,
{
    if i > 0 {
        lemma_weight_positive((i - 1) as nat);
    }
}

/// The weights of the positions 0 to 8.
pub proof fn lemma_weights()
    ensures
        bit_weight(0) == 1,
        bit_weight(1) == 2,
        bit_weight(2) == 4,
        bit_weight(3) == 8,
        bit_weight(4) == 16,
        bit_weight(5) == 32,
        bit_weight(6) == 64,
        bit_weight(7) == 128,
        bit_weight(8) == 256,
{
    reveal_with_fuel(bit_weight, 9);
}

/// Dividing by the next weight is dividing once more by two.
pub proof fn lemma_weight_step(value: nat, i: nat)
    ensures
        value / bit_weight(i + 1) == (value / bit_weight(i)) / 2,
{
    lemma_weight_positive(i);
    let w = bit_weight(i) as int;
    assert(bit_weight(i + 1) == 2 * bit_weight(i));
    vstd::arithmetic::div_mod::lemma_div_denominator(value as int, w, 2);
    assert(w * 2 == 2 * w);
}

/// The bit at position `i` is the parity of `value` divided by the weight of
/// that position.
pub proof fn lemma_bit_of_quotient(value: nat, i: nat)
    ensures
        bit_of(value, i) == ((value / bit_weight(i)) % 2 == 1),
    decreases i,
{
    if i == 0 {
        assert(bit_weight(0) == 1);
        assert(value / 1 == value);
    } else {
        let j = (i - 1) as nat;
        lemma_bit_of_quotient(value / 2, j);
        lemma_weight_positive(j);
        let w = bit_weight(j) as int;
        assert(bit_weight(i) == 2 * w);
        vstd::arithmetic::div_mod::lemma_div_denominator(value as int, 2, w);
        assert((value as int / 2) / w == value as int / (2 * w));
    }
}

/// The first `n` bits stand for a number below the weight of position `n`.
pub proof fn lemma_value_bound(bits: Seq<bool>, n: nat)
    ensures
        value_below(bits, n) < bit_weight(n),
    decreases n,
{
    if n > 0 {
        lemma_value_bound(bits, (n - 1) as nat);
    }
}

/// Two runs of `n` bits that stand for the same number are the same bits.
pub proof fn lemma_value_injective(a: Seq<bool>, b: Seq<bool>, n: nat)
    requires
        value_below(a, n) == value_below(b, n),
    ensures
        forall|i: int| 0 <= i < n ==> a[i] == b[i],
    decreases n,
{
    if n > 0 {
        let m = (n - 1) as nat;
        lemma_value_bound(a, m);
        lemma_value_bound(b, m);
        assert(a[m as int] == b[m as int]);
        lemma_value_injective(a, b, m);
    }
}

/// Bits that follow the binary expansion of `value` up to position `n` stand
/// for `value` modulo the weight of position `n`.
pub proof fn lemma_value_of_expansion(value: nat, bits: Seq<bool>, n: nat)
    requires
        forall|i: int| 0 <= i < n ==> bits[i] == bit_of(value, i as nat),
    ensures
        value_below(bits, n) == value % bit_weight(n),
    decreases n,
{
    if n == 0 {
        assert(value % 1 == 0);
    } else {
        let m = (n - 1) as nat;
        lemma_value_of_expansion(value, bits, m);
        lemma_weight_positive(m);
        let w = bit_weight(m) as int;
        let q = value as int / w;
        let r = value as int % w;
        let top: int = if bits[m as int] { 1 } else { 0 };
        assert(bits[m as int] == bit_of(value, m));
        lemma_bit_of_quotient(value, m);
        assert(top == q % 2);
        vstd::arithmetic::div_mod::lemma_fundamental_div_mod(value as int, w);
        assert(value as int == (q / 2) * (2 * w) + (top * w + r)) by (nonlinear_arith)
            requires
                value as int == w * q + r,
                top == q % 2,
        ;
        assert(0 <= top * w + r < 2 * w) by (nonlinear_arith)
            requires
                0 <= r < w,
                0 <= top <= 1,
        ;
        vstd::arithmetic::div_mod::lemma_fundamental_div_mod_converse(
            value as int,
            2 * w,
            q / 2,
            top * w + r,
        );
        assert(top * w == if bits[m as int] { w } else { 0 }) by (nonlinear_arith)
            requires
                top == if bits[m as int] { 1int } else { 0int },
        ;
    }
}

/// At most `n` of the first `n` bits are set.
pub proof fn lemma_ones_bound(bits: Seq<bool>, n: nat)
    ensures
        ones_below(bits, n) <= n,
    decreases n,
{
    if n > 0 {
        lemma_ones_bound(bits, (n - 1) as nat);
    }
}

} // verus!
