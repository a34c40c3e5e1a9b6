//! What holds between the operations of a byte: the conversions undo each
//! other, and equality is equality of the eight bits.

use crate::byte::ByteBase2;
use crate::model::{
    bits_pattern, bits_value, dec_bits, is_pattern, lemma_value_bound, lemma_value_injective,
    lemma_value_of_expansion, lemma_weights, pattern_bits,
};
use vstd::prelude::*;
use vstd::std_specs::cmp::PartialEqSpec;

verus! {

/// Turning a decimal value into bits and the bits back into a number gives
/// the value again.
pub proof fn lemma_dec_round_trip(value: u8)
    ensures
        bits_value(dec_bits(value)) == value,
{
    lemma_weights();
    lemma_value_of_expansion(value as nat, dec_bits(value), 8);
}

/// Eight bits stand for a number below 256, and the bits of that number are
/// the same eight bits.
pub proof fn lemma_bits_round_trip(bits: Seq<bool>)
    requires
        bits.len() == 8,
    ensures
        bits_value(bits) < 256,
        dec_bits(bits_value(bits) as u8) == bits,
{
    lemma_weights();
    lemma_value_bound(bits, 8);
    let value = bits_value(bits) as u8;
    let again = dec_bits(value);
    lemma_value_of_expansion(value as nat, again, 8);
    lemma_value_injective(again, bits, 8);
    assert(again =~= bits);
}

/// Reading a well-formed pattern and writing the bits out again gives the
/// same pattern.
pub proof fn lemma_pattern_round_trip(text: Seq<char>)
    requires
        is_pattern(text),
    ensures
        pattern_bits(text).len() == 8,
        bits_pattern(pattern_bits(text)) == text,
{
    assert(bits_pattern(pattern_bits(text)) =~= text);
}

/// Writing eight bits out gives a well-formed pattern, and reading that
/// pattern gives the same bits.
pub proof fn lemma_bits_pattern_round_trip(bits: Seq<bool>)
    requires
        bits.len() == 8,
    ensures
        is_pattern(bits_pattern(bits)),
        pattern_bits(bits_pattern(bits)) == bits,
{
    assert(pattern_bits(bits_pattern(bits)) =~= bits);
}

/// Two bytes are equal exactly when each of the eight positions holds the
/// same bit in both; so bytes that differ in one position are unequal.
pub proof fn lemma_equal_bit_for_bit(a: ByteBase2, b: ByteBase2)
    ensures
        a.eq_spec(&b) <==> (forall|i: int| 0 <= i < 8 ==> a@[i] == b@[i]),
        a.eq_spec(&b) <==> a == b,
{
    a.lemma_eight_bits();
    b.lemma_eight_bits();
    a.lemma_same_bits_same_byte(b);
    if forall|i: int| 0 <= i < 8 ==> a@[i] == b@[i] {
        assert(a@ =~= b@);
    }
}

/// Bytes with the same decimal value are equal, and so are bytes that are
/// written as the same pattern.
pub proof fn lemma_equal_by_value_or_pattern(a: ByteBase2, b: ByteBase2)
    ensures
        bits_value(a@) == bits_value(b@) ==> a.eq_spec(&b),
        bits_pattern(a@) == bits_pattern(b@) ==> a.eq_spec(&b),
{
    a.lemma_eight_bits();
    b.lemma_eight_bits();
    if bits_value(a@) == bits_value(b@) {
        lemma_value_injective(a@, b@, 8);
        assert(a@ =~= b@);
    }
    if bits_pattern(a@) == bits_pattern(b@) {
        lemma_bits_pattern_round_trip(a@);
        lemma_bits_pattern_round_trip(b@);
    }
}

} // verus!
