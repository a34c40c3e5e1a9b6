//! The byte type and its operations.

use crate::laws::lemma_bits_round_trip;
use crate::model::{
    bit_of, bit_weight, bits_pattern, bits_value, dec_bits, is_pattern, lemma_bit_of_quotient,
    lemma_ones_bound, lemma_value_bound, lemma_value_of_expansion, lemma_weight_step,
    lemma_weights, ones_below, ones_count, pattern_bits, value_below,
};
use vstd::prelude::*;
use vstd::string::StringExecFns;

verus! {

/// A binary representation of a byte.
///
/// Position 0 holds the least significant bit, position 7 the most
/// significant one.
#[derive(Clone, Copy)]
pub struct ByteBase2 {
    intern: [bool; 8],
}

/// Error returned when a byte is built from a string that is not a pattern
/// of exactly eight '0' or '1' characters.
#[derive(Clone, Copy, Debug, PartialEq, Eq, Structural)]
pub struct InvalidPattern;

impl View for ByteBase2 {
    type V = Seq<bool>;

    closed spec fn view(&self) -> Seq<bool> {
        self.intern@
    }
}

impl InvalidPattern {
    /// The fixed text that describes this error.
    pub fn message(&self) -> (text: &'static str)
        ensures
            text@ == "the string pattern should have exactly 8 '0'/'1' characters"@,
    {
        "the string pattern should have exactly 8 '0'/'1' characters"
    }
}

impl PartialEq for ByteBase2 {
    /// Two bytes are equal when all eight positions hold the same bit.
    fn eq(&self, other: &Self) -> (same: bool) {
        let mut index: usize = 0;
        while index < 8
            invariant
                index <= 8,
                forall|i: int| 0 <= i < index ==> self@[i] == other@[i],
            decreases 8 - index,
        {
            if self.intern[index] != other.intern[index] {
                return false;
            }
            index = index + 1;
        }
        assert(self@ =~= other@);
        true
    }
}

impl Eq for ByteBase2 {

}

impl vstd::std_specs::cmp::PartialEqSpecImpl for ByteBase2 {
    open spec fn obeys_eq_spec() -> bool {
        true
    }

    open spec fn eq_spec(&self, other: &Self) -> bool {
        self@ == other@
    }
}

impl ByteBase2 {
    /// A byte always has exactly eight bits.
    pub proof fn lemma_eight_bits(self)
        ensures
            self@.len() == 8,
    {
    }

    /// Tries to create a byte from a string that represents an 8 bit binary
    /// number, the most significant bit first.
    ///
    /// The string is accepted exactly when it is made of eight characters,
    /// each of them '0' or '1'.
    pub fn from_string(pattern: &str) -> (result: Result<Self, InvalidPattern>)
        ensures
            result is Ok <==> is_pattern(pattern@),
            result matches Ok(byte) ==> byte@ == pattern_bits(pattern@),
    {
        if pattern.unicode_len() != 8 {
            return Err(InvalidPattern);
        }
        let mut intern = [false;8];
        let mut index: usize = 0;
        while index < 8
            invariant
                index <= 8,
                pattern@.len() == 8,
                forall|i: int| index <= i < 8 ==> !intern@[i],
                forall|i: int|
                    0 <= i < index ==> {
                        &&& intern@[i] == (pattern@[7 - i] == '1')
                        &&& (pattern@[7 - i] == '0' || pattern@[7 - i] == '1')
                    },
            decreases 8 - index,
        {
            let bit = pattern.get_char(7 - index);
            if bit == '1' {
                intern[index] = true;
            } else if bit != '0' {
                return Err(InvalidPattern);
            }
            index = index + 1;
        }
        proof {
            assert forall|i: int| 0 <= i < 8 implies pattern@[i] == '0' || pattern@[i] == '1' by {
                assert(intern@[7 - i] == (pattern@[7 - (7 - i)] == '1'));
            }
            assert(intern@ =~= pattern_bits(pattern@));
        }
        Ok(ByteBase2 { intern })
    }

    /// Writes the byte as its pattern: eight characters, each '0' or '1',
    /// the most significant bit first.
    pub fn render(&self) -> (text: String)
        ensures
            text@ == bits_pattern(self@),
    {
        let mut output = String::new();
        let mut index: usize = 8;
        while index > 0
            invariant
                index <= 8,
                output@.len() == 8 - index,
                forall|i: int|
                    0 <= i < 8 - index ==> output@[i] == if self@[7 - i] {
                        '1'
                    } else {
                        '0'
                    },
            decreases index,
        {
            index = index - 1;
            proof {
                reveal_strlit("1");
                reveal_strlit("0");
            }
            if self.intern[index] {
                output.append("1");
            } else {
                output.append("0");
            }
        }
        assert(output@ =~= bits_pattern(self@));
        output
    }

    /// Bytes with the same eight bits are the same byte.
    pub proof fn lemma_same_bits_same_byte(self, other: Self)
        ensures
            self@ == other@ <==> self == other,
    {
        if self@ == other@ {
            assert(self.intern =~= other.intern);
        }
    }

    /// Creates a byte from its decimal value.
    pub fn from_dec(input: u8) -> (byte: Self)
        ensures
            byte@ == dec_bits(input),
            bits_value(byte@) == input,
    {
        let mut intern = [false;8];
        let mut rest: u8 = input;
        let mut index: usize = 0;
        proof {
            lemma_weights();
        }
        while index < 8
            invariant
                index <= 8,
                rest as nat == input as nat / bit_weight(index as nat),
                forall|i: int| 0 <= i < index ==> intern@[i] == bit_of(input as nat, i as nat),
            decreases 8 - index,
        {
            intern[index] = rest % 2 == 1;
            rest = rest / 2;
            proof {
                lemma_bit_of_quotient(input as nat, index as nat);
                lemma_weight_step(input as nat, index as nat);
            }
            index = index + 1;
        }
        proof {
            assert(intern@ =~= dec_bits(input));
            lemma_value_of_expansion(input as nat, intern@, 8);
        }
        ByteBase2 { intern }
    }

    /// Converts the byte to its decimal value.
    pub fn as_dec(&self) -> (value: u8)
        ensures
            value == bits_value(self@),
            dec_bits(value) == self@,
    {
        let mut output: u8 = 0;
        let mut weight: u8 = 1;
        let mut index: usize = 0;
        proof {
            lemma_weights();
        }
        while index < 8
            invariant
                index <= 8,
                output == value_below(self@, index as nat),
                index < 8 ==> weight == bit_weight(index as nat),
            decreases 8 - index,
        {
            proof {
                lemma_weights();
                lemma_value_bound(self@, index as nat);
            }
            if self.intern[index] {
                output = output + weight;
            }
            index = index + 1;
            if index < 8 {
                weight = weight * 2;
            }
        }
        proof {
            lemma_bits_round_trip(self@);
        }
        output
    }

    /// Returns how many ones there are in this byte.
    pub fn ones(&self) -> (count: usize)
        ensures
            count == ones_count(self@),
            count <= 8,
    {
        let mut count: usize = 0;
        let mut index: usize = 0;
        while index < 8
            invariant
                index <= 8,
                count == ones_below(self@, index as nat),
            decreases 8 - index,
        {
            proof {
                lemma_ones_bound(self@, index as nat);
            }
            if self.intern[index] {
                count = count + 1;
            }
            index = index + 1;
        }
        proof {
            lemma_ones_bound(self@, 8);
        }
        count
    }

    /// Returns the bits of this byte, the least significant one first.
    pub fn iter(&self) -> (bits: Vec<bool>)
        ensures
            bits@ == self@,
    {
        let mut bits: Vec<bool> = Vec::new();
        let mut index: usize = 0;
        while index < 8
            invariant
                index <= 8,
                bits@.len() == index,
                forall|i: int| 0 <= i < index ==> bits@[i] == self@[i],
            decreases 8 - index,
        {
            bits.push(self.intern[index]);
            index = index + 1;
        }
        assert(bits@ =~= self@);
        bits
    }

    /// Reads the bit at position `idx`.
    pub fn get_bit(&self, idx: usize) -> (bit: bool)
        requires
            idx < 8,
        ensures
            bit == self@[idx as int],
    {
        self.intern[idx]
    }

    /// Writes the bit at position `idx` and leaves the others as they were.
    pub fn set_bit(&mut self, idx: usize, bit: bool)
        requires
            idx < 8,
        ensures
            final(self)@ == old(self)@.update(idx as int, bit),
    {
        self.intern[idx] = bit;
    }
}

} // verus!
