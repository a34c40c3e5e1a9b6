use binary_byte::{ByteBase2, InvalidPattern};

#[test]
fn debug_test() {
    assert_eq!(format!("{}", ByteBase2::from_dec(15).render()), "00001111".to_string());
}

#[test]
#[should_panic]
fn index_test() {
    let byte = ByteBase2::from_dec(15);
    byte.get_bit(8);
}

#[test]
fn decimal_round_trip_for_every_value() {
    for value in 0..=255u8 {
        assert_eq!(ByteBase2::from_dec(value).as_dec(), value);
    }
}

#[test]
fn bits_follow_the_binary_expansion() {
    for value in 0..=255u8 {
        let byte = ByteBase2::from_dec(value);
        for index in 0..8usize {
            assert_eq!(byte.get_bit(index), (value >> index) & 1 == 1);
        }
    }
}

#[test]
fn pattern_round_trip_for_every_pattern() {
    for value in 0..=255u8 {
        let pattern = format!("{:08b}", value);
        let byte = ByteBase2::from_string(&pattern).unwrap();
        assert_eq!(byte.render(), pattern);
        assert_eq!(byte.as_dec(), value);
    }
}

#[test]
fn pattern_reads_most_significant_bit_first() {
    let byte = ByteBase2::from_string("00001000").unwrap();
    assert_eq!(byte.as_dec(), 8);
    assert!(byte.get_bit(3));
    assert!(!byte.get_bit(4));
    let high = ByteBase2::from_string("10000000").unwrap();
    assert_eq!(high.as_dec(), 128);
    assert!(high.get_bit(7));
    assert!(!high.get_bit(0));
}

#[test]
fn pattern_of_wrong_length_is_rejected() {
    assert!(ByteBase2::from_string("1010") == Err(InvalidPattern));
    assert!(ByteBase2::from_string("101010100") == Err(InvalidPattern));
    assert!(ByteBase2::from_string("") == Err(InvalidPattern));
    assert!(ByteBase2::from_string("0000000") == Err(InvalidPattern));
}

#[test]
fn pattern_with_other_characters_is_rejected() {
    assert!(ByteBase2::from_string("12001101") == Err(InvalidPattern));
    assert!(ByteBase2::from_string("foo") == Err(InvalidPattern));
    assert!(ByteBase2::from_string("0000000 ") == Err(InvalidPattern));
    assert!(ByteBase2::from_string(" 0000000") == Err(InvalidPattern));
    assert!(ByteBase2::from_string("0000000O") == Err(InvalidPattern));
    assert!(ByteBase2::from_string("TRUEtrue") == Err(InvalidPattern));
}

#[test]
fn pattern_with_wide_characters_is_rejected() {
    // eight bytes but seven characters, and eight characters but nine bytes
    assert!(ByteBase2::from_string("000000\u{e9}") == Err(InvalidPattern));
    assert!(ByteBase2::from_string("0000000\u{e9}") == Err(InvalidPattern));
}

#[test]
fn valid_pattern_is_accepted() {
    assert!(ByteBase2::from_string("01111001").is_ok());
    assert_eq!(ByteBase2::from_string("01111001").unwrap().as_dec(), 121);
}

#[test]
fn ones_counts_the_set_bits() {
    assert_eq!(ByteBase2::from_dec(15).ones(), 4);
    assert_eq!(ByteBase2::from_dec(0).ones(), 0);
    assert_eq!(ByteBase2::from_dec(255).ones(), 8);
    assert_eq!(ByteBase2::from_dec(128).ones(), 1);
}

#[test]
fn ones_agrees_with_the_machine_count() {
    for value in 0..=255u8 {
        assert_eq!(ByteBase2::from_dec(value).ones(), value.count_ones() as usize);
    }
}

#[test]
fn iter_yields_least_significant_bit_first() {
    let byte = ByteBase2::from_string("00000011").unwrap();
    assert_eq!(byte.iter(), vec![true, true, false, false, false, false, false, false]);
    let mut byte_iter = byte.iter().into_iter();
    assert_eq!(byte_iter.next(), Some(true));
    assert_eq!(byte_iter.next(), Some(true));
    assert_eq!(byte_iter.next(), Some(false));
}

#[test]
fn iter_is_restartable_and_leaves_the_byte_alone() {
    let byte = ByteBase2::from_dec(0b1010_0101);
    let first = byte.iter();
    let second = byte.iter();
    assert_eq!(first, second);
    assert_eq!(first.len(), 8);
    assert_eq!(byte.as_dec(), 0b1010_0101);
}

#[test]
fn render_writes_most_significant_bit_first() {
    assert_eq!(ByteBase2::from_dec(15).render(), "00001111");
    assert_eq!(ByteBase2::from_dec(8).render(), "00001000");
    assert_eq!(ByteBase2::from_dec(0).render(), "00000000");
    assert_eq!(ByteBase2::from_dec(255).render(), "11111111");
    assert_eq!(ByteBase2::from_dec(128).render(), "10000000");
}

#[test]
fn set_bit_changes_one_position() {
    let mut byte = ByteBase2::from_dec(0);
    byte.set_bit(3, true);
    assert_eq!(byte.render(), "00001000");
    assert_eq!(byte.as_dec(), 8);
    byte.set_bit(0, true);
    assert_eq!(byte.as_dec(), 9);
    byte.set_bit(3, false);
    assert_eq!(byte.as_dec(), 1);
    byte.set_bit(7, true);
    assert_eq!(byte.as_dec(), 129);
    assert_eq!(byte.ones(), 2);
}

#[test]
fn equal_when_built_from_the_same_value() {
    assert!(ByteBase2::from_dec(77) == ByteBase2::from_dec(77));
    assert!(ByteBase2::from_string("01001101").unwrap() == ByteBase2::from_dec(77));
    assert!(
        ByteBase2::from_string("01001101").unwrap() == ByteBase2::from_string("01001101").unwrap()
    );
}

#[test]
fn unequal_when_one_bit_differs() {
    for index in 0..8usize {
        let byte = ByteBase2::from_dec(77);
        let mut other = ByteBase2::from_dec(77);
        other.set_bit(index, !byte.get_bit(index));
        assert!(byte != other);
        other.set_bit(index, byte.get_bit(index));
        assert!(byte == other);
    }
}

#[test]
fn invalid_pattern_has_a_fixed_message() {
    match ByteBase2::from_string("foo") {
        Err(error) => assert_eq!(
            error.message(),
            "the string pattern should have exactly 8 '0'/'1' characters"
        ),
        Ok(_) => panic!("a malformed pattern was accepted"),
    }
}
