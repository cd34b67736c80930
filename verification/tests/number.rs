use stat_script::parse::ast::{Node, NodeType};
use stat_script::parse::number::{
    decimal_string, digit, integer_node, integer_string, is_decimal, read_digits, Digits,
};

#[test]
fn digits_have_their_values() {
    for (value, character) in "0123456789".chars().enumerate() {
        assert_eq!(digit(character), Some(value as u8));
    }
    for character in ['a', ' ', '.', '-', '\u{0663}', '/', ':'] {
        assert_eq!(digit(character), None);
    }
}

#[test]
fn reading_digits() {
    assert_eq!(read_digits("0"), Digits::Value(0));
    assert_eq!(read_digits("12"), Digits::Value(12));
    assert_eq!(read_digits("0012"), Digits::Value(12));
    assert_eq!(
        read_digits("340282366920938463463374607431768211455"),
        Digits::Value(u128::MAX)
    );
    assert_eq!(
        read_digits("0000000000000000000000000000000000000000000000001"),
        Digits::Value(1)
    );
}

#[test]
fn reading_what_is_no_number() {
    assert_eq!(read_digits(""), Digits::Invalid);
    assert_eq!(read_digits("12a"), Digits::Invalid);
    assert_eq!(read_digits("+12"), Digits::Invalid);
    assert_eq!(read_digits("-1"), Digits::Invalid);
    assert_eq!(read_digits("1.5"), Digits::Invalid);
    assert_eq!(read_digits("1\u{0663}"), Digits::Invalid);
    // Digits are looked at to the end, also beyond 128 bits.
    assert_eq!(read_digits("3402823669209384634633746074317682114550000x"), Digits::Invalid);
}

#[test]
fn reading_numbers_beyond_128_bits() {
    assert_eq!(read_digits("340282366920938463463374607431768211456"), Digits::TooLarge);
    assert_eq!(read_digits("340282366920938463463374607431768211460"), Digits::TooLarge);
    assert_eq!(read_digits("99999999999999999999999999999999999999999999"), Digits::TooLarge);
}

#[test]
fn decimal_numbers() {
    assert!(is_decimal("1.5"));
    assert!(is_decimal("0.0"));
    assert!(is_decimal("12."));
    assert!(!is_decimal(""));
    assert!(!is_decimal("12"));
    assert!(!is_decimal(".5"));
    assert!(!is_decimal("1.2.3"));
    assert!(!is_decimal("1.a"));
    assert!(!is_decimal("1\u{0663}.5"));
    for text in ["1.5", "0.0", "12.", "007.250"] {
        assert!(is_decimal(text));
        assert!(text.parse::<f64>().is_ok());
    }
}

fn literal(n: u128) -> NodeType {
    *integer_node(n).node_type
}

#[test]
fn the_narrowest_width_is_chosen() {
    assert_eq!(literal(0), NodeType::Int8Literal(0));
    assert_eq!(literal(1), NodeType::Int8Literal(1));
    assert_eq!(literal(255), NodeType::Int8Literal(255));
    assert_eq!(literal(256), NodeType::Int16Literal(256));
    assert_eq!(literal(65535), NodeType::Int16Literal(65535));
    assert_eq!(literal(65536), NodeType::Int32Literal(65536));
    assert_eq!(literal(u32::MAX as u128), NodeType::Int32Literal(u32::MAX));
    assert_eq!(literal(u32::MAX as u128 + 1), NodeType::Int64Literal(1 << 32));
    assert_eq!(literal(u64::MAX as u128), NodeType::Int64Literal(u64::MAX));
    assert_eq!(literal(u64::MAX as u128 + 1), NodeType::Int128Literal(1 << 64));
    assert_eq!(literal(u128::MAX), NodeType::Int128Literal(u128::MAX));
}

#[test]
fn the_width_follows_the_binary_digits() {
    for bits in 1..=128u32 {
        let largest = u128::MAX >> (128 - bits);
        let smallest = 1u128 << (bits - 1);
        for n in [smallest, largest] {
            let width = match literal(n) {
                NodeType::Int8Literal(v) => {
                    assert_eq!(v as u128, n);
                    8
                }
                NodeType::Int16Literal(v) => {
                    assert_eq!(v as u128, n);
                    16
                }
                NodeType::Int32Literal(v) => {
                    assert_eq!(v as u128, n);
                    32
                }
                NodeType::Int64Literal(v) => {
                    assert_eq!(v as u128, n);
                    64
                }
                NodeType::Int128Literal(v) => {
                    assert_eq!(v, n);
                    128
                }
                other => panic!("no integer literal: {:?}", other),
            };
            let expected = [8, 16, 32, 64, 128].into_iter().find(|w| bits <= *w).unwrap();
            assert_eq!(width, expected);
        }
    }
}

#[test]
fn writing_numbers() {
    assert_eq!(decimal_string(0), "0");
    assert_eq!(decimal_string(7), "7");
    assert_eq!(decimal_string(10), "10");
    assert_eq!(decimal_string(1203), "1203");
    assert_eq!(decimal_string(u128::MAX), "340282366920938463463374607431768211455");
    assert_eq!(integer_string(0), "0");
    assert_eq!(integer_string(42), "42");
    assert_eq!(integer_string(-5), "-5");
    assert_eq!(integer_string(i128::MAX), i128::MAX.to_string());
    assert_eq!(integer_string(i128::MIN), i128::MIN.to_string());
}

#[test]
fn what_is_written_is_read_back() {
    for n in [0u128, 9, 10, 255, 256, 65535, 65536, 1 << 64, u128::MAX] {
        assert_eq!(read_digits(&decimal_string(n)), Digits::Value(n));
        assert_eq!(integer_node(n), Node::new(literal(n)));
    }
}
