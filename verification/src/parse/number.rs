//! Numbers as decimal text: reading them, writing them, and choosing the
//! narrowest integer literal that holds a value.
use crate::parse::ast::{Ast, Node, NodeType};
use vstd::arithmetic::power2::{
    lemma2_to64, lemma_pow2_adds, lemma_pow2_pos, lemma_pow2_unfold, pow2,
};
use vstd::prelude::*;

verus! {

/// The value of a decimal digit, and `None` for any other character.
pub open spec fn digit_of(c: char) -> Option<nat> {
    match c {
        '0' => Some(0),
        '1' => Some(1),
        '2' => Some(2),
        '3' => Some(3),
        '4' => Some(4),
        '5' => Some(5),
        '6' => Some(6),
        '7' => Some(7),
        '8' => Some(8),
        '9' => Some(9),
        _ => None,
    }
}

/// The digit that stands for a value below ten.
pub open spec fn digit_char(d: nat) -> char {
    if d == 0 {
        '0'
    } else if d == 1 {
        '1'
    } else if d == 2 {
        '2'
    } else if d == 3 {
        '3'
    } else if d == 4 {
        '4'
    } else if d == 5 {
        '5'
    } else if d == 6 {
        '6'
    } else if d == 7 {
        '7'
    } else if d == 8 {
        '8'
    } else {
        '9'
    }
}

/// Whether `text` consists of decimal digits, and of at least one.
pub open spec fn is_digits(text: Seq<char>) -> bool {
    &&& text.len() > 0
    &&& forall|i: int| 0 <= i < text.len() ==> digit_of(#[trigger] text[i]) is Some
}

/// The number that the decimal digits of `text` stand for.
pub open spec fn digits_value(text: Seq<char>) -> nat
    decreases text.len(),
{
    if text.len() == 0 {
        0
    } else {
        digits_value(text.drop_last()) * 10 + match digit_of(text.last()) {
            Some(d) => d,
            None => 0,
        }
    }
}

/// The decimal text of `n`, without leading zeros.
pub open spec fn decimal_text(n: nat) -> Seq<char>
    decreases n,
{
    if n < 10 {
        seq![digit_char(n)]
    } else {
        decimal_text(n / 10).push(digit_char(n % 10))
    }
}

/// The decimal text of an integer, with a minus sign where it is negative.
pub open spec fn integer_text(n: int) -> Seq<char> {
    if n < 0 {
        seq!['-'] + decimal_text((-n) as nat)
    } else {
        decimal_text(n as nat)
    }
}

/// Whether `text` is a decimal number with a point: it begins with a digit
/// and holds digits and exactly one point.
pub open spec fn is_decimal_number(text: Seq<char>) -> bool {
    &&& text.len() > 0
    &&& digit_of(text[0]) is Some
    &&& forall|i: int| 0 <= i < text.len() ==> digit_of(#[trigger] text[i]) is Some || text[i] == '.'
    &&& points(text) == 1
}

/// The number of points in `text`.
pub open spec fn points(text: Seq<char>) -> nat
    decreases text.len(),
{
    if text.len() == 0 {
        0
    } else {
        points(text.drop_last()) + if text.last() == '.' {
            1nat
        } else {
            0nat
        }
    }
}

/// The number of binary digits of `n`: one more than the whole part of its
/// logarithm to base two, and 0 for 0.
pub open spec fn bit_length(n: nat) -> nat
    decreases n,
{
    if n == 0 {
        0
    } else {
        1 + bit_length(n / 2)
    }
}

/// The narrowest of the widths 8, 16, 32, 64 and 128 that holds `bits`
/// binary digits, if one does.
pub open spec fn literal_width(bits: nat) -> Option<nat> {
    if bits <= 8 {
        Some(8)
    } else if bits <= 16 {
        Some(16)
    } else if bits <= 32 {
        Some(32)
    } else if bits <= 64 {
        Some(64)
    } else if bits <= 128 {
        Some(128)
    } else {
        None
    }
}

/// The literal of the narrowest width that holds `n`, if one does.
pub open spec fn integer_literal(n: nat) -> Option<Ast> {
    match literal_width(bit_length(n)) {
        Some(width) => Some(
            if width == 8 {
                Ast::Int8Literal(n as u8)
            } else if width == 16 {
                Ast::Int16Literal(n as u16)
            } else if width == 32 {
                Ast::Int32Literal(n as u32)
            } else if width == 64 {
                Ast::Int64Literal(n as u64)
            } else {
                Ast::Int128Literal(n as u128)
            },
        ),
        None => None,
    }
}

/// What a text of digits holds.
#[derive(Debug, PartialEq, Eq, Clone, Copy)]
pub enum Digits {
    /// The text is empty or holds something else than digits.
    Invalid,
    /// The digits stand for a number beyond 128 bits.
    TooLarge,
    /// The number.
    Value(u128),
}

/// What a text holds, read as digits.
pub open spec fn digits_of(text: Seq<char>) -> Digits {
    if !is_digits(text) {
        Digits::Invalid
    } else if digits_value(text) > u128::MAX {
        Digits::TooLarge
    } else {
        Digits::Value(digits_value(text) as u128)
    }
}

/// A number has at most `bits` binary digits exactly if it is below the
/// `bits`-th power of two.
pub proof fn lemma_bit_length(n: nat, bits: nat)
    ensures
        bit_length(n) <= bits <==> n < pow2(bits),
    decreases bits,
{
    if bits == 0 {
        assert(pow2(0) == 1) by {
            lemma2_to64();
        }
    } else {
        lemma_pow2_unfold(bits);
        lemma_pow2_pos(bits);
        if n > 0 {
            lemma_bit_length(n / 2, (bits - 1) as nat);
        }
    }
}

/// The binary digits of a number fit into 8, 16, 32, 64 or 128 of them
/// exactly if the number fits the unsigned integer type of that width.
pub proof fn lemma_bit_length_of_widths(n: nat)
    ensures
        bit_length(n) <= 8 <==> n <= u8::MAX,
        bit_length(n) <= 16 <==> n <= u16::MAX,
        bit_length(n) <= 32 <==> n <= u32::MAX,
        bit_length(n) <= 64 <==> n <= u64::MAX,
        bit_length(n) <= 128 <==> n <= u128::MAX,
{
    lemma2_to64();
    lemma_pow2_adds(64, 64);
    lemma_bit_length(n, 8);
    lemma_bit_length(n, 16);
    lemma_bit_length(n, 32);
    lemma_bit_length(n, 64);
    lemma_bit_length(n, 128);
}

/// The value of the digit `c`, if it is one.
pub fn digit(c: char) -> (r: Option<u8>)
    ensures
        match r {
            Some(d) => digit_of(c) == Some(d as nat),
            None => digit_of(c) is None,
        },
{
    match c {
        '0' => Some(0),
        '1' => Some(1),
        '2' => Some(2),
        '3' => Some(3),
        '4' => Some(4),
        '5' => Some(5),
        '6' => Some(6),
        '7' => Some(7),
        '8' => Some(8),
        '9' => Some(9),
        _ => None,
    }
}

/// Reads `text` as a number in decimal digits.
pub fn read_digits(text: &str) -> (r: Digits)
    ensures
        r == digits_of(text@),
{
    let mut value: u128 = 0;
    let mut overflow = false;
    let mut empty = true;
    for c in it: text.chars()
        invariant
            it.seq() == text@,
            empty == (it.index() == 0),
            forall|i: int| 0 <= i < it.index() ==> digit_of(#[trigger] text@[i]) is Some,
            !overflow ==> value == digits_value(text@.take(it.index() as int)),
            overflow ==> digits_value(text@.take(it.index() as int)) > u128::MAX,
    {
        proof {
            assert(text@.take(it.index() + 1).drop_last() =~= text@.take(it.index() as int));
        }
        match digit(c) {
            None => {
                return Digits::Invalid;
            },
            Some(d) => {
                if !overflow {
                    match value.checked_mul(10) {
                        None => {
                            overflow = true;
                        },
                        Some(tens) => match tens.checked_add(d as u128) {
                            None => {
                                overflow = true;
                            },
                            Some(sum) => {
                                value = sum;
                            },
                        },
                    }
                }
            },
        }
        empty = false;
    }
    proof {
        assert(text@.take(text@.len() as int) =~= text@);
    }
    if empty {
        Digits::Invalid
    } else if overflow {
        Digits::TooLarge
    } else {
        Digits::Value(value)
    }
}

/// The literal of the narrowest width that holds `n`.
pub fn integer_node(n: u128) -> (r: Node)
    ensures
        Some(r@) == integer_literal(n as nat),
{
    proof {
        lemma_bit_length_of_widths(n as nat);
    }
    if n <= 0xff {
        Node::new(NodeType::Int8Literal(n as u8))
    } else if n <= 0xffff {
        Node::new(NodeType::Int16Literal(n as u16))
    } else if n <= 0xffff_ffff {
        Node::new(NodeType::Int32Literal(n as u32))
    } else if n <= 0xffff_ffff_ffff_ffff {
        Node::new(NodeType::Int64Literal(n as u64))
    } else {
        Node::new(NodeType::Int128Literal(n))
    }
}

/// Whether `text` is a decimal number with a point.
pub fn is_decimal(text: &str) -> (r: bool)
    ensures
        r == is_decimal_number(text@),
{
    let mut seen: u8 = 0;
    let mut first = true;
    for c in it: text.chars()
        invariant
            it.seq() == text@,
            first == (it.index() == 0),
            it.index() > 0 ==> digit_of(text@[0]) is Some,
            forall|i: int|
                0 <= i < it.index() ==> digit_of(#[trigger] text@[i]) is Some || text@[i] == '.',
            seen <= 1,
            seen == points(text@.take(it.index() as int)),
    {
        proof {
            assert(text@.take(it.index() + 1).drop_last() =~= text@.take(it.index() as int));
        }
        if c == '.' {
            if first || seen == 1 {
                proof {
                    lemma_points_grow(text@, it.index() + 1);
                }
                return false;
            }
            seen = 1;
        } else if digit(c).is_none() {
            return false;
        }
        first = false;
    }
    proof {
        assert(text@.take(text@.len() as int) =~= text@);
    }
    !first && seen == 1
}

/// A text holds at least as many points as any of its beginnings.
pub proof fn lemma_points_grow(text: Seq<char>, k: int)
    requires
        0 <= k <= text.len(),
    ensures
        points(text.take(k)) <= points(text),
    decreases text.len() - k,
{
    if k < text.len() {
        assert(text.take(k + 1).drop_last() =~= text.take(k));
        lemma_points_grow(text, k + 1);
    } else {
        assert(text.take(k) =~= text);
    }
}

/// The digit that stands for `d`.
fn digit_character(d: u8) -> (r: char)
    requires
        d < 10,
    ensures
        r == digit_char(d as nat),
{
    match d {
        0 => '0',
        1 => '1',
        2 => '2',
        3 => '3',
        4 => '4',
        5 => '5',
        6 => '6',
        7 => '7',
        8 => '8',
        _ => '9',
    }
}

/// Writes `n` in decimal digits.
pub fn decimal_string(n: u128) -> (r: String)
    ensures
        r@ == decimal_text(n as nat),
    decreases n,
{
    if n < 10 {
        let mut text = String::new();
        text.push(digit_character(n as u8));
        text
    } else {
        let mut text = decimal_string(n / 10);
        text.push(digit_character((n % 10) as u8));
        text
    }
}

/// Writes `n` in decimal digits, with a minus sign where it is negative.
pub fn integer_string(n: i128) -> (r: String)
    ensures
        r@ == integer_text(n as int),
{
    if n < 0 {
        let magnitude: u128 = ((-(n + 1)) as u128) + 1;
        let mut text = String::from_str("-");
        proof {
            reveal_strlit("-");
        }
        text.append(decimal_string(magnitude).as_str());
        text
    } else {
        decimal_string(n as u128)
    }
}

/// The decimal text of a number consists of digits, and they stand for the
/// number.
pub proof fn lemma_decimal_text_reads_back(n: nat)
    ensures
        is_digits(decimal_text(n)),
        digits_value(decimal_text(n)) == n,
    decreases n,
{
    if n < 10 {
        assert(digits_value(decimal_text(n).drop_last()) == 0);
    } else {
        lemma_decimal_text_reads_back(n / 10);
        assert(decimal_text(n).drop_last() =~= decimal_text(n / 10));
    }
}

} // verus!
