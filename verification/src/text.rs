//! What the library needs of strings beyond their views: search,
//! ordering, and the reading of numbers.

use vstd::prelude::*;
use vstd::string::StringSliceAdditionalSpecFns;
use vstd::utf8::encode_utf8;
use vstd::utf8::encode_utf8_decode_utf8;

verus! {

/// How one value stands to another in an order.
#[derive(Debug, PartialEq, Eq, Clone, Copy, Structural)]
pub enum Order {
    Less,
    Equal,
    Greater,
}

/// The order of two byte strings: that of the first byte in which they
/// differ, and the shorter first where one is the start of the other.
pub open spec fn spec_compare_bytes(first: Seq<u8>, second: Seq<u8>) -> Order
    decreases first.len(),
{
    if first.len() == 0 && second.len() == 0 {
        Order::Equal
    } else if first.len() == 0 {
        Order::Less
    } else if second.len() == 0 {
        Order::Greater
    } else if first[0] < second[0] {
        Order::Less
    } else if first[0] > second[0] {
        Order::Greater
    } else {
        spec_compare_bytes(first.skip(1), second.skip(1))
    }
}

/// The order of two strings: that of their bytes in UTF-8.
pub open spec fn spec_compare(first: Seq<char>, second: Seq<char>) -> Order {
    spec_compare_bytes(encode_utf8(first), encode_utf8(second))
}

/// Byte strings are equal in the order only where they are the same.
pub proof fn lemma_compare_bytes_equal(first: Seq<u8>, second: Seq<u8>)
    ensures
        spec_compare_bytes(first, second) == Order::Equal <==> first == second,
    decreases first.len(),
{
    if first.len() > 0 && second.len() > 0 {
        lemma_compare_bytes_equal(first.skip(1), second.skip(1));
        if first[0] == second[0] && first.skip(1) == second.skip(1) {
            assert(first =~= seq![first[0]] + first.skip(1));
            assert(second =~= seq![second[0]] + second.skip(1));
        }
    } else if first.len() == 0 && second.len() == 0 {
        assert(first =~= second);
    }
}

/// Turning two byte strings round turns their order round.
pub proof fn lemma_compare_bytes_flip(first: Seq<u8>, second: Seq<u8>)
    ensures
        spec_compare_bytes(first, second) == Order::Less <==> spec_compare_bytes(second, first)
            == Order::Greater,
        spec_compare_bytes(first, second) == Order::Equal <==> spec_compare_bytes(second, first)
            == Order::Equal,
    decreases first.len(),
{
    if first.len() > 0 && second.len() > 0 {
        lemma_compare_bytes_flip(first.skip(1), second.skip(1));
    }
}

/// What is not greater than something that is not greater than a third is
/// not greater than the third, and is less where one of the two steps is.
pub proof fn lemma_compare_bytes_transitive(first: Seq<u8>, second: Seq<u8>, third: Seq<u8>)
    requires
        spec_compare_bytes(first, second) != Order::Greater,
        spec_compare_bytes(second, third) != Order::Greater,
    ensures
        spec_compare_bytes(first, third) != Order::Greater,
        spec_compare_bytes(first, second) == Order::Less || spec_compare_bytes(second, third)
            == Order::Less ==> spec_compare_bytes(first, third) == Order::Less,
    decreases first.len(),
{
    if first.len() > 0 && second.len() > 0 && third.len() > 0 {
        if first[0] == second[0] && second[0] == third[0] {
            lemma_compare_bytes_transitive(first.skip(1), second.skip(1), third.skip(1));
        }
    }
}

/// Strings are equal in the order only where they are the same.
pub proof fn lemma_compare_equal(first: Seq<char>, second: Seq<char>)
    ensures
        spec_compare(first, second) == Order::Equal <==> first == second,
{
    lemma_compare_bytes_equal(encode_utf8(first), encode_utf8(second));
    encode_utf8_decode_utf8(first);
    encode_utf8_decode_utf8(second);
}

/// The order of two strings.
pub fn compare(first: &str, second: &str) -> (order: Order)
    ensures
        order == spec_compare(first@, second@),
{
    let left = first.as_bytes();
    let right = second.as_bytes();
    let mut index: usize = 0;
    assert(left@.skip(0) =~= left@);
    assert(right@.skip(0) =~= right@);
    while index < left.len() && index < right.len()
        invariant
            left@ == encode_utf8(first@),
            right@ == encode_utf8(second@),
            index <= left@.len(),
            index <= right@.len(),
            spec_compare_bytes(left@, right@) == spec_compare_bytes(
                left@.skip(index as int),
                right@.skip(index as int),
            ),
        decreases left@.len() - index,
    {
        let ghost rest_left = left@.skip(index as int);
        let ghost rest_right = right@.skip(index as int);
        assert(rest_left[0] == left@[index as int]);
        assert(rest_right[0] == right@[index as int]);
        if left[index] < right[index] {
            return Order::Less;
        }
        if left[index] > right[index] {
            return Order::Greater;
        }
        assert(rest_left.skip(1) =~= left@.skip(index + 1));
        assert(rest_right.skip(1) =~= right@.skip(index + 1));
        index += 1;
    }
    assert(left@.skip(index as int).len() == left@.len() - index);
    assert(right@.skip(index as int).len() == right@.len() - index);
    if index < right.len() {
        Order::Less
    } else if index < left.len() {
        Order::Greater
    } else {
        Order::Equal
    }
}

/// Whether two strings are the same.
pub fn equal(first: &str, second: &str) -> (same: bool)
    ensures
        same == (first@ == second@),
{
    proof {
        lemma_compare_equal(first@, second@);
    }
    compare(first, second) == Order::Equal
}

/// Whether `needle` occurs in `haystack` as a run of neighbouring characters.
pub open spec fn spec_contains(haystack: Seq<char>, needle: Seq<char>) -> bool {
    exists|start: int|
        0 <= start <= haystack.len() - needle.len() && #[trigger] haystack.subrange(
            start,
            start + needle.len(),
        ) == needle
}

/// `str::contains` with a string as its pattern: whether some part of
/// `haystack` is `needle`. The empty string is part of every string.
#[verifier::external_body]
pub(crate) fn contains(haystack: &str, needle: &str) -> (found: bool)
    ensures
        found == spec_contains(haystack@, needle@),
{
    haystack.contains(needle)
}

/// The number that `digits` write in decimal; none where they are no
/// digits at all, or not digits only.
pub open spec fn spec_digits_value(digits: Seq<u8>) -> Option<nat>
    decreases digits.len(),
{
    if digits.len() == 0 {
        None
    } else if !(0x30 <= digits.last() <= 0x39) {
        None
    } else if digits.len() == 1 {
        Some((digits.last() - 0x30) as nat)
    } else {
        match spec_digits_value(digits.drop_last()) {
            Some(value) => Some(value * 10 + (digits.last() - 0x30) as nat),
            None => None,
        }
    }
}

/// The number up to `max` that `bytes` write in decimal, with or without
/// a plus sign before the digits; none where they write no such number.
pub open spec fn spec_parse_decimal(bytes: Seq<u8>, max: u64) -> Option<u64> {
    let digits = if bytes.len() > 0 && bytes[0] == 0x2b {
        bytes.skip(1)
    } else {
        bytes
    };
    match spec_digits_value(digits) {
        Some(value) => if value <= max {
            Some(value as u64)
        } else {
            None
        },
        None => None,
    }
}

proof fn lemma_digits_prefix(digits: Seq<u8>, count: int)
    requires
        1 <= count <= digits.len(),
        spec_digits_value(digits) is Some,
    ensures
        spec_digits_value(digits.take(count)) is Some,
        spec_digits_value(digits.take(count))->0 <= spec_digits_value(digits)->0,
    decreases digits.len(),
{
    if count < digits.len() {
        lemma_digits_prefix(digits.drop_last(), count);
        assert(digits.drop_last().take(count) =~= digits.take(count));
    } else {
        assert(digits.take(count) =~= digits);
    }
}

/// The number up to `max` that `bytes` write in decimal.
pub fn parse_decimal(bytes: &[u8], max: u64) -> (parsed: Option<u64>)
    ensures
        parsed == spec_parse_decimal(bytes@, max),
{
    let start: usize = if bytes.len() > 0 && bytes[0] == 0x2b {
        1
    } else {
        0
    };
    let ghost digits = if bytes@.len() > 0 && bytes@[0] == 0x2b {
        bytes@.skip(1)
    } else {
        bytes@
    };
    assert(bytes@.skip(0) =~= bytes@);
    if start == bytes.len() {
        return None;
    }
    let mut value: u64 = 0;
    let mut index: usize = start;
    while index < bytes.len()
        invariant
            start <= index <= bytes@.len(),
            start < bytes@.len(),
            digits == bytes@.skip(start as int),
            digits == if bytes@.len() > 0 && bytes@[0] == 0x2b {
                bytes@.skip(1)
            } else {
                bytes@
            },
            value <= max,
            index > start ==> spec_digits_value(digits.take(index - start)) == Some(value as nat),
            index == start ==> value == 0,
        decreases bytes@.len() - index,
    {
        let byte = bytes[index];
        let ghost head = digits.take(index - start + 1);
        proof {
            assert(head.last() == byte);
            assert(head.drop_last() =~= digits.take(index - start));
            if spec_digits_value(digits) is Some {
                lemma_digits_prefix(digits, index - start + 1);
            }
        }
        if byte < 0x30 || byte > 0x39 {
            return None;
        }
        let digit: u64 = (byte - 0x30) as u64;
        if digit > max || value > (max - digit) / 10 {
            return None;
        }
        value = value * 10 + digit;
        index += 1;
    }
    assert(digits.take(index - start) =~= digits);
    Some(value)
}

/// The number that `text` writes in decimal, where it fits 64 bits.
pub fn parse_u64(text: &str) -> (parsed: Option<u64>)
    ensures
        parsed == spec_parse_decimal(encode_utf8(text@), u64::MAX),
{
    parse_decimal(text.as_bytes(), u64::MAX)
}

/// The number that `text` writes in decimal, where it fits 8 bits.
pub fn parse_u8(text: &str) -> (parsed: Option<u8>)
    ensures
        parsed is Some <==> spec_parse_decimal(encode_utf8(text@), 255) is Some,
        parsed is Some ==> parsed->0 == spec_parse_decimal(encode_utf8(text@), 255)->0,
{
    match parse_decimal(text.as_bytes(), 255) {
        Some(value) => Some(value as u8),
        None => None,
    }
}

} // verus!
