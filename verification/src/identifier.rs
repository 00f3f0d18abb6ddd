//! Identifiers as text.
//!
//! The upstream services send every identifier as a string of decimal
//! digits. This module reads such a string into a number and writes a number
//! back as text.

use vstd::prelude::*;
use vstd::string::is_ascii_spec_bytes;

verus! {

/// Whether a character is a decimal digit.
pub open spec fn is_digit(c: char) -> bool {
    '0' <= c <= '9'
}

/// The number that a decimal digit stands for.
pub open spec fn digit_value(c: char) -> nat {
    (c as int - '0' as int) as nat
}

/// Whether every character of a text is a decimal digit.
pub open spec fn all_digits(text: Seq<char>) -> bool {
    forall|i: int| 0 <= i < text.len() ==> is_digit(#[trigger] text[i])
}

/// The number that a sequence of decimal digits stands for.
pub open spec fn digits_value(digits: Seq<char>) -> nat
    decreases digits.len(),
{
    if digits.len() == 0 {
        0
    } else {
        digits_value(digits.drop_last()) * 10 + digit_value(digits.last())
    }
}

/// A text without its leading plus sign, if it has one.
pub open spec fn unsigned(text: Seq<char>) -> Seq<char> {
    if text.len() > 0 && text[0] == '+' {
        text.drop_first()
    } else {
        text
    }
}

/// The identifier that a text stands for: the text is an optional plus sign
/// and then one or more decimal digits, and its value fits in 32 bits.
pub open spec fn identifier_value(text: Seq<char>) -> Option<u32> {
    let digits = unsigned(text);
    if digits.len() > 0 && all_digits(digits) && digits_value(digits) <= u32::MAX {
        Some(digits_value(digits) as u32)
    } else {
        None
    }
}

/// The value of a sequence of digits is at least the value of each of its
/// prefixes.
pub proof fn lemma_digits_value_prefix(digits: Seq<char>, len: int)
    requires
        0 <= len <= digits.len(),
    ensures
        digits_value(digits.take(len)) <= digits_value(digits),
    decreases digits.len(),
{
    if len == digits.len() {
        assert(digits.take(len) == digits);
    } else {
        lemma_digits_value_prefix(digits.drop_last(), len);
        assert(digits.drop_last().take(len) == digits.take(len));
    }
}

/// Read an identifier from its text.
///
/// The text is read as the standard library reads an unsigned number: an
/// optional plus sign, then decimal digits and nothing else.
pub fn parse_identifier(text: &str) -> (parsed: Option<u32>)
    ensures
        parsed == identifier_value(text@),
{
    let ghost digits = unsigned(text@);
    if !text.is_ascii() {
        proof {
            let i = choose|i: int| 0 <= i < text@.len() && !('\0' <= #[trigger] text@[i] <= '\u{7f}');
            if digits.len() == text@.len() {
                assert(!is_digit(digits[i]));
            } else {
                assert(i != 0);
                assert(digits[i - 1] == text@[i]);
                assert(!is_digit(digits[i - 1]));
            }
        }
        return None;
    }
    let bytes = text.as_bytes();
    proof {
        is_ascii_spec_bytes(text);
        assert(bytes@.len() == text@.len());
        assert(forall|i: int| 0 <= i < bytes@.len() ==> bytes@[i] == text@[i] as u8);
    }
    let len = bytes.len();
    let start: usize = if len > 0 && bytes[0] == 43u8 {
        1
    } else {
        0
    };
    assert(digits == text@.skip(start as int));
    if start == len {
        return None;
    }
    let mut value: u64 = 0;
    let mut i: usize = start;
    while i < len
        invariant
            start <= i <= len,
            len == bytes@.len(),
            len == text@.len(),
            digits == text@.skip(start as int),
            digits == unsigned(text@),
            text.is_ascii(),
            forall|k: int| 0 <= k < bytes@.len() ==> bytes@[k] == text@[k] as u8,
            all_digits(digits.take(i - start)),
            value == digits_value(digits.take(i - start)),
            value <= u32::MAX,
        decreases len - i,
    {
        let byte = bytes[i];
        let ghost c = text@[i as int];
        assert(digits[i - start] == c);
        assert('\0' <= c <= '\u{7f}');
        if byte < 48u8 || byte > 57u8 {
            assert(!is_digit(digits[i - start]));
            return None;
        }
        let digit: u64 = (byte - 48u8) as u64;
        let next: u64 = value * 10 + digit;
        proof {
            let longer = digits.take(i - start + 1);
            assert(longer.drop_last() == digits.take(i - start));
            assert(longer.last() == c);
            assert(digit == digit_value(c));
            assert(next == digits_value(longer));
            assert(all_digits(longer)) by {
                assert forall|k: int| 0 <= k < longer.len() implies is_digit(
                    #[trigger] longer[k],
                ) by {
                    if k < i - start {
                        assert(longer[k] == digits.take(i - start)[k]);
                    }
                }
            }
        }
        if next > 0xffff_ffffu64 {
            proof {
                lemma_digits_value_prefix(digits, i - start + 1);
            }
            return None;
        }
        value = next;
        i += 1;
    }
    assert(digits.take(i - start) == digits);
    Some(value as u32)
}

/// The decimal digit that stands for a number below ten.
pub open spec fn digit_char(digit: nat) -> char {
    if digit == 0 {
        '0'
    } else if digit == 1 {
        '1'
    } else if digit == 2 {
        '2'
    } else if digit == 3 {
        '3'
    } else if digit == 4 {
        '4'
    } else if digit == 5 {
        '5'
    } else if digit == 6 {
        '6'
    } else if digit == 7 {
        '7'
    } else if digit == 8 {
        '8'
    } else {
        '9'
    }
}

/// The decimal text of a number, without leading zeros.
pub open spec fn decimal(number: nat) -> Seq<char>
    decreases number,
{
    if number < 10 {
        seq![digit_char(number)]
    } else {
        decimal(number / 10).push(digit_char(number % 10))
    }
}

/// The text of one decimal digit.
fn digit_text(digit: u32) -> (text: &'static str)
    requires
        digit < 10,
    ensures
        text@ == seq![digit_char(digit as nat)],
{
    proof {
        reveal_strlit("0");
        reveal_strlit("1");
        reveal_strlit("2");
        reveal_strlit("3");
        reveal_strlit("4");
        reveal_strlit("5");
        reveal_strlit("6");
        reveal_strlit("7");
        reveal_strlit("8");
        reveal_strlit("9");
    }
    let text = if digit == 0 {
        "0"
    } else if digit == 1 {
        "1"
    } else if digit == 2 {
        "2"
    } else if digit == 3 {
        "3"
    } else if digit == 4 {
        "4"
    } else if digit == 5 {
        "5"
    } else if digit == 6 {
        "6"
    } else if digit == 7 {
        "7"
    } else if digit == 8 {
        "8"
    } else {
        "9"
    };
    assert(text@ =~= seq![digit_char(digit as nat)]);
    text
}

/// Write the decimal text of an identifier at the end of `text`.
pub fn push_identifier(text: &mut String, identifier: u32)
    ensures
        final(text)@ == old(text)@ + decimal(identifier as nat),
    decreases identifier,
{
    if identifier >= 10 {
        push_identifier(text, identifier / 10);
    }
    text.append(digit_text(identifier % 10));
    proof {
        if identifier >= 10 {
            assert(text@ =~= old(text)@ + decimal(identifier as nat));
        } else {
            assert(text@ =~= old(text)@ + decimal(identifier as nat));
        }
    }
}

/// The decimal text of an identifier.
pub fn identifier_to_string(identifier: u32) -> (text: String)
    ensures
        text@ == decimal(identifier as nat),
{
    let mut text = String::new();
    push_identifier(&mut text, identifier);
    assert(text@ =~= decimal(identifier as nat));
    text
}

/// The decimal text of a number is made of digits, is not empty, and stands
/// for that number.
pub proof fn lemma_decimal_digits(number: nat)
    ensures
        decimal(number).len() > 0,
        all_digits(decimal(number)),
        digits_value(decimal(number)) == number,
    decreases number,
{
    if number < 10 {
        let text = decimal(number);
        assert(text.drop_last().len() == 0);
        assert(digits_value(text.drop_last()) == 0);
        assert(text.last() == digit_char(number));
    } else {
        lemma_decimal_digits(number / 10);
        let text = decimal(number);
        assert(text.drop_last() == decimal(number / 10));
        assert(text.last() == digit_char(number % 10));
        assert forall|i: int| 0 <= i < text.len() implies is_digit(#[trigger] text[i]) by {
            if i < text.len() - 1 {
                assert(text[i] == decimal(number / 10)[i]);
            }
        }
    }
}

/// Reading the decimal text of an identifier gives the identifier back.
pub proof fn lemma_parse_decimal(identifier: u32)
    ensures
        identifier_value(decimal(identifier as nat)) == Some(identifier),
{
    lemma_decimal_digits(identifier as nat);
    let text = decimal(identifier as nat);
    assert(is_digit(text[0]));
    assert(unsigned(text) == text);
}

} // verus!
