//! String comparison and decimal parsing with proved contracts.

use vstd::prelude::*;
use vstd::utf8::*;

verus! {

/// Two strings with the same UTF-8 encoding hold the same characters.
pub proof fn lemma_encoding_determines_text(a: Seq<char>, b: Seq<char>)
    requires
        encode_utf8(a) == encode_utf8(b),
    ensures
        a == b,
{
    encode_utf8_decode_utf8(a);
    encode_utf8_decode_utf8(b);
}

/// Whether `a` and `b` hold the same characters.
pub fn text_eq(a: &str, b: &str) -> (same: bool)
    ensures
        same == (a@ == b@),
{
    let x = a.as_bytes();
    let y = b.as_bytes();
    if x.len() != y.len() {
        return false;
    }
    let mut i: usize = 0;
    while i < x.len()
        invariant
            x.len() == y.len(),
            i <= x.len(),
            x@ == encode_utf8(a@),
            y@ == encode_utf8(b@),
            forall|j: int| 0 <= j < i ==> x@[j] == y@[j],
        decreases x.len() - i,
    {
        if x[i] != y[i] {
            return false;
        }
        i += 1;
    }
    proof {
        assert(x@ =~= y@);
        lemma_encoding_determines_text(a@, b@);
    }
    true
}

/// The value of a decimal digit.
pub open spec fn digit_value(c: char) -> Option<nat> {
    if '0' <= c <= '9' {
        Some((c as nat - '0' as nat) as nat)
    } else {
        None
    }
}

/// The number that a run of decimal digits stands for; the empty run
/// stands for zero, and a run with anything but digits for nothing.
pub open spec fn decimal_value(digits: Seq<char>) -> Option<nat>
    decreases digits.len(),
{
    if digits.len() == 0 {
        Some(0)
    } else {
        match (decimal_value(digits.drop_last()), digit_value(digits.last())) {
            (Some(high), Some(low)) => Some(high * 10 + low),
            _ => None,
        }
    }
}

/// The byte that `text` stands for in decimal notation: an optional `+`,
/// then one or more digits, which may start with zeros, for a number up to
/// 255. Anything else, a space or a `-` included, stands for nothing.
pub open spec fn decimal_u8(text: Seq<char>) -> Option<u8> {
    let digits = if text.len() > 0 && text[0] == '+' {
        text.skip(1)
    } else {
        text
    };
    if digits.len() == 0 {
        None
    } else {
        match decimal_value(digits) {
            Some(number) => if number <= 255 {
                Some(number as u8)
            } else {
                None
            },
            None => None,
        }
    }
}

/// The character of a decimal digit.
pub open spec fn digit_char(digit: nat) -> char {
    if digit == 0 {
        '0'
    } else if digit == 1 {
        '1'
    } else if digit == 2 {
        '2'
    } else if digit == 3 {
        '3'
    } else if digit == 4 {
        '4'
    } else if digit == 5 {
        '5'
    } else if digit == 6 {
        '6'
    } else if digit == 7 {
        '7'
    } else if digit == 8 {
        '8'
    } else {
        '9'
    }
}

/// The decimal notation of a byte, without sign and without zeros in front.
pub open spec fn decimal_text(number: u8) -> Seq<char> {
    let n = number as nat;
    if n < 10 {
        seq![digit_char(n)]
    } else if n < 100 {
        seq![digit_char(n / 10), digit_char(n % 10)]
    } else {
        seq![digit_char(n / 100), digit_char((n / 10) % 10), digit_char(n % 10)]
    }
}

/// The decimal notation of a byte reads back as that byte.
pub proof fn lemma_decimal_round_trip(number: u8)
    ensures
        decimal_u8(decimal_text(number)) == Some(number),
{
    let n = number as nat;
    let text = decimal_text(number);
    assert forall|d: nat| d < 10 implies digit_value(#[trigger] digit_char(d)) == Some(d) by {}
    assert(text[0] != '+');
    let one = text.take(1);
    assert(one.drop_last() =~= Seq::<char>::empty());
    assert(decimal_value(one.drop_last()) == Some(0nat));
    assert(one.last() == text[0]);
    if n < 10 {
        assert(text =~= one);
        assert(decimal_value(text) == Some(n));
    } else if n < 100 {
        assert(decimal_value(one) == Some(n / 10));
        assert(text.drop_last() =~= one);
        assert(decimal_value(text) == Some((n / 10) * 10 + n % 10));
    } else {
        assert(decimal_value(one) == Some(n / 100));
        let two = text.take(2);
        assert(two.drop_last() =~= one);
        assert(two.last() == text[1]);
        assert(decimal_value(two) == Some((n / 100) * 10 + (n / 10) % 10));
        assert(text.drop_last() =~= two);
        assert(decimal_value(text) == Some(((n / 100) * 10 + (n / 10) % 10) * 10 + n % 10));
    }
}

/// A run with a character that is no digit stands for nothing.
pub proof fn lemma_decimal_needs_digits(digits: Seq<char>, at: int)
    requires
        0 <= at < digits.len(),
        digit_value(digits[at]) is None,
    ensures
        decimal_value(digits) is None,
    decreases digits.len(),
{
    if at < digits.len() - 1 {
        lemma_decimal_needs_digits(digits.drop_last(), at);
    }
}

/// The start of a run of digits stands for a number, and for none that is
/// greater than the number of the whole run.
pub proof fn lemma_decimal_start(digits: Seq<char>, length: int)
    requires
        0 <= length <= digits.len(),
        decimal_value(digits) is Some,
    ensures
        decimal_value(digits.take(length)) is Some,
        decimal_value(digits.take(length))->0 <= decimal_value(digits)->0,
    decreases digits.len(),
{
    if length == digits.len() {
        assert(digits.take(length) =~= digits);
    } else {
        assert(digits.drop_last().take(length) =~= digits.take(length));
        lemma_decimal_start(digits.drop_last(), length);
    }
}

/// Reads a byte in decimal notation: an optional `+`, then digits.
pub fn parse_u8(s: &str) -> (number: Option<u8>)
    ensures
        number == decimal_u8(s@),
{
    let ghost text = s@;
    let ghost digits = if text.len() > 0 && text[0] == '+' {
        text.skip(1)
    } else {
        text
    };
    if !s.is_ascii() {
        proof {
            let at = choose|i: int|
                0 <= i < text.len() && !('\0' <= #[trigger] text[i] <= '\u{7f}');
            if text[0] == '+' {
                assert(digits[at - 1] == text[at]);
                lemma_decimal_needs_digits(digits, at - 1);
            } else {
                lemma_decimal_needs_digits(digits, at);
            }
        }
        return None;
    }
    let bytes = s.as_bytes();
    proof {
        vstd::string::is_ascii_spec_bytes(s);
    }
    let length = bytes.len();
    let start: usize = if length > 0 && bytes[0] == 43 {
        1
    } else {
        0
    };
    assert(digits =~= text.skip(start as int));
    if start == length {
        return None;
    }
    let mut at: usize = start;
    let mut value: u32 = 0;
    assert(digits.take(0) =~= Seq::<char>::empty());
    while at < length
        invariant
            start <= at <= length,
            length == text.len(),
            length == bytes.len(),
            text == s@,
            digits == text.skip(start as int),
            digits == if text.len() > 0 && text[0] == '+' {
                text.skip(1)
            } else {
                text
            },
            forall|i: int| 0 <= i < length ==> bytes@[i] == text[i] as u8,
            forall|i: int| 0 <= i < length ==> '\0' <= #[trigger] text[i] <= '\u{7f}',
            decimal_value(digits.take(at - start)) == Some(value as nat),
            value <= 255,
        decreases length - at,
    {
        let byte = bytes[at];
        let ghost seen = digits.take(at - start);
        let ghost more = digits.take(at - start + 1);
        proof {
            assert(more.drop_last() =~= seen);
            assert(more.last() == text[at as int]);
        }
        if byte < 48 || byte > 57 {
            proof {
                assert(digit_value(text[at as int]) is None);
                lemma_decimal_needs_digits(digits, at - start);
            }
            return None;
        }
        assert(digit_value(text[at as int]) == Some((byte - 48) as nat));
        value = value * 10 + (byte - 48) as u32;
        if value > 255 {
            proof {
                if decimal_value(digits) is Some {
                    lemma_decimal_start(digits, at - start + 1);
                }
            }
            return None;
        }
        at += 1;
    }
    assert(digits.take(at - start) =~= digits);
    Some(value as u8)
}

} // verus!
