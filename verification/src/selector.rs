//! Block selectors as text: one of the words "latest", "earliest" and
//! "pending", or the height of a block in hexadecimal after "0x", or in
//! decimal.

use crate::types::BlockNumber;
use vstd::prelude::*;

verus! {

/// The word "latest".
pub open spec fn latest() -> Seq<u8> {
    seq![108u8, 97u8, 116u8, 101u8, 115u8, 116u8]
}

/// The word "earliest".
pub open spec fn earliest() -> Seq<u8> {
    seq![101u8, 97u8, 114u8, 108u8, 105u8, 101u8, 115u8, 116u8]
}

/// The word "pending".
pub open spec fn pending() -> Seq<u8> {
    seq![112u8, 101u8, 110u8, 100u8, 105u8, 110u8, 103u8]
}

/// The value of a digit in a radix of at most 16, in either case.
pub open spec fn digit_value(byte: u8, radix: nat) -> Option<nat> {
    let value: int = if 48 <= byte <= 57 {
        byte - 48
    } else if 97 <= byte <= 102 {
        byte - 87
    } else if 65 <= byte <= 70 {
        byte - 55
    } else {
        16
    };
    if value < radix {
        Some(value as nat)
    } else {
        None
    }
}

/// Whether every byte is a digit of the radix.
pub open spec fn all_digits(digits: Seq<u8>, radix: nat) -> bool {
    forall|i: int| 0 <= i < digits.len() ==> digit_value(#[trigger] digits[i], radix).is_some()
}

/// The number that digits stand for, the most significant digit first.
pub open spec fn digits_value(digits: Seq<u8>, radix: nat) -> nat
    decreases digits.len(),
{
    if digits.len() == 0 {
        0
    } else {
        digits_value(digits.drop_last(), radix) * radix + match digit_value(digits.last(), radix) {
            Some(value) => value,
            None => 0,
        }
    }
}

/// The height that a numeral stands for: at least one digit, after a plus
/// sign or without one, and a value that fits 64 bits.
pub open spec fn numeral(text: Seq<u8>, radix: nat) -> Option<u64> {
    let digits = if text.len() > 0 && text[0] == 43 {
        text.skip(1)
    } else {
        text
    };
    if digits.len() > 0 && all_digits(digits, radix) && digits_value(digits, radix) <= u64::MAX {
        Some(digits_value(digits, radix) as u64)
    } else {
        None
    }
}

/// The selector that a text stands for.
pub open spec fn selector(text: Seq<u8>) -> Option<BlockNumber> {
    if text == latest() {
        Some(BlockNumber::Latest)
    } else if text == earliest() {
        Some(BlockNumber::Earliest)
    } else if text == pending() {
        Some(BlockNumber::Pending)
    } else if text.len() >= 2 && text[0] == 48 && text[1] == 120 {
        match numeral(text.skip(2), 16) {
            Some(number) => Some(BlockNumber::Num(number)),
            None => None,
        }
    } else {
        match numeral(text, 10) {
            Some(number) => Some(BlockNumber::Num(number)),
            None => None,
        }
    }
}

/// Digits never stand for less than their first ones do.
proof fn lemma_digits_grow(digits: Seq<u8>, radix: nat, n: int)
    requires
        0 <= n <= digits.len(),
        radix >= 1,
    ensures
        digits_value(digits.take(n), radix) <= digits_value(digits, radix),
    decreases digits.len(),
{
    if n < digits.len() {
        let init = digits.drop_last();
        assert(init.take(n) =~= digits.take(n));
        lemma_digits_grow(init, radix, n);
        assert(digits_value(init, radix) <= digits_value(init, radix) * radix) by (nonlinear_arith)
            requires
                radix >= 1,
        ;
    } else {
        assert(digits.take(n) =~= digits);
    }
}

fn digit_of(byte: u8, radix: u64) -> (r: Option<u64>)
    requires
        radix <= 16,
    ensures
        match r {
            Some(value) => digit_value(byte, radix as nat) == Some(value as nat) && value < radix,
            None => digit_value(byte, radix as nat).is_none(),
        },
{
    let value: u64 = if 48 <= byte && byte <= 57 {
        (byte - 48) as u64
    } else if 97 <= byte && byte <= 102 {
        (byte - 87) as u64
    } else if 65 <= byte && byte <= 70 {
        (byte - 55) as u64
    } else {
        16
    };
    if value < radix {
        Some(value)
    } else {
        None
    }
}

fn parse_numeral(text: &[u8], from: usize, radix: u64) -> (r: Option<u64>)
    requires
        from <= text@.len(),
        1 <= radix <= 16,
    ensures
        r == numeral(text@.skip(from as int), radix as nat),
{
    let ghost all = text@.skip(from as int);
    let start: usize = if from < text.len() && text[from] == 43 {
        from + 1
    } else {
        from
    };
    let ghost digits = text@.skip(start as int);
    proof {
        if start > from {
            assert(all.skip(1) =~= digits);
        }
    }
    if start >= text.len() {
        return None;
    }
    let mut value: u64 = 0;
    let mut i: usize = start;
    assert(digits.take(0) =~= Seq::<u8>::empty());
    assert(all.len() > 0 && all[0] == 43 ==> start == from + 1);
    while i < text.len()
        invariant
            start <= i <= text@.len(),
            1 <= radix <= 16,
            digits == text@.skip(start as int),
            digits.len() > 0,
            numeral(text@.skip(from as int), radix as nat) == if all_digits(digits, radix as nat) && digits_value(
                digits,
                radix as nat,
            ) <= u64::MAX {
                Some(digits_value(digits, radix as nat) as u64)
            } else {
                None
            },
            all_digits(digits.take(i - start), radix as nat),
            value == digits_value(digits.take(i - start), radix as nat),
        decreases text@.len() - i,
    {
        let ghost before = digits.take(i - start);
        let ghost after = digits.take(i - start + 1);
        proof {
            assert(after.drop_last() =~= before);
            assert(after.last() == text@[i as int]);
            lemma_digits_grow(digits, radix as nat, i - start + 1);
        }
        let digit = match digit_of(text[i], radix) {
            Some(digit) => digit,
            None => {
                assert(digits[i - start] == text@[i as int]);
                return None;
            },
        };
        let scaled = match value.checked_mul(radix) {
            Some(scaled) => scaled,
            None => {
                return None;
            },
        };
        value = match scaled.checked_add(digit) {
            Some(sum) => sum,
            None => {
                return None;
            },
        };
        proof {
            assert forall|j: int| 0 <= j < after.len() implies digit_value(
                #[trigger] after[j],
                radix as nat,
            ).is_some() by {
                if j < before.len() {
                    assert(before[j] == after[j]);
                }
            }
        }
        i = i + 1;
    }
    assert(digits.take(i - start) =~= digits);
    Some(value)
}

fn is_word(text: &[u8], word: &[u8]) -> (r: bool)
    ensures
        r == (text@ == word@),
{
    if text.len() != word.len() {
        return false;
    }
    let mut i: usize = 0;
    while i < text.len()
        invariant
            0 <= i <= text@.len(),
            text@.len() == word@.len(),
            forall|j: int| 0 <= j < i ==> text@[j] == word@[j],
        decreases text@.len() - i,
    {
        if text[i] != word[i] {
            return false;
        }
        i = i + 1;
    }
    assert(text@ =~= word@);
    true
}

/// Reads a block selector from the bytes of its text.
pub fn parse_selector(text: &[u8]) -> (r: Option<BlockNumber>)
    ensures
        r == selector(text@),
{
    let latest_word: [u8; 6] = [108, 97, 116, 101, 115, 116];
    let earliest_word: [u8; 8] = [101, 97, 114, 108, 105, 101, 115, 116];
    let pending_word: [u8; 7] = [112, 101, 110, 100, 105, 110, 103];
    proof {
        assert(latest_word@ =~= latest());
        assert(earliest_word@ =~= earliest());
        assert(pending_word@ =~= pending());
    }
    if is_word(text, latest_word.as_slice()) {
        Some(BlockNumber::Latest)
    } else if is_word(text, earliest_word.as_slice()) {
        Some(BlockNumber::Earliest)
    } else if is_word(text, pending_word.as_slice()) {
        Some(BlockNumber::Pending)
    } else if text.len() >= 2 && text[0] == 48 && text[1] == 120 {
        match parse_numeral(text, 2, 16) {
            Some(number) => Some(BlockNumber::Num(number)),
            None => None,
        }
    } else {
        assert(text@.skip(0) =~= text@);
        match parse_numeral(text, 0, 10) {
            Some(number) => Some(BlockNumber::Num(number)),
            None => None,
        }
    }
}

} // verus!
