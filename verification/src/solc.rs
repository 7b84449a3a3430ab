//! Reading what the Solidity compiler prints: the line that follows the first
//! line with the word "Binary" holds the compiled code in hexadecimal.

use crate::types::Error;
use vstd::prelude::*;

verus! {

/// The byte that ends a line.
pub const NEWLINE: u8 = 10;

/// The word that marks the line before the compiled code: "Binary".
pub open spec fn marker() -> Seq<u8> {
    seq![66u8, 105u8, 110u8, 97u8, 114u8, 121u8]
}

/// Where the line that begins at `start` ends: at the next newline, or at
/// the end of the text.
pub open spec fn line_end(text: Seq<u8>, start: int) -> int
    decreases text.len() - start,
{
    if start < 0 || start >= text.len() || text[start] == NEWLINE {
        start
    } else {
        line_end(text, start + 1)
    }
}

/// The line that begins at `start`, without its newline.
pub open spec fn line_at(text: Seq<u8>, start: int) -> Seq<u8> {
    text.subrange(start, line_end(text, start))
}

/// Whether the marker occurs in the line.
pub open spec fn has_marker(line: Seq<u8>) -> bool {
    exists|i: int| 0 <= i && i + 6 <= line.len() && #[trigger] line.subrange(i, i + 6) == marker()
}

/// Where the first line with the marker begins, looking at the lines from
/// the one that begins at `start` on.
pub open spec fn marker_line(text: Seq<u8>, start: int) -> Option<int>
    decreases text.len() - start,
    via marker_line_terminates
{
    if start < 0 || start >= text.len() {
        None
    } else if has_marker(line_at(text, start)) {
        Some(start)
    } else if line_end(text, start) >= text.len() {
        None
    } else {
        marker_line(text, line_end(text, start) + 1)
    }
}

/// A line ends at or after its beginning, and within the text.
pub proof fn lemma_line_end_bounds(text: Seq<u8>, start: int)
    requires
        0 <= start <= text.len(),
    ensures
        start <= line_end(text, start) <= text.len(),
        line_end(text, start) < text.len() ==> text[line_end(text, start)] == NEWLINE,
        forall|i: int| start <= i < line_end(text, start) ==> text[i] != NEWLINE,
    decreases text.len() - start,
{
    if start < text.len() && text[start] != NEWLINE {
        lemma_line_end_bounds(text, start + 1);
    }
}

#[via_fn]
proof fn marker_line_terminates(text: Seq<u8>, start: int) {
    if 0 <= start < text.len() {
        lemma_line_end_bounds(text, start);
    }
}

/// Blanks, which a line of hexadecimal digits may hold anywhere.
pub open spec fn is_blank(byte: u8) -> bool {
    byte == 32 || byte == 9 || byte == 10 || byte == 13
}

/// The value of a hexadecimal digit, in either case.
pub open spec fn hex_value(byte: u8) -> Option<u8> {
    if 48 <= byte <= 57 {
        Some((byte - 48) as u8)
    } else if 65 <= byte <= 70 {
        Some((byte - 55) as u8)
    } else if 97 <= byte <= 102 {
        Some((byte - 87) as u8)
    } else {
        None
    }
}

/// The bytes of the line that are no blanks.
pub open spec fn digits_of(line: Seq<u8>) -> Seq<u8> {
    line.filter(|byte: u8| !is_blank(byte))
}

/// The bytes that a line of hexadecimal digits stands for: two digits a
/// byte, blanks skipped. A line with any other byte, or with an odd number
/// of digits, stands for nothing.
pub open spec fn hex_decoded(line: Seq<u8>) -> Option<Seq<u8>> {
    let digits = digits_of(line);
    if (forall|i: int| 0 <= i < line.len() ==> is_blank(line[i]) || hex_value(#[trigger] line[i]).is_some())
        && digits.len() % 2 == 0 {
        Some(
            Seq::new(
                digits.len() / 2,
                |i: int| (16 * hex_value(digits[2 * i]).unwrap() + hex_value(digits[2 * i + 1]).unwrap()) as u8,
            ),
        )
    } else {
        None
    }
}

/// The compiled code in what the compiler printed: what the line after the
/// first line with the marker stands for, and no code where that line
/// stands for nothing. Output without the marker, or without a line after
/// it, gives nothing.
pub open spec fn scraped(text: Seq<u8>) -> Option<Seq<u8>> {
    match marker_line(text, 0) {
        Some(start) => {
            let next = line_end(text, start) + 1;
            if next < text.len() {
                Some(
                    match hex_decoded(line_at(text, next)) {
                        Some(code) => code,
                        None => Seq::empty(),
                    },
                )
            } else {
                None
            }
        },
        None => None,
    }
}

fn find_line_end(text: &[u8], start: usize) -> (end: usize)
    requires
        start <= text@.len(),
    ensures
        end == line_end(text@, start as int),
        start <= end <= text@.len(),
        end < text@.len() ==> text@[end as int] == NEWLINE,
{
    let mut end: usize = start;
    while end < text.len() && text[end] != NEWLINE
        invariant
            start <= end <= text@.len(),
            line_end(text@, start as int) == line_end(text@, end as int),
        decreases text@.len() - end,
    {
        end = end + 1;
    }
    end
}

fn line_has_marker(text: &[u8], start: usize, end: usize) -> (found: bool)
    requires
        start <= end <= text@.len(),
    ensures
        found == has_marker(text@.subrange(start as int, end as int)),
{
    let ghost line = text@.subrange(start as int, end as int);
    let mut i: usize = start;
    while end - i >= 6
        invariant
            start <= i <= end <= text@.len(),
            line == text@.subrange(start as int, end as int),
            forall|j: int| 0 <= j < i - start ==> #[trigger] line.subrange(j, j + 6) != marker(),
        decreases end - i,
    {
        let ghost window = line.subrange(i - start, i - start + 6);
        proof {
            assert(forall|k: int| 0 <= k < 6 ==> window[k] == text@[i + k]);
        }
        if text[i] == 66 && text[i + 1] == 105 && text[i + 2] == 110 && text[i + 3] == 97 && text[i + 4] == 114
            && text[i + 5] == 121 {
            assert(window =~= marker());
            return true;
        }
        proof {
            if window == marker() {
                assert(marker()[0] == 66 && marker()[1] == 105 && marker()[2] == 110 && marker()[3] == 97
                    && marker()[4] == 114 && marker()[5] == 121);
            }
        }
        i = i + 1;
    }
    false
}

fn digit_value(byte: u8) -> (value: Option<u8>)
    ensures
        value == hex_value(byte),
        value matches Some(v) ==> v < 16,
{
    if 48 <= byte && byte <= 57 {
        Some(byte - 48)
    } else if 65 <= byte && byte <= 70 {
        Some(byte - 55)
    } else if 97 <= byte && byte <= 102 {
        Some(byte - 87)
    } else {
        None
    }
}

/// The digits of a line that is one byte longer.
proof fn lemma_digits_push(line: Seq<u8>, byte: u8)
    ensures
        digits_of(line.push(byte)) == if is_blank(byte) {
            digits_of(line)
        } else {
            digits_of(line).push(byte)
        },
{
    reveal(Seq::filter);
    assert(line.push(byte).drop_last() =~= line);
}

fn decode_hex(text: &[u8], start: usize, end: usize) -> (code: Option<Vec<u8>>)
    requires
        start <= end <= text@.len(),
    ensures
        match hex_decoded(text@.subrange(start as int, end as int)) {
            Some(bytes) => code matches Some(out) && out@ == bytes,
            None => code.is_none(),
        },
{
    let ghost line = text@.subrange(start as int, end as int);
    let mut out: Vec<u8> = Vec::new();
    let mut half: Option<u8> = None;
    let mut i: usize = start;
    let ghost mut digits: Seq<u8> = Seq::empty();
    proof {
        reveal(Seq::filter);
        assert(text@.subrange(start as int, start as int) =~= Seq::empty());
    }
    while i < end
        invariant
            start <= i <= end <= text@.len(),
            line == text@.subrange(start as int, end as int),
            digits == digits_of(text@.subrange(start as int, i as int)),
            forall|j: int| 0 <= j < i - start ==> is_blank(line[j]) || hex_value(#[trigger] line[j]).is_some(),
            forall|j: int| 0 <= j < digits.len() ==> hex_value(#[trigger] digits[j]).is_some(),
            out@.len() == digits.len() / 2,
            forall|j: int|
                0 <= j < out@.len() ==> #[trigger] out@[j] == (16 * hex_value(digits[2 * j]).unwrap() + hex_value(
                    digits[2 * j + 1],
                ).unwrap()) as u8,
            match half {
                Some(high) => digits.len() % 2 == 1 && hex_value(digits.last()) == Some(high),
                None => digits.len() % 2 == 0,
            },
        decreases end - i,
    {
        let byte = text[i];
        proof {
            lemma_digits_push(text@.subrange(start as int, i as int), byte);
            assert(text@.subrange(start as int, i as int).push(byte) =~= text@.subrange(start as int, i + 1));
            assert(line[i - start] == byte);
        }
        if !(byte == 32 || byte == 9 || byte == 10 || byte == 13) {
            match digit_value(byte) {
                Some(value) => {
                    proof {
                        digits = digits.push(byte);
                    }
                    match half {
                        Some(high) => {
                            out.push(16 * high + value);
                            half = None;
                        },
                        None => {
                            half = Some(value);
                        },
                    }
                },
                None => {
                    return None;
                },
            }
        }
        i = i + 1;
    }
    proof {
        assert(text@.subrange(start as int, i as int) =~= line);
    }
    match half {
        Some(_) => None,
        None => {
            assert(out@ =~= hex_decoded(line).unwrap());
            Some(out)
        },
    }
}

/// The compiled code in what the Solidity compiler printed. Output in which
/// the code cannot be found means that the compilation failed.
pub fn scrape_binary(stdout: &[u8]) -> (r: Result<Vec<u8>, Error>)
    ensures
        match scraped(stdout@) {
            Some(code) => r matches Ok(bytes) && bytes@ == code,
            None => r matches Err(e) && e == Error::CompilationFailed,
        },
{
    let mut start: usize = 0;
    while start < stdout.len()
        invariant
            start <= stdout@.len(),
            marker_line(stdout@, 0) == marker_line(stdout@, start as int),
        decreases stdout@.len() - start,
    {
        let end = find_line_end(stdout, start);
        if line_has_marker(stdout, start, end) {
            if end < stdout.len() && end + 1 < stdout.len() {
                let next = end + 1;
                let next_end = find_line_end(stdout, next);
                return match decode_hex(stdout, next, next_end) {
                    Some(code) => Ok(code),
                    None => Ok(Vec::new()),
                };
            } else {
                return Err(Error::CompilationFailed);
            }
        }
        if end >= stdout.len() {
            return Err(Error::CompilationFailed);
        }
        start = end + 1;
    }
    Err(Error::CompilationFailed)
}

} // verus!
