//! The framing of a request: one line of text that declares a length, then
//! exactly that many bytes of payload.
//!
//! The length line is an unsigned decimal number, with an optional `+` before
//! its digits and white space around it. Responses are not framed.
use vstd::prelude::*;
use vstd::slice::{slice_subrange, slice_to_vec};
use vstd::utf8::{
    decode_utf8, encode_utf8, encode_utf8_decode_utf8, encode_utf8_valid_utf8, is_ascii_chars,
    is_ascii_chars_encode_utf8, valid_utf8,
};

use crate::error::{fails_with, succeeds_with, FatalError};
use crate::utf8::text_from_utf8;

verus! {

/// Whether a character is white space: the characters with the Unicode
/// property `White_Space`.
pub open spec fn is_space(c: char) -> bool {
    ||| '\u{9}' <= c <= '\u{d}'
    ||| c == ' '
    ||| c == '\u{85}'
    ||| c == '\u{a0}'
    ||| c == '\u{1680}'
    ||| '\u{2000}' <= c <= '\u{200a}'
    ||| c == '\u{2028}'
    ||| c == '\u{2029}'
    ||| c == '\u{202f}'
    ||| c == '\u{205f}'
    ||| c == '\u{3000}'
}

/// Whether a character is one of the ten ASCII digits.
pub open spec fn is_digit(c: char) -> bool {
    '0' <= c <= '9'
}

/// The number that a digit stands for; 0 for any other character.
pub open spec fn digit_value(c: char) -> nat {
    if is_digit(c) {
        (c as u32 - 0x30) as nat
    } else {
        0
    }
}

/// A text without the white space at its start.
pub open spec fn trim_start(text: Seq<char>) -> Seq<char>
    decreases text.len(),
{
    if text.len() > 0 && is_space(text.first()) {
        trim_start(text.drop_first())
    } else {
        text
    }
}

/// A text without the white space at its end.
pub open spec fn trim_end(text: Seq<char>) -> Seq<char>
    decreases text.len(),
{
    if text.len() > 0 && is_space(text.last()) {
        trim_end(text.drop_last())
    } else {
        text
    }
}

/// A text without the white space at either end.
pub open spec fn trimmed(text: Seq<char>) -> Seq<char> {
    trim_end(trim_start(text))
}

/// A text without the `+` that may stand before the digits of a number.
pub open spec fn without_sign(text: Seq<char>) -> Seq<char> {
    if text.len() > 0 && text.first() == '+' {
        text.drop_first()
    } else {
        text
    }
}

/// Whether every character of a text is a digit.
pub open spec fn all_digits(text: Seq<char>) -> bool {
    forall|i: int| 0 <= i < text.len() ==> is_digit(#[trigger] text[i])
}

/// The number that a text of digits denotes in base ten.
pub open spec fn decimal_value(digits: Seq<char>) -> nat
    decreases digits.len(),
{
    if digits.len() == 0 {
        0
    } else {
        10 * decimal_value(digits.drop_last()) + digit_value(digits.last())
    }
}

/// What a text of digits gives as a length: its number, or the error where
/// the text is empty, holds anything but digits, or denotes more than the
/// machine can address.
pub open spec fn length_of_digits(digits: Seq<char>) -> Result<usize, FatalError> {
    if digits.len() > 0 && all_digits(digits) && decimal_value(digits) <= usize::MAX {
        Ok(decimal_value(digits) as usize)
    } else {
        Err(FatalError::InvalidLength)
    }
}

/// What a length line gives as a length: the number that its digits denote,
/// read without the white space around them and without a `+` before them.
pub open spec fn length_of_line(line: Seq<char>) -> Result<usize, FatalError> {
    length_of_digits(without_sign(trimmed(line)))
}

/// The number of bytes that the first line of an input takes: up to and with
/// its first line feed, or all of the input where it holds none.
pub open spec fn line_end(input: Seq<u8>) -> int
    decreases input.len(),
{
    if input.len() == 0 {
        0
    } else if input.first() == 0x0A {
        1
    } else {
        1 + line_end(input.drop_first())
    }
}

/// The payload that an input frames: the bytes that follow its length line, as
/// many as the line declares. Bytes after the payload are not looked at.
pub open spec fn framed_payload(input: Seq<u8>) -> Result<Seq<u8>, FatalError> {
    let line = input.take(line_end(input));
    let rest = input.skip(line_end(input));
    if !valid_utf8(line) {
        Err(FatalError::InvalidLength)
    } else {
        match length_of_line(decode_utf8(line)) {
            Ok(length) => if rest.len() < length {
                Err(FatalError::TruncatedPayload)
            } else {
                Ok(rest.take(length as int))
            },
            Err(error) => Err(error),
        }
    }
}

/// A prefix of a text of digits denotes no more than the text does.
pub proof fn lemma_decimal_value_of_prefix(digits: Seq<char>, k: int)
    requires
        0 <= k <= digits.len(),
    ensures
        decimal_value(digits.take(k)) <= decimal_value(digits),
    decreases digits.len(),
{
    if k == digits.len() {
        assert(digits.take(k) =~= digits);
    } else {
        assert(digits.drop_last().take(k) =~= digits.take(k));
        lemma_decimal_value_of_prefix(digits.drop_last(), k);
    }
}

/// A line that declares the length zero frames the empty payload, whatever
/// follows it.
pub proof fn lemma_zero_length_frames_nothing(input: Seq<u8>)
    requires
        valid_utf8(input.take(line_end(input))),
        length_of_line(decode_utf8(input.take(line_end(input)))) == Ok::<usize, FatalError>(0),
    ensures
        succeeds_with(framed_payload(input), Seq::empty()),
{
    assert(input.skip(line_end(input)).take(0) =~= Seq::<u8>::empty());
}

/// The first line of an input ends behind its first line feed.
proof fn lemma_line_ends_at_first_line_feed(input: Seq<u8>, k: int)
    requires
        0 <= k < input.len(),
        input[k] == 0x0A,
        forall|i: int| 0 <= i < k ==> input[i] != 0x0A,
    ensures
        line_end(input) == k + 1,
    decreases k,
{
    if k > 0 {
        lemma_line_ends_at_first_line_feed(input.drop_first(), k - 1);
    }
}

/// A payload that is sent behind a line of the decimal digits of its length
/// reads back as it was sent, whatever follows it.
pub proof fn lemma_frame_reads_back(digits: Seq<char>, payload: Seq<u8>, rest: Seq<u8>)
    requires
        digits.len() > 0,
        all_digits(digits),
        decimal_value(digits) == payload.len(),
        payload.len() <= usize::MAX,
    ensures
        succeeds_with(framed_payload(encode_utf8(digits.push('\n')) + payload + rest), payload),
{
    let line = digits.push('\n');
    let head = encode_utf8(line);
    let input = head + payload + rest;
    let k = digits.len() as int;
    assert(is_ascii_chars(line)) by {
        assert forall|i: int| 0 <= i < line.len() implies '\0' <= #[trigger] line[i] <= '\u{7f}' by {
            if i < k {
                assert(is_digit(digits[i]));
                assert(line[i] == digits[i]);
            } else {
                assert(line[i] == '\n');
            }
        }
    }
    is_ascii_chars_encode_utf8(line);
    assert forall|i: int| 0 <= i < k implies input[i] != 0x0A by {
        assert(is_digit(digits[i]));
        assert(input[i] == head[i]);
        assert(head[i] == line[i] as u8);
    }
    assert(input[k] == 0x0A) by {
        assert(input[k] == head[k]);
        assert(head[k] == line[k] as u8);
    }
    lemma_line_ends_at_first_line_feed(input, k);
    assert(input.take(k + 1) =~= head);
    assert(input.skip(k + 1) =~= payload + rest);
    assert((payload + rest).take(payload.len() as int) =~= payload);
    encode_utf8_valid_utf8(line);
    encode_utf8_decode_utf8(line);
    assert(trimmed(line) == digits) by {
        assert(is_digit(digits[0]) && is_digit(digits[k - 1]));
        assert(line[0] == digits[0]);
        assert(trim_start(line) == line);
        assert(line.drop_last() =~= digits);
        assert(trim_end(digits) == digits);
    }
    assert(without_sign(digits) == digits) by {
        assert(is_digit(digits[0]));
    }
}

fn space(c: char) -> (yes: bool)
    ensures
        yes == is_space(c),
{
    let code: u32 = c as u32;
    (0x09 <= code && code <= 0x0D) || code == 0x20 || code == 0x85 || code == 0xA0 || code
        == 0x1680 || (0x2000 <= code && code <= 0x200A) || code == 0x2028 || code == 0x2029 || code
        == 0x202F || code == 0x205F || code == 0x3000
}

/// The number of characters of white space that `line` starts with.
fn skip_leading_space(line: &str, total: usize) -> (start: usize)
    requires
        total == line@.len(),
    ensures
        start <= total,
        trim_start(line@) == line@.skip(start as int),
{
    let mut start: usize = 0;
    assert(line@.skip(0) =~= line@);
    while start < total && space(line.get_char(start))
        invariant
            start <= total,
            total == line@.len(),
            trim_start(line@) == trim_start(line@.skip(start as int)),
        decreases total - start,
    {
        assert(line@.skip(start as int).drop_first() =~= line@.skip(start + 1));
        start += 1;
    }
    start
}

/// The place behind the last character of `line` from `start` on that is no
/// white space, or `start` where there is none.
fn skip_trailing_space(line: &str, start: usize, total: usize) -> (end: usize)
    requires
        start <= total,
        total == line@.len(),
    ensures
        start <= end <= total,
        trim_end(line@.skip(start as int)) == line@.subrange(start as int, end as int),
{
    let mut end: usize = total;
    assert(line@.skip(start as int) =~= line@.subrange(start as int, total as int));
    while end > start && space(line.get_char(end - 1))
        invariant
            start <= end <= total,
            total == line@.len(),
            trim_end(line@.skip(start as int)) == trim_end(line@.subrange(start as int, end as int)),
        decreases end - start,
    {
        assert(line@.subrange(start as int, end as int).drop_last() =~= line@.subrange(
            start as int,
            end - 1,
        ));
        end -= 1;
    }
    end
}

/// Reads the number that the characters of `line` from `first` up to `end`
/// denote.
fn parse_digits(line: &str, first: usize, end: usize) -> (outcome: Result<usize, FatalError>)
    requires
        first <= end <= line@.len(),
    ensures
        outcome == length_of_digits(line@.subrange(first as int, end as int)),
{
    let ghost digits = line@.subrange(first as int, end as int);
    if first == end {
        return Err(FatalError::InvalidLength);
    }
    let mut value: usize = 0;
    let mut at: usize = first;
    while at < end
        invariant
            first <= at <= end <= line@.len(),
            digits == line@.subrange(first as int, end as int),
            all_digits(digits.take(at - first)),
            value == decimal_value(digits.take(at - first)),
        decreases end - at,
    {
        let code: u32 = line.get_char(at) as u32;
        if code < 0x30 || code > 0x39 {
            assert(!is_digit(digits[at - first]));
            return Err(FatalError::InvalidLength);
        }
        let digit: usize = (code - 0x30) as usize;
        proof {
            let longer = digits.take(at - first + 1);
            assert(longer.drop_last() =~= digits.take(at - first));
            assert(longer.last() == line@[at as int]);
            assert(decimal_value(longer) == 10 * value + digit);
            lemma_decimal_value_of_prefix(digits, at - first + 1);
        }
        let tenfold: usize = match value.checked_mul(10) {
            Some(product) => product,
            None => {
                return Err(FatalError::InvalidLength);
            },
        };
        value = match tenfold.checked_add(digit) {
            Some(sum) => sum,
            None => {
                return Err(FatalError::InvalidLength);
            },
        };
        at += 1;
    }
    assert(digits.take(at - first) =~= digits);
    Ok(value)
}

/// Reads the number that a length line declares.
pub fn parse_length_line(line: &str) -> (outcome: Result<usize, FatalError>)
    ensures
        outcome == length_of_line(line@),
{
    let total: usize = line.unicode_len();
    let start: usize = skip_leading_space(line, total);
    let end: usize = skip_trailing_space(line, start, total);
    let first: usize = if start < end && line.get_char(start) == '+' {
        start + 1
    } else {
        start
    };
    assert(line@.subrange(first as int, end as int) =~= without_sign(trimmed(line@)));
    parse_digits(line, first, end)
}

/// The number of bytes that the first line of `input` takes.
fn find_line_end(input: &[u8]) -> (end: usize)
    ensures
        end == line_end(input@),
        end <= input@.len(),
{
    let total: usize = input.len();
    let mut at: usize = 0;
    assert(input@.skip(0) =~= input@);
    while at < total && input[at] != 0x0A
        invariant
            at <= total,
            total == input@.len(),
            line_end(input@) == at + line_end(input@.skip(at as int)),
        decreases total - at,
    {
        assert(input@.skip(at as int).drop_first() =~= input@.skip(at + 1));
        at += 1;
    }
    if at < total {
        at + 1
    } else {
        at
    }
}

/// Reads the payload of one framed request from the bytes of an input: the
/// length line, then as many bytes as it declares.
pub fn read_frame(input: &[u8]) -> (outcome: Result<Vec<u8>, FatalError>)
    ensures
        match outcome {
            Ok(payload) => succeeds_with(framed_payload(input@), payload@),
            Err(error) => fails_with(framed_payload(input@), error),
        },
{
    let split: usize = find_line_end(input);
    let head: Vec<u8> = slice_to_vec(slice_subrange(input, 0, split));
    assert(head@ =~= input@.take(split as int));
    let rest: &[u8] = slice_subrange(input, split, input.len());
    assert(rest@ =~= input@.skip(split as int));
    let line: String = match text_from_utf8(head) {
        Some(text) => text,
        None => {
            return Err(FatalError::InvalidLength);
        },
    };
    let length: usize = match parse_length_line(line.as_str()) {
        Ok(length) => length,
        Err(error) => {
            return Err(error);
        },
    };
    if rest.len() < length {
        return Err(FatalError::TruncatedPayload);
    }
    let payload: Vec<u8> = slice_to_vec(slice_subrange(rest, 0, length));
    assert(payload@ =~= rest@.take(length as int));
    Ok(payload)
}

} // verus!
