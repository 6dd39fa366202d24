//! The high-score record: a text of lines, one score per line, to which
//! new high scores are appended. The score on the last line counts.

use vstd::prelude::*;
use vstd::slice::slice_subrange;

verus! {

/// The line feed that parts the lines of a record.
pub const NEWLINE: u8 = 10;

/// The sign that may stand before the digits of a score.
pub const PLUS: u8 = 43;

/// The sign of a score below zero.
pub const MINUS: u8 = 45;

/// The digit zero; the other digits follow it.
pub const ZERO: u8 = 48;

/// The magnitude of the lowest score, one above the highest score.
pub const MAGNITUDE_LIMIT: i64 = 0x8000_0000;

/// `byte` is one of the ten digits.
pub open spec fn is_digit(byte: u8) -> bool {
    ZERO <= byte <= ZERO + 9
}

/// Every byte of `text` is a digit.
pub open spec fn all_digits(text: Seq<u8>) -> bool {
    forall|i: int| 0 <= i < text.len() ==> is_digit(#[trigger] text[i])
}

/// The number that the digits `text` write in base ten.
pub open spec fn digits_value(text: Seq<u8>) -> int
    decreases text.len(),
{
    if text.len() == 0 {
        0
    } else {
        digits_value(text.drop_last()) * 10 + (text.last() - ZERO)
    }
}

/// The score that `line` writes, if it writes one: an optional sign, then
/// at least one digit and nothing but digits, and a value that a score can
/// hold.
pub open spec fn parsed(line: Seq<u8>) -> Option<int> {
    let signed = line.len() > 0 && (line[0] == PLUS || line[0] == MINUS);
    let digits = if signed {
        line.subrange(1, line.len() as int)
    } else {
        line
    };
    let value = if signed && line[0] == MINUS {
        -digits_value(digits)
    } else {
        digits_value(digits)
    };
    if digits.len() > 0 && all_digits(digits) && i32::MIN <= value <= i32::MAX {
        Some(value)
    } else {
        None
    }
}

/// Where the last line of `text` begins: behind the last line feed, or at
/// the start of a text without one.
pub open spec fn last_line_start(text: Seq<u8>) -> int
    decreases text.len(),
{
    if text.len() == 0 {
        0
    } else if text.last() == NEWLINE {
        text.len() as int
    } else {
        last_line_start(text.drop_last())
    }
}

/// The last line of `text`; it is empty where the text ends in a line
/// feed.
pub open spec fn last_line(text: Seq<u8>) -> Seq<u8> {
    text.subrange(last_line_start(text), text.len() as int)
}

/// The high score that the record `text` holds, if its last line writes
/// one.
pub open spec fn loaded(text: Seq<u8>) -> Option<int> {
    parsed(last_line(text))
}

/// The digits of `n` in base ten, without leading zeros.
pub open spec fn digits_of(n: nat) -> Seq<u8>
    decreases n,
{
    if n < 10 {
        seq![(ZERO + n) as u8]
    } else {
        digits_of(n / 10).push((ZERO + n % 10) as u8)
    }
}

/// `value` written in base ten, with a minus sign if it is below zero.
pub open spec fn decimal(value: int) -> Seq<u8> {
    if value < 0 {
        seq![MINUS] + digits_of((-value) as nat)
    } else {
        digits_of(value as nat)
    }
}

/// What is appended to a record for the new high score `value`: a line
/// feed and the score.
pub open spec fn entry_of(value: int) -> Seq<u8> {
    seq![NEWLINE] + decimal(value)
}

/// The last line starts at `start` if no line feed follows and one stands
/// just before, or the text starts there.
pub proof fn lemma_last_line_start(text: Seq<u8>, start: int)
    requires
        0 <= start <= text.len(),
        start == 0 || text[start - 1] == NEWLINE,
        forall|i: int| start <= i < text.len() ==> text[i] != NEWLINE,
    ensures
        last_line_start(text) == start,
    decreases text.len(),
{
    if text.len() > 0 && start < text.len() {
        lemma_last_line_start(text.drop_last(), start);
    }
}

/// Digits written after digits only raise the value.
pub proof fn lemma_digits_value_grows(text: Seq<u8>, n: int)
    requires
        all_digits(text),
        0 <= n <= text.len(),
    ensures
        0 <= digits_value(text.subrange(0, n)) <= digits_value(text),
    decreases text.len() - n,
{
    if n == text.len() {
        assert(text.subrange(0, n) =~= text);
        lemma_digits_value_nonnegative(text);
    } else {
        lemma_digits_value_grows(text.drop_last(), n);
        assert(text.drop_last().subrange(0, n) =~= text.subrange(0, n));
        lemma_digits_value_nonnegative(text.drop_last());
    }
}

/// Digits write no number below zero.
pub proof fn lemma_digits_value_nonnegative(text: Seq<u8>)
    requires
        all_digits(text),
    ensures
        digits_value(text) >= 0,
    decreases text.len(),
{
    if text.len() > 0 {
        lemma_digits_value_nonnegative(text.drop_last());
    }
}

/// The digits of a number are digits, hold no line feed and no sign, and
/// write that number.
pub proof fn lemma_digits_of(n: nat)
    ensures
        digits_of(n).len() >= 1,
        all_digits(digits_of(n)),
        digits_value(digits_of(n)) == n,
    decreases n,
{
    if n < 10 {
        assert(digits_of(n).drop_last() =~= Seq::<u8>::empty());
        assert(digits_value(digits_of(n).drop_last()) == 0);
    } else {
        lemma_digits_of(n / 10);
        assert(digits_of(n).drop_last() =~= digits_of(n / 10));
    }
}

/// A score written in base ten reads back as itself.
pub proof fn lemma_decimal_parses(value: int)
    requires
        i32::MIN <= value <= i32::MAX,
    ensures
        parsed(decimal(value)) == Some(value),
        forall|i: int| 0 <= i < decimal(value).len() ==> decimal(value)[i] != NEWLINE,
{
    if value < 0 {
        let digits = digits_of((-value) as nat);
        lemma_digits_of((-value) as nat);
        assert(decimal(value).subrange(1, decimal(value).len() as int) =~= digits);
    } else {
        let digits = digits_of(value as nat);
        lemma_digits_of(value as nat);
        assert(is_digit(digits[0]));
    }
}

/// Appending a high score to any record, then loading the record, gives
/// that score: the last line wins.
pub proof fn lemma_append_then_load(text: Seq<u8>, value: int)
    requires
        i32::MIN <= value <= i32::MAX,
    ensures
        loaded(text + entry_of(value)) == Some(value),
{
    let whole = text + entry_of(value);
    let start = text.len() as int + 1;
    lemma_decimal_parses(value);
    assert(whole[start - 1] == NEWLINE);
    assert forall|i: int| start <= i < whole.len() implies whole[i] != NEWLINE by {
        assert(whole[i] == decimal(value)[i - start]);
    }
    lemma_last_line_start(whole, start);
    assert(last_line(whole) =~= decimal(value));
}

/// Reads the number that `digits` write, as far as a score can need it:
/// `None` where a byte is no digit or the number lies above the
/// magnitude of the lowest score.
fn parse_magnitude(digits: &[u8]) -> (magnitude: Option<i64>)
    ensures
        match magnitude {
            Some(value) => all_digits(digits@) && value == digits_value(digits@) && 0 <= value
                <= MAGNITUDE_LIMIT,
            None => !all_digits(digits@) || digits_value(digits@) > MAGNITUDE_LIMIT,
        },
{
    let mut value: i64 = 0;
    let mut i: usize = 0;
    while i < digits.len()
        invariant
            i <= digits@.len(),
            all_digits(digits@.subrange(0, i as int)),
            value == digits_value(digits@.subrange(0, i as int)),
            0 <= value <= MAGNITUDE_LIMIT,
        decreases digits.len() - i,
    {
        let byte: u8 = digits[i];
        if byte < ZERO || byte > ZERO + 9 {
            assert(!is_digit(digits@[i as int]));
            return None;
        }
        value = value * 10 + (byte - ZERO) as i64;
        proof {
            let longer = digits@.subrange(0, i + 1);
            assert(longer.drop_last() =~= digits@.subrange(0, i as int));
            assert forall|j: int| 0 <= j < longer.len() implies is_digit(#[trigger] longer[j]) by {
                if j < i {
                    assert(longer[j] == digits@.subrange(0, i as int)[j]);
                }
            }
        }
        if value > MAGNITUDE_LIMIT {
            proof {
                if all_digits(digits@) {
                    lemma_digits_value_grows(digits@, i + 1);
                }
            }
            return None;
        }
        i += 1;
    }
    assert(digits@.subrange(0, i as int) =~= digits@);
    Some(value)
}

/// Reads the score that `line` writes: an optional sign and then digits.
/// Returns `None` for an empty line, a sign alone, any other byte, and a
/// number that a score cannot hold.
pub fn parse_score(line: &[u8]) -> (score: Option<i32>)
    ensures
        match score {
            Some(value) => parsed(line@) == Some(value as int),
            None => parsed(line@) is None,
        },
{
    if line.len() == 0 {
        return None;
    }
    let negative: bool = line[0] == MINUS;
    let digits: &[u8] = if line[0] == PLUS || line[0] == MINUS {
        slice_subrange(line, 1, line.len())
    } else {
        line
    };
    if digits.len() == 0 {
        return None;
    }
    match parse_magnitude(digits) {
        Some(magnitude) => {
            if negative {
                Some((-magnitude) as i32)
            } else if magnitude < MAGNITUDE_LIMIT {
                Some(magnitude as i32)
            } else {
                None
            }
        },
        None => None,
    }
}

/// Reads the high score from the record `text`: the score on its last
/// line. Returns `None` where that line writes no score, as it does in an
/// empty record and in one that ends in a line feed.
pub fn load(text: &[u8]) -> (score: Option<i32>)
    ensures
        match score {
            Some(value) => loaded(text@) == Some(value as int),
            None => loaded(text@) is None,
        },
{
    let mut start: usize = text.len();
    while start > 0 && text[start - 1] != NEWLINE
        invariant
            start <= text@.len(),
            forall|i: int| start <= i < text@.len() ==> text@[i] != NEWLINE,
        decreases start,
    {
        start -= 1;
    }
    proof {
        lemma_last_line_start(text@, start as int);
    }
    parse_score(slice_subrange(text, start, text.len()))
}

/// Appends the digits of `n` to `out`.
fn push_digits(n: u32, out: &mut Vec<u8>)
    ensures
        final(out)@ == old(out)@ + digits_of(n as nat),
    decreases n,
{
    if n >= 10 {
        push_digits(n / 10, out);
    }
    out.push(ZERO + (n % 10) as u8);
    assert(out@ =~= old(out)@ + digits_of(n as nat));
}

/// The bytes to append to the record for the new high score `score`: a
/// line feed, then the score in base ten.
pub fn entry(score: i32) -> (bytes: Vec<u8>)
    ensures
        bytes@ == entry_of(score as int),
        forall|text: Seq<u8>| loaded(#[trigger] (text + bytes@)) == Some(score as int),
{
    let mut bytes: Vec<u8> = Vec::new();
    bytes.push(NEWLINE);
    if score < 0 {
        bytes.push(MINUS);
        push_digits((-(score as i64)) as u32, &mut bytes);
    } else {
        push_digits(score as u32, &mut bytes);
    }
    assert(bytes@ =~= entry_of(score as int));
    assert forall|text: Seq<u8>| loaded(#[trigger] (text + bytes@)) == Some(score as int) by {
        lemma_append_then_load(text, score as int);
    }
    bytes
}

} // verus!
