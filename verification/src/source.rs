//! Commit times as the version-control tool prints them: one decimal number
//! of seconds since the Unix epoch on each line.

use vstd::prelude::*;
use vstd::string::StringExecFns;

verus! {

/// What to show: the commits of one author, or of all authors.
#[derive(Debug)]
pub struct GitCalendar {
    /// The author whose commits are shown; all commits where there is none.
    pub author: Option<String>,
}

/// The arguments that make the version-control tool list the commit times:
/// no merges, one time on each line, the last thirteen months, and only the
/// commits of `author` where one is given.
pub open spec fn log_arguments_of(author: Option<Seq<char>>) -> Seq<Seq<char>> {
    let all = seq!["log"@, "--no-merges"@, "--pretty=format:%at"@, "--since=13 months"@];
    match author {
        Some(name) => all.push("--author="@ + name),
        None => all,
    }
}

/// What each of `arguments` holds.
pub open spec fn argument_texts(arguments: Seq<String>) -> Seq<Seq<char>> {
    Seq::new(arguments.len(), |index: int| arguments[index]@)
}

impl GitCalendar {
    /// The author as a sequence of characters.
    pub open spec fn author_text(self) -> Option<Seq<char>> {
        match self.author {
            Some(name) => Some(name@),
            None => None,
        }
    }

    /// The arguments that make the version-control tool list the commit
    /// times for this calendar.
    pub fn log_arguments(&self) -> (arguments: Vec<String>)
        ensures
            argument_texts(arguments@) == log_arguments_of(self.author_text()),
    {
        let mut arguments: Vec<String> = Vec::new();
        arguments.push(String::from_str("log"));
        arguments.push(String::from_str("--no-merges"));
        arguments.push(String::from_str("--pretty=format:%at"));
        arguments.push(String::from_str("--since=13 months"));
        match &self.author {
            Some(name) => {
                let mut argument = String::from_str("--author=");
                argument.append(name.as_str());
                arguments.push(argument);
            },
            None => {},
        }
        arguments
    }
}

/// The line feed that ends a line.
pub const LINE_FEED: u8 = 10;

/// The carriage return that may stand before a line feed.
pub const CARRIAGE_RETURN: u8 = 13;

/// The byte `+`.
pub const PLUS: u8 = 43;

/// The byte `-`.
pub const MINUS: u8 = 45;

/// The byte `0`; the other digits follow it.
pub const ZERO: u8 = 48;

/// Whether `byte` is one of the digits `0` to `9`.
pub open spec fn is_digit(byte: u8) -> bool {
    ZERO <= byte <= ZERO + 9
}

/// Whether `bytes` holds digits only.
pub open spec fn all_digits(bytes: Seq<u8>) -> bool {
    forall|i: int| 0 <= i < bytes.len() ==> is_digit(#[trigger] bytes[i])
}

/// The number that a run of digits denotes in base ten; 0 for no digits.
pub open spec fn digits_value(digits: Seq<u8>) -> int
    decreases digits.len(),
{
    if digits.len() == 0 {
        0
    } else {
        digits_value(digits.drop_last()) * 10 + (digits.last() - ZERO)
    }
}

/// The number that one digit or more denote, negated where `negative`, if a
/// 64-bit signed integer holds it. Anything else denotes no number.
pub open spec fn signed_value(negative: bool, digits: Seq<u8>) -> Option<i64> {
    let value = if negative {
        -digits_value(digits)
    } else {
        digits_value(digits)
    };
    if digits.len() > 0 && all_digits(digits) && i64::MIN <= value <= i64::MAX {
        Some(value as i64)
    } else {
        None
    }
}

/// The number that `line` denotes: an optional sign, `+` or `-`, then one
/// digit or more and nothing else, with a value that a 64-bit signed integer
/// holds. Any other line denotes no number.
pub open spec fn number_of(line: Seq<u8>) -> Option<i64> {
    if line.len() > 0 && (line[0] == MINUS || line[0] == PLUS) {
        signed_value(line[0] == MINUS, line.skip(1))
    } else {
        signed_value(false, line)
    }
}

/// Number of bytes from position `from` up to the next line feed, or up to
/// the end of `text` where none follows.
pub open spec fn line_len(text: Seq<u8>, from: int) -> nat
    decreases text.len() - from,
{
    if from < 0 || from >= text.len() || text[from] == LINE_FEED {
        0
    } else {
        1 + line_len(text, from + 1)
    }
}

/// The line that starts at position `from`, without its line ending: the
/// line feed, or a carriage return and the line feed. A last line without a
/// line feed keeps a carriage return at its end.
pub open spec fn line_at(text: Seq<u8>, from: int) -> Seq<u8> {
    let end = from + line_len(text, from);
    if end < text.len() && end > from && text[end - 1] == CARRIAGE_RETURN {
        text.subrange(from, end - 1)
    } else {
        text.subrange(from, end)
    }
}

/// The numbers on the lines of `text` from position `from` on, in order.
/// Lines that denote no number are passed over.
pub open spec fn numbers_from(text: Seq<u8>, from: int) -> Seq<i64>
    decreases text.len() - from,
{
    if from < 0 || from >= text.len() {
        Seq::empty()
    } else {
        let end = from + line_len(text, from);
        let rest = if end < text.len() {
            numbers_from(text, end + 1)
        } else {
            Seq::empty()
        };
        match number_of(line_at(text, from)) {
            Some(number) => seq![number] + rest,
            None => rest,
        }
    }
}

/// The commit times listed in `text`, one on each line, in order.
pub open spec fn timestamps_of(text: Seq<u8>) -> Seq<i64> {
    numbers_from(text, 0)
}

/// Digits appended to a run of digits never make its value smaller.
pub proof fn lemma_digits_value_grows(digits: Seq<u8>, shorter: int)
    requires
        all_digits(digits),
        0 <= shorter <= digits.len(),
    ensures
        0 <= digits_value(digits.take(shorter)) <= digits_value(digits),
    decreases digits.len() - shorter,
{
    if shorter == digits.len() {
        assert(digits.take(shorter) =~= digits);
        lemma_digits_value_nonnegative(digits);
    } else {
        let longer = digits.take(shorter + 1);
        assert(longer.drop_last() =~= digits.take(shorter));
        lemma_digits_value_nonnegative(digits.take(shorter));
        lemma_digits_value_grows(digits, shorter + 1);
    }
}

/// A run of digits denotes no negative number.
pub proof fn lemma_digits_value_nonnegative(digits: Seq<u8>)
    requires
        all_digits(digits),
    ensures
        0 <= digits_value(digits),
    decreases digits.len(),
{
    if digits.len() > 0 {
        lemma_digits_value_nonnegative(digits.drop_last());
    }
}

/// Reads the number that the bytes of `text` from `from` up to `to` denote.
pub fn parse_number(text: &[u8], from: usize, to: usize) -> (r: Option<i64>)
    requires
        from <= to <= text@.len(),
    ensures
        r == number_of(text@.subrange(from as int, to as int)),
{
    if from == to {
        return None;
    }
    let negative: bool = text[from] == MINUS;
    let start: usize = if negative || text[from] == PLUS {
        from + 1
    } else {
        from
    };
    let ghost line = text@.subrange(from as int, to as int);
    let ghost digits = text@.subrange(start as int, to as int);
    assert(digits =~= if start > from {
        line.skip(1)
    } else {
        line
    });
    if start == to {
        return None;
    }
    let limit: i128 = 9223372036854775808i128;
    let mut value: i128 = 0;
    let mut at: usize = start;
    while at < to
        invariant
            start <= at <= to <= text@.len(),
            digits == text@.subrange(start as int, to as int),
            number_of(text@.subrange(from as int, to as int)) == signed_value(negative, digits),
            all_digits(digits.take(at - start)),
            value == digits_value(digits.take(at - start)),
            0 <= value <= limit,
            limit == 9223372036854775808i128,
        decreases to - at,
    {
        let byte: u8 = text[at];
        let ghost seen = digits.take(at - start + 1);
        proof {
            assert(seen.drop_last() =~= digits.take(at - start));
        }
        if byte < ZERO || byte > ZERO + 9 {
            assert(!is_digit(digits[at - start]));
            return None;
        }
        value = value * 10 + (byte - ZERO) as i128;
        if value > limit {
            proof {
                if all_digits(digits) {
                    lemma_digits_value_grows(digits, at - start + 1);
                }
            }
            return None;
        }
        at += 1;
    }
    proof {
        assert(digits.take(at - start) =~= digits);
    }
    if negative {
        Some((-value) as i64)
    } else if value < limit {
        Some(value as i64)
    } else {
        None
    }
}

/// Reads the commit times listed in `text`, one decimal number on each line.
/// Lines that hold anything else are passed over.
pub fn parse_timestamps(text: &[u8]) -> (timestamps: Vec<i64>)
    ensures
        timestamps@ == timestamps_of(text@),
{
    let mut timestamps: Vec<i64> = Vec::new();
    let mut from: usize = 0;
    while from < text.len()
        invariant
            from <= text@.len(),
            timestamps@ + numbers_from(text@, from as int) == timestamps_of(text@),
        decreases text@.len() - from,
    {
        let mut end: usize = from;
        while end < text.len() && text[end] != LINE_FEED
            invariant
                from <= end <= text@.len(),
                line_len(text@, from as int) == (end - from) + line_len(text@, end as int),
            decreases text@.len() - end,
        {
            end += 1;
        }
        let stop: usize = if end < text.len() && end > from && text[end - 1] == CARRIAGE_RETURN {
            end - 1
        } else {
            end
        };
        match parse_number(text, from, stop) {
            Some(number) => {
                timestamps.push(number);
            },
            None => {},
        }
        if end < text.len() {
            from = end + 1;
        } else {
            from = end;
        }
    }
    timestamps
}

} // verus!
