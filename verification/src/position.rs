use vstd::prelude::*;

use crate::error::TodoError;
use crate::task::{task_views, Task, TaskView};

verus! {

/// Whether `c` is one of the ten decimal digits.
pub open spec fn is_digit(c: char) -> bool {
    '0' <= c <= '9'
}

/// The number a decimal digit stands for.
pub open spec fn digit_value(c: char) -> int {
    c as int - '0' as int
}

/// Whether every character of `digits` is a decimal digit.
pub open spec fn all_digits(digits: Seq<char>) -> bool {
    forall|i: int| 0 <= i < digits.len() ==> is_digit(#[trigger] digits[i])
}

/// The number written by a run of decimal digits, most significant first.
pub open spec fn digits_value(digits: Seq<char>) -> int
    decreases digits.len(),
{
    if digits.len() == 0 {
        0
    } else {
        10 * digits_value(digits.drop_last()) + digit_value(digits.last())
    }
}

/// How many leading characters of `text` are sign: one for a text that
/// starts with `+`, none otherwise.
pub open spec fn sign_len(text: Seq<char>) -> int {
    if text.len() > 0 && text[0] == '+' {
        1
    } else {
        0
    }
}

/// The display position that `text` denotes, if it denotes one.
///
/// A position is written as an optional `+` followed by one or more decimal
/// digits, and nothing else: no blanks, no other sign. Leading zeros are
/// allowed. The number must lie between 1 and `u32::MAX`; positions count
/// from 1, so zero denotes none.
pub open spec fn spec_parse_position(text: Seq<char>) -> Option<u32> {
    let digits = text.skip(sign_len(text));
    if digits.len() > 0 && all_digits(digits) && 1 <= digits_value(digits) <= u32::MAX {
        Some(digits_value(digits) as u32)
    } else {
        None
    }
}

/// The outcome of looking a position text up in a listing of `rows`: the id
/// of the row shown at that position, or the reason why there is none.
pub open spec fn spec_resolve_position(rows: Seq<TaskView>, text: Seq<char>) -> Result<
    int,
    TodoError,
> {
    match spec_parse_position(text) {
        None => Err(TodoError::InvalidPosition),
        Some(position) => if position <= rows.len() {
            Ok(rows[position - 1].id)
        } else {
            Err(TodoError::PositionNotFound)
        },
    }
}

/// A run of digits never denotes a negative number, and no prefix of it
/// denotes a larger number than the whole.
pub proof fn lemma_digits_value_prefix(digits: Seq<char>, k: int)
    requires
        all_digits(digits),
        0 <= k <= digits.len(),
    ensures
        0 <= digits_value(digits.take(k)) <= digits_value(digits),
    decreases digits.len(),
{
    if digits.len() == 0 {
        assert(digits.take(k) =~= digits);
    } else {
        let front = digits.drop_last();
        assert(is_digit(digits.last()));
        lemma_digits_value_prefix(front, front.len() as int);
        assert(front.take(front.len() as int) =~= front);
        if k == digits.len() {
            assert(digits.take(k) =~= digits);
        } else {
            lemma_digits_value_prefix(front, k);
            assert(front.take(k) =~= digits.take(k));
        }
    }
}

/// A text that holds anything but digits after an optional leading `+`
/// denotes no position.
pub proof fn lemma_not_numeric(text: Seq<char>, i: int)
    requires
        0 <= i < text.len(),
        !is_digit(text[i]),
        i > 0 || text[0] != '+',
    ensures
        spec_parse_position(text) is None,
{
    let digits = text.skip(sign_len(text));
    assert(digits[i - sign_len(text)] == text[i]);
}

/// The digits among the first `seen` characters of `text`: what follows the
/// sign, as far as it has been read.
spec fn digits_seen(text: Seq<char>, seen: int) -> Seq<char> {
    if seen <= sign_len(text) {
        Seq::empty()
    } else {
        text.subrange(sign_len(text), seen)
    }
}

/// Reads a display position.
///
/// Returns the position when `text` is an optional `+` followed by decimal
/// digits that denote a number between 1 and `u32::MAX`, and `None` for every
/// other text.
pub fn parse_position(text: &str) -> (position: Option<u32>)
    ensures
        position == spec_parse_position(text@),
{
    let mut value: u64 = 0;
    let mut first: bool = true;
    let mut any_digit: bool = false;
    for c in it: text.chars()
        invariant
            it.seq() == text@,
            first <==> it.index() == 0,
            any_digit <==> it.index() > sign_len(text@),
            all_digits(digits_seen(text@, it.index() as int)),
            value == digits_value(digits_seen(text@, it.index() as int)),
            value <= u32::MAX,
    {
        let ghost seen = it.index() as int;
        let ghost start = sign_len(text@);
        let ghost digits = text@.skip(start);
        assert(c == text@[seen]);
        if first && c == '+' {
        } else if c >= '0' && c <= '9' {
            let digit: u64 = (c as u32 - '0' as u32) as u64;
            let ghost before = digits_seen(text@, seen);
            let ghost after = digits_seen(text@, seen + 1);
            proof {
                assert(after.drop_last() =~= before);
                assert(after.last() == c);
                assert(digit == digit_value(c));
                assert(digits_value(after) == 10 * value + digit);
                assert(all_digits(after)) by {
                    assert forall|i: int| 0 <= i < after.len() implies is_digit(
                        #[trigger] after[i],
                    ) by {
                        if i < before.len() {
                            assert(after[i] == before[i]);
                        }
                    }
                }
            }
            value = value * 10 + digit;
            any_digit = true;
            if value > u32::MAX as u64 {
                proof {
                    if all_digits(digits) {
                        lemma_digits_value_prefix(digits, seen + 1 - start);
                        assert(digits.take(seen + 1 - start) =~= after);
                    }
                }
                return None;
            }
        } else {
            proof {
                assert(digits[seen - start] == c);
                assert(!is_digit(c));
            }
            return None;
        }
        first = false;
    }
    proof {
        assert(digits_seen(text@, text@.len() as int) =~= text@.skip(sign_len(text@)));
    }
    if any_digit && value >= 1 {
        Some(value as u32)
    } else {
        None
    }
}

/// Translates a display position, as typed, into the id of the task shown
/// there.
///
/// `listing` holds the tasks in the order in which they are shown; the first
/// has position 1. Fails with `InvalidPosition` when `text` denotes no
/// position, and with `PositionNotFound` when it denotes one past the end of
/// the listing.
pub fn resolve_position(listing: &Vec<Task>, text: &str) -> (outcome: Result<i32, TodoError>)
    ensures
        match outcome {
            Ok(id) => spec_resolve_position(task_views(listing@), text@) == Ok::<int, TodoError>(
                id as int,
            ),
            Err(e) => spec_resolve_position(task_views(listing@), text@) == Err::<int, TodoError>(
                e,
            ),
        },
{
    match parse_position(text) {
        None => Err(TodoError::InvalidPosition),
        Some(position) => {
            if position as usize <= listing.len() {
                Ok(listing[position as usize - 1].id)
            } else {
                Err(TodoError::PositionNotFound)
            }
        },
    }
}

} // verus!
