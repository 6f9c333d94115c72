//! The concurrency limit of a run, as the caller asks for it.

use vstd::prelude::*;
use vstd::string::StringSliceAdditionalSpecFns;

verus! {

/// The limit where the caller asks for none, or for none that can be used.
pub const DEFAULT_LIMIT: usize = 5;

/// The limit that a request stands for: the number asked for where it is
/// positive, the default otherwise.
pub open spec fn limit_or_default(requested: Option<usize>) -> usize {
    match requested {
        Some(limit) => if limit >= 1 {
            limit
        } else {
            DEFAULT_LIMIT
        },
        None => DEFAULT_LIMIT,
    }
}

/// Settles the concurrency limit of a run: see [`limit_or_default`].
pub fn effective_limit(requested: Option<usize>) -> (limit: usize)
    ensures
        limit == limit_or_default(requested),
        limit >= 1,
{
    match requested {
        Some(limit) => if limit >= 1 {
            limit
        } else {
            DEFAULT_LIMIT
        },
        None => DEFAULT_LIMIT,
    }
}

/// A byte is an ASCII decimal digit.
pub open spec fn is_digit(byte: u8) -> bool {
    0x30 <= byte <= 0x39
}

/// The number that a sequence of decimal digits stands for; leading zeros
/// count for nothing.
pub open spec fn decimal_value(digits: Seq<u8>) -> nat
    decreases digits.len(),
{
    if digits.len() == 0 {
        0
    } else {
        10 * decimal_value(digits.drop_last()) + (digits.last() - 0x30) as nat
    }
}

/// A sequence of bytes is a decimal numeral: one digit or more, and digits
/// only.
pub open spec fn is_decimal(digits: Seq<u8>) -> bool {
    digits.len() > 0 && forall|i: int| 0 <= i < digits.len() ==> is_digit(#[trigger] digits[i])
}

/// A text without the plus sign that it may begin with.
pub open spec fn unsigned_part(text: Seq<u8>) -> Seq<u8> {
    if text.len() > 0 && text[0] == 0x2b {
        text.skip(1)
    } else {
        text
    }
}

/// The count that a text stands for: the value of its decimal numeral,
/// which a plus sign may precede, where that value fits the machine word.
/// Any other text, with a blank or a minus sign in it too, stands for none.
pub open spec fn parsed_count(text: Seq<u8>) -> Option<usize> {
    let digits = unsigned_part(text);
    if is_decimal(digits) && decimal_value(digits) <= usize::MAX {
        Some(decimal_value(digits) as usize)
    } else {
        None
    }
}

proof fn lemma_decimal_value_grows(digits: Seq<u8>, k: int)
    requires
        0 <= k <= digits.len(),
        forall|i: int| 0 <= i < digits.len() ==> is_digit(#[trigger] digits[i]),
    ensures
        decimal_value(digits.take(k)) <= decimal_value(digits),
    decreases digits.len() - k,
{
    if k < digits.len() {
        lemma_decimal_value_grows(digits, k + 1);
        assert(digits.take(k + 1).drop_last() =~= digits.take(k));
        assert(is_digit(digits[k]));
    } else {
        assert(digits.take(k) =~= digits);
    }
}

/// Reads a count from the bytes of a text: see [`parsed_count`].
pub fn parse_count_bytes(text: &[u8]) -> (count: Option<usize>)
    ensures
        count == parsed_count(text@),
{
    let start: usize = if text.len() > 0 && text[0] == 0x2b {
        1
    } else {
        0
    };
    if start == text.len() {
        return None;
    }
    let ghost digits = unsigned_part(text@);
    assert(digits =~= text@.skip(start as int));
    let mut value: usize = 0;
    let mut i: usize = start;
    while i < text.len()
        invariant
            start <= i <= text.len(),
            digits == unsigned_part(text@),
            digits == text@.skip(start as int),
            forall|j: int| 0 <= j < i - start ==> is_digit(#[trigger] digits[j]),
            value == decimal_value(digits.take(i - start)),
        decreases text.len() - i,
    {
        let byte = text[i];
        if byte < 0x30 || byte > 0x39 {
            assert(!is_digit(digits[i - start]));
            return None;
        }
        proof {
            assert(digits.take(i + 1 - start).drop_last() =~= digits.take(i - start));
            assert(digits.take(i + 1 - start).last() == byte);
            if is_decimal(digits) {
                lemma_decimal_value_grows(digits, i + 1 - start);
            }
        }
        let shifted = match value.checked_mul(10) {
            Some(shifted) => shifted,
            None => {
                return None;
            },
        };
        value = match shifted.checked_add((byte - 0x30) as usize) {
            Some(sum) => sum,
            None => {
                return None;
            },
        };
        i = i + 1;
    }
    proof {
        assert(digits.take(i - start) =~= digits);
    }
    Some(value)
}

/// Reads a count from a text: see [`parsed_count`].
pub fn parse_count(text: &str) -> (count: Option<usize>)
    ensures
        count == parsed_count(text.spec_bytes()),
{
    parse_count_bytes(text.as_bytes())
}

/// Settles the concurrency limit of a run from the text of its flag, if the
/// flag was given: the count that the text stands for where it is positive,
/// the default otherwise.
pub fn limit_from_flag(flag: Option<&str>) -> (limit: usize)
    ensures
        limit == limit_or_default(
            match flag {
                Some(text) => parsed_count(text.spec_bytes()),
                None => None,
            },
        ),
        limit >= 1,
{
    match flag {
        Some(text) => effective_limit(parse_count(text)),
        None => effective_limit(None),
    }
}

} // verus!
