//! Parsing of the human-readable expiry string (`"7d"`, `"2w"`, `"n"`, ...)
//! into an optional number of seconds.
//!
//! The last character is the unit (`d` days, `w` weeks, `m` 30-day months);
//! everything before it is a non-negative decimal number, optionally with a
//! leading `+`. The literal `"n"` means "no expiry". Inputs whose numeric
//! part does not parse as a `u64`, whose unit is unknown, whose product does
//! not fit in a `u64`, or that are shorter than two characters fall back to
//! a fixed default of seven days.

use vstd::prelude::*;

verus! {

/// Seconds in one day.
pub const SECONDS_PER_DAY: u64 = 86400;

/// Seconds in one week.
pub const SECONDS_PER_WEEK: u64 = 7 * 86400;

/// Seconds in a calendar month, approximated as 30 days.
pub const SECONDS_PER_MONTH: u64 = 30 * 86400;

/// The fallback expiry used for inputs that cannot be understood: seven days.
pub const DEFAULT_EXPIRE_SECONDS: u64 = 7 * 86400;

/// An ASCII decimal digit.
pub open spec fn is_decimal_digit(c: char) -> bool {
    48 <= c as u32 <= 57
}

/// Numeric value of a digit character (`'7'` is 7).
pub open spec fn digit_value(c: char) -> nat {
    (c as u32 - 48) as nat
}

/// A non-empty sequence of ASCII decimal digits.
pub open spec fn is_digits(s: Seq<char>) -> bool {
    s.len() > 0 && forall|i: int| 0 <= i < s.len() ==> is_decimal_digit(#[trigger] s[i])
}

/// The number denoted by a digit sequence, read left to right in base ten.
pub open spec fn digits_value(s: Seq<char>) -> nat
    decreases s.len(),
{
    if s.len() == 0 {
        0
    } else {
        digits_value(s.drop_last()) * 10 + digit_value(s.last())
    }
}

/// A numeric part that parses as an unsigned number: digits, optionally
/// after a single leading `+`.
pub open spec fn numeric_prefix_parses(s: Seq<char>) -> bool {
    if s.len() > 0 && s[0] == '+' {
        is_digits(s.skip(1))
    } else {
        is_digits(s)
    }
}

/// The number a numeric part denotes, its optional leading `+` dropped.
pub open spec fn numeric_prefix_value(s: Seq<char>) -> nat {
    if s.len() > 0 && s[0] == '+' {
        digits_value(s.skip(1))
    } else {
        digits_value(s)
    }
}

/// Seconds per unit suffix, or `None` for an unknown suffix.
pub open spec fn unit_seconds(c: char) -> Option<u64> {
    if c == 'd' {
        Some(SECONDS_PER_DAY)
    } else if c == 'w' {
        Some(SECONDS_PER_WEEK)
    } else if c == 'm' {
        Some(SECONDS_PER_MONTH)
    } else {
        None
    }
}

/// What `parse_expire` returns on each input: `None` ("no expiry") only for
/// the literal `"n"`; the parsed number of seconds when the numeric part and
/// the unit are understood and the product fits in a `u64`; the seven-day
/// default otherwise.
pub open spec fn expire_spec(s: Seq<char>) -> Option<u64> {
    if s.len() == 1 && s[0] == 'n' {
        None
    } else if s.len() < 2 {
        Some(DEFAULT_EXPIRE_SECONDS)
    } else {
        let prefix = s.drop_last();
        let v = numeric_prefix_value(prefix);
        if numeric_prefix_parses(prefix) && v <= u64::MAX {
            match unit_seconds(s.last()) {
                Some(f) => if v * f <= u64::MAX {
                    Some((v * f) as u64)
                } else {
                    Some(DEFAULT_EXPIRE_SECONDS)
                },
                None => Some(DEFAULT_EXPIRE_SECONDS),
            }
        } else {
            Some(DEFAULT_EXPIRE_SECONDS)
        }
    }
}

/// Growing a digit sequence at its end never shrinks its value.
proof fn lemma_digits_value_subrange_monotone(s: Seq<char>, start: int, i: int, j: int)
    requires
        0 <= start <= i <= j <= s.len(),
    ensures
        digits_value(s.subrange(start, i)) <= digits_value(s.subrange(start, j)),
    decreases j - i,
{
    if i < j {
        lemma_digits_value_subrange_monotone(s, start, i, j - 1);
        assert(s.subrange(start, j).drop_last() =~= s.subrange(start, j - 1));
        assert(digits_value(s.subrange(start, j)) == digits_value(s.subrange(start, j - 1)) * 10
            + digit_value(s.subrange(start, j).last()));
    }
}

/// Law: for an input made of a digit prefix and one suffix character, the
/// result is the prefix times 86400, 604800 or 2592000 seconds for the
/// suffixes `d`, `w` and `m` (falling back to the seven-day default when
/// the product does not fit in a u64), and the seven-day default for any
/// other suffix.
pub proof fn lemma_expire_digits_with_unit(s: Seq<char>)
    requires
        s.len() >= 2,
        is_digits(s.drop_last()),
        digits_value(s.drop_last()) <= u64::MAX,
    ensures
        s.last() == 'd' && digits_value(s.drop_last()) * 86400 <= u64::MAX ==> expire_spec(s)
            == Some((digits_value(s.drop_last()) * 86400) as u64),
        s.last() == 'w' && digits_value(s.drop_last()) * 604800 <= u64::MAX ==> expire_spec(s)
            == Some((digits_value(s.drop_last()) * 604800) as u64),
        s.last() == 'm' && digits_value(s.drop_last()) * 2592000 <= u64::MAX ==> expire_spec(s)
            == Some((digits_value(s.drop_last()) * 2592000) as u64),
        unit_seconds(s.last()) is None ==> expire_spec(s) == Some(DEFAULT_EXPIRE_SECONDS),
{
    assert(s.drop_last()[0] != '+');
}

/// Law: "no expiry" arises for the literal `"n"` and for no other input;
/// every other input maps to some number of seconds.
pub proof fn lemma_no_expiry_only_for_n(s: Seq<char>)
    ensures
        expire_spec(s) is None <==> s =~= seq!['n'],
{
}

/// Law: when the portion before the suffix is not a parseable u64 number
/// (empty, a stray non-digit, or too large), the result is the seven-day
/// default, whatever the suffix.
pub proof fn lemma_expire_unparseable_prefix(s: Seq<char>)
    requires
        s.len() >= 2,
        !(numeric_prefix_parses(s.drop_last()) && numeric_prefix_value(s.drop_last()) <= u64::MAX),
    ensures
        expire_spec(s) == Some(DEFAULT_EXPIRE_SECONDS),
{
}

/// Convert an expiry string into an optional number of seconds.
pub fn parse_expire(expire: &str) -> (r: Option<u64>)
    ensures
        r == expire_spec(expire@),
{
    let len = expire.unicode_len();
    if len == 1 {
        if expire.get_char(0) == 'n' {
            return None;
        }
        return Some(DEFAULT_EXPIRE_SECONDS);
    }
    if len == 0 {
        return Some(DEFAULT_EXPIRE_SECONDS);
    }
    let ghost prefix = expire@.drop_last();
    let start: usize = if expire.get_char(0) == '+' {
        1
    } else {
        0
    };
    if start == len - 1 {
        // Nothing but the `+`: the numeric part is empty.
        proof {
            assert(prefix.skip(1) =~= Seq::<char>::empty());
        }
        return Some(DEFAULT_EXPIRE_SECONDS);
    }
    let ghost digits = expire@.subrange(start as int, len - 1);
    proof {
        if start == 1 {
            assert(digits =~= prefix.skip(1));
        } else {
            assert(digits =~= prefix);
        }
    }
    let mut value: u64 = 0;
    let mut i: usize = start;
    while i < len - 1
        invariant
            2 <= len == expire@.len(),
            start <= i <= len - 1,
            start == 0 || start == 1,
            prefix =~= expire@.drop_last(),
            (start == 1) <==> expire@[0] == '+',
            start == 1 ==> digits =~= prefix.skip(1),
            start == 0 ==> digits =~= prefix,
            digits =~= expire@.subrange(start as int, len - 1),
            forall|j: int| start <= j < i ==> is_decimal_digit(#[trigger] expire@[j]),
            value == digits_value(expire@.subrange(start as int, i as int)),
        decreases len - 1 - i,
    {
        let c = expire.get_char(i);
        if !(c as u32 >= 48 && c as u32 <= 57) {
            // A non-digit in the numeric part: it does not parse.
            proof {
                assert(digits[i - start] == expire@[i as int]);
                assert(!is_decimal_digit(digits[i - start]));
            }
            return Some(DEFAULT_EXPIRE_SECONDS);
        }
        let d = (c as u32 - 48) as u64;
        let grown = match value.checked_mul(10) {
            Some(v10) => v10.checked_add(d),
            None => None,
        };
        proof {
            assert(expire@.subrange(start as int, i + 1).drop_last() =~= expire@.subrange(
                start as int,
                i as int,
            ));
            assert(expire@.subrange(start as int, i + 1).last() == expire@[i as int]);
        }
        match grown {
            Some(v) => {
                value = v;
            },
            None => {
                // The numeric part overflows a u64: it does not parse.
                proof {
                    assert(digits_value(expire@.subrange(start as int, i + 1)) > u64::MAX);
                    lemma_digits_value_subrange_monotone(expire@, start as int, i + 1, len - 1);
                }
                return Some(DEFAULT_EXPIRE_SECONDS);
            },
        }
        i = i + 1;
    }
    proof {
        assert(is_digits(digits));
        assert(value == digits_value(digits));
        assert(numeric_prefix_parses(prefix));
        assert(value == numeric_prefix_value(prefix));
    }
    let unit = expire.get_char(len - 1);
    proof {
        assert(expire@.last() == expire@[len - 1]);
    }
    let factor: u64 = if unit == 'd' {
        SECONDS_PER_DAY
    } else if unit == 'w' {
        SECONDS_PER_WEEK
    } else if unit == 'm' {
        SECONDS_PER_MONTH
    } else {
        return Some(DEFAULT_EXPIRE_SECONDS);
    };
    match value.checked_mul(factor) {
        Some(total) => Some(total),
        None => Some(DEFAULT_EXPIRE_SECONDS),
    }
}

} // verus!
