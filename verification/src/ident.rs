//! Account identifiers as text: the decimal notation of a 64-bit integer.

use vstd::prelude::*;
use vstd::string::*;

verus! {

/// The largest magnitude that an identifier may have: that of `i64::MIN`.
const MAX_MAGNITUDE: i128 = 0x8000_0000_0000_0000;

/// What the running magnitude is set to once it has left the range.
const SATURATED: i128 = 0x8000_0000_0000_0001;

/// Whether `c` is one of the ten decimal digits.
pub open spec fn is_digit(c: char) -> bool {
    '0' <= c && c <= '9'
}

/// The number that a decimal digit stands for.
pub open spec fn digit_value(c: char) -> int {
    c as int - '0' as int
}

/// Whether a text is made of decimal digits only.
pub open spec fn all_digits(s: Seq<char>) -> bool {
    forall|i: int| 0 <= i < s.len() ==> is_digit(#[trigger] s[i])
}

/// The number that a run of decimal digits stands for; leading zeros do not
/// count.
pub open spec fn decimal(s: Seq<char>) -> int
    decreases s.len(),
{
    if s.len() == 0 {
        0
    } else {
        10 * decimal(s.drop_last()) + digit_value(s.last())
    }
}

/// How many characters of a text belong to its sign: one where the text
/// starts with `+` or `-`, none otherwise.
pub open spec fn sign_len(text: Seq<char>) -> int {
    if text.len() > 0 && (text[0] == '+' || text[0] == '-') {
        1
    } else {
        0
    }
}

/// The identifier that a text stands for: an optional sign, then at least
/// one decimal digit and nothing else, and a value that fits in 64 bits.
/// Every other text stands for no identifier.
pub open spec fn client_id_of(text: Seq<char>) -> Option<i64> {
    let digits = text.skip(sign_len(text));
    let magnitude = decimal(digits);
    let value = if text.len() > 0 && text[0] == '-' {
        -magnitude
    } else {
        magnitude
    };
    if digits.len() > 0 && all_digits(digits) && i64::MIN <= value <= i64::MAX {
        Some(value as i64)
    } else {
        None
    }
}

proof fn lemma_decimal_push(s: Seq<char>, c: char)
    ensures
        decimal(s.push(c)) == 10 * decimal(s) + digit_value(c),
{
    assert(s.push(c).drop_last() =~= s);
}

proof fn lemma_decimal_not_negative(s: Seq<char>)
    requires
        all_digits(s),
    ensures
        0 <= decimal(s),
    decreases s.len(),
{
    if s.len() > 0 {
        assert(is_digit(s[s.len() - 1]));
        lemma_decimal_not_negative(s.drop_last());
    }
}

/// Reads an account identifier from its text, in one pass over the
/// characters.
pub fn parse_client_id(text: &str) -> (id: Option<i64>)
    ensures
        id == client_id_of(text@),
{
    let ghost start = sign_len(text@);
    let ghost digits = text@.skip(start);
    let mut first = true;
    let mut negative = false;
    let mut any_digit = false;
    let mut magnitude: i128 = 0;
    for c in it: text.chars()
        invariant
            it.seq() == text@,
            start == sign_len(text@),
            digits == text@.skip(start),
            first <==> it.index() == 0,
            first ==> !negative && !any_digit && magnitude == 0,
            !first ==> start <= it.index() && negative == (text@[0] == '-') && any_digit == (
            start < it.index()) && all_digits(digits.take(it.index() - start)),
            0 <= magnitude <= SATURATED,
            !first && magnitude <= MAX_MAGNITUDE ==> magnitude == decimal(
                digits.take(it.index() - start),
            ),
            magnitude > MAX_MAGNITUDE ==> !first && decimal(
                digits.take(it.index() - start),
            ) > MAX_MAGNITUDE,
    {
        let ghost k = it.index() as int;
        assert(c == text@[k]);
        if first && (c == '-' || c == '+') {
            negative = c == '-';
            assert(digits.take(0) =~= Seq::<char>::empty());
        } else {
            let ghost seen = digits.take(k - start);
            proof {
                assert(start <= k);
                assert(digits[k - start] == c);
                assert(digits.take(k - start + 1) =~= seen.push(c));
                lemma_decimal_push(seen, c);
                if first {
                    assert(seen =~= Seq::<char>::empty());
                } else {
                    lemma_decimal_not_negative(seen);
                }
            }
            if c < '0' || c > '9' {
                proof {
                    assert(!is_digit(digits[k - start]));
                }
                return None;
            }
            let d = (c as u32 - '0' as u32) as i128;
            if magnitude <= MAX_MAGNITUDE {
                let next = magnitude * 10 + d;
                if next > MAX_MAGNITUDE {
                    magnitude = SATURATED;
                } else {
                    magnitude = next;
                }
            }
            any_digit = true;
        }
        first = false;
    }
    proof {
        if !first {
            assert(digits.take(text@.len() - start) =~= digits);
        }
    }
    if !any_digit {
        return None;
    }
    let value = if negative {
        -magnitude
    } else {
        magnitude
    };
    if value < i64::MIN as i128 || value > i64::MAX as i128 {
        None
    } else {
        Some(value as i64)
    }
}

} // verus!
