//! The decision half of the interactive prompts: turning raw text into a
//! status selection or a yes/no confirmation. Reading the text is left to the
//! caller at the terminal.

use vstd::prelude::*;
use vstd::string::StrSliceExecFns;
use crate::models::Status;

verus! {

/// Whether `c` is a decimal digit.
pub open spec fn is_digit(c: char) -> bool {
    '0' <= c && c <= '9'
}

/// The numeric value of a digit.
pub open spec fn digit_val(c: char) -> int {
    c as int - '0' as int
}

/// The number a digit sequence denotes in decimal.
pub open spec fn digits_value(s: Seq<char>) -> int
    decreases s.len(),
{
    if s.len() == 0 {
        0
    } else {
        digits_value(s.drop_last()) * 10 + digit_val(s.last())
    }
}

/// A digit sequence denotes a number that is never negative.
pub proof fn lemma_digits_value_nonneg(s: Seq<char>)
    requires
        forall|i: int| 0 <= i < s.len() ==> is_digit(#[trigger] s[i]),
    ensures
        digits_value(s) >= 0,
    decreases s.len(),
{
    if s.len() > 0 {
        assert(forall|i: int| 0 <= i < s.drop_last().len() ==> is_digit(#[trigger] s.drop_last()[
            i]));
        lemma_digits_value_nonneg(s.drop_last());
        assert(is_digit(s.last()));
    }
}

/// The digits of a token, after one optional leading plus sign.
pub open spec fn token_digits(s: Seq<char>) -> Seq<char> {
    if s.len() > 0 && s[0] == '+' {
        s.drop_first()
    } else {
        s
    }
}

/// Whether `s` is the text of an unsigned decimal number: one optional plus
/// sign, then at least one digit and nothing else.
pub open spec fn is_numeric_token(s: Seq<char>) -> bool {
    &&& token_digits(s).len() > 0
    &&& forall|i: int| 0 <= i < token_digits(s).len() ==> is_digit(#[trigger] token_digits(s)[i])
}

/// The status a raw token selects: the numbers one to four name the four
/// statuses in order; every other input selects nothing.
pub open spec fn status_choice(s: Seq<char>) -> Option<Status> {
    if !is_numeric_token(s) {
        None
    } else {
        let v = digits_value(token_digits(s));
        if v == 1 {
            Some(Status::Open)
        } else if v == 2 {
            Some(Status::InProgress)
        } else if v == 3 {
            Some(Status::Resolved)
        } else if v == 4 {
            Some(Status::Closed)
        } else {
            None
        }
    }
}

/// Parses a status selection from raw input, exactly as the numeric prompt
/// does: the token is read as an unsigned decimal and matched against the
/// four selectable values.
pub fn status_from_input(input: &str) -> (r: Option<Status>)
    ensures
        r == status_choice(input@),
{
    proof {
        if is_numeric_token(input@) {
            lemma_digits_value_nonneg(token_digits(input@));
        }
    }
    match u32_from_input(input) {
        None => None,
        Some(1) => Some(Status::Open),
        Some(2) => Some(Status::InProgress),
        Some(3) => Some(Status::Resolved),
        Some(4) => Some(Status::Closed),
        Some(_) => None,
    }
}

/// The number an unsigned decimal token denotes, when it fits the id type.
pub open spec fn parsed_u32(s: Seq<char>) -> Option<u32> {
    if is_numeric_token(s) && digits_value(token_digits(s)) <= u32::MAX {
        Some(digits_value(token_digits(s)) as u32)
    } else {
        None
    }
}

/// Parses an unsigned decimal token: one optional plus sign, then digits;
/// anything else, and any value above the id type's range, is rejected.
pub fn u32_from_input(input: &str) -> (r: Option<u32>)
    ensures
        r == parsed_u32(input@),
{
    let n = input.unicode_len();
    let start: usize = if n > 0 && input.get_char(0) == '+' {
        1
    } else {
        0
    };
    let ghost td = token_digits(input@);
    proof {
        assert(td =~= input@.subrange(start as int, n as int));
    }
    if start == n {
        return None;
    }
    let mut i: usize = start;
    let mut over = false;
    let mut acc: u32 = 0;
    while i < n
        invariant
            start <= i <= n,
            n == input@.len(),
            td == token_digits(input@),
            td =~= input@.subrange(start as int, n as int),
            forall|j: int| start <= j < i ==> is_digit(#[trigger] input@[j]),
            !over ==> acc == digits_value(input@.subrange(start as int, i as int)),
            over ==> digits_value(input@.subrange(start as int, i as int)) > u32::MAX,
        decreases n - i,
    {
        let c = input.get_char(i);
        let cv = c as u32;
        if cv < '0' as u32 || cv > '9' as u32 {
            proof {
                assert(!is_digit(input@[i as int]));
                assert(td[i as int - start as int] == input@[i as int]);
                assert(!is_numeric_token(input@));
            }
            return None;
        }
        let d = cv - '0' as u32;
        proof {
            let pre = input@.subrange(start as int, i as int);
            let cur = input@.subrange(start as int, i as int + 1);
            assert(cur.drop_last() =~= pre);
            assert(cur.last() == input@[i as int]);
            assert(digits_value(cur) == digits_value(pre) * 10 + digit_val(input@[i as int]));
            if over {
                assert(digits_value(pre) * 10 > u32::MAX * 10);
            }
        }
        if !over {
            let wide: u64 = acc as u64 * 10 + d as u64;
            if wide > u32::MAX as u64 {
                over = true;
            } else {
                acc = wide as u32;
            }
        }
        i = i + 1;
    }
    proof {
        assert(input@.subrange(start as int, n as int) =~= td);
        assert(is_numeric_token(input@));
    }
    if over {
        None
    } else {
        Some(acc)
    }
}

/// Whether a confirmation answer is affirmative: only the exact,
/// case-sensitive single-letter token "Y" counts as yes.
pub fn is_affirmative(answer: &str) -> (r: bool)
    ensures
        r == (answer@ == seq!['Y']),
{
    if answer.unicode_len() != 1 {
        proof {
            assert(answer@.len() != 1);
        }
        false
    } else {
        let c = answer.get_char(0);
        proof {
            if answer@[0] == 'Y' {
                assert(answer@ =~= seq!['Y']);
            }
        }
        c == 'Y'
    }
}

} // verus!
