//! Failures as text: what contracts say of a message, and numbers written out for messages.

use vstd::prelude::*;
use vstd::string::StringExecFns;

verus! {

/// A result with its error message taken as text: what contracts say of a `Result` whose error
/// is a `String`.
pub open spec fn outcome<T>(result: Result<T, String>) -> Result<T, Seq<char>> {
    match result {
        Ok(value) => Ok(value),
        Err(message) => Err(message@),
    }
}

/// The character that stands for the digit `value`, which is below 16.
pub open spec fn digit(value: nat) -> char {
    "0123456789abcdef"@[value as int]
}

/// `value` written in base `base` (at least 2, at most 16), the most significant digit first,
/// with no sign, prefix or leading zero; zero is written as one `0`.
pub open spec fn digits(value: nat, base: nat) -> Seq<char>
    decreases value,
    via digits_terminates
{
    if base < 2 || value < base {
        seq![digit(value)]
    } else {
        digits(value / base, base).push(digit(value % base))
    }
}

#[via_fn]
proof fn digits_terminates(value: nat, base: nat) {
    if base >= 2 && value >= base {
        vstd::arithmetic::div_mod::lemma_div_decreases(value as int, base as int);
    }
}

/// How division by a base splits a number: a number below the base is its own last digit and
/// has nothing in front of it; a larger one has a smaller, positive number in front.
proof fn lemma_split(value: nat, base: nat)
    requires
        2 <= base,
    ensures
        value % base < base,
        value < base ==> value % base == value && value / base == 0,
        value >= base ==> 0 < value / base < value,
{
    vstd::arithmetic::div_mod::lemma_fundamental_div_mod(value as int, base as int);
    vstd::arithmetic::div_mod::lemma_mod_bound(value as int, base as int);
    if value < base {
        vstd::arithmetic::div_mod::lemma_small_mod(value, base);
        vstd::arithmetic::div_mod::lemma_basic_div(value as int, base as int);
    } else {
        vstd::arithmetic::div_mod::lemma_div_non_zero(value as int, base as int);
        vstd::arithmetic::div_mod::lemma_div_decreases(value as int, base as int);
    }
}

/// The one-character text of a digit.
fn digit_text(value: u64) -> (text: &'static str)
    requires
        value < 16,
    ensures
        text@ == seq![digit(value as nat)],
{
    proof {
        reveal_strlit("0123456789abcdef");
        reveal_strlit("0");
        reveal_strlit("1");
        reveal_strlit("2");
        reveal_strlit("3");
        reveal_strlit("4");
        reveal_strlit("5");
        reveal_strlit("6");
        reveal_strlit("7");
        reveal_strlit("8");
        reveal_strlit("9");
        reveal_strlit("a");
        reveal_strlit("b");
        reveal_strlit("c");
        reveal_strlit("d");
        reveal_strlit("e");
        reveal_strlit("f");
    }
    let text = match value {
        0 => "0",
        1 => "1",
        2 => "2",
        3 => "3",
        4 => "4",
        5 => "5",
        6 => "6",
        7 => "7",
        8 => "8",
        9 => "9",
        10 => "a",
        11 => "b",
        12 => "c",
        13 => "d",
        14 => "e",
        _ => "f",
    };
    assert(text@ =~= seq![digit(value as nat)]);
    text
}

/// Writes `value` in base `base`.
pub fn digits_text(value: u64, base: u64) -> (text: String)
    requires
        2 <= base <= 16,
    ensures
        text@ == digits(value as nat, base as nat),
{
    proof {
        lemma_split(value as nat, base as nat);
    }
    let mut text = String::from_str(digit_text(value % base));
    let mut rest = value / base;
    while rest > 0
        invariant
            2 <= base <= 16,
            digits(value as nat, base as nat) == if rest > 0 {
                digits(rest as nat, base as nat) + text@
            } else {
                text@
            },
        decreases rest,
    {
        let ghost before = text@;
        proof {
            lemma_split(rest as nat, base as nat);
        }
        let lower = text;
        text = String::from_str(digit_text(rest % base)).concat(lower.as_str());
        proof {
            let low = seq![digit((rest % base) as nat)];
            assert(text@ == low + before);
            if rest >= base {
                assert(digits((rest / base) as nat, base as nat).push(digit((rest % base) as nat))
                    + before =~= digits((rest / base) as nat, base as nat) + (low + before));
            } else {
                assert(digits(rest as nat, base as nat) + before =~= low + before);
            }
        }
        rest = rest / base;
    }
    text
}

} // verus!
