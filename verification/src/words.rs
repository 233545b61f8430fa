//! The scoring-tier narrator: a pure function from the current streak to
//! the encouragement line the presenter shows, with fixed breakpoints.

use vstd::prelude::*;
use vstd::string::*;

verus! {

/// The decimal digit character for a value below ten.
pub open spec fn digit_char(d: nat) -> char
    recommends
        d < 10,
{
    if d == 0 {
        '0'
    } else if d == 1 {
        '1'
    } else if d == 2 {
        '2'
    } else if d == 3 {
        '3'
    } else if d == 4 {
        '4'
    } else if d == 5 {
        '5'
    } else if d == 6 {
        '6'
    } else if d == 7 {
        '7'
    } else if d == 8 {
        '8'
    } else {
        '9'
    }
}

/// The decimal spelling of a natural number, most significant digit first,
/// without leading zeros (a single zero for zero itself).
pub open spec fn decimal_digits(n: nat) -> Seq<char>
    decreases n,
{
    if n < 10 {
        seq![digit_char(n)]
    } else {
        decimal_digits(n / 10).push(digit_char(n % 10))
    }
}

/// The tier line for a streak: empty below three in a row, then one fixed
/// wording per breakpoint band with the streak spelled into it, and empty
/// again from thirty thousand on — the upper bound the breakpoints state.
pub open spec fn sweet_words(n: nat) -> Seq<char> {
    if 3 <= n <= 50 {
        "Wow! "@ + decimal_digits(n) + " in a row! Let's do it!"@
    } else if 51 <= n <= 100 {
        decimal_digits(n) + " in a row! You know something, don't you?"@
    } else if 101 <= n <= 200 {
        "Proffesional typer! "@ + decimal_digits(n) + " in a row!"@
    } else if 201 <= n <= 500 {
        "SOMEONE STOP THIS KEYS-REAPER! "@ + decimal_digits(n) + " IN A ROW!"@
    } else if 501 <= n < 30000 {
        "Don't you want to relax a bit, perfectionsim-cultist? "@ + decimal_digits(n)
            + " in a row."@
    } else {
        Seq::empty()
    }
}

/// The one-character string for a decimal digit.
fn digit_str(d: u32) -> (r: &'static str)
    requires
        d < 10,
    ensures
        r@ == seq![digit_char(d as nat)],
{
    proof {
        reveal_strlit("0");
        reveal_strlit("1");
        reveal_strlit("2");
        reveal_strlit("3");
        reveal_strlit("4");
        reveal_strlit("5");
        reveal_strlit("6");
        reveal_strlit("7");
        reveal_strlit("8");
        reveal_strlit("9");
    }
    match d {
        0 => "0",
        1 => "1",
        2 => "2",
        3 => "3",
        4 => "4",
        5 => "5",
        6 => "6",
        7 => "7",
        8 => "8",
        _ => "9",
    }
}

/// The decimal spelling of a number, as a string.
fn u32_digits(n: u32) -> (s: String)
    ensures
        s@ == decimal_digits(n as nat),
    decreases n,
{
    if n < 10 {
        String::from_str(digit_str(n))
    } else {
        let mut s = u32_digits(n / 10);
        s.append(digit_str(n % 10));
        proof {
            assert(s@ =~= decimal_digits(n as nat));
        }
        s
    }
}

/// The encouragement line for the given streak, exactly as [`sweet_words`]
/// spells it: empty below three in a row and from thirty thousand on, and
/// one fixed wording per band in between.
pub fn get_sweet_words_for_typer(counter_in_row: u32) -> (r: String)
    ensures
        r@ == sweet_words(counter_in_row as nat),
{
    let digits = u32_digits(counter_in_row);
    if 3 <= counter_in_row && counter_in_row <= 50 {
        let mut s = String::from_str("Wow! ");
        s.append(digits.as_str());
        s.append(" in a row! Let's do it!");
        proof {
            assert(s@ =~= sweet_words(counter_in_row as nat));
        }
        s
    } else if 51 <= counter_in_row && counter_in_row <= 100 {
        let mut s = digits;
        s.append(" in a row! You know something, don't you?");
        proof {
            assert(s@ =~= sweet_words(counter_in_row as nat));
        }
        s
    } else if 101 <= counter_in_row && counter_in_row <= 200 {
        let mut s = String::from_str("Proffesional typer! ");
        s.append(digits.as_str());
        s.append(" in a row!");
        proof {
            assert(s@ =~= sweet_words(counter_in_row as nat));
        }
        s
    } else if 201 <= counter_in_row && counter_in_row <= 500 {
        let mut s = String::from_str("SOMEONE STOP THIS KEYS-REAPER! ");
        s.append(digits.as_str());
        s.append(" IN A ROW!");
        proof {
            assert(s@ =~= sweet_words(counter_in_row as nat));
        }
        s
    } else if 501 <= counter_in_row && counter_in_row < 30000 {
        let mut s = String::from_str("Don't you want to relax a bit, perfectionsim-cultist? ");
        s.append(digits.as_str());
        s.append(" in a row.");
        proof {
            assert(s@ =~= sweet_words(counter_in_row as nat));
        }
        s
    } else {
        let s = String::new();
        proof {
            assert(s@ =~= sweet_words(counter_in_row as nat));
        }
        s
    }
}

} // verus!
