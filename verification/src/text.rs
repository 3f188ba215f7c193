//! Numbers and amounts of money as text.

use vstd::prelude::*;
use vstd::string::StringExecFns;

verus! {

/// The character of a decimal digit.
pub open spec fn digit(d: nat) -> char {
    if d == 0 {
        '0'
    } else if d == 1 {
        '1'
    } else if d == 2 {
        '2'
    } else if d == 3 {
        '3'
    } else if d == 4 {
        '4'
    } else if d == 5 {
        '5'
    } else if d == 6 {
        '6'
    } else if d == 7 {
        '7'
    } else if d == 8 {
        '8'
    } else {
        '9'
    }
}

/// A number in decimal notation, without leading zeros.
pub open spec fn decimal(n: nat) -> Seq<char>
    decreases n,
{
    if n < 10 {
        seq![digit(n)]
    } else {
        decimal(n / 10).push(digit(n % 10))
    }
}

/// An amount of cents in units and hundredths, as in `12.05`.
pub open spec fn money(cents: nat) -> Seq<char> {
    decimal(cents / 100) + seq!['.', digit(cents / 10 % 10), digit(cents % 10)]
}

/// An amount of cents that may be negative, as in `-12.05`.
pub open spec fn signed_money(cents: int) -> Seq<char> {
    if cents < 0 {
        seq!['-'] + money((-cents) as nat)
    } else {
        money(cents as nat)
    }
}

/// The text of one decimal digit.
pub fn digit_text(d: u8) -> (text: &'static str)
    requires
        d < 10,
    ensures
        text@ == seq![digit(d as nat)],
{
    proof {
        reveal_strlit("0");
        reveal_strlit("1");
        reveal_strlit("2");
        reveal_strlit("3");
        reveal_strlit("4");
        reveal_strlit("5");
        reveal_strlit("6");
        reveal_strlit("7");
        reveal_strlit("8");
        reveal_strlit("9");
    }
    let text = if d == 0 {
        "0"
    } else if d == 1 {
        "1"
    } else if d == 2 {
        "2"
    } else if d == 3 {
        "3"
    } else if d == 4 {
        "4"
    } else if d == 5 {
        "5"
    } else if d == 6 {
        "6"
    } else if d == 7 {
        "7"
    } else if d == 8 {
        "8"
    } else {
        "9"
    };
    proof {
        assert(text@ =~= seq![digit(d as nat)]);
    }
    text
}

/// Writes a number in decimal notation.
pub fn decimal_text(n: u128) -> (text: String)
    ensures
        text@ == decimal(n as nat),
    decreases n,
{
    if n < 10 {
        String::from_str(digit_text(n as u8))
    } else {
        let mut text = decimal_text(n / 10);
        text.append(digit_text((n % 10) as u8));
        proof {
            assert(text@ =~= decimal(n as nat));
        }
        text
    }
}

/// Writes an amount of cents in units and hundredths.
pub fn money_text(cents: u128) -> (text: String)
    ensures
        text@ == money(cents as nat),
{
    proof {
        reveal_strlit(".");
    }
    let mut text = decimal_text(cents / 100);
    text.append(".");
    text.append(digit_text((cents / 10 % 10) as u8));
    text.append(digit_text((cents % 10) as u8));
    proof {
        assert(text@ =~= money(cents as nat));
    }
    text
}

/// Writes an amount of cents that may be negative.
pub fn signed_money_text(cents: i128) -> (text: String)
    ensures
        text@ == signed_money(cents as int),
{
    if cents < 0 {
        proof {
            reveal_strlit("-");
        }
        let size: u128 = (-(cents + 1)) as u128 + 1;
        let mut text = String::from_str("-");
        let digits = money_text(size);
        text.append(digits.as_str());
        proof {
            assert(text@ =~= signed_money(cents as int));
        }
        text
    } else {
        money_text(cents as u128)
    }
}

/// Writes the difference of two amounts of cents.
pub fn balance_text(gains: u128, losses: u128) -> (text: String)
    ensures
        text@ == signed_money(gains - losses),
{
    if gains < losses {
        proof {
            reveal_strlit("-");
        }
        let mut text = String::from_str("-");
        let digits = money_text(losses - gains);
        text.append(digits.as_str());
        proof {
            assert(text@ =~= signed_money(gains - losses));
        }
        text
    } else {
        money_text(gains - losses)
    }
}

} // verus!
