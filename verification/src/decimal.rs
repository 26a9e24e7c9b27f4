//! Decimal rendering of line numbers.

use vstd::prelude::*;

verus! {

/// The character that stands for the decimal digit `d`.
pub open spec fn digit_char(d: nat) -> char {
    if d == 0 {
        '0'
    } else if d == 1 {
        '1'
    } else if d == 2 {
        '2'
    } else if d == 3 {
        '3'
    } else if d == 4 {
        '4'
    } else if d == 5 {
        '5'
    } else if d == 6 {
        '6'
    } else if d == 7 {
        '7'
    } else if d == 8 {
        '8'
    } else {
        '9'
    }
}

/// The decimal numeral of `n`: most significant digit first, no leading
/// zero, no sign, and `"0"` for zero.
pub open spec fn decimal_digits(n: nat) -> Seq<char>
    decreases n,
{
    if n < 10 {
        seq![digit_char(n)]
    } else {
        decimal_digits(n / 10).push(digit_char(n % 10))
    }
}

/// The digits of `n` that stand before the ones: none when `n` has a single
/// digit.
pub open spec fn leading_digits(n: nat) -> Seq<char> {
    if n < 10 {
        Seq::empty()
    } else {
        decimal_digits(n / 10)
    }
}

/// A numeral is its leading digits followed by its last digit.
pub proof fn lemma_decimal_split(n: nat)
    ensures
        decimal_digits(n) == leading_digits(n) + seq![digit_char(n % 10)],
{
    if n < 10 {
        assert(decimal_digits(n) =~= Seq::<char>::empty() + seq![digit_char(n % 10)]);
    } else {
        assert(decimal_digits(n) =~= decimal_digits(n / 10) + seq![digit_char(n % 10)]);
    }
}

/// The one-character text of the digit `d`.
fn digit_text(d: usize) -> (text: &'static str)
    requires
        d < 10,
    ensures
        text@ == seq![digit_char(d as nat)],
{
    proof {
        reveal_strlit("0");
        reveal_strlit("1");
        reveal_strlit("2");
        reveal_strlit("3");
        reveal_strlit("4");
        reveal_strlit("5");
        reveal_strlit("6");
        reveal_strlit("7");
        reveal_strlit("8");
        reveal_strlit("9");
    }
    let text = if d == 0 {
        "0"
    } else if d == 1 {
        "1"
    } else if d == 2 {
        "2"
    } else if d == 3 {
        "3"
    } else if d == 4 {
        "4"
    } else if d == 5 {
        "5"
    } else if d == 6 {
        "6"
    } else if d == 7 {
        "7"
    } else if d == 8 {
        "8"
    } else {
        "9"
    };
    assert(text@ =~= seq![digit_char(d as nat)]);
    text
}

/// Renders `n` in decimal.
pub fn decimal_string(n: usize) -> (text: String)
    ensures
        text@ == decimal_digits(n as nat),
{
    let mut text: String = digit_text(n % 10).to_owned();
    let mut rest: usize = n / 10;
    proof {
        lemma_decimal_split(n as nat);
    }
    while rest > 0
        invariant
            decimal_digits(n as nat) == (if rest > 0 {
                decimal_digits(rest as nat)
            } else {
                Seq::empty()
            }) + text@,
        decreases rest,
    {
        proof {
            lemma_decimal_split(rest as nat);
        }
        let ghost tail = text@;
        let ghost digit = seq![digit_char((rest % 10) as nat)];
        text = digit_text(rest % 10).to_owned().concat(text.as_str());
        assert(leading_digits(rest as nat) + digit + tail =~= leading_digits(rest as nat) + (digit
            + tail));
        rest = rest / 10;
    }
    assert(Seq::<char>::empty() + text@ =~= text@);
    text
}

} // verus!
