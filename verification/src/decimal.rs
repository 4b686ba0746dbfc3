//! Decimal rendering of the numbers the reporter prints: plain integers,
//! microsecond durations as milliseconds with three decimals, and
//! hundredth-of-a-percent rates with two decimals.

use vstd::prelude::*;

verus! {

/// The character of the digit `d`.
pub open spec fn digit_char(d: nat) -> char {
    if d == 0 {
        '0'
    } else if d == 1 {
        '1'
    } else if d == 2 {
        '2'
    } else if d == 3 {
        '3'
    } else if d == 4 {
        '4'
    } else if d == 5 {
        '5'
    } else if d == 6 {
        '6'
    } else if d == 7 {
        '7'
    } else if d == 8 {
        '8'
    } else {
        '9'
    }
}

/// The base-10 digit string of `n`, most significant digit first, with no
/// leading zero except for `n == 0` itself.
pub open spec fn dec_digits(n: nat) -> Seq<char>
    decreases n,
{
    if n < 10 {
        seq![digit_char(n)]
    } else {
        dec_digits(n / 10) + seq![digit_char(n % 10)]
    }
}

/// The single-character string of the digit `d`.
fn digit_str(d: u64) -> (r: &'static str)
    requires
        d < 10,
    ensures
        r@ == seq![digit_char(d as nat)],
{
    proof {
        reveal_strlit("0");
        reveal_strlit("1");
        reveal_strlit("2");
        reveal_strlit("3");
        reveal_strlit("4");
        reveal_strlit("5");
        reveal_strlit("6");
        reveal_strlit("7");
        reveal_strlit("8");
        reveal_strlit("9");
    }
    let r = if d == 0 {
        "0"
    } else if d == 1 {
        "1"
    } else if d == 2 {
        "2"
    } else if d == 3 {
        "3"
    } else if d == 4 {
        "4"
    } else if d == 5 {
        "5"
    } else if d == 6 {
        "6"
    } else if d == 7 {
        "7"
    } else if d == 8 {
        "8"
    } else {
        "9"
    };
    proof {
        assert(r@ =~= seq![digit_char(d as nat)]);
    }
    r
}

/// Render `n` in decimal.
pub fn u64_to_decimal(n: u64) -> (r: String)
    ensures
        r@ == dec_digits(n as nat),
    decreases n,
{
    if n < 10 {
        String::from_str(digit_str(n))
    } else {
        let mut s = u64_to_decimal(n / 10);
        s.append(digit_str(n % 10));
        s
    }
}

/// The three-digit zero-padded string of `f`, which is below 1000.
pub open spec fn frac3_digits(f: nat) -> Seq<char> {
    seq![digit_char(f / 100), digit_char((f / 10) % 10), digit_char(f % 10)]
}

/// The two-digit zero-padded string of `f`, which is below 100.
pub open spec fn frac2_digits(f: nat) -> Seq<char> {
    seq![digit_char(f / 10), digit_char(f % 10)]
}

/// What a duration of `micros` microseconds prints as: milliseconds with
/// exactly three decimal places.
pub open spec fn millis_display(micros: nat) -> Seq<char> {
    dec_digits(micros / 1000) + seq!['.'] + frac3_digits(micros % 1000)
}

/// Render a duration, given in microseconds, as milliseconds with three
/// decimal places.
pub fn format_millis(micros: u64) -> (r: String)
    ensures
        r@ == millis_display(micros as nat),
{
    proof {
        reveal_strlit(".");
    }
    let mut s = u64_to_decimal(micros / 1000);
    s.append(".");
    let f = micros % 1000;
    s.append(digit_str(f / 100));
    s.append(digit_str((f / 10) % 10));
    s.append(digit_str(f % 10));
    proof {
        assert(("."@) =~= seq!['.']);
        assert(s@ =~= millis_display(micros as nat));
    }
    s
}

/// What a rate of `centi` hundredths of a percent prints as: a percentage
/// with exactly two decimal places.
pub open spec fn percent_display(centi: nat) -> Seq<char> {
    dec_digits(centi / 100) + seq!['.'] + frac2_digits(centi % 100)
}

/// Render a rate, given in hundredths of a percent, as a percentage with two
/// decimal places.
pub fn format_centi_percent(centi: u64) -> (r: String)
    ensures
        r@ == percent_display(centi as nat),
{
    proof {
        reveal_strlit(".");
    }
    let mut s = u64_to_decimal(centi / 100);
    s.append(".");
    let f = centi % 100;
    s.append(digit_str(f / 10));
    s.append(digit_str(f % 10));
    proof {
        assert(("."@) =~= seq!['.']);
        assert(s@ =~= percent_display(centi as nat));
    }
    s
}

} // verus!
