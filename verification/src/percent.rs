//! Shares of a total, written as percentages with two decimal places cut
//! off, not rounded.

use vstd::prelude::*;
use vstd::string::StringExecFns;
use crate::text::{decimal, decimal_text, digit_char, digit_text};

verus! {

/// The share `num / total` in hundredths of a percent, cut off below that.
pub open spec fn hundredths(num: nat, total: nat) -> nat
    recommends
        total > 0,
{
    (10000 * num) / total
}

/// The decimals of a percentage: nothing where they are zero, else a point
/// and one or two digits, a closing zero left out.
pub open spec fn fraction_text(frac: nat) -> Seq<char>
    recommends
        frac < 100,
{
    if frac == 0 {
        Seq::empty()
    } else if frac % 10 == 0 {
        seq!['.', digit_char((frac / 10) as int)]
    } else {
        seq!['.', digit_char((frac / 10) as int), digit_char((frac % 10) as int)]
    }
}

/// The text of the share `num / total` as a percentage. With nothing to
/// take a share of, the text is `NaN` for no items and `inf` for some.
pub open spec fn percentage_text(num: nat, total: nat) -> Seq<char> {
    if total == 0 {
        if num == 0 {
            "NaN"@
        } else {
            "inf"@
        }
    } else {
        decimal(hundredths(num, total) / 100) + fraction_text(hundredths(num, total) % 100)
    }
}

/// The hundredths are cut off, never rounded up: they are the largest
/// number of hundredths of a percent that the share reaches.
pub proof fn lemma_hundredths_truncate(num: nat, total: nat)
    requires
        total > 0,
    ensures
        hundredths(num, total) * total <= 10000 * num,
        10000 * num < (hundredths(num, total) + 1) * total,
{
    let n = (10000 * num) as int;
    let t = total as int;
    vstd::arithmetic::div_mod::lemma_fundamental_div_mod(n, t);
    vstd::arithmetic::div_mod::lemma_mod_bound(n, t);
    assert(t * (n / t) == (n / t) * t) by (nonlinear_arith);
    assert((n / t + 1) * t == (n / t) * t + t) by (nonlinear_arith);
}

/// A part of the whole is at most a hundred percent of it, and all of it is
/// exactly a hundred.
pub proof fn lemma_hundredths_of_part(num: nat, total: nat)
    requires
        total > 0,
        num <= total,
    ensures
        hundredths(num, total) <= 10000,
        num == total ==> hundredths(num, total) == 10000,
        num == 0 ==> hundredths(num, total) == 0,
{
    lemma_hundredths_truncate(num, total);
    let h = hundredths(num, total) as int;
    let t = total as int;
    if h > 10000 {
        assert(h * t >= 10001 * t) by (nonlinear_arith)
            requires
                h >= 10001,
                t > 0,
        ;
    }
    if num == total && h < 10000 {
        assert((h + 1) * t <= 10000 * t) by (nonlinear_arith)
            requires
                h + 1 <= 10000,
                t > 0,
        ;
    }
    if num == 0 && h > 0 {
        assert(h * t >= t) by (nonlinear_arith)
            requires
                h >= 1,
                t > 0,
        ;
    }
}

/// Writes the share `num / total` as a percentage: the hundredths of a
/// percent are cut off, and the decimals are written only as far as they
/// are not zero.
pub fn percentage(num: usize, total: usize) -> (text: String)
    ensures
        text@ == percentage_text(num as nat, total as nat),
{
    if total == 0 {
        if num == 0 {
            return "NaN".to_owned();
        }
        return "inf".to_owned();
    }
    let scaled: u128 = (num as u128) * 10000;
    let parts: u128 = scaled / (total as u128);
    let whole: u128 = parts / 100;
    let frac: u8 = (parts % 100) as u8;
    let mut text = decimal_text(whole);
    if frac != 0 {
        proof {
            reveal_strlit(".");
        }
        text.append(".");
        text.append(digit_text(frac / 10));
        if frac % 10 != 0 {
            text.append(digit_text(frac % 10));
        }
    }
    assert(text@ =~= percentage_text(num as nat, total as nat));
    text
}

} // verus!
