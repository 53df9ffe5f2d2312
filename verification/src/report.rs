//! The text that one measurement is reported as.

use vstd::prelude::*;
use vstd::arithmetic::div_mod::{lemma_fundamental_div_mod, lemma_small_mod};
use crate::decimal::{
    append_digits,
    count_digits,
    decimal,
    digit_count,
    digits,
    lemma_decimal_reads_back,
    lemma_digit_count_brackets,
    lemma_digit_count_monotonic,
    lemma_digits_pad_with_zeros,
    lemma_digits_read_back,
    number_of,
    pow10,
};
use crate::prescale::Prescale;

verus! {

/// The number of digits after the decimal point: as many as the largest
/// remainder, `divider - 1`, is written with. A divider of 1000 gives three.
pub open spec fn fraction_width(divider: nat) -> nat
    recommends
        divider >= 1,
{
    digit_count((divider - 1) as nat)
}

/// A delta as a number with a decimal point: the quotient by the divider,
/// a point, and the remainder padded with leading zeros to
/// `fraction_width(divider)` digits.
pub open spec fn frequency_text(delta: nat, divider: nat) -> Seq<char>
    recommends
        divider >= 1,
{
    decimal(delta / divider) + "."@ + digits(delta % divider, fraction_width(divider))
}

/// One line of output: the channel's label, a colon, the frequency and its
/// unit.
pub open spec fn report_line(
    label: Seq<char>,
    delta: nat,
    divider: nat,
    unit: Seq<char>,
) -> Seq<char>
    recommends
        divider >= 1,
{
    label + ": "@ + frequency_text(delta, divider) + " "@ + unit
}

/// The text loses nothing of the delta. The part after the point is the
/// remainder's decimal text behind zeros that fill the width, and the two
/// parts, read back as numbers, give the delta again: the first times the
/// divider, plus the second.
pub proof fn lemma_frequency_text_reads_back(delta: nat, divider: nat)
    requires
        divider >= 1,
    ensures
        digit_count(delta % divider) <= fraction_width(divider),
        digits(delta % divider, fraction_width(divider)) == Seq::new(
            (fraction_width(divider) - digit_count(delta % divider)) as nat,
            |i: int| '0',
        ) + decimal(delta % divider),
        number_of(decimal(delta / divider)) * divider + number_of(
            digits(delta % divider, fraction_width(divider)),
        ) == delta,
{
    let whole: nat = delta / divider;
    let fraction: nat = delta % divider;
    let width: nat = fraction_width(divider);
    lemma_fundamental_div_mod(delta as int, divider as int);
    lemma_digit_count_monotonic(fraction, (divider - 1) as nat);
    lemma_digits_pad_with_zeros(fraction, width);
    lemma_decimal_reads_back(whole);
    lemma_digits_read_back(fraction, width);
    lemma_digit_count_brackets((divider - 1) as nat);
    lemma_small_mod(fraction, pow10(width));
    assert(whole * divider == divider * whole) by (nonlinear_arith);
}

/// Appends `frequency_text(delta, prescale@)` to `out`.
fn append_frequency(out: &mut String, delta: u32, prescale: Prescale)
    ensures
        final(out)@ == old(out)@ + frequency_text(delta as nat, prescale@),
{
    let divider: u32 = prescale.divider();
    let whole: u32 = delta / divider;
    let fraction: u32 = delta % divider;
    append_digits(out, whole, count_digits(whole));
    out.append(".");
    append_digits(out, fraction, count_digits(divider - 1));
}

/// The frequency that `delta` stands for, as text.
pub fn render_frequency(delta: u32, prescale: Prescale) -> (text: String)
    ensures
        text@ == frequency_text(delta as nat, prescale@),
{
    let mut text = String::new();
    append_frequency(&mut text, delta, prescale);
    text
}

/// The line that reports `delta` on the channel called `label`.
pub fn render_report(label: &str, delta: u32, prescale: Prescale, unit: &str) -> (line: String)
    ensures
        line@ == report_line(label@, delta as nat, prescale@, unit@),
{
    let mut line = String::from_str(label);
    line.append(": ");
    append_frequency(&mut line, delta, prescale);
    line.append(" ");
    line.append(unit);
    line
}

} // verus!
