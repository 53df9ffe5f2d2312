//! Decimal rendering of unsigned integers, with and without leading zeros.

use vstd::prelude::*;
use vstd::arithmetic::div_mod::{
    lemma_basic_div,
    lemma_div_denominator,
    lemma_mod_breakdown,
    lemma_small_mod,
};

verus! {

/// Ten to the power of `exponent`.
pub open spec fn pow10(exponent: nat) -> nat
    decreases exponent,
{
    if exponent == 0 {
        1
    } else {
        10 * pow10((exponent - 1) as nat)
    }
}

/// The number of decimal digits that `n` is written with; zero has one.
pub open spec fn digit_count(n: nat) -> nat
    decreases n,
{
    if n < 10 {
        1
    } else {
        1 + digit_count(n / 10)
    }
}

/// The decimal digit of `n` at `place`, where place zero holds the units,
/// place one the tens, and so on.
pub open spec fn digit_at(n: nat, place: nat) -> nat {
    (n / pow10(place)) % 10
}

/// The character that a decimal digit is written as.
pub open spec fn digit_char(digit: nat) -> char {
    if digit == 0 {
        '0'
    } else if digit == 1 {
        '1'
    } else if digit == 2 {
        '2'
    } else if digit == 3 {
        '3'
    } else if digit == 4 {
        '4'
    } else if digit == 5 {
        '5'
    } else if digit == 6 {
        '6'
    } else if digit == 7 {
        '7'
    } else if digit == 8 {
        '8'
    } else {
        '9'
    }
}

/// The `width` lowest decimal digits of `n`, most significant first. Places
/// that `n` does not reach hold zeros.
pub open spec fn digits(n: nat, width: nat) -> Seq<char> {
    Seq::new(width, |i: int| digit_char(digit_at(n, (width - 1 - i) as nat)))
}

/// `n` written in decimal, without leading zeros.
pub open spec fn decimal(n: nat) -> Seq<char> {
    digits(n, digit_count(n))
}

/// The digit that a character stands for; zero for any other character.
pub open spec fn digit_value(c: char) -> nat {
    if c == '1' {
        1
    } else if c == '2' {
        2
    } else if c == '3' {
        3
    } else if c == '4' {
        4
    } else if c == '5' {
        5
    } else if c == '6' {
        6
    } else if c == '7' {
        7
    } else if c == '8' {
        8
    } else if c == '9' {
        9
    } else {
        0
    }
}

/// The number that a text of decimal digits is read as.
pub open spec fn number_of(text: Seq<char>) -> nat
    decreases text.len(),
{
    if text.len() == 0 {
        0
    } else {
        10 * number_of(text.drop_last()) + digit_value(text.last())
    }
}

/// Most digits that a `u32` is written with.
pub const MAX_DIGITS: u32 = 10;

/// Powers of ten do not decrease as the exponent grows.
pub proof fn lemma_pow10_monotonic(low: nat, high: nat)
    requires
        low <= high,
    ensures
        1 <= pow10(low) <= pow10(high),
    decreases high,
{
    if low < high {
        lemma_pow10_monotonic(low, (high - 1) as nat);
    } else if low > 0 {
        lemma_pow10_monotonic((low - 1) as nat, (high - 1) as nat);
    }
}

/// A number below `10^places` is written with at most `places` digits.
pub proof fn lemma_digit_count_bound(n: nat, places: nat)
    requires
        places >= 1,
        n < pow10(places),
    ensures
        digit_count(n) <= places,
    decreases places,
{
    if n >= 10 {
        assert(places >= 2) by {
            reveal_with_fuel(pow10, 2);
        }
        lemma_digit_count_bound(n / 10, (places - 1) as nat);
    }
}

/// A larger number is not written with fewer digits.
pub proof fn lemma_digit_count_monotonic(small: nat, large: nat)
    requires
        small <= large,
    ensures
        digit_count(small) <= digit_count(large),
    decreases large,
{
    if small >= 10 {
        lemma_digit_count_monotonic(small / 10, large / 10);
    }
}

/// A number is below ten to the power of its digit count, and, unless it is
/// zero, not below the power before.
pub proof fn lemma_digit_count_brackets(n: nat)
    ensures
        n < pow10(digit_count(n)),
        n >= 1 ==> pow10((digit_count(n) - 1) as nat) <= n,
    decreases n,
{
    reveal_with_fuel(pow10, 2);
    if n >= 10 {
        lemma_digit_count_brackets(n / 10);
    }
}

/// The digit at a place is the digit one place lower of the number without
/// its last digit.
proof fn lemma_digit_at_shifts(n: nat, place: nat)
    ensures
        digit_at(n, place + 1) == digit_at(n / 10, place),
{
    lemma_pow10_monotonic(0, place);
    lemma_div_denominator(n as int, 10, pow10(place) as int);
}

/// Above the places that a number reaches, every digit is zero.
proof fn lemma_high_digits_are_zero(n: nat, place: nat)
    requires
        digit_count(n) <= place,
    ensures
        digit_at(n, place) == 0,
{
    lemma_digit_count_brackets(n);
    lemma_pow10_monotonic(digit_count(n), place);
    lemma_basic_div(n as int, pow10(place) as int);
}

/// Padding: where `width` is at least the number's digit count, the `width`
/// digits are the number's decimal text behind as many zeros as fill the
/// width.
pub proof fn lemma_digits_pad_with_zeros(n: nat, width: nat)
    requires
        digit_count(n) <= width,
    ensures
        digits(n, width) == Seq::new((width - digit_count(n)) as nat, |i: int| '0') + decimal(n),
{
    let zeros: int = width - digit_count(n);
    let padded = Seq::new(zeros as nat, |i: int| '0') + decimal(n);
    assert forall|i: int| 0 <= i < width implies digits(n, width)[i] == padded[i] by {
        if i < zeros {
            lemma_high_digits_are_zero(n, (width - 1 - i) as nat);
        }
    }
    assert(digits(n, width) =~= padded);
}

/// Read back as a number, the `width` lowest digits of `n` give `n` modulo
/// ten to the power of `width`.
pub proof fn lemma_digits_read_back(n: nat, width: nat)
    ensures
        number_of(digits(n, width)) == n % pow10(width),
    decreases width,
{
    if width > 0 {
        let shorter: nat = (width - 1) as nat;
        assert forall|i: int| 0 <= i < shorter implies digits(n, width).drop_last()[i] == digits(
            n / 10,
            shorter,
        )[i] by {
            lemma_digit_at_shifts(n, (shorter - 1 - i) as nat);
        }
        assert(digits(n, width).drop_last() =~= digits(n / 10, shorter));
        assert(digit_at(n, 0) == n % 10) by {
            assert(pow10(0) == 1);
        }
        assert(digits(n, width).last() == digits(n, width)[width - 1]);
        assert(digits(n, width).last() == digit_char(n % 10));
        assert(digit_value(digit_char(n % 10)) == n % 10);
        lemma_digits_read_back(n / 10, shorter);
        lemma_pow10_monotonic(0, shorter);
        lemma_mod_breakdown(n as int, 10, pow10(shorter) as int);
    }
}

/// The decimal text of a number reads back as that number.
pub proof fn lemma_decimal_reads_back(n: nat)
    ensures
        number_of(decimal(n)) == n,
{
    lemma_digits_read_back(n, digit_count(n));
    lemma_digit_count_brackets(n);
    lemma_small_mod(n, pow10(digit_count(n)));
}

/// The decimal text of a number other than zero does not begin with a zero.
pub proof fn lemma_decimal_has_no_leading_zero(n: nat)
    requires
        n >= 1,
    ensures
        decimal(n)[0] != '0',
{
    let top: nat = (digit_count(n) - 1) as nat;
    lemma_digit_count_brackets(n);
    assert(pow10(digit_count(n)) == 10 * pow10(top));
    assert(1 <= n / pow10(top) <= 9) by (nonlinear_arith)
        requires
            1 <= pow10(top) <= n < 10 * pow10(top),
    ;
}

/// The one-character text of a decimal digit.
fn digit_text(digit: u32) -> (text: &'static str)
    requires
        digit < 10,
    ensures
        text@ == seq![digit_char(digit as nat)],
{
    proof {
        reveal_strlit("0");
        reveal_strlit("1");
        reveal_strlit("2");
        reveal_strlit("3");
        reveal_strlit("4");
        reveal_strlit("5");
        reveal_strlit("6");
        reveal_strlit("7");
        reveal_strlit("8");
        reveal_strlit("9");
    }
    match digit {
        0 => "0",
        1 => "1",
        2 => "2",
        3 => "3",
        4 => "4",
        5 => "5",
        6 => "6",
        7 => "7",
        8 => "8",
        _ => "9",
    }
}

/// Ten to the power of `exponent`, as far as it fits.
fn power_of_ten(exponent: u32) -> (power: u32)
    requires
        exponent < MAX_DIGITS,
    ensures
        power == pow10(exponent as nat),
{
    let mut power: u32 = 1;
    let mut done: u32 = 0;
    while done < exponent
        invariant
            done <= exponent < MAX_DIGITS,
            power == pow10(done as nat),
        decreases exponent - done,
    {
        proof {
            lemma_pow10_monotonic(done as nat, 8);
            assert(pow10(8) == 100_000_000) by {
                reveal_with_fuel(pow10, 9);
            }
        }
        power = power * 10;
        done = done + 1;
    }
    power
}

/// The number of decimal digits of `n`.
pub fn count_digits(n: u32) -> (count: u32)
    ensures
        count == digit_count(n as nat),
        1 <= count <= MAX_DIGITS,
{
    proof {
        assert(pow10(10) == 10_000_000_000) by {
            reveal_with_fuel(pow10, 11);
        }
        lemma_digit_count_bound(n as nat, 10);
    }
    let mut rest: u32 = n;
    let mut count: u32 = 1;
    while rest >= 10
        invariant
            count >= 1,
            count + digit_count(rest as nat) == digit_count(n as nat) + 1,
            digit_count(n as nat) <= MAX_DIGITS,
        decreases rest,
    {
        rest = rest / 10;
        count = count + 1;
    }
    count
}

/// Appends the `width` lowest decimal digits of `n` to `out`, most significant
/// first.
pub fn append_digits(out: &mut String, n: u32, width: u32)
    ensures
        final(out)@ == old(out)@ + digits(n as nat, width as nat),
{
    let ghost before = out@;
    let ghost all = digits(n as nat, width as nat);
    let top: u32 = count_digits(n);
    let mut written: u32 = 0;
    while written < width
        invariant
            written <= width,
            top == digit_count(n as nat),
            top <= MAX_DIGITS,
            all == digits(n as nat, width as nat),
            out@ == before + all.subrange(0, written as int),
        decreases width - written,
    {
        let place: u32 = width - 1 - written;
        let digit: u32 = if place >= top {
            proof {
                lemma_high_digits_are_zero(n as nat, place as nat);
            }
            0
        } else {
            let scale: u32 = power_of_ten(place);
            proof {
                lemma_pow10_monotonic(0, place as nat);
            }
            (n / scale) % 10
        };
        out.append(digit_text(digit));
        assert(out@ == before + all.subrange(0, written + 1));
        written = written + 1;
    }
    assert(all.subrange(0, width as int) == all);
}

/// `n` written in decimal, without leading zeros.
pub fn render_decimal(n: u32) -> (text: String)
    ensures
        text@ == decimal(n as nat),
{
    let mut text = String::new();
    append_digits(&mut text, n, count_digits(n));
    text
}

} // verus!
