use vstd::prelude::*;
use crate::data::{Data, CO2_MAX, centi_in_range};
use crate::text::{TEXT_CAPACITY, Text, put, text_chars, text_new, utf8_len, utf8_size};

verus! {

/// Capacity, in characters, of the text of a CO2 value cell.
pub const CO2_CAPACITY: usize = 4;

/// Capacity, in characters, of the text of a temperature or humidity value cell.
pub const VALUE_CAPACITY: usize = 5;

/// The character of a decimal digit.
pub open spec fn digit_char(d: int) -> char {
    if d == 0 { '0' }
    else if d == 1 { '1' }
    else if d == 2 { '2' }
    else if d == 3 { '3' }
    else if d == 4 { '4' }
    else if d == 5 { '5' }
    else if d == 6 { '6' }
    else if d == 7 { '7' }
    else if d == 8 { '8' }
    else { '9' }
}

/// The plain decimal notation of a natural number, without leading zeros.
pub open spec fn decimal(n: nat) -> Seq<char>
    decreases n,
{
    if n < 10 {
        seq![digit_char(n as int)]
    } else {
        decimal(n / 10).push(digit_char((n % 10) as int))
    }
}

pub open spec fn sign(v: int) -> Seq<char> {
    if v < 0 { seq!['-'] } else { Seq::empty() }
}

pub open spec fn magnitude(v: int) -> nat {
    if v < 0 { (-v) as nat } else { v as nat }
}

/// Hundredths rounded to tenths, halves going to the even neighbour.
pub open spec fn round_to_tenths(a: nat) -> nat {
    let q = a / 10;
    let r = a % 10;
    if r > 5 || (r == 5 && q % 2 == 1) { q + 1 } else { q }
}

/// A value given in hundredths, written with exactly one fractional digit.
///
/// The sign is written whenever the value is negative, also where the
/// rounded digits are all zero (`-4` gives `-0.0`).
pub open spec fn one_decimal(v: int) -> Seq<char> {
    let t = round_to_tenths(magnitude(v));
    sign(v) + decimal(t / 10) + seq!['.', digit_char((t % 10) as int)]
}

/// A value given in hundredths, written with exactly two fractional digits.
pub open spec fn two_decimals(v: int) -> Seq<char> {
    let a = magnitude(v);
    sign(v) + decimal(a / 100) + seq!['.', digit_char(((a / 10) % 10) as int), digit_char((a % 10) as int)]
}

/// The text of the line theme: `CO2: 459 ppm | 20.59 °C | 57.42 %`.
pub open spec fn line_text(d: Data) -> Seq<char> {
    seq!['C', 'O', '2', ':', ' '] + decimal(d.co2 as nat)
        + seq![' ', 'p', 'p', 'm', ' ', '|', ' '] + two_decimals(d.temperature as int)
        + seq![' ', '\u{b0}', 'C', ' ', '|', ' '] + two_decimals(d.humidity as int)
        + seq![' ', '%']
}

pub open spec fn pow10(k: nat) -> nat
    decreases k,
{
    if k == 0 { 1 } else { 10 * pow10((k - 1) as nat) }
}

/// A number below `10^k` has at most `k` digits.
pub proof fn lemma_decimal_len(n: nat, k: nat)
    requires
        k >= 1,
        n < pow10(k),
    ensures
        decimal(n).len() <= k,
    decreases k,
{
    if n >= 10 {
        assert(k >= 2) by {
            if k == 1 {
                assert(pow10(1) == 10) by { reveal_with_fuel(pow10, 2); }
            }
        };
        assert(n / 10 < pow10((k - 1) as nat)) by {
            assert(pow10(k) == 10 * pow10((k - 1) as nat));
        };
        lemma_decimal_len(n / 10, (k - 1) as nat);
    }
}

pub proof fn lemma_decimal_nonempty(n: nat)
    ensures
        decimal(n).len() >= 1,
    decreases n,
{
    if n >= 10 {
        lemma_decimal_nonempty(n / 10);
    }
}

fn digit(d: u32) -> (c: char)
    requires
        d < 10,
    ensures
        c == digit_char(d as int),
{
    if d == 0 { '0' }
    else if d == 1 { '1' }
    else if d == 2 { '2' }
    else if d == 3 { '3' }
    else if d == 4 { '4' }
    else if d == 5 { '5' }
    else if d == 6 { '6' }
    else if d == 7 { '7' }
    else if d == 8 { '8' }
    else { '9' }
}

/// Appends the decimal notation of `n`.
pub fn push_decimal(out: &mut Text, n: u32)
    requires
        utf8_size(text_chars(*old(out))) + decimal(n as nat).len() <= TEXT_CAPACITY,
    ensures
        text_chars(*final(out)) == text_chars(*old(out)) + decimal(n as nat),
        utf8_size(text_chars(*final(out))) == utf8_size(text_chars(*old(out))) + decimal(n as nat).len(),
    decreases n,
{
    if n >= 10 {
        push_decimal(out, n / 10);
    }
    put(out, digit(n % 10));
    proof {
        assert(text_chars(*final(out)) =~= text_chars(*old(out)) + decimal(n as nat));
    }
}

fn magnitude_of(v: i32) -> (a: u32)
    ensures
        a as nat == magnitude(v as int),
{
    if v < 0 {
        (-(v as i64)) as u32
    } else {
        v as u32
    }
}

fn push_sign(out: &mut Text, v: i32)
    requires
        utf8_size(text_chars(*old(out))) + sign(v as int).len() <= TEXT_CAPACITY,
    ensures
        text_chars(*final(out)) == text_chars(*old(out)) + sign(v as int),
        utf8_size(text_chars(*final(out))) == utf8_size(text_chars(*old(out))) + sign(v as int).len(),
{
    if v < 0 {
        put(out, '-');
    }
    proof {
        assert(text_chars(*final(out)) =~= text_chars(*old(out)) + sign(v as int));
    }
}

/// Appends a value given in hundredths with one fractional digit.
pub fn push_one_decimal(out: &mut Text, v: i32)
    requires
        utf8_size(text_chars(*old(out))) + one_decimal(v as int).len() <= TEXT_CAPACITY,
    ensures
        text_chars(*final(out)) == text_chars(*old(out)) + one_decimal(v as int),
        utf8_size(text_chars(*final(out))) == utf8_size(text_chars(*old(out))) + one_decimal(v as int).len(),
{
    let a = magnitude_of(v);
    let q = a / 10;
    let r = a % 10;
    let t: u32 = if r > 5 || (r == 5 && q % 2 == 1) { q + 1 } else { q };
    push_sign(out, v);
    push_decimal(out, t / 10);
    put(out, '.');
    put(out, digit(t % 10));
    proof {
        assert(text_chars(*final(out)) =~= text_chars(*old(out)) + one_decimal(v as int));
    }
}

/// Appends a value given in hundredths with two fractional digits.
pub fn push_two_decimals(out: &mut Text, v: i32)
    requires
        utf8_size(text_chars(*old(out))) + two_decimals(v as int).len() <= TEXT_CAPACITY,
    ensures
        text_chars(*final(out)) == text_chars(*old(out)) + two_decimals(v as int),
        utf8_size(text_chars(*final(out))) == utf8_size(text_chars(*old(out))) + two_decimals(v as int).len(),
{
    let a = magnitude_of(v);
    push_sign(out, v);
    push_decimal(out, a / 100);
    put(out, '.');
    put(out, digit((a / 10) % 10));
    put(out, digit(a % 10));
    proof {
        assert(text_chars(*final(out)) =~= text_chars(*old(out)) + two_decimals(v as int));
    }
}

/// The text of a CO2 value cell: the concentration as a plain integer.
pub fn co2_text(co2: u16) -> (r: Text)
    ensures
        text_chars(r) == decimal(co2 as nat),
        co2 <= CO2_MAX ==> decimal(co2 as nat).len() <= CO2_CAPACITY,
{
    let mut out = text_new();
    proof {
        reveal_with_fuel(pow10, 6);
        lemma_decimal_len(co2 as nat, 5);
        if co2 <= CO2_MAX {
            lemma_decimal_len(co2 as nat, 4);
        }
    }
    push_decimal(&mut out, co2 as u32);
    proof {
        assert(text_chars(out) =~= decimal(co2 as nat));
    }
    out
}

/// The text of a temperature or humidity value cell: one fractional digit.
pub fn value_text(v: i32) -> (r: Text)
    ensures
        text_chars(r) == one_decimal(v as int),
        centi_in_range(v as int) ==> one_decimal(v as int).len() <= VALUE_CAPACITY,
{
    let mut out = text_new();
    proof {
        lemma_one_decimal_len(v as int);
        if centi_in_range(v as int) {
            lemma_one_decimal_fits(v as int);
        }
    }
    push_one_decimal(&mut out, v);
    proof {
        assert(text_chars(out) =~= one_decimal(v as int));
    }
    out
}

proof fn lemma_one_decimal_len(v: int)
    requires
        i32::MIN <= v <= i32::MAX,
    ensures
        one_decimal(v).len() <= 11,
{
    let t = round_to_tenths(magnitude(v));
    reveal_with_fuel(pow10, 9);
    lemma_decimal_len(t / 10, 8);
}

proof fn lemma_one_decimal_fits(v: int)
    requires
        centi_in_range(v),
    ensures
        one_decimal(v).len() <= VALUE_CAPACITY,
{
    let a = magnitude(v);
    let t = round_to_tenths(a);
    reveal_with_fuel(pow10, 4);
    if v < 0 {
        assert(t <= 999);
        lemma_decimal_len(t / 10, 2);
    } else {
        assert(t <= 1999);
        lemma_decimal_len(t / 10, 3);
    }
}

proof fn lemma_two_decimals_len(v: int)
    requires
        i32::MIN <= v <= i32::MAX,
    ensures
        two_decimals(v).len() <= 12,
{
    let a = magnitude(v);
    reveal_with_fuel(pow10, 9);
    lemma_decimal_len(a / 100, 8);
}

fn push_co2_part(out: &mut Text, co2: u16)
    requires
        utf8_size(text_chars(*old(out))) + 17 <= TEXT_CAPACITY,
    ensures
        text_chars(*final(out)) == text_chars(*old(out)) + seq!['C', 'O', '2', ':', ' ']
            + decimal(co2 as nat) + seq![' ', 'p', 'p', 'm', ' ', '|', ' '],
        utf8_size(text_chars(*final(out))) <= utf8_size(text_chars(*old(out))) + 17,
{
    proof {
        reveal_with_fuel(pow10, 6);
        lemma_decimal_len(co2 as nat, 5);
    }
    put(out, 'C');
    put(out, 'O');
    put(out, '2');
    put(out, ':');
    put(out, ' ');
    push_decimal(out, co2 as u32);
    put(out, ' ');
    put(out, 'p');
    put(out, 'p');
    put(out, 'm');
    put(out, ' ');
    put(out, '|');
    put(out, ' ');
    proof {
        assert(text_chars(*final(out)) =~= text_chars(*old(out)) + seq!['C', 'O', '2', ':', ' ']
            + decimal(co2 as nat) + seq![' ', 'p', 'p', 'm', ' ', '|', ' ']);
    }
}

fn push_temperature_part(out: &mut Text, v: i32)
    requires
        utf8_size(text_chars(*old(out))) + 19 <= TEXT_CAPACITY,
    ensures
        text_chars(*final(out)) == text_chars(*old(out)) + two_decimals(v as int)
            + seq![' ', '\u{b0}', 'C', ' ', '|', ' '],
        utf8_size(text_chars(*final(out))) <= utf8_size(text_chars(*old(out))) + 19,
{
    proof {
        lemma_two_decimals_len(v as int);
    }
    push_two_decimals(out, v);
    put(out, ' ');
    put(out, '\u{b0}');
    put(out, 'C');
    put(out, ' ');
    put(out, '|');
    put(out, ' ');
    proof {
        assert(text_chars(*final(out)) =~= text_chars(*old(out)) + two_decimals(v as int)
            + seq![' ', '\u{b0}', 'C', ' ', '|', ' ']);
    }
}

fn push_humidity_part(out: &mut Text, v: i32)
    requires
        utf8_size(text_chars(*old(out))) + 14 <= TEXT_CAPACITY,
    ensures
        text_chars(*final(out)) == text_chars(*old(out)) + two_decimals(v as int) + seq![' ', '%'],
        utf8_size(text_chars(*final(out))) <= utf8_size(text_chars(*old(out))) + 14,
{
    proof {
        lemma_two_decimals_len(v as int);
    }
    push_two_decimals(out, v);
    put(out, ' ');
    put(out, '%');
    proof {
        assert(text_chars(*final(out)) =~= text_chars(*old(out)) + two_decimals(v as int) + seq![' ', '%']);
    }
}

/// The single text line of the line theme, with two fractional digits for
/// temperature and humidity.
pub fn format_line(d: &Data) -> (r: Text)
    ensures
        text_chars(r) == line_text(*d),
        utf8_size(text_chars(r)) <= 50,
{
    let mut out = text_new();
    push_co2_part(&mut out, d.co2);
    push_temperature_part(&mut out, d.temperature);
    push_humidity_part(&mut out, d.humidity);
    proof {
        assert(text_chars(out) =~= line_text(*d));
    }
    out
}

/// The line text fits its capacity for every reading.
pub proof fn lemma_line_fits(d: Data)
    ensures
        line_text(d).len() <= TEXT_CAPACITY,
{
    reveal_with_fuel(pow10, 6);
    lemma_decimal_len(d.co2 as nat, 5);
    lemma_two_decimals_len(d.temperature as int);
    lemma_two_decimals_len(d.humidity as int);
}

/// For every reading in the documented range, each formatted value fits the
/// capacity of the text it is written into.
pub proof fn lemma_formats_fit(d: Data)
    requires
        d.in_range(),
    ensures
        decimal(d.co2 as nat).len() <= CO2_CAPACITY,
        one_decimal(d.temperature as int).len() <= VALUE_CAPACITY,
        one_decimal(d.humidity as int).len() <= VALUE_CAPACITY,
        line_text(d).len() <= TEXT_CAPACITY,
{
    reveal_with_fuel(pow10, 5);
    lemma_decimal_len(d.co2 as nat, 4);
    lemma_one_decimal_fits(d.temperature as int);
    lemma_one_decimal_fits(d.humidity as int);
    lemma_line_fits(d);
}

} // verus!
