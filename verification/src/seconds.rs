//! Microseconds written in seconds.

use vstd::prelude::*;

use crate::readers::digit_of;
use crate::readers::lemma_lead;
use crate::readers::lemma_read_first;
use crate::readers::read_decimal;
use crate::readers::read_micros;
use crate::readers::ten_to;
use crate::text::decimal;
use crate::text::digit;
use crate::text::digit_char;
use crate::text::law_decimal_reads_back;
use crate::text::push_decimal;

verus! {

/// Below this many microseconds, some 272 years, the seconds in decimal notation
/// are also the shortest text that tells the double-precision number next to
/// them from all others: such numbers lie less than a microsecond apart.
pub const EXACT_MICROS: u64 = 8_589_934_592_000_000;

/// The first `n` digits behind the point of `micros` millionths, without the
/// zeros at the end.
pub open spec fn fraction(micros: nat, n: nat) -> Seq<char>
    decreases n,
{
    if micros == 0 || n == 0 {
        Seq::empty()
    } else {
        seq![digit_char(10 * micros / 1_000_000)] + fraction(
            10 * micros % 1_000_000,
            (n - 1) as nat,
        )
    }
}

/// `micros` microseconds in seconds, in decimal notation, without superfluous
/// zeros.
pub open spec fn seconds_text(micros: u64) -> Seq<char> {
    let whole = decimal((micros / 1_000_000) as nat);
    if micros % 1_000_000 == 0 {
        whole
    } else {
        whole + "."@ + fraction((micros % 1_000_000) as nat, 6)
    }
}

fn push_fraction(out: &mut String, micros: u64, n: u64)
    requires
        micros < 1_000_000,
    ensures
        final(out)@ == old(out)@ + fraction(micros as nat, n as nat),
    decreases n,
{
    if micros == 0 || n == 0 {
        assert(out@ =~= old(out)@ + fraction(micros as nat, n as nat));
    } else {
        out.append(digit(10 * micros / 1_000_000));
        push_fraction(out, 10 * micros % 1_000_000, n - 1);
        assert(out@ =~= old(out)@ + fraction(micros as nat, n as nat));
    }
}

/// Writes `micros` microseconds in seconds.
pub fn write_seconds(micros: u64) -> (res: String)
    ensures
        res@ == seconds_text(micros),
{
    let mut res = String::new();
    push_decimal(&mut res, micros / 1_000_000);
    assert(res@ =~= decimal((micros / 1_000_000) as nat));
    if micros % 1_000_000 != 0 {
        res.append(".");
        push_fraction(&mut res, micros % 1_000_000, 6);
    }
    res
}

/// The number that the digits stand for, if `n` digits can follow the point.
pub open spec fn fraction_value(digits: Seq<char>, n: nat) -> nat
    decreases n,
{
    if n == 0 || digits.len() == 0 {
        0
    } else {
        (digits[0] as nat - '0' as nat) as nat * power((n - 1) as nat) + fraction_value(
            digits.skip(1),
            (n - 1) as nat,
        )
    }
}

/// Ten to the power of `n`.
pub open spec fn power(n: nat) -> nat
    decreases n,
{
    if n == 0 {
        1
    } else {
        10 * power((n - 1) as nat)
    }
}

proof fn lemma_fraction_value(micros: nat, n: nat)
    requires
        micros < 1_000_000,
        n <= 6,
        micros * power(n) % 1_000_000 == 0,
    ensures
        fraction_value(fraction(micros, n), n) * 1_000_000 == micros * power(n),
    decreases n,
{
    reveal_with_fuel(power, 7);
    if micros == 0 {
        assert(0nat * power(n) == 0) by (nonlinear_arith);
    } else if n > 0 {
        let digit = 10 * micros / 1_000_000;
        let rest = (10 * micros % 1_000_000) as nat;
        let unit = power((n - 1) as nat);
        assert(10 * micros == digit * 1_000_000 + rest);
        assert(micros * power(n) == digit * unit * 1_000_000 + rest * unit) by (nonlinear_arith)
            requires
                10 * micros == digit * 1_000_000 + rest,
                power(n) == 10 * unit,
        ;
        lemma_fraction_value(rest, (n - 1) as nat);
        let text = fraction(micros, n);
        assert(text.skip(1) =~= fraction(rest, (n - 1) as nat));
        assert(text[0] == digit_char(digit as nat));
        assert((text[0] as nat - '0' as nat) as nat == digit);
        let more = fraction_value(fraction(rest, (n - 1) as nat), (n - 1) as nat);
        assert(fraction_value(text, n) == digit * unit + more);
        assert((digit * unit + more) * 1_000_000 == digit * unit * 1_000_000 + more * 1_000_000)
            by (nonlinear_arith);
    } else {
        assert(micros * power(0) == micros) by (nonlinear_arith)
            requires
                power(0) == 1,
        ;
    }
}

/// The digits behind the point tell the microseconds: six of them are enough, and
/// none is lost.
pub proof fn law_fraction_tells_micros(micros: nat)
    requires
        micros < 1_000_000,
    ensures
        fraction_value(fraction(micros, 6), 6) == micros,
{
    reveal_with_fuel(power, 7);
    assert(power(6) == 1_000_000);
    lemma_fraction_value(micros, 6);
}

proof fn lemma_power_adds(one: nat, other: nat)
    ensures
        ten_to(one + other) == ten_to(one) * ten_to(other),
    decreases one,
{
    if one == 0 {
        assert(1 * ten_to(other) == ten_to(other));
    } else {
        lemma_power_adds((one - 1) as nat, other);
        assert(10 * (ten_to((one - 1) as nat) * ten_to(other)) == (10 * ten_to((one - 1) as nat))
            * ten_to(other)) by (nonlinear_arith);
    }
}

/// The digits behind the point, read as a number and brought to millionths.
proof fn lemma_fraction_reads(micros: nat, n: nat)
    requires
        0 < micros < 1_000_000,
        n <= 6,
        micros * ten_to(n) % 1_000_000 == 0,
    ensures
        0 < fraction(micros, n).len() <= n,
        read_decimal(fraction(micros, n)) is Some,
        read_decimal(fraction(micros, n))->0 * ten_to((n - fraction(micros, n).len()) as nat)
            * 1_000_000 == micros * ten_to(n),
        forall|i: int|
            0 <= i < fraction(micros, n).len() ==> digit_of(#[trigger] fraction(micros, n)[i])
                is Some,
        fraction(micros, n).last() != '0',
    decreases n,
{
    reveal_with_fuel(ten_to, 7);
    let text = fraction(micros, n);
    if n == 0 {
        assert(micros * ten_to(0) == micros) by (nonlinear_arith)
            requires
                ten_to(0) == 1,
        ;
    } else {
        let digit = (10 * micros / 1_000_000) as nat;
        let rest = (10 * micros % 1_000_000) as nat;
        let unit = ten_to((n - 1) as nat);
        let tail = fraction(rest, (n - 1) as nat);
        let first = digit_char(digit);
        assert(10 * micros == digit * 1_000_000 + rest);
        assert(micros * ten_to(n) == digit * unit * 1_000_000 + rest * unit) by (nonlinear_arith)
            requires
                10 * micros == digit * 1_000_000 + rest,
                ten_to(n) == 10 * unit,
        ;
        assert(text == seq![first] + tail);
        assert(digit_of(first) == Some(digit));
        if rest == 0 {
            assert(tail =~= Seq::empty());
            assert(text =~= seq![first]);
            assert(text.drop_last() =~= Seq::empty());
            reveal_with_fuel(read_decimal, 2);
            assert(rest * unit == 0) by (nonlinear_arith)
                requires
                    rest == 0,
            ;
        } else {
            lemma_fraction_reads(rest, (n - 1) as nat);
            lemma_read_first(first, tail);
            let value = read_decimal(tail)->0;
            let pad = ten_to((n - text.len()) as nat);
            lemma_power_adds(tail.len(), (n - text.len()) as nat);
            assert(value * pad * 1_000_000 == rest * unit);
            assert((digit * ten_to(tail.len()) + value) * pad * 1_000_000 == digit * unit
                * 1_000_000 + rest * unit) by (nonlinear_arith)
                requires
                    unit == ten_to(tail.len()) * pad,
                    value * pad * 1_000_000 == rest * unit,
            ;
            assert(text.last() == tail.last());
            assert forall|i: int| 0 <= i < text.len() implies digit_of(#[trigger] text[i])
                is Some by {
                if i > 0 {
                    assert(text[i] == tail[i - 1]);
                }
            }
        }
    }
}

/// Seconds read back as the microseconds that they were written for, and have no
/// superfluous zeros at the end.
pub proof fn law_seconds_read_back(micros: u64)
    ensures
        read_micros(seconds_text(micros)) == Some(micros as nat),
        micros % 1_000_000 != 0 ==> seconds_text(micros).last() != '0',
        micros % 1_000_000 == 0 ==> !seconds_text(micros).contains('.'),
{
    let whole = decimal((micros / 1_000_000) as nat);
    let part = (micros % 1_000_000) as nat;
    let text = seconds_text(micros);
    let stops = seq!['.'];
    law_decimal_reads_back((micros / 1_000_000) as nat);
    lemma_decimal_digits((micros / 1_000_000) as nat);
    assert forall|i: int| 0 <= i < whole.len() implies !stops.contains(#[trigger] whole[i]) by {
        assert(digit_of(whole[i]) is Some);
    }
    if part == 0 {
        lemma_lead(whole, Seq::empty(), stops);
        assert(whole + Seq::<char>::empty() =~= whole);
        if text.contains('.') {
            let i = choose|i: int| 0 <= i < text.len() && text[i] == '.';
            assert(digit_of(whole[i]) is Some);
        }
    } else {
        let digits = fraction(part, 6);
        reveal_strlit(".");
        reveal_with_fuel(ten_to, 7);
        assert(ten_to(6) == 1_000_000);
        lemma_fraction_reads(part, 6);
        let tail = "."@ + digits;
        assert(text =~= whole + tail);
        assert(tail[0] == '.');
        assert(stops.contains(stops[0]));
        lemma_lead(whole, tail, stops);
        assert(text.skip(whole.len() as int + 1) =~= digits);
        assert(text.last() == digits.last());
    }
}

proof fn lemma_decimal_digits(value: nat)
    ensures
        forall|i: int|
            0 <= i < decimal(value).len() ==> digit_of(#[trigger] decimal(value)[i]) is Some,
    decreases value,
{
    if value >= 10 {
        lemma_decimal_digits(value / 10);
        assert forall|i: int| 0 <= i < decimal(value).len() implies digit_of(
            #[trigger] decimal(value)[i],
        ) is Some by {
            if i < decimal(value / 10).len() {
                assert(decimal(value)[i] == decimal(value / 10)[i]);
            }
        }
    }
}

} // verus!
