//! Plain text building blocks shared by the other modules.

use vstd::prelude::*;

use crate::readers::digit_of;
use crate::readers::read_decimal;

verus! {

/// The character of a decimal digit.
pub open spec fn digit_char(digit: nat) -> char
    recommends
        digit < 10,
{
    (digit + '0' as nat) as char
}

/// `value` in decimal notation, without leading zeros.
pub open spec fn decimal(value: nat) -> Seq<char>
    decreases value,
{
    if value < 10 {
        seq![digit_char(value)]
    } else {
        decimal(value / 10).push(digit_char(value % 10))
    }
}

proof fn lemma_decimal_len_below(value: nat, limit: nat, digits: nat)
    requires
        digits > 0,
        limit == pow10(digits),
        value < limit,
    ensures
        decimal(value).len() <= digits,
    decreases digits,
{
    if value >= 10 {
        assert(pow10(1) == 10) by {
            reveal_with_fuel(pow10, 2);
        }
        lemma_decimal_len_below(value / 10, pow10((digits - 1) as nat), (digits - 1) as nat);
    }
}

spec fn pow10(exponent: nat) -> nat
    decreases exponent,
{
    if exponent == 0 {
        1
    } else {
        10 * pow10((exponent - 1) as nat)
    }
}

/// A 64-bit number has at most twenty digits.
pub(crate) proof fn lemma_decimal_len(value: u64)
    ensures
        decimal(value as nat).len() <= 20,
{
    reveal_with_fuel(pow10, 21);
    lemma_decimal_len_below(value as nat, pow10(20), 20);
}

/// A decimal digit as text.
pub(crate) fn digit(value: u64) -> (res: &'static str)
    requires
        value < 10,
    ensures
        res@ == seq![digit_char(value as nat)],
{
    proof {
        reveal_strlit("0");
        reveal_strlit("1");
        reveal_strlit("2");
        reveal_strlit("3");
        reveal_strlit("4");
        reveal_strlit("5");
        reveal_strlit("6");
        reveal_strlit("7");
        reveal_strlit("8");
        reveal_strlit("9");
    }
    match value {
        0 => "0",
        1 => "1",
        2 => "2",
        3 => "3",
        4 => "4",
        5 => "5",
        6 => "6",
        7 => "7",
        8 => "8",
        _ => "9",
    }
}

/// Appends `value` in decimal notation to `out`.
pub fn push_decimal(out: &mut String, value: u64)
    ensures
        final(out)@ == old(out)@ + decimal(value as nat),
    decreases value,
{
    if value >= 10 {
        push_decimal(out, value / 10);
    }
    out.append(digit(value % 10));
}

/// `value`, or `default` where it is not set.
pub open spec fn or_default(value: Option<String>, default: Seq<char>) -> Seq<char> {
    match value {
        Some(value) => value@,
        None => default,
    }
}

/// `value`, or `default` where it is not set.
pub fn unwrap_or(value: Option<String>, default: &str) -> (res: String)
    ensures
        res@ == or_default(value, default@),
{
    match value {
        Some(value) => value,
        None => default.to_string(),
    }
}

/// `head` followed by `tail`.
pub fn join(head: &str, tail: &str) -> (res: String)
    ensures
        res@ == head@ + tail@,
{
    let mut res = head.to_string();
    res.append(tail);
    res
}

/// Whether two texts have the same characters.
pub fn same_text(one: &str, other: &str) -> (res: bool)
    ensures
        res == (one@ == other@),
{
    let equal = same_bytes(one.as_bytes(), other.as_bytes());
    proof {
        broadcast use vstd::utf8::encode_utf8_decode_utf8;

        assert(vstd::utf8::decode_utf8(vstd::utf8::encode_utf8(one@)) == one@);
        assert(vstd::utf8::decode_utf8(vstd::utf8::encode_utf8(other@)) == other@);
    }
    equal
}

fn same_bytes(one: &[u8], other: &[u8]) -> (res: bool)
    ensures
        res == (one@ == other@),
{
    if one.len() != other.len() {
        return false;
    }
    let mut i: usize = 0;
    while i < one.len()
        invariant
            i <= one.len(),
            one.len() == other.len(),
            forall|j: int| 0 <= j < i ==> one@[j] == other@[j],
        decreases one.len() - i,
    {
        if one[i] != other[i] {
            return false;
        }
        i = i + 1;
    }
    assert(one@ =~= other@);
    true
}

/// What follows `prefix` in `text`, if `text` begins with it.
pub open spec fn stripped(text: Seq<char>, prefix: Seq<char>) -> Option<Seq<char>> {
    if prefix.is_prefix_of(text) {
        Some(text.skip(prefix.len() as int))
    } else {
        None
    }
}

/// What follows `prefix` in `text`, if `text` begins with it.
pub fn strip_prefix<'a>(text: &'a str, prefix: &str) -> (res: Option<&'a str>)
    ensures
        res.deep_view() == stripped(text@, prefix@),
{
    let length = text.unicode_len();
    let head = prefix.unicode_len();
    if head <= length && same_text(text.substring_char(0, head), prefix) {
        assert(text@.subrange(0, head as int) =~= text@.take(head as int));
        assert(text@.subrange(head as int, length as int) =~= text@.skip(head as int));
        Some(text.substring_char(head, length))
    } else {
        assert(text@.subrange(0, head as int) =~= text@.take(head as int));
        None
    }
}

/// The characters of `text` before the first `stop`, or all of them where
/// there is none.
pub open spec fn before(text: Seq<char>, stop: char) -> Seq<char>
    decreases text.len(),
{
    if text.len() == 0 || text[0] == stop {
        Seq::empty()
    } else {
        seq![text[0]] + before(text.skip(1), stop)
    }
}

proof fn lemma_before(text: Seq<char>, stop: char, n: int)
    requires
        0 <= n <= text.len(),
        forall|i: int| 0 <= i < n ==> text[i] != stop,
        n < text.len() ==> text[n] == stop,
    ensures
        before(text, stop) == text.take(n),
    decreases n,
{
    if n > 0 {
        lemma_before(text.skip(1), stop, n - 1);
    }
    assert(before(text, stop) =~= text.take(n));
}

/// What stands before the first `stop` begins with a text that has none.
pub(crate) proof fn lemma_before_joined(head: Seq<char>, tail: Seq<char>, stop: char)
    requires
        !head.contains(stop),
    ensures
        before(head + tail, stop) == head + before(tail, stop),
    decreases head.len(),
{
    let whole = head + tail;
    if head.len() == 0 {
        assert(whole =~= tail);
        assert(head + before(tail, stop) =~= before(tail, stop));
    } else {
        let rest = head.skip(1);
        assert(head.contains(head[0]));
        assert forall|c: char| rest.contains(c) implies head.contains(c) by {
            let i = choose|i: int| 0 <= i < rest.len() && rest[i] == c;
            assert(head[i + 1] == c);
        }
        lemma_before_joined(rest, tail, stop);
        assert(whole.skip(1) =~= rest + tail);
        assert(whole[0] == head[0]);
        assert(before(whole, stop) =~= head + before(tail, stop));
    }
}

/// A text that has no `stop` is all that stands before it.
pub(crate) proof fn lemma_before_all(text: Seq<char>, stop: char, rest: Seq<char>)
    requires
        !text.contains(stop),
    ensures
        before(text + seq![stop] + rest, stop) == text,
        before(text, stop) == text,
{
    lemma_before_joined(text, seq![stop] + rest, stop);
    lemma_before_joined(text, Seq::empty(), stop);
    assert(text + seq![stop] + rest =~= text + (seq![stop] + rest));
    assert((seq![stop] + rest)[0] == stop);
    assert(text + Seq::<char>::empty() =~= text);
}

/// The characters of `text` before the first `stop`.
pub fn take_before<'a>(text: &'a str, stop: char) -> (res: &'a str)
    ensures
        res@ == before(text@, stop),
{
    let length = text.unicode_len();
    let mut n: usize = 0;
    for c in iter: text.chars()
        invariant_except_break
            n == iter.index(),
            iter.seq() == text@,
            length == text@.len(),
            forall|i: int| 0 <= i < n ==> text@[i] != stop,
        ensures
            n <= text@.len(),
            forall|i: int| 0 <= i < n ==> text@[i] != stop,
            n < text@.len() ==> text@[n as int] == stop,
    {
        if c == stop {
            break;
        }
        n = n + 1;
    }
    proof {
        lemma_before(text@, stop, n as int);
        assert(text@.subrange(0, n as int) =~= text@.take(n as int));
    }
    text.substring_char(0, n)
}

/// A number in decimal notation reads back as the number, whatever it is, and has
/// no superfluous zeros in front.
pub proof fn law_decimal_reads_back(value: nat)
    ensures
        read_decimal(decimal(value)) == Some(value),
        decimal(value)[0] == '0' ==> value == 0,
        value == 0 ==> decimal(value) == seq!['0'],
    decreases value,
{
    let text = decimal(value);
    if value < 10 {
        assert(text.drop_last() =~= Seq::empty());
        reveal_with_fuel(read_decimal, 2);
        assert(digit_of(text.last()) == Some(value));
    } else {
        law_decimal_reads_back(value / 10);
        assert(text.drop_last() =~= decimal(value / 10));
        assert(text.last() == digit_char(value % 10));
        assert(digit_of(text.last()) == Some(value % 10));
        assert(text[0] == decimal(value / 10)[0]);
    }
}

/// What comes before a stop is the longest beginning of the text without one.
pub proof fn law_before_is_up_to_the_first(text: Seq<char>, stop: char)
    ensures
        before(text, stop).len() <= text.len(),
        before(text, stop) == text.take(before(text, stop).len() as int),
        !before(text, stop).contains(stop),
        before(text, stop).len() < text.len() ==> text[before(text, stop).len() as int] == stop,
    decreases text.len(),
{
    if text.len() > 0 && text[0] != stop {
        let tail = before(text.skip(1), stop);
        law_before_is_up_to_the_first(text.skip(1), stop);
        let head = seq![text[0]] + tail;
        assert(head =~= text.take(head.len() as int));
        if head.contains(stop) {
            let i = choose|i: int| 0 <= i < head.len() && head[i] == stop;
            assert(tail[i - 1] == stop);
        }
        if head.len() < text.len() {
            assert(text[head.len() as int] == text.skip(1)[tail.len() as int]);
        }
    } else {
        assert(before(text, stop) =~= text.take(0));
    }
}

/// What is left of a text is what the prefix has to be put in front of.
pub proof fn law_stripped_is_the_rest(text: Seq<char>, prefix: Seq<char>, rest: Seq<char>)
    ensures
        stripped(text, prefix) == Some(rest) <==> text == prefix + rest,
{
    if text == prefix + rest {
        assert(text.take(prefix.len() as int) =~= prefix);
        assert(text.skip(prefix.len() as int) =~= rest);
    }
    if stripped(text, prefix) == Some(rest) {
        assert(text =~= prefix + rest);
    }
}

/// A value that is set is taken as it is, and the default else.
pub proof fn law_default_is_for_what_is_not_set(value: Option<String>, default: Seq<char>)
    ensures
        value matches Some(text) ==> or_default(value, default) == text@,
        value is None ==> or_default(value, default) == default,
{
}

} // verus!
