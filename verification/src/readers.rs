//! How texts are read: decimal numbers, seconds, base64 and the samples of a page
//! in Prometheus text format. Each reader says what the characters stand for.

use vstd::prelude::*;

use crate::labels::read_label;

verus! {

/// What a decimal digit stands for.
pub open spec fn digit_of(c: char) -> Option<nat> {
    if '0' <= c && c <= '9' {
        Some((c as nat - '0' as nat) as nat)
    } else {
        None
    }
}

/// The number that a text stands for, if it is made of decimal digits.
pub open spec fn read_decimal(text: Seq<char>) -> Option<nat>
    decreases text.len(),
{
    if text.len() == 0 {
        None
    } else {
        match (digit_of(text.last()), read_decimal(text.drop_last())) {
            (Some(digit), Some(head)) => Some(10 * head + digit),
            (Some(digit), None) => if text.len() == 1 {
                Some(digit)
            } else {
                None
            },
            (None, _) => None,
        }
    }
}

/// The characters of `text` that come before the first of `stops`.
pub open spec fn lead(text: Seq<char>, stops: Seq<char>) -> Seq<char>
    decreases text.len(),
{
    if text.len() == 0 || stops.contains(text[0]) {
        Seq::empty()
    } else {
        seq![text[0]] + lead(text.skip(1), stops)
    }
}

/// Ten to the power of `n`.
pub open spec fn ten_to(n: nat) -> nat
    decreases n,
{
    if n == 0 {
        1
    } else {
        10 * ten_to((n - 1) as nat)
    }
}

/// The microseconds that a text stands for, if it is a number of seconds with at
/// most six digits behind the point.
pub open spec fn read_micros(text: Seq<char>) -> Option<nat> {
    let whole = lead(text, seq!['.']);
    let digits = text.skip(whole.len() as int + 1);
    if whole.len() >= text.len() {
        match read_decimal(text) {
            Some(secs) => Some(1_000_000 * secs),
            None => None,
        }
    } else {
        match (read_decimal(whole), read_decimal(digits)) {
            (Some(secs), Some(part)) => if digits.len() <= 6 {
                Some(1_000_000 * secs + part * ten_to((6 - digits.len()) as nat))
            } else {
                None
            },
            _ => None,
        }
    }
}

/// The six bits that a symbol of base64 stands for.
pub open spec fn bits_of(symbol: char) -> Option<nat> {
    if 'A' <= symbol && symbol <= 'Z' {
        Some((symbol as nat - 'A' as nat) as nat)
    } else if 'a' <= symbol && symbol <= 'z' {
        Some((symbol as nat - 'a' as nat + 26) as nat)
    } else if '0' <= symbol && symbol <= '9' {
        Some((symbol as nat - '0' as nat + 52) as nat)
    } else if symbol == '+' {
        Some(62)
    } else if symbol == '/' {
        Some(63)
    } else {
        None
    }
}

/// The bytes that four symbols stand for: three, or fewer where they end in
/// padding.
pub open spec fn read_group(group: Seq<char>) -> Option<Seq<u8>> {
    match (bits_of(group[0]), bits_of(group[1]), bits_of(group[2]), bits_of(group[3])) {
        (Some(a), Some(b), Some(c), Some(d)) => Some(
            seq![
                (a * 4 + b / 16) as u8,
                (b % 16 * 16 + c / 4) as u8,
                (c % 4 * 64 + d) as u8,
            ],
        ),
        (Some(a), Some(b), Some(c), None) => if group[3] == '=' {
            Some(seq![(a * 4 + b / 16) as u8, (b % 16 * 16 + c / 4) as u8])
        } else {
            None
        },
        (Some(a), Some(b), None, None) => if group[2] == '=' && group[3] == '=' {
            Some(seq![(a * 4 + b / 16) as u8])
        } else {
            None
        },
        _ => None,
    }
}

/// The bytes that a text in base64 stands for. Only its end can be padding.
pub open spec fn read_base64(text: Seq<char>) -> Option<Seq<u8>>
    decreases text.len(),
{
    if text.len() == 0 {
        Some(Seq::empty())
    } else if text.len() < 4 {
        None
    } else {
        match (read_group(text.take(4)), read_base64(text.skip(4))) {
            (Some(head), Some(tail)) => if head.len() == 3 || tail.len() == 0 {
                Some(head + tail)
            } else {
                None
            },
            _ => None,
        }
    }
}

/// A sample on a page: the name, the labels and the text of the value.
pub struct Sample {
    pub name: Seq<char>,
    pub labels: Seq<(Seq<char>, Seq<char>)>,
    pub value: Seq<char>,
}

/// Reads labels from behind the opening brace: the labels, and what follows the
/// closing brace.
pub open spec fn read_labels(text: Seq<char>) -> Option<
    (Seq<(Seq<char>, Seq<char>)>, Seq<char>),
>
    decreases text.len(),
{
    let key = lead(text, seq!['=']);
    let quoted = text.skip(key.len() as int);
    if quoted.len() < 2 || quoted[0] != '=' || quoted[1] != '"' {
        None
    } else {
        match read_label(quoted.skip(2)) {
            None => None,
            Some((value, rest)) => if rest.len() == 0 || rest.len() > text.len() {
                None
            } else if rest[0] == '}' {
                Some((seq![(key, value)], rest.skip(1)))
            } else if rest[0] == ',' {
                match read_labels(rest.skip(1)) {
                    Some((more, end)) => Some((seq![(key, value)] + more, end)),
                    None => None,
                }
            } else {
                None
            },
        }
    }
}

/// Reads a line with a sample.
pub open spec fn read_sample(line: Seq<char>) -> Option<Sample> {
    let name = lead(line, seq!['{', ' ']);
    let rest = line.skip(name.len() as int);
    if rest.len() == 0 {
        None
    } else if rest[0] == ' ' {
        Some(Sample { name, labels: Seq::empty(), value: rest.skip(1) })
    } else {
        match read_labels(rest.skip(1)) {
            Some((labels, end)) => if end.len() > 0 && end[0] == ' ' {
                Some(Sample { name, labels, value: end.skip(1) })
            } else {
                None
            },
            None => None,
        }
    }
}

/// What comes before the first of `stops` begins with a text that has none.
pub(crate) proof fn lemma_lead_joined(head: Seq<char>, tail: Seq<char>, stops: Seq<char>)
    requires
        forall|i: int| 0 <= i < head.len() ==> !stops.contains(#[trigger] head[i]),
    ensures
        lead(head + tail, stops) == head + lead(tail, stops),
    decreases head.len(),
{
    let whole = head + tail;
    if head.len() == 0 {
        assert(whole =~= tail);
        assert(head + lead(tail, stops) =~= lead(tail, stops));
    } else {
        let rest = head.skip(1);
        assert forall|i: int| 0 <= i < rest.len() implies !stops.contains(#[trigger] rest[i]) by {
            assert(rest[i] == head[i + 1]);
        }
        lemma_lead_joined(rest, tail, stops);
        assert(whole.skip(1) =~= rest + tail);
        assert(whole[0] == head[0]);
        assert(lead(whole, stops) =~= head + lead(tail, stops));
    }
}

/// A text without `stops` is all that comes before a stop.
pub(crate) proof fn lemma_lead(head: Seq<char>, tail: Seq<char>, stops: Seq<char>)
    requires
        forall|i: int| 0 <= i < head.len() ==> !stops.contains(#[trigger] head[i]),
        tail.len() == 0 || stops.contains(tail[0]),
    ensures
        lead(head + tail, stops) == head,
{
    lemma_lead_joined(head, tail, stops);
    assert(head + Seq::<char>::empty() =~= head);
}

/// A digit in front counts by its place.
pub(crate) proof fn lemma_read_first(c: char, rest: Seq<char>)
    requires
        digit_of(c) is Some,
        read_decimal(rest) is Some,
    ensures
        read_decimal(seq![c] + rest) == Some(
            digit_of(c)->0 * ten_to(rest.len()) + read_decimal(rest)->0,
        ),
    decreases rest.len(),
{
    let whole = seq![c] + rest;
    assert(whole.last() == rest.last());
    assert(whole.drop_last() =~= seq![c] + rest.drop_last());
    if rest.len() == 1 {
        assert(whole.drop_last() =~= seq![c]);
        assert(seq![c].drop_last() =~= Seq::empty());
        assert(rest.drop_last() =~= Seq::empty());
        reveal_with_fuel(read_decimal, 3);
        reveal_with_fuel(ten_to, 2);
        assert(digit_of(c)->0 * 10 == 10 * digit_of(c)->0);
        assert(ten_to(1) == 10);
    } else {
        assert(read_decimal(rest.drop_last()) is Some);
        lemma_read_first(c, rest.drop_last());
        let digit = digit_of(c)->0;
        let unit = ten_to((rest.len() - 1) as nat);
        assert(digit * ten_to(rest.len()) == 10 * (digit * unit)) by (nonlinear_arith)
            requires
                ten_to(rest.len()) == 10 * unit,
        ;
    }
}

} // verus!
