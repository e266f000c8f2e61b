//! Bytes as base64 text, with the standard alphabet and padding.

use vstd::prelude::*;

use crate::readers::bits_of;
use crate::readers::read_base64;
use crate::readers::read_group;

verus! {

/// The symbol of a number below 64.
pub open spec fn symbol(value: nat) -> char {
    if value < 26 {
        ('A' as nat + value) as char
    } else if value < 52 {
        ('a' as nat + value - 26) as char
    } else if value < 62 {
        ('0' as nat + value - 52) as char
    } else if value == 62 {
        '+'
    } else {
        '/'
    }
}

/// The byte at `index`, or 0 past the end.
pub open spec fn byte_or_zero(bytes: Seq<u8>, index: int) -> nat {
    if index < bytes.len() {
        bytes[index] as nat
    } else {
        0
    }
}

/// Three bytes, from `index` on, as one number of 24 bits.
pub open spec fn triple(bytes: Seq<u8>, index: int) -> nat {
    byte_or_zero(bytes, index) * 65536 + byte_or_zero(bytes, index + 1) * 256 + byte_or_zero(
        bytes,
        index + 2,
    )
}

/// The six bits of `bytes` that the symbol at `index` stands for.
pub open spec fn sextet(bytes: Seq<u8>, index: int) -> nat {
    let bits = triple(bytes, 3 * (index / 4));
    if index % 4 == 0 {
        bits / 262144
    } else if index % 4 == 1 {
        bits / 4096 % 64
    } else if index % 4 == 2 {
        bits / 64 % 64
    } else {
        bits % 64
    }
}

/// The length of the text of `length` bytes.
pub open spec fn base64_len(length: nat) -> nat {
    4 * ((length + 2) / 3)
}

/// `bytes` in base64: four symbols for every three bytes, where symbols that
/// stand for no bit of `bytes` are `=`.
pub open spec fn base64_text(bytes: Seq<u8>) -> Seq<char> {
    Seq::new(
        base64_len(bytes.len()),
        |index: int|
            if 6 * index < 8 * bytes.len() {
                symbol(sextet(bytes, index))
            } else {
                '='
            },
    )
}

/// `base64::engine::general_purpose::STANDARD.encode`: base64 with the standard
/// alphabet and padding. The text must not be longer than a string can be.
#[verifier::external_body]
pub(crate) fn encode(bytes: &Vec<u8>) -> (res: String)
    requires
        base64_len(bytes@.len()) <= isize::MAX,
    ensures
        res@ == base64_text(bytes@),
{
    base64::Engine::encode(&base64::engine::general_purpose::STANDARD, bytes)
}

proof fn lemma_symbol_injective(one: nat, other: nat)
    requires
        one < 64,
        other < 64,
        symbol(one) == symbol(other),
    ensures
        one == other,
{
}

proof fn lemma_sextet_small(bytes: Seq<u8>, index: int)
    requires
        0 <= index,
    ensures
        sextet(bytes, index) < 64,
{
}

proof fn lemma_split_triple(first: nat, second: nat, third: nat, bits: nat)
    requires
        first < 256,
        second < 256,
        third < 256,
        bits == first * 65536 + second * 256 + third,
    ensures
        bits / 262144 == first / 4,
        bits / 4096 % 64 == first % 4 * 16 + second / 16,
        bits / 64 % 64 == second % 16 * 4 + third / 64,
        bits % 64 == third % 64,
{
    let rest = first % 4 * 65536 + second * 256 + third;
    assert(bits == 262144 * (first / 4) + rest && rest < 262144);
    let high = first * 16 + second / 16;
    let low = second % 16 * 256 + third;
    assert(bits == 4096 * high + low && low < 4096);
    assert(bits / 4096 == high);
    assert(high == 64 * (first / 4) + (first % 4 * 16 + second / 16));
    let upper = first * 1024 + second * 4 + third / 64;
    assert(bits == 64 * upper + third % 64);
    assert(bits / 64 == upper);
    assert(upper == 64 * (first * 16 + second / 16) + (second % 16 * 4 + third / 64));
}

proof fn lemma_bytes_of_sextets(bytes: Seq<u8>, group: int)
    requires
        0 <= group,
    ensures
        byte_or_zero(bytes, 3 * group) == sextet(bytes, 4 * group) * 4 + sextet(
            bytes,
            4 * group + 1,
        ) / 16,
        byte_or_zero(bytes, 3 * group + 1) == sextet(bytes, 4 * group + 1) % 16 * 16 + sextet(
            bytes,
            4 * group + 2,
        ) / 4,
        byte_or_zero(bytes, 3 * group + 2) == sextet(bytes, 4 * group + 2) % 4 * 64 + sextet(
            bytes,
            4 * group + 3,
        ),
{
    let first = byte_or_zero(bytes, 3 * group);
    let second = byte_or_zero(bytes, 3 * group + 1);
    let third = byte_or_zero(bytes, 3 * group + 2);
    lemma_split_triple(first, second, third, triple(bytes, 3 * group));
    assert((4 * group) / 4 == group && (4 * group + 1) / 4 == group && (4 * group + 2) / 4 == group
        && (4 * group + 3) / 4 == group);
    assert(sextet(bytes, 4 * group) == first / 4);
    assert(sextet(bytes, 4 * group + 1) == first % 4 * 16 + second / 16);
    assert(sextet(bytes, 4 * group + 2) == second % 16 * 4 + third / 64);
    assert(sextet(bytes, 4 * group + 3) == third % 64);
}

proof fn lemma_symbol_no_padding(value: nat)
    requires
        value < 64,
    ensures
        symbol(value) != '=',
{
}

proof fn lemma_same_length(one: Seq<u8>, other: Seq<u8>)
    requires
        base64_text(one) == base64_text(other),
    ensures
        one.len() >= other.len(),
{
    if one.len() < other.len() {
        assert(base64_text(one).len() == base64_len(one.len()));
        assert(base64_text(other).len() == base64_len(other.len()));
        // The symbol for the last bits of the longer one is padding in the shorter one.
        let index = (8 * other.len() - 1) / 6;
        assert(6 * index < 8 * other.len());
        assert(6 * index >= 8 * one.len());
        assert(3 * base64_len(other.len()) >= 4 * other.len());
        assert(0 <= index < base64_len(one.len()));
        assert(base64_text(one)[index] == '=');
        lemma_sextet_small(other, index);
        lemma_symbol_no_padding(sextet(other, index));
    }
}

proof fn lemma_same_sextet(one: Seq<u8>, other: Seq<u8>, index: int)
    requires
        base64_text(one) == base64_text(other),
        one.len() == other.len(),
        0 <= index,
        6 * index < 8 * one.len(),
    ensures
        sextet(one, index) == sextet(other, index),
{
    lemma_sextet_small(one, index);
    lemma_sextet_small(other, index);
    assert(base64_text(one)[index] == symbol(sextet(one, index)));
    assert(base64_text(other)[index] == symbol(sextet(other, index)));
    lemma_symbol_injective(sextet(one, index), sextet(other, index));
}

/// The text tells the bytes: no two sequences of bytes have one text.
pub proof fn law_text_tells_bytes(one: Seq<u8>, other: Seq<u8>)
    requires
        base64_text(one) == base64_text(other),
    ensures
        one == other,
{
    lemma_same_length(one, other);
    lemma_same_length(other, one);
    assert forall|i: int| 0 <= i < one.len() implies one[i] == other[i] by {
        let group = i / 3;
        lemma_bytes_of_sextets(one, group);
        lemma_bytes_of_sextets(other, group);
        if i % 3 == 0 {
            lemma_same_sextet(one, other, 4 * group);
            lemma_same_sextet(one, other, 4 * group + 1);
        } else if i % 3 == 1 {
            lemma_same_sextet(one, other, 4 * group + 1);
            lemma_same_sextet(one, other, 4 * group + 2);
        } else {
            lemma_same_sextet(one, other, 4 * group + 2);
            lemma_same_sextet(one, other, 4 * group + 3);
        }
    }
    assert(one =~= other);
}

proof fn lemma_read_symbol(value: nat)
    requires
        value < 64,
    ensures
        bits_of(symbol(value)) == Some(value),
{
}

proof fn lemma_next_group(bytes: Seq<u8>)
    requires
        bytes.len() > 3,
    ensures
        base64_text(bytes).skip(4) == base64_text(bytes.skip(3)),
{
    let rest = bytes.skip(3);
    let text = base64_text(bytes);
    assert(base64_len(bytes.len()) == base64_len(rest.len()) + 4);
    assert forall|index: int| 0 <= index < base64_len(rest.len()) implies text[index + 4]
        == #[trigger] base64_text(rest)[index] by {
        let group = index / 4;
        assert((index + 4) / 4 == group + 1 && (index + 4) % 4 == index % 4);
        assert(3 * ((index + 4) / 4) == 3 * group + 3);
        assert(byte_or_zero(rest, 3 * group) == byte_or_zero(bytes, 3 * group + 3));
        assert(byte_or_zero(rest, 3 * group + 1) == byte_or_zero(bytes, 3 * group + 4));
        assert(byte_or_zero(rest, 3 * group + 2) == byte_or_zero(bytes, 3 * group + 5));
        assert(triple(rest, 3 * group) == triple(bytes, 3 * group + 3));
        assert(sextet(rest, index) == sextet(bytes, index + 4));
    }
    assert(text.skip(4) =~= base64_text(rest));
}

proof fn lemma_first_group(bytes: Seq<u8>)
    requires
        bytes.len() > 0,
    ensures
        read_group(base64_text(bytes).take(4)) == Some(
            bytes.take(
                if bytes.len() < 3 {
                    bytes.len() as int
                } else {
                    3
                },
            ),
        ),
{
    let text = base64_text(bytes);
    let group = text.take(4);
    assert(text.len() >= 4);
    lemma_bytes_of_sextets(bytes, 0);
    lemma_sextet_small(bytes, 0);
    lemma_sextet_small(bytes, 1);
    lemma_sextet_small(bytes, 2);
    lemma_sextet_small(bytes, 3);
    lemma_read_symbol(sextet(bytes, 0));
    lemma_read_symbol(sextet(bytes, 1));
    lemma_read_symbol(sextet(bytes, 2));
    lemma_read_symbol(sextet(bytes, 3));
    assert(group[0] == symbol(sextet(bytes, 0)));
    assert(group[1] == symbol(sextet(bytes, 1)));
    if bytes.len() >= 2 {
        assert(group[2] == symbol(sextet(bytes, 2)));
    } else {
        assert(group[2] == '=');
    }
    if bytes.len() >= 3 {
        assert(group[3] == symbol(sextet(bytes, 3)));
    } else {
        assert(group[3] == '=');
    }
    if bytes.len() >= 3 {
        assert(read_group(group)->0 =~= bytes.take(3));
    } else {
        assert(read_group(group)->0 =~= bytes.take(bytes.len() as int));
    }
}

/// The text of bytes reads back as the bytes, all of them and in their order.
pub proof fn law_base64_reads_back(bytes: Seq<u8>)
    ensures
        read_base64(base64_text(bytes)) == Some(bytes),
    decreases bytes.len(),
{
    let text = base64_text(bytes);
    if bytes.len() == 0 {
        assert(text.len() == 0);
        assert(bytes =~= Seq::empty());
    } else {
        assert(text.len() >= 4);
        lemma_first_group(bytes);
        if bytes.len() > 3 {
            lemma_next_group(bytes);
            law_base64_reads_back(bytes.skip(3));
            assert(bytes.take(3) + bytes.skip(3) =~= bytes);
        } else {
            assert(text.len() == 4);
            assert(text.skip(4) =~= Seq::empty());
            reveal_with_fuel(read_base64, 2);
            assert(bytes.take(bytes.len() as int) =~= bytes);
            assert(bytes + Seq::<u8>::empty() =~= bytes);
        }
    }
}

/// The text of bytes is the shortest of whole groups of four symbols that has room
/// for three bytes in each.
pub proof fn law_length_of_the_text(bytes: Seq<u8>)
    ensures
        base64_text(bytes).len() == base64_len(bytes.len()),
        base64_len(bytes.len()) % 4 == 0,
        4 * bytes.len() <= 3 * base64_len(bytes.len()) < 4 * bytes.len() + 12,
{
}

} // verus!
