//! The integers that travel in front of a message: fixed-width words in base 256.

use vstd::arithmetic::div_mod::lemma_div_denominator;
use vstd::arithmetic::power::{lemma_pow0, lemma_pow1, lemma_pow_adds, lemma_pow_positive, pow};
use vstd::prelude::*;

verus! {

/// The order in which the bytes of a word travel.
#[derive(Clone, Copy, Debug, PartialEq, Eq, Structural)]
pub enum ByteOrder {
    /// Least significant byte first.
    Little,
    /// Most significant byte first.
    Big,
}

/// How many values a word of `width` bytes can take.
pub open spec fn word_values(width: nat) -> nat
    decreases width,
{
    if width == 0 {
        1
    } else {
        256 * word_values((width - 1) as nat)
    }
}

/// The `width` lowest base-256 digits of `n`, least significant first.
pub open spec fn digits(n: nat, width: nat) -> Seq<u8>
    decreases width,
{
    if width == 0 {
        Seq::empty()
    } else {
        seq![(n % 256) as u8] + digits(n / 256, (width - 1) as nat)
    }
}

/// The number whose base-256 digits, least significant first, are `bytes`.
pub open spec fn number(bytes: Seq<u8>) -> nat
    decreases bytes.len(),
{
    if bytes.len() == 0 {
        0
    } else {
        bytes[0] as nat + 256 * number(bytes.drop_first())
    }
}

/// The word of `width` bytes that stands for `n` in the given order.
pub open spec fn word_bytes(n: nat, width: nat, order: ByteOrder) -> Seq<u8> {
    match order {
        ByteOrder::Little => digits(n, width),
        ByteOrder::Big => digits(n, width).reverse(),
    }
}

/// The number that a word stands for in the given order.
pub open spec fn word_value(bytes: Seq<u8>, order: ByteOrder) -> nat {
    match order {
        ByteOrder::Little => number(bytes),
        ByteOrder::Big => number(bytes.reverse()),
    }
}

proof fn lemma_digits_len(n: nat, width: nat)
    ensures
        digits(n, width).len() == width,
    decreases width,
{
    if width > 0 {
        lemma_digits_len(n / 256, (width - 1) as nat);
    }
}

proof fn lemma_number_of_digits(n: nat, width: nat)
    requires
        n < word_values(width),
    ensures
        number(digits(n, width)) == n,
    decreases width,
{
    if width > 0 {
        lemma_digits_len(n / 256, (width - 1) as nat);
        lemma_number_of_digits(n / 256, (width - 1) as nat);
        assert(digits(n, width).drop_first() =~= digits(n / 256, (width - 1) as nat));
    }
}

proof fn lemma_digits_of_number(bytes: Seq<u8>)
    ensures
        digits(number(bytes), bytes.len()) == bytes,
    decreases bytes.len(),
{
    if bytes.len() > 0 {
        let rest = number(bytes.drop_first());
        lemma_digits_of_number(bytes.drop_first());
        assert(number(bytes) % 256 == bytes[0] && number(bytes) / 256 == rest);
        assert(digits(number(bytes), bytes.len()) =~= bytes);
    } else {
        assert(digits(number(bytes), bytes.len()) =~= bytes);
    }
}

proof fn lemma_number_bound(bytes: Seq<u8>)
    ensures
        number(bytes) < word_values(bytes.len()),
    decreases bytes.len(),
{
    if bytes.len() > 0 {
        lemma_number_bound(bytes.drop_first());
    }
}

/// A word has exactly the width that it was made with.
pub proof fn word_bytes_len(n: nat, width: nat, order: ByteOrder)
    ensures
        word_bytes(n, width, order).len() == width,
{
    lemma_digits_len(n, width);
}

/// Reading a word gives back the number it was made from, for every number that fits its width.
pub proof fn word_value_of_word_bytes(n: nat, width: nat, order: ByteOrder)
    requires
        n < word_values(width),
    ensures
        word_value(word_bytes(n, width, order), order) == n,
{
    lemma_number_of_digits(n, width);
    assert(digits(n, width).reverse().reverse() =~= digits(n, width));
}

/// Writing the number that a word stands for gives back that word.
pub proof fn word_bytes_of_word_value(bytes: Seq<u8>, order: ByteOrder)
    ensures
        word_bytes(word_value(bytes, order), bytes.len(), order) == bytes,
{
    lemma_digits_of_number(bytes);
    lemma_digits_of_number(bytes.reverse());
    assert(bytes.reverse().reverse() =~= bytes);
}

/// A word never stands for a number that needs a wider one.
pub proof fn word_value_bound(bytes: Seq<u8>, order: ByteOrder)
    ensures
        word_value(bytes, order) < word_values(bytes.len()),
{
    lemma_number_bound(bytes);
    lemma_number_bound(bytes.reverse());
}

/// The number of values of the widths in use.
pub proof fn word_values_of_machine_words()
    ensures
        word_values(1) == 0x100,
        word_values(2) == 0x1_0000,
        word_values(4) == 0x1_0000_0000,
        word_values(8) == 0x1_0000_0000_0000_0000,
{
    reveal_with_fuel(word_values, 9);
}

/// The word of `width` bytes that stands for `n`, of which it keeps the lowest digits.
pub fn encode_word(n: u64, width: usize, order: ByteOrder) -> (bytes: Vec<u8>)
    ensures
        bytes@ == word_bytes(n as nat, width as nat, order),
{
    let mut low_first: Vec<u8> = Vec::new();
    let mut rest: u64 = n;
    let mut i: usize = 0;
    while i < width
        invariant
            i <= width,
            low_first@.len() == i,
            digits(n as nat, width as nat) == low_first@ + digits(rest as nat, (width - i) as nat),
        decreases width - i,
    {
        let ghost before = low_first@;
        low_first.push((rest % 256) as u8);
        proof {
            assert(digits(rest as nat, (width - i) as nat) == seq![(rest % 256) as u8] + digits(
                (rest / 256) as nat,
                (width - i - 1) as nat,
            ));
            assert(low_first@ + digits((rest / 256) as nat, (width - i - 1) as nat) =~= before
                + digits(rest as nat, (width - i) as nat));
        }
        rest = rest / 256;
        i = i + 1;
    }
    assert(low_first@ =~= digits(n as nat, width as nat));
    match order {
        ByteOrder::Little => low_first,
        ByteOrder::Big => {
            let mut high_first: Vec<u8> = Vec::new();
            let mut j: usize = 0;
            while j < width
                invariant
                    j <= width,
                    low_first@.len() == width,
                    high_first@ == low_first@.reverse().take(j as int),
                decreases width - j,
            {
                high_first.push(low_first[width - 1 - j]);
                j = j + 1;
                assert(high_first@ =~= low_first@.reverse().take(j as int));
            }
            assert(high_first@ =~= low_first@.reverse());
            high_first
        },
    }
}

/// The number that a word of at most eight bytes stands for.
pub fn decode_word(bytes: &[u8], order: ByteOrder) -> (n: u64)
    requires
        bytes@.len() <= 8,
    ensures
        n == word_value(bytes@, order),
{
    let width: usize = bytes.len();
    let ghost low_first = match order {
        ByteOrder::Little => bytes@,
        ByteOrder::Big => bytes@.reverse(),
    };
    let mut n: u64 = 0;
    let mut i: usize = width;
    while i > 0
        invariant
            i <= width,
            width == bytes@.len(),
            width <= 8,
            low_first == (match order {
                ByteOrder::Little => bytes@,
                ByteOrder::Big => bytes@.reverse(),
            }),
            n == number(low_first.skip(i as int)),
        decreases i,
    {
        let digit: u8 = match order {
            ByteOrder::Little => bytes[i - 1],
            ByteOrder::Big => bytes[width - i],
        };
        proof {
            let tail = low_first.skip(i - 1);
            assert(tail.drop_first() =~= low_first.skip(i as int));
            assert(tail[0] == digit);
            lemma_number_bound(tail);
            reveal_with_fuel(word_values, 9);
        }
        n = digit as u64 + 256 * n;
        i = i - 1;
    }
    assert(low_first.skip(0) =~= low_first);
    n
}

proof fn lemma_digit(n: nat, width: nat, i: nat)
    requires
        i < width,
    ensures
        digits(n, width).len() == width,
        digits(n, width)[i as int] == (n as int / pow(256, i)) % 256,
    decreases width,
{
    lemma_digits_len(n, width);
    if i == 0 {
        lemma_pow0(256);
    } else {
        let j = (i - 1) as nat;
        lemma_digit(n / 256, (width - 1) as nat, j);
        lemma_pow_adds(256, 1, j);
        lemma_pow1(256);
        lemma_pow_positive(256, j);
        lemma_div_denominator(n as int, 256, pow(256, j));
    }
}

/// The place of a byte in a word says which digit of the number it is, in base 256: counted from the
/// front where the least significant byte comes first, and from the end where it comes last.
pub proof fn words_hold_their_digits(n: nat, width: nat, i: nat)
    requires
        i < width,
    ensures
        word_bytes(n, width, ByteOrder::Little)[i as int] == (n as int / pow(256, i)) % 256,
        word_bytes(n, width, ByteOrder::Big)[width - 1 - i] == (n as int / pow(256, i)) % 256,
{
    lemma_digit(n, width, i);
}

/// A word of `width` bytes takes as many values as `width` bytes can.
pub proof fn word_values_is_a_power(width: nat)
    ensures
        word_values(width) == pow(256, width),
    decreases width,
{
    if width == 0 {
        lemma_pow0(256);
    } else {
        word_values_is_a_power((width - 1) as nat);
        lemma_pow_adds(256, 1, (width - 1) as nat);
        lemma_pow1(256);
    }
}

} // verus!
