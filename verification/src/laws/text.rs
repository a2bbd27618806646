//! Laws of texts and of the encodings of numbers.
use vstd::arithmetic::power2::{lemma2_to64, lemma2_to64_rest, pow2};
use vstd::prelude::*;
use vstd::utf8::{encode_utf8, encode_utf8_decode_utf8};

use crate::ast::Span;
use crate::double::{
    array_length, denotes, exponent, fraction, large_number_is_no_length, negated, power_cancels,
    power_is_undefined, scale, significand, small_number_is_no_integer, MAXIMUM_ARRAY_LENGTH,
};
use crate::text::{
    char_after, char_before, ends_with_js_whitespace, identifier_part, js_whitespace, padded,
    starts_with_js_whitespace, text_between,
};
use crate::trimming::is_safe_text;

verus! {

/// The encoding of two texts in a row is one encoding after the other.
proof fn encoding_of_texts_in_a_row(left: Seq<char>, right: Seq<char>)
    ensures
        encode_utf8(left + right) == encode_utf8(left) + encode_utf8(right),
    decreases left.len(),
{
    if left.len() == 0 {
        assert(left + right =~= right);
    } else {
        assert((left + right).drop_first() =~= left.drop_first() + right);
        encoding_of_texts_in_a_row(left.drop_first(), right);
    }
}

/// The text between two offsets is what stands there, whatever stands around it.
pub proof fn text_between_is_what_stands_there(
    before: Seq<char>,
    text: Seq<char>,
    after: Seq<char>,
)
    ensures
        ({
            let start = encode_utf8(before).len() as int;
            let end = start + encode_utf8(text).len();
            let source = before + text + after;
            &&& text_between(source, start, end) == text
            &&& char_before(source, end) == if text.len() > 0 {
                Some(text.last())
            } else if before.len() > 0 {
                Some(before.last())
            } else {
                None
            }
            &&& char_after(source, start) == if text.len() > 0 {
                Some(text.first())
            } else if after.len() > 0 {
                Some(after.first())
            } else {
                None
            }
        }),
{
    let start = encode_utf8(before).len() as int;
    let end = start + encode_utf8(text).len();
    let source = before + text + after;
    encoding_of_texts_in_a_row(before + text, after);
    encoding_of_texts_in_a_row(before, text);
    encoding_of_texts_in_a_row(text, after);
    let bytes = encode_utf8(source);
    assert(bytes.subrange(start, end) =~= encode_utf8(text));
    assert(bytes.subrange(0, end) =~= encode_utf8(before + text));
    assert(bytes.subrange(start, bytes.len() as int) =~= encode_utf8(text + after));
    encode_utf8_decode_utf8(text);
    encode_utf8_decode_utf8(before + text);
    encode_utf8_decode_utf8(text + after);
}

/// The whitespace of JavaScript are these characters.
pub proof fn whitespace_is_these_characters(c: char)
    ensures
        js_whitespace(c) <==> {
            let code = c as u32;
            ||| 0x9 <= code <= 0xd
            ||| code == 0x20
            ||| code == 0xa0
            ||| code == 0x1680
            ||| 0x2000 <= code <= 0x200a
            ||| code == 0x2028
            ||| code == 0x2029
            ||| code == 0x202f
            ||| code == 0x205f
            ||| code == 0x3000
            ||| code == 0xfeff
        },
{
}

/// A text starts with whitespace exactly if its first character is one, and ends with whitespace
/// exactly if its last one is. It is safe to search for at an end exactly if it has none at the
/// other end.
pub proof fn whitespace_is_at_the_ends(text: Seq<char>)
    ensures
        starts_with_js_whitespace(text) <==> exists|rest: Seq<char>, c: char|
            text == #[trigger] (seq![c] + rest) && js_whitespace(c),
        ends_with_js_whitespace(text) <==> exists|rest: Seq<char>, c: char|
            text == #[trigger] (rest + seq![c]) && js_whitespace(c),
        is_safe_text(text, true) <==> (text.len() > 0 ==> !js_whitespace(text[text.len() - 1])),
        is_safe_text(text, false) <==> (text.len() > 0 ==> !js_whitespace(text[0])),
{
    if starts_with_js_whitespace(text) {
        assert(text =~= seq![text.first()] + text.drop_first());
    }
    if ends_with_js_whitespace(text) {
        assert(text =~= text.drop_last() + seq![text.last()]);
    }
}

/// A replacement gets a space on a side exactly if both characters that would meet there can be
/// parts of a word, and is else as it was.
pub proof fn space_is_put_exactly_between_words(
    source: Seq<char>,
    span: Span,
    replacement: Seq<char>,
)
    requires
        replacement.len() > 0,
    ensures
        ({
            let text = padded(source, span, replacement);
            let left = char_before(source, span.start as int) matches Some(c) && identifier_part(c)
                && identifier_part(replacement[0]);
            let right = char_after(source, span.end as int) matches Some(c) && identifier_part(c)
                && identifier_part(replacement[replacement.len() - 1]);
            let from: int = if left {
                1
            } else {
                0
            };
            &&& text.len() == from + replacement.len() + if right {
                1int
            } else {
                0
            }
            &&& left ==> text[0] == ' '
            &&& right ==> text[text.len() - 1] == ' '
            &&& text.subrange(from, from + replacement.len()) == replacement
        }),
{
    let text = padded(source, span, replacement);
    let left = char_before(source, span.start as int) matches Some(c) && identifier_part(c)
        && identifier_part(replacement[0]);
    let from: int = if left {
        1
    } else {
        0
    };
    assert(text.subrange(from, from + replacement.len()) =~= replacement);
}

/// An array length is a zero, or an integer `n` up to the largest length, encoded with the shift
/// that puts its highest bit in front of the fraction.
pub proof fn array_lengths_are_the_encoded_integers(bits: u64)
    ensures
        array_length(bits) <==> bits == 0 || bits == 0x8000_0000_0000_0000 || exists|
            n: nat,
            shift: nat,
        |
            #![trigger encodes(bits, n, shift)]
            1 <= n <= 4_294_967_295 && encodes(bits, n, shift),
{
    lemma2_to64();
    lemma2_to64_rest();
    if bits == 0 || bits == 0x8000_0000_0000_0000 {
        assert(denotes(bits, 0));
    } else {
        if array_length(bits) {
            let n = choose|n: nat| n <= MAXIMUM_ARRAY_LENGTH && #[trigger] denotes(bits, n);
            let factor = significand(bits);
            assert(factor > 0);
            if exponent(bits) == 0 {
                power_cancels(factor, n, 1, 1074);
                small_number_is_no_integer(factor, n, 1074);
            } else if exponent(bits) < 1023 {
                let difference = (1075 - exponent(bits)) as nat;
                power_cancels(factor, n, exponent(bits), difference);
                small_number_is_no_integer(factor, n, difference);
            } else if exponent(bits) > 1054 {
                large_number_is_no_length(bits, n);
            } else {
                let shift = (1075 - exponent(bits)) as nat;
                power_cancels(factor, n, exponent(bits), shift);
                assert(n != 0) by {
                    assert(0 * pow2(shift) == 0);
                }
                assert(encodes(bits, n, shift));
            }
        }
        if exists|n: nat, shift: nat|
            #![trigger encodes(bits, n, shift)]
            1 <= n <= 4_294_967_295 && encodes(bits, n, shift) {
            let (n, shift) = choose|n: nat, shift: nat|
                #![trigger encodes(bits, n, shift)]
                1 <= n <= 4_294_967_295 && encodes(bits, n, shift);
            assert(exponent(bits) == 1075 - shift);
            assert(fraction(bits) == n * pow2(shift) - 0x10_0000_0000_0000);
            assert(scale(bits) == 1075 - shift);
            power_cancels(significand(bits), n, (1075 - shift) as nat, shift);
            assert(denotes(bits, n));
        }
    }
}

/// Whether `bits` is made of the integer `n`, shifted to fill the 53 bits of a significand, and of
/// the exponent for that shift.
pub open spec fn encodes(bits: u64, n: nat, shift: nat) -> bool {
    &&& shift <= 52
    &&& 0x10_0000_0000_0000 <= n * pow2(shift) < 0x20_0000_0000_0000
    &&& bits == (1075 - shift) * 0x10_0000_0000_0000 + (n * pow2(shift) - 0x10_0000_0000_0000)
}

/// Negation changes the highest bit, and no other.
pub proof fn negation_changes_the_highest_bit(bits: u64)
    ensures
        negated(bits) % 0x8000_0000_0000_0000 == bits % 0x8000_0000_0000_0000,
        negated(bits) >= 0x8000_0000_0000_0000 <==> bits < 0x8000_0000_0000_0000,
{
}

/// A power is undefined exactly if its right operand lies beyond the infinities, or is one of them
/// while the left operand is 1 or -1.
pub proof fn undefined_powers_are_these(left: u64, right: u64)
    ensures
        power_is_undefined(left, right) <==> right % 0x8000_0000_0000_0000 > 0x7ff0_0000_0000_0000
            || (right % 0x8000_0000_0000_0000 == 0x7ff0_0000_0000_0000 && (left
            == 0x3ff0_0000_0000_0000 || left == 0xbff0_0000_0000_0000)),
{
}

} // verus!
