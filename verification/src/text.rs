//! Text: comparison, ranges of the source, and the character classes of JavaScript.
use vstd::prelude::*;
use vstd::string::{StrSliceExecFns, StringExecFns};
use vstd::utf8::{
    decode_utf8, decode_utf8_split, encode_utf8, encode_utf8_decode_utf8, encode_utf8_valid_utf8,
    is_char_boundary, is_char_boundary_iff_not_is_continuation_byte,
    is_char_boundary_start_end_of_seq, valid_utf8, valid_utf8_split,
};

use crate::ast::Span;

verus! {

/// Whether two strings hold the same characters.
pub fn same_text(left: &str, right: &str) -> (same: bool)
    ensures
        same == (left@ == right@),
{
    let left_bytes = left.as_bytes();
    let right_bytes = right.as_bytes();
    proof {
        encode_utf8_decode_utf8(left@);
        encode_utf8_decode_utf8(right@);
    }
    if left_bytes.len() != right_bytes.len() {
        return false;
    }
    let mut i: usize = 0;
    while i < left_bytes.len()
        invariant
            i <= left_bytes@.len(),
            left_bytes@.len() == right_bytes@.len(),
            left_bytes@ == encode_utf8(left@),
            right_bytes@ == encode_utf8(right@),
            forall|j: int| 0 <= j < i ==> left_bytes@[j] == right_bytes@[j],
        decreases left_bytes@.len() - i,
    {
        if left_bytes[i] != right_bytes[i] {
            return false;
        }
        i += 1;
    }
    assert(left_bytes@ =~= right_bytes@);
    true
}

/// The characters of `text` between two byte offsets.
pub open spec fn text_between(text: Seq<char>, start: int, end: int) -> Seq<char> {
    decode_utf8(encode_utf8(text).subrange(start, end))
}

/// The text that stands before a byte offset.
pub open spec fn text_before(text: Seq<char>, offset: int) -> Seq<char> {
    text_between(text, 0, offset)
}

/// The text that stands after a byte offset.
pub open spec fn text_after(text: Seq<char>, offset: int) -> Seq<char> {
    text_between(text, offset, encode_utf8(text).len() as int)
}

/// Whether `part` occurs in `text` as it is.
pub open spec fn stands_in(part: Seq<char>, text: Seq<char>) -> bool {
    exists|before: Seq<char>, after: Seq<char>| text == #[trigger] (before + part + after)
}

/// A part of a part is a part of the whole.
pub proof fn part_of_a_part_stands_in(inner: Seq<char>, part: Seq<char>, text: Seq<char>)
    requires
        stands_in(inner, part),
        stands_in(part, text),
    ensures
        stands_in(inner, text),
{
    let (inner_before, inner_after) = choose|before: Seq<char>, after: Seq<char>|
        part == #[trigger] (before + inner + after);
    let (before, after) = choose|before: Seq<char>, after: Seq<char>|
        text == #[trigger] (before + part + after);
    assert(text =~= (before + inner_before) + inner + (inner_after + after));
}

/// A prefix of a text that ends between two characters still has its characters whole.
proof fn prefix_keeps_boundaries(bytes: Seq<u8>, offset: int, end: int)
    requires
        valid_utf8(bytes),
        0 <= offset <= end,
        is_char_boundary(bytes, offset),
        is_char_boundary(bytes, end),
    ensures
        end <= bytes.len(),
        valid_utf8(bytes.subrange(0, end)),
        is_char_boundary(bytes.subrange(0, end), offset),
{
    valid_utf8_split(bytes, end);
    let head = bytes.subrange(0, end);
    if offset == end {
        is_char_boundary_start_end_of_seq(head);
    } else {
        is_char_boundary_iff_not_is_continuation_byte(bytes, offset);
        is_char_boundary_iff_not_is_continuation_byte(head, offset);
    }
}

/// The text between two offsets is that up to an offset between them and that from there on.
proof fn text_splits(text: Seq<char>, start: int, middle: int, end: int)
    requires
        0 <= start <= middle <= end,
        is_char_boundary(encode_utf8(text), start),
        is_char_boundary(encode_utf8(text), middle),
        is_char_boundary(encode_utf8(text), end),
    ensures
        text_between(text, start, end) == text_between(text, start, middle) + text_between(
            text,
            middle,
            end,
        ),
{
    let bytes = encode_utf8(text);
    encode_utf8_valid_utf8(text);
    prefix_keeps_boundaries(bytes, start, end);
    prefix_keeps_boundaries(bytes, middle, end);
    let head = bytes.subrange(0, end);
    valid_utf8_split(head, start);
    let range = bytes.subrange(start, end);
    assert(head.subrange(start, head.len() as int) =~= range);
    if middle == end {
        is_char_boundary_start_end_of_seq(range);
    } else {
        is_char_boundary_iff_not_is_continuation_byte(head, middle);
        is_char_boundary_iff_not_is_continuation_byte(range, middle - start);
    }
    decode_utf8_split(range, middle - start);
    assert(range.subrange(0, middle - start) =~= bytes.subrange(start, middle));
    assert(range.subrange(middle - start, range.len() as int) =~= bytes.subrange(middle, end));
}

/// The text of a span stands in the text of a span that covers it.
pub proof fn covered_text_stands_in(text: Seq<char>, span: Span, inner: Span)
    requires
        span.covers(inner),
        inner.start <= inner.end,
        is_char_boundary(encode_utf8(text), span.start as int),
        is_char_boundary(encode_utf8(text), span.end as int),
        is_char_boundary(encode_utf8(text), inner.start as int),
        is_char_boundary(encode_utf8(text), inner.end as int),
    ensures
        stands_in(
            text_between(text, inner.start as int, inner.end as int),
            text_between(text, span.start as int, span.end as int),
        ),
{
    let (start, end) = (span.start as int, span.end as int);
    let (inner_start, inner_end) = (inner.start as int, inner.end as int);
    text_splits(text, start, inner_start, end);
    text_splits(text, inner_start, inner_end, end);
    let before = text_between(text, start, inner_start);
    let part = text_between(text, inner_start, inner_end);
    let after = text_between(text, inner_end, end);
    assert(text_between(text, start, end) =~= before + part + after);
}

/// The text of `text` inside `span`.
pub fn source_range(text: &str, span: Span) -> (range: String)
    requires
        span.start <= span.end,
        is_char_boundary(encode_utf8(text@), span.start as int),
        is_char_boundary(encode_utf8(text@), span.end as int),
    ensures
        range@ == text_between(text@, span.start as int, span.end as int),
{
    let (head, _) = text.split_at(span.end as usize);
    proof {
        let bytes = encode_utf8(text@);
        encode_utf8_valid_utf8(text@);
        valid_utf8_split(bytes, span.end as int);
        if span.start == span.end {
            is_char_boundary_start_end_of_seq(encode_utf8(head@));
        } else {
            is_char_boundary_iff_not_is_continuation_byte(bytes, span.start as int);
            is_char_boundary_iff_not_is_continuation_byte(encode_utf8(head@), span.start as int);
        }
    }
    let (_, range) = head.split_at(span.start as usize);
    proof {
        let bytes = encode_utf8(text@);
        assert(encode_utf8(range@) =~= bytes.subrange(span.start as int, span.end as int));
        encode_utf8_decode_utf8(range@);
    }
    range.to_owned()
}

/// The last character before a byte offset.
pub open spec fn char_before(text: Seq<char>, offset: int) -> Option<char> {
    last_of(text_before(text, offset))
}

/// The first character after a byte offset.
pub open spec fn char_after(text: Seq<char>, offset: int) -> Option<char> {
    first_of(text_after(text, offset))
}

fn first_char(text: &str) -> (first: Option<char>)
    ensures
        first == first_of(text@),
{
    if text.is_empty() {
        None
    } else {
        Some(text.get_char(0))
    }
}

fn last_char(text: &str) -> (last: Option<char>)
    ensures
        last == last_of(text@),
{
    let len: usize = text.unicode_len();
    if len == 0 {
        None
    } else {
        Some(text.get_char(len - 1))
    }
}

/// The white space of JavaScript apart from line terminators: tab, vertical tab, form feed, the
/// zero width no-break space, and the characters of the Unicode category `Space_Separator`.
pub open spec fn white_space(c: char) -> bool {
    ||| c == '\u{9}'
    ||| c == '\u{b}'
    ||| c == '\u{c}'
    ||| c == '\u{20}'
    ||| c == '\u{a0}'
    ||| c == '\u{1680}'
    ||| '\u{2000}' <= c <= '\u{200a}'
    ||| c == '\u{202f}'
    ||| c == '\u{205f}'
    ||| c == '\u{3000}'
    ||| c == '\u{feff}'
}

/// Line feed, carriage return, line separator and paragraph separator.
pub open spec fn line_terminator(c: char) -> bool {
    c == '\u{a}' || c == '\u{d}' || c == '\u{2028}' || c == '\u{2029}'
}

/// What `String#trim()` removes.
pub open spec fn js_whitespace(c: char) -> bool {
    white_space(c) || line_terminator(c)
}

/// `oxc_syntax::identifier::is_white_space` accepts four characters by name, and all that have
/// the Unicode property `White_Space` but for eight named ones. The contract lists them all.
pub assume_specification[ oxc_syntax::identifier::is_white_space ](c: char) -> (result: bool)
    ensures
        result == white_space(c),
;

/// `oxc_syntax::line_terminator::is_line_terminator` accepts exactly four characters.
pub assume_specification[ oxc_syntax::line_terminator::is_line_terminator ](c: char) -> (result:
    bool)
    ensures
        result == line_terminator(c),
;

/// Whether `String#trim()` removes the character.
pub fn is_js_whitespace(c: char) -> (result: bool)
    ensures
        result == js_whitespace(c),
{
    oxc_syntax::identifier::is_white_space(c) || oxc_syntax::line_terminator::is_line_terminator(c)
}

pub open spec fn starts_with_js_whitespace(text: Seq<char>) -> bool {
    text.len() > 0 && js_whitespace(text.first())
}

pub open spec fn ends_with_js_whitespace(text: Seq<char>) -> bool {
    text.len() > 0 && js_whitespace(text.last())
}

pub fn starts_with_whitespace(text: &str) -> (result: bool)
    ensures
        result == starts_with_js_whitespace(text@),
{
    match first_char(text) {
        Some(c) => is_js_whitespace(c),
        None => false,
    }
}

pub fn ends_with_whitespace(text: &str) -> (result: bool)
    ensures
        result == ends_with_js_whitespace(text@),
{
    match last_char(text) {
        Some(c) => is_js_whitespace(c),
        None => false,
    }
}

/// What `oxc_syntax::identifier::is_identifier_part` returns.
pub uninterp spec fn identifier_part(c: char) -> bool;

/// `oxc_syntax::identifier::is_identifier_part` looks the character up in tables. Among the
/// ASCII characters it accepts letters, digits, `$` and `_`.
pub assume_specification[ oxc_syntax::identifier::is_identifier_part ](c: char) -> (result: bool)
    ensures
        result == identifier_part(c),
        c <= '\u{7f}' ==> result == ('a' <= c <= 'z' || 'A' <= c <= 'Z' || '0' <= c <= '9' || c
            == '$' || c == '_'),
;

pub open spec fn is_some_identifier_part(c: Option<char>) -> bool {
    c matches Some(c) && identifier_part(c)
}

fn check_some_identifier_part(c: Option<char>) -> (result: bool)
    ensures
        result == is_some_identifier_part(c),
{
    match c {
        Some(c) => oxc_syntax::identifier::is_identifier_part(c),
        None => false,
    }
}

/// Whether a token that ends with `left` and a token that starts with `right` would run together.
pub open spec fn tokens_join(left: Option<char>, right: Option<char>) -> bool {
    is_some_identifier_part(left) && is_some_identifier_part(right)
}

pub open spec fn first_of(text: Seq<char>) -> Option<char> {
    if text.len() == 0 {
        None
    } else {
        Some(text.first())
    }
}

pub open spec fn last_of(text: Seq<char>) -> Option<char> {
    if text.len() == 0 {
        None
    } else {
        Some(text.last())
    }
}

/// `replacement`, with a space on each side on which it would run together with the text around
/// `span`.
pub open spec fn padded(source: Seq<char>, span: Span, replacement: Seq<char>) -> Seq<char> {
    let left = if tokens_join(char_before(source, span.start as int), first_of(replacement)) {
        seq![' ']
    } else {
        seq![]
    };
    let right = if tokens_join(last_of(replacement), char_after(source, span.end as int)) {
        seq![' ']
    } else {
        seq![]
    };
    left + replacement + right
}

/// Keeps `replacement` apart from the words that stand before and after `span` in the source.
pub fn pad_fix_with_token_boundary(source_text: &str, span: Span, replacement: &mut String)
    requires
        is_char_boundary(encode_utf8(source_text@), span.start as int),
        is_char_boundary(encode_utf8(source_text@), span.end as int),
    ensures
        final(replacement)@ == padded(source_text@, span, old(replacement)@),
{
    let (before, _) = source_text.split_at(span.start as usize);
    let (_, after) = source_text.split_at(span.end as usize);
    proof {
        encode_utf8_decode_utf8(before@);
        encode_utf8_decode_utf8(after@);
    }
    let pad_left = check_some_identifier_part(last_char(before)) && check_some_identifier_part(
        first_char(replacement.as_str()),
    );
    let pad_right = check_some_identifier_part(last_char(replacement.as_str()))
        && check_some_identifier_part(first_char(after));
    proof {
        reveal_strlit(" ");
        assert(" "@ =~= seq![' ']);
    }
    if pad_left {
        let mut padded: String = " ".to_owned();
        padded.append(replacement.as_str());
        *replacement = padded;
    }
    if pad_right {
        replacement.append(" ");
    }
    assert(replacement@ =~= padded(source_text@, span, old(replacement)@));
}

/// A padded replacement is the replacement with at most one space on each side, and stands apart
/// from the words around it.
pub proof fn padded_replacement_stands_apart(
    source: Seq<char>,
    span: Span,
    replacement: Seq<char>,
)
    ensures
        ({
            let text = padded(source, span, replacement);
            &&& text == replacement || text == seq![' '] + replacement || text == replacement
                + seq![' '] || text == seq![' '] + replacement + seq![' ']
            &&& first_of(text) == Some(' ') || !tokens_join(
                char_before(source, span.start as int),
                first_of(text),
            )
            &&& last_of(text) == Some(' ') || !tokens_join(
                last_of(text),
                char_after(source, span.end as int),
            )
        }),
{
    let text = padded(source, span, replacement);
    let joins_left = tokens_join(char_before(source, span.start as int), first_of(replacement));
    let joins_right = tokens_join(last_of(replacement), char_after(source, span.end as int));
    if joins_left && joins_right {
        assert(text =~= seq![' '] + replacement + seq![' ']);
    } else if joins_left {
        assert(text =~= seq![' '] + replacement);
    } else if joins_right {
        assert(text =~= replacement + seq![' ']);
    } else {
        assert(text =~= replacement);
    }
}

/// A replacement stands in the padded replacement.
pub proof fn replacement_stands_in_padded(source: Seq<char>, span: Span, replacement: Seq<char>)
    ensures
        stands_in(replacement, padded(source, span, replacement)),
{
    let none = Seq::<char>::empty();
    let space = seq![' '];
    padded_replacement_stands_apart(source, span, replacement);
    assert(replacement =~= none + replacement + none);
    assert(space + replacement =~= space + replacement + none);
    assert(replacement + space =~= none + replacement + space);
}

} // verus!
