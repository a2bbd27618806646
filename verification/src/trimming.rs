//! What `String#trim()`, `String#trimStart()` and `String#trimEnd()` give, and when a comparison
//! at one end of a string can see what was trimmed at the other.
use vstd::prelude::*;

use crate::text::{ends_with_js_whitespace, starts_with_js_whitespace};

verus! {

/// `text.trimStart()`.
pub open spec fn trim_start(text: Seq<char>) -> Seq<char>
    decreases text.len(),
{
    if starts_with_js_whitespace(text) {
        trim_start(text.drop_first())
    } else {
        text
    }
}

/// `text.trimEnd()`.
pub open spec fn trim_end(text: Seq<char>) -> Seq<char>
    decreases text.len(),
{
    if ends_with_js_whitespace(text) {
        trim_end(text.drop_last())
    } else {
        text
    }
}

/// `text.trim()`.
pub open spec fn trim(text: Seq<char>) -> Seq<char> {
    trim_end(trim_start(text))
}

/// The method that the rule puts in the place of `trim`.
pub open spec fn trim_one_end(text: Seq<char>, at_start: bool) -> Seq<char> {
    if at_start {
        trim_start(text)
    } else {
        trim_end(text)
    }
}

/// `text.startsWith(search)` or `text.endsWith(search)`.
pub open spec fn matches_at_end(text: Seq<char>, search: Seq<char>, at_start: bool) -> bool {
    if at_start {
        search.is_prefix_of(text)
    } else {
        search.is_suffix_of(text)
    }
}

/// Whether a text has no whitespace at the end that a comparison does not look at.
pub open spec fn is_safe_text(search: Seq<char>, at_start: bool) -> bool {
    if at_start {
        !ends_with_js_whitespace(search)
    } else {
        !starts_with_js_whitespace(search)
    }
}

proof fn trim_end_is_prefix(text: Seq<char>)
    ensures
        trim_end(text).is_prefix_of(text),
        !ends_with_js_whitespace(trim_end(text)),
    decreases text.len(),
{
    if ends_with_js_whitespace(text) {
        trim_end_is_prefix(text.drop_last());
    }
}

proof fn trim_start_is_suffix(text: Seq<char>)
    ensures
        trim_start(text).is_suffix_of(text),
        !starts_with_js_whitespace(trim_start(text)),
    decreases text.len(),
{
    if starts_with_js_whitespace(text) {
        trim_start_is_suffix(text.drop_first());
    }
}

/// A prefix that does not end with whitespace stays when the end is trimmed.
proof fn prefix_survives_trim_end(text: Seq<char>, search: Seq<char>)
    requires
        search.is_prefix_of(text),
        !ends_with_js_whitespace(search),
    ensures
        search.is_prefix_of(trim_end(text)),
    decreases text.len(),
{
    if ends_with_js_whitespace(text) {
        assert(search.len() < text.len()) by {
            if search.len() == text.len() {
                assert(search =~= text);
            }
        }
        assert(search =~= text.drop_last().subrange(0, search.len() as int));
        prefix_survives_trim_end(text.drop_last(), search);
    }
}

/// A suffix that does not start with whitespace stays when the start is trimmed.
proof fn suffix_survives_trim_start(text: Seq<char>, search: Seq<char>)
    requires
        search.is_suffix_of(text),
        !starts_with_js_whitespace(search),
    ensures
        search.is_suffix_of(trim_start(text)),
    decreases text.len(),
{
    if starts_with_js_whitespace(text) {
        assert(search.len() < text.len()) by {
            if search.len() == text.len() {
                assert(search =~= text);
            }
        }
        let rest = text.drop_first();
        assert(search =~= rest.subrange(rest.len() - search.len(), rest.len() as int));
        suffix_survives_trim_start(rest, search);
    }
}

/// Whitespace at the start of a text does not touch the trimming of its end.
proof fn trim_end_after_whitespace(text: Seq<char>)
    requires
        starts_with_js_whitespace(text),
    ensures
        trim_end(text.drop_first()).len() == 0 ==> trim_end(text).len() == 0,
        trim_end(text.drop_first()).len() > 0 ==> trim_end(text) == seq![text.first()] + trim_end(
            text.drop_first(),
        ),
    decreases text.len(),
{
    let rest = text.drop_first();
    if text.len() == 1 {
        trim_end_is_prefix(text.drop_last());
    } else if ends_with_js_whitespace(text) {
        assert(rest.last() == text.last());
        assert(text.drop_last().drop_first() =~= rest.drop_last());
        trim_end_after_whitespace(text.drop_last());
    } else {
        assert(rest.last() == text.last());
        assert(text =~= seq![text.first()] + rest);
    }
}

/// It does not matter which end `trim` looks at first.
pub proof fn trim_order_does_not_matter(text: Seq<char>)
    ensures
        trim(text) == trim_start(trim_end(text)),
    decreases text.len(),
{
    if starts_with_js_whitespace(text) {
        let rest = text.drop_first();
        trim_order_does_not_matter(rest);
        trim_end_after_whitespace(text);
        if trim_end(rest).len() > 0 {
            assert(trim_end(text).drop_first() =~= trim_end(rest));
        }
    } else {
        trim_end_is_prefix(text);
    }
}

/// Trimming twice is trimming once.
pub proof fn trim_is_idempotent(text: Seq<char>)
    ensures
        trim(trim(text)) == trim(text),
{
    trim_order_does_not_matter(text);
    trim_start_is_suffix(trim_end(text));
    trim_end_is_prefix(trim_start(text));
}

/// If the search value has no whitespace at the other end, the whitespace that `trim` removes
/// there does not change the result of the comparison, whatever the string is.
pub proof fn other_end_is_not_observable(text: Seq<char>, search: Seq<char>, at_start: bool)
    requires
        is_safe_text(search, at_start),
    ensures
        matches_at_end(trim(text), search, at_start) == matches_at_end(
            trim_one_end(text, at_start),
            search,
            at_start,
        ),
{
    if at_start {
        let trimmed = trim_start(text);
        trim_end_is_prefix(trimmed);
        if search.is_prefix_of(trimmed) {
            prefix_survives_trim_end(trimmed, search);
        }
        if search.is_prefix_of(trim(text)) {
            assert(search =~= trimmed.subrange(0, search.len() as int));
        }
    } else {
        let trimmed = trim_end(text);
        trim_order_does_not_matter(text);
        trim_start_is_suffix(trimmed);
        if search.is_suffix_of(trimmed) {
            suffix_survives_trim_start(trimmed, search);
        }
        if search.is_suffix_of(trim(text)) {
            assert(search =~= trimmed.subrange(
                trimmed.len() - search.len(),
                trimmed.len() as int,
            ));
        }
    }
}

/// If the search value has whitespace at the other end and none at the end that is compared,
/// some string tells `trim` from the method that trims one end: the search value itself.
pub proof fn other_end_is_observable(search: Seq<char>, at_start: bool)
    requires
        !is_safe_text(search, at_start),
        is_safe_text(search, !at_start),
    ensures
        matches_at_end(trim_one_end(search, at_start), search, at_start),
        !matches_at_end(trim(search), search, at_start),
{
    trim_order_does_not_matter(search);
    if at_start {
        assert(search =~= search.subrange(0, search.len() as int));
        trim_end_is_prefix(search.drop_last());
    } else {
        assert(search =~= search.subrange(0, search.len() as int));
        trim_start_is_suffix(search.drop_first());
    }
}

} // verus!
