//! Laws of the rule on arrays that hold a range.
use vstd::prelude::*;

use crate::ast::{AstKind, IdentifierReference, LintContext, NodeId, Span};
use crate::diagnostic::{DiagnosticView, FixKind};
use crate::double::array_length;
use crate::laws::static_length::{literal_has_its_value, name_without_initializer_has_no_value};
use crate::prefer_array_from_range::{
    copied_iterable, global_array, holds_comment, invalid_length, length_property, loses_comment,
    range_call, range_length, range_number, range_report, single_argument, source_of,
    valid_range_length,
};
use crate::static_length::{length_of, Number, StaticLength};
use crate::text::{
    padded, part_of_a_part_stands_in, replacement_stands_in_padded, stands_in, text_between,
};

verus! {

/// Whether an expression is, in any parentheses, the name `Array` that the program does not declare.
pub open spec fn names_array(ctx: &LintContext, id: NodeId) -> bool {
    ctx.nodes@[ctx.spec_without_parentheses(id) as int].kind matches AstKind::IdentifierReference(
        ident,
    ) && ident.is_global && ident.name@ == "Array"@
}

/// Whether an expression is `Array(length)` or `new Array(length)`, with one argument of any kind
/// but a spread.
pub open spec fn makes_array(ctx: &LintContext, id: NodeId, length: NodeId) -> bool {
    &&& !(ctx.nodes@[length as int].kind is SpreadElement)
    &&& match ctx.nodes@[ctx.spec_inner_expression(id) as int].kind {
        AstKind::CallExpression { callee, arguments, optional: false } => names_array(ctx, callee)
            && arguments@ == seq![length],
        AstKind::NewExpression { callee, arguments } => names_array(ctx, callee) && arguments@
            == seq![length],
        _ => false,
    }
}

/// Whether an expression is `array.keys()`, where `array` makes an array of `length`.
pub open spec fn makes_keys(ctx: &LintContext, id: NodeId, length: NodeId) -> bool {
    &&& ctx.nodes@[ctx.spec_inner_expression(id) as int].kind matches AstKind::CallExpression {
        callee,
        arguments,
        optional: false,
    }
    &&& ctx.nodes@[ctx.spec_without_parentheses(callee) as int].kind matches
        AstKind::StaticMemberExpression { object, property, property_span, optional: false }
    &&& property@ == "keys"@
    &&& arguments@.len() == 0
    &&& makes_array(ctx, object, length)
}

/// Whether a node is `[...range]` or `Array.from(range)`.
pub open spec fn copies(ctx: &LintContext, id: NodeId, range: NodeId) -> bool {
    match ctx.nodes@[id as int].kind {
        AstKind::ArrayExpression { elements } => elements@.len() == 1
            && ctx.nodes@[elements@[0] as int].kind == (AstKind::SpreadElement { argument: range }),
        AstKind::CallExpression { callee, arguments, optional: false } => {
            &&& ctx.nodes@[ctx.spec_without_parentheses(callee) as int].kind matches
                AstKind::StaticMemberExpression {
                object,
                property,
                property_span,
                optional: false,
            }
            &&& property@ == "from"@
            &&& names_array(ctx, object)
            &&& arguments@ == seq![range]
            &&& !(ctx.nodes@[range as int].kind is SpreadElement)
        },
        _ => false,
    }
}

/// Whether a comment starts in a span.
pub open spec fn starts_comment(ctx: &LintContext, comment: int, span: Span) -> bool {
    0 <= comment < ctx.comments@.len() && span.start <= ctx.comments@[comment].start < span.end
}

/// Whether a length is, in any parentheses, a variable of the name `length`, and no comment starts
/// in it.
pub open spec fn takes_shorthand(ctx: &LintContext, length: NodeId) -> bool {
    &&& ctx.nodes@[ctx.spec_without_parentheses(length) as int].kind matches
        AstKind::IdentifierReference(ident)
    &&& ident.name@ == "length"@
    &&& forall|comment: int|
        !#[trigger] starts_comment(ctx, comment, ctx.nodes@[length as int].span)
}

/// The text of a node, as the source has it.
pub open spec fn written(ctx: &LintContext, id: NodeId) -> Seq<char> {
    let span = ctx.nodes@[id as int].span;
    text_between(ctx.source_text@, span.start as int, span.end as int)
}

/// Whether a report is the one for a range of `length` at a node: it points at the node, and its
/// fix, if there is one, puts the call in the place of the node.
pub open spec fn creates_range(
    ctx: &LintContext,
    report: Option<DiagnosticView>,
    id: NodeId,
    length: NodeId,
) -> bool {
    let span = ctx.nodes@[id as int].span;
    let kept = ctx.nodes@[length as int].span;
    &&& report matches Some(diagnostic)
    &&& diagnostic.message == "Prefer `Array.from({length}, …)` when creating range arrays."@
    &&& diagnostic.help == "Use `Array.from({length: …}, (_, index) => index)` instead."@
    &&& diagnostic.span == span
    &&& diagnostic.fix is None <==> exists|comment: int|
        #[trigger] starts_comment(ctx, comment, span) && !(kept.start
            <= ctx.comments@[comment].start && ctx.comments@[comment].end <= kept.end)
    &&& diagnostic.fix matches Some(fix) ==> {
        &&& fix.kind == FixKind::Fix
        &&& fix.span == span
        &&& fix.message is None
        &&& fix.replacement == padded(
            ctx.source_text@,
            span,
            "Array.from({"@ + (if takes_shorthand(ctx, length) {
                "length"@
            } else {
                "length: "@ + written(ctx, length)
            }) + "}, (_, index) => index)"@,
        )
    }
}

/// A node copies an iterable exactly if it is an array of one spread, or a plain call of
/// `Array.from()` with one argument.
pub proof fn copies_are_these(ctx: &LintContext, id: NodeId, range: NodeId)
    requires
        ctx.has(id),
    ensures
        copied_iterable(ctx, id) == Some(range) <==> copies(ctx, id, range),
{
    if let AstKind::CallExpression { arguments, .. } = ctx.spec_kind(id) {
        if arguments@.len() == 1 {
            assert(arguments@ =~= seq![arguments@[0]]);
        }
        if arguments@ == seq![range] {
            assert(arguments@[0] == range);
        }
    }
}

/// An expression is a range exactly if it is a plain call of `keys()` on an array that is made with
/// one argument.
pub proof fn ranges_are_these(ctx: &LintContext, id: NodeId, length: NodeId)
    requires
        ctx.has(id),
    ensures
        range_length(ctx, id) == Some(length) <==> makes_keys(ctx, id, length),
{
    if let AstKind::CallExpression { callee, .. } = ctx.spec_kind(ctx.spec_inner_expression(id)) {
        if let AstKind::StaticMemberExpression { object, .. } = ctx.spec_kind(
            ctx.spec_without_parentheses(callee),
        ) {
            match ctx.spec_kind(ctx.spec_inner_expression(object)) {
                AstKind::CallExpression { arguments, .. }
                | AstKind::NewExpression { arguments, .. } => {
                    if arguments@.len() == 1 {
                        assert(arguments@ =~= seq![arguments@[0]]);
                    }
                    if arguments@ == seq![length] {
                        assert(arguments@[0] == length);
                    }
                },
                _ => {},
            }
        }
    }
}

/// The only argument of a call counts, of whatever kind it is, unless it is a spread. `Array` counts
/// only where the program does not declare it.
pub proof fn one_argument_of_any_kind_counts(
    ctx: &LintContext,
    arguments: Seq<NodeId>,
    id: NodeId,
)
    ensures
        single_argument(ctx, arguments) is Some <==> arguments.len() == 1 && !(
        ctx.nodes@[arguments[0] as int].kind is SpreadElement),
        single_argument(ctx, arguments) matches Some(argument) ==> argument == arguments[0],
        global_array(ctx, id) <==> names_array(ctx, id),
{
}

/// An array that copies a range is reported exactly if its length is a number that is an array
/// length, or nothing is known against it, and the report is the one for that length. A number has
/// to be calculated exactly if the length is one.
pub proof fn copied_range_is_reported(
    ctx: &LintContext,
    id: NodeId,
    range: NodeId,
    length: NodeId,
    value: u64,
)
    requires
        ctx.has(id),
        copies(ctx, id, range),
        makes_keys(ctx, range, length),
    ensures
        range_report(ctx, id, value) is Some <==> match length_of(ctx, length) {
            StaticLength::Number(number) => array_length(value),
            StaticLength::Invalid => false,
            StaticLength::Unknown => true,
        },
        range_report(ctx, id, value) is Some ==> creates_range(
            ctx,
            range_report(ctx, id, value),
            id,
            length,
        ),
        match length_of(ctx, length) {
            StaticLength::Number(number) => range_number(ctx, id) == Some(number),
            _ => range_number(ctx, id) is None,
        },
        valid_range_length(ctx, range, value) == if range_report(ctx, id, value) is Some {
            Some(length)
        } else {
            None
        },
{
    range_is_there(ctx, id, range);
    copies_are_these(ctx, id, range);
    ranges_are_these(ctx, range, length);
    let span = ctx.spec_span(id);
    let kept = ctx.spec_span(length);
    property_is_the_length(ctx, length);
    if loses_comment(ctx, span, kept) {
        let i = choose|i: int|
            0 <= i < ctx.comments@.len() && span.start <= (#[trigger] ctx.comments@[i]).start
                < span.end && !kept.covers(ctx.comments@[i]);
        assert(starts_comment(ctx, i, span));
    }
}

proof fn range_is_there(ctx: &LintContext, id: NodeId, range: NodeId)
    requires
        ctx.has(id),
        copies(ctx, id, range),
    ensures
        ctx.has(range),
{
    match ctx.spec_kind(id) {
        AstKind::ArrayExpression { elements } => {
            assert(ctx.has(elements@[0]));
        },
        AstKind::CallExpression { arguments, .. } => {
            assert(arguments@[0] == range);
        },
        _ => {},
    }
}

proof fn length_is_there(ctx: &LintContext, range: NodeId, length: NodeId)
    requires
        ctx.has(range),
        makes_keys(ctx, range, length),
    ensures
        ctx.has(length),
{
    ctx.lemma_inner_expression(range);
    if let AstKind::CallExpression { callee, .. } = ctx.spec_kind(
        ctx.spec_inner_expression(range),
    ) {
        ctx.lemma_without_parentheses(callee);
        if let AstKind::StaticMemberExpression { object, .. } = ctx.spec_kind(
            ctx.spec_without_parentheses(callee),
        ) {
            ctx.lemma_inner_expression(object);
            match ctx.spec_kind(ctx.spec_inner_expression(object)) {
                AstKind::CallExpression { arguments, .. }
                | AstKind::NewExpression { arguments, .. } => {
                    assert(arguments@[0] == length);
                },
                _ => {},
            }
        }
    }
}

/// Nothing but an array that copies a range is reported, and nothing else needs a number.
pub proof fn only_copied_ranges_are_reported(ctx: &LintContext, id: NodeId, value: u64)
    requires
        ctx.has(id),
        range_report(ctx, id, value) is Some || range_number(ctx, id) is Some,
    ensures
        exists|range: NodeId, length: NodeId|
            copies(ctx, id, range) && #[trigger] makes_keys(ctx, range, length),
{
    let range = copied_iterable(ctx, id)->0;
    let length = range_length(ctx, range)->0;
    copies_are_these(ctx, id, range);
    range_is_there(ctx, id, range);
    ranges_are_these(ctx, range, length);
}

/// A length is `length` alone exactly if it takes the shorthand, and is else written out, whatever
/// it is: a number, a call, or a variable of another name.
pub proof fn property_is_the_length(ctx: &LintContext, length: NodeId)
    ensures
        takes_shorthand(ctx, length) ==> length_property(ctx, length) == "length"@,
        !takes_shorthand(ctx, length) ==> length_property(ctx, length) == "length: "@ + written(
            ctx,
            length,
        ),
        source_of(ctx, length) == written(ctx, length),
{
    let span = ctx.spec_span(length);
    if holds_comment(ctx, span) {
        let i = choose|i: int|
            0 <= i < ctx.comments@.len() && span.start <= (#[trigger] ctx.comments@[i]).start
                < span.end;
        assert(starts_comment(ctx, i, span));
    }
}

/// A fix for a length that is no variable `length` holds `length: ` and then the length as it is
/// written, with or without comments in it.
pub proof fn fix_holds_the_length(
    ctx: &LintContext,
    id: NodeId,
    range: NodeId,
    length: NodeId,
    value: u64,
)
    requires
        ctx.has(id),
        copies(ctx, id, range),
        makes_keys(ctx, range, length),
        match ctx.nodes@[ctx.spec_without_parentheses(length) as int].kind {
            AstKind::IdentifierReference(ident) => ident.name@ != "length"@,
            _ => true,
        },
    ensures
        range_report(ctx, id, value) matches Some(diagnostic) ==> (diagnostic.fix matches Some(fix)
            ==> stands_in("{length: "@ + written(ctx, length) + "}"@, fix.replacement)),
{
    copied_range_is_reported(ctx, id, range, length, value);
    if range_report(ctx, id, value) is Some && range_report(ctx, id, value)->0.fix is Some {
        let part = "{length: "@ + written(ctx, length) + "}"@;
        let call = "Array.from({"@ + ("length: "@ + written(ctx, length))
            + "}, (_, index) => index)"@;
        let replacement = range_report(ctx, id, value)->0.fix->0.replacement;
        reveal_strlit("Array.from({");
        reveal_strlit("{length: ");
        reveal_strlit("length: ");
        reveal_strlit("}, (_, index) => index)");
        reveal_strlit("}");
        let before = "Array.from("@;
        let after = ", (_, index) => index)"@;
        reveal_strlit("Array.from(");
        reveal_strlit(", (_, index) => index)");
        assert("Array.from({"@ =~= before + seq!['{']);
        assert("{length: "@ =~= seq!['{'] + "length: "@);
        assert("}, (_, index) => index)"@ =~= "}"@ + after);
        assert(call =~= before + part + after);
        replacement_stands_in_padded(ctx.source_text@, ctx.spec_span(id), call);
        part_of_a_part_stands_in(part, call, replacement);
    }
}

/// A range whose length is a name that the program declares, but not as a constant with an
/// initializer, is reported, and so is one whose name is nowhere known. There is no number to
/// calculate: a parameter, an import, a function, and a variable that is reassigned, declared twice,
/// destructured or not initialized.
pub proof fn length_that_is_a_name_is_reported(
    ctx: &LintContext,
    id: NodeId,
    range: NodeId,
    length: NodeId,
    ident: IdentifierReference,
    value: u64,
)
    requires
        ctx.has(id),
        copies(ctx, id, range),
        makes_keys(ctx, range, length),
        ctx.nodes@[length as int].kind == AstKind::IdentifierReference(ident),
        !ident.is_global,
        ident.symbol_id matches Some(symbol_id) ==> {
            ||| ctx.symbols@[symbol_id as int].is_mutated
            ||| ctx.symbols@[symbol_id as int].is_redeclared
            ||| match ctx.nodes@[ctx.symbols@[symbol_id as int].declaration as int].kind {
                AstKind::VariableDeclarator { is_binding_identifier, init, .. } =>
                    !is_binding_identifier || init is None,
                _ => true,
            }
        },
    ensures
        range_number(ctx, id) is None,
        creates_range(ctx, range_report(ctx, id, value), id, length),
{
    range_is_there(ctx, id, range);
    length_is_there(ctx, range, length);
    copied_range_is_reported(ctx, id, range, length, value);
    name_without_initializer_has_no_value(ctx, length, ident, seq![], 64);
}

/// A range whose length is a number is reported exactly if the number is an array length.
pub proof fn length_that_is_a_number_is_reported(
    ctx: &LintContext,
    id: NodeId,
    range: NodeId,
    length: NodeId,
    bits: u64,
)
    requires
        ctx.has(id),
        copies(ctx, id, range),
        makes_keys(ctx, range, length),
        ctx.nodes@[length as int].kind == (AstKind::NumericLiteral { bits }),
    ensures
        range_number(ctx, id) == Some(Number::Literal { bits }),
        array_length(bits) ==> creates_range(ctx, range_report(ctx, id, bits), id, length),
        !array_length(bits) ==> range_report(ctx, id, bits) is None,
{
    range_is_there(ctx, id, range);
    length_is_there(ctx, range, length);
    copied_range_is_reported(ctx, id, range, length, bits);
    literal_has_its_value(ctx, length, seq![], 64);
}

/// A length is invalid exactly if it is a number that is no array length, or something is known
/// against it.
pub proof fn invalid_lengths_are_these(ctx: &LintContext, length: NodeId, value: u64)
    requires
        ctx.has(length),
    ensures
        match length_of(ctx, length) {
            StaticLength::Number(number) => invalid_length(ctx, length, value) == !array_length(
                value,
            ),
            StaticLength::Invalid => invalid_length(ctx, length, value),
            StaticLength::Unknown => !invalid_length(ctx, length, value),
        },
{
}

/// The call takes the property that gives the length, and a function that gives the index.
pub proof fn call_is_as_written(property: Seq<char>)
    ensures
        range_call(property) == "Array.from({"@ + property + "}, (_, index) => index)"@,
{
}

} // verus!
