//! Prefer `Array.from({length}, …)` when creating range arrays.
//!
//! `[...Array(length).keys()]` creates a sparse array and an iterator only to copy the iterator
//! into a second array. `Array.from({length}, (_, index) => index)` states the intent directly.
//!
//! A length that is a known number is checked against the array lengths that JavaScript allows.
//! [`PreferArrayFromRange::number`] gives the number as a calculation with doubles, and
//! [`PreferArrayFromRange::run`] takes its outcome. [`PreferArrayFromRange::run_with`] does both,
//! given the arithmetic of doubles.
use vstd::prelude::*;
use vstd::string::StringExecFns;

use crate::ast::{span_is_well_formed, AstKind, LintContext, NodeId, Span};
use crate::diagnostic::{reports, Diagnostic, DiagnosticView, Fix, FixKind, FixView};
use crate::double::{
    array_length, is_array_length, negative_number_is_no_length, special_values_are_no_lengths,
};
use crate::static_length::{
    encoding, evaluate, evaluates_to, get_encoding, known_encoding_is_the_value, length_of,
    static_length, ArithmeticOperator, Number, StaticLength,
};
use crate::text::{
    covered_text_stands_in, pad_fix_with_token_boundary, padded, part_of_a_part_stands_in,
    replacement_stands_in_padded, same_text, source_range, stands_in, text_between,
};

verus! {

/// The rule.
#[derive(Debug, Default, Clone)]
pub struct PreferArrayFromRange;

/// Whether the expression is the global `Array`.
pub open spec fn global_array(ctx: &LintContext, id: NodeId) -> bool {
    ctx.spec_kind(ctx.spec_without_parentheses(id)) matches AstKind::IdentifierReference(ident)
        && ident.name@ == "Array"@ && ident.is_global
}

pub fn is_global_array(expr: NodeId, ctx: &LintContext) -> (r: bool)
    requires
        ctx.has(expr),
    ensures
        r == global_array(ctx, expr),
{
    match ctx.kind(ctx.without_parentheses(expr)) {
        AstKind::IdentifierReference(ident) => same_text(ident.name.as_str(), "Array")
            && ident.is_global,
        _ => false,
    }
}

/// The only argument of a call, if it is no spread.
pub open spec fn single_argument(ctx: &LintContext, arguments: Seq<NodeId>) -> Option<NodeId> {
    if arguments.len() == 1 && !(ctx.spec_kind(arguments[0]) is SpreadElement) {
        Some(arguments[0])
    } else {
        None
    }
}

fn get_single_argument(arguments: &Vec<NodeId>, ctx: &LintContext) -> (r: Option<NodeId>)
    requires
        ctx.wf(),
        forall|i: int| 0 <= i < arguments@.len() ==> #[trigger] arguments@[i] < ctx.nodes@.len(),
    ensures
        r == single_argument(ctx, arguments@),
        r matches Some(argument) ==> ctx.has(argument),
{
    if arguments.len() != 1 {
        return None;
    }
    match ctx.kind(arguments[0]) {
        AstKind::SpreadElement { .. } => None,
        _ => Some(arguments[0]),
    }
}

/// The iterable that a node copies into an array: `range` in `[...range]` or `Array.from(range)`.
pub open spec fn copied_iterable(ctx: &LintContext, id: NodeId) -> Option<NodeId> {
    match ctx.spec_kind(id) {
        AstKind::ArrayExpression { elements } => if elements@.len() == 1 {
            match ctx.spec_kind(elements@[0]) {
                AstKind::SpreadElement { argument } => Some(argument),
                _ => None,
            }
        } else {
            None
        },
        AstKind::CallExpression { callee, arguments, optional } => match ctx.spec_kind(
            ctx.spec_without_parentheses(callee),
        ) {
            AstKind::StaticMemberExpression {
                object,
                property,
                property_span,
                optional: member_optional,
            } => if !optional && !member_optional && property@ == "from"@ && global_array(
                ctx,
                object,
            ) {
                single_argument(ctx, arguments@)
            } else {
                None
            },
            _ => None,
        },
        _ => None,
    }
}

fn get_copied_iterable(node: NodeId, ctx: &LintContext) -> (r: Option<NodeId>)
    requires
        ctx.has(node),
    ensures
        r == copied_iterable(ctx, node),
        r matches Some(range) ==> ctx.has(range),
{
    match ctx.kind(node) {
        AstKind::ArrayExpression { elements } => {
            if elements.len() != 1 {
                return None;
            }
            match ctx.kind(elements[0]) {
                AstKind::SpreadElement { argument } => Some(*argument),
                _ => None,
            }
        },
        AstKind::CallExpression { callee, arguments, optional } => match ctx.kind(
            ctx.without_parentheses(*callee),
        ) {
            AstKind::StaticMemberExpression {
                object,
                property,
                optional: member_optional,
                ..
            } => {
                if *optional || *member_optional || !same_text(property.as_str(), "from")
                    || !is_global_array(*object, ctx) {
                    return None;
                }
                get_single_argument(arguments, ctx)
            },
            _ => None,
        },
        _ => None,
    }
}

/// The length argument of `Array(length).keys()` or `new Array(length).keys()`.
pub open spec fn range_length(ctx: &LintContext, id: NodeId) -> Option<NodeId> {
    if let AstKind::CallExpression { callee, arguments, optional } = ctx.spec_kind(
        ctx.spec_inner_expression(id),
    ) {
        if let AstKind::StaticMemberExpression {
            object,
            property,
            property_span,
            optional: member_optional,
        } = ctx.spec_kind(ctx.spec_without_parentheses(callee)) {
            if optional || arguments@.len() != 0 || member_optional || property@ != "keys"@ {
                None
            } else {
                match ctx.spec_kind(ctx.spec_inner_expression(object)) {
                    AstKind::CallExpression { callee, arguments, optional } => if !optional
                        && global_array(ctx, callee) {
                        single_argument(ctx, arguments@)
                    } else {
                        None
                    },
                    AstKind::NewExpression { callee, arguments } => if global_array(ctx, callee) {
                        single_argument(ctx, arguments@)
                    } else {
                        None
                    },
                    _ => None,
                }
            }
        } else {
            None
        }
    } else {
        None
    }
}

fn get_range_length(expr: NodeId, ctx: &LintContext) -> (r: Option<NodeId>)
    requires
        ctx.has(expr),
    ensures
        r == range_length(ctx, expr),
        r matches Some(length) ==> ctx.has(length),
{
    let (keys_callee, keys_arguments, keys_optional) = match ctx.kind(
        ctx.get_inner_expression(expr),
    ) {
        AstKind::CallExpression { callee, arguments, optional } => (*callee, arguments, *optional),
        _ => return None,
    };
    let (object, property, member_optional) = match ctx.kind(
        ctx.without_parentheses(keys_callee),
    ) {
        AstKind::StaticMemberExpression { object, property, optional, .. } => (
            *object,
            property.as_str(),
            *optional,
        ),
        _ => return None,
    };
    if keys_optional || keys_arguments.len() != 0 || member_optional || !same_text(
        property,
        "keys",
    ) {
        return None;
    }
    let (callee, arguments) = match ctx.kind(ctx.get_inner_expression(object)) {
        AstKind::CallExpression { callee, arguments, optional } => {
            if *optional {
                return None;
            }
            (*callee, arguments)
        },
        AstKind::NewExpression { callee, arguments } => (*callee, arguments),
        _ => return None,
    };
    if is_global_array(callee, ctx) {
        get_single_argument(arguments, ctx)
    } else {
        None
    }
}

/// Whether `Array.from({length})` could behave differently from `Array(length)`. For a length
/// that is a known number, `value` is the encoding of that number.
pub open spec fn invalid_length(ctx: &LintContext, length: NodeId, value: u64) -> bool {
    match length_of(ctx, length) {
        StaticLength::Number(number) => !array_length(value),
        StaticLength::Invalid => true,
        StaticLength::Unknown => false,
    }
}

/// Whether `Array.from({length})` could behave differently from `Array(length)`, because
/// `length` is not a valid array length or reads a member. A getter can hide the real value
/// of a member, as in `Object.defineProperty(object, 'value', {get() { … }})`.
pub fn has_invalid_static_length(length: NodeId, ctx: &LintContext, value: u64) -> (r:
    bool)
    requires
        ctx.has(length),
    ensures
        r == invalid_length(ctx, length, value),
{
    match static_length(length, ctx) {
        StaticLength::Number(_) => !is_array_length(value),
        StaticLength::Invalid => true,
        StaticLength::Unknown => false,
    }
}

/// The length argument of a range, unless it is invalid.
pub open spec fn valid_range_length(
    ctx: &LintContext,
    id: NodeId,
    value: u64,
) -> Option<NodeId> {
    match range_length(ctx, id) {
        Some(length) => if invalid_length(ctx, length, value) {
            None
        } else {
            Some(length)
        },
        None => None,
    }
}

/// The length argument of `Array(length).keys()` or `new Array(length).keys()`, unless it is
/// invalid.
pub fn array_range_length(expr: NodeId, ctx: &LintContext, value: u64) -> (r: Option<
    NodeId,
>)
    requires
        ctx.has(expr),
    ensures
        r == valid_range_length(ctx, expr, value),
        r matches Some(length) ==> ctx.has(length),
{
    match get_range_length(expr, ctx) {
        Some(length) => {
            if has_invalid_static_length(length, ctx, value) {
                None
            } else {
                Some(length)
            }
        },
        None => None,
    }
}

/// Whether a comment starts inside `span` and does not lie inside `kept`.
pub open spec fn loses_comment(ctx: &LintContext, span: Span, kept: Span) -> bool {
    exists|i: int|
        0 <= i < ctx.comments@.len() && span.start <= (#[trigger] ctx.comments@[i]).start
            < span.end && !kept.covers(ctx.comments@[i])
}

fn check_loses_comment(ctx: &LintContext, span: Span, kept: Span) -> (r: bool)
    requires
        ctx.wf(),
        kept.start <= kept.end,
    ensures
        r == loses_comment(ctx, span, kept),
{
    let mut i: usize = 0;
    while i < ctx.comments.len()
        invariant
            i <= ctx.comments@.len(),
            ctx.wf(),
            kept.start <= kept.end,
            forall|j: int|
                0 <= j < i ==> !(span.start <= (#[trigger] ctx.comments@[j]).start < span.end
                    && !kept.covers(ctx.comments@[j])),
        decreases ctx.comments@.len() - i,
    {
        let comment = ctx.comments[i];
        if span.start <= comment.start && comment.start < span.end && !kept.contains_inclusive(
            comment,
        ) {
            assert(!kept.covers(ctx.comments@[i as int]));
            return true;
        }
        i += 1;
    }
    false
}

/// Whether a comment starts inside `span`.
pub open spec fn holds_comment(ctx: &LintContext, span: Span) -> bool {
    exists|i: int|
        0 <= i < ctx.comments@.len() && span.start <= (#[trigger] ctx.comments@[i]).start < span.end
}

fn check_holds_comment(ctx: &LintContext, span: Span) -> (r: bool)
    ensures
        r == holds_comment(ctx, span),
{
    let mut i: usize = 0;
    while i < ctx.comments.len()
        invariant
            i <= ctx.comments@.len(),
            forall|j: int|
                0 <= j < i ==> !(span.start <= (#[trigger] ctx.comments@[j]).start < span.end),
        decreases ctx.comments@.len() - i,
    {
        let comment = ctx.comments[i];
        if span.start <= comment.start && comment.start < span.end {
            assert(span.start <= ctx.comments@[i as int].start < span.end);
            return true;
        }
        i += 1;
    }
    false
}

/// The source text of a node.
pub open spec fn source_of(ctx: &LintContext, id: NodeId) -> Seq<char> {
    text_between(
        ctx.source_text@,
        ctx.spec_span(id).start as int,
        ctx.spec_span(id).end as int,
    )
}

/// The property that gives the length: `length` alone where a variable of that name holds it and
/// no comment stands in the parentheses around it, and else the source of the length.
pub open spec fn length_property(ctx: &LintContext, length: NodeId) -> Seq<char> {
    let inner = ctx.spec_kind(ctx.spec_without_parentheses(length));
    let is_length = inner matches AstKind::IdentifierReference(ident) && ident.name@ == "length"@;
    if is_length && !holds_comment(ctx, ctx.spec_span(length)) {
        "length"@
    } else {
        "length: "@ + source_of(ctx, length)
    }
}

fn get_length_property(length: NodeId, ctx: &LintContext) -> (property: String)
    requires
        ctx.has(length),
    ensures
        property@ == length_property(ctx, length),
{
    let is_length = match ctx.kind(ctx.without_parentheses(length)) {
        AstKind::IdentifierReference(ident) => same_text(ident.name.as_str(), "length"),
        _ => false,
    };
    // The shorthand drops the parentheses around the name, and with them any comment inside.
    if is_length && !check_holds_comment(ctx, ctx.span(length)) {
        "length".to_owned()
    } else {
        let source = source_range(ctx.source_text.as_str(), ctx.span(length));
        "length: ".to_owned().concat(source.as_str())
    }
}

/// The call that creates the range directly.
pub open spec fn range_call(property: Seq<char>) -> Seq<char> {
    "Array.from({"@ + property + "}, (_, index) => index)"@
}

/// The diagnostic for a range array at `span`. Of the replaced code the fix keeps the length only,
/// with the comments in it, so there is no fix where another comment would be lost.
pub open spec fn range_diagnostic(ctx: &LintContext, span: Span, length: NodeId) -> DiagnosticView {
    DiagnosticView {
        message: "Prefer `Array.from({length}, …)` when creating range arrays."@,
        help: "Use `Array.from({length: …}, (_, index) => index)` instead."@,
        span,
        fix: if loses_comment(ctx, span, ctx.spec_span(length)) {
            None
        } else {
            Some(
                FixView {
                    kind: FixKind::Fix,
                    span,
                    replacement: padded(
                        ctx.source_text@,
                        span,
                        range_call(length_property(ctx, length)),
                    ),
                    message: None,
                },
            )
        },
    }
}

/// The range that a node copies into an array, as its length argument.
pub open spec fn range_of(ctx: &LintContext, id: NodeId) -> Option<NodeId> {
    match copied_iterable(ctx, id) {
        Some(range) => range_length(ctx, range),
        None => None,
    }
}

/// The number that has to be calculated before a node can be reported, as the calculation that
/// gives it.
pub open spec fn range_number(ctx: &LintContext, id: NodeId) -> Option<Number> {
    match range_of(ctx, id) {
        Some(length) => match length_of(ctx, length) {
            StaticLength::Number(number) => Some(number),
            _ => None,
        },
        None => None,
    }
}

/// What the rule reports at a node. Where [`range_number`] gives a number, `value` is its encoding.
pub open spec fn range_report(
    ctx: &LintContext,
    id: NodeId,
    value: u64,
) -> Option<DiagnosticView> {
    match range_of(ctx, id) {
        Some(length) => if invalid_length(ctx, length, value) {
            None
        } else {
            Some(range_diagnostic(ctx, ctx.spec_span(id), length))
        },
        None => None,
    }
}

fn prefer_array_from_range_diagnostic(span: Span, fix: Option<Fix>) -> (diagnostic: Diagnostic)
    ensures
        diagnostic@.message == "Prefer `Array.from({length}, …)` when creating range arrays."@,
        diagnostic@.help == "Use `Array.from({length: …}, (_, index) => index)` instead."@,
        diagnostic@.span == span,
        diagnostic.fix == fix,
{
    Diagnostic {
        message: "Prefer `Array.from({length}, …)` when creating range arrays.".to_owned(),
        help: "Use `Array.from({length: …}, (_, index) => index)` instead.".to_owned(),
        span,
        fix,
    }
}

impl PreferArrayFromRange {
    /// The number that has to be calculated before the node `node` of `ctx` can be reported.
    pub fn number(&self, node: NodeId, ctx: &LintContext) -> (number: Option<Number>)
        requires
            ctx.has(node),
        ensures
            number == range_number(ctx, node),
    {
        let range: NodeId = match get_copied_iterable(node, ctx) {
            Some(range) => range,
            None => return None,
        };
        match get_range_length(range, ctx) {
            Some(length) => match static_length(length, ctx) {
                StaticLength::Number(number) => Some(number),
                _ => None,
            },
            None => None,
        }
    }

    /// Checks the node `node` of `ctx`. `value` is the encoding of what [`Self::number`] gives. It
    /// is not read where there is no number.
    pub fn run(&self, node: NodeId, ctx: &LintContext, value: u64) -> (diagnostic: Option<
        Diagnostic,
    >)
        requires
            ctx.has(node),
        ensures
            reports(diagnostic, range_report(ctx, node, value)),
            diagnostic matches Some(diagnostic) ==> span_is_well_formed(
                diagnostic.span,
                ctx.source_text@,
            ),
    {
        let range: NodeId = match get_copied_iterable(node, ctx) {
            Some(range) => range,
            None => return None,
        };
        let length: NodeId = match array_range_length(range, ctx, value) {
            Some(length) => length,
            None => return None,
        };
        let span = ctx.span(node);
        // Of the replaced code the fix keeps the length only, so any other comment would be lost.
        if check_loses_comment(ctx, span, ctx.span(length)) {
            return Some(prefer_array_from_range_diagnostic(span, None));
        }
        let property = get_length_property(length, ctx);
        let mut replacement = "Array.from({".to_owned().concat(property.as_str()).concat(
            "}, (_, index) => index)",
        );
        pad_fix_with_token_boundary(ctx.source_text.as_str(), span, &mut replacement);
        let fix = Fix { kind: FixKind::Fix, span, replacement, message: None };
        Some(prefer_array_from_range_diagnostic(span, Some(fix)))
    }

    /// Checks the node `node` of `ctx`. `calculate` gives what one operation on two doubles gives,
    /// all three by their encodings. It is not called for a length without arithmetic.
    pub fn run_with<F: Fn(ArithmeticOperator, u64, u64) -> u64>(
        &self,
        node: NodeId,
        ctx: &LintContext,
        calculate: &F,
    ) -> (diagnostic: Option<Diagnostic>)
        requires
            ctx.has(node),
            forall|operator: ArithmeticOperator, left: u64, right: u64|
                call_requires(*calculate, (operator, left, right)),
        ensures
            match range_number(ctx, node) {
                Some(number) => exists|value: u64|
                    evaluates_to(
                        |operator: ArithmeticOperator, left: u64, right: u64, result: u64|
                            call_ensures(*calculate, (operator, left, right), result),
                        number,
                        value,
                    ) && reports(diagnostic, #[trigger] range_report(ctx, node, value)),
                None => forall|value: u64|
                    reports(diagnostic, #[trigger] range_report(ctx, node, value)),
            },
            range_number(ctx, node) matches Some(number) ==> (encoding(number) matches Some(bits)
                ==> reports(diagnostic, range_report(ctx, node, bits))),
    {
        let value: u64 = match self.number(node, ctx) {
            Some(number) => match get_encoding(&number) {
                Some(bits) => {
                    proof {
                        known_encoding_is_the_value(
                            |operator: ArithmeticOperator, left: u64, right: u64, result: u64|
                                call_ensures(*calculate, (operator, left, right), result),
                            number,
                            bits,
                        );
                    }
                    bits
                },
                None => evaluate(&number, calculate),
            },
            None => 0,
        };
        proof {
            if range_number(ctx, node) is None {
                assert forall|other: u64| #[trigger]
                    range_report(ctx, node, other) == range_report(ctx, node, value) by {
                    number_decides(ctx, node, value, other);
                }
            }
        }
        self.run(node, ctx, value)
    }
}

/// Where the length is no known number, the value of a number is not read. Where it is one, it is
/// reported exactly if its value is an array length.
pub proof fn number_decides(ctx: &LintContext, id: NodeId, value: u64, other: u64)
    requires
        ctx.has(id),
    ensures
        range_number(ctx, id) is None ==> range_report(ctx, id, value) == range_report(
            ctx,
            id,
            other,
        ),
        range_number(ctx, id) is Some ==> (range_report(ctx, id, value) is Some) == array_length(
            value,
        ),
{
}

/// A number without arithmetic needs no calculation: it is reported exactly if its encoding is that
/// of an array length.
pub proof fn number_without_arithmetic_is_settled(ctx: &LintContext, id: NodeId, bits: u64)
    requires
        ctx.has(id),
        range_number(ctx, id) matches Some(number) && encoding(number) == Some(bits),
    ensures
        (range_report(ctx, id, bits) is Some) == array_length(bits),
{
}

/// A negated literal other than 0, as in `Array(-1)`, is not reported, and neither are `NaN`,
/// `Infinity` and `-Infinity`.
pub proof fn numbers_out_of_range_are_not_reported(ctx: &LintContext, id: NodeId, number: Number)
    requires
        ctx.has(id),
        range_number(ctx, id) == Some(number),
        match number {
            Number::Negation(value) => match *value {
                Number::Literal { bits } => 0 < bits < 0x8000_0000_0000_0000,
                Number::Infinity => true,
                _ => false,
            },
            Number::NaN | Number::Infinity => true,
            _ => false,
        },
    ensures
        encoding(number) matches Some(bits) && range_report(ctx, id, bits) is None,
{
    reveal_with_fuel(encoding, 2);
    special_values_are_no_lengths();
    match number {
        Number::Negation(value) => match *value {
            Number::Literal { bits } => negative_number_is_no_length(bits),
            _ => {},
        },
        _ => {},
    }
}

/// A length that is known to be no array length, that reads a member, or that takes too many hops
/// to know, is not reported.
pub proof fn invalid_lengths_are_not_reported(
    ctx: &LintContext,
    id: NodeId,
    value: u64,
)
    requires
        ctx.has(id),
        range_of(ctx, id) matches Some(length) && length_of(ctx, length) is Invalid,
    ensures
        range_report(ctx, id, value) is None,
{
}

/// A fix loses no comment: each comment in the replaced code lies in the length, and the source of
/// the length stands in the replacement, and so does the comment. There is no fix exactly where a
/// comment in the replaced code lies outside the length; the code is still reported then.
pub proof fn fix_loses_no_comment(
    ctx: &LintContext,
    id: NodeId,
    value: u64,
    comment: int,
)
    requires
        ctx.has(id),
        0 <= comment < ctx.comments@.len(),
        ctx.spec_span(id).start <= ctx.comments@[comment].start < ctx.spec_span(id).end,
        range_report(ctx, id, value) is Some,
    ensures
        ({
            let span = ctx.comments@[comment];
            let text = text_between(ctx.source_text@, span.start as int, span.end as int);
            &&& range_of(ctx, id) matches Some(length)
            &&& range_report(ctx, id, value) matches Some(diagnostic)
            &&& diagnostic.fix is None == loses_comment(
                ctx,
                ctx.spec_span(id),
                ctx.spec_span(length),
            )
            &&& diagnostic.fix matches Some(fix) ==> {
                &&& ctx.spec_span(length).covers(span)
                &&& stands_in(source_of(ctx, length), fix.replacement)
                &&& stands_in(text, fix.replacement)
            }
        }),
{
    let span = ctx.comments@[comment];
    let length = range_of(ctx, id)->0;
    range_length_is_in_range(ctx, id);
    if !loses_comment(ctx, ctx.spec_span(id), ctx.spec_span(length)) {
        let source = source_of(ctx, length);
        let property = length_property(ctx, length);
        let call = range_call(property);
        let replacement = padded(ctx.source_text@, ctx.spec_span(id), call);
        assert(ctx.spec_span(length).covers(span));
        assert(holds_comment(ctx, ctx.spec_span(length)));
        assert(call =~= ("Array.from({"@ + "length: "@) + source + "}, (_, index) => index)"@);
        replacement_stands_in_padded(ctx.source_text@, ctx.spec_span(id), call);
        part_of_a_part_stands_in(source, call, replacement);
        covered_text_stands_in(ctx.source_text@, ctx.spec_span(length), span);
        part_of_a_part_stands_in(
            text_between(ctx.source_text@, span.start as int, span.end as int),
            source,
            replacement,
        );
    }
}

proof fn range_length_is_in_range(ctx: &LintContext, id: NodeId)
    requires
        ctx.has(id),
    ensures
        range_of(ctx, id) matches Some(length) ==> ctx.has(length) && ctx.spec_span(id).covers(
            ctx.spec_span(length),
        ),
{
    match ctx.spec_kind(id) {
        AstKind::ArrayExpression { elements } => {
            if elements@.len() == 1 {
                ctx.lemma_enclosed_part(id, 0);
                if ctx.spec_kind(elements@[0]) is SpreadElement {
                    ctx.lemma_enclosed_part(elements@[0], 0);
                }
            }
        },
        AstKind::CallExpression { callee, arguments, .. } => {
            ctx.lemma_without_parentheses(callee);
            if arguments@.len() == 1 {
                ctx.lemma_enclosed_part(id, 0);
            }
        },
        _ => {},
    }
    if let Some(range) = copied_iterable(ctx, id) {
        ctx.lemma_inner_expression(range);
        let keys_call = ctx.spec_inner_expression(range);
        if let AstKind::CallExpression { callee, arguments, .. } = ctx.spec_kind(keys_call) {
            ctx.lemma_enclosed_part(keys_call, arguments@.len() as int);
            ctx.lemma_without_parentheses(callee);
            let member = ctx.spec_without_parentheses(callee);
            if let AstKind::StaticMemberExpression { object, .. } = ctx.spec_kind(member) {
                ctx.lemma_enclosed_part(member, 0);
                ctx.lemma_inner_expression(object);
                let array = ctx.spec_inner_expression(object);
                match ctx.spec_kind(array) {
                    AstKind::CallExpression { arguments, .. }
                    | AstKind::NewExpression { arguments, .. } => {
                        if arguments@.len() == 1 {
                            ctx.lemma_enclosed_part(array, 0);
                        }
                    },
                    _ => {},
                }
            }
        }
    }
}

/// Code without a comment gets a fix, and where its length is a variable `length`, the shorthand.
pub proof fn code_without_comment_is_fixed(ctx: &LintContext, id: NodeId, value: u64)
    requires
        ctx.has(id),
        range_report(ctx, id, value) is Some,
        !holds_comment(ctx, ctx.spec_span(id)),
    ensures
        ({
            &&& range_of(ctx, id) matches Some(length)
            &&& range_report(ctx, id, value) matches Some(diagnostic)
            &&& diagnostic.fix is Some
            &&& ctx.spec_span(id).covers(ctx.spec_span(length))
            &&& (ctx.spec_kind(ctx.spec_without_parentheses(length)) matches
                AstKind::IdentifierReference(ident) ==> (ident.name@ == "length"@
                ==> length_property(ctx, length) == "length"@))
        }),
{
    range_length_is_in_range(ctx, id);
    let length = range_of(ctx, id)->0;
    if holds_comment(ctx, ctx.spec_span(length)) {
        let i = choose|i: int|
            0 <= i < ctx.comments@.len() && ctx.spec_span(length).start <= (
            #[trigger] ctx.comments@[i]).start < ctx.spec_span(length).end;
        assert(ctx.spec_span(id).start <= ctx.comments@[i].start < ctx.spec_span(id).end);
    }
}

/// Only an array literal whose only element is a spread, or a plain call of the global
/// `Array.from` with one argument, is reported.
pub proof fn other_copies_are_not_reported(ctx: &LintContext, id: NodeId, value: u64)
    requires
        ctx.has(id),
        range_report(ctx, id, value) is Some,
    ensures
        match ctx.spec_kind(id) {
            AstKind::ArrayExpression { elements } => elements@.len() == 1 && ctx.spec_kind(
                elements@[0],
            ) is SpreadElement,
            AstKind::CallExpression { callee, arguments, optional } => {
                &&& !optional
                &&& single_argument(ctx, arguments@) is Some
                &&& ctx.spec_kind(ctx.spec_without_parentheses(callee)) matches
                    AstKind::StaticMemberExpression {
                    object,
                    property,
                    property_span,
                    optional: member_optional,
                }
                &&& !member_optional
                &&& property@ == "from"@
                &&& global_array(ctx, object)
            },
            _ => false,
        },
{
}

/// Only a plain call of `keys` without arguments, on a plain call or `new` of the global `Array`
/// with one argument, is reported: no other iterator, no optional call, no shadowed `Array`.
pub proof fn other_iterables_are_not_reported(
    ctx: &LintContext,
    id: NodeId,
    value: u64,
)
    requires
        ctx.has(id),
        range_report(ctx, id, value) is Some,
    ensures
        ({
            &&& copied_iterable(ctx, id) matches Some(range)
            &&& ctx.spec_kind(ctx.spec_inner_expression(range)) matches AstKind::CallExpression {
                callee,
                arguments,
                optional,
            }
            &&& !optional
            &&& arguments@.len() == 0
            &&& ctx.spec_kind(ctx.spec_without_parentheses(callee)) matches
                AstKind::StaticMemberExpression {
                object,
                property,
                property_span,
                optional: member_optional,
            }
            &&& !member_optional
            &&& property@ == "keys"@
            &&& match ctx.spec_kind(ctx.spec_inner_expression(object)) {
                AstKind::CallExpression { callee, arguments, optional } => !optional
                    && global_array(ctx, callee) && single_argument(ctx, arguments@) is Some,
                AstKind::NewExpression { callee, arguments } => global_array(ctx, callee)
                    && single_argument(ctx, arguments@) is Some,
                _ => false,
            }
        }),
{
}

/// A call with a mapping function, as a fix puts it in, is not reported.
pub proof fn replacement_is_not_reported(ctx: &LintContext, id: NodeId, value: u64)
    requires
        ctx.has(id),
        ctx.spec_kind(id) matches AstKind::CallExpression { callee, arguments, optional }
            && arguments@.len() == 2,
    ensures
        range_report(ctx, id, value) is None,
{
}

} // verus!
