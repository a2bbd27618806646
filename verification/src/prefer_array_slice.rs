//! Prefer `Array#slice()` over `Array#splice()` when reading from the returned array.
//!
//! `Array#splice()` mutates the source array. When the code immediately indexes the returned
//! elements or reads them with `.at()`, `Array#slice()` expresses the read-only intent without
//! changing the source array.
use vstd::prelude::*;

use crate::ast::{span_is_well_formed, AstKind, LintContext, NodeId, Span, UnaryOperator};
use crate::diagnostic::{reports, Diagnostic, DiagnosticView, Fix, FixKind, FixView};
use crate::receiver_kind::{kind_of_expression, ReceiverKind, TypeResolver};
use crate::resolution::MAX_RESOLVE_STEPS;
use crate::text::same_text;

verus! {

/// The rule.
#[derive(Debug, Default, Clone)]
pub struct PreferArraySlice;

/// Whether a call is not optional and has one argument that is not a spread.
pub open spec fn single_argument_call(
    ctx: &LintContext,
    arguments: Seq<NodeId>,
    optional: bool,
) -> bool {
    &&& !optional
    &&& arguments.len() == 1
    &&& !(ctx.spec_kind(arguments[0]) is SpreadElement)
}

pub fn is_single_argument_call(arguments: &Vec<NodeId>, optional: bool, ctx: &LintContext) -> (r:
    bool)
    requires
        ctx.wf(),
        forall|i: int| 0 <= i < arguments@.len() ==> #[trigger] arguments@[i] < ctx.nodes@.len(),
    ensures
        r == single_argument_call(ctx, arguments@, optional),
{
    if optional || arguments.len() != 1 {
        return false;
    }
    match ctx.kind(arguments[0]) {
        AstKind::SpreadElement { .. } => false,
        _ => true,
    }
}

/// Whether the code writes to an expression, or deletes it.
pub open spec fn left_hand_side(ctx: &LintContext, id: NodeId) -> bool {
    match ctx.spec_outermost_paren_parent(id) {
        Some(parent) => match ctx.spec_kind(parent) {
            AstKind::AssignmentExpression { left } => ctx.spec_span(left) == ctx.spec_span(id),
            AstKind::AssignmentTargetWithDefault { binding } => ctx.spec_span(binding)
                == ctx.spec_span(id),
            AstKind::AssignmentTargetPropertyProperty { binding } => ctx.spec_span(binding)
                == ctx.spec_span(id),
            AstKind::UnaryExpression { operator, argument } => operator == UnaryOperator::Delete,
            AstKind::UpdateExpression
            | AstKind::ArrayAssignmentTarget
            | AstKind::AssignmentTargetRest => true,
            _ => false,
        },
        None => false,
    }
}

pub fn is_left_hand_side(node: NodeId, ctx: &LintContext) -> (r: bool)
    requires
        ctx.has(node),
    ensures
        r == left_hand_side(ctx, node),
{
    let span = ctx.span(node);
    let parent: NodeId = match ctx.outermost_paren_parent(node) {
        Some(parent) => parent,
        None => return false,
    };
    match ctx.kind(parent) {
        AstKind::AssignmentExpression { left } => ctx.span(*left) == span,
        AstKind::AssignmentTargetWithDefault { binding }
        | AstKind::AssignmentTargetPropertyProperty { binding } => ctx.span(*binding) == span,
        AstKind::UnaryExpression { operator, .. } => *operator == UnaryOperator::Delete,
        AstKind::UpdateExpression
        | AstKind::ArrayAssignmentTarget
        | AstKind::AssignmentTargetRest => true,
        _ => false,
    }
}

/// Whether the code only reads from what an expression gives: by index, or with `.at()`.
pub open spec fn read_of_returned_array(ctx: &LintContext, id: NodeId) -> bool {
    match ctx.spec_outermost_paren_parent(id) {
        Some(parent) => match ctx.spec_kind(parent) {
            AstKind::ComputedMemberExpression { object, optional } => {
                &&& !optional
                &&& ctx.spec_span(ctx.spec_without_parentheses(object)) == ctx.spec_span(id)
                &&& !left_hand_side(ctx, parent)
            },
            AstKind::StaticMemberExpression { object, property, property_span, optional } => {
                &&& property@ == "at"@
                &&& !optional
                &&& ctx.spec_parent(parent) matches Some(at_call)
                &&& ctx.spec_kind(at_call) matches AstKind::CallExpression {
                    callee,
                    arguments,
                    optional,
                }
                &&& ctx.spec_span(callee) == ctx.spec_span(parent)
                &&& single_argument_call(ctx, arguments@, optional)
            },
            _ => false,
        },
        None => false,
    }
}

pub fn is_read_of_returned_array(node: NodeId, ctx: &LintContext) -> (r: bool)
    requires
        ctx.has(node),
    ensures
        r == read_of_returned_array(ctx, node),
{
    let call_span = ctx.span(node);
    let parent: NodeId = match ctx.outermost_paren_parent(node) {
        Some(parent) => parent,
        None => return false,
    };
    match ctx.kind(parent) {
        AstKind::ComputedMemberExpression { object, optional } => !*optional && ctx.span(
            ctx.without_parentheses(*object),
        ) == call_span && !is_left_hand_side(parent, ctx),
        AstKind::StaticMemberExpression { property, optional, .. } => {
            if !same_text(property.as_str(), "at") || *optional {
                return false;
            }
            let at_call: NodeId = match ctx.parent(parent) {
                Some(at_call) => at_call,
                None => return false,
            };
            match ctx.kind(at_call) {
                AstKind::CallExpression { callee, arguments, optional } => ctx.span(*callee)
                    == ctx.span(parent) && is_single_argument_call(arguments, *optional, ctx),
                _ => false,
            }
        },
        _ => false,
    }
}

/// A call `receiver.splice(start)` whose result the code only reads.
pub struct SpliceCall {
    pub receiver: NodeId,
    /// The span of the name `splice`.
    pub span: Span,
}

/// The call at `id`, if it has the form that the rule looks for.
pub open spec fn splice_call(ctx: &LintContext, id: NodeId) -> Option<SpliceCall> {
    if let AstKind::CallExpression { callee, arguments, optional } = ctx.spec_kind(id) {
        if let AstKind::StaticMemberExpression {
            object,
            property,
            property_span,
            optional: member_optional,
        } = ctx.spec_kind(ctx.spec_without_parentheses(callee)) {
            if property@ == "splice"@ && !member_optional && single_argument_call(
                ctx,
                arguments@,
                optional,
            ) && read_of_returned_array(ctx, id) {
                Some(SpliceCall { receiver: object, span: property_span })
            } else {
                None
            }
        } else {
            None
        }
    } else {
        None
    }
}

/// What the syntax tells about a receiver.
pub open spec fn receiver_kind(ctx: &LintContext, receiver: NodeId) -> ReceiverKind {
    kind_of_expression(ctx, receiver, seq![], MAX_RESOLVE_STEPS as nat).0
}

/// The diagnostic for a `splice` at `span`.
pub open spec fn slice_diagnostic(span: Span) -> DiagnosticView {
    DiagnosticView {
        message: "Prefer `Array#slice()` over `Array#splice()` when reading from the returned array."@,
        help: "`Array#splice()` removes the elements from the source array. Use `Array#slice()` to read the elements without changing the source array."@,
        span,
        fix: Some(
            FixView {
                kind: FixKind::Suggestion,
                span,
                replacement: "slice"@,
                message: Some("Use `Array#slice()`."@),
            },
        ),
    }
}

/// What the rule reports at a node.
pub open spec fn slice_report(ctx: &LintContext, id: NodeId) -> Option<DiagnosticView> {
    match splice_call(ctx, id) {
        Some(call) => if receiver_kind(ctx, call.receiver) == ReceiverKind::NotArray {
            None
        } else {
            Some(slice_diagnostic(call.span))
        },
        None => None,
    }
}

fn prefer_array_slice_diagnostic(span: Span) -> (diagnostic: Diagnostic)
    ensures
        diagnostic@ == slice_diagnostic(span),
{
    Diagnostic {
        message:
            "Prefer `Array#slice()` over `Array#splice()` when reading from the returned array.".to_owned(),
        help:
            "`Array#splice()` removes the elements from the source array. Use `Array#slice()` to read the elements without changing the source array.".to_owned(),
        span,
        fix: Some(
            Fix {
                kind: FixKind::Suggestion,
                span,
                replacement: "slice".to_owned(),
                message: Some("Use `Array#slice()`.".to_owned()),
            },
        ),
    }
}

impl PreferArraySlice {
    /// Checks the node `node` of `ctx`.
    pub fn run(&self, node: NodeId, ctx: &LintContext) -> (diagnostic: Option<Diagnostic>)
        requires
            ctx.has(node),
        ensures
            reports(diagnostic, slice_report(ctx, node)),
            diagnostic matches Some(diagnostic) ==> span_is_well_formed(
                diagnostic.span,
                ctx.source_text@,
            ),
    {
        let (callee, arguments, optional) = match ctx.kind(node) {
            AstKind::CallExpression { callee, arguments, optional } => (
                *callee,
                arguments,
                *optional,
            ),
            _ => return None,
        };
        let (receiver, property, span, member_optional) = match ctx.kind(
            ctx.without_parentheses(callee),
        ) {
            AstKind::StaticMemberExpression { object, property, property_span, optional } => (
                *object,
                property.as_str(),
                *property_span,
                *optional,
            ),
            _ => return None,
        };
        if !same_text(property, "splice") || member_optional || !is_single_argument_call(
            arguments,
            optional,
            ctx,
        ) || !is_read_of_returned_array(node, ctx) {
            return None;
        }
        let mut resolver = TypeResolver::new(ctx);
        if resolver.expression_kind(receiver) == ReceiverKind::NotArray {
            return None;
        }
        Some(prefer_array_slice_diagnostic(span))
    }
}

/// Only a plain call of a plain member `splice` is reported: none that is optional, and none with a
/// second argument or a spread.
pub proof fn other_calls_are_not_reported(ctx: &LintContext, id: NodeId)
    requires
        ctx.has(id),
        slice_report(ctx, id) is Some,
    ensures
        ({
            &&& ctx.spec_kind(id) matches AstKind::CallExpression { callee, arguments, optional }
            &&& single_argument_call(ctx, arguments@, optional)
            &&& ctx.spec_kind(ctx.spec_without_parentheses(callee)) matches
                AstKind::StaticMemberExpression {
                object,
                property,
                property_span,
                optional: member_optional,
            }
            &&& !member_optional
            &&& property@ == "splice"@
        }),
{
}

/// A call whose result is not read by index or with `.at()`, or is written to or deleted, is not
/// reported.
pub proof fn other_uses_are_not_reported(ctx: &LintContext, id: NodeId)
    requires
        ctx.has(id),
        match ctx.spec_outermost_paren_parent(id) {
            Some(parent) => match ctx.spec_kind(parent) {
                AstKind::ComputedMemberExpression { object, optional } => optional
                    || left_hand_side(ctx, parent),
                AstKind::StaticMemberExpression { object, property, property_span, optional } =>
                    optional || property@ != "at"@,
                _ => true,
            },
            None => true,
        },
    ensures
        slice_report(ctx, id) is None,
{
}

/// A receiver that is known not to be an array is not reported. One that is an array, or of
/// which nothing is known, is reported if the call has the form that the rule looks for.
pub proof fn receiver_decides(ctx: &LintContext, id: NodeId)
    requires
        ctx.has(id),
        splice_call(ctx, id) is Some,
    ensures
        splice_call(ctx, id) matches Some(call) && (slice_report(ctx, id) is Some) == (
        receiver_kind(ctx, call.receiver) != ReceiverKind::NotArray),
{
}

/// Code that already uses `slice` is not reported.
pub proof fn replacement_is_not_reported(ctx: &LintContext, id: NodeId)
    requires
        ctx.has(id),
        ctx.spec_kind(id) matches AstKind::CallExpression { callee, arguments, optional }
            && ctx.spec_kind(ctx.spec_without_parentheses(callee)) matches
            AstKind::StaticMemberExpression {
            object,
            property,
            property_span,
            optional: member_optional,
        } && property@ == "slice"@,
    ensures
        slice_report(ctx, id) is None,
{
    reveal_strlit("slice");
    reveal_strlit("splice");
    assert("slice"@.len() == 5);
}

} // verus!
