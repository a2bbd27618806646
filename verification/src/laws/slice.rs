//! Laws of the rule on `Array#splice()`.
use vstd::prelude::*;

use crate::ast::{AstKind, IdentifierReference, LintContext, NodeId, Span, UnaryOperator};
use crate::diagnostic::{DiagnosticView, FixKind};
use crate::laws::evidence::{leads, something_speaks_against_an_array, speaks_against_an_array};
use crate::laws::receiver_kind::{
    call_of_anything_else_is_unknown, name_that_is_not_followed_is_unknown,
    plain_value_is_no_array_and_the_rest_is_unknown,
};
use crate::prefer_array_slice::{
    left_hand_side, read_of_returned_array, single_argument_call, slice_report,
};
use crate::receiver_kind::{kind_of_expression, ReceiverKind};

verus! {

/// Whether a node is `receiver.splice(start)`, with one argument of any kind but a spread, and
/// without an optional chain at the call or at the name. `span` is that of the name `splice`.
pub open spec fn splices(ctx: &LintContext, id: NodeId, receiver: NodeId, span: Span) -> bool {
    &&& ctx.nodes@[id as int].kind matches AstKind::CallExpression {
        callee,
        arguments,
        optional: false,
    }
    &&& ctx.nodes@[ctx.spec_without_parentheses(callee) as int].kind matches
        AstKind::StaticMemberExpression { object, property, property_span, optional: false }
    &&& property@ == "splice"@
    &&& object == receiver
    &&& property_span == span
    &&& arguments@.len() == 1
    &&& !(ctx.nodes@[arguments@[0] as int].kind is SpreadElement)
}

/// Whether a node is `object[index]`, with `object` in any parentheses.
pub open spec fn reads_index(ctx: &LintContext, id: NodeId, object: Span) -> bool {
    &&& ctx.nodes@[id as int].kind matches AstKind::ComputedMemberExpression {
        object: part,
        optional: false,
    }
    &&& ctx.nodes@[ctx.spec_without_parentheses(part) as int].span == object
}

/// Whether a node is the name in `object.at(index)`, with one argument that is no spread.
pub open spec fn reads_with_at(ctx: &LintContext, id: NodeId) -> bool {
    &&& ctx.nodes@[id as int].kind matches AstKind::StaticMemberExpression {
        object,
        property,
        property_span,
        optional: false,
    }
    &&& property@ == "at"@
    &&& ctx.spec_parent(id) matches Some(call)
    &&& ctx.nodes@[call as int].kind matches AstKind::CallExpression {
        callee,
        arguments,
        optional: false,
    }
    &&& ctx.nodes@[callee as int].span == ctx.nodes@[id as int].span
    &&& arguments@.len() == 1
    &&& !(ctx.nodes@[arguments@[0] as int].kind is SpreadElement)
}

/// Whether a report is the one for a `splice` at `span`: it points at the name, and suggests to put
/// `slice` in its place.
pub open spec fn suggests_slice(report: Option<DiagnosticView>, span: Span) -> bool {
    &&& report matches Some(diagnostic)
    &&& diagnostic.message
        == "Prefer `Array#slice()` over `Array#splice()` when reading from the returned array."@
    &&& diagnostic.help
        == "`Array#splice()` removes the elements from the source array. Use `Array#slice()` to read the elements without changing the source array."@
    &&& diagnostic.span == span
    &&& diagnostic.fix matches Some(fix)
    &&& fix.kind == FixKind::Suggestion
    &&& fix.span == span
    &&& fix.replacement == "slice"@
    &&& fix.message == Some("Use `Array#slice()`."@)
}

/// A call counts exactly if it is not optional, and has one argument of any kind but a spread.
pub proof fn one_argument_of_any_kind_counts(
    ctx: &LintContext,
    arguments: Seq<NodeId>,
    optional: bool,
)
    ensures
        arguments.len() != 1 ==> !single_argument_call(ctx, arguments, optional),
        arguments.len() == 1 ==> match ctx.nodes@[arguments[0] as int].kind {
            AstKind::SpreadElement { .. } => !single_argument_call(ctx, arguments, optional),
            _ => single_argument_call(ctx, arguments, optional) == !optional,
        },
{
}

/// An expression is written to exactly if it is, in any parentheses, the target of an assignment or
/// of a part of one, incremented or decremented, or deleted.
pub proof fn writes_are_these(ctx: &LintContext, id: NodeId)
    requires
        ctx.has(id),
    ensures
        left_hand_side(ctx, id) <==> {
            &&& ctx.spec_outermost_paren_parent(id) matches Some(parent)
            &&& match ctx.nodes@[parent as int].kind {
                AstKind::AssignmentExpression { left } => ctx.nodes@[left as int].span
                    == ctx.nodes@[id as int].span,
                AstKind::AssignmentTargetWithDefault { binding } => ctx.nodes@[binding as int].span
                    == ctx.nodes@[id as int].span,
                AstKind::AssignmentTargetPropertyProperty { binding } => ctx.nodes@[binding as int].span
                    == ctx.nodes@[id as int].span,
                AstKind::UnaryExpression { operator: UnaryOperator::Delete, argument } => true,
                AstKind::UpdateExpression
                | AstKind::ArrayAssignmentTarget
                | AstKind::AssignmentTargetRest => true,
                _ => false,
            }
        },
{
}

/// What an expression gives is only read exactly if it is, in any parentheses, the object of a plain
/// index that is not written to, or of a plain call of `.at()` with one argument.
pub proof fn reads_are_these(ctx: &LintContext, id: NodeId)
    requires
        ctx.has(id),
    ensures
        read_of_returned_array(ctx, id) <==> {
            &&& ctx.spec_outermost_paren_parent(id) matches Some(parent)
            &&& (reads_index(ctx, parent, ctx.nodes@[id as int].span) && !left_hand_side(
                ctx,
                parent,
            )) || reads_with_at(ctx, parent)
        },
{
}

/// A plain call of `splice` is reported exactly if what it gives is only read, and its receiver is
/// not known to be something else than an array.
pub proof fn splice_that_is_read_is_reported(
    ctx: &LintContext,
    id: NodeId,
    receiver: NodeId,
    span: Span,
)
    requires
        ctx.has(id),
        splices(ctx, id, receiver, span),
    ensures
        slice_report(ctx, id) is Some <==> {
            &&& ctx.spec_outermost_paren_parent(id) matches Some(parent)
            &&& (reads_index(ctx, parent, ctx.nodes@[id as int].span) && !left_hand_side(
                ctx,
                parent,
            )) || reads_with_at(ctx, parent)
            &&& kind_of_expression(ctx, receiver, seq![], 64).0 != ReceiverKind::NotArray
        },
        slice_report(ctx, id) is Some ==> suggests_slice(slice_report(ctx, id), span),
{
}

/// Nothing but a plain call of `splice` is reported.
pub proof fn only_splice_is_reported(ctx: &LintContext, id: NodeId)
    requires
        ctx.has(id),
        slice_report(ctx, id) is Some,
    ensures
        exists|receiver: NodeId, span: Span| splices(ctx, id, receiver, span),
{
    if let AstKind::CallExpression { callee, .. } = ctx.spec_kind(id) {
        if let AstKind::StaticMemberExpression { object, property_span, .. } = ctx.spec_kind(
            ctx.spec_without_parentheses(callee),
        ) {
            assert(splices(ctx, id, object, property_span));
        }
    }
}

/// A call of `splice` is reported where what it gives is read by an index, in any parentheses, that
/// nothing around it writes to, and nothing is known against its receiver.
pub proof fn read_by_index_is_reported(
    ctx: &LintContext,
    id: NodeId,
    receiver: NodeId,
    span: Span,
    member: NodeId,
    object: NodeId,
    around: NodeId,
)
    requires
        ctx.has(id),
        splices(ctx, id, receiver, span),
        kind_of_expression(ctx, receiver, seq![], 64).0 != ReceiverKind::NotArray,
        ctx.spec_outermost_paren_parent(id) == Some(member),
        ctx.nodes@[member as int].kind == (AstKind::ComputedMemberExpression {
            object,
            optional: false,
        }),
        ctx.spec_without_parentheses(object) == id,
        ctx.spec_outermost_paren_parent(member) == Some(around),
        match ctx.nodes@[around as int].kind {
            AstKind::AssignmentExpression { .. }
            | AstKind::AssignmentTargetWithDefault { .. }
            | AstKind::AssignmentTargetPropertyProperty { .. }
            | AstKind::UpdateExpression
            | AstKind::ArrayAssignmentTarget
            | AstKind::AssignmentTargetRest => false,
            AstKind::UnaryExpression { operator, argument } => operator != UnaryOperator::Delete,
            _ => true,
        },
    ensures
        suggests_slice(slice_report(ctx, id), span),
{
}

/// A call of `splice` is reported where what it gives is read with `.at()`, and nothing is known
/// against its receiver.
pub proof fn read_with_at_is_reported(
    ctx: &LintContext,
    id: NodeId,
    receiver: NodeId,
    span: Span,
    member: NodeId,
    object: NodeId,
    property: String,
    property_span: Span,
    call: NodeId,
    arguments: Vec<NodeId>,
)
    requires
        ctx.has(id),
        splices(ctx, id, receiver, span),
        kind_of_expression(ctx, receiver, seq![], 64).0 != ReceiverKind::NotArray,
        ctx.spec_outermost_paren_parent(id) == Some(member),
        ctx.nodes@[member as int].kind == (AstKind::StaticMemberExpression {
            object,
            property,
            property_span,
            optional: false,
        }),
        property@ == "at"@,
        ctx.spec_parent(member) == Some(call),
        ctx.nodes@[call as int].kind == (AstKind::CallExpression {
            callee: member,
            arguments,
            optional: false,
        }),
        arguments@.len() == 1,
        !(ctx.nodes@[arguments@[0] as int].kind is SpreadElement),
    ensures
        suggests_slice(slice_report(ctx, id), span),
{
}

/// A receiver of which the syntax tells nothing is reported: a member, an array literal, a sum, what
/// `await` gives, and any other expression that is not plainly something else.
pub proof fn receiver_that_tells_nothing_is_reported(
    ctx: &LintContext,
    id: NodeId,
    receiver: NodeId,
    span: Span,
)
    requires
        ctx.has(id),
        splices(ctx, id, receiver, span),
        read_of_returned_array(ctx, id),
        match ctx.nodes@[receiver as int].kind {
            AstKind::BooleanLiteral
            | AstKind::NullLiteral
            | AstKind::NumericLiteral { .. }
            | AstKind::BigIntLiteral
            | AstKind::RegExpLiteral
            | AstKind::StringLiteral { .. }
            | AstKind::TemplateLiteral { .. }
            | AstKind::ObjectExpression
            | AstKind::Function { .. }
            | AstKind::ArrowFunctionExpression { .. }
            | AstKind::Class { .. }
            | AstKind::ParenthesizedExpression { .. }
            | AstKind::TSSatisfiesExpression { .. }
            | AstKind::TSNonNullExpression { .. }
            | AstKind::TSAsExpression { .. }
            | AstKind::TSTypeAssertion { .. }
            | AstKind::ConditionalExpression { .. }
            | AstKind::IdentifierReference(_)
            | AstKind::CallExpression { .. }
            | AstKind::NewExpression { .. }
            | AstKind::ThisExpression
            | AstKind::Super
            | AstKind::SequenceExpression { .. } => false,
            _ => true,
        },
    ensures
        suggests_slice(slice_report(ctx, id), span),
{
    receiver_is_there(ctx, id, receiver, span);
    plain_value_is_no_array_and_the_rest_is_unknown(ctx, receiver, seq![], 64);
}

proof fn receiver_is_there(ctx: &LintContext, id: NodeId, receiver: NodeId, span: Span)
    requires
        ctx.has(id),
        splices(ctx, id, receiver, span),
    ensures
        ctx.has(receiver),
{
    if let AstKind::CallExpression { callee, .. } = ctx.spec_kind(id) {
        ctx.lemma_without_parentheses(callee);
    }
}

/// A receiver is reported unless a path leads from it to an expression that speaks by itself against
/// being an array.
pub proof fn receiver_with_nothing_against_it_is_reported(
    ctx: &LintContext,
    id: NodeId,
    receiver: NodeId,
    span: Span,
)
    requires
        ctx.has(id),
        splices(ctx, id, receiver, span),
        read_of_returned_array(ctx, id),
        forall|path: Seq<NodeId>| #[trigger]
            leads(ctx, path, receiver) ==> !speaks_against_an_array(ctx, path.last()),
    ensures
        suggests_slice(slice_report(ctx, id), span),
{
    receiver_is_there(ctx, id, receiver, span);
    if kind_of_expression(ctx, receiver, seq![], 64).0 == ReceiverKind::NotArray {
        something_speaks_against_an_array(ctx, receiver, seq![], 64);
    }
}

/// A receiver that is a call is reported unless its callee, without parentheses, is a name that the
/// program declares.
pub proof fn receiver_that_is_a_call_is_reported(
    ctx: &LintContext,
    id: NodeId,
    receiver: NodeId,
    span: Span,
    callee: NodeId,
    arguments: Vec<NodeId>,
    optional: bool,
)
    requires
        ctx.has(id),
        splices(ctx, id, receiver, span),
        read_of_returned_array(ctx, id),
        ctx.nodes@[receiver as int].kind == (AstKind::CallExpression {
            callee,
            arguments,
            optional,
        }),
        match ctx.nodes@[ctx.spec_without_parentheses(callee) as int].kind {
            AstKind::IdentifierReference(ident) => ident.symbol_id is None,
            _ => true,
        },
    ensures
        suggests_slice(slice_report(ctx, id), span),
{
    receiver_is_there(ctx, id, receiver, span);
    call_of_anything_else_is_unknown(ctx, receiver, callee, arguments, optional, seq![], 64);
}

/// A receiver that is a name that the program does not declare, or declares more than once, is
/// reported.
pub proof fn undeclared_receiver_is_reported(
    ctx: &LintContext,
    id: NodeId,
    receiver: NodeId,
    span: Span,
    ident: IdentifierReference,
)
    requires
        ctx.has(id),
        splices(ctx, id, receiver, span),
        read_of_returned_array(ctx, id),
        ctx.nodes@[receiver as int].kind == AstKind::IdentifierReference(ident),
        ident.symbol_id matches Some(symbol_id) ==> ctx.symbols@[symbol_id as int].is_redeclared,
    ensures
        suggests_slice(slice_report(ctx, id), span),
{
    receiver_is_there(ctx, id, receiver, span);
    name_that_is_not_followed_is_unknown(ctx, receiver, ident, seq![], 64);
}

} // verus!
