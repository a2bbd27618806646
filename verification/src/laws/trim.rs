//! Laws of the rule on `String#trim()`.
use vstd::prelude::*;

use crate::ast::{
    AstKind, IdentifierReference, LintContext, NodeId, Span, SymbolId, UnaryOperator,
    VariableDeclarationKind,
};
use crate::diagnostic::{DiagnosticView, FixKind};
use crate::laws::string_type::{
    call_of_anything_else_tells_nothing, name_that_is_not_followed_tells_nothing,
    other_expressions_tell_nothing,
};
use crate::no_unnecessary_string_trim::{
    first_argument, has_spread, known_non_string, non_string_primitive, resolved,
    search_value_safe, static_non_string, trim_call, trim_report, zod_string_call,
};
use crate::string_type::expression_string;
use crate::text::js_whitespace;

verus! {

/// Whether a node is `receiver.trim().startsWith(search)` or `receiver.trim().endsWith(search)`, with
/// or without a search value, in any parentheses and without an optional chain. `span` is that of
/// the name `trim`.
pub open spec fn trims_before_comparing(
    ctx: &LintContext,
    id: NodeId,
    starts_with: bool,
    receiver: NodeId,
    search: Option<NodeId>,
    span: Span,
) -> bool {
    &&& ctx.nodes@[id as int].kind matches AstKind::CallExpression { callee, arguments, optional }
    &&& ctx.nodes@[ctx.spec_without_parentheses(callee) as int].kind matches
        AstKind::StaticMemberExpression {
        object,
        property,
        property_span,
        optional: outer_optional,
    }
    &&& ctx.nodes@[ctx.spec_without_parentheses(object) as int].kind matches
        AstKind::CallExpression {
        callee: trim_callee,
        arguments: trim_arguments,
        optional: trim_optional,
    }
    &&& ctx.nodes@[ctx.spec_without_parentheses(trim_callee) as int].kind matches
        AstKind::StaticMemberExpression {
        object: trimmed,
        property: trim_property,
        property_span: trim_span,
        optional: trim_member_optional,
    }
    &&& starts_with ==> property@ == "startsWith"@
    &&& !starts_with ==> property@ == "endsWith"@
    &&& match search {
        Some(value) => arguments@ == seq![value] && !(
        ctx.nodes@[value as int].kind is SpreadElement),
        None => arguments@.len() == 0,
    }
    &&& trim_property@ == "trim"@
    &&& trim_arguments@.len() == 0
    &&& trimmed == receiver
    &&& trim_span == span
    &&& !ctx.uses_optional_chain(id)
}

/// Whether a report is the one for a `trim` at `span`: it names the method, points at `trim`, and
/// its fix puts `trimStart` or `trimEnd` in the place of that name and changes nothing else.
pub open spec fn renames_trim(report: Option<DiagnosticView>, starts_with: bool, span: Span) -> bool {
    &&& report matches Some(diagnostic)
    &&& diagnostic.message == "Unnecessary `String#trim()` before `String#"@ + (if starts_with {
        "startsWith"@
    } else {
        "endsWith"@
    }) + "()`"@
    &&& diagnostic.help == "Use `String#"@ + (if starts_with {
        "trimStart"@
    } else {
        "trimEnd"@
    }) + "()` instead."@
    &&& diagnostic.span == span
    &&& diagnostic.fix matches Some(fix)
    &&& fix.kind == FixKind::Fix
    &&& fix.span == span
    &&& fix.message is None
    &&& fix.replacement == if starts_with {
        "trimStart"@
    } else {
        "trimEnd"@
    }
}

/// Whether a search value is absent, or is a text whose end that is not compared is no whitespace.
pub open spec fn text_is_safe(ctx: &LintContext, search: Option<NodeId>, starts_with: bool) -> bool {
    search matches Some(value) ==> {
        &&& ctx.static_string(resolved(ctx, value)) matches Some(text)
        &&& text.len() > 0 ==> !js_whitespace(
            if starts_with {
                text[text.len() - 1]
            } else {
                text[0]
            },
        )
    }
}

proof fn form_is_found(
    ctx: &LintContext,
    id: NodeId,
    starts_with: bool,
    receiver: NodeId,
    search: Option<NodeId>,
    span: Span,
)
    requires
        ctx.has(id),
        trims_before_comparing(ctx, id, starts_with, receiver, search, span),
    ensures
        trim_call(ctx, id) matches Some(call) && call.starts_with == starts_with && call.receiver
            == receiver && call.search_value == search && call.span == span,
        ctx.has(receiver),
        search matches Some(value) ==> ctx.has(value),
{
    reveal_strlit("startsWith");
    reveal_strlit("endsWith");
    assert("startsWith"@.len() == 10);
    assert("endsWith"@.len() == 8);
    if let AstKind::CallExpression { callee, arguments, optional } = ctx.spec_kind(id) {
        if search is Some {
            assert(arguments@[0] == search->0);
        }
        ctx.lemma_without_parentheses(callee);
        if let AstKind::StaticMemberExpression { object, .. } = ctx.spec_kind(
            ctx.spec_without_parentheses(callee),
        ) {
            ctx.lemma_without_parentheses(object);
            if let AstKind::CallExpression { callee, .. } = ctx.spec_kind(
                ctx.spec_without_parentheses(object),
            ) {
                ctx.lemma_without_parentheses(callee);
            }
        }
    }
}

/// Nothing but a call of that form is reported.
pub proof fn only_that_form_is_reported(ctx: &LintContext, id: NodeId)
    requires
        ctx.has(id),
        trim_report(ctx, id) is Some,
    ensures
        exists|starts_with: bool, receiver: NodeId, search: Option<NodeId>, span: Span|
            trims_before_comparing(ctx, id, starts_with, receiver, search, span),
{
    let call = trim_call(ctx, id)->0;
    if let AstKind::CallExpression { callee, arguments, optional } = ctx.spec_kind(id) {
        if arguments@.len() == 1 {
            assert(arguments@ =~= seq![arguments@[0]]);
            assert(!has_spread(ctx, arguments@));
        }
    }
    assert(trims_before_comparing(
        ctx,
        id,
        call.starts_with,
        call.receiver,
        call.search_value,
        call.span,
    ));
}

/// A call of that form is reported exactly if nothing speaks against its receiver and its search
/// value, and the report renames `trim` alone.
pub proof fn that_form_is_reported(
    ctx: &LintContext,
    id: NodeId,
    starts_with: bool,
    receiver: NodeId,
    search: Option<NodeId>,
    span: Span,
)
    requires
        ctx.has(id),
        trims_before_comparing(ctx, id, starts_with, receiver, search, span),
    ensures
        trim_report(ctx, id) is Some <==> {
            &&& !static_non_string(ctx, receiver)
            &&& !zod_string_call(ctx, receiver)
            &&& expression_string(ctx, receiver, seq![], 64).0 != Some(false)
            &&& search matches Some(value) ==> non_string_primitive(ctx, resolved(ctx, value))
                || text_is_safe(ctx, search, starts_with)
        },
        trim_report(ctx, id) is Some ==> renames_trim(trim_report(ctx, id), starts_with, span),
{
    form_is_found(ctx, id, starts_with, receiver, search, span);
}

/// An expression is resolved to itself without its wrappers. Only a name that is bound to the
/// initializer of a plain `const` is resolved to that, and only one step far.
pub proof fn only_a_const_is_resolved(ctx: &LintContext, id: NodeId)
    requires
        ctx.has(id),
    ensures
        ({
            let inner = ctx.spec_inner_expression(id);
            match ctx.spec_kind(inner) {
                AstKind::IdentifierReference(ident) => match ident.symbol_id {
                    Some(symbol_id) => match ctx.spec_kind(ctx.declaration(symbol_id)) {
                        AstKind::VariableDeclarator {
                            kind: VariableDeclarationKind::Const,
                            is_binding_identifier: true,
                            type_annotation,
                            init: Some(init),
                        } => resolved(ctx, id) == ctx.spec_inner_expression(init),
                        _ => resolved(ctx, id) == inner,
                    },
                    None => resolved(ctx, id) == inner,
                },
                _ => resolved(ctx, id) == inner,
            }
        }),
{
}

/// The primitives that are no strings are numbers, big integers, booleans, `null`, the global
/// `undefined`, `void` of a literal, and negated numbers and big integers.
pub proof fn primitives_are_these(ctx: &LintContext, id: NodeId)
    requires
        ctx.has(id),
    ensures
        non_string_primitive(ctx, id) <==> match ctx.spec_kind(id) {
            AstKind::NumericLiteral { .. }
            | AstKind::BigIntLiteral
            | AstKind::BooleanLiteral
            | AstKind::NullLiteral => true,
            AstKind::IdentifierReference(ident) => ident.is_global && ident.name@ == "undefined"@,
            AstKind::UnaryExpression { operator: UnaryOperator::Void, argument } => match
                ctx.spec_kind(argument) {
                AstKind::BooleanLiteral
                | AstKind::NullLiteral
                | AstKind::NumericLiteral { .. }
                | AstKind::BigIntLiteral
                | AstKind::RegExpLiteral
                | AstKind::StringLiteral { .. } => true,
                _ => false,
            },
            AstKind::UnaryExpression { operator: UnaryOperator::UnaryNegation, argument } =>
                ctx.spec_kind(argument) is NumericLiteral || ctx.spec_kind(
                argument,
            ) is BigIntLiteral,
            _ => false,
        },
{
}

/// A value is plainly no string exactly if it resolves to an array, a function, a class, an object
/// or a regular expression, or to a primitive that is no string.
pub proof fn plain_values_are_these(ctx: &LintContext, id: NodeId)
    requires
        ctx.has(id),
    ensures
        static_non_string(ctx, id) <==> non_string_primitive(ctx, resolved(ctx, id)) || match
            ctx.spec_kind(resolved(ctx, id)) {
            AstKind::ArrayExpression { .. }
            | AstKind::ArrowFunctionExpression { .. }
            | AstKind::Function { .. }
            | AstKind::Class { .. }
            | AstKind::ObjectExpression
            | AstKind::RegExpLiteral => true,
            _ => false,
        },
{
}

/// The string schema of zod is a call without arguments of `string`, on the name `z` imported from
/// zod or on its namespace, and not on an imported type.
pub proof fn zod_schema_is_this(
    ctx: &LintContext,
    id: NodeId,
    callee: NodeId,
    arguments: Vec<NodeId>,
    optional: bool,
)
    requires
        ctx.has(id),
        ctx.spec_kind(ctx.spec_inner_expression(id)) == (AstKind::CallExpression {
            callee,
            arguments,
            optional,
        }),
    ensures
        zod_string_call(ctx, id) <==> arguments@.len() == 0 && match ctx.spec_kind(
            ctx.spec_without_parentheses(callee),
        ) {
            AstKind::StaticMemberExpression { object, property, .. } => property@ == "string"@
                && match ctx.spec_kind(ctx.spec_without_parentheses(object)) {
                AstKind::IdentifierReference(ident) => match ident.symbol_id {
                    Some(symbol_id) => !ctx.symbols@[symbol_id as int].is_type_import && match
                        ctx.spec_kind(ctx.declaration(symbol_id)) {
                        AstKind::ImportSpecifier { imported, local, source } => source@ == "zod"@
                            && imported@ == "z"@,
                        AstKind::ImportNamespaceSpecifier { source } => source@ == "zod"@,
                        _ => false,
                    },
                    None => false,
                },
                _ => false,
            },
            _ => false,
        },
{
}

/// Nothing but a call is a string schema of zod.
pub proof fn zod_schema_is_a_call(ctx: &LintContext, id: NodeId)
    requires
        ctx.has(id),
        zod_string_call(ctx, id),
    ensures
        ctx.spec_kind(ctx.spec_inner_expression(id)) is CallExpression,
{
}

/// A search value is safe exactly if it is a primitive that is no string, or a text that is known
/// and has no whitespace at the end that is not compared.
pub proof fn safe_search_values_are_these(ctx: &LintContext, id: NodeId, starts_with: bool)
    requires
        ctx.has(id),
    ensures
        search_value_safe(ctx, id, starts_with) <==> non_string_primitive(ctx, resolved(ctx, id))
            || text_is_safe(ctx, Some(id), starts_with),
        known_non_string(ctx, id) <==> expression_string(
            ctx,
            id,
            seq![],
            64,
        ).0 == Some(false),
{
}

/// The arguments of a call are taken as they are.
pub proof fn arguments_are_taken_as_they_are(ctx: &LintContext, arguments: Seq<NodeId>)
    ensures
        has_spread(ctx, arguments) <==> !forall|i: int|
            0 <= i < arguments.len() ==> !(ctx.spec_kind(#[trigger] arguments[i]) is SpreadElement),
        arguments.len() == 0 ==> first_argument(arguments) is None,
        arguments.len() > 0 ==> first_argument(arguments) == Some(arguments[0]),
{
}

/// A receiver of which the syntax tells nothing is reported: a member, a text, a template, a sum,
/// `this`, what `new` or `await` gives, and any other expression that is not plainly something else.
pub proof fn receiver_that_tells_nothing_is_reported(
    ctx: &LintContext,
    id: NodeId,
    starts_with: bool,
    receiver: NodeId,
    search: Option<NodeId>,
    span: Span,
)
    requires
        ctx.has(id),
        trims_before_comparing(ctx, id, starts_with, receiver, search, span),
        text_is_safe(ctx, search, starts_with),
        match ctx.spec_kind(receiver) {
            AstKind::ArrayExpression { .. }
            | AstKind::ArrowFunctionExpression { .. }
            | AstKind::Function { .. }
            | AstKind::Class { .. }
            | AstKind::ObjectExpression
            | AstKind::RegExpLiteral
            | AstKind::NumericLiteral { .. }
            | AstKind::BigIntLiteral
            | AstKind::BooleanLiteral
            | AstKind::NullLiteral
            | AstKind::UnaryExpression { .. }
            | AstKind::IdentifierReference(_)
            | AstKind::CallExpression { .. }
            | AstKind::ConditionalExpression { .. }
            | AstKind::SequenceExpression { .. }
            | AstKind::ParenthesizedExpression { .. }
            | AstKind::TSAsExpression { .. }
            | AstKind::TSTypeAssertion { .. }
            | AstKind::TSSatisfiesExpression { .. }
            | AstKind::TSNonNullExpression { .. }
            | AstKind::TSInstantiationExpression { .. } => false,
            _ => true,
        },
    ensures
        renames_trim(trim_report(ctx, id), starts_with, span),
{
    form_is_found(ctx, id, starts_with, receiver, search, span);
    other_expressions_tell_nothing(ctx, receiver, seq![], 64);
}

/// A receiver that is a name that the program does not declare is reported, unless it is
/// `undefined`.
pub proof fn undeclared_receiver_is_reported(
    ctx: &LintContext,
    id: NodeId,
    starts_with: bool,
    receiver: NodeId,
    search: Option<NodeId>,
    span: Span,
    ident: IdentifierReference,
)
    requires
        ctx.has(id),
        trims_before_comparing(ctx, id, starts_with, receiver, search, span),
        text_is_safe(ctx, search, starts_with),
        ctx.spec_kind(receiver) == AstKind::IdentifierReference(ident),
        ident.symbol_id is None,
        ident.name@ != "undefined"@,
    ensures
        renames_trim(trim_report(ctx, id), starts_with, span),
{
    form_is_found(ctx, id, starts_with, receiver, search, span);
    name_that_is_not_followed_tells_nothing(
        ctx,
        receiver,
        ident,
        seq![],
        64,
    );
}

/// A parameter without a type annotation is reported as a receiver.
pub proof fn parameter_without_type_is_reported(
    ctx: &LintContext,
    id: NodeId,
    starts_with: bool,
    receiver: NodeId,
    search: Option<NodeId>,
    span: Span,
    ident: IdentifierReference,
    symbol_id: SymbolId,
)
    requires
        ctx.has(id),
        trims_before_comparing(ctx, id, starts_with, receiver, search, span),
        text_is_safe(ctx, search, starts_with),
        ctx.spec_kind(receiver) == AstKind::IdentifierReference(ident),
        ident.symbol_id == Some(symbol_id),
        !ident.is_global,
        ctx.spec_kind(ctx.declaration(symbol_id)) matches AstKind::FormalParameter {
            is_binding_identifier,
            type_annotation,
            optional,
        } && type_annotation is None,
    ensures
        renames_trim(trim_report(ctx, id), starts_with, span),
{
    form_is_found(ctx, id, starts_with, receiver, search, span);
}

/// A receiver that is a call is reported if its callee is neither a name nor a member of a name.
pub proof fn receiver_that_is_a_call_is_reported(
    ctx: &LintContext,
    id: NodeId,
    starts_with: bool,
    receiver: NodeId,
    search: Option<NodeId>,
    span: Span,
    callee: NodeId,
    arguments: Vec<NodeId>,
    optional: bool,
)
    requires
        ctx.has(id),
        trims_before_comparing(ctx, id, starts_with, receiver, search, span),
        text_is_safe(ctx, search, starts_with),
        ctx.spec_kind(receiver) == (AstKind::CallExpression { callee, arguments, optional }),
        match ctx.spec_kind(ctx.spec_without_parentheses(callee)) {
            AstKind::IdentifierReference(ident) => ident.symbol_id is None,
            AstKind::StaticMemberExpression { object, property, .. } => property@ != "string"@
                || arguments@.len() > 0 || match ctx.spec_kind(
                ctx.spec_without_parentheses(object),
            ) {
                AstKind::IdentifierReference(ident) => ident.symbol_id is None,
                _ => true,
            },
            _ => true,
        },
    ensures
        renames_trim(trim_report(ctx, id), starts_with, span),
{
    form_is_found(ctx, id, starts_with, receiver, search, span);
    call_of_anything_else_tells_nothing(
        ctx,
        receiver,
        callee,
        arguments,
        optional,
        seq![],
        64,
    );
}

} // verus!
