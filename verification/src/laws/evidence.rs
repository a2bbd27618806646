//! Laws of what has to stand in a program before an answer speaks against a receiver.
use vstd::prelude::*;

use crate::ast::{AstKind, LintContext, NodeId, SymbolId, VariableDeclarationKind};
use crate::laws::receiver_kind::list_is_decided_by_its_members;
use crate::receiver_kind::{
    kind_of_assertion, kind_of_expression, kind_of_type, kind_of_variable, ReceiverKind,
};
use crate::resolution::left;
use crate::string_type::{asserted_string, expression_string, type_string};

verus! {

/// Whether the value of one expression can be that of another: of the expression in a wrapper, of
/// the last in a sequence, of a branch, or of the initializer of a constant that is declared once.
pub open spec fn can_be_the_value_of(ctx: &LintContext, id: NodeId, other: NodeId) -> bool {
    match ctx.nodes@[id as int].kind {
        AstKind::ParenthesizedExpression { expression } => other == expression,
        AstKind::TSSatisfiesExpression { expression } => other == expression,
        AstKind::TSNonNullExpression { expression } => other == expression,
        AstKind::TSAsExpression { expression, type_annotation } => other == expression,
        AstKind::TSTypeAssertion { expression, type_annotation } => other == expression,
        AstKind::SequenceExpression { expressions } => expressions@.len() > 0 && other
            == expressions@[expressions@.len() - 1],
        AstKind::ConditionalExpression { consequent, alternate } => other == consequent || other
            == alternate,
        AstKind::IdentifierReference(ident) => {
            &&& ident.symbol_id matches Some(symbol_id)
            &&& !ctx.symbols@[symbol_id as int].is_redeclared
            &&& ctx.nodes@[ctx.symbols@[symbol_id as int].declaration as int].kind matches
                AstKind::VariableDeclarator {
                kind,
                is_binding_identifier: true,
                type_annotation,
                init: Some(init),
            }
            &&& ctx.symbols@[symbol_id as int].is_const_variable || kind
                == VariableDeclarationKind::Const
            &&& other == init
        },
        _ => false,
    }
}

/// Whether a path leads from one expression to another, each of which can be the value of the one
/// before it.
pub open spec fn leads(ctx: &LintContext, path: Seq<NodeId>, id: NodeId) -> bool {
    &&& path.len() > 0
    &&& path[0] == id
    &&& forall|i: int|
        0 <= i < path.len() - 1 ==> can_be_the_value_of(ctx, #[trigger] path[i], path[i + 1])
}

/// Whether some walk tells that the values of a type are no arrays.
pub open spec fn type_is_no_array(ctx: &LintContext, ts_type: NodeId) -> bool {
    exists|visited: Seq<SymbolId>, steps: nat|
        (#[trigger] kind_of_type(ctx, ts_type, visited, steps)).0 == ReceiverKind::NotArray
}

/// Whether some walk tells that the values of a type are no strings.
pub open spec fn type_is_no_string(ctx: &LintContext, ts_type: NodeId) -> bool {
    exists|visited: Seq<SymbolId>, steps: nat|
        (#[trigger] type_string(ctx, ts_type, visited, steps)).0 == Some(false)
}

/// Whether an expression speaks by itself against being an array: a literal, a template, an object,
/// a function, a class, what `new` gives, `this`, `super`, a call of a declared function, and what
/// is declared or asserted to be something else.
pub open spec fn speaks_against_an_array(ctx: &LintContext, id: NodeId) -> bool {
    match ctx.nodes@[id as int].kind {
        AstKind::BooleanLiteral
        | AstKind::NullLiteral
        | AstKind::NumericLiteral { .. }
        | AstKind::BigIntLiteral
        | AstKind::RegExpLiteral
        | AstKind::StringLiteral { .. }
        | AstKind::TemplateLiteral { .. }
        | AstKind::ObjectExpression
        | AstKind::Function { .. }
        | AstKind::ArrowFunctionExpression { .. }
        | AstKind::Class { .. }
        | AstKind::NewExpression { .. }
        | AstKind::ThisExpression
        | AstKind::Super => true,
        AstKind::CallExpression { callee, arguments, optional } => calls_declared_function(
            ctx,
            callee,
        ),
        AstKind::TSAsExpression { expression, type_annotation } => type_is_no_array(
            ctx,
            type_annotation,
        ),
        AstKind::TSTypeAssertion { expression, type_annotation } => type_is_no_array(
            ctx,
            type_annotation,
        ),
        AstKind::IdentifierReference(ident) => {
            &&& ident.symbol_id matches Some(symbol_id)
            &&& match ctx.nodes@[ctx.symbols@[symbol_id as int].declaration as int].kind {
                AstKind::VariableDeclarator { type_annotation: Some(ts_type), .. } =>
                    type_is_no_array(ctx, ts_type),
                AstKind::FormalParameter { optional: true, .. } => true,
                AstKind::FormalParameter { type_annotation: Some(ts_type), .. } => type_is_no_array(
                    ctx,
                    ts_type,
                ),
                _ => false,
            }
        },
        _ => false,
    }
}

/// Whether an expression is, in any parentheses, a name that a function or a variable declares.
pub open spec fn calls_declared_function(ctx: &LintContext, callee: NodeId) -> bool {
    &&& ctx.nodes@[ctx.spec_without_parentheses(callee) as int].kind matches
        AstKind::IdentifierReference(ident)
    &&& ident.symbol_id matches Some(symbol_id)
    &&& match ctx.nodes@[ctx.symbols@[symbol_id as int].declaration as int].kind {
        AstKind::Function { .. } | AstKind::VariableDeclarator { .. } => true,
        _ => false,
    }
}

/// Whether an expression speaks by itself against being a string: a call of a declared function, and
/// what is declared or asserted to be something else.
pub open spec fn speaks_against_a_string(ctx: &LintContext, id: NodeId) -> bool {
    match ctx.nodes@[id as int].kind {
        AstKind::CallExpression { callee, arguments, optional } => calls_declared_function(
            ctx,
            callee,
        ),
        AstKind::TSAsExpression { expression, type_annotation } => type_is_no_string(
            ctx,
            type_annotation,
        ),
        AstKind::TSTypeAssertion { expression, type_annotation } => type_is_no_string(
            ctx,
            type_annotation,
        ),
        AstKind::IdentifierReference(ident) => {
            &&& ident.symbol_id matches Some(symbol_id)
            &&& match ctx.nodes@[ctx.symbols@[symbol_id as int].declaration as int].kind {
                AstKind::VariableDeclarator { type_annotation: Some(ts_type), .. } =>
                    type_is_no_string(ctx, ts_type),
                AstKind::FormalParameter { type_annotation: Some(ts_type), .. } =>
                    type_is_no_string(ctx, ts_type),
                _ => false,
            }
        },
        _ => false,
    }
}

proof fn path_goes_on(ctx: &LintContext, id: NodeId, next: NodeId, rest: Seq<NodeId>)
    requires
        can_be_the_value_of(ctx, id, next),
        leads(ctx, rest, next),
    ensures
        leads(ctx, seq![id] + rest, id),
        (seq![id] + rest).last() == rest.last(),
{
    let path = seq![id] + rest;
    assert forall|i: int| 0 <= i < path.len() - 1 implies can_be_the_value_of(
        ctx,
        #[trigger] path[i],
        path[i + 1],
    ) by {
        if i > 0 {
            assert(can_be_the_value_of(ctx, rest[i - 1], rest[i]));
        }
    }
}

proof fn path_to_no_array(ctx: &LintContext, id: NodeId, visited: Seq<SymbolId>, steps: nat) -> (path:
    Seq<NodeId>)
    requires
        ctx.has(id),
        kind_of_expression(ctx, id, visited, steps).0 == ReceiverKind::NotArray,
    ensures
        leads(ctx, path, id),
        speaks_against_an_array(ctx, path.last()),
    decreases steps, ctx.nodes@.len() - id,
{
    reveal_with_fuel(kind_of_expression, 2);
    reveal_with_fuel(kind_of_assertion, 2);
    reveal_with_fuel(kind_of_variable, 2);
    let here = seq![id];
    if speaks_against_an_array(ctx, id) {
        here
    } else {
        match ctx.spec_kind(id) {
            AstKind::ParenthesizedExpression { expression }
            | AstKind::TSSatisfiesExpression { expression }
            | AstKind::TSNonNullExpression { expression } => {
                let rest = path_to_no_array(ctx, expression, visited, steps);
                path_goes_on(ctx, id, expression, rest);
                here + rest
            },
            AstKind::TSAsExpression { expression, type_annotation }
            | AstKind::TSTypeAssertion { expression, type_annotation } => {
                let used = kind_of_type(ctx, type_annotation, visited, steps).1;
                let rest = path_to_no_array(ctx, expression, visited, left(steps, used));
                path_goes_on(ctx, id, expression, rest);
                here + rest
            },
            AstKind::SequenceExpression { expressions } => {
                let last = expressions@.last();
                let rest = path_to_no_array(ctx, last, visited, steps);
                path_goes_on(ctx, id, last, rest);
                here + rest
            },
            AstKind::ConditionalExpression { consequent, alternate } => {
                let (first, used) = kind_of_expression(ctx, consequent, visited, steps);
                let second = kind_of_expression(ctx, alternate, visited, left(steps, used)).0;
                let kinds = seq![first, second];
                list_is_decided_by_its_members(kinds);
                assert(kinds[0] == first && kinds[1] == second);
                if first == ReceiverKind::NotArray {
                    let rest = path_to_no_array(ctx, consequent, visited, steps);
                    path_goes_on(ctx, id, consequent, rest);
                    here + rest
                } else {
                    let rest = path_to_no_array(ctx, alternate, visited, left(steps, used));
                    path_goes_on(ctx, id, alternate, rest);
                    here + rest
                }
            },
            AstKind::IdentifierReference(ident) => {
                let symbol_id = ident.symbol_id->0;
                let path = visited.push(symbol_id);
                let rest_steps = (steps - 1) as nat;
                let declaration = ctx.declaration(symbol_id);
                assert(ctx.has(declaration));
                match ctx.spec_kind(declaration) {
                    AstKind::VariableDeclarator { type_annotation, init: Some(init), .. } => {
                        let used = match type_annotation {
                            Some(ts_type) => kind_of_type(ctx, ts_type, path, rest_steps).1,
                            None => 0,
                        };
                        let rest = path_to_no_array(ctx, init, path, left(rest_steps, used));
                        path_goes_on(ctx, id, init, rest);
                        here + rest
                    },
                    _ => here,
                }
            },
            _ => here,
        }
    }
}

/// A receiver is known to be no array only if a path leads from it to an expression that speaks
/// against that by itself.
pub proof fn something_speaks_against_an_array(
    ctx: &LintContext,
    id: NodeId,
    visited: Seq<SymbolId>,
    steps: nat,
)
    requires
        ctx.has(id),
        kind_of_expression(ctx, id, visited, steps).0 == ReceiverKind::NotArray,
    ensures
        exists|path: Seq<NodeId>| #[trigger]
            leads(ctx, path, id) && speaks_against_an_array(ctx, path.last()),
{
    let path = path_to_no_array(ctx, id, visited, steps);
    assert(leads(ctx, path, id));
}

proof fn path_to_no_string(ctx: &LintContext, id: NodeId, visited: Seq<SymbolId>, steps: nat) -> (path:
    Seq<NodeId>)
    requires
        ctx.has(id),
        expression_string(ctx, id, visited, steps).0 == Some(false),
    ensures
        leads(ctx, path, id),
        speaks_against_a_string(ctx, path.last()),
    decreases steps, ctx.nodes@.len() - id,
{
    reveal_with_fuel(expression_string, 2);
    reveal_with_fuel(asserted_string, 2);
    let here = seq![id];
    if speaks_against_a_string(ctx, id) {
        here
    } else {
        match ctx.spec_kind(id) {
            AstKind::ParenthesizedExpression { expression }
            | AstKind::TSSatisfiesExpression { expression }
            | AstKind::TSNonNullExpression { expression } => {
                let rest = path_to_no_string(ctx, expression, visited, steps);
                path_goes_on(ctx, id, expression, rest);
                here + rest
            },
            AstKind::TSAsExpression { expression, type_annotation }
            | AstKind::TSTypeAssertion { expression, type_annotation } => {
                let used = type_string(ctx, type_annotation, visited, steps).1;
                let rest = path_to_no_string(ctx, expression, visited, left(steps, used));
                path_goes_on(ctx, id, expression, rest);
                here + rest
            },
            AstKind::SequenceExpression { expressions } => {
                let last = expressions@.last();
                let rest = path_to_no_string(ctx, last, visited, steps);
                path_goes_on(ctx, id, last, rest);
                here + rest
            },
            AstKind::ConditionalExpression { consequent, alternate } => {
                let rest = path_to_no_string(ctx, consequent, visited, steps);
                path_goes_on(ctx, id, consequent, rest);
                here + rest
            },
            AstKind::IdentifierReference(ident) => {
                let symbol_id = ident.symbol_id->0;
                let path = visited.push(symbol_id);
                let rest_steps = (steps - 1) as nat;
                let declaration = ctx.declaration(symbol_id);
                assert(ctx.has(declaration));
                match ctx.spec_kind(declaration) {
                    AstKind::VariableDeclarator { type_annotation, init: Some(init), .. } => {
                        let used = match type_annotation {
                            Some(ts_type) => type_string(ctx, ts_type, path, rest_steps).1,
                            None => 0,
                        };
                        let rest = path_to_no_string(ctx, init, path, left(rest_steps, used));
                        path_goes_on(ctx, id, init, rest);
                        here + rest
                    },
                    _ => here,
                }
            },
            _ => here,
        }
    }
}

/// A receiver is told to be no string by its type only if a path leads from it to an expression that
/// speaks against that by itself.
pub proof fn something_speaks_against_a_string(
    ctx: &LintContext,
    id: NodeId,
    visited: Seq<SymbolId>,
    steps: nat,
)
    requires
        ctx.has(id),
        expression_string(ctx, id, visited, steps).0 == Some(false),
    ensures
        exists|path: Seq<NodeId>| #[trigger]
            leads(ctx, path, id) && speaks_against_a_string(ctx, path.last()),
{
    let path = path_to_no_string(ctx, id, visited, steps);
    assert(leads(ctx, path, id));
}

} // verus!
