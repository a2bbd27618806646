//! Laws of the helpers that more than one rule uses.
use vstd::prelude::*;

use crate::ast::{AstKind, BinaryOperator, IdentifierReference, LintContext, NodeId, SymbolId};
use crate::ast_util::{kind_is_literal, signature_of};
use crate::diagnostic::{reports, Diagnostic, DiagnosticView};
use crate::resolution::{is_blocked, left, spent, Resolution};

verus! {

/// A program is read as it stands: nothing of a node or a symbol is made up.
pub proof fn program_is_read_as_it_stands(ctx: &LintContext, id: NodeId, symbol_id: SymbolId)
    ensures
        ctx.spec_kind(id) == ctx.nodes@[id as int].kind,
        ctx.spec_span(id) == ctx.nodes@[id as int].span,
        ctx.spec_parent(id) == ctx.nodes@[id as int].parent,
        ctx.declaration(symbol_id) == ctx.symbols@[symbol_id as int].declaration,
        ctx.has(id) == (ctx.wf() && id < ctx.nodes@.len()),
{
}

/// Parentheses do not matter to any of the functions that look through wrappers.
pub proof fn parentheses_do_not_matter(ctx: &LintContext, id: NodeId, expression: NodeId)
    requires
        ctx.has(id),
        ctx.spec_kind(id) == (AstKind::ParenthesizedExpression { expression }),
    ensures
        ctx.spec_without_parentheses(id) == ctx.spec_without_parentheses(expression),
        ctx.spec_inner_expression(id) == ctx.spec_inner_expression(expression),
        ctx.spec_skip_satisfies_and_non_null(id) == ctx.spec_skip_satisfies_and_non_null(
            expression,
        ),
        ctx.uses_optional_chain(id) == ctx.uses_optional_chain(expression),
        ctx.static_string(id) == ctx.static_string(expression),
{
}

/// `satisfies` and `!` do not matter to what looks through more than parentheses.
pub proof fn satisfies_and_non_null_do_not_matter(
    ctx: &LintContext,
    id: NodeId,
    expression: NodeId,
)
    requires
        ctx.has(id),
        ctx.spec_kind(id) == (AstKind::TSSatisfiesExpression { expression }) || ctx.spec_kind(id)
            == (AstKind::TSNonNullExpression { expression }),
    ensures
        ctx.spec_inner_expression(id) == ctx.spec_inner_expression(expression),
        ctx.spec_skip_satisfies_and_non_null(id) == ctx.spec_skip_satisfies_and_non_null(
            expression,
        ),
        ctx.uses_optional_chain(id) == ctx.uses_optional_chain(expression),
        ctx.static_string(id) == ctx.static_string(expression),
{
}

/// Assertions and type arguments do not matter to the value of an expression.
pub proof fn assertions_do_not_matter(
    ctx: &LintContext,
    id: NodeId,
    expression: NodeId,
    type_annotation: NodeId,
)
    requires
        ctx.has(id),
        ctx.spec_kind(id) == (AstKind::TSAsExpression { expression, type_annotation })
            || ctx.spec_kind(id) == (AstKind::TSTypeAssertion { expression, type_annotation })
            || ctx.spec_kind(id) == (AstKind::TSInstantiationExpression { expression }),
    ensures
        ctx.spec_inner_expression(id) == ctx.spec_inner_expression(expression),
        ctx.uses_optional_chain(id) == ctx.uses_optional_chain(expression),
        ctx.static_string(id) == ctx.static_string(expression),
{
}

/// Nothing but a wrapper is looked through: any other expression stands for itself.
pub proof fn other_expressions_stand_for_themselves(ctx: &LintContext, id: NodeId)
    requires
        ctx.has(id),
    ensures
        !(ctx.spec_kind(id) is ParenthesizedExpression) ==> ctx.spec_without_parentheses(id) == id,
        !(ctx.spec_kind(id) is ParenthesizedExpression || ctx.spec_kind(
            id,
        ) is TSSatisfiesExpression || ctx.spec_kind(id) is TSNonNullExpression)
            ==> ctx.spec_skip_satisfies_and_non_null(id) == id,
        !(ctx.spec_kind(id) is ParenthesizedExpression || ctx.spec_kind(
            id,
        ) is TSSatisfiesExpression || ctx.spec_kind(id) is TSNonNullExpression || ctx.spec_kind(
            id,
        ) is TSAsExpression || ctx.spec_kind(id) is TSTypeAssertion || ctx.spec_kind(
            id,
        ) is TSInstantiationExpression) ==> ctx.spec_inner_expression(id) == id,
{
}

/// The first ancestor that counts is the parent, unless that is a pair of parentheses: those have
/// the same first ancestor.
pub proof fn parentheses_are_no_ancestor(ctx: &LintContext, id: NodeId)
    requires
        ctx.has(id),
    ensures
        ctx.spec_parent(id) is None ==> ctx.spec_outermost_paren_parent(id) is None,
        ctx.spec_parent(id) matches Some(parent) ==> {
            ctx.spec_outermost_paren_parent(id) == if ctx.spec_kind(
                parent,
            ) is ParenthesizedExpression {
                ctx.spec_outermost_paren_parent(parent)
            } else {
                Some(parent)
            }
        },
{
}

/// A call uses an optional chain exactly if it is one, or its callee uses one.
pub proof fn call_chains_like_its_callee(
    ctx: &LintContext,
    id: NodeId,
    callee: NodeId,
    arguments: Vec<NodeId>,
    optional: bool,
)
    requires
        ctx.has(id),
        ctx.spec_kind(id) == (AstKind::CallExpression { callee, arguments, optional }),
    ensures
        ctx.uses_optional_chain(id) == (optional || ctx.uses_optional_chain(callee)),
{
}

/// A member access uses an optional chain exactly if it is one, or its object uses one.
pub proof fn member_chains_like_its_object(
    ctx: &LintContext,
    id: NodeId,
    object: NodeId,
    optional: bool,
)
    requires
        ctx.has(id),
        match ctx.spec_kind(id) {
            AstKind::StaticMemberExpression { object: o, optional: p, .. } => o == object && p
                == optional,
            AstKind::ComputedMemberExpression { object: o, optional: p } => o == object && p
                == optional,
            AstKind::PrivateFieldExpression { object: o, optional: p } => o == object && p
                == optional,
            _ => false,
        },
    ensures
        ctx.uses_optional_chain(id) == (optional || ctx.uses_optional_chain(object)),
{
}

/// Nothing but a call or a member access can be a link of an optional chain.
pub proof fn other_expressions_are_no_chain(ctx: &LintContext, id: NodeId)
    requires
        ctx.has(id),
    ensures
        ctx.spec_kind(id) matches AstKind::ChainExpression { expression }
            ==> ctx.uses_optional_chain(id) == ctx.uses_optional_chain(expression),
        match ctx.spec_kind(id) {
            AstKind::ChainExpression { .. }
            | AstKind::CallExpression { .. }
            | AstKind::StaticMemberExpression { .. }
            | AstKind::ComputedMemberExpression { .. }
            | AstKind::PrivateFieldExpression { .. }
            | AstKind::ParenthesizedExpression { .. }
            | AstKind::TSAsExpression { .. }
            | AstKind::TSTypeAssertion { .. }
            | AstKind::TSSatisfiesExpression { .. }
            | AstKind::TSNonNullExpression { .. }
            | AstKind::TSInstantiationExpression { .. } => true,
            _ => !ctx.uses_optional_chain(id),
        },
{
}

/// A text literal has its own text.
pub proof fn literal_has_its_text(ctx: &LintContext, id: NodeId)
    requires
        ctx.has(id),
    ensures
        ctx.spec_kind(id) matches AstKind::StringLiteral { value } ==> ctx.static_string(id)
            == Some(value@),
        ctx.spec_kind(id) matches AstKind::TemplateLiteral { single_quasi } ==> match single_quasi {
            Some(text) => ctx.static_string(id) == Some(text@),
            None => ctx.static_string(id) is None,
        },
{
}

/// The text of a sum is known exactly if both texts are, and is one text after the other. No other
/// operator gives a text.
pub proof fn sum_joins_the_texts(
    ctx: &LintContext,
    id: NodeId,
    operator: BinaryOperator,
    left: NodeId,
    right: NodeId,
)
    requires
        ctx.has(id),
        ctx.spec_kind(id) == (AstKind::BinaryExpression { operator, left, right }),
    ensures
        (ctx.static_string(id) is Some) == (operator == BinaryOperator::Addition
            && ctx.static_string(left) is Some && ctx.static_string(right) is Some),
        ctx.static_string(id) matches Some(text) ==> text == ctx.static_string(left)->0
            + ctx.static_string(right)->0,
{
}

/// No other expression has a text that is known.
pub proof fn other_expressions_have_no_text(ctx: &LintContext, id: NodeId)
    requires
        ctx.has(id),
    ensures
        match ctx.spec_kind(id) {
            AstKind::StringLiteral { .. }
            | AstKind::TemplateLiteral { .. }
            | AstKind::BinaryExpression { .. }
            | AstKind::ParenthesizedExpression { .. }
            | AstKind::TSAsExpression { .. }
            | AstKind::TSTypeAssertion { .. }
            | AstKind::TSSatisfiesExpression { .. }
            | AstKind::TSNonNullExpression { .. }
            | AstKind::TSInstantiationExpression { .. } => true,
            _ => ctx.static_string(id) is None,
        },
{
}

/// A name comes from a module exactly if an import of that module declares it.
pub proof fn import_is_known_by_its_source(
    ctx: &LintContext,
    ident: IdentifierReference,
    module: Seq<char>,
    name: Seq<char>,
)
    requires
        ctx.wf(),
    ensures
        ident.symbol_id is None ==> !ctx.imported_from(ident, module) && !ctx.imports_symbol(
            ident,
            module,
            name,
        ),
        ident.symbol_id matches Some(symbol_id) ==> match ctx.spec_kind(
            ctx.declaration(symbol_id),
        ) {
            AstKind::ImportSpecifier { imported, local, source } => ctx.imported_from(ident, module)
                == (source@ == module) && ctx.imports_symbol(ident, module, name) == (source@
                == module && imported@ == name),
            AstKind::ImportDefaultSpecifier { local, source } => ctx.imported_from(ident, module)
                == (source@ == module) && !ctx.imports_symbol(ident, module, name),
            AstKind::ImportNamespaceSpecifier { source } => ctx.imported_from(ident, module) == (
            source@ == module) && !ctx.imports_symbol(ident, module, name),
            _ => !ctx.imported_from(ident, module) && !ctx.imports_symbol(ident, module, name),
        },
{
}

/// Six kinds of nodes are literals, and no others.
pub proof fn literals_are_these(kind: AstKind)
    ensures
        kind_is_literal(kind) == (kind is BooleanLiteral || kind is NullLiteral
            || kind is NumericLiteral || kind is BigIntLiteral || kind is RegExpLiteral
            || kind is StringLiteral),
{
}

/// A function has the signature that it is written with, and nothing else has one.
pub proof fn signature_is_as_written(kind: AstKind)
    ensures
        (signature_of(kind) is Some) == (kind is Function || kind is ArrowFunctionExpression),
        kind matches AstKind::Function { has_type_parameters, this_type, return_type }
            ==> signature_of(kind)->0.has_type_parameters == has_type_parameters && signature_of(
            kind,
        )->0.return_type == return_type,
        kind matches AstKind::ArrowFunctionExpression { has_type_parameters, return_type }
            ==> signature_of(kind)->0.has_type_parameters == has_type_parameters && signature_of(
            kind,
        )->0.return_type == return_type,
{
}

/// A symbol is blocked exactly if there is no hop left or it is on the path. What is left of a
/// budget and what was used of it make up the budget.
pub proof fn budget_is_counted_in_hops(
    visited: Seq<SymbolId>,
    steps: nat,
    used: nat,
    symbol_id: SymbolId,
)
    ensures
        is_blocked(visited, steps, symbol_id) == (steps == 0 || exists|i: int|
            0 <= i < visited.len() && visited[i] == symbol_id),
        used <= steps ==> left(steps, used) + used == steps,
        used >= steps ==> left(steps, used) == 0,
{
}

/// After a walk the path is as it was, and the budget is less by the hops that were used.
pub proof fn walk_gives_back_its_path(before: Resolution, after: Resolution, used: nat)
    ensures
        spent(before, after, used) == (after.visited@ == before.visited@ && before.steps
            - after.steps == used),
{
}

/// A rule that reports what it should reports all of it, and reports nothing where it should not.
pub proof fn report_is_complete(reported: Option<Diagnostic>, expected: Option<DiagnosticView>)
    requires
        reports(reported, expected),
    ensures
        (reported is Some) == (expected is Some),
        reported matches Some(diagnostic) ==> {
            &&& diagnostic.message@ == expected->0.message
            &&& diagnostic.help@ == expected->0.help
            &&& diagnostic.span == expected->0.span
            &&& (diagnostic.fix is Some) == (expected->0.fix is Some)
            &&& diagnostic.fix matches Some(fix) ==> {
                &&& fix.kind == expected->0.fix->0.kind
                &&& fix.span == expected->0.fix->0.span
                &&& fix.replacement@ == expected->0.fix->0.replacement
                &&& (fix.message is Some) == (expected->0.fix->0.message is Some)
                &&& fix.message matches Some(message) ==> message@
                    == expected->0.fix->0.message->0
            }
        },
{
}

} // verus!
