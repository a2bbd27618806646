//! Laws of the hop budget: a walk takes no more hops than it has, and a walk that leaves hops
//! over finds the same with a larger budget.
use vstd::prelude::*;

use crate::ast::{
    all_below, operands, AstKind, IdentifierReference, LintContext, NodeId, SymbolId,
    TSTypeOperatorOperator,
};
use crate::receiver_kind::{
    called_signature, kind_of_annotation, kind_of_assertion, kind_of_call, kind_of_class,
    kind_of_class_reference, kind_of_expression, kind_of_super, kind_of_this, kind_of_type,
    kind_of_type_reference, kind_of_variable, kinds_of_names, kinds_of_types, single_init,
    ReceiverKind,
};
use crate::resolution::{is_blocked, left, MAX_RESOLVE_STEPS};
use crate::static_length::{
    constant_init, gives_boolean, length_within, never_gives_number, reads_member,
    some_child_reads_member, value_of, StaticValue,
};
use crate::string_type::{
    all_types_agree, annotation_string, asserted_string, class_reference_string, class_string,
    const_init, declared_return_type, expression_string, names_until_string, single_declaration,
    type_name_string, type_string, types_until_string,
};

verus! {

proof fn class_string_budget(
    ctx: &LintContext,
    heritage: Option<NodeId>,
    visited: Seq<SymbolId>,
    steps: nat,
    extra: nat,
)
    requires
        heritage matches Some(heritage) ==> ctx.has(heritage),
    ensures
        class_string(ctx, heritage, visited, steps).1 <= steps,
        class_string(ctx, heritage, visited, steps).1 < steps ==> class_string(
            ctx,
            heritage,
            visited,
            steps + extra,
        ) == class_string(ctx, heritage, visited, steps),
    decreases
            steps,
            (match heritage {
                Some(heritage) => ctx.nodes@.len() - heritage,
                None => 0,
            }),
            1nat,
{
    match heritage {
        Some(heritage) => class_reference_string_budget(ctx, heritage, visited, steps, extra),
        None => {},
    }
}

proof fn class_reference_string_budget(
    ctx: &LintContext,
    id: NodeId,
    visited: Seq<SymbolId>,
    steps: nat,
    extra: nat,
)
    requires
        ctx.has(id),
    ensures
        class_reference_string(ctx, id, visited, steps).1 <= steps,
        class_reference_string(ctx, id, visited, steps).1 < steps ==> class_reference_string(
            ctx,
            id,
            visited,
            steps + extra,
        ) == class_reference_string(ctx, id, visited, steps),
    decreases steps, ctx.nodes@.len() - id, 0nat,
{
    ctx.lemma_without_parentheses(id);
    let inner = ctx.spec_without_parentheses(id);
    match ctx.spec_kind(inner) {
        AstKind::IdentifierReference(ident) => match ident.symbol_id {
            Some(symbol_id) => if !is_blocked(visited, steps, symbol_id) {
                let path = visited.push(symbol_id);
                let rest = (steps - 1) as nat;
                let declaration = ctx.spec_kind(ctx.declaration(symbol_id));
                assert((steps + extra - 1) as nat == rest + extra);
                match declaration {
                    AstKind::VariableDeclarator { .. } => match const_init(declaration) {
                        Some(init) => class_reference_string_budget(ctx, init, path, rest, extra),
                        None => {},
                    },
                    AstKind::Class { heritage } => class_string_budget(
                        ctx,
                        heritage,
                        path,
                        rest,
                        extra,
                    ),
                    _ => {},
                }
            },
            None => {},
        },
        AstKind::Class { heritage } => class_string_budget(ctx, heritage, visited, steps, extra),
        _ => {},
    }
}

pub(crate) proof fn type_string_budget(
    ctx: &LintContext,
    id: NodeId,
    visited: Seq<SymbolId>,
    steps: nat,
    extra: nat,
)
    requires
        ctx.has(id),
    ensures
        type_string(ctx, id, visited, steps).1 <= steps,
        type_string(ctx, id, visited, steps).1 < steps ==> type_string(
            ctx,
            id,
            visited,
            steps + extra,
        ) == type_string(ctx, id, visited, steps),
    decreases steps, ctx.nodes@.len() - id, 0nat,
{
    match ctx.spec_kind(id) {
        AstKind::TSParenthesizedType { type_annotation } => {
            type_string_budget(ctx, type_annotation, visited, steps, extra);
        },
        AstKind::TSTypeOperator { operator, type_annotation } => {
            if operator == TSTypeOperatorOperator::Readonly {
                type_string_budget(ctx, type_annotation, visited, steps, extra);
            }
        },
        AstKind::TSUnionType { types } => {
            if types@.len() > 0 {
                type_string_budget(ctx, types@[0], visited, steps, extra);
                let (first, used) = type_string(ctx, types@[0], visited, steps);
                match first {
                    Some(first) => all_types_agree_budget(
                        ctx,
                        id,
                        types@,
                        1,
                        first,
                        visited,
                        left(steps, used),
                        extra,
                    ),
                    None => {},
                }
                assert(used <= steps ==> left(steps + extra, used) == left(steps, used) + extra);
            }
        },
        AstKind::TSIntersectionType { types } => {
            types_until_string_budget(ctx, id, types@, 0, visited, steps, extra);
        },
        AstKind::TSTypeReference { name } => {
            type_name_string_budget(ctx, name, visited, steps, extra);
        },
        _ => {},
    }
}

pub(crate) proof fn all_types_agree_budget(
    ctx: &LintContext,
    owner: NodeId,
    types: Seq<NodeId>,
    from: nat,
    first: bool,
    visited: Seq<SymbolId>,
    steps: nat,
    extra: nat,
)
    requires
        ctx.has(owner),
        all_below(owner, types, ctx.nodes@.len()),
    ensures
        all_types_agree(ctx, owner, types, from, first, visited, steps).1 <= steps,
        all_types_agree(ctx, owner, types, from, first, visited, steps).1 < steps
            ==> all_types_agree(ctx, owner, types, from, first, visited, steps + extra)
            == all_types_agree(ctx, owner, types, from, first, visited, steps),
    decreases steps, ctx.nodes@.len() - owner - 1, types.len() - from,
{
    if from < types.len() {
        type_string_budget(ctx, types[from as int], visited, steps, extra);
        let (answer, used) = type_string(ctx, types[from as int], visited, steps);
        assert(left(steps + extra, used) == left(steps, used) + extra);
        if answer == Some(first) {
            all_types_agree_budget(
                ctx,
                owner,
                types,
                from + 1,
                first,
                visited,
                left(steps, used),
                extra,
            );
        }
    }
}

pub(crate) proof fn types_until_string_budget(
    ctx: &LintContext,
    owner: NodeId,
    types: Seq<NodeId>,
    from: nat,
    visited: Seq<SymbolId>,
    steps: nat,
    extra: nat,
)
    requires
        ctx.has(owner),
        all_below(owner, types, ctx.nodes@.len()),
    ensures
        types_until_string(ctx, owner, types, from, visited, steps).1 <= steps,
        types_until_string(ctx, owner, types, from, visited, steps).1 < steps
            ==> types_until_string(ctx, owner, types, from, visited, steps + extra)
            == types_until_string(ctx, owner, types, from, visited, steps),
    decreases steps, ctx.nodes@.len() - owner - 1, types.len() - from,
{
    if from < types.len() {
        type_string_budget(ctx, types[from as int], visited, steps, extra);
        let (answer, used) = type_string(ctx, types[from as int], visited, steps);
        assert(left(steps + extra, used) == left(steps, used) + extra);
        if answer != Some(true) {
            types_until_string_budget(
                ctx,
                owner,
                types,
                from + 1,
                visited,
                left(steps, used),
                extra,
            );
        }
    }
}

pub(crate) proof fn type_name_string_budget(
    ctx: &LintContext,
    id: NodeId,
    visited: Seq<SymbolId>,
    steps: nat,
    extra: nat,
)
    requires
        ctx.has(id),
    ensures
        type_name_string(ctx, id, visited, steps).1 <= steps,
        type_name_string(ctx, id, visited, steps).1 < steps ==> type_name_string(
            ctx,
            id,
            visited,
            steps + extra,
        ) == type_name_string(ctx, id, visited, steps),
    decreases steps, ctx.nodes@.len() - id, 0nat,
{
    match ctx.spec_kind(id) {
        AstKind::IdentifierReference(ident) => match ident.symbol_id {
            Some(symbol_id) => if !is_blocked(visited, steps, symbol_id) {
                let path = visited.push(symbol_id);
                let rest = (steps - 1) as nat;
                let declaration = ctx.declaration(symbol_id);
                assert((steps + extra - 1) as nat == rest + extra);
                match ctx.spec_kind(declaration) {
                    AstKind::TSTypeAliasDeclaration { type_annotation } => type_string_budget(
                        ctx,
                        type_annotation,
                        path,
                        rest,
                        extra,
                    ),
                    AstKind::TSTypeParameter { constraint } => match constraint {
                        Some(constraint) => type_string_budget(ctx, constraint, path, rest, extra),
                        None => {},
                    },
                    AstKind::TSInterfaceDeclaration { extends } => names_until_string_budget(
                        ctx,
                        declaration,
                        extends@,
                        0,
                        path,
                        rest,
                        extra,
                    ),
                    AstKind::Class { heritage } => class_string_budget(
                        ctx,
                        heritage,
                        path,
                        rest,
                        extra,
                    ),
                    _ => {},
                }
            },
            None => {},
        },
        _ => {},
    }
}

pub(crate) proof fn names_until_string_budget(
    ctx: &LintContext,
    owner: NodeId,
    names: Seq<NodeId>,
    from: nat,
    visited: Seq<SymbolId>,
    steps: nat,
    extra: nat,
)
    requires
        ctx.has(owner),
        all_below(owner, names, ctx.nodes@.len()),
    ensures
        names_until_string(ctx, owner, names, from, visited, steps).1 <= steps,
        names_until_string(ctx, owner, names, from, visited, steps).1 < steps
            ==> names_until_string(ctx, owner, names, from, visited, steps + extra)
            == names_until_string(ctx, owner, names, from, visited, steps),
    decreases steps, ctx.nodes@.len() - owner - 1, names.len() - from,
{
    if from < names.len() {
        type_name_string_budget(ctx, names[from as int], visited, steps, extra);
        let (answer, used) = type_name_string(ctx, names[from as int], visited, steps);
        assert(left(steps + extra, used) == left(steps, used) + extra);
        if answer != Some(true) {
            names_until_string_budget(
                ctx,
                owner,
                names,
                from + 1,
                visited,
                left(steps, used),
                extra,
            );
        }
    }
}

proof fn annotation_string_budget(
    ctx: &LintContext,
    annotation: Option<NodeId>,
    visited: Seq<SymbolId>,
    steps: nat,
    extra: nat,
)
    requires
        annotation matches Some(ts_type) ==> ctx.has(ts_type),
    ensures
        annotation_string(ctx, annotation, visited, steps).1 <= steps,
        annotation_string(ctx, annotation, visited, steps).1 < steps ==> annotation_string(
            ctx,
            annotation,
            visited,
            steps + extra,
        ) == annotation_string(ctx, annotation, visited, steps),
{
    match annotation {
        Some(ts_type) => type_string_budget(ctx, ts_type, visited, steps, extra),
        None => {},
    }
}

proof fn asserted_string_budget(
    ctx: &LintContext,
    expression: NodeId,
    type_annotation: NodeId,
    visited: Seq<SymbolId>,
    steps: nat,
    extra: nat,
)
    requires
        ctx.has(expression),
        ctx.has(type_annotation),
    ensures
        asserted_string(ctx, expression, type_annotation, visited, steps).1 <= steps,
        asserted_string(ctx, expression, type_annotation, visited, steps).1 < steps
            ==> asserted_string(ctx, expression, type_annotation, visited, steps + extra)
            == asserted_string(ctx, expression, type_annotation, visited, steps),
    decreases steps, ctx.nodes@.len() - expression, 1nat,
{
    type_string_budget(ctx, type_annotation, visited, steps, extra);
    let used = type_string(ctx, type_annotation, visited, steps).1;
    assert(left(steps + extra, used) == left(steps, used) + extra);
    string_walk_keeps_to_its_budget(ctx, expression, visited, left(steps, used), extra);
}

/// The walk that asks whether an expression is a string takes no more hops than it has. If it
/// leaves some over, a larger budget changes nothing.
pub proof fn string_walk_keeps_to_its_budget(
    ctx: &LintContext,
    id: NodeId,
    visited: Seq<SymbolId>,
    steps: nat,
    extra: nat,
)
    requires
        ctx.has(id),
    ensures
        expression_string(ctx, id, visited, steps).1 <= steps,
        expression_string(ctx, id, visited, steps).1 < steps ==> expression_string(
            ctx,
            id,
            visited,
            steps + extra,
        ) == expression_string(ctx, id, visited, steps),
    decreases steps, ctx.nodes@.len() - id, 0nat,
{
    match ctx.spec_kind(id) {
        AstKind::ParenthesizedExpression { expression } => {
            string_walk_keeps_to_its_budget(ctx, expression, visited, steps, extra);
        },
        AstKind::TSSatisfiesExpression { expression } => {
            string_walk_keeps_to_its_budget(ctx, expression, visited, steps, extra);
        },
        AstKind::TSNonNullExpression { expression } => {
            string_walk_keeps_to_its_budget(ctx, expression, visited, steps, extra);
        },
        AstKind::TSAsExpression { expression, type_annotation } => {
            asserted_string_budget(ctx, expression, type_annotation, visited, steps, extra);
        },
        AstKind::TSTypeAssertion { expression, type_annotation } => {
            asserted_string_budget(ctx, expression, type_annotation, visited, steps, extra);
        },
        AstKind::SequenceExpression { expressions } => {
            if expressions@.len() > 0 {
                string_walk_keeps_to_its_budget(ctx, expressions@.last(), visited, steps, extra);
            }
        },
        AstKind::ConditionalExpression { consequent, alternate } => {
            string_walk_keeps_to_its_budget(ctx, consequent, visited, steps, extra);
            let (first, used) = expression_string(ctx, consequent, visited, steps);
            assert(left(steps + extra, used) == left(steps, used) + extra);
            string_walk_keeps_to_its_budget(ctx, alternate, visited, left(steps, used), extra);
        },
        AstKind::IdentifierReference(ident) => match single_declaration(ctx, ident) {
            Some(symbol_id) => if !is_blocked(visited, steps, symbol_id) {
                let path = visited.push(symbol_id);
                let rest = (steps - 1) as nat;
                let declaration = ctx.spec_kind(ctx.declaration(symbol_id));
                assert((steps + extra - 1) as nat == rest + extra);
                match declaration {
                    AstKind::FormalParameter {
                        is_binding_identifier,
                        type_annotation,
                        optional,
                    } => annotation_string_budget(ctx, type_annotation, path, rest, extra),
                    AstKind::VariableDeclarator {
                        kind,
                        is_binding_identifier,
                        type_annotation,
                        init,
                    } => {
                        annotation_string_budget(ctx, type_annotation, path, rest, extra);
                        let used = annotation_string(ctx, type_annotation, path, rest).1;
                        assert(left(rest + extra, used) == left(rest, used) + extra);
                        match const_init(declaration) {
                            Some(init) => string_walk_keeps_to_its_budget(
                                ctx,
                                init,
                                path,
                                left(rest, used),
                                extra,
                            ),
                            None => {},
                        }
                    },
                    _ => {},
                }
            },
            None => {},
        },
        AstKind::CallExpression { callee, arguments, optional } => {
            ctx.lemma_without_parentheses(callee);
            match ctx.spec_kind(ctx.spec_without_parentheses(callee)) {
                AstKind::IdentifierReference(ident) => match single_declaration(ctx, ident) {
                    Some(symbol_id) => if !is_blocked(visited, steps, symbol_id) {
                        let declaration = ctx.spec_kind(ctx.declaration(symbol_id));
                        let rest = (steps - 1) as nat;
                        assert((steps + extra - 1) as nat == rest + extra);
                        declared_return_type_exists(ctx, ctx.declaration(symbol_id));
                        annotation_string_budget(
                            ctx,
                            declared_return_type(ctx, declaration),
                            visited.push(symbol_id),
                            rest,
                            extra,
                        );
                    },
                    None => {},
                },
                _ => {},
            }
        },
        _ => {},
    }
}

proof fn declared_return_type_exists(ctx: &LintContext, declaration: NodeId)
    requires
        ctx.has(declaration),
    ensures
        declared_return_type(ctx, ctx.spec_kind(declaration)) matches Some(return_type) ==> ctx.has(
            return_type,
        ),
{
    match const_init(ctx.spec_kind(declaration)) {
        Some(init) => ctx.lemma_skip_satisfies_and_non_null(init),
        None => {},
    }
}

proof fn kind_of_class_budget(
    ctx: &LintContext,
    heritage: Option<NodeId>,
    visited: Seq<SymbolId>,
    steps: nat,
    extra: nat,
)
    requires
        heritage matches Some(heritage) ==> ctx.has(heritage),
    ensures
        kind_of_class(ctx, heritage, visited, steps).1 <= steps,
        kind_of_class(ctx, heritage, visited, steps).1 < steps
            ==> kind_of_class(ctx, heritage, visited, steps + extra)
            == kind_of_class(ctx, heritage, visited, steps),
    decreases
            steps,
            (match heritage {
                Some(heritage) => ctx.nodes@.len() - heritage,
                None => 0,
            }),
            1nat,
{
    match heritage {
        Some(heritage) => kind_of_class_reference_budget(ctx, heritage, visited, steps, extra),
        None => {},
    }
}

proof fn kind_of_class_reference_budget(
    ctx: &LintContext,
    id: NodeId,
    visited: Seq<SymbolId>,
    steps: nat,
    extra: nat,
)
    requires
        ctx.has(id),
    ensures
        kind_of_class_reference(ctx, id, visited, steps).1 <= steps,
        kind_of_class_reference(ctx, id, visited, steps).1 < steps
            ==> kind_of_class_reference(ctx, id, visited, steps + extra)
            == kind_of_class_reference(ctx, id, visited, steps),
    decreases steps, ctx.nodes@.len() - id, 0nat,
{
    ctx.lemma_without_parentheses(id);
    match ctx.spec_kind(ctx.spec_without_parentheses(id)) {
        AstKind::IdentifierReference(ident) => match ident.symbol_id {
            Some(symbol_id) => if !is_blocked(visited, steps, symbol_id) {
                let path = visited.push(symbol_id);
                let rest = (steps - 1) as nat;
                let declaration = ctx.spec_kind(ctx.declaration(symbol_id));
                assert((steps + extra - 1) as nat == rest + extra);
                match declaration {
                    AstKind::VariableDeclarator { .. } => match single_init(declaration) {
                        Some(init) => kind_of_class_reference_budget(ctx, init, path, rest, extra),
                        None => {},
                    },
                    AstKind::Class { heritage } => kind_of_class_budget(
                        ctx,
                        heritage,
                        path,
                        rest,
                        extra,
                    ),
                    _ => {},
                }
            },
            None => {},
        },
        AstKind::Class { heritage } => kind_of_class_budget(ctx, heritage, visited, steps, extra),
        _ => {},
    }
}

pub(crate) proof fn kind_of_type_budget(
    ctx: &LintContext,
    id: NodeId,
    visited: Seq<SymbolId>,
    steps: nat,
    extra: nat,
)
    requires
        ctx.has(id),
    ensures
        kind_of_type(ctx, id, visited, steps).1 <= steps,
        kind_of_type(ctx, id, visited, steps).1 < steps
            ==> kind_of_type(ctx, id, visited, steps + extra)
            == kind_of_type(ctx, id, visited, steps),
    decreases steps, ctx.nodes@.len() - id, 0nat,
{
    match ctx.spec_kind(id) {
        AstKind::TSParenthesizedType { type_annotation } => {
            kind_of_type_budget(ctx, type_annotation, visited, steps, extra);
        },
        AstKind::TSTypeOperator { operator, type_annotation } => {
            if operator == TSTypeOperatorOperator::Readonly {
                kind_of_type_budget(ctx, type_annotation, visited, steps, extra);
            }
        },
        AstKind::TSTypeReference { name } => {
            kind_of_type_reference_budget(ctx, name, visited, steps, extra);
        },
        AstKind::TSUnionType { types } => {
            let stop = ReceiverKind::NotArray;
            kinds_of_types_budget(ctx, id, types@, 0, stop, visited, steps, extra);
        },
        AstKind::TSIntersectionType { types } => {
            let stop = ReceiverKind::Array;
            kinds_of_types_budget(ctx, id, types@, 0, stop, visited, steps, extra);
        },
        _ => {},
    }
}

pub(crate) proof fn kinds_of_types_budget(
    ctx: &LintContext,
    owner: NodeId,
    types: Seq<NodeId>,
    from: nat,
    stop: ReceiverKind,
    visited: Seq<SymbolId>,
    steps: nat,
    extra: nat,
)
    requires
        ctx.has(owner),
        all_below(owner, types, ctx.nodes@.len()),
    ensures
        kinds_of_types(ctx, owner, types, from, stop, visited, steps).1 <= steps,
        kinds_of_types(ctx, owner, types, from, stop, visited, steps).1 < steps
            ==> kinds_of_types(ctx, owner, types, from, stop, visited, steps + extra)
            == kinds_of_types(ctx, owner, types, from, stop, visited, steps),
    decreases steps, ctx.nodes@.len() - owner - 1, types.len() - from,
{
    if from < types.len() {
        kind_of_type_budget(ctx, types[from as int], visited, steps, extra);
        let (kind, used) = kind_of_type(ctx, types[from as int], visited, steps);
        assert(left(steps + extra, used) == left(steps, used) + extra);
        if kind != stop {
            let rest = left(steps, used);
            kinds_of_types_budget(ctx, owner, types, from + 1, stop, visited, rest, extra);
        }
    }
}

pub(crate) proof fn kind_of_type_reference_budget(
    ctx: &LintContext,
    id: NodeId,
    visited: Seq<SymbolId>,
    steps: nat,
    extra: nat,
)
    requires
        ctx.has(id),
    ensures
        kind_of_type_reference(ctx, id, visited, steps).1 <= steps,
        kind_of_type_reference(ctx, id, visited, steps).1 < steps
            ==> kind_of_type_reference(ctx, id, visited, steps + extra)
            == kind_of_type_reference(ctx, id, visited, steps),
    decreases steps, ctx.nodes@.len() - id, 0nat,
{
    match ctx.spec_kind(id) {
        AstKind::IdentifierReference(ident) => match ident.symbol_id {
            Some(symbol_id) => if !is_blocked(visited, steps, symbol_id) {
                let path = visited.push(symbol_id);
                let rest = (steps - 1) as nat;
                let declaration = ctx.declaration(symbol_id);
                assert((steps + extra - 1) as nat == rest + extra);
                match ctx.spec_kind(declaration) {
                    AstKind::TSTypeAliasDeclaration { type_annotation } => kind_of_type_budget(
                        ctx,
                        type_annotation,
                        path,
                        rest,
                        extra,
                    ),
                    AstKind::TSTypeParameter { constraint } => match constraint {
                        Some(constraint) => kind_of_type_budget(ctx, constraint, path, rest, extra),
                        None => {},
                    },
                    AstKind::TSInterfaceDeclaration { extends } => kinds_of_names_budget(
                        ctx,
                        declaration,
                        extends@,
                        0,
                        ReceiverKind::Array,
                        path,
                        rest,
                        extra,
                    ),
                    AstKind::Class { heritage } => kind_of_class_budget(
                        ctx,
                        heritage,
                        path,
                        rest,
                        extra,
                    ),
                    _ => {},
                }
            },
            None => {},
        },
        _ => {},
    }
}

pub(crate) proof fn kinds_of_names_budget(
    ctx: &LintContext,
    owner: NodeId,
    names: Seq<NodeId>,
    from: nat,
    stop: ReceiverKind,
    visited: Seq<SymbolId>,
    steps: nat,
    extra: nat,
)
    requires
        ctx.has(owner),
        all_below(owner, names, ctx.nodes@.len()),
    ensures
        kinds_of_names(ctx, owner, names, from, stop, visited, steps).1 <= steps,
        kinds_of_names(ctx, owner, names, from, stop, visited, steps).1 < steps
            ==> kinds_of_names(ctx, owner, names, from, stop, visited, steps + extra)
            == kinds_of_names(ctx, owner, names, from, stop, visited, steps),
    decreases steps, ctx.nodes@.len() - owner - 1, names.len() - from,
{
    if from < names.len() {
        kind_of_type_reference_budget(ctx, names[from as int], visited, steps, extra);
        let (kind, used) = kind_of_type_reference(ctx, names[from as int], visited, steps);
        assert(left(steps + extra, used) == left(steps, used) + extra);
        if kind != stop {
            let rest = left(steps, used);
            kinds_of_names_budget(ctx, owner, names, from + 1, stop, visited, rest, extra);
        }
    }
}

proof fn kind_of_annotation_budget(
    ctx: &LintContext,
    annotation: Option<NodeId>,
    visited: Seq<SymbolId>,
    steps: nat,
    extra: nat,
)
    requires
        annotation matches Some(ts_type) ==> ctx.has(ts_type),
    ensures
        kind_of_annotation(ctx, annotation, visited, steps).1 <= steps,
        kind_of_annotation(ctx, annotation, visited, steps).1 < steps
            ==> kind_of_annotation(ctx, annotation, visited, steps + extra)
            == kind_of_annotation(ctx, annotation, visited, steps),
{
    match annotation {
        Some(ts_type) => kind_of_type_budget(ctx, ts_type, visited, steps, extra),
        None => {},
    }
}

proof fn kind_of_this_budget(
    ctx: &LintContext,
    id: NodeId,
    visited: Seq<SymbolId>,
    steps: nat,
    extra: nat,
)
    requires
        ctx.has(id),
    ensures
        kind_of_this(ctx, id, visited, steps).1 <= steps,
        kind_of_this(ctx, id, visited, steps).1 < steps
            ==> kind_of_this(ctx, id, visited, steps + extra)
            == kind_of_this(ctx, id, visited, steps),
    decreases id,
{
    match ctx.spec_parent(id) {
        Some(ancestor) => match ctx.spec_kind(ancestor) {
            AstKind::Class { heritage } => {
                kind_of_class_budget(ctx, heritage, visited, steps, extra);
            },
            AstKind::Function { has_type_parameters, this_type, return_type } => {
                kind_of_annotation_budget(ctx, this_type, visited, steps, extra);
                let used = kind_of_annotation(ctx, this_type, visited, steps).1;
                assert(left(steps + extra, used) == left(steps, used) + extra);
                kind_of_this_budget(ctx, ancestor, visited, left(steps, used), extra);
            },
            _ => kind_of_this_budget(ctx, ancestor, visited, steps, extra),
        },
        None => {},
    }
}

proof fn kind_of_super_budget(
    ctx: &LintContext,
    id: NodeId,
    visited: Seq<SymbolId>,
    steps: nat,
    extra: nat,
)
    requires
        ctx.has(id),
    ensures
        kind_of_super(ctx, id, visited, steps).1 <= steps,
        kind_of_super(ctx, id, visited, steps).1 < steps
            ==> kind_of_super(ctx, id, visited, steps + extra)
            == kind_of_super(ctx, id, visited, steps),
    decreases id,
{
    match ctx.spec_parent(id) {
        Some(ancestor) => match ctx.spec_kind(ancestor) {
            AstKind::Class { heritage } => {
                kind_of_class_budget(ctx, heritage, visited, steps, extra);
            },
            _ => kind_of_super_budget(ctx, ancestor, visited, steps, extra),
        },
        None => {},
    }
}

proof fn kind_of_call_budget(
    ctx: &LintContext,
    callee: NodeId,
    visited: Seq<SymbolId>,
    steps: nat,
    extra: nat,
)
    requires
        ctx.has(callee),
    ensures
        kind_of_call(ctx, callee, visited, steps).1 <= steps,
        kind_of_call(ctx, callee, visited, steps).1 < steps
            ==> kind_of_call(ctx, callee, visited, steps + extra)
            == kind_of_call(ctx, callee, visited, steps),
{
    ctx.lemma_without_parentheses(callee);
    match ctx.spec_kind(ctx.spec_without_parentheses(callee)) {
        AstKind::IdentifierReference(ident) => match ident.symbol_id {
            Some(symbol_id) => match called_signature(ctx, symbol_id) {
                Some(signature) => {
                    match single_init(ctx.spec_kind(ctx.declaration(symbol_id))) {
                        Some(init) => ctx.lemma_skip_satisfies_and_non_null(init),
                        None => {},
                    }
                    kind_of_annotation_budget(ctx, signature.return_type, visited, steps, extra);
                },
                None => {},
            },
            None => {},
        },
        _ => {},
    }
}

proof fn kind_of_assertion_budget(
    ctx: &LintContext,
    expression: NodeId,
    type_annotation: NodeId,
    visited: Seq<SymbolId>,
    steps: nat,
    extra: nat,
)
    requires
        ctx.has(expression),
        ctx.has(type_annotation),
    ensures
        kind_of_assertion(ctx, expression, type_annotation, visited, steps).1 <= steps,
        kind_of_assertion(ctx, expression, type_annotation, visited, steps).1 < steps
            ==> kind_of_assertion(ctx, expression, type_annotation, visited, steps + extra)
            == kind_of_assertion(ctx, expression, type_annotation, visited, steps),
    decreases steps, ctx.nodes@.len() - expression, 1nat,
{
    kind_of_type_budget(ctx, type_annotation, visited, steps, extra);
    let used = kind_of_type(ctx, type_annotation, visited, steps).1;
    assert(left(steps + extra, used) == left(steps, used) + extra);
    receiver_walk_keeps_to_its_budget(ctx, expression, visited, left(steps, used), extra);
}

proof fn kind_of_variable_budget(
    ctx: &LintContext,
    ident: IdentifierReference,
    visited: Seq<SymbolId>,
    steps: nat,
    extra: nat,
)
    requires
        ctx.wf(),
        ident.symbol_id matches Some(symbol_id) ==> symbol_id < ctx.symbols@.len(),
    ensures
        kind_of_variable(ctx, ident, visited, steps).1 <= steps,
        kind_of_variable(ctx, ident, visited, steps).1 < steps
            ==> kind_of_variable(ctx, ident, visited, steps + extra)
            == kind_of_variable(ctx, ident, visited, steps),
    decreases steps, 0nat, 0nat,
{
    match ident.symbol_id {
        Some(symbol_id) => if !is_blocked(visited, steps, symbol_id) {
            let path = visited.push(symbol_id);
            let rest = (steps - 1) as nat;
            assert((steps + extra - 1) as nat == rest + extra);
            match ctx.spec_kind(ctx.declaration(symbol_id)) {
                AstKind::VariableDeclarator {
                    kind,
                    is_binding_identifier,
                    type_annotation,
                    init,
                } => {
                    kind_of_annotation_budget(ctx, type_annotation, path, rest, extra);
                    let used = kind_of_annotation(ctx, type_annotation, path, rest).1;
                    assert(left(rest + extra, used) == left(rest, used) + extra);
                    match init {
                        Some(init) => receiver_walk_keeps_to_its_budget(
                            ctx,
                            init,
                            path,
                            left(rest, used),
                            extra,
                        ),
                        None => {},
                    }
                },
                AstKind::FormalParameter { is_binding_identifier, type_annotation, optional } => {
                    kind_of_annotation_budget(ctx, type_annotation, path, rest, extra);
                },
                _ => {},
            }
        },
        None => {},
    }
}

/// The walk that asks for the kind of a receiver takes no more hops than it has. If it leaves
/// some over, a larger budget changes nothing.
pub proof fn receiver_walk_keeps_to_its_budget(
    ctx: &LintContext,
    id: NodeId,
    visited: Seq<SymbolId>,
    steps: nat,
    extra: nat,
)
    requires
        ctx.has(id),
    ensures
        kind_of_expression(ctx, id, visited, steps).1 <= steps,
        kind_of_expression(ctx, id, visited, steps).1 < steps
            ==> kind_of_expression(ctx, id, visited, steps + extra)
            == kind_of_expression(ctx, id, visited, steps),
    decreases steps, ctx.nodes@.len() - id, 0nat,
{
    match ctx.spec_kind(id) {
        AstKind::ParenthesizedExpression { expression } => {
            receiver_walk_keeps_to_its_budget(ctx, expression, visited, steps, extra);
        },
        AstKind::TSSatisfiesExpression { expression } => {
            receiver_walk_keeps_to_its_budget(ctx, expression, visited, steps, extra);
        },
        AstKind::TSNonNullExpression { expression } => {
            receiver_walk_keeps_to_its_budget(ctx, expression, visited, steps, extra);
        },
        AstKind::TSAsExpression { expression, type_annotation } => {
            kind_of_assertion_budget(ctx, expression, type_annotation, visited, steps, extra);
        },
        AstKind::TSTypeAssertion { expression, type_annotation } => {
            kind_of_assertion_budget(ctx, expression, type_annotation, visited, steps, extra);
        },
        AstKind::SequenceExpression { expressions } => {
            if expressions@.len() > 0 {
                receiver_walk_keeps_to_its_budget(ctx, expressions@.last(), visited, steps, extra);
            }
        },
        AstKind::ConditionalExpression { consequent, alternate } => {
            receiver_walk_keeps_to_its_budget(ctx, consequent, visited, steps, extra);
            let used = kind_of_expression(ctx, consequent, visited, steps).1;
            assert(left(steps + extra, used) == left(steps, used) + extra);
            receiver_walk_keeps_to_its_budget(ctx, alternate, visited, left(steps, used), extra);
        },
        AstKind::IdentifierReference(ident) => {
            kind_of_variable_budget(ctx, ident, visited, steps, extra);
        },
        AstKind::CallExpression { callee, arguments, optional } => {
            kind_of_call_budget(ctx, callee, visited, steps, extra);
        },
        AstKind::NewExpression { callee, arguments } => {
            kind_of_class_reference_budget(ctx, callee, visited, steps, extra);
        },
        AstKind::ThisExpression => kind_of_this_budget(ctx, id, visited, steps, extra),
        AstKind::Super => kind_of_super_budget(ctx, id, visited, steps, extra),
        _ => {},
    }
}

/// The walk that asks for the value of a length takes no more hops than it has. If it leaves some
/// over, a larger budget changes nothing.
pub proof fn value_walk_keeps_to_its_budget(
    ctx: &LintContext,
    id: NodeId,
    visited: Seq<SymbolId>,
    steps: nat,
    extra: nat,
)
    requires
        ctx.has(id),
    ensures
        value_of(ctx, id, visited, steps).1 <= steps,
        value_of(ctx, id, visited, steps).1 < steps ==> value_of(ctx, id, visited, steps + extra)
            == value_of(ctx, id, visited, steps),
    decreases steps, ctx.nodes@.len() - id,
{
    ctx.lemma_inner_expression(id);
    match ctx.spec_kind(ctx.spec_inner_expression(id)) {
        AstKind::IdentifierReference(ident) => match constant_init(ctx, ident) {
            Some((symbol_id, init)) => if !ident.is_global && !is_blocked(
                visited,
                steps,
                symbol_id,
            ) {
                let path = visited.push(symbol_id);
                let rest = (steps - 1) as nat;
                assert((steps + extra - 1) as nat == rest + extra);
                value_walk_keeps_to_its_budget(ctx, init, path, rest, extra);
            },
            None => {},
        },
        AstKind::UnaryExpression { operator, argument } => {
            if !never_gives_number(operator) {
                value_walk_keeps_to_its_budget(ctx, argument, visited, steps, extra);
            }
        },
        AstKind::BinaryExpression { operator, left: left_id, right: right_id } => {
            if !gives_boolean(operator) {
                value_walk_keeps_to_its_budget(ctx, left_id, visited, steps, extra);
                let used = value_of(ctx, left_id, visited, steps).1;
                assert(left(steps + extra, used) == left(steps, used) + extra);
                value_walk_keeps_to_its_budget(ctx, right_id, visited, left(steps, used), extra);
            }
        },
        _ => {},
    }
}

/// The walk that looks for a member read takes no more hops than it has. If it leaves some over, a
/// larger budget changes nothing.
pub proof fn member_walk_keeps_to_its_budget(
    ctx: &LintContext,
    id: NodeId,
    visited: Seq<SymbolId>,
    steps: nat,
    extra: nat,
)
    requires
        ctx.has(id),
    ensures
        reads_member(ctx, id, visited, steps).1 <= steps,
        reads_member(ctx, id, visited, steps).1 < steps
            ==> reads_member(ctx, id, visited, steps + extra)
            == reads_member(ctx, id, visited, steps),
    decreases steps, ctx.nodes@.len() - id, 0nat,
{
    match ctx.spec_kind(id) {
        AstKind::StaticMemberExpression { .. }
        | AstKind::ComputedMemberExpression { .. }
        | AstKind::PrivateFieldExpression { .. } => {},
        AstKind::IdentifierReference(ident) => match constant_init(ctx, ident) {
            Some((symbol_id, init)) => if !is_blocked(visited, steps, symbol_id) {
                let path = visited.push(symbol_id);
                let rest = (steps - 1) as nat;
                assert((steps + extra - 1) as nat == rest + extra);
                member_walk_keeps_to_its_budget(ctx, init, path, rest, extra);
            },
            None => {},
        },
        _ => {
            let children = ctx.nodes@[id as int].children@;
            some_child_reads_member_budget(ctx, id, children, 0, visited, steps, extra);
        },
    }
}

proof fn some_child_reads_member_budget(
    ctx: &LintContext,
    owner: NodeId,
    children: Seq<NodeId>,
    from: nat,
    visited: Seq<SymbolId>,
    steps: nat,
    extra: nat,
)
    requires
        ctx.has(owner),
        all_below(owner, children, ctx.nodes@.len()),
    ensures
        some_child_reads_member(ctx, owner, children, from, visited, steps).1 <= steps,
        some_child_reads_member(ctx, owner, children, from, visited, steps).1 < steps
            ==> some_child_reads_member(ctx, owner, children, from, visited, steps + extra)
            == some_child_reads_member(ctx, owner, children, from, visited, steps),
    decreases steps, ctx.nodes@.len() - owner - 1, children.len() - from,
{
    if from < children.len() {
        member_walk_keeps_to_its_budget(ctx, children[from as int], visited, steps, extra);
        let used = reads_member(ctx, children[from as int], visited, steps).1;
        assert(left(steps + extra, used) == left(steps, used) + extra);
        let rest = left(steps, used);
        some_child_reads_member_budget(ctx, owner, children, from + 1, visited, rest, extra);
    }
}

/// Both walks over one length share one budget.
pub proof fn length_walks_share_one_budget(ctx: &LintContext, length: NodeId)
    requires
        ctx.has(length),
    ensures
        ({
            let steps = MAX_RESOLVE_STEPS as nat;
            let used = value_of(ctx, length, seq![], steps).1;
            let more = reads_member(ctx, length, seq![], left(steps, used)).1;
            used + more <= MAX_RESOLVE_STEPS
        }),
{
    let steps = MAX_RESOLVE_STEPS as nat;
    value_walk_keeps_to_its_budget(ctx, length, seq![], steps, 0);
    let used = value_of(ctx, length, seq![], steps).1;
    member_walk_keeps_to_its_budget(ctx, length, seq![], left(steps, used), 0);
}

/// A number that was found stays the same with a larger budget.
proof fn number_is_settled(
    ctx: &LintContext,
    id: NodeId,
    visited: Seq<SymbolId>,
    steps: nat,
    extra: nat,
)
    requires
        ctx.has(id),
        value_of(ctx, id, visited, steps).0 matches Some(StaticValue::Number(number)),
    ensures
        value_of(ctx, id, visited, steps + extra) == value_of(ctx, id, visited, steps),
    decreases steps, ctx.nodes@.len() - id,
{
    ctx.lemma_inner_expression(id);
    match ctx.spec_kind(ctx.spec_inner_expression(id)) {
        AstKind::IdentifierReference(ident) => match constant_init(ctx, ident) {
            Some((symbol_id, init)) => if !ident.is_global {
                let rest = (steps - 1) as nat;
                assert((steps + extra - 1) as nat == rest + extra);
                number_is_settled(ctx, init, visited.push(symbol_id), rest, extra);
            },
            None => {},
        },
        AstKind::UnaryExpression { operator, argument } => {
            number_is_settled(ctx, argument, visited, steps, extra);
        },
        AstKind::BinaryExpression { operator, left: left_id, right: right_id } => {
            number_is_settled(ctx, left_id, visited, steps, extra);
            value_walk_keeps_to_its_budget(ctx, left_id, visited, steps, 0);
            let used = value_of(ctx, left_id, visited, steps).1;
            assert(left(steps + extra, used) == left(steps, used) + extra);
            number_is_settled(ctx, right_id, visited, left(steps, used), extra);
        },
        _ => {},
    }
}

/// A search that found no member read finds none with a larger budget.
proof fn no_member_is_settled(
    ctx: &LintContext,
    id: NodeId,
    visited: Seq<SymbolId>,
    steps: nat,
    extra: nat,
)
    requires
        ctx.has(id),
        !reads_member(ctx, id, visited, steps).0,
    ensures
        reads_member(ctx, id, visited, steps + extra) == reads_member(ctx, id, visited, steps),
    decreases steps, ctx.nodes@.len() - id, 0nat,
{
    match ctx.spec_kind(id) {
        AstKind::StaticMemberExpression { .. }
        | AstKind::ComputedMemberExpression { .. }
        | AstKind::PrivateFieldExpression { .. } => {},
        AstKind::IdentifierReference(ident) => match constant_init(ctx, ident) {
            Some((symbol_id, init)) => {
                let rest = (steps - 1) as nat;
                assert((steps + extra - 1) as nat == rest + extra);
                no_member_is_settled(ctx, init, visited.push(symbol_id), rest, extra);
            },
            None => {},
        },
        _ => {
            let children = ctx.nodes@[id as int].children@;
            no_child_member_is_settled(ctx, id, children, 0, visited, steps, extra);
        },
    }
}

proof fn no_child_member_is_settled(
    ctx: &LintContext,
    owner: NodeId,
    children: Seq<NodeId>,
    from: nat,
    visited: Seq<SymbolId>,
    steps: nat,
    extra: nat,
)
    requires
        ctx.has(owner),
        all_below(owner, children, ctx.nodes@.len()),
        !some_child_reads_member(ctx, owner, children, from, visited, steps).0,
    ensures
        some_child_reads_member(ctx, owner, children, from, visited, steps + extra)
            == some_child_reads_member(ctx, owner, children, from, visited, steps),
    decreases steps, ctx.nodes@.len() - owner - 1, children.len() - from,
{
    if from < children.len() {
        let child = children[from as int];
        no_member_is_settled(ctx, child, visited, steps, extra);
        member_walk_keeps_to_its_budget(ctx, child, visited, steps, 0);
        let used = reads_member(ctx, child, visited, steps).1;
        assert(left(steps + extra, used) == left(steps, used) + extra);
        let rest = left(steps, used);
        no_child_member_is_settled(ctx, owner, children, from + 1, visited, rest, extra);
    }
}

/// Without a hop to take, a search that finds no member read in a node finds none in a child.
proof fn no_member_in_child(
    ctx: &LintContext,
    owner: NodeId,
    children: Seq<NodeId>,
    from: nat,
    visited: Seq<SymbolId>,
    index: int,
)
    requires
        ctx.has(owner),
        all_below(owner, children, ctx.nodes@.len()),
        !some_child_reads_member(ctx, owner, children, from, visited, 0).0,
        from <= index < children.len(),
    ensures
        !reads_member(ctx, children[index], visited, 0).0,
    decreases children.len() - from,
{
    if from < index {
        member_walk_keeps_to_its_budget(ctx, children[from as int], visited, 0, 0);
        no_member_in_child(ctx, owner, children, from + 1, visited, index);
    }
}

/// If a search without a hop to take finds no member read, there is no variable to follow, so
/// that the value of the expression does not depend on path and budget.
proof fn value_without_hops(
    ctx: &LintContext,
    id: NodeId,
    visited: Seq<SymbolId>,
    path: Seq<SymbolId>,
    steps: nat,
)
    requires
        ctx.has(id),
        !reads_member(ctx, id, visited, 0).0,
    ensures
        value_of(ctx, id, path, steps) == value_of(ctx, id, visited, 0),
        value_of(ctx, id, path, steps).1 == 0,
    decreases ctx.nodes@.len() - id,
{
    let kind = ctx.spec_kind(id);
    let children = ctx.nodes@[id as int].children@;
    let parts = operands(kind);
    if parts.len() > 0 {
        assert forall|i: int| 0 <= i < parts.len() implies {
            &&& ctx.has(#[trigger] parts[i])
            &&& value_of(ctx, parts[i], path, steps) == value_of(ctx, parts[i], visited, 0)
            &&& value_of(ctx, parts[i], path, steps).1 == 0
        } by {
            let part = parts[i];
            assert(children.contains(operands(kind)[i]));
            let index = choose|index: int|
                0 <= index < children.len() && children[index] == part;
            no_member_in_child(ctx, id, children, 0, visited, index);
            value_without_hops(ctx, part, visited, path, steps);
        }
        ctx.lemma_inner_expression(id);
        match kind {
            AstKind::BinaryExpression { operator, left, right } => {
                assert(parts[0] == left && parts[1] == right);
            },
            AstKind::UnaryExpression { operator, argument } => {
                assert(parts[0] == argument);
            },
            _ => {
                assert(ctx.spec_inner_expression(id) == ctx.spec_inner_expression(parts[0]));
            },
        }
    }
}

/// A length that is not invalid is known to be the same with any larger budget. Where the budget
/// runs out, the length counts as invalid.
pub proof fn valid_length_does_not_depend_on_the_budget(
    ctx: &LintContext,
    length: NodeId,
    steps: nat,
    extra: nat,
)
    requires
        ctx.has(length),
        !(length_within(ctx, length, steps) is Invalid),
    ensures
        length_within(ctx, length, steps + extra) == length_within(ctx, length, steps),
{
    let (value, used) = value_of(ctx, length, seq![], steps);
    value_walk_keeps_to_its_budget(ctx, length, seq![], steps, extra);
    match value {
        Some(_) => number_is_settled(ctx, length, seq![], steps, extra),
        None => {
            if used < steps {
                assert(left(steps + extra, used) == left(steps, used) + extra);
                no_member_is_settled(ctx, length, seq![], left(steps, used), extra);
            } else {
                value_without_hops(ctx, length, seq![], seq![], steps);
                value_without_hops(ctx, length, seq![], seq![], steps + extra);
                no_member_is_settled(ctx, length, seq![], 0, extra);
            }
        },
    }
}

} // verus!
