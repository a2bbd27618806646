//! What the syntax tells about a value: whether it is a string.
//!
//! The walk reads the type annotations of parameters and variables, `as` and `<T>` assertions,
//! `const` initializers, the return types of called functions, both branches of a conditional
//! expression, and the last expression of a sequence. The answer is `None` when the syntax does
//! not tell.
//!
//! Each specification function takes the symbols on the path and the hops that are left, and
//! gives the answer together with the hops that the walk takes.
use vstd::prelude::*;

use crate::ast::{
    all_below, is_below, AstKind, IdentifierReference, LintContext, NodeId, SymbolId,
    TSTypeOperatorOperator, VariableDeclarationKind,
};
use crate::ast_util::{get_signature, signature_of, Signature};
use crate::resolution::{is_blocked, left, spent, Resolution};

verus! {

/// The initializer of a `const` that binds one name.
pub open spec fn const_init(declarator: AstKind) -> Option<NodeId> {
    match declarator {
        AstKind::VariableDeclarator { kind, is_binding_identifier, type_annotation, init } => {
            if kind == VariableDeclarationKind::Const && is_binding_identifier {
                init
            } else {
                None
            }
        },
        _ => None,
    }
}

pub fn const_declarator_init(declarator: &AstKind) -> (init: Option<NodeId>)
    ensures
        init == const_init(*declarator),
{
    match declarator {
        AstKind::VariableDeclarator { kind, is_binding_identifier, init, .. } => {
            if *is_binding_identifier && *kind == VariableDeclarationKind::Const {
                *init
            } else {
                None
            }
        },
        _ => None,
    }
}

/// An answer that one more hop led to.
pub open spec fn after_hop(answer: (Option<bool>, nat)) -> (Option<bool>, nat) {
    (answer.0, answer.1 + 1)
}

/// What a class tells about its instances, given the expression that it extends.
pub open spec fn class_string(
    ctx: &LintContext,
    heritage: Option<NodeId>,
    visited: Seq<SymbolId>,
    steps: nat,
) -> (Option<bool>, nat)
    decreases
            steps,
            (match heritage {
                Some(heritage) => ctx.nodes@.len() - heritage,
                None => 0,
            }),
            1nat,
    when heritage matches Some(heritage) ==> ctx.has(heritage)
{
    match heritage {
        Some(heritage) => class_reference_string(ctx, heritage, visited, steps),
        None => (Some(false), 0),
    }
}

/// What an expression that gives a class tells about the instances of the class.
pub open spec fn class_reference_string(
    ctx: &LintContext,
    id: NodeId,
    visited: Seq<SymbolId>,
    steps: nat,
) -> (Option<bool>, nat)
    decreases steps, ctx.nodes@.len() - id, 0nat,
    when ctx.has(id)
{
    proof {
        ctx.lemma_without_parentheses(id);
    }
    match ctx.spec_kind(ctx.spec_without_parentheses(id)) {
        AstKind::IdentifierReference(ident) => match ident.symbol_id {
            Some(symbol_id) => if is_blocked(visited, steps, symbol_id) {
                (None, 0)
            } else {
                let path = visited.push(symbol_id);
                let rest = (steps - 1) as nat;
                let declaration = ctx.spec_kind(ctx.declaration(symbol_id));
                after_hop(
                    match declaration {
                        AstKind::VariableDeclarator { .. } => match const_init(declaration) {
                            Some(init) => class_reference_string(ctx, init, path, rest),
                            None => (None, 0),
                        },
                        AstKind::Class { heritage } => class_string(ctx, heritage, path, rest),
                        _ => (None, 0),
                    },
                )
            },
            None => (None, 0),
        },
        AstKind::Class { heritage } => class_string(ctx, heritage, visited, steps),
        _ => (None, 0),
    }
}

pub fn class_string_type(heritage: Option<NodeId>, ctx: &LintContext, state: &mut Resolution) -> (r:
    Option<bool>)
    requires
        ctx.wf(),
        heritage matches Some(heritage) ==> ctx.has(heritage),
    ensures
        r == class_string(ctx, heritage, old(state).visited@, old(state).steps as nat).0,
        spent(
            *old(state),
            *final(state),
            class_string(ctx, heritage, old(state).visited@, old(state).steps as nat).1,
        ),
    decreases
            old(state).steps,
            (match heritage {
                Some(heritage) => ctx.nodes@.len() - heritage,
                None => 0,
            }),
            1nat,
{
    match heritage {
        Some(heritage) => class_reference_string_type(heritage, ctx, state),
        None => Some(false),
    }
}

pub fn class_reference_string_type(expr: NodeId, ctx: &LintContext, state: &mut Resolution) -> (r:
    Option<bool>)
    requires
        ctx.has(expr),
    ensures
        r == class_reference_string(ctx, expr, old(state).visited@, old(state).steps as nat).0,
        spent(
            *old(state),
            *final(state),
            class_reference_string(ctx, expr, old(state).visited@, old(state).steps as nat).1,
        ),
    decreases old(state).steps, ctx.nodes@.len() - expr, 0nat,
{
    let inner: NodeId = ctx.without_parentheses(expr);
    match ctx.kind(inner) {
        AstKind::IdentifierReference(ident) => {
            let symbol_id: SymbolId = match ident.symbol_id {
                Some(symbol_id) => symbol_id,
                None => return None,
            };
            if !state.enter(symbol_id) {
                return None;
            }
            let declaration = ctx.kind(ctx.symbols[symbol_id].declaration);
            let result = match declaration {
                AstKind::VariableDeclarator { .. } => match const_declarator_init(declaration) {
                    Some(init) => class_reference_string_type(init, ctx, state),
                    None => None,
                },
                AstKind::Class { heritage } => class_string_type(*heritage, ctx, state),
                _ => None,
            };
            state.leave();
            assert(state.visited@ =~= old(state).visited@);
            result
        },
        AstKind::Class { heritage } => class_string_type(*heritage, ctx, state),
        _ => None,
    }
}

/// An intersection is a string as soon as one member is. It is no string if no member is.
pub open spec fn intersection_string(types: Seq<Option<bool>>) -> Option<bool> {
    if types.contains(Some(true)) {
        Some(true)
    } else if types.contains(None) {
        None
    } else {
        Some(false)
    }
}

pub fn intersection_string_type(types: &[Option<bool>]) -> (r: Option<bool>)
    ensures
        r == intersection_string(types@),
{
    let mut all_non_string = true;
    let mut i: usize = 0;
    while i < types.len()
        invariant
            i <= types@.len(),
            forall|j: int| 0 <= j < i ==> types@[j] != Some(true),
            all_non_string == (forall|j: int| 0 <= j < i ==> types@[j] != None::<bool>),
        decreases types@.len() - i,
    {
        match types[i] {
            Some(true) => return Some(true),
            Some(false) => {},
            None => {
                assert(types@[i as int] == None::<bool>);
                all_non_string = false;
            },
        }
        i += 1;
    }
    if all_non_string {
        Some(false)
    } else {
        None
    }
}

/// After a member that is a string, the rest of an intersection does not matter, nor does the
/// order of its members.
pub proof fn string_member_decides(types: Seq<Option<bool>>, rest: Seq<Option<bool>>)
    ensures
        types.contains(Some(true)) ==> intersection_string(types + rest) == intersection_string(
            types,
        ),
        intersection_string(types + rest) == intersection_string(rest + types),
{
    let all = types + rest;
    let swapped = rest + types;
    assert forall|answer: Option<bool>| all.contains(answer) == (types.contains(answer)
        || rest.contains(answer)) && swapped.contains(answer) == (types.contains(answer)
        || rest.contains(answer)) by {
        if types.contains(answer) {
            let i = choose|i: int| 0 <= i < types.len() && types[i] == answer;
            assert(all[i] == answer);
            assert(swapped[i + rest.len()] == answer);
        }
        if rest.contains(answer) {
            let i = choose|i: int| 0 <= i < rest.len() && rest[i] == answer;
            assert(all[i + types.len()] == answer);
            assert(swapped[i] == answer);
        }
    }
    assert(all.contains(Some(true)) == swapped.contains(Some(true)));
    assert(all.contains(None) == swapped.contains(None));
}

/// What a type tells.
pub open spec fn type_string(ctx: &LintContext, id: NodeId, visited: Seq<SymbolId>, steps: nat) -> (
    Option<bool>,
    nat,
)
    decreases steps, ctx.nodes@.len() - id, 0nat,
    when ctx.has(id)
{
    match ctx.spec_kind(id) {
        AstKind::TSStringKeyword => (Some(true), 0),
        AstKind::TSLiteralType { is_string } => (Some(is_string), 0),
        AstKind::TSBigIntKeyword
        | AstKind::TSBooleanKeyword
        | AstKind::TSNeverKeyword
        | AstKind::TSNumberKeyword
        | AstKind::TSSymbolKeyword
        | AstKind::TSVoidKeyword
        | AstKind::TSNullKeyword
        | AstKind::TSUndefinedKeyword
        | AstKind::TSArrayType
        | AstKind::TSTupleType
        | AstKind::TSTypeLiteral
        | AstKind::TSFunctionType
        | AstKind::TSConstructorType => (Some(false), 0),
        AstKind::TSParenthesizedType { type_annotation } => type_string(
            ctx,
            type_annotation,
            visited,
            steps,
        ),
        AstKind::TSTypeOperator { operator, type_annotation } => if operator
            == TSTypeOperatorOperator::Readonly {
            type_string(ctx, type_annotation, visited, steps)
        } else {
            (None, 0)
        },
        AstKind::TSUnionType { types } => if types@.len() == 0 {
            (None, 0)
        } else {
            let (first, used) = type_string(ctx, types@[0], visited, steps);
            match first {
                Some(first) => {
                    let (all, more) = all_types_agree(
                        ctx,
                        id,
                        types@,
                        1,
                        first,
                        visited,
                        left(steps, used),
                    );
                    (if all {
                        Some(first)
                    } else {
                        None
                    }, used + more)
                },
                None => (None, used),
            }
        },
        AstKind::TSIntersectionType { types } => {
            let (answers, used) = types_until_string(ctx, id, types@, 0, visited, steps);
            (intersection_string(answers), used)
        },
        AstKind::TSTypeReference { name } => type_name_string(ctx, name, visited, steps),
        _ => (None, 0),
    }
}

/// Whether the types from `from` on all tell `first`. The walk stops at the first that does not.
pub open spec fn all_types_agree(
    ctx: &LintContext,
    owner: NodeId,
    types: Seq<NodeId>,
    from: nat,
    first: bool,
    visited: Seq<SymbolId>,
    steps: nat,
) -> (bool, nat)
    decreases steps, ctx.nodes@.len() - owner - 1, types.len() - from,
    when ctx.has(owner) && all_below(owner, types, ctx.nodes@.len())
{
    if from >= types.len() {
        (true, 0)
    } else {
        let (answer, used) = type_string(ctx, types[from as int], visited, steps);
        if answer == Some(first) {
            let (all, more) = all_types_agree(
                ctx,
                owner,
                types,
                from + 1,
                first,
                visited,
                left(steps, used),
            );
            (all, used + more)
        } else {
            (false, used)
        }
    }
}

/// What the types from `from` on tell, up to the first that is a string.
pub open spec fn types_until_string(
    ctx: &LintContext,
    owner: NodeId,
    types: Seq<NodeId>,
    from: nat,
    visited: Seq<SymbolId>,
    steps: nat,
) -> (Seq<Option<bool>>, nat)
    decreases steps, ctx.nodes@.len() - owner - 1, types.len() - from,
    when ctx.has(owner) && all_below(owner, types, ctx.nodes@.len())
{
    if from >= types.len() {
        (seq![], 0)
    } else {
        let (answer, used) = type_string(ctx, types[from as int], visited, steps);
        if answer == Some(true) {
            (seq![answer], used)
        } else {
            let (answers, more) = types_until_string(
                ctx,
                owner,
                types,
                from + 1,
                visited,
                left(steps, used),
            );
            (seq![answer] + answers, used + more)
        }
    }
}

/// What a type name tells.
pub open spec fn type_name_string(
    ctx: &LintContext,
    id: NodeId,
    visited: Seq<SymbolId>,
    steps: nat,
) -> (Option<bool>, nat)
    decreases steps, ctx.nodes@.len() - id, 0nat,
    when ctx.has(id)
{
    match ctx.spec_kind(id) {
        AstKind::IdentifierReference(ident) => match ident.symbol_id {
            Some(symbol_id) => if is_blocked(visited, steps, symbol_id) {
                (None, 0)
            } else {
                let path = visited.push(symbol_id);
                let rest = (steps - 1) as nat;
                let declaration = ctx.declaration(symbol_id);
                after_hop(
                    match ctx.spec_kind(declaration) {
                        AstKind::TSTypeAliasDeclaration { type_annotation } => type_string(
                            ctx,
                            type_annotation,
                            path,
                            rest,
                        ),
                        AstKind::TSTypeParameter { constraint } => match constraint {
                            Some(constraint) => type_string(ctx, constraint, path, rest),
                            None => (None, 0),
                        },
                        AstKind::TSInterfaceDeclaration { extends } => {
                            let (answers, used) = names_until_string(
                                ctx,
                                declaration,
                                extends@,
                                0,
                                path,
                                rest,
                            );
                            (intersection_string(answers), used)
                        },
                        AstKind::Class { heritage } => class_string(ctx, heritage, path, rest),
                        _ => (None, 0),
                    },
                )
            },
            None => (None, 0),
        },
        _ => (None, 0),
    }
}

/// What the type names from `from` on tell, up to the first that is a string.
pub open spec fn names_until_string(
    ctx: &LintContext,
    owner: NodeId,
    names: Seq<NodeId>,
    from: nat,
    visited: Seq<SymbolId>,
    steps: nat,
) -> (Seq<Option<bool>>, nat)
    decreases steps, ctx.nodes@.len() - owner - 1, names.len() - from,
    when ctx.has(owner) && all_below(owner, names, ctx.nodes@.len())
{
    if from >= names.len() {
        (seq![], 0)
    } else {
        let (answer, used) = type_name_string(ctx, names[from as int], visited, steps);
        if answer == Some(true) {
            (seq![answer], used)
        } else {
            let (answers, more) = names_until_string(
                ctx,
                owner,
                names,
                from + 1,
                visited,
                left(steps, used),
            );
            (seq![answer] + answers, used + more)
        }
    }
}

pub fn type_string_type(ts_type: NodeId, ctx: &LintContext, state: &mut Resolution) -> (r: Option<
    bool,
>)
    requires
        ctx.has(ts_type),
    ensures
        r == type_string(ctx, ts_type, old(state).visited@, old(state).steps as nat).0,
        spent(
            *old(state),
            *final(state),
            type_string(ctx, ts_type, old(state).visited@, old(state).steps as nat).1,
        ),
    decreases old(state).steps, ctx.nodes@.len() - ts_type, 0nat,
{
    match ctx.kind(ts_type) {
        AstKind::TSStringKeyword => Some(true),
        // A template literal type such as `foo` is not a string literal here.
        AstKind::TSLiteralType { is_string } => Some(*is_string),
        AstKind::TSBigIntKeyword
        | AstKind::TSBooleanKeyword
        | AstKind::TSNeverKeyword
        | AstKind::TSNumberKeyword
        | AstKind::TSSymbolKeyword
        | AstKind::TSVoidKeyword
        | AstKind::TSNullKeyword
        | AstKind::TSUndefinedKeyword
        | AstKind::TSArrayType
        | AstKind::TSTupleType
        | AstKind::TSTypeLiteral
        | AstKind::TSFunctionType
        | AstKind::TSConstructorType => Some(false),
        AstKind::TSParenthesizedType { type_annotation } => type_string_type(
            *type_annotation,
            ctx,
            state,
        ),
        AstKind::TSTypeOperator { operator, type_annotation } => {
            if *operator == TSTypeOperatorOperator::Readonly {
                type_string_type(*type_annotation, ctx, state)
            } else {
                None
            }
        },
        AstKind::TSUnionType { types } => {
            if types.len() == 0 {
                return None;
            }
            match type_string_type(types[0], ctx, state) {
                Some(first) => {
                    if types_agree(ts_type, types, 1, first, ctx, state) {
                        Some(first)
                    } else {
                        None
                    }
                },
                None => None,
            }
        },
        AstKind::TSIntersectionType { types } => {
            let answers = collect_types(ts_type, types, ctx, state);
            intersection_string_type(answers.as_slice())
        },
        AstKind::TSTypeReference { name } => type_name_string_type(*name, ctx, state),
        _ => None,
    }
}

fn types_agree(
    owner: NodeId,
    types: &Vec<NodeId>,
    from: usize,
    first: bool,
    ctx: &LintContext,
    state: &mut Resolution,
) -> (r: bool)
    requires
        ctx.has(owner),
        all_below(owner, types@, ctx.nodes@.len()),
        from <= types@.len(),
    ensures
        r == all_types_agree(
            ctx,
            owner,
            types@,
            from as nat,
            first,
            old(state).visited@,
            old(state).steps as nat,
        ).0,
        spent(
            *old(state),
            *final(state),
            all_types_agree(
                ctx,
                owner,
                types@,
                from as nat,
                first,
                old(state).visited@,
                old(state).steps as nat,
            ).1,
        ),
    decreases old(state).steps, ctx.nodes@.len() - owner - 1, types@.len() - from,
{
    if from >= types.len() {
        return true;
    }
    let answer = type_string_type(types[from], ctx, state);
    match answer {
        Some(answer) => answer == first && types_agree(owner, types, from + 1, first, ctx, state),
        None => false,
    }
}

fn collect_types(
    owner: NodeId,
    types: &Vec<NodeId>,
    ctx: &LintContext,
    state: &mut Resolution,
) -> (answers: Vec<Option<bool>>)
    requires
        ctx.has(owner),
        all_below(owner, types@, ctx.nodes@.len()),
    ensures
        answers@ == types_until_string(
            ctx,
            owner,
            types@,
            0,
            old(state).visited@,
            old(state).steps as nat,
        ).0,
        spent(
            *old(state),
            *final(state),
            types_until_string(
                ctx,
                owner,
                types@,
                0,
                old(state).visited@,
                old(state).steps as nat,
            ).1,
        ),
    decreases old(state).steps, ctx.nodes@.len() - owner - 1, types@.len() + 1,
{
    let mut answers: Vec<Option<bool>> = Vec::new();
    let mut i: usize = 0;
    let ghost all = types_until_string(
        ctx,
        owner,
        types@,
        0,
        old(state).visited@,
        old(state).steps as nat,
    );
    assert(answers@ + all.0 =~= all.0);
    while i < types.len()
        invariant
            i <= types@.len(),
            ctx.has(owner),
            all_below(owner, types@, ctx.nodes@.len()),
            all == types_until_string(
                ctx,
                owner,
                types@,
                0,
                old(state).visited@,
                old(state).steps as nat,
            ),
            state.visited@ == old(state).visited@,
            state.steps <= old(state).steps,
            ({
                let rest = types_until_string(
                    ctx,
                    owner,
                    types@,
                    i as nat,
                    state.visited@,
                    state.steps as nat,
                );
                &&& all.0 == answers@ + rest.0
                &&& all.1 == old(state).steps - state.steps + rest.1
            }),
        decreases types@.len() - i,
    {
        let ghost before = answers@;
        let ghost rest = types_until_string(
            ctx,
            owner,
            types@,
            i as nat,
            state.visited@,
            state.steps as nat,
        );
        let answer = type_string_type(types[i], ctx, state);
        answers.push(answer);
        match answer {
            Some(true) => {
                assert(answers@ =~= before + rest.0);
                return answers;
            },
            _ => {},
        }
        i += 1;
        proof {
            let later = types_until_string(
                ctx,
                owner,
                types@,
                i as nat,
                state.visited@,
                state.steps as nat,
            );
            assert(before + rest.0 =~= answers@ + later.0);
        }
    }
    assert(answers@ + seq![] =~= answers@);
    answers
}

pub fn type_name_string_type(name: NodeId, ctx: &LintContext, state: &mut Resolution) -> (r: Option<
    bool,
>)
    requires
        ctx.has(name),
    ensures
        r == type_name_string(ctx, name, old(state).visited@, old(state).steps as nat).0,
        spent(
            *old(state),
            *final(state),
            type_name_string(ctx, name, old(state).visited@, old(state).steps as nat).1,
        ),
    decreases old(state).steps, ctx.nodes@.len() - name, 0nat,
{
    let symbol_id: SymbolId = match ctx.kind(name) {
        AstKind::IdentifierReference(ident) => match ident.symbol_id {
            Some(symbol_id) => symbol_id,
            None => return None,
        },
        _ => return None,
    };
    if !state.enter(symbol_id) {
        return None;
    }
    let declaration: NodeId = ctx.symbols[symbol_id].declaration;
    let result = match ctx.kind(declaration) {
        AstKind::TSTypeAliasDeclaration { type_annotation } => type_string_type(
            *type_annotation,
            ctx,
            state,
        ),
        AstKind::TSTypeParameter { constraint } => match constraint {
            Some(constraint) => type_string_type(*constraint, ctx, state),
            None => None,
        },
        AstKind::TSInterfaceDeclaration { extends } => {
            let answers = collect_names(declaration, extends, ctx, state);
            intersection_string_type(answers.as_slice())
        },
        AstKind::Class { heritage } => class_string_type(*heritage, ctx, state),
        _ => None,
    };
    state.leave();
    assert(state.visited@ =~= old(state).visited@);
    result
}

fn collect_names(
    owner: NodeId,
    names: &Vec<NodeId>,
    ctx: &LintContext,
    state: &mut Resolution,
) -> (answers: Vec<Option<bool>>)
    requires
        ctx.has(owner),
        all_below(owner, names@, ctx.nodes@.len()),
    ensures
        answers@ == names_until_string(
            ctx,
            owner,
            names@,
            0,
            old(state).visited@,
            old(state).steps as nat,
        ).0,
        spent(
            *old(state),
            *final(state),
            names_until_string(
                ctx,
                owner,
                names@,
                0,
                old(state).visited@,
                old(state).steps as nat,
            ).1,
        ),
    decreases old(state).steps, ctx.nodes@.len() - owner - 1, names@.len() + 1,
{
    let mut answers: Vec<Option<bool>> = Vec::new();
    let mut i: usize = 0;
    let ghost all = names_until_string(
        ctx,
        owner,
        names@,
        0,
        old(state).visited@,
        old(state).steps as nat,
    );
    assert(answers@ + all.0 =~= all.0);
    while i < names.len()
        invariant
            i <= names@.len(),
            ctx.has(owner),
            all_below(owner, names@, ctx.nodes@.len()),
            all == names_until_string(
                ctx,
                owner,
                names@,
                0,
                old(state).visited@,
                old(state).steps as nat,
            ),
            state.visited@ == old(state).visited@,
            state.steps <= old(state).steps,
            ({
                let rest = names_until_string(
                    ctx,
                    owner,
                    names@,
                    i as nat,
                    state.visited@,
                    state.steps as nat,
                );
                &&& all.0 == answers@ + rest.0
                &&& all.1 == old(state).steps - state.steps + rest.1
            }),
        decreases names@.len() - i,
    {
        let ghost before = answers@;
        let ghost rest = names_until_string(
            ctx,
            owner,
            names@,
            i as nat,
            state.visited@,
            state.steps as nat,
        );
        let answer = type_name_string_type(names[i], ctx, state);
        answers.push(answer);
        match answer {
            Some(true) => {
                assert(answers@ =~= before + rest.0);
                return answers;
            },
            _ => {},
        }
        i += 1;
        proof {
            let later = names_until_string(
                ctx,
                owner,
                names@,
                i as nat,
                state.visited@,
                state.steps as nat,
            );
            assert(before + rest.0 =~= answers@ + later.0);
        }
    }
    assert(answers@ + seq![] =~= answers@);
    answers
}

/// The walk over the types of an intersection ends with the first that is a string: what follows
/// changes neither the answer nor the hops.
pub proof fn string_type_ends_the_walk(
    ctx: &LintContext,
    owner: NodeId,
    types: Seq<NodeId>,
    more: Seq<NodeId>,
    from: nat,
    visited: Seq<SymbolId>,
    steps: nat,
)
    requires
        ctx.has(owner),
        all_below(owner, types + more, ctx.nodes@.len()),
        types_until_string(ctx, owner, types, from, visited, steps).0.contains(Some(true)),
    ensures
        types_until_string(ctx, owner, types + more, from, visited, steps)
            == types_until_string(ctx, owner, types, from, visited, steps),
        types_until_string(ctx, owner, types, from, visited, steps).0.last() == Some(true),
    decreases types.len() - from,
{
    let longer = types + more;
    assert forall|i: int| 0 <= i < types.len() implies #[trigger] longer[i] == types[i] by {}
    assert(all_below(owner, types, ctx.nodes@.len())) by {
        assert forall|i: int| 0 <= i < types.len() implies is_below(
            owner,
            #[trigger] types[i],
            ctx.nodes@.len(),
        ) by {
            assert(longer[i] == types[i]);
        }
    }
    let all = types_until_string(ctx, owner, types, from, visited, steps).0;
    if from < types.len() {
        let (answer, used) = type_string(ctx, types[from as int], visited, steps);
        if answer != Some(true) {
            let rest = left(steps, used);
            let later = types_until_string(ctx, owner, types, from + 1, visited, rest).0;
            assert(all == seq![answer] + later);
            let i = choose|i: int| 0 <= i < all.len() && all[i] == Some(true);
            assert(later[i - 1] == Some(true));
            string_type_ends_the_walk(ctx, owner, types, more, from + 1, visited, rest);
        }
    }
}

/// The walk over the types that an interface extends ends with the first that is a string: what
/// follows changes neither the answer nor the hops.
pub proof fn string_name_ends_the_walk(
    ctx: &LintContext,
    owner: NodeId,
    names: Seq<NodeId>,
    more: Seq<NodeId>,
    from: nat,
    visited: Seq<SymbolId>,
    steps: nat,
)
    requires
        ctx.has(owner),
        all_below(owner, names + more, ctx.nodes@.len()),
        names_until_string(ctx, owner, names, from, visited, steps).0.contains(Some(true)),
    ensures
        names_until_string(ctx, owner, names + more, from, visited, steps)
            == names_until_string(ctx, owner, names, from, visited, steps),
        names_until_string(ctx, owner, names, from, visited, steps).0.last() == Some(true),
    decreases names.len() - from,
{
    let longer = names + more;
    assert forall|i: int| 0 <= i < names.len() implies #[trigger] longer[i] == names[i] by {}
    assert(all_below(owner, names, ctx.nodes@.len())) by {
        assert forall|i: int| 0 <= i < names.len() implies is_below(
            owner,
            #[trigger] names[i],
            ctx.nodes@.len(),
        ) by {
            assert(longer[i] == names[i]);
        }
    }
    let all = names_until_string(ctx, owner, names, from, visited, steps).0;
    if from < names.len() {
        let (answer, used) = type_name_string(ctx, names[from as int], visited, steps);
        if answer != Some(true) {
            let rest = left(steps, used);
            let later = names_until_string(ctx, owner, names, from + 1, visited, rest).0;
            assert(all == seq![answer] + later);
            let i = choose|i: int| 0 <= i < all.len() && all[i] == Some(true);
            assert(later[i - 1] == Some(true));
            string_name_ends_the_walk(ctx, owner, names, more, from + 1, visited, rest);
        }
    }
}

/// What a type annotation tells.
pub open spec fn annotation_string(
    ctx: &LintContext,
    annotation: Option<NodeId>,
    visited: Seq<SymbolId>,
    steps: nat,
) -> (Option<bool>, nat) {
    match annotation {
        Some(ts_type) => type_string(ctx, ts_type, visited, steps),
        None => (None, 0),
    }
}

pub fn type_annotation_string_type(
    annotation: Option<NodeId>,
    ctx: &LintContext,
    state: &mut Resolution,
) -> (r: Option<bool>)
    requires
        ctx.wf(),
        annotation matches Some(ts_type) ==> ctx.has(ts_type),
    ensures
        r == annotation_string(ctx, annotation, old(state).visited@, old(state).steps as nat).0,
        spent(
            *old(state),
            *final(state),
            annotation_string(ctx, annotation, old(state).visited@, old(state).steps as nat).1,
        ),
{
    match annotation {
        Some(ts_type) => type_string_type(ts_type, ctx, state),
        None => None,
    }
}

/// The symbol of a name that is declared once.
pub open spec fn single_declaration(ctx: &LintContext, ident: IdentifierReference) -> Option<
    SymbolId,
> {
    match ident.symbol_id {
        Some(symbol_id) => if ctx.symbols@[symbol_id as int].is_redeclared {
            None
        } else {
            Some(symbol_id)
        },
        None => None,
    }
}

pub fn single_declaration_symbol(ident: &IdentifierReference, ctx: &LintContext) -> (symbol: Option<
    SymbolId,
>)
    requires
        ident.symbol_id matches Some(symbol_id) ==> symbol_id < ctx.symbols@.len(),
    ensures
        symbol == single_declaration(ctx, *ident),
        symbol matches Some(symbol_id) ==> symbol_id < ctx.symbols@.len(),
{
    match ident.symbol_id {
        Some(symbol_id) => {
            if ctx.symbols[symbol_id].is_redeclared {
                None
            } else {
                Some(symbol_id)
            }
        },
        None => None,
    }
}

/// The signature of the function that a declaration binds.
pub open spec fn declared_signature(ctx: &LintContext, declaration: AstKind) -> Option<Signature> {
    match declaration {
        AstKind::Function { .. } => signature_of(declaration),
        AstKind::VariableDeclarator { .. } => match const_init(declaration) {
            Some(init) => signature_of(ctx.spec_kind(ctx.spec_skip_satisfies_and_non_null(init))),
            None => None,
        },
        _ => None,
    }
}

/// The return type that a call of a declared function has, where its parameters do not matter.
pub open spec fn declared_return_type(ctx: &LintContext, declaration: AstKind) -> Option<NodeId> {
    match declared_signature(ctx, declaration) {
        Some(signature) => if signature.has_type_parameters {
            None
        } else {
            signature.return_type
        },
        None => None,
    }
}

fn get_declared_return_type(declaration: NodeId, ctx: &LintContext) -> (return_type: Option<NodeId>)
    requires
        ctx.has(declaration),
    ensures
        return_type == declared_return_type(ctx, ctx.spec_kind(declaration)),
        return_type matches Some(return_type) ==> ctx.has(return_type),
{
    let kind = ctx.kind(declaration);
    let signature = match kind {
        AstKind::Function { .. } => get_signature(kind),
        AstKind::VariableDeclarator { .. } => match const_declarator_init(kind) {
            Some(init) => get_signature(ctx.kind(ctx.skip_satisfies_and_non_null(init))),
            None => None,
        },
        _ => None,
    };
    match signature {
        Some(signature) => {
            if signature.has_type_parameters {
                None
            } else {
                signature.return_type
            }
        },
        None => None,
    }
}

/// What a type assertion tells: the type, or else the expression.
pub open spec fn asserted_string(
    ctx: &LintContext,
    expression: NodeId,
    type_annotation: NodeId,
    visited: Seq<SymbolId>,
    steps: nat,
) -> (Option<bool>, nat)
    decreases steps, ctx.nodes@.len() - expression, 1nat,
    when ctx.has(expression)
{
    let (answer, used) = type_string(ctx, type_annotation, visited, steps);
    if answer is Some {
        (answer, used)
    } else {
        let (answer, more) = expression_string(ctx, expression, visited, left(steps, used));
        (answer, used + more)
    }
}

/// What an expression tells about its value.
pub open spec fn expression_string(
    ctx: &LintContext,
    id: NodeId,
    visited: Seq<SymbolId>,
    steps: nat,
) -> (Option<bool>, nat)
    decreases steps, ctx.nodes@.len() - id, 0nat,
    when ctx.has(id)
{
    match ctx.spec_kind(id) {
        AstKind::ParenthesizedExpression { expression } => expression_string(
            ctx,
            expression,
            visited,
            steps,
        ),
        AstKind::TSSatisfiesExpression { expression } => expression_string(
            ctx,
            expression,
            visited,
            steps,
        ),
        AstKind::TSNonNullExpression { expression } => expression_string(
            ctx,
            expression,
            visited,
            steps,
        ),
        AstKind::TSAsExpression { expression, type_annotation } => asserted_string(
            ctx,
            expression,
            type_annotation,
            visited,
            steps,
        ),
        AstKind::TSTypeAssertion { expression, type_annotation } => asserted_string(
            ctx,
            expression,
            type_annotation,
            visited,
            steps,
        ),
        AstKind::SequenceExpression { expressions } => if expressions@.len() == 0 {
            (None, 0)
        } else {
            expression_string(ctx, expressions@.last(), visited, steps)
        },
        AstKind::ConditionalExpression { consequent, alternate } => {
            let (first, used) = expression_string(ctx, consequent, visited, steps);
            if first is None {
                (None, used)
            } else {
                let (second, more) = expression_string(ctx, alternate, visited, left(steps, used));
                (if first == second {
                    first
                } else {
                    None
                }, used + more)
            }
        },
        AstKind::IdentifierReference(ident) => match single_declaration(ctx, ident) {
            Some(symbol_id) => if is_blocked(visited, steps, symbol_id) {
                (None, 0)
            } else {
                let path = visited.push(symbol_id);
                let rest = (steps - 1) as nat;
                let declaration = ctx.spec_kind(ctx.declaration(symbol_id));
                after_hop(
                    match declaration {
                        AstKind::FormalParameter {
                            is_binding_identifier,
                            type_annotation,
                            optional,
                        } => if is_binding_identifier {
                            annotation_string(ctx, type_annotation, path, rest)
                        } else {
                            (None, 0)
                        },
                        AstKind::VariableDeclarator {
                            kind,
                            is_binding_identifier,
                            type_annotation,
                            init,
                        } => if is_binding_identifier {
                            let (answer, used) = annotation_string(
                                ctx,
                                type_annotation,
                                path,
                                rest,
                            );
                            match (answer, const_init(declaration)) {
                                (None, Some(init)) => {
                                    let (answer, more) = expression_string(
                                        ctx,
                                        init,
                                        path,
                                        left(rest, used),
                                    );
                                    (answer, used + more)
                                },
                                _ => (answer, used),
                            }
                        } else {
                            (None, 0)
                        },
                        _ => (None, 0),
                    },
                )
            },
            None => (None, 0),
        },
        AstKind::CallExpression { callee, arguments, optional } => match ctx.spec_kind(
            ctx.spec_without_parentheses(callee),
        ) {
            AstKind::IdentifierReference(ident) => match single_declaration(ctx, ident) {
                Some(symbol_id) => if ctx.symbols@[symbol_id as int].is_mutated || is_blocked(
                    visited,
                    steps,
                    symbol_id,
                ) {
                    (None, 0)
                } else {
                    after_hop(
                        annotation_string(
                            ctx,
                            declared_return_type(ctx, ctx.spec_kind(ctx.declaration(symbol_id))),
                            visited.push(symbol_id),
                            (steps - 1) as nat,
                        ),
                    )
                },
                None => (None, 0),
            },
            _ => (None, 0),
        },
        _ => (None, 0),
    }
}

fn asserted_string_type(
    expression: NodeId,
    type_annotation: NodeId,
    ctx: &LintContext,
    state: &mut Resolution,
) -> (r: Option<bool>)
    requires
        ctx.has(expression),
        ctx.has(type_annotation),
    ensures
        r == asserted_string(
            ctx,
            expression,
            type_annotation,
            old(state).visited@,
            old(state).steps as nat,
        ).0,
        spent(
            *old(state),
            *final(state),
            asserted_string(
                ctx,
                expression,
                type_annotation,
                old(state).visited@,
                old(state).steps as nat,
            ).1,
        ),
    decreases old(state).steps, ctx.nodes@.len() - expression, 1nat,
{
    match type_string_type(type_annotation, ctx, state) {
        Some(answer) => Some(answer),
        None => expression_string_type(expression, ctx, state),
    }
}

pub fn expression_string_type(expr: NodeId, ctx: &LintContext, state: &mut Resolution) -> (r: Option<
    bool,
>)
    requires
        ctx.has(expr),
    ensures
        r == expression_string(ctx, expr, old(state).visited@, old(state).steps as nat).0,
        spent(
            *old(state),
            *final(state),
            expression_string(ctx, expr, old(state).visited@, old(state).steps as nat).1,
        ),
    decreases old(state).steps, ctx.nodes@.len() - expr, 0nat,
{
    match ctx.kind(expr) {
        AstKind::ParenthesizedExpression { expression }
        | AstKind::TSSatisfiesExpression { expression }
        | AstKind::TSNonNullExpression { expression } => expression_string_type(
            *expression,
            ctx,
            state,
        ),
        AstKind::TSAsExpression { expression, type_annotation }
        | AstKind::TSTypeAssertion { expression, type_annotation } => asserted_string_type(
            *expression,
            *type_annotation,
            ctx,
            state,
        ),
        AstKind::SequenceExpression { expressions } => {
            if expressions.len() == 0 {
                return None;
            }
            expression_string_type(expressions[expressions.len() - 1], ctx, state)
        },
        AstKind::ConditionalExpression { consequent, alternate } => {
            let first = match expression_string_type(*consequent, ctx, state) {
                Some(first) => first,
                None => return None,
            };
            match expression_string_type(*alternate, ctx, state) {
                Some(second) => {
                    if first == second {
                        Some(first)
                    } else {
                        None
                    }
                },
                None => None,
            }
        },
        AstKind::IdentifierReference(ident) => {
            let symbol_id: SymbolId = match single_declaration_symbol(ident, ctx) {
                Some(symbol_id) => symbol_id,
                None => return None,
            };
            if !state.enter(symbol_id) {
                return None;
            }
            let declaration = ctx.kind(ctx.symbols[symbol_id].declaration);
            let result = match declaration {
                AstKind::FormalParameter { is_binding_identifier, type_annotation, .. } => {
                    if *is_binding_identifier {
                        type_annotation_string_type(*type_annotation, ctx, state)
                    } else {
                        None
                    }
                },
                AstKind::VariableDeclarator { is_binding_identifier, type_annotation, .. } => {
                    if *is_binding_identifier {
                        match type_annotation_string_type(*type_annotation, ctx, state) {
                            Some(answer) => Some(answer),
                            None => match const_declarator_init(declaration) {
                                Some(init) => expression_string_type(init, ctx, state),
                                None => None,
                            },
                        }
                    } else {
                        None
                    }
                },
                _ => None,
            };
            state.leave();
            assert(state.visited@ =~= old(state).visited@);
            result
        },
        AstKind::CallExpression { callee, .. } => {
            let symbol_id: SymbolId = match ctx.kind(ctx.without_parentheses(*callee)) {
                AstKind::IdentifierReference(ident) => match single_declaration_symbol(ident, ctx) {
                    Some(symbol_id) => symbol_id,
                    None => return None,
                },
                _ => return None,
            };
            if ctx.symbols[symbol_id].is_mutated || !state.enter(symbol_id) {
                return None;
            }
            let return_type = get_declared_return_type(ctx.symbols[symbol_id].declaration, ctx);
            let result = type_annotation_string_type(return_type, ctx, state);
            state.leave();
            assert(state.visited@ =~= old(state).visited@);
            result
        },
        _ => None,
    }
}

} // verus!
