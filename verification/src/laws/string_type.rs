//! Laws of the walk that asks whether a value is a string.
use vstd::prelude::*;

use crate::ast::{
    all_below, AstKind, IdentifierReference, LintContext, NodeId, SymbolId, TSTypeOperatorOperator,
    VariableDeclarationKind,
};
use crate::hop_budget::{
    all_types_agree_budget, names_until_string_budget, type_name_string_budget, type_string_budget,
    types_until_string_budget,
};
use crate::resolution::left;
use crate::string_type::{
    all_types_agree, annotation_string, asserted_string, class_reference_string, class_string,
    const_init, expression_string, intersection_string, names_until_string, single_declaration,
    type_name_string, type_string, types_until_string,
};

verus! {

/// Only a `const` that binds one name has an initializer that counts, and that is the one it is
/// written with.
pub proof fn only_a_plain_const_has_an_initializer(declarator: AstKind, init: NodeId)
    ensures
        const_init(declarator) == Some(init) <==> (declarator matches AstKind::VariableDeclarator {
            kind,
            is_binding_identifier,
            type_annotation,
            init: initializer,
        } && kind == VariableDeclarationKind::Const && is_binding_identifier && initializer == Some(
            init,
        )),
{
}

/// A name stands for a symbol exactly if it is bound and its symbol is declared once.
pub proof fn name_declared_once_is_known(ctx: &LintContext, ident: IdentifierReference)
    ensures
        (single_declaration(ctx, ident) is Some) == (ident.symbol_id matches Some(symbol_id)
            && !ctx.symbols@[symbol_id as int].is_redeclared),
        single_declaration(ctx, ident) is Some ==> single_declaration(ctx, ident)
            == ident.symbol_id,
{
}

/// An intersection is a string exactly if a member is, and no string exactly if all members are
/// known to be none.
pub proof fn intersection_is_decided_by_its_members(types: Seq<Option<bool>>)
    ensures
        intersection_string(types) == Some(true) <==> exists|i: int|
            0 <= i < types.len() && types[i] == Some(true),
        intersection_string(types) == Some(false) <==> forall|i: int|
            0 <= i < types.len() ==> types[i] == Some(false),
{
    if intersection_string(types) == Some(false) {
        assert forall|i: int| 0 <= i < types.len() implies types[i] == Some(false) by {
            assert(types.contains(types[i]));
        }
    }
}

/// A type in parentheses, and a `readonly` type, tell what the type inside tells.
pub proof fn wrapped_type_tells_the_same(
    ctx: &LintContext,
    id: NodeId,
    type_annotation: NodeId,
    visited: Seq<SymbolId>,
    steps: nat,
)
    requires
        ctx.has(id),
        ctx.spec_kind(id) == (AstKind::TSParenthesizedType { type_annotation }) || ctx.spec_kind(id)
            == (AstKind::TSTypeOperator {
            operator: TSTypeOperatorOperator::Readonly,
            type_annotation,
        }),
    ensures
        type_string(ctx, id, visited, steps) == type_string(ctx, type_annotation, visited, steps),
{
}

/// A built-in type tells at once what it is: `string` and a string literal are strings, and the
/// other keywords, arrays, tuples, object types and function types are none.
pub proof fn built_in_type_tells_at_once(
    ctx: &LintContext,
    id: NodeId,
    visited: Seq<SymbolId>,
    steps: nat,
)
    requires
        ctx.has(id),
    ensures
        type_string(ctx, id, visited, steps) == match ctx.spec_kind(id) {
            AstKind::TSStringKeyword | AstKind::TSLiteralType { is_string: true } => (
                Some(true),
                0nat,
            ),
            AstKind::TSLiteralType { is_string: false }
            | AstKind::TSBigIntKeyword
            | AstKind::TSBooleanKeyword
            | AstKind::TSNeverKeyword
            | AstKind::TSNumberKeyword
            | AstKind::TSSymbolKeyword
            | AstKind::TSVoidKeyword
            | AstKind::TSNullKeyword
            | AstKind::TSUndefinedKeyword
            | AstKind::TSArrayType
            | AstKind::TSTupleType
            | AstKind::TSTypeLiteral
            | AstKind::TSFunctionType
            | AstKind::TSConstructorType => (Some(false), 0nat),
            _ => type_string(ctx, id, visited, steps),
        },
{
}

/// Nothing else that stands in the place of a type tells anything.
pub proof fn other_types_tell_nothing(
    ctx: &LintContext,
    id: NodeId,
    visited: Seq<SymbolId>,
    steps: nat,
)
    requires
        ctx.has(id),
        match ctx.spec_kind(id) {
            AstKind::TSStringKeyword
            | AstKind::TSLiteralType { .. }
            | AstKind::TSBigIntKeyword
            | AstKind::TSBooleanKeyword
            | AstKind::TSNeverKeyword
            | AstKind::TSNumberKeyword
            | AstKind::TSSymbolKeyword
            | AstKind::TSVoidKeyword
            | AstKind::TSNullKeyword
            | AstKind::TSUndefinedKeyword
            | AstKind::TSArrayType
            | AstKind::TSTupleType
            | AstKind::TSTypeLiteral
            | AstKind::TSFunctionType
            | AstKind::TSConstructorType
            | AstKind::TSParenthesizedType { .. }
            | AstKind::TSUnionType { .. }
            | AstKind::TSIntersectionType { .. }
            | AstKind::TSTypeReference { .. } => false,
            AstKind::TSTypeOperator { operator, .. } => operator
                != TSTypeOperatorOperator::Readonly,
            _ => true,
        },
    ensures
        type_string(ctx, id, visited, steps) == (None::<bool>, 0nat),
{
}

/// A type reference tells what its name tells, and a type annotation what its type tells.
pub proof fn reference_tells_what_its_name_tells(
    ctx: &LintContext,
    id: NodeId,
    name: NodeId,
    visited: Seq<SymbolId>,
    steps: nat,
)
    requires
        ctx.has(id),
        ctx.spec_kind(id) == (AstKind::TSTypeReference { name }),
    ensures
        type_string(ctx, id, visited, steps) == type_name_string(ctx, name, visited, steps),
        annotation_string(ctx, Some(id), visited, steps) == type_string(ctx, id, visited, steps),
        annotation_string(ctx, None, visited, steps) == (None::<bool>, 0nat),
{
}

/// Any annotation tells what its type tells, and a missing one tells nothing.
pub proof fn annotation_tells_what_its_type_tells(
    ctx: &LintContext,
    ts_type: NodeId,
    visited: Seq<SymbolId>,
    steps: nat,
)
    ensures
        annotation_string(ctx, Some(ts_type), visited, steps) == type_string(
            ctx,
            ts_type,
            visited,
            steps,
        ),
        annotation_string(ctx, None, visited, steps) == (None::<bool>, 0nat),
{
}

/// While hops are left over, a union tells an answer exactly if each of its types by itself tells
/// that answer.
pub proof fn union_tells_what_all_types_tell(
    ctx: &LintContext,
    id: NodeId,
    types: Vec<NodeId>,
    answer: bool,
    visited: Seq<SymbolId>,
    steps: nat,
)
    requires
        ctx.has(id),
        ctx.spec_kind(id) == (AstKind::TSUnionType { types }),
        type_string(ctx, id, visited, steps).1 < steps,
    ensures
        type_string(ctx, id, visited, steps).0 == Some(answer) <==> types@.len() > 0 && forall|
            i: int,
        |
            0 <= i < types@.len() ==> type_string(
                ctx,
                #[trigger] types@[i],
                visited,
                steps,
            ).0 == Some(answer),
{
    if types@.len() > 0 {
        type_string_budget(ctx, types@[0], visited, steps, 0);
        let (first, used) = type_string(ctx, types@[0], visited, steps);
        if let Some(first) = first {
            agreement_is_that_of_each(ctx, id, types@, 1, first, visited, left(steps, used), used);
            all_types_agree_budget(ctx, id, types@, 1, first, visited, left(steps, used), 0);
            assert(left(steps, used) + used == steps);
        }
    }
}

/// The types from `from` on agree with `first` exactly if each of them does with the whole budget,
/// of which `extra` hops are used before and some are left over.
proof fn agreement_is_that_of_each(
    ctx: &LintContext,
    owner: NodeId,
    types: Seq<NodeId>,
    from: nat,
    first: bool,
    visited: Seq<SymbolId>,
    steps: nat,
    extra: nat,
)
    requires
        ctx.has(owner),
        all_below(owner, types, ctx.nodes@.len()),
        all_types_agree(ctx, owner, types, from, first, visited, steps).1 < steps,
    ensures
        all_types_agree(ctx, owner, types, from, first, visited, steps).0 <==> forall|i: int|
            from <= i < types.len() ==> type_string(
                ctx,
                #[trigger] types[i],
                visited,
                steps + extra,
            ).0 == Some(first),
    decreases types.len() - from,
{
    if from < types.len() {
        let (answer, used) = type_string(ctx, types[from as int], visited, steps);
        type_string_budget(ctx, types[from as int], visited, steps, extra);
        if answer == Some(first) {
            let rest = left(steps, used);
            all_types_agree_budget(ctx, owner, types, from + 1, first, visited, rest, 0);
            agreement_is_that_of_each(
                ctx,
                owner,
                types,
                from + 1,
                first,
                visited,
                rest,
                used + extra,
            );
            assert(rest + (used + extra) == steps + extra);
        } else {
            assert(type_string(ctx, types[from as int], visited, steps + extra).0 != Some(first));
        }
    }
}

/// A union takes the hops of its first type, and then those of the others as long as they agree.
pub proof fn union_stops_at_the_first_that_differs(
    ctx: &LintContext,
    id: NodeId,
    types: Vec<NodeId>,
    visited: Seq<SymbolId>,
    steps: nat,
)
    requires
        ctx.has(id),
        ctx.spec_kind(id) == (AstKind::TSUnionType { types }),
    ensures
        types@.len() == 0 ==> type_string(ctx, id, visited, steps) == (None::<bool>, 0nat),
        types@.len() > 0 ==> {
            let (first, used) = type_string(ctx, types@[0], visited, steps);
            match first {
                None => type_string(ctx, id, visited, steps) == (None::<bool>, used),
                Some(answer) => {
                    let (all, more) = all_types_agree(
                        ctx,
                        id,
                        types@,
                        1,
                        answer,
                        visited,
                        left(steps, used),
                    );
                    &&& (type_string(ctx, id, visited, steps).0 is Some) == all
                    &&& all ==> type_string(ctx, id, visited, steps).0 == first
                    &&& type_string(ctx, id, visited, steps).1 == used + more
                },
            }
        },
{
}

/// One type after the other is asked, with the hops that are left, until one differs.
pub proof fn agreement_goes_on_type_by_type(
    ctx: &LintContext,
    owner: NodeId,
    types: Seq<NodeId>,
    from: nat,
    first: bool,
    visited: Seq<SymbolId>,
    steps: nat,
)
    requires
        ctx.has(owner),
        all_below(owner, types, ctx.nodes@.len()),
    ensures
        from >= types.len() ==> all_types_agree(ctx, owner, types, from, first, visited, steps) == (
            true,
            0nat,
        ),
        from < types.len() ==> {
            let (answer, used) = type_string(ctx, types[from as int], visited, steps);
            let all = all_types_agree(ctx, owner, types, from, first, visited, steps);
            let rest = all_types_agree(
                ctx,
                owner,
                types,
                from + 1,
                first,
                visited,
                left(steps, used),
            );
            &&& all.0 == (answer == Some(first) && rest.0)
            &&& answer == Some(first) ==> all.1 == used + rest.1
            &&& answer != Some(first) ==> all.1 == used
        },
{
}

/// While hops are left over, an intersection is a string exactly if one of its types by itself is,
/// and no string exactly if all of its types by themselves are none.
pub proof fn intersection_tells_what_its_types_tell(
    ctx: &LintContext,
    id: NodeId,
    types: Vec<NodeId>,
    visited: Seq<SymbolId>,
    steps: nat,
)
    requires
        ctx.has(id),
        ctx.spec_kind(id) == (AstKind::TSIntersectionType { types }),
        type_string(ctx, id, visited, steps).1 < steps,
    ensures
        type_string(ctx, id, visited, steps).0 == Some(true) <==> exists|i: int|
            0 <= i < types@.len() && type_string(
                ctx,
                #[trigger] types@[i],
                visited,
                steps,
            ).0 == Some(true),
        type_string(ctx, id, visited, steps).0 == Some(false) <==> forall|i: int|
            0 <= i < types@.len() ==> type_string(
                ctx,
                #[trigger] types@[i],
                visited,
                steps,
            ).0 == Some(false),
{
    types_answer_as_by_themselves(ctx, id, types@, 0, visited, steps, 0);
    let answers = types_until_string(ctx, id, types@, 0, visited, steps).0;
    intersection_is_decided_by_its_members(answers);
    if type_string(ctx, id, visited, steps).0 == Some(false) {
        assert forall|i: int| 0 <= i < types@.len() implies type_string(
            ctx,
            #[trigger] types@[i],
            visited,
            steps,
        ).0 == Some(false) by {
            assert(answers[i] == Some(false));
        }
    }
    if forall|i: int|
        0 <= i < types@.len() ==> type_string(
            ctx,
            #[trigger] types@[i],
            visited,
            steps,
        ).0 == Some(false) {
        assert forall|i: int| 0 <= i < answers.len() implies answers[i] == Some(false) by {
            assert(answers[i] == type_string(ctx, types@[i], visited, steps).0);
        }
    }
    if exists|i: int|
        0 <= i < types@.len() && type_string(
            ctx,
            #[trigger] types@[i],
            visited,
            steps,
        ).0 == Some(true) {
        let i = choose|i: int|
            0 <= i < types@.len() && type_string(
                ctx,
                #[trigger] types@[i],
                visited,
                steps,
            ).0 == Some(true);
        if i < answers.len() {
            assert(answers[i] == Some(true));
        }
    }
}

/// The answers that an intersection is made of are those of its types by themselves. They are all
/// there, unless the last of them is a string.
proof fn types_answer_as_by_themselves(
    ctx: &LintContext,
    owner: NodeId,
    types: Seq<NodeId>,
    from: nat,
    visited: Seq<SymbolId>,
    steps: nat,
    extra: nat,
)
    requires
        ctx.has(owner),
        all_below(owner, types, ctx.nodes@.len()),
        from <= types.len(),
        types_until_string(ctx, owner, types, from, visited, steps).1 < steps,
    ensures
        ({
            let answers = types_until_string(ctx, owner, types, from, visited, steps).0;
            &&& from + answers.len() <= types.len()
            &&& forall|i: int|
                0 <= i < answers.len() ==> #[trigger] answers[i] == type_string(
                    ctx,
                    types[from + i],
                    visited,
                    steps + extra,
                ).0
            &&& from + answers.len() < types.len() ==> answers.len() > 0 && answers.last() == Some(
                true,
            )
        }),
    decreases types.len() - from,
{
    if from < types.len() {
        let (answer, used) = type_string(ctx, types[from as int], visited, steps);
        type_string_budget(ctx, types[from as int], visited, steps, extra);
        if answer != Some(true) {
            let rest = left(steps, used);
            types_until_string_budget(ctx, owner, types, from + 1, visited, rest, 0);
            types_answer_as_by_themselves(ctx, owner, types, from + 1, visited, rest, used + extra);
            assert(rest + (used + extra) == steps + extra);
            let later = types_until_string(ctx, owner, types, from + 1, visited, rest).0;
            let answers = types_until_string(ctx, owner, types, from, visited, steps).0;
            assert forall|i: int| 0 <= i < answers.len() implies #[trigger] answers[i]
                == type_string(ctx, types[from + i], visited, steps + extra).0 by {
                if i > 0 {
                    assert(answers[i] == later[i - 1]);
                    assert(types[from + i] == types[(from + 1) + (i - 1)]);
                }
            }
        }
    }
}

/// One type of an intersection after the other is asked, with the hops that are left, until one is
/// a string.
pub proof fn intersection_goes_on_type_by_type(
    ctx: &LintContext,
    owner: NodeId,
    types: Seq<NodeId>,
    from: nat,
    visited: Seq<SymbolId>,
    steps: nat,
)
    requires
        ctx.has(owner),
        all_below(owner, types, ctx.nodes@.len()),
    ensures
        from >= types.len() ==> types_until_string(ctx, owner, types, from, visited, steps) == (
            Seq::<Option<bool>>::empty(),
            0nat,
        ),
        from < types.len() ==> {
            let (answer, used) = type_string(ctx, types[from as int], visited, steps);
            let (answers, hops) = types_until_string(ctx, owner, types, from, visited, steps);
            let (later, more) = types_until_string(
                ctx,
                owner,
                types,
                from + 1,
                visited,
                left(steps, used),
            );
            &&& answers.first() == answer
            &&& answer == Some(true) ==> answers.len() == 1 && hops == used
            &&& answer != Some(true) ==> answers.drop_first() == later && hops == used + more
        },
        ctx.spec_kind(owner) matches AstKind::TSIntersectionType { types: all } ==> type_string(
            ctx,
            owner,
            visited,
            steps,
        ).1 == types_until_string(ctx, owner, all@, 0, visited, steps).1,
{
    if from < types.len() {
        let (answer, used) = type_string(ctx, types[from as int], visited, steps);
        let answers = types_until_string(ctx, owner, types, from, visited, steps).0;
        let later = types_until_string(ctx, owner, types, from + 1, visited, left(steps, used)).0;
        if answer != Some(true) {
            assert(answers.drop_first() =~= later);
        }
    }
}

/// Whatever the budget, an intersection and an interface are decided by the answers of the members
/// that were asked.
pub proof fn asked_members_decide(
    ctx: &LintContext,
    id: NodeId,
    types: Vec<NodeId>,
    visited: Seq<SymbolId>,
    steps: nat,
)
    requires
        ctx.has(id),
    ensures
        ctx.spec_kind(id) == (AstKind::TSIntersectionType { types }) ==> type_string(
            ctx,
            id,
            visited,
            steps,
        ).0 == intersection_string(types_until_string(ctx, id, types@, 0, visited, steps).0),
        ctx.spec_kind(id) matches AstKind::IdentifierReference(ident) ==> (
        ident.symbol_id matches Some(symbol_id) ==> (steps > 0 && !visited.contains(symbol_id)
            && ctx.spec_kind(ctx.declaration(symbol_id)) == (AstKind::TSInterfaceDeclaration {
            extends: types,
        }) ==> type_name_string(ctx, id, visited, steps).0 == intersection_string(
            names_until_string(
                ctx,
                ctx.declaration(symbol_id),
                types@,
                0,
                visited.push(symbol_id),
                (steps - 1) as nat,
            ).0,
        ))),
{
}

/// A name of a type that the program does not declare, or that may not be followed, tells nothing,
/// and takes no hop.
pub proof fn type_name_that_is_not_followed_tells_nothing(
    ctx: &LintContext,
    id: NodeId,
    visited: Seq<SymbolId>,
    steps: nat,
)
    requires
        ctx.has(id),
        match ctx.spec_kind(id) {
            AstKind::IdentifierReference(ident) => match ident.symbol_id {
                Some(symbol_id) => steps == 0 || visited.contains(symbol_id),
                None => true,
            },
            _ => true,
        },
    ensures
        type_name_string(ctx, id, visited, steps) == (None::<bool>, 0nat),
{
}

/// A name of a type that is followed takes one hop, and tells what its declaration tells: an alias
/// its type, a type parameter its constraint, a class its base class. Any other declaration tells
/// nothing.
pub proof fn type_name_tells_what_its_declaration_tells(
    ctx: &LintContext,
    id: NodeId,
    ident: IdentifierReference,
    symbol_id: SymbolId,
    visited: Seq<SymbolId>,
    steps: nat,
)
    requires
        ctx.has(id),
        ctx.spec_kind(id) == AstKind::IdentifierReference(ident),
        ident.symbol_id == Some(symbol_id),
        steps > 0,
        !visited.contains(symbol_id),
    ensures
        ({
            let (answer, hops) = type_name_string(ctx, id, visited, steps);
            let path = visited.push(symbol_id);
            let rest = (steps - 1) as nat;
            match ctx.spec_kind(ctx.declaration(symbol_id)) {
                AstKind::TSTypeAliasDeclaration { type_annotation } => (answer, (hops - 1) as nat)
                    == type_string(ctx, type_annotation, path, rest) && hops > 0,
                AstKind::TSTypeParameter { constraint: Some(constraint) } => (
                    answer,
                    (hops - 1) as nat,
                ) == type_string(ctx, constraint, path, rest) && hops > 0,
                AstKind::Class { heritage: Some(heritage) } => (answer, (hops - 1) as nat)
                    == class_reference_string(ctx, heritage, path, rest) && hops > 0,
                AstKind::Class { heritage: None } => answer == Some(false) && hops == 1,
                AstKind::TSInterfaceDeclaration { extends } => hops == 1 + names_until_string(
                    ctx,
                    ctx.declaration(symbol_id),
                    extends@,
                    0,
                    path,
                    rest,
                ).1,
                _ => answer is None && hops == 1,
            }
        }),
{
}

/// While hops are left over, an interface is a string exactly if one of the types that it extends
/// by itself is, and no string exactly if all of them by themselves are none.
pub proof fn interface_tells_what_its_bases_tell(
    ctx: &LintContext,
    id: NodeId,
    ident: IdentifierReference,
    symbol_id: SymbolId,
    extends: Vec<NodeId>,
    visited: Seq<SymbolId>,
    steps: nat,
)
    requires
        ctx.has(id),
        ctx.spec_kind(id) == AstKind::IdentifierReference(ident),
        ident.symbol_id == Some(symbol_id),
        ctx.spec_kind(ctx.declaration(symbol_id)) == (AstKind::TSInterfaceDeclaration { extends }),
        !visited.contains(symbol_id),
        type_name_string(ctx, id, visited, steps).1 < steps,
    ensures
        type_name_string(ctx, id, visited, steps).0 == Some(true) <==> exists|i: int|
            0 <= i < extends@.len() && type_name_string(
                ctx,
                #[trigger] extends@[i],
                visited.push(symbol_id),
                (steps - 1) as nat,
            ).0 == Some(true),
        type_name_string(ctx, id, visited, steps).0 == Some(false) <==> forall|i: int|
            0 <= i < extends@.len() ==> type_name_string(
                ctx,
                #[trigger] extends@[i],
                visited.push(symbol_id),
                (steps - 1) as nat,
            ).0 == Some(false),
{
    let owner = ctx.declaration(symbol_id);
    let path = visited.push(symbol_id);
    let rest = (steps - 1) as nat;
    names_answer_as_by_themselves(ctx, owner, extends@, 0, path, rest, 0);
    let answers = names_until_string(ctx, owner, extends@, 0, path, rest).0;
    intersection_is_decided_by_its_members(answers);
    if type_name_string(ctx, id, visited, steps).0 == Some(false) {
        assert forall|i: int| 0 <= i < extends@.len() implies type_name_string(
            ctx,
            #[trigger] extends@[i],
            path,
            rest,
        ).0 == Some(false) by {
            assert(answers[i] == Some(false));
        }
    }
    if forall|i: int|
        0 <= i < extends@.len() ==> type_name_string(
            ctx,
            #[trigger] extends@[i],
            path,
            rest,
        ).0 == Some(false) {
        assert forall|i: int| 0 <= i < answers.len() implies answers[i] == Some(false) by {
            assert(answers[i] == type_name_string(ctx, extends@[i], path, rest).0);
        }
    }
    if exists|i: int|
        0 <= i < extends@.len() && type_name_string(
            ctx,
            #[trigger] extends@[i],
            path,
            rest,
        ).0 == Some(true) {
        let i = choose|i: int|
            0 <= i < extends@.len() && type_name_string(
                ctx,
                #[trigger] extends@[i],
                path,
                rest,
            ).0 == Some(true);
        if i < answers.len() {
            assert(answers[i] == Some(true));
        }
    }
}

proof fn names_answer_as_by_themselves(
    ctx: &LintContext,
    owner: NodeId,
    names: Seq<NodeId>,
    from: nat,
    visited: Seq<SymbolId>,
    steps: nat,
    extra: nat,
)
    requires
        ctx.has(owner),
        all_below(owner, names, ctx.nodes@.len()),
        from <= names.len(),
        names_until_string(ctx, owner, names, from, visited, steps).1 < steps,
    ensures
        ({
            let answers = names_until_string(ctx, owner, names, from, visited, steps).0;
            &&& from + answers.len() <= names.len()
            &&& forall|i: int|
                0 <= i < answers.len() ==> #[trigger] answers[i] == type_name_string(
                    ctx,
                    names[from + i],
                    visited,
                    steps + extra,
                ).0
            &&& from + answers.len() < names.len() ==> answers.len() > 0 && answers.last() == Some(
                true,
            )
        }),
    decreases names.len() - from,
{
    if from < names.len() {
        let (answer, used) = type_name_string(ctx, names[from as int], visited, steps);
        type_name_string_budget(ctx, names[from as int], visited, steps, extra);
        if answer != Some(true) {
            let rest = left(steps, used);
            names_until_string_budget(ctx, owner, names, from + 1, visited, rest, 0);
            names_answer_as_by_themselves(ctx, owner, names, from + 1, visited, rest, used + extra);
            assert(rest + (used + extra) == steps + extra);
            let later = names_until_string(ctx, owner, names, from + 1, visited, rest).0;
            let answers = names_until_string(ctx, owner, names, from, visited, steps).0;
            assert forall|i: int| 0 <= i < answers.len() implies #[trigger] answers[i]
                == type_name_string(ctx, names[from + i], visited, steps + extra).0 by {
                if i > 0 {
                    assert(answers[i] == later[i - 1]);
                    assert(names[from + i] == names[(from + 1) + (i - 1)]);
                }
            }
        }
    }
}

/// One base of an interface after the other is asked, with the hops that are left, until one is a
/// string.
pub proof fn interface_goes_on_name_by_name(
    ctx: &LintContext,
    owner: NodeId,
    names: Seq<NodeId>,
    from: nat,
    visited: Seq<SymbolId>,
    steps: nat,
)
    requires
        ctx.has(owner),
        all_below(owner, names, ctx.nodes@.len()),
    ensures
        from >= names.len() ==> names_until_string(ctx, owner, names, from, visited, steps) == (
            Seq::<Option<bool>>::empty(),
            0nat,
        ),
        from < names.len() ==> {
            let (answer, used) = type_name_string(ctx, names[from as int], visited, steps);
            let (answers, hops) = names_until_string(ctx, owner, names, from, visited, steps);
            let (later, more) = names_until_string(
                ctx,
                owner,
                names,
                from + 1,
                visited,
                left(steps, used),
            );
            &&& answers.first() == answer
            &&& answer == Some(true) ==> answers.len() == 1 && hops == used
            &&& answer != Some(true) ==> answers.drop_first() == later && hops == used + more
        },
{
    if from < names.len() {
        let (answer, used) = type_name_string(ctx, names[from as int], visited, steps);
        let answers = names_until_string(ctx, owner, names, from, visited, steps).0;
        let later = names_until_string(ctx, owner, names, from + 1, visited, left(steps, used)).0;
        if answer != Some(true) {
            assert(answers.drop_first() =~= later);
        }
    }
}

/// A class tells what its base class tells. One without a base class has instances that are no
/// strings.
pub proof fn class_tells_what_its_base_tells(
    ctx: &LintContext,
    heritage: NodeId,
    visited: Seq<SymbolId>,
    steps: nat,
)
    requires
        ctx.has(heritage),
    ensures
        class_string(ctx, None, visited, steps) == (Some(false), 0nat),
        class_string(ctx, Some(heritage), visited, steps) == class_reference_string(
            ctx,
            heritage,
            visited,
            steps,
        ),
        ctx.spec_kind(heritage) matches AstKind::ParenthesizedExpression { expression }
            ==> class_reference_string(ctx, heritage, visited, steps) == class_reference_string(
            ctx,
            expression,
            visited,
            steps,
        ),
        ctx.spec_kind(heritage) matches AstKind::Class { heritage: base } ==> class_reference_string(
            ctx,
            heritage,
            visited,
            steps,
        ) == class_string(ctx, base, visited, steps),
{
    if let AstKind::ParenthesizedExpression { expression } = ctx.spec_kind(heritage) {
        ctx.lemma_without_parentheses(heritage);
        ctx.lemma_without_parentheses(expression);
    }
}

/// A name of a class that may be followed takes one hop, and tells what its declaration tells: a
/// class itself, a `const` its initializer. Any other name, and any other expression, tells nothing
/// about a class.
pub proof fn class_name_tells_what_its_declaration_tells(
    ctx: &LintContext,
    id: NodeId,
    visited: Seq<SymbolId>,
    steps: nat,
)
    requires
        ctx.has(id),
        !(ctx.spec_kind(id) is ParenthesizedExpression),
        !(ctx.spec_kind(id) is Class),
    ensures
        ({
            let (answer, hops) = class_reference_string(ctx, id, visited, steps);
            match ctx.spec_kind(id) {
                AstKind::IdentifierReference(ident) => match ident.symbol_id {
                    Some(symbol_id) => if steps == 0 || visited.contains(symbol_id) {
                        answer is None && hops == 0
                    } else {
                        let path = visited.push(symbol_id);
                        let rest = (steps - 1) as nat;
                        match ctx.spec_kind(ctx.declaration(symbol_id)) {
                            AstKind::Class { heritage } => hops > 0 && (answer, (hops - 1) as nat)
                                == class_string(ctx, heritage, path, rest),
                            AstKind::VariableDeclarator {
                                kind: VariableDeclarationKind::Const,
                                is_binding_identifier: true,
                                type_annotation,
                                init: Some(init),
                            } => hops > 0 && (answer, (hops - 1) as nat) == class_reference_string(
                                ctx,
                                init,
                                path,
                                rest,
                            ),
                            _ => answer is None && hops == 1,
                        }
                    },
                    None => answer is None && hops == 0,
                },
                _ => answer is None && hops == 0,
            }
        }),
{
}

/// Parentheses, `satisfies`, `!` and all but the last expression of a sequence do not change what
/// an expression tells.
pub proof fn wrapped_expression_tells_the_same(
    ctx: &LintContext,
    id: NodeId,
    expression: NodeId,
    visited: Seq<SymbolId>,
    steps: nat,
)
    requires
        ctx.has(id),
        match ctx.spec_kind(id) {
            AstKind::ParenthesizedExpression { expression: inner }
            | AstKind::TSSatisfiesExpression { expression: inner }
            | AstKind::TSNonNullExpression { expression: inner } => inner == expression,
            AstKind::SequenceExpression { expressions } => expressions@.len() > 0
                && expressions@.last() == expression,
            _ => false,
        },
    ensures
        expression_string(ctx, id, visited, steps) == expression_string(
            ctx,
            expression,
            visited,
            steps,
        ),
{
}

/// An assertion tells what its type tells. Where the type tells nothing, it tells what the
/// expression tells, with the hops that are left.
pub proof fn assertion_tells_its_type_first(
    ctx: &LintContext,
    id: NodeId,
    expression: NodeId,
    type_annotation: NodeId,
    visited: Seq<SymbolId>,
    steps: nat,
)
    requires
        ctx.has(id),
        ctx.spec_kind(id) == (AstKind::TSAsExpression { expression, type_annotation })
            || ctx.spec_kind(id) == (AstKind::TSTypeAssertion { expression, type_annotation }),
    ensures
        ({
            let (asserted, used) = type_string(ctx, type_annotation, visited, steps);
            let (value, more) = expression_string(ctx, expression, visited, left(steps, used));
            expression_string(ctx, id, visited, steps) == if asserted is Some {
                (asserted, used)
            } else {
                (value, used + more)
            }
        }),
{
    reveal_with_fuel(expression_string, 2);
    reveal_with_fuel(asserted_string, 2);
}

/// A conditional expression tells an answer exactly if both branches tell it. The second branch is
/// asked only if the first one tells something, with the hops that are left.
pub proof fn conditional_tells_what_both_branches_tell(
    ctx: &LintContext,
    id: NodeId,
    consequent: NodeId,
    alternate: NodeId,
    answer: bool,
    visited: Seq<SymbolId>,
    steps: nat,
)
    requires
        ctx.has(id),
        ctx.spec_kind(id) == (AstKind::ConditionalExpression { consequent, alternate }),
    ensures
        ({
            let (first, used) = expression_string(ctx, consequent, visited, steps);
            let (second, more) = expression_string(ctx, alternate, visited, left(steps, used));
            &&& expression_string(ctx, id, visited, steps).0 == Some(answer) <==> first == Some(
                answer,
            ) && second == Some(answer)
            &&& expression_string(ctx, id, visited, steps).1 == used + if first is Some {
                more
            } else {
                0
            }
        }),
{
}

/// A name that is not declared exactly once, or that may not be followed, tells nothing.
pub proof fn name_that_is_not_followed_tells_nothing(
    ctx: &LintContext,
    id: NodeId,
    ident: IdentifierReference,
    visited: Seq<SymbolId>,
    steps: nat,
)
    requires
        ctx.has(id),
        ctx.spec_kind(id) == AstKind::IdentifierReference(ident),
        ident.symbol_id matches Some(symbol_id) ==> ctx.symbols@[symbol_id as int].is_redeclared
            || steps == 0 || visited.contains(symbol_id),
    ensures
        expression_string(ctx, id, visited, steps) == (None::<bool>, 0nat),
{
}

/// A name that is followed takes one hop. A parameter tells what its annotation tells. A variable
/// tells what its annotation tells, and, where that is nothing and it is a `const`, what its
/// initializer tells. Destructured names and other declarations tell nothing.
pub proof fn name_tells_what_its_declaration_tells(
    ctx: &LintContext,
    id: NodeId,
    ident: IdentifierReference,
    symbol_id: SymbolId,
    visited: Seq<SymbolId>,
    steps: nat,
)
    requires
        ctx.has(id),
        ctx.spec_kind(id) == AstKind::IdentifierReference(ident),
        ident.symbol_id == Some(symbol_id),
        !ctx.symbols@[symbol_id as int].is_redeclared,
        steps > 0,
        !visited.contains(symbol_id),
    ensures
        ({
            let (answer, hops) = expression_string(ctx, id, visited, steps);
            let path = visited.push(symbol_id);
            let rest = (steps - 1) as nat;
            match ctx.spec_kind(ctx.declaration(symbol_id)) {
                AstKind::FormalParameter {
                    is_binding_identifier: true,
                    type_annotation: Some(ts_type),
                    optional,
                } => hops > 0 && (answer, (hops - 1) as nat) == type_string(
                    ctx,
                    ts_type,
                    path,
                    rest,
                ),
                AstKind::VariableDeclarator {
                    kind,
                    is_binding_identifier: true,
                    type_annotation,
                    init,
                } => {
                    let (annotated, used) = match type_annotation {
                        Some(ts_type) => type_string(ctx, ts_type, path, rest),
                        None => (None, 0),
                    };
                    if annotated is None && kind == VariableDeclarationKind::Const
                        && init is Some {
                        let (value, more) = expression_string(ctx, init->0, path, left(rest, used));
                        answer == value && hops == 1 + used + more
                    } else {
                        answer == annotated && hops == 1 + used
                    }
                },
                _ => answer is None && hops == 1,
            }
        }),
{
}

/// A call tells something only if the callee, without parentheses, is a name that is declared once,
/// is never reassigned and may be followed.
pub proof fn call_of_anything_else_tells_nothing(
    ctx: &LintContext,
    id: NodeId,
    callee: NodeId,
    arguments: Vec<NodeId>,
    optional: bool,
    visited: Seq<SymbolId>,
    steps: nat,
)
    requires
        ctx.has(id),
        ctx.spec_kind(id) == (AstKind::CallExpression { callee, arguments, optional }),
        match ctx.spec_kind(ctx.spec_without_parentheses(callee)) {
            AstKind::IdentifierReference(ident) => match ident.symbol_id {
                Some(symbol_id) => ctx.symbols@[symbol_id as int].is_redeclared
                    || ctx.symbols@[symbol_id as int].is_mutated || steps == 0 || visited.contains(
                    symbol_id,
                ),
                None => true,
            },
            _ => true,
        },
    ensures
        expression_string(ctx, id, visited, steps) == (None::<bool>, 0nat),
{
}

/// A call of a name that is followed takes one hop, and tells what the return type of the function
/// tells that the name is bound to: a function, or a function or arrow function that a `const` is
/// initialized with. A function with type parameters, and anything else, tells nothing.
pub proof fn call_tells_what_its_return_type_tells(
    ctx: &LintContext,
    id: NodeId,
    callee: NodeId,
    arguments: Vec<NodeId>,
    optional: bool,
    ident: IdentifierReference,
    symbol_id: SymbolId,
    visited: Seq<SymbolId>,
    steps: nat,
)
    requires
        ctx.has(id),
        ctx.spec_kind(id) == (AstKind::CallExpression { callee, arguments, optional }),
        ctx.spec_kind(ctx.spec_without_parentheses(callee)) == AstKind::IdentifierReference(ident),
        ident.symbol_id == Some(symbol_id),
        !ctx.symbols@[symbol_id as int].is_redeclared,
        !ctx.symbols@[symbol_id as int].is_mutated,
        steps > 0,
        !visited.contains(symbol_id),
    ensures
        ({
            let (answer, hops) = expression_string(ctx, id, visited, steps);
            let path = visited.push(symbol_id);
            let rest = (steps - 1) as nat;
            let function = match ctx.spec_kind(ctx.declaration(symbol_id)) {
                AstKind::VariableDeclarator {
                    kind: VariableDeclarationKind::Const,
                    is_binding_identifier: true,
                    type_annotation,
                    init: Some(init),
                } => ctx.spec_kind(ctx.spec_skip_satisfies_and_non_null(init)),
                AstKind::Function { has_type_parameters, this_type, return_type } =>
                    AstKind::Function { has_type_parameters, this_type, return_type },
                _ => AstKind::Other,
            };
            match function {
                AstKind::Function {
                    has_type_parameters: false,
                    this_type,
                    return_type: Some(ts_type),
                } => hops > 0 && (answer, (hops - 1) as nat) == type_string(
                    ctx,
                    ts_type,
                    path,
                    rest,
                ),
                AstKind::ArrowFunctionExpression {
                    has_type_parameters: false,
                    return_type: Some(ts_type),
                } => hops > 0 && (answer, (hops - 1) as nat) == type_string(
                    ctx,
                    ts_type,
                    path,
                    rest,
                ),
                _ => answer is None && hops == 1,
            }
        }),
{
}

/// No other expression tells anything: not a literal, not a member, not a calculation.
pub proof fn other_expressions_tell_nothing(
    ctx: &LintContext,
    id: NodeId,
    visited: Seq<SymbolId>,
    steps: nat,
)
    requires
        ctx.has(id),
        match ctx.spec_kind(id) {
            AstKind::ParenthesizedExpression { .. }
            | AstKind::TSSatisfiesExpression { .. }
            | AstKind::TSNonNullExpression { .. }
            | AstKind::TSAsExpression { .. }
            | AstKind::TSTypeAssertion { .. }
            | AstKind::ConditionalExpression { .. }
            | AstKind::IdentifierReference(_)
            | AstKind::CallExpression { .. } => false,
            AstKind::SequenceExpression { expressions } => expressions@.len() == 0,
            _ => true,
        },
    ensures
        expression_string(ctx, id, visited, steps) == (None::<bool>, 0nat),
{
}

} // verus!
