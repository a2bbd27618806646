//! Laws of the walk that asks for the kind of a receiver.
use vstd::prelude::*;

use crate::ast::{
    all_below, AstKind, IdentifierReference, LintContext, NodeId, SymbolId, TSTypeOperatorOperator,
};
use crate::hop_budget::{
    kind_of_type_budget, kind_of_type_reference_budget, kinds_of_names_budget,
    kinds_of_types_budget,
};
use crate::receiver_kind::{
    intersection_kind, kind_is_static_context, kind_of_annotation, kind_of_assertion, kind_of_call,
    kind_of_class, kind_of_class_reference, kind_of_expression, kind_of_new, kind_of_super,
    kind_of_this, kind_of_type, kind_of_type_reference, kind_of_variable, kinds_of_names,
    kinds_of_types, name_kind, single_init, union_kind, ReceiverKind,
};
use crate::resolution::left;

verus! {

/// One member that is no array decides a union, and one that is an array an intersection. All
/// members have to be arrays for a union to be one, and none may be one for an intersection to be
/// none.
pub proof fn list_is_decided_by_its_members(kinds: Seq<ReceiverKind>)
    ensures
        union_kind(kinds) == ReceiverKind::NotArray <==> exists|i: int|
            0 <= i < kinds.len() && kinds[i] == ReceiverKind::NotArray,
        union_kind(kinds) == ReceiverKind::Array <==> forall|i: int|
            0 <= i < kinds.len() ==> kinds[i] == ReceiverKind::Array,
        intersection_kind(kinds) == ReceiverKind::Array <==> exists|i: int|
            0 <= i < kinds.len() && kinds[i] == ReceiverKind::Array,
        intersection_kind(kinds) == ReceiverKind::NotArray <==> forall|i: int|
            0 <= i < kinds.len() ==> kinds[i] == ReceiverKind::NotArray,
{
    assert forall|i: int| 0 <= i < kinds.len() implies kinds.contains(#[trigger] kinds[i]) by {}
}

/// Two names are names of arrays. Those of the typed arrays, of maps and sets and of the two canvas
/// contexts are names of something that is none. No other name tells anything.
pub proof fn built_in_names_are_these(name: Seq<char>)
    ensures
        name_kind(name) == ReceiverKind::Array <==> name == "Array"@ || name == "ReadonlyArray"@,
        name_kind(name) == ReceiverKind::NotArray <==> (name == "Int8Array"@ || name
            == "Uint8Array"@ || name == "Uint8ClampedArray"@ || name == "Int16Array"@ || name
            == "Uint16Array"@ || name == "Int32Array"@ || name == "Uint32Array"@ || name
            == "Float16Array"@ || name == "Float32Array"@ || name == "Float64Array"@ || name
            == "BigInt64Array"@ || name == "BigUint64Array"@ || name == "Map"@ || name
            == "ReadonlyMap"@ || name == "WeakMap"@ || name == "Set"@ || name == "ReadonlySet"@
            || name == "WeakSet"@ || name == "CanvasRenderingContext2D"@ || name
            == "OffscreenCanvasRenderingContext2D"@) && name != "Array"@ && name
            != "ReadonlyArray"@,
{
}

/// A variable has the initializer that it is written with, unless it is destructured.
pub proof fn initializer_is_as_written(declarator: AstKind, init: NodeId)
    ensures
        single_init(declarator) == Some(init) <==> (declarator matches AstKind::VariableDeclarator {
            kind,
            is_binding_identifier,
            type_annotation,
            init: initializer,
        } && is_binding_identifier && initializer == Some(init)),
{
}

/// Only static blocks, properties and accessors are static contexts.
pub proof fn static_contexts_are_these(kind: AstKind)
    ensures
        kind_is_static_context(kind) == match kind {
            AstKind::StaticBlock
            | AstKind::PropertyDefinition { is_static: true }
            | AstKind::AccessorProperty { is_static: true } => true,
            _ => false,
        },
{
}

/// A type in parentheses, and a `readonly` type, are of the kind of the type inside. A type
/// reference is of the kind of its name.
pub proof fn wrapped_type_is_of_the_same_kind(
    ctx: &LintContext,
    id: NodeId,
    inner: NodeId,
    visited: Seq<SymbolId>,
    steps: nat,
)
    requires
        ctx.has(id),
    ensures
        ctx.spec_kind(id) == (AstKind::TSParenthesizedType { type_annotation: inner })
            || ctx.spec_kind(id) == (AstKind::TSTypeOperator {
            operator: TSTypeOperatorOperator::Readonly,
            type_annotation: inner,
        }) ==> kind_of_type(ctx, id, visited, steps) == kind_of_type(ctx, inner, visited, steps),
        ctx.spec_kind(id) == (AstKind::TSTypeReference { name: inner }) ==> kind_of_type(
            ctx,
            id,
            visited,
            steps,
        ) == kind_of_type_reference(ctx, inner, visited, steps),
        kind_of_annotation(ctx, Some(id), visited, steps) == kind_of_type(ctx, id, visited, steps),
        kind_of_annotation(ctx, None, visited, steps) == (ReceiverKind::Unknown, 0nat),
{
}

/// Array and tuple types are arrays. The keywords of other values, literals, object types and
/// function types are none. Everything else in the place of a type is unknown.
pub proof fn built_in_type_is_of_a_known_kind(
    ctx: &LintContext,
    id: NodeId,
    visited: Seq<SymbolId>,
    steps: nat,
)
    requires
        ctx.has(id),
    ensures
        kind_of_type(ctx, id, visited, steps) == match ctx.spec_kind(id) {
            AstKind::TSArrayType | AstKind::TSTupleType => (ReceiverKind::Array, 0nat),
            AstKind::TSBigIntKeyword
            | AstKind::TSBooleanKeyword
            | AstKind::TSNeverKeyword
            | AstKind::TSNullKeyword
            | AstKind::TSNumberKeyword
            | AstKind::TSStringKeyword
            | AstKind::TSSymbolKeyword
            | AstKind::TSUndefinedKeyword
            | AstKind::TSVoidKeyword
            | AstKind::TSLiteralType { .. }
            | AstKind::TSTypeLiteral
            | AstKind::TSFunctionType
            | AstKind::TSConstructorType => (ReceiverKind::NotArray, 0nat),
            AstKind::TSTypeOperator { operator, type_annotation } => if operator
                == TSTypeOperatorOperator::Readonly {
                kind_of_type(ctx, type_annotation, visited, steps)
            } else {
                (ReceiverKind::Unknown, 0nat)
            },
            AstKind::TSParenthesizedType { .. }
            | AstKind::TSTypeReference { .. }
            | AstKind::TSUnionType { .. }
            | AstKind::TSIntersectionType { .. } => kind_of_type(ctx, id, visited, steps),
            _ => (ReceiverKind::Unknown, 0nat),
        },
{
}

/// The kinds that a list is made of are those of its types by themselves.
proof fn types_are_of_their_own_kinds(
    ctx: &LintContext,
    owner: NodeId,
    types: Seq<NodeId>,
    from: nat,
    stop: ReceiverKind,
    visited: Seq<SymbolId>,
    steps: nat,
    extra: nat,
)
    requires
        ctx.has(owner),
        all_below(owner, types, ctx.nodes@.len()),
        from <= types.len(),
        kinds_of_types(ctx, owner, types, from, stop, visited, steps).1 < steps,
    ensures
        ({
            let kinds = kinds_of_types(ctx, owner, types, from, stop, visited, steps).0;
            &&& from + kinds.len() <= types.len()
            &&& forall|i: int|
                0 <= i < kinds.len() ==> #[trigger] kinds[i] == kind_of_type(
                    ctx,
                    types[from + i],
                    visited,
                    steps + extra,
                ).0
            &&& from + kinds.len() < types.len() ==> kinds.len() > 0 && kinds.last() == stop
        }),
    decreases types.len() - from,
{
    if from < types.len() {
        let (kind, used) = kind_of_type(ctx, types[from as int], visited, steps);
        kind_of_type_budget(ctx, types[from as int], visited, steps, extra);
        if kind != stop {
            let rest = left(steps, used);
            kinds_of_types_budget(ctx, owner, types, from + 1, stop, visited, rest, 0);
            types_are_of_their_own_kinds(
                ctx,
                owner,
                types,
                from + 1,
                stop,
                visited,
                rest,
                used + extra,
            );
            assert(rest + (used + extra) == steps + extra);
            let later = kinds_of_types(ctx, owner, types, from + 1, stop, visited, rest).0;
            let kinds = kinds_of_types(ctx, owner, types, from, stop, visited, steps).0;
            assert forall|i: int| 0 <= i < kinds.len() implies #[trigger] kinds[i] == kind_of_type(
                ctx,
                types[from + i],
                visited,
                steps + extra,
            ).0 by {
                if i > 0 {
                    assert(kinds[i] == later[i - 1]);
                    assert(types[from + i] == types[(from + 1) + (i - 1)]);
                }
            }
        }
    }
}

/// One member after the other is asked, with the hops that are left, until one decides.
pub proof fn kinds_of_types_goes_on_one_by_one(
    ctx: &LintContext,
    owner: NodeId,
    types: Seq<NodeId>,
    from: nat,
    stop: ReceiverKind,
    visited: Seq<SymbolId>,
    steps: nat,
)
    requires
        ctx.has(owner),
        all_below(owner, types, ctx.nodes@.len()),
    ensures
        from >= types.len() ==> kinds_of_types(ctx, owner, types, from, stop, visited, steps) == (
            Seq::<ReceiverKind>::empty(),
            0nat,
        ),
        from < types.len() ==> {
            let (kind, used) = kind_of_type(ctx, types[from as int], visited, steps);
            let (kinds, hops) = kinds_of_types(ctx, owner, types, from, stop, visited, steps);
            let (later, more) = kinds_of_types(
                ctx,
                owner,
                types,
                from + 1,
                stop,
                visited,
                left(steps, used),
            );
            &&& kinds.first() == kind
            &&& kind == stop ==> kinds.len() == 1 && hops == used
            &&& kind != stop ==> kinds.drop_first() == later && hops == used + more
        },
{
    if from < types.len() {
        let (kind, used) = kind_of_type(ctx, types[from as int], visited, steps);
        let kinds = kinds_of_types(ctx, owner, types, from, stop, visited, steps).0;
        let rest = left(steps, used);
        let later = kinds_of_types(ctx, owner, types, from + 1, stop, visited, rest).0;
        if kind != stop {
            assert(kinds.drop_first() =~= later);
        }
    }
}

/// The kinds that a list is made of are those of its names by themselves.
proof fn names_are_of_their_own_kinds(
    ctx: &LintContext,
    owner: NodeId,
    names: Seq<NodeId>,
    from: nat,
    stop: ReceiverKind,
    visited: Seq<SymbolId>,
    steps: nat,
    extra: nat,
)
    requires
        ctx.has(owner),
        all_below(owner, names, ctx.nodes@.len()),
        from <= names.len(),
        kinds_of_names(ctx, owner, names, from, stop, visited, steps).1 < steps,
    ensures
        ({
            let kinds = kinds_of_names(ctx, owner, names, from, stop, visited, steps).0;
            &&& from + kinds.len() <= names.len()
            &&& forall|i: int|
                0 <= i < kinds.len() ==> #[trigger] kinds[i] == kind_of_type_reference(
                    ctx,
                    names[from + i],
                    visited,
                    steps + extra,
                ).0
            &&& from + kinds.len() < names.len() ==> kinds.len() > 0 && kinds.last() == stop
        }),
    decreases names.len() - from,
{
    if from < names.len() {
        let (kind, used) = kind_of_type_reference(ctx, names[from as int], visited, steps);
        kind_of_type_reference_budget(ctx, names[from as int], visited, steps, extra);
        if kind != stop {
            let rest = left(steps, used);
            kinds_of_names_budget(ctx, owner, names, from + 1, stop, visited, rest, 0);
            names_are_of_their_own_kinds(
                ctx,
                owner,
                names,
                from + 1,
                stop,
                visited,
                rest,
                used + extra,
            );
            assert(rest + (used + extra) == steps + extra);
            let later = kinds_of_names(ctx, owner, names, from + 1, stop, visited, rest).0;
            let kinds = kinds_of_names(ctx, owner, names, from, stop, visited, steps).0;
            assert forall|i: int| 0 <= i < kinds.len() implies #[trigger] kinds[i]
                == kind_of_type_reference(
                ctx,
                names[from + i],
                visited,
                steps + extra,
            ).0 by {
                if i > 0 {
                    assert(kinds[i] == later[i - 1]);
                    assert(names[from + i] == names[(from + 1) + (i - 1)]);
                }
            }
        }
    }
}

/// One member after the other is asked, with the hops that are left, until one decides.
pub proof fn kinds_of_names_goes_on_one_by_one(
    ctx: &LintContext,
    owner: NodeId,
    names: Seq<NodeId>,
    from: nat,
    stop: ReceiverKind,
    visited: Seq<SymbolId>,
    steps: nat,
)
    requires
        ctx.has(owner),
        all_below(owner, names, ctx.nodes@.len()),
    ensures
        from >= names.len() ==> kinds_of_names(ctx, owner, names, from, stop, visited, steps) == (
            Seq::<ReceiverKind>::empty(),
            0nat,
        ),
        from < names.len() ==> {
            let (kind, used) = kind_of_type_reference(ctx, names[from as int], visited, steps);
            let (kinds, hops) = kinds_of_names(ctx, owner, names, from, stop, visited, steps);
            let (later, more) = kinds_of_names(
                ctx,
                owner,
                names,
                from + 1,
                stop,
                visited,
                left(steps, used),
            );
            &&& kinds.first() == kind
            &&& kind == stop ==> kinds.len() == 1 && hops == used
            &&& kind != stop ==> kinds.drop_first() == later && hops == used + more
        },
{
    if from < names.len() {
        let (kind, used) = kind_of_type_reference(ctx, names[from as int], visited, steps);
        let kinds = kinds_of_names(ctx, owner, names, from, stop, visited, steps).0;
        let rest = left(steps, used);
        let later = kinds_of_names(ctx, owner, names, from + 1, stop, visited, rest).0;
        if kind != stop {
            assert(kinds.drop_first() =~= later);
        }
    }
}

/// While hops are left over, a union is no array exactly if one of its types by itself is none, and
/// an array exactly if all of its types by themselves are.
pub proof fn union_is_of_the_kinds_of_its_types(
    ctx: &LintContext,
    id: NodeId,
    types: Vec<NodeId>,
    visited: Seq<SymbolId>,
    steps: nat,
)
    requires
        ctx.has(id),
        ctx.spec_kind(id) == (AstKind::TSUnionType { types }),
        kind_of_type(ctx, id, visited, steps).1 < steps,
    ensures
        kind_of_type(ctx, id, visited, steps).0 == ReceiverKind::NotArray <==> exists|i: int|
            0 <= i < types@.len() && kind_of_type(ctx, #[trigger] types@[i], visited, steps).0
                == ReceiverKind::NotArray,
        kind_of_type(ctx, id, visited, steps).0 == ReceiverKind::Array <==> forall|i: int|
            0 <= i < types@.len() ==> kind_of_type(ctx, #[trigger] types@[i], visited, steps).0
                == ReceiverKind::Array,
{
    types_are_of_their_own_kinds(ctx, id, types@, 0, ReceiverKind::NotArray, visited, steps, 0);
    let kinds = kinds_of_types(ctx, id, types@, 0, ReceiverKind::NotArray, visited, steps).0;
    list_is_decided_by_its_members(kinds);
    if kind_of_type(ctx, id, visited, steps).0 == ReceiverKind::Array {
        assert forall|i: int| 0 <= i < types@.len() implies kind_of_type(
            ctx,
            #[trigger] types@[i],
            visited,
            steps,
        ).0 == ReceiverKind::Array by {
            assert(kinds[i] == ReceiverKind::Array);
        }
    }
    if forall|i: int|
        0 <= i < types@.len() ==> kind_of_type(ctx, #[trigger] types@[i], visited, steps).0
            == ReceiverKind::Array {
        assert forall|i: int| 0 <= i < kinds.len() implies kinds[i] == ReceiverKind::Array by {
            assert(kinds[i] == kind_of_type(ctx, types@[i], visited, steps).0);
        }
    }
    if exists|i: int|
        0 <= i < types@.len() && kind_of_type(ctx, #[trigger] types@[i], visited, steps).0
            == ReceiverKind::NotArray {
        let i = choose|i: int|
            0 <= i < types@.len() && kind_of_type(ctx, #[trigger] types@[i], visited, steps).0
                == ReceiverKind::NotArray;
        if i < kinds.len() {
            assert(kinds[i] == ReceiverKind::NotArray);
        }
    }
}

/// While hops are left over, an intersection is an array exactly if one of its types by itself is,
/// and none exactly if all of its types by themselves are none.
pub proof fn intersection_is_of_the_kinds_of_its_types(
    ctx: &LintContext,
    id: NodeId,
    types: Vec<NodeId>,
    visited: Seq<SymbolId>,
    steps: nat,
)
    requires
        ctx.has(id),
        ctx.spec_kind(id) == (AstKind::TSIntersectionType { types }),
        kind_of_type(ctx, id, visited, steps).1 < steps,
    ensures
        kind_of_type(ctx, id, visited, steps).0 == ReceiverKind::Array <==> exists|i: int|
            0 <= i < types@.len() && kind_of_type(ctx, #[trigger] types@[i], visited, steps).0
                == ReceiverKind::Array,
        kind_of_type(ctx, id, visited, steps).0 == ReceiverKind::NotArray <==> forall|i: int|
            0 <= i < types@.len() ==> kind_of_type(ctx, #[trigger] types@[i], visited, steps).0
                == ReceiverKind::NotArray,
{
    types_are_of_their_own_kinds(ctx, id, types@, 0, ReceiverKind::Array, visited, steps, 0);
    let kinds = kinds_of_types(ctx, id, types@, 0, ReceiverKind::Array, visited, steps).0;
    list_is_decided_by_its_members(kinds);
    if kind_of_type(ctx, id, visited, steps).0 == ReceiverKind::NotArray {
        assert forall|i: int| 0 <= i < types@.len() implies kind_of_type(
            ctx,
            #[trigger] types@[i],
            visited,
            steps,
        ).0 == ReceiverKind::NotArray by {
            assert(kinds[i] == ReceiverKind::NotArray);
        }
    }
    if forall|i: int|
        0 <= i < types@.len() ==> kind_of_type(ctx, #[trigger] types@[i], visited, steps).0
            == ReceiverKind::NotArray {
        assert forall|i: int| 0 <= i < kinds.len() implies kinds[i] == ReceiverKind::NotArray by {
            assert(kinds[i] == kind_of_type(ctx, types@[i], visited, steps).0);
        }
    }
    if exists|i: int|
        0 <= i < types@.len() && kind_of_type(ctx, #[trigger] types@[i], visited, steps).0
            == ReceiverKind::Array {
        let i = choose|i: int|
            0 <= i < types@.len() && kind_of_type(ctx, #[trigger] types@[i], visited, steps).0
                == ReceiverKind::Array;
        if i < kinds.len() {
            assert(kinds[i] == ReceiverKind::Array);
        }
    }
}

/// Whatever the budget, a union and an intersection are decided by the kinds of the types that were
/// asked.
pub proof fn asked_types_decide(
    ctx: &LintContext,
    id: NodeId,
    types: Vec<NodeId>,
    visited: Seq<SymbolId>,
    steps: nat,
)
    requires
        ctx.has(id),
    ensures
        ctx.spec_kind(id) == (AstKind::TSUnionType { types }) ==> {
            let asked = kinds_of_types(
                ctx,
                id,
                types@,
                0,
                ReceiverKind::NotArray,
                visited,
                steps,
            );
            kind_of_type(ctx, id, visited, steps) == (union_kind(asked.0), asked.1)
        },
        ctx.spec_kind(id) == (AstKind::TSIntersectionType { types }) ==> {
            let asked = kinds_of_types(ctx, id, types@, 0, ReceiverKind::Array, visited, steps);
            kind_of_type(ctx, id, visited, steps) == (intersection_kind(asked.0), asked.1)
        },
{
}

/// A name of a type that is not bound is known by its name alone. One that may not be followed, and
/// a qualified name, are unknown.
pub proof fn type_name_that_is_not_followed(
    ctx: &LintContext,
    id: NodeId,
    visited: Seq<SymbolId>,
    steps: nat,
)
    requires
        ctx.has(id),
    ensures
        match ctx.spec_kind(id) {
            AstKind::IdentifierReference(ident) => match ident.symbol_id {
                Some(symbol_id) => steps == 0 || visited.contains(symbol_id)
                    ==> kind_of_type_reference(ctx, id, visited, steps) == (
                    ReceiverKind::Unknown,
                    0nat,
                ),
                None => kind_of_type_reference(ctx, id, visited, steps) == (
                    name_kind(ident.name@),
                    0nat,
                ),
            },
            _ => kind_of_type_reference(ctx, id, visited, steps) == (ReceiverKind::Unknown, 0nat),
        },
{
}

/// A name of a type that is followed takes one hop, and is of the kind of its declaration: an alias
/// of that of its type, a type parameter of that of its constraint, a class of that of its base. An
/// import under, or of, the name of a built-in type is no array. Anything else is unknown.
pub proof fn type_name_is_of_the_kind_of_its_declaration(
    ctx: &LintContext,
    id: NodeId,
    ident: IdentifierReference,
    symbol_id: SymbolId,
    visited: Seq<SymbolId>,
    steps: nat,
)
    requires
        ctx.has(id),
        ctx.spec_kind(id) == AstKind::IdentifierReference(ident),
        ident.symbol_id == Some(symbol_id),
        steps > 0,
        !visited.contains(symbol_id),
    ensures
        ({
            let (kind, hops) = kind_of_type_reference(ctx, id, visited, steps);
            let path = visited.push(symbol_id);
            let rest = (steps - 1) as nat;
            match ctx.spec_kind(ctx.declaration(symbol_id)) {
                AstKind::TSTypeAliasDeclaration { type_annotation } => hops > 0 && (
                    kind,
                    (hops - 1) as nat,
                ) == kind_of_type(ctx, type_annotation, path, rest),
                AstKind::TSTypeParameter { constraint: Some(constraint) } => hops > 0 && (
                    kind,
                    (hops - 1) as nat,
                ) == kind_of_type(ctx, constraint, path, rest),
                AstKind::Class { heritage: Some(heritage) } => hops > 0 && (
                    kind,
                    (hops - 1) as nat,
                ) == kind_of_class_reference(ctx, heritage, path, rest),
                AstKind::Class { heritage: None } => kind == ReceiverKind::NotArray && hops == 1,
                AstKind::TSInterfaceDeclaration { extends } => {
                    let asked = kinds_of_names(
                        ctx,
                        ctx.declaration(symbol_id),
                        extends@,
                        0,
                        ReceiverKind::Array,
                        path,
                        rest,
                    );
                    kind == intersection_kind(asked.0) && hops == 1 + asked.1
                },
                AstKind::ImportSpecifier { imported, local, source } => hops == 1 && kind == if
                    name_kind(imported@) == ReceiverKind::Unknown && name_kind(local@)
                    == ReceiverKind::Unknown {
                    ReceiverKind::Unknown
                } else {
                    ReceiverKind::NotArray
                },
                AstKind::ImportDefaultSpecifier { local, source } => hops == 1 && kind == if
                    name_kind(local@) == ReceiverKind::Unknown {
                    ReceiverKind::Unknown
                } else {
                    ReceiverKind::NotArray
                },
                _ => kind == ReceiverKind::Unknown && hops == 1,
            }
        }),
{
}

/// While hops are left over, an interface is an array exactly if one of the types that it extends
/// by itself is, and none exactly if all of them by themselves are none.
pub proof fn interface_is_of_the_kinds_of_its_bases(
    ctx: &LintContext,
    id: NodeId,
    ident: IdentifierReference,
    symbol_id: SymbolId,
    extends: Vec<NodeId>,
    visited: Seq<SymbolId>,
    steps: nat,
)
    requires
        ctx.has(id),
        ctx.spec_kind(id) == AstKind::IdentifierReference(ident),
        ident.symbol_id == Some(symbol_id),
        ctx.spec_kind(ctx.declaration(symbol_id)) == (AstKind::TSInterfaceDeclaration { extends }),
        !visited.contains(symbol_id),
        kind_of_type_reference(ctx, id, visited, steps).1 < steps,
    ensures
        kind_of_type_reference(ctx, id, visited, steps).0 == ReceiverKind::Array <==> exists|i: int|
            0 <= i < extends@.len() && kind_of_type_reference(
                ctx,
                #[trigger] extends@[i],
                visited.push(symbol_id),
                (steps - 1) as nat,
            ).0
                == ReceiverKind::Array,
        kind_of_type_reference(
            ctx,
            id,
            visited,
            steps,
        ).0 == ReceiverKind::NotArray <==> forall|i: int|
            0 <= i < extends@.len()
                ==> kind_of_type_reference(
                    ctx,
                    #[trigger] extends@[i],
                    visited.push(symbol_id),
                    (steps - 1) as nat,
                ).0
                == ReceiverKind::NotArray,
{
    let owner = ctx.declaration(symbol_id);
    let stop = ReceiverKind::Array;
    let path = visited.push(symbol_id);
    let rest = (steps - 1) as nat;
    names_are_of_their_own_kinds(ctx, owner, extends@, 0, stop, path, rest, 0);
    let kinds = kinds_of_names(ctx, owner, extends@, 0, stop, path, rest).0;
    list_is_decided_by_its_members(kinds);
    if kind_of_type_reference(ctx, id, visited, steps).0 == ReceiverKind::NotArray {
        assert forall|i: int| 0 <= i < extends@.len() implies kind_of_type_reference(
            ctx,
            #[trigger] extends@[i],
            visited.push(symbol_id),
            (steps - 1) as nat,
        ).0 == ReceiverKind::NotArray by {
            assert(kinds[i] == ReceiverKind::NotArray);
        }
    }
    if forall|i: int|
        0 <= i < extends@.len()
            ==> kind_of_type_reference(
                ctx,
                #[trigger] extends@[i],
                visited.push(symbol_id),
                (steps - 1) as nat,
            ).0
            == ReceiverKind::NotArray {
        assert forall|i: int| 0 <= i < kinds.len() implies kinds[i] == ReceiverKind::NotArray by {
            assert(kinds[i] == kind_of_type_reference(ctx, extends@[i], path, rest).0);
        }
    }
    if exists|i: int|
        0 <= i < extends@.len() && kind_of_type_reference(
            ctx,
            #[trigger] extends@[i],
            visited.push(symbol_id),
            (steps - 1) as nat,
        ).0
            == ReceiverKind::Array {
        let i = choose|i: int|
            0 <= i < extends@.len() && kind_of_type_reference(
                ctx,
                #[trigger] extends@[i],
                visited.push(symbol_id),
                (steps - 1) as nat,
            ).0
                == ReceiverKind::Array;
        if i < kinds.len() {
            assert(kinds[i] == ReceiverKind::Array);
        }
    }
}

/// A class has instances of the kind of those of its base class. One without a base class has
/// instances that are no arrays.
pub proof fn class_is_of_the_kind_of_its_base(
    ctx: &LintContext,
    heritage: NodeId,
    visited: Seq<SymbolId>,
    steps: nat,
)
    requires
        ctx.has(heritage),
    ensures
        kind_of_class(ctx, None, visited, steps) == (ReceiverKind::NotArray, 0nat),
        kind_of_class(ctx, Some(heritage), visited, steps) == kind_of_class_reference(
            ctx,
            heritage,
            visited,
            steps,
        ),
        ctx.spec_kind(heritage) matches AstKind::ParenthesizedExpression { expression }
            ==> kind_of_class_reference(ctx, heritage, visited, steps) == kind_of_class_reference(
            ctx,
            expression,
            visited,
            steps,
        ),
        ctx.spec_kind(heritage) matches AstKind::Class { heritage: base }
            ==> kind_of_class_reference(ctx, heritage, visited, steps) == kind_of_class(
            ctx,
            base,
            visited,
            steps,
        ),
{
    if let AstKind::ParenthesizedExpression { expression } = ctx.spec_kind(heritage) {
        ctx.lemma_without_parentheses(heritage);
        ctx.lemma_without_parentheses(expression);
    }
}

/// A name of a class that is not bound is known by its name alone. One that is followed takes one
/// hop, and is of the kind of its declaration: a class, or the initializer of a `const`. Any other
/// name, and any other expression, is unknown.
pub proof fn class_name_is_of_the_kind_of_its_declaration(
    ctx: &LintContext,
    id: NodeId,
    visited: Seq<SymbolId>,
    steps: nat,
)
    requires
        ctx.has(id),
        !(ctx.spec_kind(id) is ParenthesizedExpression),
        !(ctx.spec_kind(id) is Class),
    ensures
        ({
            let (kind, hops) = kind_of_class_reference(ctx, id, visited, steps);
            match ctx.spec_kind(id) {
                AstKind::IdentifierReference(ident) => match ident.symbol_id {
                    Some(symbol_id) => if steps == 0 || visited.contains(symbol_id) {
                        kind == ReceiverKind::Unknown && hops == 0
                    } else {
                        let path = visited.push(symbol_id);
                        let rest = (steps - 1) as nat;
                        match ctx.spec_kind(ctx.declaration(symbol_id)) {
                            AstKind::Class { heritage } => hops > 0 && (kind, (hops - 1) as nat)
                                == kind_of_class(ctx, heritage, path, rest),
                            AstKind::VariableDeclarator {
                                kind: declaration_kind,
                                is_binding_identifier: true,
                                type_annotation,
                                init: Some(init),
                            } => if ctx.symbols@[symbol_id as int].is_const_variable {
                                hops > 0 && (kind, (hops - 1) as nat) == kind_of_class_reference(
                                    ctx,
                                    init,
                                    path,
                                    rest,
                                )
                            } else {
                                kind == ReceiverKind::Unknown && hops == 1
                            },
                            _ => kind == ReceiverKind::Unknown && hops == 1,
                        }
                    },
                    None => kind == name_kind(ident.name@) && hops == 0,
                },
                _ => kind == ReceiverKind::Unknown && hops == 0,
            }
        }),
{
}

/// Parentheses, `satisfies`, `!` and all but the last expression of a sequence do not change the
/// kind of an expression.
pub proof fn wrapped_expression_is_of_the_same_kind(
    ctx: &LintContext,
    id: NodeId,
    expression: NodeId,
    visited: Seq<SymbolId>,
    steps: nat,
)
    requires
        ctx.has(id),
        match ctx.spec_kind(id) {
            AstKind::ParenthesizedExpression { expression: inner }
            | AstKind::TSSatisfiesExpression { expression: inner }
            | AstKind::TSNonNullExpression { expression: inner } => inner == expression,
            AstKind::SequenceExpression { expressions } => expressions@.len() > 0
                && expressions@.last() == expression,
            _ => false,
        },
    ensures
        kind_of_expression(ctx, id, visited, steps) == kind_of_expression(
            ctx,
            expression,
            visited,
            steps,
        ),
{
}

/// An assertion is of the kind of its type. Where that is unknown, it is of the kind of the
/// expression, found with the hops that are left.
pub proof fn assertion_is_of_the_kind_of_its_type(
    ctx: &LintContext,
    id: NodeId,
    expression: NodeId,
    type_annotation: NodeId,
    visited: Seq<SymbolId>,
    steps: nat,
)
    requires
        ctx.has(id),
        ctx.spec_kind(id) == (AstKind::TSAsExpression { expression, type_annotation })
            || ctx.spec_kind(id) == (AstKind::TSTypeAssertion { expression, type_annotation }),
    ensures
        ({
            let (asserted, used) = kind_of_type(ctx, type_annotation, visited, steps);
            let (value, more) = kind_of_expression(ctx, expression, visited, left(steps, used));
            kind_of_expression(ctx, id, visited, steps) == if asserted != ReceiverKind::Unknown {
                (asserted, used)
            } else {
                (value, used + more)
            }
        }),
{
    reveal_with_fuel(kind_of_expression, 2);
    reveal_with_fuel(kind_of_assertion, 2);
}

/// A conditional expression is no array exactly if one of its branches is none, and an array
/// exactly if both are. Both are always asked, the second with the hops that are left.
pub proof fn conditional_is_of_the_kinds_of_its_branches(
    ctx: &LintContext,
    id: NodeId,
    consequent: NodeId,
    alternate: NodeId,
    visited: Seq<SymbolId>,
    steps: nat,
)
    requires
        ctx.has(id),
        ctx.spec_kind(id) == (AstKind::ConditionalExpression { consequent, alternate }),
    ensures
        ({
            let (kind, hops) = kind_of_expression(ctx, id, visited, steps);
            let (first, used) = kind_of_expression(ctx, consequent, visited, steps);
            let (second, more) = kind_of_expression(ctx, alternate, visited, left(steps, used));
            &&& kind == ReceiverKind::NotArray <==> first == ReceiverKind::NotArray || second
                == ReceiverKind::NotArray
            &&& kind == ReceiverKind::Array <==> first == ReceiverKind::Array && second
                == ReceiverKind::Array
            &&& hops == used + more
        }),
{
    let (first, used) = kind_of_expression(ctx, consequent, visited, steps);
    let (second, more) = kind_of_expression(ctx, alternate, visited, left(steps, used));
    let kinds = seq![first, second];
    assert(kinds[0] == first && kinds[1] == second);
    list_is_decided_by_its_members(kinds);
}

/// A name that is not declared exactly once, or that may not be followed, is of an unknown kind.
pub proof fn name_that_is_not_followed_is_unknown(
    ctx: &LintContext,
    id: NodeId,
    ident: IdentifierReference,
    visited: Seq<SymbolId>,
    steps: nat,
)
    requires
        ctx.has(id),
        ctx.spec_kind(id) == AstKind::IdentifierReference(ident),
        ident.symbol_id matches Some(symbol_id) ==> ctx.symbols@[symbol_id as int].is_redeclared
            || steps == 0 || visited.contains(symbol_id),
    ensures
        kind_of_expression(ctx, id, visited, steps) == (ReceiverKind::Unknown, 0nat),
{
    reveal_with_fuel(kind_of_expression, 2);
    reveal_with_fuel(kind_of_variable, 2);
}

/// A name that is followed takes one hop. A parameter is of the kind of its annotation, and no
/// array if it is optional. A variable is of the kind of its annotation, and, where that is unknown and
/// it is a `const`, of that of its initializer. Destructured names and other declarations are of an
/// unknown kind.
pub proof fn name_is_of_the_kind_of_its_declaration(
    ctx: &LintContext,
    id: NodeId,
    ident: IdentifierReference,
    symbol_id: SymbolId,
    visited: Seq<SymbolId>,
    steps: nat,
)
    requires
        ctx.has(id),
        ctx.spec_kind(id) == AstKind::IdentifierReference(ident),
        ident.symbol_id == Some(symbol_id),
        !ctx.symbols@[symbol_id as int].is_redeclared,
        steps > 0,
        !visited.contains(symbol_id),
    ensures
        ({
            let (kind, hops) = kind_of_expression(ctx, id, visited, steps);
            let path = visited.push(symbol_id);
            let rest = (steps - 1) as nat;
            match ctx.spec_kind(ctx.declaration(symbol_id)) {
                AstKind::FormalParameter {
                    is_binding_identifier: true,
                    type_annotation,
                    optional: true,
                } => kind == ReceiverKind::NotArray && hops == 1,
                AstKind::FormalParameter {
                    is_binding_identifier: true,
                    type_annotation: Some(ts_type),
                    optional: false,
                } => hops > 0 && (kind, (hops - 1) as nat) == kind_of_type(
                    ctx,
                    ts_type,
                    path,
                    rest,
                ),
                AstKind::VariableDeclarator {
                    kind: declaration_kind,
                    is_binding_identifier: true,
                    type_annotation,
                    init,
                } => {
                    let (annotated, used) = match type_annotation {
                        Some(ts_type) => kind_of_type(ctx, ts_type, path, rest),
                        None => (ReceiverKind::Unknown, 0),
                    };
                    if annotated == ReceiverKind::Unknown
                        && ctx.symbols@[symbol_id as int].is_const_variable && init is Some {
                        let (value, more) = kind_of_expression(
                            ctx,
                            init->0,
                            path,
                            left(rest, used),
                        );
                        kind == value && hops == 1 + used + more
                    } else {
                        kind == annotated && hops == 1 + used
                    }
                },
                _ => kind == ReceiverKind::Unknown && hops == 1,
            }
        }),
{
    reveal_with_fuel(kind_of_expression, 2);
    reveal_with_fuel(kind_of_variable, 2);
}

/// A call tells nothing, and takes no hop, unless its callee, without parentheses, is a name that
/// is declared once, never reassigned, and bound to a function without type parameters: by its
/// declaration, or by the initializer of a `const`.
pub proof fn call_of_anything_else_is_unknown(
    ctx: &LintContext,
    id: NodeId,
    callee: NodeId,
    arguments: Vec<NodeId>,
    optional: bool,
    visited: Seq<SymbolId>,
    steps: nat,
)
    requires
        ctx.has(id),
        ctx.spec_kind(id) == (AstKind::CallExpression { callee, arguments, optional }),
        match ctx.spec_kind(ctx.spec_without_parentheses(callee)) {
            AstKind::IdentifierReference(ident) => match ident.symbol_id {
                Some(symbol_id) => ctx.symbols@[symbol_id as int].is_redeclared
                    || ctx.symbols@[symbol_id as int].is_mutated || match ctx.spec_kind(
                    ctx.declaration(symbol_id),
                ) {
                    AstKind::Function { has_type_parameters, .. } => has_type_parameters,
                    AstKind::VariableDeclarator { is_binding_identifier, init, .. } => {
                        ||| !is_binding_identifier
                        ||| init is None
                        ||| !ctx.symbols@[symbol_id as int].is_const_variable
                        ||| match ctx.spec_kind(ctx.spec_skip_satisfies_and_non_null(init->0)) {
                            AstKind::Function { has_type_parameters, .. } => has_type_parameters,
                            AstKind::ArrowFunctionExpression { has_type_parameters, .. } =>
                                has_type_parameters,
                            _ => true,
                        }
                    },
                    _ => true,
                },
                None => true,
            },
            _ => true,
        },
    ensures
        kind_of_expression(ctx, id, visited, steps) == (ReceiverKind::Unknown, 0nat),
{
}

/// A call of a function that is known is of the kind of its return type, and takes no hop for the
/// name. A function without a return type tells nothing.
pub proof fn call_is_of_the_kind_of_the_return_type(
    ctx: &LintContext,
    id: NodeId,
    callee: NodeId,
    arguments: Vec<NodeId>,
    optional: bool,
    ident: IdentifierReference,
    symbol_id: SymbolId,
    return_type: Option<NodeId>,
    visited: Seq<SymbolId>,
    steps: nat,
)
    requires
        ctx.has(id),
        ctx.spec_kind(id) == (AstKind::CallExpression { callee, arguments, optional }),
        ctx.spec_kind(ctx.spec_without_parentheses(callee)) == AstKind::IdentifierReference(ident),
        ident.symbol_id == Some(symbol_id),
        !ctx.symbols@[symbol_id as int].is_redeclared,
        !ctx.symbols@[symbol_id as int].is_mutated,
        match ctx.spec_kind(ctx.declaration(symbol_id)) {
            AstKind::Function { has_type_parameters: false, this_type, return_type: declared } =>
                declared == return_type,
            AstKind::VariableDeclarator {
                kind,
                is_binding_identifier: true,
                type_annotation,
                init: Some(init),
            } => ctx.symbols@[symbol_id as int].is_const_variable && match ctx.spec_kind(
                ctx.spec_skip_satisfies_and_non_null(init),
            ) {
                AstKind::Function {
                    has_type_parameters: false,
                    this_type,
                    return_type: declared,
                } => declared == return_type,
                AstKind::ArrowFunctionExpression {
                    has_type_parameters: false,
                    return_type: declared,
                } => declared == return_type,
                _ => false,
            },
            _ => false,
        },
    ensures
        return_type is None ==> kind_of_expression(ctx, id, visited, steps) == (
            ReceiverKind::Unknown,
            0nat,
        ),
        return_type matches Some(ts_type) ==> kind_of_expression(ctx, id, visited, steps)
            == kind_of_type(ctx, ts_type, visited, steps),
{
}

/// `new` gives an array exactly if the class is known to have arrays as instances, or if nothing is
/// known of it and it is named `Array`. Otherwise it gives no array.
pub proof fn new_gives_an_array_or_none(
    ctx: &LintContext,
    id: NodeId,
    callee: NodeId,
    arguments: Vec<NodeId>,
    visited: Seq<SymbolId>,
    steps: nat,
)
    requires
        ctx.has(id),
        ctx.spec_kind(id) == (AstKind::NewExpression { callee, arguments }),
    ensures
        ({
            let (kind, hops) = kind_of_expression(ctx, id, visited, steps);
            let (class, used) = kind_of_class_reference(ctx, callee, visited, steps);
            &&& kind != ReceiverKind::Unknown
            &&& kind == ReceiverKind::Array <==> class == ReceiverKind::Array || (class
                == ReceiverKind::Unknown && match ctx.spec_kind(callee) {
                AstKind::IdentifierReference(ident) => ident.name@ == "Array"@,
                _ => false,
            })
            &&& hops == used
        }),
{
}

/// `this` outside of everything is unknown. A class above gives the kind of its instances, a static
/// context a class, which is no array, and a function the type of its `this`.
pub proof fn this_is_told_by_what_is_above(
    ctx: &LintContext,
    id: NodeId,
    visited: Seq<SymbolId>,
    steps: nat,
)
    requires
        ctx.has(id),
    ensures
        ctx.spec_kind(id) is ThisExpression ==> kind_of_expression(ctx, id, visited, steps)
            == kind_of_this(ctx, id, visited, steps),
        ctx.spec_parent(id) is None ==> kind_of_this(ctx, id, visited, steps) == (
            ReceiverKind::Unknown,
            0nat,
        ),
        ctx.spec_parent(id) matches Some(above) ==> match ctx.spec_kind(above) {
            AstKind::Class { heritage } => kind_of_this(ctx, id, visited, steps) == kind_of_class(
                ctx,
                heritage,
                visited,
                steps,
            ),
            AstKind::StaticBlock
            | AstKind::PropertyDefinition { is_static: true }
            | AstKind::AccessorProperty { is_static: true } => kind_of_this(
                ctx,
                id,
                visited,
                steps,
            ) == (ReceiverKind::NotArray, 0nat),
            AstKind::Function { .. } => true,
            _ => kind_of_this(ctx, id, visited, steps) == kind_of_this(ctx, above, visited, steps),
        },
{
}

/// In a function, `this` is of the kind of the type that is written for it. Where that is missing
/// or unknown, `this` is no array in an object and in a static method, that of the class in another
/// method, and unknown elsewhere.
pub proof fn function_tells_its_this(
    ctx: &LintContext,
    id: NodeId,
    above: NodeId,
    has_type_parameters: bool,
    this_type: Option<NodeId>,
    return_type: Option<NodeId>,
    visited: Seq<SymbolId>,
    steps: nat,
)
    requires
        ctx.has(id),
        ctx.spec_parent(id) == Some(above),
        ctx.spec_kind(above) == (AstKind::Function { has_type_parameters, this_type, return_type }),
    ensures
        ({
            let (kind, hops) = kind_of_this(ctx, id, visited, steps);
            let (written, used) = match this_type {
                Some(ts_type) => kind_of_type(ctx, ts_type, visited, steps),
                None => (ReceiverKind::Unknown, 0),
            };
            if written != ReceiverKind::Unknown {
                kind == written && hops == used
            } else {
                match ctx.spec_parent(above) {
                    Some(owner) => match ctx.spec_kind(owner) {
                        AstKind::ObjectProperty | AstKind::MethodDefinition { is_static: true } =>
                            kind == ReceiverKind::NotArray && hops == used,
                        AstKind::MethodDefinition { is_static: false } => {
                            let (outer, more) = kind_of_this(
                                ctx,
                                above,
                                visited,
                                left(steps, used),
                            );
                            kind == outer && hops == used + more
                        },
                        _ => kind == ReceiverKind::Unknown && hops == used,
                    },
                    None => kind == ReceiverKind::Unknown && hops == used,
                }
            }
        }),
{
}

/// `super` is told by the nearest class, static context or static method above. Anything else is
/// passed over.
pub proof fn super_is_told_by_what_is_above(
    ctx: &LintContext,
    id: NodeId,
    visited: Seq<SymbolId>,
    steps: nat,
)
    requires
        ctx.has(id),
    ensures
        ctx.spec_kind(id) is Super ==> kind_of_expression(ctx, id, visited, steps) == kind_of_super(
            ctx,
            id,
            visited,
            steps,
        ),
        ctx.spec_parent(id) is None ==> kind_of_super(ctx, id, visited, steps) == (
            ReceiverKind::Unknown,
            0nat,
        ),
        ctx.spec_parent(id) matches Some(above) ==> match ctx.spec_kind(above) {
            AstKind::Class { heritage } => kind_of_super(ctx, id, visited, steps) == kind_of_class(
                ctx,
                heritage,
                visited,
                steps,
            ),
            AstKind::StaticBlock
            | AstKind::PropertyDefinition { is_static: true }
            | AstKind::AccessorProperty { is_static: true }
            | AstKind::MethodDefinition { is_static: true } => kind_of_super(
                ctx,
                id,
                visited,
                steps,
            ) == (ReceiverKind::NotArray, 0nat),
            _ => kind_of_super(ctx, id, visited, steps) == kind_of_super(
                ctx,
                above,
                visited,
                steps,
            ),
        },
{
}

/// The parts of the walk are of one mind with the whole: what is asked of a variable, a call, a
/// `new` or an assertion by itself is what is asked of the expression.
pub proof fn parts_of_the_walk_agree_with_the_whole(
    ctx: &LintContext,
    id: NodeId,
    visited: Seq<SymbolId>,
    steps: nat,
)
    requires
        ctx.has(id),
    ensures
        match ctx.spec_kind(id) {
            AstKind::IdentifierReference(ident) => kind_of_variable(ctx, ident, visited, steps)
                == kind_of_expression(ctx, id, visited, steps),
            AstKind::CallExpression { callee, arguments, optional } => kind_of_call(
                ctx,
                callee,
                visited,
                steps,
            ) == kind_of_expression(ctx, id, visited, steps),
            AstKind::NewExpression { callee, arguments } => kind_of_new(
                ctx,
                callee,
                visited,
                steps,
            ) == kind_of_expression(ctx, id, visited, steps),
            AstKind::TSAsExpression { expression, type_annotation } => kind_of_assertion(
                ctx,
                expression,
                type_annotation,
                visited,
                steps,
            ) == kind_of_expression(ctx, id, visited, steps),
            _ => true,
        },
{
}

/// Literals, templates, objects, functions and classes are no arrays. Every other expression that
/// is not of one of the forms above, such as a member or an array literal, is of an unknown kind.
pub proof fn plain_value_is_no_array_and_the_rest_is_unknown(
    ctx: &LintContext,
    id: NodeId,
    visited: Seq<SymbolId>,
    steps: nat,
)
    requires
        ctx.has(id),
    ensures
        kind_of_expression(ctx, id, visited, steps) == match ctx.spec_kind(id) {
            AstKind::BooleanLiteral
            | AstKind::NullLiteral
            | AstKind::NumericLiteral { .. }
            | AstKind::BigIntLiteral
            | AstKind::RegExpLiteral
            | AstKind::StringLiteral { .. }
            | AstKind::TemplateLiteral { .. }
            | AstKind::ObjectExpression
            | AstKind::Function { .. }
            | AstKind::ArrowFunctionExpression { .. }
            | AstKind::Class { .. } => (ReceiverKind::NotArray, 0nat),
            AstKind::ParenthesizedExpression { .. }
            | AstKind::TSSatisfiesExpression { .. }
            | AstKind::TSNonNullExpression { .. }
            | AstKind::TSAsExpression { .. }
            | AstKind::TSTypeAssertion { .. }
            | AstKind::ConditionalExpression { .. }
            | AstKind::IdentifierReference(_)
            | AstKind::CallExpression { .. }
            | AstKind::NewExpression { .. }
            | AstKind::ThisExpression
            | AstKind::Super => kind_of_expression(ctx, id, visited, steps),
            AstKind::SequenceExpression { expressions } => if expressions@.len() == 0 {
                (ReceiverKind::Unknown, 0nat)
            } else {
                kind_of_expression(ctx, expressions@.last(), visited, steps)
            },
            _ => (ReceiverKind::Unknown, 0nat),
        },
{
}

} // verus!
