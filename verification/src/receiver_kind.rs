//! What the syntax tells about a receiver: whether it is an array.
//!
//! Each specification function takes the symbols on the path and the hops that are left, and
//! gives the answer together with the hops that the walk takes.
use vstd::prelude::*;

use crate::ast::{
    all_below, is_below, AstKind, IdentifierReference, LintContext, NodeId, SymbolId,
    TSTypeOperatorOperator,
};
use crate::ast_util::{get_signature, is_literal, kind_is_literal, signature_of, Signature};
use crate::resolution::{is_blocked, left, spent, Resolution, MAX_RESOLVE_STEPS};
use crate::text::same_text;

verus! {

/// What the syntax tells about a receiver. The `null` and `undefined` types count as `NotArray`.
#[derive(Debug, Clone, Copy, PartialEq, Eq, Structural)]
pub enum ReceiverKind {
    Array,
    NotArray,
    Unknown,
}

/// The kind of a union. A mixed union counts as `NotArray`, because a method call on it can be
/// a call of a custom method.
pub open spec fn union_kind(kinds: Seq<ReceiverKind>) -> ReceiverKind {
    if kinds.contains(ReceiverKind::NotArray) {
        ReceiverKind::NotArray
    } else if kinds.contains(ReceiverKind::Unknown) {
        ReceiverKind::Unknown
    } else {
        ReceiverKind::Array
    }
}

pub fn union(kinds: &[ReceiverKind]) -> (kind: ReceiverKind)
    ensures
        kind == union_kind(kinds@),
{
    let mut result = ReceiverKind::Array;
    let mut i: usize = 0;
    while i < kinds.len()
        invariant
            i <= kinds@.len(),
            forall|j: int| 0 <= j < i ==> kinds@[j] != ReceiverKind::NotArray,
            result == ReceiverKind::Array || result == ReceiverKind::Unknown,
            (result == ReceiverKind::Array) == (forall|j: int|
                0 <= j < i ==> kinds@[j] != ReceiverKind::Unknown),
        decreases kinds@.len() - i,
    {
        match kinds[i] {
            ReceiverKind::NotArray => return ReceiverKind::NotArray,
            ReceiverKind::Unknown => {
                assert(kinds@[i as int] == ReceiverKind::Unknown);
                result = ReceiverKind::Unknown;
            },
            ReceiverKind::Array => {},
        }
        i += 1;
    }
    result
}

/// The kind of an intersection: an array as soon as one member is.
pub open spec fn intersection_kind(kinds: Seq<ReceiverKind>) -> ReceiverKind {
    if kinds.contains(ReceiverKind::Array) {
        ReceiverKind::Array
    } else if kinds.contains(ReceiverKind::Unknown) {
        ReceiverKind::Unknown
    } else {
        ReceiverKind::NotArray
    }
}

pub fn intersection(kinds: &[ReceiverKind]) -> (kind: ReceiverKind)
    ensures
        kind == intersection_kind(kinds@),
{
    let mut result = ReceiverKind::NotArray;
    let mut i: usize = 0;
    while i < kinds.len()
        invariant
            i <= kinds@.len(),
            forall|j: int| 0 <= j < i ==> kinds@[j] != ReceiverKind::Array,
            result == ReceiverKind::NotArray || result == ReceiverKind::Unknown,
            (result == ReceiverKind::NotArray) == (forall|j: int|
                0 <= j < i ==> kinds@[j] != ReceiverKind::Unknown),
        decreases kinds@.len() - i,
    {
        match kinds[i] {
            ReceiverKind::Array => return ReceiverKind::Array,
            ReceiverKind::Unknown => {
                assert(kinds@[i as int] == ReceiverKind::Unknown);
                result = ReceiverKind::Unknown;
            },
            ReceiverKind::NotArray => {},
        }
        i += 1;
    }
    result
}

/// The names of the built-in array types.
pub open spec fn is_array_type_name(name: Seq<char>) -> bool {
    name == "Array"@ || name == "ReadonlyArray"@
}

/// The names of the built-in types that have a method like an array's, or that are taken for
/// arrays, and are none.
pub open spec fn is_other_type_name(name: Seq<char>) -> bool {
    ||| name == "Int8Array"@
    ||| name == "Uint8Array"@
    ||| name == "Uint8ClampedArray"@
    ||| name == "Int16Array"@
    ||| name == "Uint16Array"@
    ||| name == "Int32Array"@
    ||| name == "Uint32Array"@
    ||| name == "Float16Array"@
    ||| name == "Float32Array"@
    ||| name == "Float64Array"@
    ||| name == "BigInt64Array"@
    ||| name == "BigUint64Array"@
    ||| name == "Map"@
    ||| name == "ReadonlyMap"@
    ||| name == "WeakMap"@
    ||| name == "Set"@
    ||| name == "ReadonlySet"@
    ||| name == "WeakSet"@
    ||| name == "CanvasRenderingContext2D"@
    ||| name == "OffscreenCanvasRenderingContext2D"@
}

/// The kind of a type by its name alone.
pub open spec fn name_kind(name: Seq<char>) -> ReceiverKind {
    if is_array_type_name(name) {
        ReceiverKind::Array
    } else if is_other_type_name(name) {
        ReceiverKind::NotArray
    } else {
        ReceiverKind::Unknown
    }
}

pub fn known_type_name_kind(name: &str) -> (kind: ReceiverKind)
    ensures
        kind == name_kind(name@),
{
    if same_text(name, "Array") || same_text(name, "ReadonlyArray") {
        ReceiverKind::Array
    } else if same_text(name, "Int8Array") || same_text(name, "Uint8Array") || same_text(
        name,
        "Uint8ClampedArray",
    ) || same_text(name, "Int16Array") || same_text(name, "Uint16Array") || same_text(
        name,
        "Int32Array",
    ) || same_text(name, "Uint32Array") || same_text(name, "Float16Array") || same_text(
        name,
        "Float32Array",
    ) || same_text(name, "Float64Array") || same_text(name, "BigInt64Array") || same_text(
        name,
        "BigUint64Array",
    ) || same_text(name, "Map") || same_text(name, "ReadonlyMap") || same_text(name, "WeakMap")
        || same_text(name, "Set") || same_text(name, "ReadonlySet") || same_text(name, "WeakSet")
        || same_text(name, "CanvasRenderingContext2D") || same_text(
        name,
        "OffscreenCanvasRenderingContext2D",
    ) {
        ReceiverKind::NotArray
    } else {
        ReceiverKind::Unknown
    }
}

/// An answer that one more hop led to.
pub open spec fn after_hop(answer: (ReceiverKind, nat)) -> (ReceiverKind, nat) {
    (answer.0, answer.1 + 1)
}

/// The initializer of a variable that binds one name.
pub open spec fn single_init(declarator: AstKind) -> Option<NodeId> {
    match declarator {
        AstKind::VariableDeclarator { kind, is_binding_identifier, type_annotation, init } => {
            if is_binding_identifier {
                init
            } else {
                None
            }
        },
        _ => None,
    }
}

fn get_single_init(declarator: &AstKind) -> (init: Option<NodeId>)
    ensures
        init == single_init(*declarator),
{
    match declarator {
        AstKind::VariableDeclarator { is_binding_identifier, init, .. } => {
            if *is_binding_identifier {
                *init
            } else {
                None
            }
        },
        _ => None,
    }
}

/// The kind of the instances of a class, given the expression that it extends.
pub open spec fn kind_of_class(
    ctx: &LintContext,
    heritage: Option<NodeId>,
    visited: Seq<SymbolId>,
    steps: nat,
) -> (ReceiverKind, nat)
    decreases
            steps,
            (match heritage {
                Some(heritage) => ctx.nodes@.len() - heritage,
                None => 0,
            }),
            1nat,
    when heritage matches Some(heritage) ==> ctx.has(heritage)
{
    match heritage {
        Some(heritage) => kind_of_class_reference(ctx, heritage, visited, steps),
        None => (ReceiverKind::NotArray, 0),
    }
}

/// The kind of the instances of the class that an expression gives.
pub open spec fn kind_of_class_reference(
    ctx: &LintContext,
    id: NodeId,
    visited: Seq<SymbolId>,
    steps: nat,
) -> (ReceiverKind, nat)
    decreases steps, ctx.nodes@.len() - id, 0nat,
    when ctx.has(id)
{
    proof {
        ctx.lemma_without_parentheses(id);
    }
    match ctx.spec_kind(ctx.spec_without_parentheses(id)) {
        AstKind::IdentifierReference(ident) => match ident.symbol_id {
            Some(symbol_id) => if is_blocked(visited, steps, symbol_id) {
                (ReceiverKind::Unknown, 0)
            } else {
                let path = visited.push(symbol_id);
                let rest = (steps - 1) as nat;
                let declaration = ctx.spec_kind(ctx.declaration(symbol_id));
                after_hop(
                    match declaration {
                        AstKind::VariableDeclarator { .. } => match single_init(declaration) {
                            Some(init) => if ctx.symbols@[symbol_id as int].is_const_variable {
                                kind_of_class_reference(ctx, init, path, rest)
                            } else {
                                (ReceiverKind::Unknown, 0)
                            },
                            None => (ReceiverKind::Unknown, 0),
                        },
                        AstKind::Class { heritage } => kind_of_class(ctx, heritage, path, rest),
                        _ => (ReceiverKind::Unknown, 0),
                    },
                )
            },
            None => (name_kind(ident.name@), 0),
        },
        AstKind::Class { heritage } => kind_of_class(ctx, heritage, visited, steps),
        _ => (ReceiverKind::Unknown, 0),
    }
}

/// The kind of the values of a type.
pub open spec fn kind_of_type(
    ctx: &LintContext,
    id: NodeId,
    visited: Seq<SymbolId>,
    steps: nat,
) -> (ReceiverKind, nat)
    decreases steps, ctx.nodes@.len() - id, 0nat,
    when ctx.has(id)
{
    match ctx.spec_kind(id) {
        AstKind::TSParenthesizedType { type_annotation } => kind_of_type(
            ctx,
            type_annotation,
            visited,
            steps,
        ),
        AstKind::TSTypeOperator { operator, type_annotation } => if operator
            == TSTypeOperatorOperator::Readonly {
            kind_of_type(ctx, type_annotation, visited, steps)
        } else {
            (ReceiverKind::Unknown, 0)
        },
        AstKind::TSTypeReference { name } => kind_of_type_reference(ctx, name, visited, steps),
        AstKind::TSUnionType { types } => {
            let (kinds, used) = kinds_of_types(
                ctx,
                id,
                types@,
                0,
                ReceiverKind::NotArray,
                visited,
                steps,
            );
            (union_kind(kinds), used)
        },
        AstKind::TSIntersectionType { types } => {
            let (kinds, used) = kinds_of_types(
                ctx,
                id,
                types@,
                0,
                ReceiverKind::Array,
                visited,
                steps,
            );
            (intersection_kind(kinds), used)
        },
        AstKind::TSArrayType | AstKind::TSTupleType => (ReceiverKind::Array, 0),
        AstKind::TSBigIntKeyword
        | AstKind::TSBooleanKeyword
        | AstKind::TSNeverKeyword
        | AstKind::TSNullKeyword
        | AstKind::TSNumberKeyword
        | AstKind::TSStringKeyword
        | AstKind::TSSymbolKeyword
        | AstKind::TSUndefinedKeyword
        | AstKind::TSVoidKeyword
        | AstKind::TSLiteralType { .. }
        | AstKind::TSTypeLiteral
        | AstKind::TSFunctionType
        | AstKind::TSConstructorType => (ReceiverKind::NotArray, 0),
        _ => (ReceiverKind::Unknown, 0),
    }
}

/// The kinds of the types from `from` on, up to the first that is `stop`.
pub open spec fn kinds_of_types(
    ctx: &LintContext,
    owner: NodeId,
    types: Seq<NodeId>,
    from: nat,
    stop: ReceiverKind,
    visited: Seq<SymbolId>,
    steps: nat,
) -> (Seq<ReceiverKind>, nat)
    decreases steps, ctx.nodes@.len() - owner - 1, types.len() - from,
    when ctx.has(owner) && all_below(owner, types, ctx.nodes@.len())
{
    if from >= types.len() {
        (seq![], 0)
    } else {
        let (kind, used) = kind_of_type(ctx, types[from as int], visited, steps);
        if kind == stop {
            (seq![kind], used)
        } else {
            let (kinds, more) = kinds_of_types(
                ctx,
                owner,
                types,
                from + 1,
                stop,
                visited,
                left(steps, used),
            );
            (seq![kind] + kinds, used + more)
        }
    }
}

/// The kind of the values of the type that a name names.
pub open spec fn kind_of_type_reference(
    ctx: &LintContext,
    id: NodeId,
    visited: Seq<SymbolId>,
    steps: nat,
) -> (ReceiverKind, nat)
    decreases steps, ctx.nodes@.len() - id, 0nat,
    when ctx.has(id)
{
    match ctx.spec_kind(id) {
        AstKind::IdentifierReference(ident) => match ident.symbol_id {
            Some(symbol_id) => if is_blocked(visited, steps, symbol_id) {
                (ReceiverKind::Unknown, 0)
            } else {
                let path = visited.push(symbol_id);
                let rest = (steps - 1) as nat;
                let declaration = ctx.declaration(symbol_id);
                after_hop(
                    match ctx.spec_kind(declaration) {
                        AstKind::TSTypeAliasDeclaration { type_annotation } => kind_of_type(
                            ctx,
                            type_annotation,
                            path,
                            rest,
                        ),
                        AstKind::TSTypeParameter { constraint } => match constraint {
                            Some(constraint) => kind_of_type(ctx, constraint, path, rest),
                            None => (ReceiverKind::Unknown, 0),
                        },
                        AstKind::TSInterfaceDeclaration { extends } => {
                            let (kinds, used) = kinds_of_names(
                                ctx,
                                declaration,
                                extends@,
                                0,
                                ReceiverKind::Array,
                                path,
                                rest,
                            );
                            (intersection_kind(kinds), used)
                        },
                        AstKind::Class { heritage } => kind_of_class(ctx, heritage, path, rest),
                        // An imported type with the name of a built-in type is not that type.
                        AstKind::ImportSpecifier { imported, local, source } => if name_kind(
                            imported@,
                        ) != ReceiverKind::Unknown || name_kind(local@) != ReceiverKind::Unknown {
                            (ReceiverKind::NotArray, 0)
                        } else {
                            (ReceiverKind::Unknown, 0)
                        },
                        AstKind::ImportDefaultSpecifier { local, source } => if name_kind(local@)
                            != ReceiverKind::Unknown {
                            (ReceiverKind::NotArray, 0)
                        } else {
                            (ReceiverKind::Unknown, 0)
                        },
                        _ => (ReceiverKind::Unknown, 0),
                    },
                )
            },
            None => (name_kind(ident.name@), 0),
        },
        _ => (ReceiverKind::Unknown, 0),
    }
}

/// The kinds of the named types from `from` on, up to the first that is `stop`.
pub open spec fn kinds_of_names(
    ctx: &LintContext,
    owner: NodeId,
    names: Seq<NodeId>,
    from: nat,
    stop: ReceiverKind,
    visited: Seq<SymbolId>,
    steps: nat,
) -> (Seq<ReceiverKind>, nat)
    decreases steps, ctx.nodes@.len() - owner - 1, names.len() - from,
    when ctx.has(owner) && all_below(owner, names, ctx.nodes@.len())
{
    if from >= names.len() {
        (seq![], 0)
    } else {
        let (kind, used) = kind_of_type_reference(ctx, names[from as int], visited, steps);
        if kind == stop {
            (seq![kind], used)
        } else {
            let (kinds, more) = kinds_of_names(
                ctx,
                owner,
                names,
                from + 1,
                stop,
                visited,
                left(steps, used),
            );
            (seq![kind] + kinds, used + more)
        }
    }
}

/// The walk over the types of a union or an intersection ends with the first that decides: what
/// follows changes neither the answer nor the hops.
pub proof fn deciding_type_ends_the_walk(
    ctx: &LintContext,
    owner: NodeId,
    types: Seq<NodeId>,
    more: Seq<NodeId>,
    from: nat,
    stop: ReceiverKind,
    visited: Seq<SymbolId>,
    steps: nat,
)
    requires
        ctx.has(owner),
        all_below(owner, types + more, ctx.nodes@.len()),
        kinds_of_types(ctx, owner, types, from, stop, visited, steps).0.contains(stop),
    ensures
        kinds_of_types(ctx, owner, types + more, from, stop, visited, steps)
            == kinds_of_types(ctx, owner, types, from, stop, visited, steps),
        kinds_of_types(ctx, owner, types, from, stop, visited, steps).0.last() == stop,
    decreases types.len() - from,
{
    let longer = types + more;
    assert forall|i: int| 0 <= i < types.len() implies #[trigger] longer[i] == types[i] by {}
    assert(all_below(owner, types, ctx.nodes@.len())) by {
        assert forall|i: int| 0 <= i < types.len() implies is_below(
            owner,
            #[trigger] types[i],
            ctx.nodes@.len(),
        ) by {
            assert(longer[i] == types[i]);
        }
    }
    let all = kinds_of_types(ctx, owner, types, from, stop, visited, steps).0;
    if from < types.len() {
        let (kind, used) = kind_of_type(ctx, types[from as int], visited, steps);
        if kind != stop {
            let rest = left(steps, used);
            let later = kinds_of_types(ctx, owner, types, from + 1, stop, visited, rest).0;
            assert(all == seq![kind] + later);
            let i = choose|i: int| 0 <= i < all.len() && all[i] == stop;
            assert(later[i - 1] == stop);
            deciding_type_ends_the_walk(ctx, owner, types, more, from + 1, stop, visited, rest);
        }
    }
}

/// The walk over the types that an interface extends ends with the first that decides: what
/// follows changes neither the answer nor the hops.
pub proof fn deciding_name_ends_the_walk(
    ctx: &LintContext,
    owner: NodeId,
    names: Seq<NodeId>,
    more: Seq<NodeId>,
    from: nat,
    stop: ReceiverKind,
    visited: Seq<SymbolId>,
    steps: nat,
)
    requires
        ctx.has(owner),
        all_below(owner, names + more, ctx.nodes@.len()),
        kinds_of_names(ctx, owner, names, from, stop, visited, steps).0.contains(stop),
    ensures
        kinds_of_names(ctx, owner, names + more, from, stop, visited, steps)
            == kinds_of_names(ctx, owner, names, from, stop, visited, steps),
        kinds_of_names(ctx, owner, names, from, stop, visited, steps).0.last() == stop,
    decreases names.len() - from,
{
    let longer = names + more;
    assert forall|i: int| 0 <= i < names.len() implies #[trigger] longer[i] == names[i] by {}
    assert(all_below(owner, names, ctx.nodes@.len())) by {
        assert forall|i: int| 0 <= i < names.len() implies is_below(
            owner,
            #[trigger] names[i],
            ctx.nodes@.len(),
        ) by {
            assert(longer[i] == names[i]);
        }
    }
    let all = kinds_of_names(ctx, owner, names, from, stop, visited, steps).0;
    if from < names.len() {
        let (kind, used) = kind_of_type_reference(ctx, names[from as int], visited, steps);
        if kind != stop {
            let rest = left(steps, used);
            let later = kinds_of_names(ctx, owner, names, from + 1, stop, visited, rest).0;
            assert(all == seq![kind] + later);
            let i = choose|i: int| 0 <= i < all.len() && all[i] == stop;
            assert(later[i - 1] == stop);
            deciding_name_ends_the_walk(ctx, owner, names, more, from + 1, stop, visited, rest);
        }
    }
}

/// The kind of the values of an annotated type.
pub open spec fn kind_of_annotation(
    ctx: &LintContext,
    annotation: Option<NodeId>,
    visited: Seq<SymbolId>,
    steps: nat,
) -> (ReceiverKind, nat) {
    match annotation {
        Some(ts_type) => kind_of_type(ctx, ts_type, visited, steps),
        None => (ReceiverKind::Unknown, 0),
    }
}

/// Whether code directly below a node of this kind runs with a class as its `this`.
pub open spec fn kind_is_static_context(kind: AstKind) -> bool {
    match kind {
        AstKind::StaticBlock => true,
        AstKind::PropertyDefinition { is_static } => is_static,
        AstKind::AccessorProperty { is_static } => is_static,
        _ => false,
    }
}

pub fn is_static_context(kind: &AstKind) -> (r: bool)
    ensures
        r == kind_is_static_context(*kind),
{
    match kind {
        AstKind::StaticBlock => true,
        AstKind::PropertyDefinition { is_static } | AstKind::AccessorProperty { is_static } => {
            *is_static
        },
        _ => false,
    }
}

/// The kind of the parent of a node.
pub open spec fn parent_kind_of(ctx: &LintContext, id: NodeId) -> Option<AstKind> {
    match ctx.spec_parent(id) {
        Some(parent) => Some(ctx.spec_kind(parent)),
        None => None,
    }
}

/// The kind of `this` in a node: what the nearest class, static context or function above it
/// tells. An arrow function has no `this` of its own, and a method takes that of its class.
pub open spec fn kind_of_this(
    ctx: &LintContext,
    id: NodeId,
    visited: Seq<SymbolId>,
    steps: nat,
) -> (ReceiverKind, nat)
    decreases id,
    when ctx.has(id)
{
    match ctx.spec_parent(id) {
        Some(ancestor) => {
            let kind = ctx.spec_kind(ancestor);
            match kind {
                AstKind::Class { heritage } => kind_of_class(ctx, heritage, visited, steps),
                AstKind::Function { has_type_parameters, this_type, return_type } => {
                    let (declared, used) = kind_of_annotation(ctx, this_type, visited, steps);
                    if declared != ReceiverKind::Unknown {
                        (declared, used)
                    } else {
                        match parent_kind_of(ctx, ancestor) {
                            Some(AstKind::ObjectProperty) => (ReceiverKind::NotArray, used),
                            Some(AstKind::MethodDefinition { is_static }) => if is_static {
                                (ReceiverKind::NotArray, used)
                            } else {
                                let (kind, more) = kind_of_this(
                                    ctx,
                                    ancestor,
                                    visited,
                                    left(steps, used),
                                );
                                (kind, used + more)
                            },
                            _ => (ReceiverKind::Unknown, used),
                        }
                    }
                },
                _ => if kind_is_static_context(kind) {
                    (ReceiverKind::NotArray, 0)
                } else {
                    kind_of_this(ctx, ancestor, visited, steps)
                },
            }
        },
        None => (ReceiverKind::Unknown, 0),
    }
}

/// The kind of `super` in a node: what the nearest class or static member above it tells.
pub open spec fn kind_of_super(
    ctx: &LintContext,
    id: NodeId,
    visited: Seq<SymbolId>,
    steps: nat,
) -> (ReceiverKind, nat)
    decreases id,
    when ctx.has(id)
{
    match ctx.spec_parent(id) {
        Some(ancestor) => {
            let kind = ctx.spec_kind(ancestor);
            if kind_is_static_context(kind) {
                (ReceiverKind::NotArray, 0)
            } else {
                match kind {
                    AstKind::MethodDefinition { is_static } => if is_static {
                        (ReceiverKind::NotArray, 0)
                    } else {
                        kind_of_super(ctx, ancestor, visited, steps)
                    },
                    AstKind::Class { heritage } => kind_of_class(ctx, heritage, visited, steps),
                    _ => kind_of_super(ctx, ancestor, visited, steps),
                }
            }
        },
        None => (ReceiverKind::Unknown, 0),
    }
}

/// The signature of the function that a symbol is bound to for good.
pub open spec fn called_signature(ctx: &LintContext, symbol_id: SymbolId) -> Option<Signature> {
    let symbol = ctx.symbols@[symbol_id as int];
    let declaration = ctx.spec_kind(ctx.declaration(symbol_id));
    if symbol.is_redeclared || symbol.is_mutated {
        None
    } else {
        match declaration {
            AstKind::Function { .. } => signature_of(declaration),
            AstKind::VariableDeclarator { .. } => match single_init(declaration) {
                Some(init) => if symbol.is_const_variable {
                    signature_of(ctx.spec_kind(ctx.spec_skip_satisfies_and_non_null(init)))
                } else {
                    None
                },
                None => None,
            },
            _ => None,
        }
    }
}

/// The kind of what a call gives, by the return type of the called function.
pub open spec fn kind_of_call(
    ctx: &LintContext,
    callee: NodeId,
    visited: Seq<SymbolId>,
    steps: nat,
) -> (ReceiverKind, nat) {
    match ctx.spec_kind(ctx.spec_without_parentheses(callee)) {
        AstKind::IdentifierReference(ident) => match ident.symbol_id {
            Some(symbol_id) => match called_signature(ctx, symbol_id) {
                Some(signature) => if signature.has_type_parameters {
                    (ReceiverKind::Unknown, 0)
                } else {
                    kind_of_annotation(ctx, signature.return_type, visited, steps)
                },
                None => (ReceiverKind::Unknown, 0),
            },
            None => (ReceiverKind::Unknown, 0),
        },
        _ => (ReceiverKind::Unknown, 0),
    }
}

/// The kind of what `new` gives.
pub open spec fn kind_of_new(
    ctx: &LintContext,
    callee: NodeId,
    visited: Seq<SymbolId>,
    steps: nat,
) -> (ReceiverKind, nat) {
    let (kind, used) = kind_of_class_reference(ctx, callee, visited, steps);
    let is_named_array = ctx.spec_kind(callee) matches AstKind::IdentifierReference(ident)
        && ident.name@ == "Array"@;
    if kind == ReceiverKind::Array || (kind == ReceiverKind::Unknown && is_named_array) {
        (ReceiverKind::Array, used)
    } else {
        (ReceiverKind::NotArray, used)
    }
}

/// The kind of an asserted value: that of the type, or else that of the expression.
pub open spec fn kind_of_assertion(
    ctx: &LintContext,
    expression: NodeId,
    type_annotation: NodeId,
    visited: Seq<SymbolId>,
    steps: nat,
) -> (ReceiverKind, nat)
    decreases steps, ctx.nodes@.len() - expression, 1nat,
    when ctx.has(expression)
{
    let (kind, used) = kind_of_type(ctx, type_annotation, visited, steps);
    if kind != ReceiverKind::Unknown {
        (kind, used)
    } else {
        let (kind, more) = kind_of_expression(ctx, expression, visited, left(steps, used));
        (kind, used + more)
    }
}

/// The kind of the value of a variable.
pub open spec fn kind_of_variable(
    ctx: &LintContext,
    ident: IdentifierReference,
    visited: Seq<SymbolId>,
    steps: nat,
) -> (ReceiverKind, nat)
    decreases steps, 0nat, 0nat,
    when ctx.wf() && (ident.symbol_id matches Some(symbol_id) ==> symbol_id < ctx.symbols@.len())
{
    match ident.symbol_id {
        Some(symbol_id) => if ctx.symbols@[symbol_id as int].is_redeclared || is_blocked(
            visited,
            steps,
            symbol_id,
        ) {
            (ReceiverKind::Unknown, 0)
        } else {
            let path = visited.push(symbol_id);
            let rest = (steps - 1) as nat;
            after_hop(
                match ctx.spec_kind(ctx.declaration(symbol_id)) {
                    AstKind::VariableDeclarator {
                        kind,
                        is_binding_identifier,
                        type_annotation,
                        init,
                    } => if is_binding_identifier {
                        let (kind, used) = kind_of_annotation(ctx, type_annotation, path, rest);
                        if kind == ReceiverKind::Unknown
                            && ctx.symbols@[symbol_id as int].is_const_variable {
                            match init {
                                Some(init) => {
                                    let (kind, more) = kind_of_expression(
                                        ctx,
                                        init,
                                        path,
                                        left(rest, used),
                                    );
                                    (kind, used + more)
                                },
                                None => (ReceiverKind::Unknown, used),
                            }
                        } else {
                            (kind, used)
                        }
                    } else {
                        (ReceiverKind::Unknown, 0)
                    },
                    AstKind::FormalParameter {
                        is_binding_identifier,
                        type_annotation,
                        optional,
                    } => if is_binding_identifier {
                        // An optional parameter can be `undefined`.
                        if optional {
                            (ReceiverKind::NotArray, 0)
                        } else {
                            kind_of_annotation(ctx, type_annotation, path, rest)
                        }
                    } else {
                        (ReceiverKind::Unknown, 0)
                    },
                    _ => (ReceiverKind::Unknown, 0),
                },
            )
        },
        None => (ReceiverKind::Unknown, 0),
    }
}

/// The kind of the value of an expression.
pub open spec fn kind_of_expression(
    ctx: &LintContext,
    id: NodeId,
    visited: Seq<SymbolId>,
    steps: nat,
) -> (ReceiverKind, nat)
    decreases steps, ctx.nodes@.len() - id, 0nat,
    when ctx.has(id)
{
    let kind = ctx.spec_kind(id);
    match kind {
        AstKind::ParenthesizedExpression { expression } => kind_of_expression(
            ctx,
            expression,
            visited,
            steps,
        ),
        AstKind::TSSatisfiesExpression { expression } => kind_of_expression(
            ctx,
            expression,
            visited,
            steps,
        ),
        AstKind::TSNonNullExpression { expression } => kind_of_expression(
            ctx,
            expression,
            visited,
            steps,
        ),
        AstKind::TSAsExpression { expression, type_annotation } => kind_of_assertion(
            ctx,
            expression,
            type_annotation,
            visited,
            steps,
        ),
        AstKind::TSTypeAssertion { expression, type_annotation } => kind_of_assertion(
            ctx,
            expression,
            type_annotation,
            visited,
            steps,
        ),
        AstKind::SequenceExpression { expressions } => if expressions@.len() == 0 {
            (ReceiverKind::Unknown, 0)
        } else {
            kind_of_expression(ctx, expressions@.last(), visited, steps)
        },
        AstKind::ConditionalExpression { consequent, alternate } => {
            let (first, used) = kind_of_expression(ctx, consequent, visited, steps);
            let (second, more) = kind_of_expression(ctx, alternate, visited, left(steps, used));
            (union_kind(seq![first, second]), used + more)
        },
        AstKind::IdentifierReference(ident) => kind_of_variable(ctx, ident, visited, steps),
        AstKind::CallExpression { callee, arguments, optional } => kind_of_call(
            ctx,
            callee,
            visited,
            steps,
        ),
        AstKind::NewExpression { callee, arguments } => kind_of_new(ctx, callee, visited, steps),
        AstKind::ThisExpression => kind_of_this(ctx, id, visited, steps),
        AstKind::Super => kind_of_super(ctx, id, visited, steps),
        AstKind::ObjectExpression
        | AstKind::Function { .. }
        | AstKind::ArrowFunctionExpression { .. }
        | AstKind::Class { .. }
        | AstKind::TemplateLiteral { .. } => (ReceiverKind::NotArray, 0),
        _ => if kind_is_literal(kind) {
            (ReceiverKind::NotArray, 0)
        } else {
            (ReceiverKind::Unknown, 0)
        },
    }
}

/// A walk over the syntax to find the kind of one receiver.
pub struct TypeResolver<'c> {
    pub ctx: &'c LintContext,
    pub state: Resolution,
}

impl<'c> TypeResolver<'c> {
    /// A walk that has not taken a hop.
    pub fn new(ctx: &'c LintContext) -> (resolver: TypeResolver<'c>)
        ensures
            resolver.ctx == ctx,
            resolver.state.visited@ == Seq::<SymbolId>::empty(),
            resolver.state.steps == MAX_RESOLVE_STEPS,
    {
        TypeResolver { ctx, state: Resolution::new() }
    }

    /// The kind of the instances of a class, given the expression that it extends.
    pub fn class_kind(&mut self, heritage: Option<NodeId>) -> (kind: ReceiverKind)
        requires
            old(self).ctx.wf(),
            heritage matches Some(heritage) ==> old(self).ctx.has(heritage),
        ensures
            final(self).ctx == old(self).ctx,
            kind == kind_of_class(
                old(self).ctx,
                heritage,
                old(self).state.visited@,
                old(self).state.steps as nat,
            ).0,
            spent(
                old(self).state,
                final(self).state,
                kind_of_class(
                    old(self).ctx,
                    heritage,
                    old(self).state.visited@,
                    old(self).state.steps as nat,
                ).1,
            ),
        decreases
                old(self).state.steps,
                (match heritage {
                    Some(heritage) => old(self).ctx.nodes@.len() - heritage,
                    None => 0,
                }),
                1nat,
    {
        match heritage {
            Some(heritage) => self.class_reference_kind(heritage),
            None => ReceiverKind::NotArray,
        }
    }

    /// The kind of the instances of the class that an expression gives.
    pub fn class_reference_kind(&mut self, expr: NodeId) -> (kind: ReceiverKind)
        requires
            old(self).ctx.has(expr),
        ensures
            final(self).ctx == old(self).ctx,
            kind == kind_of_class_reference(
                old(self).ctx,
                expr,
                old(self).state.visited@,
                old(self).state.steps as nat,
            ).0,
            spent(
                old(self).state,
                final(self).state,
                kind_of_class_reference(
                    old(self).ctx,
                    expr,
                    old(self).state.visited@,
                    old(self).state.steps as nat,
                ).1,
            ),
        decreases old(self).state.steps, old(self).ctx.nodes@.len() - expr, 0nat,
    {
        let ctx = self.ctx;
        let inner: NodeId = ctx.without_parentheses(expr);
        match ctx.kind(inner) {
            AstKind::IdentifierReference(ident) => {
                let symbol_id: SymbolId = match ident.symbol_id {
                    Some(symbol_id) => symbol_id,
                    None => return known_type_name_kind(ident.name.as_str()),
                };
                if !self.state.enter(symbol_id) {
                    return ReceiverKind::Unknown;
                }
                let declaration = ctx.kind(ctx.symbols[symbol_id].declaration);
                let kind = match declaration {
                    AstKind::VariableDeclarator { .. } => match get_single_init(declaration) {
                        Some(init) => {
                            if ctx.symbols[symbol_id].is_const_variable {
                                self.class_reference_kind(init)
                            } else {
                                ReceiverKind::Unknown
                            }
                        },
                        None => ReceiverKind::Unknown,
                    },
                    AstKind::Class { heritage } => self.class_kind(*heritage),
                    _ => ReceiverKind::Unknown,
                };
                self.state.leave();
                assert(self.state.visited@ =~= old(self).state.visited@);
                kind
            },
            AstKind::Class { heritage } => self.class_kind(*heritage),
            _ => ReceiverKind::Unknown,
        }
    }

    /// The kind of the values of a type.
    pub fn type_kind(&mut self, ts_type: NodeId) -> (kind: ReceiverKind)
        requires
            old(self).ctx.has(ts_type),
        ensures
            final(self).ctx == old(self).ctx,
            kind == kind_of_type(
                old(self).ctx,
                ts_type,
                old(self).state.visited@,
                old(self).state.steps as nat,
            ).0,
            spent(
                old(self).state,
                final(self).state,
                kind_of_type(
                    old(self).ctx,
                    ts_type,
                    old(self).state.visited@,
                    old(self).state.steps as nat,
                ).1,
            ),
        decreases old(self).state.steps, old(self).ctx.nodes@.len() - ts_type, 0nat,
    {
        let ctx = self.ctx;
        match ctx.kind(ts_type) {
            AstKind::TSParenthesizedType { type_annotation } => self.type_kind(*type_annotation),
            AstKind::TSTypeOperator { operator, type_annotation } => {
                if *operator == TSTypeOperatorOperator::Readonly {
                    self.type_kind(*type_annotation)
                } else {
                    ReceiverKind::Unknown
                }
            },
            AstKind::TSTypeReference { name } => self.type_reference_kind(*name),
            AstKind::TSUnionType { types } => {
                let kinds = self.type_kinds(ts_type, types, ReceiverKind::NotArray);
                union(kinds.as_slice())
            },
            AstKind::TSIntersectionType { types } => {
                let kinds = self.type_kinds(ts_type, types, ReceiverKind::Array);
                intersection(kinds.as_slice())
            },
            AstKind::TSArrayType | AstKind::TSTupleType => ReceiverKind::Array,
            AstKind::TSBigIntKeyword
            | AstKind::TSBooleanKeyword
            | AstKind::TSNeverKeyword
            | AstKind::TSNullKeyword
            | AstKind::TSNumberKeyword
            | AstKind::TSStringKeyword
            | AstKind::TSSymbolKeyword
            | AstKind::TSUndefinedKeyword
            | AstKind::TSVoidKeyword
            | AstKind::TSLiteralType { .. }
            | AstKind::TSTypeLiteral
            | AstKind::TSFunctionType
            | AstKind::TSConstructorType => ReceiverKind::NotArray,
            _ => ReceiverKind::Unknown,
        }
    }

    /// The kinds of types, up to the first that is `stop`.
    fn type_kinds(&mut self, owner: NodeId, types: &Vec<NodeId>, stop: ReceiverKind) -> (kinds: Vec<
        ReceiverKind,
    >)
        requires
            old(self).ctx.has(owner),
            all_below(owner, types@, old(self).ctx.nodes@.len()),
        ensures
            final(self).ctx == old(self).ctx,
            kinds@ == kinds_of_types(
                old(self).ctx,
                owner,
                types@,
                0,
                stop,
                old(self).state.visited@,
                old(self).state.steps as nat,
            ).0,
            spent(
                old(self).state,
                final(self).state,
                kinds_of_types(
                    old(self).ctx,
                    owner,
                    types@,
                    0,
                    stop,
                    old(self).state.visited@,
                    old(self).state.steps as nat,
                ).1,
            ),
        decreases
                old(self).state.steps,
                old(self).ctx.nodes@.len() - owner - 1,
                types@.len() + 1,
    {
        let mut kinds: Vec<ReceiverKind> = Vec::new();
        let mut i: usize = 0;
        let ghost all = kinds_of_types(
            self.ctx,
            owner,
            types@,
            0,
            stop,
            self.state.visited@,
            self.state.steps as nat,
        );
        assert(kinds@ + all.0 =~= all.0);
        while i < types.len()
            invariant
                i <= types@.len(),
                self.ctx == old(self).ctx,
                self.ctx.has(owner),
                all_below(owner, types@, self.ctx.nodes@.len()),
                all == kinds_of_types(
                    self.ctx,
                    owner,
                    types@,
                    0,
                    stop,
                    old(self).state.visited@,
                    old(self).state.steps as nat,
                ),
                self.state.visited@ == old(self).state.visited@,
                self.state.steps <= old(self).state.steps,
                ({
                    let rest = kinds_of_types(
                        self.ctx,
                        owner,
                        types@,
                        i as nat,
                        stop,
                        self.state.visited@,
                        self.state.steps as nat,
                    );
                    &&& all.0 == kinds@ + rest.0
                    &&& all.1 == old(self).state.steps - self.state.steps + rest.1
                }),
            decreases types@.len() - i,
        {
            let ghost before = kinds@;
            let ghost rest = kinds_of_types(
                self.ctx,
                owner,
                types@,
                i as nat,
                stop,
                self.state.visited@,
                self.state.steps as nat,
            );
            let kind = self.type_kind(types[i]);
            kinds.push(kind);
            if kind == stop {
                assert(kinds@ =~= before + rest.0);
                return kinds;
            }
            i += 1;
            proof {
                let later = kinds_of_types(
                    self.ctx,
                    owner,
                    types@,
                    i as nat,
                    stop,
                    self.state.visited@,
                    self.state.steps as nat,
                );
                assert(before + rest.0 =~= kinds@ + later.0);
            }
        }
        assert(kinds@ + seq![] =~= kinds@);
        kinds
    }

    /// The kind of the values of the type that a name names.
    pub fn type_reference_kind(&mut self, name: NodeId) -> (kind: ReceiverKind)
        requires
            old(self).ctx.has(name),
        ensures
            final(self).ctx == old(self).ctx,
            kind == kind_of_type_reference(
                old(self).ctx,
                name,
                old(self).state.visited@,
                old(self).state.steps as nat,
            ).0,
            spent(
                old(self).state,
                final(self).state,
                kind_of_type_reference(
                    old(self).ctx,
                    name,
                    old(self).state.visited@,
                    old(self).state.steps as nat,
                ).1,
            ),
        decreases old(self).state.steps, old(self).ctx.nodes@.len() - name, 0nat,
    {
        let ctx = self.ctx;
        let symbol_id: SymbolId = match ctx.kind(name) {
            AstKind::IdentifierReference(ident) => match ident.symbol_id {
                Some(symbol_id) => symbol_id,
                None => return known_type_name_kind(ident.name.as_str()),
            },
            _ => return ReceiverKind::Unknown,
        };
        if !self.state.enter(symbol_id) {
            return ReceiverKind::Unknown;
        }
        let declaration: NodeId = ctx.symbols[symbol_id].declaration;
        let kind = match ctx.kind(declaration) {
            AstKind::TSTypeAliasDeclaration { type_annotation } => self.type_kind(*type_annotation),
            AstKind::TSTypeParameter { constraint } => match constraint {
                Some(constraint) => self.type_kind(*constraint),
                None => ReceiverKind::Unknown,
            },
            AstKind::TSInterfaceDeclaration { extends } => {
                let kinds = self.name_kinds(declaration, extends, ReceiverKind::Array);
                intersection(kinds.as_slice())
            },
            AstKind::Class { heritage } => self.class_kind(*heritage),
            // An imported type with the name of a built-in type is not the built-in type.
            AstKind::ImportSpecifier { imported, local, .. } => {
                if known_type_name_kind(imported.as_str()) != ReceiverKind::Unknown
                    || known_type_name_kind(local.as_str()) != ReceiverKind::Unknown {
                    ReceiverKind::NotArray
                } else {
                    ReceiverKind::Unknown
                }
            },
            AstKind::ImportDefaultSpecifier { local, .. } => {
                if known_type_name_kind(local.as_str()) != ReceiverKind::Unknown {
                    ReceiverKind::NotArray
                } else {
                    ReceiverKind::Unknown
                }
            },
            _ => ReceiverKind::Unknown,
        };
        self.state.leave();
        assert(self.state.visited@ =~= old(self).state.visited@);
        kind
    }

    /// The kinds of named types, up to the first that is `stop`.
    fn name_kinds(&mut self, owner: NodeId, names: &Vec<NodeId>, stop: ReceiverKind) -> (kinds: Vec<
        ReceiverKind,
    >)
        requires
            old(self).ctx.has(owner),
            all_below(owner, names@, old(self).ctx.nodes@.len()),
        ensures
            final(self).ctx == old(self).ctx,
            kinds@ == kinds_of_names(
                old(self).ctx,
                owner,
                names@,
                0,
                stop,
                old(self).state.visited@,
                old(self).state.steps as nat,
            ).0,
            spent(
                old(self).state,
                final(self).state,
                kinds_of_names(
                    old(self).ctx,
                    owner,
                    names@,
                    0,
                    stop,
                    old(self).state.visited@,
                    old(self).state.steps as nat,
                ).1,
            ),
        decreases
                old(self).state.steps,
                old(self).ctx.nodes@.len() - owner - 1,
                names@.len() + 1,
    {
        let mut kinds: Vec<ReceiverKind> = Vec::new();
        let mut i: usize = 0;
        let ghost all = kinds_of_names(
            self.ctx,
            owner,
            names@,
            0,
            stop,
            self.state.visited@,
            self.state.steps as nat,
        );
        assert(kinds@ + all.0 =~= all.0);
        while i < names.len()
            invariant
                i <= names@.len(),
                self.ctx == old(self).ctx,
                self.ctx.has(owner),
                all_below(owner, names@, self.ctx.nodes@.len()),
                all == kinds_of_names(
                    self.ctx,
                    owner,
                    names@,
                    0,
                    stop,
                    old(self).state.visited@,
                    old(self).state.steps as nat,
                ),
                self.state.visited@ == old(self).state.visited@,
                self.state.steps <= old(self).state.steps,
                ({
                    let rest = kinds_of_names(
                        self.ctx,
                        owner,
                        names@,
                        i as nat,
                        stop,
                        self.state.visited@,
                        self.state.steps as nat,
                    );
                    &&& all.0 == kinds@ + rest.0
                    &&& all.1 == old(self).state.steps - self.state.steps + rest.1
                }),
            decreases names@.len() - i,
        {
            let ghost before = kinds@;
            let ghost rest = kinds_of_names(
                self.ctx,
                owner,
                names@,
                i as nat,
                stop,
                self.state.visited@,
                self.state.steps as nat,
            );
            let kind = self.type_reference_kind(names[i]);
            kinds.push(kind);
            if kind == stop {
                assert(kinds@ =~= before + rest.0);
                return kinds;
            }
            i += 1;
            proof {
                let later = kinds_of_names(
                    self.ctx,
                    owner,
                    names@,
                    i as nat,
                    stop,
                    self.state.visited@,
                    self.state.steps as nat,
                );
                assert(before + rest.0 =~= kinds@ + later.0);
            }
        }
        assert(kinds@ + seq![] =~= kinds@);
        kinds
    }

    /// The kind of the values of an annotated type.
    pub fn annotation_kind(&mut self, annotation: Option<NodeId>) -> (kind: ReceiverKind)
        requires
            old(self).ctx.wf(),
            annotation matches Some(ts_type) ==> old(self).ctx.has(ts_type),
        ensures
            final(self).ctx == old(self).ctx,
            kind == kind_of_annotation(
                old(self).ctx,
                annotation,
                old(self).state.visited@,
                old(self).state.steps as nat,
            ).0,
            spent(
                old(self).state,
                final(self).state,
                kind_of_annotation(
                    old(self).ctx,
                    annotation,
                    old(self).state.visited@,
                    old(self).state.steps as nat,
                ).1,
            ),
    {
        match annotation {
            Some(ts_type) => self.type_kind(ts_type),
            None => ReceiverKind::Unknown,
        }
    }

    /// The kind of `this` in a node.
    pub fn this_kind(&mut self, id: NodeId) -> (kind: ReceiverKind)
        requires
            old(self).ctx.has(id),
        ensures
            final(self).ctx == old(self).ctx,
            kind == kind_of_this(
                old(self).ctx,
                id,
                old(self).state.visited@,
                old(self).state.steps as nat,
            ).0,
            spent(
                old(self).state,
                final(self).state,
                kind_of_this(
                    old(self).ctx,
                    id,
                    old(self).state.visited@,
                    old(self).state.steps as nat,
                ).1,
            ),
        decreases id,
    {
        let ctx = self.ctx;
        let ancestor: NodeId = match ctx.parent(id) {
            Some(ancestor) => ancestor,
            None => return ReceiverKind::Unknown,
        };
        let ancestor_kind = ctx.kind(ancestor);
        match ancestor_kind {
            AstKind::Class { heritage } => self.class_kind(*heritage),
            AstKind::Function { this_type, .. } => {
                let this_param_kind = self.annotation_kind(*this_type);
                if this_param_kind != ReceiverKind::Unknown {
                    return this_param_kind;
                }
                let owner: NodeId = match ctx.parent(ancestor) {
                    Some(owner) => owner,
                    None => return ReceiverKind::Unknown,
                };
                match ctx.kind(owner) {
                    AstKind::ObjectProperty => ReceiverKind::NotArray,
                    AstKind::MethodDefinition { is_static } => {
                        if *is_static {
                            ReceiverKind::NotArray
                        } else {
                            self.this_kind(ancestor)
                        }
                    },
                    _ => ReceiverKind::Unknown,
                }
            },
            _ => {
                if is_static_context(ancestor_kind) {
                    ReceiverKind::NotArray
                } else {
                    self.this_kind(ancestor)
                }
            },
        }
    }

    /// The kind of `super` in a node.
    pub fn super_kind(&mut self, id: NodeId) -> (kind: ReceiverKind)
        requires
            old(self).ctx.has(id),
        ensures
            final(self).ctx == old(self).ctx,
            kind == kind_of_super(
                old(self).ctx,
                id,
                old(self).state.visited@,
                old(self).state.steps as nat,
            ).0,
            spent(
                old(self).state,
                final(self).state,
                kind_of_super(
                    old(self).ctx,
                    id,
                    old(self).state.visited@,
                    old(self).state.steps as nat,
                ).1,
            ),
        decreases id,
    {
        let ctx = self.ctx;
        let ancestor: NodeId = match ctx.parent(id) {
            Some(ancestor) => ancestor,
            None => return ReceiverKind::Unknown,
        };
        let ancestor_kind = ctx.kind(ancestor);
        if is_static_context(ancestor_kind) {
            return ReceiverKind::NotArray;
        }
        match ancestor_kind {
            AstKind::MethodDefinition { is_static } => {
                if *is_static {
                    ReceiverKind::NotArray
                } else {
                    self.super_kind(ancestor)
                }
            },
            AstKind::Class { heritage } => self.class_kind(*heritage),
            _ => self.super_kind(ancestor),
        }
    }

    /// The kind of what a call gives.
    pub fn return_kind(&mut self, callee: NodeId) -> (kind: ReceiverKind)
        requires
            old(self).ctx.has(callee),
        ensures
            final(self).ctx == old(self).ctx,
            kind == kind_of_call(
                old(self).ctx,
                callee,
                old(self).state.visited@,
                old(self).state.steps as nat,
            ).0,
            spent(
                old(self).state,
                final(self).state,
                kind_of_call(
                    old(self).ctx,
                    callee,
                    old(self).state.visited@,
                    old(self).state.steps as nat,
                ).1,
            ),
    {
        let ctx = self.ctx;
        let symbol_id: SymbolId = match ctx.kind(ctx.without_parentheses(callee)) {
            AstKind::IdentifierReference(ident) => match ident.symbol_id {
                Some(symbol_id) => symbol_id,
                None => return ReceiverKind::Unknown,
            },
            _ => return ReceiverKind::Unknown,
        };
        let symbol = &ctx.symbols[symbol_id];
        if symbol.is_redeclared || symbol.is_mutated {
            return ReceiverKind::Unknown;
        }
        let declaration = ctx.kind(symbol.declaration);
        let signature = match declaration {
            AstKind::Function { .. } => get_signature(declaration),
            AstKind::VariableDeclarator { .. } => match get_single_init(declaration) {
                Some(init) => {
                    if symbol.is_const_variable {
                        get_signature(ctx.kind(ctx.skip_satisfies_and_non_null(init)))
                    } else {
                        None
                    }
                },
                None => None,
            },
            _ => None,
        };
        match signature {
            Some(signature) => {
                if signature.has_type_parameters {
                    ReceiverKind::Unknown
                } else {
                    self.annotation_kind(signature.return_type)
                }
            },
            None => ReceiverKind::Unknown,
        }
    }

    /// The kind of what `new` gives.
    pub fn new_kind(&mut self, callee: NodeId) -> (kind: ReceiverKind)
        requires
            old(self).ctx.has(callee),
        ensures
            final(self).ctx == old(self).ctx,
            kind == kind_of_new(
                old(self).ctx,
                callee,
                old(self).state.visited@,
                old(self).state.steps as nat,
            ).0,
            spent(
                old(self).state,
                final(self).state,
                kind_of_new(
                    old(self).ctx,
                    callee,
                    old(self).state.visited@,
                    old(self).state.steps as nat,
                ).1,
            ),
    {
        match self.class_reference_kind(callee) {
            ReceiverKind::Array => ReceiverKind::Array,
            ReceiverKind::NotArray => ReceiverKind::NotArray,
            ReceiverKind::Unknown => match self.ctx.kind(callee) {
                AstKind::IdentifierReference(ident) => {
                    if same_text(ident.name.as_str(), "Array") {
                        ReceiverKind::Array
                    } else {
                        ReceiverKind::NotArray
                    }
                },
                _ => ReceiverKind::NotArray,
            },
        }
    }

    /// The kind of an asserted value: that of the type, or else that of the expression.
    pub fn asserted_kind(&mut self, expression: NodeId, type_annotation: NodeId) -> (kind:
        ReceiverKind)
        requires
            old(self).ctx.has(expression),
            old(self).ctx.has(type_annotation),
        ensures
            final(self).ctx == old(self).ctx,
            kind == kind_of_assertion(
                old(self).ctx,
                expression,
                type_annotation,
                old(self).state.visited@,
                old(self).state.steps as nat,
            ).0,
            spent(
                old(self).state,
                final(self).state,
                kind_of_assertion(
                    old(self).ctx,
                    expression,
                    type_annotation,
                    old(self).state.visited@,
                    old(self).state.steps as nat,
                ).1,
            ),
        decreases old(self).state.steps, old(self).ctx.nodes@.len() - expression, 1nat,
    {
        match self.type_kind(type_annotation) {
            ReceiverKind::Unknown => self.expression_kind(expression),
            kind => kind,
        }
    }

    /// The kind of the value of a variable.
    pub fn variable_kind(&mut self, ident: &IdentifierReference) -> (kind: ReceiverKind)
        requires
            old(self).ctx.wf(),
            ident.symbol_id matches Some(symbol_id) ==> symbol_id < old(self).ctx.symbols@.len(),
        ensures
            final(self).ctx == old(self).ctx,
            kind == kind_of_variable(
                old(self).ctx,
                *ident,
                old(self).state.visited@,
                old(self).state.steps as nat,
            ).0,
            spent(
                old(self).state,
                final(self).state,
                kind_of_variable(
                    old(self).ctx,
                    *ident,
                    old(self).state.visited@,
                    old(self).state.steps as nat,
                ).1,
            ),
        decreases old(self).state.steps, 0nat, 0nat,
    {
        let ctx = self.ctx;
        let symbol_id: SymbolId = match ident.symbol_id {
            Some(symbol_id) => symbol_id,
            None => return ReceiverKind::Unknown,
        };
        let symbol = &ctx.symbols[symbol_id];
        if symbol.is_redeclared || !self.state.enter(symbol_id) {
            return ReceiverKind::Unknown;
        }
        let kind = match ctx.kind(symbol.declaration) {
            AstKind::VariableDeclarator { is_binding_identifier, type_annotation, init, .. } => {
                if *is_binding_identifier {
                    let kind = self.annotation_kind(*type_annotation);
                    if kind == ReceiverKind::Unknown && symbol.is_const_variable {
                        match init {
                            Some(init) => self.expression_kind(*init),
                            None => ReceiverKind::Unknown,
                        }
                    } else {
                        kind
                    }
                } else {
                    ReceiverKind::Unknown
                }
            },
            AstKind::FormalParameter { is_binding_identifier, type_annotation, optional } => {
                if *is_binding_identifier {
                    // An optional parameter can be `undefined`.
                    if *optional {
                        ReceiverKind::NotArray
                    } else {
                        self.annotation_kind(*type_annotation)
                    }
                } else {
                    ReceiverKind::Unknown
                }
            },
            _ => ReceiverKind::Unknown,
        };
        self.state.leave();
        assert(self.state.visited@ =~= old(self).state.visited@);
        kind
    }

    /// The kind of the value of an expression.
    pub fn expression_kind(&mut self, expr: NodeId) -> (kind: ReceiverKind)
        requires
            old(self).ctx.has(expr),
        ensures
            final(self).ctx == old(self).ctx,
            kind == kind_of_expression(
                old(self).ctx,
                expr,
                old(self).state.visited@,
                old(self).state.steps as nat,
            ).0,
            spent(
                old(self).state,
                final(self).state,
                kind_of_expression(
                    old(self).ctx,
                    expr,
                    old(self).state.visited@,
                    old(self).state.steps as nat,
                ).1,
            ),
        decreases old(self).state.steps, old(self).ctx.nodes@.len() - expr, 0nat,
    {
        let ctx = self.ctx;
        let kind = ctx.kind(expr);
        match kind {
            AstKind::ParenthesizedExpression { expression }
            | AstKind::TSSatisfiesExpression { expression }
            | AstKind::TSNonNullExpression { expression } => self.expression_kind(*expression),
            AstKind::TSAsExpression { expression, type_annotation }
            | AstKind::TSTypeAssertion { expression, type_annotation } => self.asserted_kind(
                *expression,
                *type_annotation,
            ),
            AstKind::SequenceExpression { expressions } => {
                if expressions.len() == 0 {
                    return ReceiverKind::Unknown;
                }
                self.expression_kind(expressions[expressions.len() - 1])
            },
            AstKind::ConditionalExpression { consequent, alternate } => {
                let first = self.expression_kind(*consequent);
                let second = self.expression_kind(*alternate);
                let kinds = vec![first, second];
                assert(kinds@ =~= seq![first, second]);
                union(kinds.as_slice())
            },
            AstKind::IdentifierReference(ident) => self.variable_kind(ident),
            AstKind::CallExpression { callee, .. } => self.return_kind(*callee),
            AstKind::NewExpression { callee, .. } => self.new_kind(*callee),
            AstKind::ThisExpression => self.this_kind(expr),
            AstKind::Super => self.super_kind(expr),
            AstKind::ObjectExpression
            | AstKind::Function { .. }
            | AstKind::ArrowFunctionExpression { .. }
            | AstKind::Class { .. }
            | AstKind::TemplateLiteral { .. } => ReceiverKind::NotArray,
            // Of the other static values only literals occur as receivers in practice.
            _ => {
                if is_literal(kind) {
                    ReceiverKind::NotArray
                } else {
                    ReceiverKind::Unknown
                }
            },
        }
    }
}

/// The kind of a union or an intersection depends only on which kinds occur in it.
pub proof fn order_and_repetition_do_not_matter(
    kinds: Seq<ReceiverKind>,
    others: Seq<ReceiverKind>,
)
    requires
        forall|kind: ReceiverKind| #[trigger] kinds.contains(kind) == others.contains(kind),
    ensures
        union_kind(kinds) == union_kind(others),
        intersection_kind(kinds) == intersection_kind(others),
{
}

/// After a member that is no array, the rest of a union does not matter. After a member that is
/// an array, the rest of an intersection does not matter.
pub proof fn rest_does_not_matter(kinds: Seq<ReceiverKind>, rest: Seq<ReceiverKind>)
    ensures
        kinds.contains(ReceiverKind::NotArray) ==> union_kind(kinds + rest) == union_kind(kinds),
        kinds.contains(ReceiverKind::Array) ==> intersection_kind(kinds + rest)
            == intersection_kind(kinds),
{
    let all = kinds + rest;
    if kinds.contains(ReceiverKind::NotArray) {
        let i = choose|i: int| 0 <= i < kinds.len() && kinds[i] == ReceiverKind::NotArray;
        assert(all[i] == ReceiverKind::NotArray);
    }
    if kinds.contains(ReceiverKind::Array) {
        let i = choose|i: int| 0 <= i < kinds.len() && kinds[i] == ReceiverKind::Array;
        assert(all[i] == ReceiverKind::Array);
    }
}

/// A union of arrays and other values is no array, and neither is a union with an unknown member
/// known to be one.
pub proof fn union_is_array_only_if_all_members_are(kinds: Seq<ReceiverKind>)
    ensures
        union_kind(kinds) == ReceiverKind::Array <==> forall|i: int|
            0 <= i < kinds.len() ==> kinds[i] == ReceiverKind::Array,
        intersection_kind(kinds) == ReceiverKind::NotArray <==> forall|i: int|
            0 <= i < kinds.len() ==> kinds[i] == ReceiverKind::NotArray,
{
    assert forall|i: int| 0 <= i < kinds.len() implies kinds.contains(#[trigger] kinds[i]) by {}
}

} // verus!
