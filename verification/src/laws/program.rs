//! Laws of the invariant of a program.
use vstd::prelude::*;
use vstd::utf8::{encode_utf8, is_char_boundary};

use crate::ast::{
    all_below, enclosed_parts, is_below, kind_is_well_formed, node_encloses_parts,
    node_is_well_formed, operands, operands_are_children, AstKind, LintContext, NodeId, Span,
    SymbolId,
};

verus! {

/// Whether a node of a kind holds the id of a part.
pub open spec fn has_part(kind: AstKind, part: NodeId) -> bool {
    match kind {
        AstKind::ArrayExpression { elements } => elements@.contains(part),
        AstKind::SequenceExpression { expressions } => expressions@.contains(part),
        AstKind::TSInterfaceDeclaration { extends } => extends@.contains(part),
        AstKind::TSUnionType { types } => types@.contains(part),
        AstKind::TSIntersectionType { types } => types@.contains(part),
        AstKind::CallExpression { callee, arguments, .. } => part == callee
            || arguments@.contains(part),
        AstKind::NewExpression { callee, arguments } => part == callee || arguments@.contains(part),
        AstKind::BinaryExpression { left, right, .. } => part == left || part == right,
        AstKind::ConditionalExpression { consequent, alternate } => part == consequent || part
            == alternate,
        AstKind::TSAsExpression { expression, type_annotation } => part == expression || part
            == type_annotation,
        AstKind::TSTypeAssertion { expression, type_annotation } => part == expression || part
            == type_annotation,
        AstKind::ArrowFunctionExpression { return_type, .. } => return_type == Some(part),
        AstKind::Function { this_type, return_type, .. } => this_type == Some(part) || return_type
            == Some(part),
        AstKind::Class { heritage } => heritage == Some(part),
        AstKind::VariableDeclarator { type_annotation, init, .. } => type_annotation == Some(part)
            || init == Some(part),
        AstKind::FormalParameter { type_annotation, .. } => type_annotation == Some(part),
        AstKind::TSTypeParameter { constraint } => constraint == Some(part),
        AstKind::SpreadElement { argument } => part == argument,
        AstKind::UnaryExpression { argument, .. } => part == argument,
        AstKind::StaticMemberExpression { object, .. } => part == object,
        AstKind::ComputedMemberExpression { object, .. } => part == object,
        AstKind::PrivateFieldExpression { object, .. } => part == object,
        AstKind::ChainExpression { expression } => part == expression,
        AstKind::ParenthesizedExpression { expression } => part == expression,
        AstKind::TSSatisfiesExpression { expression } => part == expression,
        AstKind::TSNonNullExpression { expression } => part == expression,
        AstKind::TSInstantiationExpression { expression } => part == expression,
        AstKind::AssignmentExpression { left } => part == left,
        AstKind::AssignmentTargetWithDefault { binding } => part == binding,
        AstKind::AssignmentTargetPropertyProperty { binding } => part == binding,
        AstKind::TSTypeAliasDeclaration { type_annotation } => part == type_annotation,
        AstKind::TSParenthesizedType { type_annotation } => part == type_annotation,
        AstKind::TSTypeOperator { type_annotation, .. } => part == type_annotation,
        AstKind::TSTypeReference { name } => part == name,
        _ => false,
    }
}

/// Whether a part is an operand of an operator, or the expression inside a wrapper.
pub open spec fn is_operand(kind: AstKind, part: NodeId) -> bool {
    match kind {
        AstKind::BinaryExpression { .. }
        | AstKind::UnaryExpression { .. }
        | AstKind::ParenthesizedExpression { .. }
        | AstKind::TSSatisfiesExpression { .. }
        | AstKind::TSNonNullExpression { .. }
        | AstKind::TSInstantiationExpression { .. } => has_part(kind, part),
        AstKind::TSAsExpression { expression, .. } => part == expression,
        AstKind::TSTypeAssertion { expression, .. } => part == expression,
        _ => false,
    }
}

/// Whether the source text of a node encloses that of a part.
pub open spec fn encloses(kind: AstKind, part: NodeId) -> bool {
    match kind {
        AstKind::ArrayExpression { .. }
        | AstKind::SpreadElement { .. }
        | AstKind::CallExpression { .. }
        | AstKind::NewExpression { .. }
        | AstKind::StaticMemberExpression { .. } => has_part(kind, part),
        _ => is_operand(kind, part),
    }
}

/// Whether a span starts and ends between two characters of the source text.
pub open spec fn cuts_no_character(ctx: &LintContext, span: Span) -> bool {
    &&& span.start <= span.end
    &&& is_char_boundary(encode_utf8(ctx.source_text@), span.start as int)
    &&& is_char_boundary(encode_utf8(ctx.source_text@), span.end as int)
}

/// Whether a node stands well in a program: its parts and children come after it and its parent
/// before it, what it names exists, its operands are children, and its span cuts no character and
/// covers what it encloses.
pub open spec fn stands_well(ctx: &LintContext, id: NodeId) -> bool {
    let node = ctx.nodes@[id as int];
    &&& forall|part: NodeId| #[trigger]
        has_part(node.kind, part) ==> id < part < ctx.nodes@.len()
    &&& node.kind matches AstKind::IdentifierReference(ident) ==> (ident.symbol_id matches Some(
        symbol_id,
    ) ==> symbol_id < ctx.symbols@.len())
    &&& node.parent matches Some(parent) ==> parent < id
    &&& forall|child: NodeId| #[trigger]
        node.children@.contains(child) ==> id < child < ctx.nodes@.len()
    &&& forall|part: NodeId| #[trigger]
        is_operand(node.kind, part) ==> node.children@.contains(part)
    &&& cuts_no_character(ctx, node.span)
    &&& node.kind matches AstKind::StaticMemberExpression { property_span, .. } ==> {
        &&& cuts_no_character(ctx, property_span)
        &&& node.span.start <= property_span.start
        &&& property_span.end <= node.span.end
    }
    &&& forall|part: NodeId| #[trigger]
        encloses(node.kind, part) ==> node.span.start <= ctx.nodes@[part as int].span.start
            && ctx.nodes@[part as int].span.end <= node.span.end
}

/// A program is well-formed exactly if every node stands well in it, every symbol is declared by one
/// of its nodes, and no comment is empty or cuts a character.
pub proof fn well_formed_programs_are_these(ctx: &LintContext)
    ensures
        ctx.wf() <==> {
            &&& forall|id: NodeId| id < ctx.nodes@.len() ==> #[trigger] stands_well(ctx, id)
            &&& forall|symbol_id: SymbolId|
                symbol_id < ctx.symbols@.len() ==> (#[trigger] ctx.symbols@[symbol_id as int]).declaration
                    < ctx.nodes@.len()
            &&& forall|i: int|
                0 <= i < ctx.comments@.len() ==> (#[trigger] ctx.comments@[i]).start
                    < ctx.comments@[i].end && cuts_no_character(ctx, ctx.comments@[i])
        },
{
    assert forall|id: NodeId| id < ctx.nodes@.len() implies (#[trigger] stands_well(ctx, id)) == (
    node_is_well_formed(
        ctx.nodes@[id as int],
        id,
        ctx.nodes@.len(),
        ctx.symbols@.len(),
        ctx.source_text@,
    ) && node_encloses_parts(ctx.nodes@, id)) by {
        node_stands_well(ctx, id);
    }
    if forall|id: NodeId| id < ctx.nodes@.len() ==> #[trigger] stands_well(ctx, id) {
        assert forall|id: NodeId| id < ctx.nodes@.len() implies node_is_well_formed(
            #[trigger] ctx.nodes@[id as int],
            id,
            ctx.nodes@.len(),
            ctx.symbols@.len(),
            ctx.source_text@,
        ) by {
            assert(stands_well(ctx, id));
        }
        assert forall|id: NodeId| id < ctx.nodes@.len() implies #[trigger] node_encloses_parts(
            ctx.nodes@,
            id,
        ) by {
            assert(stands_well(ctx, id));
        }
    }
    if ctx.wf() {
        assert forall|id: NodeId| id < ctx.nodes@.len() implies #[trigger] stands_well(ctx, id) by {
            assert(node_is_well_formed(
                ctx.nodes@[id as int],
                id,
                ctx.nodes@.len(),
                ctx.symbols@.len(),
                ctx.source_text@,
            ));
            assert(node_encloses_parts(ctx.nodes@, id));
        }
    }
}

proof fn node_stands_well(ctx: &LintContext, id: NodeId)
    requires
        id < ctx.nodes@.len(),
    ensures
        stands_well(ctx, id) == (node_is_well_formed(
            ctx.nodes@[id as int],
            id,
            ctx.nodes@.len(),
            ctx.symbols@.len(),
            ctx.source_text@,
        ) && node_encloses_parts(ctx.nodes@, id)),
{
    let node = ctx.nodes@[id as int];
    parts_come_after(node.kind, id, ctx.nodes@.len(), ctx.symbols@.len());
    assert forall|part: NodeId|
        operands(node.kind).contains(part) == #[trigger] is_operand(node.kind, part) by {
        lists_hold_all_of_them(node.kind, part);
    }
    assert forall|part: NodeId|
        enclosed_parts(node.kind).contains(part) == #[trigger] encloses(node.kind, part) by {
        lists_hold_all_of_them(node.kind, part);
    }
    list_comes_after(node.children@, id, ctx.nodes@.len());
    assert(operands_are_children(node.kind, node.children@) == forall|part: NodeId| #[trigger]
        is_operand(node.kind, part) ==> node.children@.contains(part)) by {
        if forall|part: NodeId| #[trigger]
            is_operand(node.kind, part) ==> node.children@.contains(part) {
            assert forall|i: int| 0 <= i < operands(node.kind).len() implies node.children@.contains(
                #[trigger] operands(node.kind)[i],
            ) by {
                assert(operands(node.kind).contains(operands(node.kind)[i]));
                assert(is_operand(node.kind, operands(node.kind)[i]));
            }
        }
    }
    assert(node_encloses_parts(ctx.nodes@, id) == forall|part: NodeId| #[trigger]
        encloses(node.kind, part) ==> node.span.start <= ctx.nodes@[part as int].span.start
            && ctx.nodes@[part as int].span.end <= node.span.end) by {
        if forall|part: NodeId| #[trigger]
            encloses(node.kind, part) ==> node.span.start <= ctx.nodes@[part as int].span.start
                && ctx.nodes@[part as int].span.end <= node.span.end {
            assert forall|i: int| 0 <= i < enclosed_parts(node.kind).len() implies node.span.covers(
                ctx.nodes@[#[trigger] enclosed_parts(node.kind)[i] as int].span,
            ) by {
                assert(enclosed_parts(node.kind).contains(enclosed_parts(node.kind)[i]));
                assert(encloses(node.kind, enclosed_parts(node.kind)[i]));
            }
        }
    }
}

proof fn list_comes_after(list: Seq<NodeId>, id: NodeId, len: nat)
    ensures
        all_below(id, list, len) == forall|part: NodeId| #[trigger]
            list.contains(part) ==> id < part < len,
{
    if forall|part: NodeId| #[trigger] list.contains(part) ==> id < part < len {
        assert forall|i: int| 0 <= i < list.len() implies is_below(id, #[trigger] list[i], len) by {
            assert(list.contains(list[i]));
        }
    }
}

/// Every part of a node comes after it in a list of `len` nodes, and a name is bound to one of
/// `symbols` symbols.
pub proof fn parts_come_after(kind: AstKind, id: NodeId, len: nat, symbols: nat)
    ensures
        kind_is_well_formed(kind, id, len, symbols) <==> {
            &&& forall|part: NodeId| #[trigger] has_part(kind, part) ==> id < part < len
            &&& kind matches AstKind::IdentifierReference(ident) ==> (ident.symbol_id matches Some(
                symbol_id,
            ) ==> symbol_id < symbols)
        },
{
    match kind {
        AstKind::ArrayExpression { elements: list }
        | AstKind::SequenceExpression { expressions: list }
        | AstKind::TSInterfaceDeclaration { extends: list }
        | AstKind::TSUnionType { types: list }
        | AstKind::TSIntersectionType { types: list } => {
            list_comes_after(list@, id, len);
            assert forall|part: NodeId| #[trigger] list@.contains(part) implies has_part(
                kind,
                part,
            ) by {}
        },
        AstKind::CallExpression { callee, arguments, .. }
        | AstKind::NewExpression { callee, arguments } => {
            list_comes_after(arguments@, id, len);
            assert(has_part(kind, callee));
            assert forall|part: NodeId| #[trigger] arguments@.contains(part) implies has_part(
                kind,
                part,
            ) by {}
        },
        AstKind::BinaryExpression { left: first, right: second, .. }
        | AstKind::ConditionalExpression { consequent: first, alternate: second }
        | AstKind::TSAsExpression { expression: first, type_annotation: second }
        | AstKind::TSTypeAssertion { expression: first, type_annotation: second } => {
            assert(has_part(kind, first) && has_part(kind, second));
        },
        AstKind::Function { this_type: first, return_type: second, .. }
        | AstKind::VariableDeclarator { type_annotation: first, init: second, .. } => {
            assert(first matches Some(part) ==> has_part(kind, part));
            assert(second matches Some(part) ==> has_part(kind, part));
        },
        AstKind::ArrowFunctionExpression { return_type: optional_part, .. }
        | AstKind::Class { heritage: optional_part }
        | AstKind::FormalParameter { type_annotation: optional_part, .. }
        | AstKind::TSTypeParameter { constraint: optional_part } => {
            assert(optional_part matches Some(part) ==> has_part(kind, part));
        },
        AstKind::SpreadElement { argument: part }
        | AstKind::UnaryExpression { argument: part, .. }
        | AstKind::StaticMemberExpression { object: part, .. }
        | AstKind::ComputedMemberExpression { object: part, .. }
        | AstKind::PrivateFieldExpression { object: part, .. }
        | AstKind::ChainExpression { expression: part }
        | AstKind::ParenthesizedExpression { expression: part }
        | AstKind::TSSatisfiesExpression { expression: part }
        | AstKind::TSNonNullExpression { expression: part }
        | AstKind::TSInstantiationExpression { expression: part }
        | AstKind::AssignmentExpression { left: part }
        | AstKind::AssignmentTargetWithDefault { binding: part }
        | AstKind::AssignmentTargetPropertyProperty { binding: part }
        | AstKind::TSTypeAliasDeclaration { type_annotation: part }
        | AstKind::TSParenthesizedType { type_annotation: part }
        | AstKind::TSTypeOperator { type_annotation: part, .. }
        | AstKind::TSTypeReference { name: part } => {
            assert(has_part(kind, part));
        },
        _ => {},
    }
}

/// The operands of a node are its operands, and the parts that it encloses are enclosed by it.
pub proof fn lists_hold_all_of_them(kind: AstKind, part: NodeId)
    ensures
        operands(kind).contains(part) == is_operand(kind, part),
        enclosed_parts(kind).contains(part) == encloses(kind, part),
{
    let operands = operands(kind);
    let enclosed = enclosed_parts(kind);
    match kind {
        AstKind::CallExpression { callee, arguments, .. }
        | AstKind::NewExpression { callee, arguments } => {
            assert(enclosed.last() == callee);
            assert(enclosed.drop_last() =~= arguments@);
            if arguments@.contains(part) {
                let i = choose|i: int| 0 <= i < arguments@.len() && arguments@[i] == part;
                assert(enclosed[i] == part);
            }
        },
        AstKind::BinaryExpression { left, right, .. } => {
            assert(operands[0] == left && operands[1] == right);
        },
        AstKind::UnaryExpression { .. }
        | AstKind::ParenthesizedExpression { .. }
        | AstKind::TSAsExpression { .. }
        | AstKind::TSTypeAssertion { .. }
        | AstKind::TSSatisfiesExpression { .. }
        | AstKind::TSNonNullExpression { .. }
        | AstKind::TSInstantiationExpression { .. }
        | AstKind::SpreadElement { .. }
        | AstKind::StaticMemberExpression { .. } => {
            assert(enclosed.len() == 1);
            assert(has_part(kind, enclosed[0]));
        },
        _ => {},
    }
}

} // verus!
