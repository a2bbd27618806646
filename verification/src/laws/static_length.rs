//! Laws of the walks that ask what is known of a length.
use vstd::prelude::*;

use crate::ast::{
    all_below, AstKind, BinaryOperator, IdentifierReference, LintContext, NodeId, SymbolId,
    UnaryOperator,
};
use crate::double::negated;
use crate::hop_budget::member_walk_keeps_to_its_budget;
use crate::resolution::{left, MAX_RESOLVE_STEPS};
use crate::static_length::{
    constant_init, encoding, evaluates_to, length_of, length_within, operation_gives, reads_member,
    some_child_reads_member, value_of, ArithmeticOperator, Number, StaticLength, StaticValue,
};

verus! {

/// A variable has a constant initializer exactly if it is declared once, is never reassigned, is
/// not destructured and has an initializer: that one.
pub proof fn only_a_plain_variable_is_constant(
    ctx: &LintContext,
    ident: IdentifierReference,
    symbol_id: SymbolId,
    init: NodeId,
)
    ensures
        constant_init(ctx, ident) == Some((symbol_id, init)) <==> {
            &&& ident.symbol_id == Some(symbol_id)
            &&& !ctx.symbols@[symbol_id as int].is_mutated
            &&& !ctx.symbols@[symbol_id as int].is_redeclared
            &&& ctx.spec_kind(ctx.declaration(symbol_id)) matches AstKind::VariableDeclarator {
                kind,
                is_binding_identifier,
                type_annotation,
                init: initializer,
            }
            &&& is_binding_identifier
            &&& initializer == Some(init)
        },
{
}

/// Parentheses and TypeScript wrappers do not change what is known of a value.
pub proof fn wrapped_value_is_the_same(
    ctx: &LintContext,
    id: NodeId,
    expression: NodeId,
    visited: Seq<SymbolId>,
    steps: nat,
)
    requires
        ctx.has(id),
        match ctx.spec_kind(id) {
            AstKind::ParenthesizedExpression { expression: inner }
            | AstKind::TSAsExpression { expression: inner, .. }
            | AstKind::TSTypeAssertion { expression: inner, .. }
            | AstKind::TSSatisfiesExpression { expression: inner }
            | AstKind::TSNonNullExpression { expression: inner }
            | AstKind::TSInstantiationExpression { expression: inner } => inner == expression,
            _ => false,
        },
    ensures
        value_of(ctx, id, visited, steps) == value_of(ctx, expression, visited, steps),
{
    ctx.lemma_inner_expression(id);
    ctx.lemma_inner_expression(expression);
}

/// A number literal has its own value. Texts, booleans, `null` and big integers are known to be no
/// numbers. Nothing is known of anything else that is not a name or an operator.
pub proof fn literal_has_its_value(
    ctx: &LintContext,
    id: NodeId,
    visited: Seq<SymbolId>,
    steps: nat,
)
    requires
        ctx.has(id),
    ensures
        match ctx.spec_kind(id) {
            AstKind::NumericLiteral { bits } => value_of(ctx, id, visited, steps) == (
                Some(StaticValue::Number(Number::Literal { bits })),
                0nat,
            ),
            AstKind::StringLiteral { .. }
            | AstKind::TemplateLiteral { .. }
            | AstKind::BooleanLiteral
            | AstKind::NullLiteral
            | AstKind::BigIntLiteral => value_of(ctx, id, visited, steps) == (
                Some(StaticValue::Other),
                0nat,
            ),
            AstKind::IdentifierReference(_)
            | AstKind::UnaryExpression { .. }
            | AstKind::BinaryExpression { .. }
            | AstKind::ParenthesizedExpression { .. }
            | AstKind::TSAsExpression { .. }
            | AstKind::TSTypeAssertion { .. }
            | AstKind::TSSatisfiesExpression { .. }
            | AstKind::TSNonNullExpression { .. }
            | AstKind::TSInstantiationExpression { .. } => true,
            _ => value_of(ctx, id, visited, steps) == (None::<StaticValue>, 0nat),
        },
{
}

/// Of the global names, `NaN` and `Infinity` are numbers, `undefined` is none, and nothing is known
/// of the others.
pub proof fn global_names_are_these(
    ctx: &LintContext,
    id: NodeId,
    ident: IdentifierReference,
    visited: Seq<SymbolId>,
    steps: nat,
)
    requires
        ctx.has(id),
        ctx.spec_kind(id) == AstKind::IdentifierReference(ident),
        ident.is_global,
    ensures
        value_of(ctx, id, visited, steps).1 == 0,
        value_of(ctx, id, visited, steps).0 == Some(StaticValue::Other) <==> ident.name@
            == "undefined"@,
        value_of(ctx, id, visited, steps).0 == Some(StaticValue::Number(Number::NaN))
            <==> ident.name@ == "NaN"@,
        value_of(ctx, id, visited, steps).0 == Some(StaticValue::Number(Number::Infinity))
            <==> ident.name@ == "Infinity"@,
        value_of(ctx, id, visited, steps).0 is None <==> ident.name@ != "undefined"@ && ident.name@
            != "NaN"@ && ident.name@ != "Infinity"@,
{
    reveal_strlit("undefined");
    reveal_strlit("NaN");
    reveal_strlit("Infinity");
    assert("undefined"@.len() == 9);
    assert("NaN"@.len() == 3);
    assert("Infinity"@.len() == 8);
}

/// A name that is not global has a value that is known only by its constant initializer. A
/// parameter, an import, and a variable that is reassigned, declared twice, destructured or not
/// initialized, has none.
pub proof fn name_without_initializer_has_no_value(
    ctx: &LintContext,
    id: NodeId,
    ident: IdentifierReference,
    visited: Seq<SymbolId>,
    steps: nat,
)
    requires
        ctx.has(id),
        ctx.spec_kind(id) == AstKind::IdentifierReference(ident),
        !ident.is_global,
        ident.symbol_id matches Some(symbol_id) ==> {
            ||| ctx.symbols@[symbol_id as int].is_mutated
            ||| ctx.symbols@[symbol_id as int].is_redeclared
            ||| match ctx.spec_kind(ctx.declaration(symbol_id)) {
                AstKind::VariableDeclarator { is_binding_identifier, init, .. } =>
                    !is_binding_identifier || init is None,
                _ => true,
            }
        },
    ensures
        value_of(ctx, id, visited, steps) == (None::<StaticValue>, 0nat),
        reads_member(ctx, id, visited, steps) == (false, 0nat),
        length_of(ctx, id) is Unknown,
{
}

/// A constant that is followed takes one hop, and has the value of its initializer. With no hop
/// left it counts as no number, and one that is on the path has no value.
pub proof fn constant_has_the_value_of_its_initializer(
    ctx: &LintContext,
    id: NodeId,
    ident: IdentifierReference,
    symbol_id: SymbolId,
    init: NodeId,
    visited: Seq<SymbolId>,
    steps: nat,
)
    requires
        ctx.has(id),
        ctx.spec_kind(id) == AstKind::IdentifierReference(ident),
        !ident.is_global,
        ident.symbol_id == Some(symbol_id),
        !ctx.symbols@[symbol_id as int].is_mutated,
        !ctx.symbols@[symbol_id as int].is_redeclared,
        ctx.spec_kind(ctx.declaration(symbol_id)) matches AstKind::VariableDeclarator {
            kind,
            is_binding_identifier,
            type_annotation,
            init: initializer,
        } && is_binding_identifier && initializer == Some(init),
    ensures
        ({
            let (value, hops) = value_of(ctx, id, visited, steps);
            if steps == 0 {
                value == Some(StaticValue::Other) && hops == 0
            } else if visited.contains(symbol_id) {
                value is None && hops == 0
            } else {
                hops > 0 && (value, (hops - 1) as nat) == value_of(
                    ctx,
                    init,
                    visited.push(symbol_id),
                    (steps - 1) as nat,
                )
            }
        }),
{
}

/// `void`, `typeof`, `!` and `delete` give no number, whatever stands behind them. `-` and `+` give
/// a number for a number. `~`, and `-` and `+` of anything else that is known, count as no number.
/// Of an unknown operand nothing is known.
pub proof fn unary_operator_gives(
    ctx: &LintContext,
    id: NodeId,
    operator: UnaryOperator,
    argument: NodeId,
    visited: Seq<SymbolId>,
    steps: nat,
)
    requires
        ctx.has(id),
        ctx.spec_kind(id) == (AstKind::UnaryExpression { operator, argument }),
    ensures
        ({
            let (value, hops) = value_of(ctx, id, visited, steps);
            let (operand, used) = value_of(ctx, argument, visited, steps);
            if operator == UnaryOperator::Void || operator == UnaryOperator::Typeof || operator
                == UnaryOperator::LogicalNot || operator == UnaryOperator::Delete {
                value == Some(StaticValue::Other) && hops == 0
            } else {
                &&& hops == used
                &&& operand is None ==> value is None
                &&& operand == Some(StaticValue::Other) ==> value == Some(StaticValue::Other)
                &&& operand matches Some(StaticValue::Number(number)) ==> {
                    &&& operator == UnaryOperator::UnaryPlus ==> value == operand
                    &&& operator == UnaryOperator::UnaryNegation ==> value == Some(
                        StaticValue::Number(Number::Negation(Box::new(number))),
                    )
                    &&& operator == UnaryOperator::BitwiseNot ==> value == Some(StaticValue::Other)
                }
            }
        }),
{
}

/// Comparisons, `in` and `instanceof` give no number, whatever their operands are. Any other
/// operator needs both operands: of an unknown one nothing is known, and the right one is asked
/// only if the left one is known. Six operators give a number for two numbers. All else that is
/// known counts as no number.
pub proof fn binary_operator_gives(
    ctx: &LintContext,
    id: NodeId,
    operator: BinaryOperator,
    left: NodeId,
    right: NodeId,
    visited: Seq<SymbolId>,
    steps: nat,
)
    requires
        ctx.has(id),
        ctx.spec_kind(id) == (AstKind::BinaryExpression { operator, left, right }),
    ensures
        ({
            let (value, hops) = value_of(ctx, id, visited, steps);
            let (first, used) = value_of(ctx, left, visited, steps);
            let (second, more) = value_of(
                ctx,
                right,
                visited,
                crate::resolution::left(steps, used),
            );
            match operator {
                BinaryOperator::Equality
                | BinaryOperator::Inequality
                | BinaryOperator::StrictEquality
                | BinaryOperator::StrictInequality
                | BinaryOperator::LessThan
                | BinaryOperator::LessEqualThan
                | BinaryOperator::GreaterThan
                | BinaryOperator::GreaterEqualThan
                | BinaryOperator::In
                | BinaryOperator::Instanceof => value == Some(StaticValue::Other) && hops == 0,
                _ => {
                    let calculation = match operator {
                        BinaryOperator::Addition => Some(ArithmeticOperator::Addition),
                        BinaryOperator::Subtraction => Some(ArithmeticOperator::Subtraction),
                        BinaryOperator::Multiplication => Some(ArithmeticOperator::Multiplication),
                        BinaryOperator::Division => Some(ArithmeticOperator::Division),
                        BinaryOperator::Remainder => Some(ArithmeticOperator::Remainder),
                        BinaryOperator::Exponential => Some(ArithmeticOperator::Exponential),
                        _ => None,
                    };
                    &&& hops == used + if first is Some {
                        more
                    } else {
                        0
                    }
                    &&& value is Some <==> first is Some && second is Some
                    &&& value is Some ==> value->0 == match (first->0, second->0, calculation) {
                        (
                            StaticValue::Number(a),
                            StaticValue::Number(b),
                            Some(calculation),
                        ) => StaticValue::Number(
                            Number::Arithmetic {
                                operator: calculation,
                                left: Box::new(a),
                                right: Box::new(b),
                            },
                        ),
                        _ => StaticValue::Other,
                    }
                },
            }
        }),
{
}

/// A member is read exactly where one stands, and in a constant that is followed exactly if one
/// stands in its initializer. A constant that may not be followed counts as a member read.
pub proof fn member_is_read_where_it_stands(
    ctx: &LintContext,
    id: NodeId,
    visited: Seq<SymbolId>,
    steps: nat,
)
    requires
        ctx.has(id),
    ensures
        ({
            let (found, hops) = reads_member(ctx, id, visited, steps);
            match ctx.spec_kind(id) {
                AstKind::StaticMemberExpression { .. }
                | AstKind::ComputedMemberExpression { .. }
                | AstKind::PrivateFieldExpression { .. } => found && hops == 0,
                AstKind::IdentifierReference(ident) => match ident.symbol_id {
                    Some(symbol_id) => match ctx.spec_kind(ctx.declaration(symbol_id)) {
                        AstKind::VariableDeclarator {
                            kind,
                            is_binding_identifier: true,
                            type_annotation,
                            init: Some(init),
                        } => if ctx.symbols@[symbol_id as int].is_mutated
                            || ctx.symbols@[symbol_id as int].is_redeclared {
                            !found && hops == 0
                        } else if steps == 0 || visited.contains(symbol_id) {
                            found && hops == 0
                        } else {
                            hops > 0 && (found, (hops - 1) as nat) == reads_member(
                                ctx,
                                init,
                                visited.push(symbol_id),
                                (steps - 1) as nat,
                            )
                        },
                        _ => !found && hops == 0,
                    },
                    None => !found && hops == 0,
                },
                _ => (found, hops) == some_child_reads_member(
                    ctx,
                    id,
                    ctx.nodes@[id as int].children@,
                    0,
                    visited,
                    steps,
                ),
            }
        }),
{
}

/// Every child is searched, one after the other, with the hops that are left: a member is read in
/// them exactly if it is read in one of them.
pub proof fn all_children_are_searched(
    ctx: &LintContext,
    owner: NodeId,
    children: Seq<NodeId>,
    from: nat,
    visited: Seq<SymbolId>,
    steps: nat,
)
    requires
        ctx.has(owner),
        all_below(owner, children, ctx.nodes@.len()),
    ensures
        from >= children.len() ==> some_child_reads_member(
            ctx,
            owner,
            children,
            from,
            visited,
            steps,
        ) == (false, 0nat),
        from < children.len() ==> {
            let (found, hops) = some_child_reads_member(
                ctx,
                owner,
                children,
                from,
                visited,
                steps,
            );
            let (first, used) = reads_member(ctx, children[from as int], visited, steps);
            let (rest, more) = some_child_reads_member(
                ctx,
                owner,
                children,
                from + 1,
                visited,
                left(steps, used),
            );
            found == (first || rest) && hops == used + more
        },
{
}

/// While hops are left over, a member is read in a node that is neither a member nor a name exactly
/// if it is read in one of its children by itself.
pub proof fn member_is_read_in_some_child(
    ctx: &LintContext,
    id: NodeId,
    visited: Seq<SymbolId>,
    steps: nat,
)
    requires
        ctx.has(id),
        match ctx.spec_kind(id) {
            AstKind::StaticMemberExpression { .. }
            | AstKind::ComputedMemberExpression { .. }
            | AstKind::PrivateFieldExpression { .. }
            | AstKind::IdentifierReference(_) => false,
            _ => true,
        },
        reads_member(ctx, id, visited, steps).1 < steps,
    ensures
        reads_member(ctx, id, visited, steps).0 <==> exists|i: int|
            0 <= i < ctx.nodes@[id as int].children@.len() && reads_member(
                ctx,
                #[trigger] ctx.nodes@[id as int].children@[i],
                visited,
                steps,
            ).0,
{
    let children = ctx.nodes@[id as int].children@;
    children_read_by_themselves(ctx, id, children, 0, visited, steps, 0);
}

proof fn children_read_by_themselves(
    ctx: &LintContext,
    owner: NodeId,
    children: Seq<NodeId>,
    from: nat,
    visited: Seq<SymbolId>,
    steps: nat,
    extra: nat,
)
    requires
        ctx.has(owner),
        all_below(owner, children, ctx.nodes@.len()),
        some_child_reads_member(ctx, owner, children, from, visited, steps).1 < steps,
    ensures
        some_child_reads_member(ctx, owner, children, from, visited, steps).0 <==> exists|i: int|
            from <= i < children.len() && reads_member(
                ctx,
                #[trigger] children[i],
                visited,
                steps + extra,
            ).0,
    decreases children.len() - from,
{
    if from < children.len() {
        let child = children[from as int];
        member_walk_keeps_to_its_budget(ctx, child, visited, steps, extra);
        let (first, used) = reads_member(ctx, child, visited, steps);
        let rest = left(steps, used);
        children_read_by_themselves(
            ctx,
            owner,
            children,
            from + 1,
            visited,
            rest,
            used + extra,
        );
        assert(rest + (used + extra) == steps + extra);
        let (found, hops) = some_child_reads_member(ctx, owner, children, from, visited, steps);
        if found && !first {
            let i = choose|i: int|
                from + 1 <= i < children.len() && reads_member(
                    ctx,
                    #[trigger] children[i],
                    visited,
                    rest + (used + extra),
                ).0;
            assert(reads_member(ctx, children[i], visited, steps + extra).0);
        }
        if exists|i: int|
            from <= i < children.len() && reads_member(
                ctx,
                #[trigger] children[i],
                visited,
                steps + extra,
            ).0 {
            let i = choose|i: int|
                from <= i < children.len() && reads_member(
                    ctx,
                    #[trigger] children[i],
                    visited,
                    steps + extra,
                ).0;
            if i > from {
                assert(reads_member(ctx, children[i], visited, rest + (used + extra)).0);
            }
        }
    }
}

/// A length is a number exactly if its value is, invalid exactly if its value is known and none or
/// it reads a member, and else nothing speaks against it. Both walks share one budget.
pub proof fn length_is_told_by_value_and_members(ctx: &LintContext, length: NodeId, steps: nat)
    requires
        ctx.has(length),
    ensures
        ({
            let (value, used) = value_of(ctx, length, seq![], steps);
            let reads = reads_member(ctx, length, seq![], left(steps, used)).0;
            let known = length_within(ctx, length, steps);
            &&& known is Number <==> (value is Some && value->0 is Number)
            &&& known matches StaticLength::Number(number) ==> value == Some(
                StaticValue::Number(number),
            )
            &&& known is Invalid <==> value == Some(StaticValue::Other) || (value is None && reads)
            &&& known is Unknown <==> value is None && !reads
        }),
        length_of(ctx, length) == length_within(ctx, length, 64),
{
}

/// A name, a call or any other expression in which no member and no constant stands is a length
/// that nothing speaks against, unless its value is known.
pub proof fn length_without_members_is_not_invalid(ctx: &LintContext, length: NodeId)
    requires
        ctx.has(length),
        value_of(ctx, length, seq![], MAX_RESOLVE_STEPS as nat).0 is None,
        forall|id: NodeId|
            length <= id < ctx.nodes@.len() ==> match #[trigger] ctx.spec_kind(id) {
                AstKind::StaticMemberExpression { .. }
                | AstKind::ComputedMemberExpression { .. }
                | AstKind::PrivateFieldExpression { .. } => false,
                AstKind::IdentifierReference(ident) => constant_init(ctx, ident) is None,
                _ => true,
            },
    ensures
        length_of(ctx, length) is Unknown,
{
    let used = value_of(ctx, length, seq![], MAX_RESOLVE_STEPS as nat).1;
    nothing_is_read_below(ctx, length, seq![], left(MAX_RESOLVE_STEPS as nat, used));
}

proof fn nothing_is_read_below(
    ctx: &LintContext,
    id: NodeId,
    visited: Seq<SymbolId>,
    steps: nat,
)
    requires
        ctx.has(id),
        forall|other: NodeId|
            id <= other < ctx.nodes@.len() ==> match #[trigger] ctx.spec_kind(other) {
                AstKind::StaticMemberExpression { .. }
                | AstKind::ComputedMemberExpression { .. }
                | AstKind::PrivateFieldExpression { .. } => false,
                AstKind::IdentifierReference(ident) => constant_init(ctx, ident) is None,
                _ => true,
            },
    ensures
        reads_member(ctx, id, visited, steps) == (false, 0nat),
    decreases ctx.nodes@.len() - id, 0nat,
{
    let kind = ctx.spec_kind(id);
    if !(kind is IdentifierReference) {
        nothing_is_read_in_children(ctx, id, ctx.nodes@[id as int].children@, 0, visited, steps);
    }
}

proof fn nothing_is_read_in_children(
    ctx: &LintContext,
    owner: NodeId,
    children: Seq<NodeId>,
    from: nat,
    visited: Seq<SymbolId>,
    steps: nat,
)
    requires
        ctx.has(owner),
        all_below(owner, children, ctx.nodes@.len()),
        forall|other: NodeId|
            owner <= other < ctx.nodes@.len() ==> match #[trigger] ctx.spec_kind(other) {
                AstKind::StaticMemberExpression { .. }
                | AstKind::ComputedMemberExpression { .. }
                | AstKind::PrivateFieldExpression { .. } => false,
                AstKind::IdentifierReference(ident) => constant_init(ctx, ident) is None,
                _ => true,
            },
    ensures
        some_child_reads_member(ctx, owner, children, from, visited, steps) == (false, 0nat),
    decreases ctx.nodes@.len() - owner - 1, children.len() - from,
{
    if from < children.len() {
        nothing_is_read_below(ctx, children[from as int], visited, steps);
        nothing_is_read_in_children(ctx, owner, children, from + 1, visited, steps);
    }
}

/// The encoding of a literal is its own, negation changes the sign, and arithmetic is left open.
pub proof fn encoding_is_that_of_the_number(number: Number)
    ensures
        match number {
            Number::Literal { bits } => encoding(number) == Some(bits),
            Number::NaN => encoding(number) == Some(0x7ff8_0000_0000_0000u64),
            Number::Infinity => encoding(number) == Some(0x7ff0_0000_0000_0000u64),
            Number::Negation(value) => match encoding(*value) {
                Some(bits) => encoding(number) == Some(negated(bits)),
                None => encoding(number) is None,
            },
            Number::Arithmetic { .. } => encoding(number) is None,
        },
{
}

/// A calculation gives a value exactly if it does so step by step: its operands are calculated
/// first, and the arithmetic of doubles gives the value for theirs. `1 ** NaN` and `1 ** Infinity`
/// are `NaN`.
pub proof fn calculation_goes_step_by_step(
    gives: spec_fn(ArithmeticOperator, u64, u64, u64) -> bool,
    number: Number,
    value: u64,
)
    ensures
        match number {
            Number::Literal { bits } => evaluates_to(gives, number, value) == (value == bits),
            Number::NaN => evaluates_to(gives, number, value) == (value
                == 0x7ff8_0000_0000_0000),
            Number::Infinity => evaluates_to(gives, number, value) == (value
                == 0x7ff0_0000_0000_0000),
            Number::Negation(inner) => evaluates_to(gives, number, value) == evaluates_to(
                gives,
                *inner,
                negated(value),
            ),
            Number::Arithmetic { operator, left, right } => evaluates_to(gives, number, value)
                <==> exists|a: u64, b: u64|
                {
                    &&& evaluates_to(gives, *left, a)
                    &&& evaluates_to(gives, *right, b)
                    &&& #[trigger] operation_gives(gives, operator, a, b, value)
                },
        },
        forall|operator: ArithmeticOperator, a: u64, b: u64| #[trigger]
            operation_gives(gives, operator, a, b, value) <==> if operator
                == ArithmeticOperator::Exponential && (b % 0x8000_0000_0000_0000
                > 0x7ff0_0000_0000_0000 || (b % 0x8000_0000_0000_0000 == 0x7ff0_0000_0000_0000 && a
                % 0x8000_0000_0000_0000 == 0x3ff0_0000_0000_0000)) {
                value == 0x7ff8_0000_0000_0000
            } else {
                gives(operator, a, b, value)
            },
{
}

} // verus!
