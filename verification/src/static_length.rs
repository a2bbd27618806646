//! What can be known of an array length without running the code.
//!
//! Each specification function takes the symbols on the path and the hops that are left, and
//! gives the answer together with the hops that the walk takes.
use vstd::prelude::*;

use crate::ast::{
    all_below, AstKind, BinaryOperator, IdentifierReference, LintContext, NodeId, SymbolId,
    UnaryOperator,
};
use crate::double::{
    negate, negated, negation_keeps_the_magnitude, power_is_nan, power_is_undefined, INFINITY, NAN,
};
use crate::resolution::{is_blocked, left, spent, Resolution, MAX_RESOLVE_STEPS};
use crate::text::same_text;

verus! {

#[derive(Debug, Clone, Copy, PartialEq, Eq, Structural)]
pub enum ArithmeticOperator {
    Addition,
    Subtraction,
    Multiplication,
    Division,
    Remainder,
    /// As JavaScript has it: [`crate::double::power_is_nan`] tells where it gives no number.
    Exponential,
}

/// A number that is known without running the code, as the calculation with doubles that gives it.
#[derive(Debug)]
pub enum Number {
    /// `bits` is the IEEE 754 double-precision encoding of the value.
    Literal { bits: u64 },
    NaN,
    Infinity,
    Negation(Box<Number>),
    Arithmetic { operator: ArithmeticOperator, left: Box<Number>, right: Box<Number> },
}

/// Whether the calculation of a number has an operation that can round.
pub open spec fn has_arithmetic(number: Number) -> bool
    decreases number,
{
    match number {
        Number::Negation(value) => has_arithmetic(*value),
        Number::Arithmetic { operator, left, right } => true,
        _ => false,
    }
}

/// The encoding of a number, where it can be told without arithmetic.
pub open spec fn encoding(number: Number) -> Option<u64>
    decreases number,
{
    match number {
        Number::Literal { bits } => Some(bits),
        Number::NaN => Some(NAN),
        Number::Infinity => Some(INFINITY),
        Number::Negation(value) => match encoding(*value) {
            Some(bits) => Some(negated(bits)),
            None => None,
        },
        Number::Arithmetic { operator, left, right } => None,
    }
}

/// Finds the encoding of a number, where it can be told without arithmetic.
pub fn get_encoding(number: &Number) -> (r: Option<u64>)
    ensures
        r == encoding(*number),
    decreases *number,
{
    match number {
        Number::Literal { bits } => Some(*bits),
        Number::NaN => Some(NAN),
        Number::Infinity => Some(INFINITY),
        Number::Negation(value) => match get_encoding(&**value) {
            Some(bits) => Some(negate(bits)),
            None => None,
        },
        Number::Arithmetic { .. } => None,
    }
}

/// The encoding is known exactly where no arithmetic occurs.
pub proof fn encoding_is_known_without_arithmetic(number: Number)
    ensures
        encoding(number) is None == has_arithmetic(number),
    decreases number,
{
    match number {
        Number::Negation(value) => encoding_is_known_without_arithmetic(*value),
        _ => {},
    }
}

/// Whether `value` is what one operation gives, where `gives` tells what the arithmetic of doubles
/// gives. A power that JavaScript leaves undefined is `NaN`, and is not calculated.
pub open spec fn operation_gives(
    gives: spec_fn(ArithmeticOperator, u64, u64, u64) -> bool,
    operator: ArithmeticOperator,
    left: u64,
    right: u64,
    value: u64,
) -> bool {
    if operator == ArithmeticOperator::Exponential && power_is_undefined(left, right) {
        value == NAN
    } else {
        gives(operator, left, right, value)
    }
}

/// Whether `value` is the encoding of what a calculation gives, where `gives` tells of an operation
/// and the encodings of its operands and its result whether the arithmetic of doubles has it so.
pub open spec fn evaluates_to(
    gives: spec_fn(ArithmeticOperator, u64, u64, u64) -> bool,
    number: Number,
    value: u64,
) -> bool
    decreases number,
{
    match number {
        Number::Literal { bits } => value == bits,
        Number::NaN => value == NAN,
        Number::Infinity => value == INFINITY,
        Number::Negation(inner) => evaluates_to(gives, *inner, negated(value)),
        Number::Arithmetic { operator, left, right } => exists|a: u64, b: u64|
            {
                &&& evaluates_to(gives, *left, a)
                &&& evaluates_to(gives, *right, b)
                &&& #[trigger] operation_gives(gives, operator, a, b, value)
            },
    }
}

/// Carries out a calculation. `calculate` gives what one operation on two doubles gives, all three
/// by their encodings.
pub fn evaluate<F: Fn(ArithmeticOperator, u64, u64) -> u64>(
    number: &Number,
    calculate: &F,
) -> (value: u64)
    requires
        forall|operator: ArithmeticOperator, left: u64, right: u64|
            call_requires(*calculate, (operator, left, right)),
    ensures
        evaluates_to(
            |operator: ArithmeticOperator, left: u64, right: u64, result: u64|
                call_ensures(*calculate, (operator, left, right), result),
            *number,
            value,
        ),
    decreases *number,
{
    let ghost gives = |operator: ArithmeticOperator, left: u64, right: u64, result: u64|
        call_ensures(*calculate, (operator, left, right), result);
    match number {
        Number::Literal { bits } => *bits,
        Number::NaN => NAN,
        Number::Infinity => INFINITY,
        Number::Negation(inner) => {
            let inner_value: u64 = evaluate(&**inner, calculate);
            proof {
                negation_keeps_the_magnitude(inner_value);
            }
            negate(inner_value)
        },
        Number::Arithmetic { operator, left, right } => {
            let left_value: u64 = evaluate(&**left, calculate);
            let right_value: u64 = evaluate(&**right, calculate);
            // Other power functions give 1 for `1 ** NaN` and `1 ** Infinity`.
            let value: u64 = if *operator == ArithmeticOperator::Exponential && power_is_nan(
                left_value,
                right_value,
            ) {
                NAN
            } else {
                calculate(*operator, left_value, right_value)
            };
            assert(operation_gives(gives, *operator, left_value, right_value, value));
            value
        },
    }
}

/// Where the encoding of a number can be told without arithmetic, a calculation gives it, whatever
/// the arithmetic gives.
pub proof fn known_encoding_is_the_value(
    gives: spec_fn(ArithmeticOperator, u64, u64, u64) -> bool,
    number: Number,
    value: u64,
)
    requires
        encoding(number) is Some,
    ensures
        evaluates_to(gives, number, value) == (encoding(number) == Some(value)),
    decreases number,
{
    match number {
        Number::Negation(inner) => {
            known_encoding_is_the_value(gives, *inner, negated(value));
            negation_keeps_the_magnitude(value);
            negation_keeps_the_magnitude(encoding(*inner)->0);
        },
        _ => {},
    }
}

/// A value known without running the code. `Other` is any value that is never a valid array
/// length, or a static value that this module does not model.
#[derive(Debug)]
pub enum StaticValue {
    Number(Number),
    Other,
}

/// Whether the operator gives a boolean, whatever its operands are.
pub open spec fn gives_boolean(operator: BinaryOperator) -> bool {
    match operator {
        BinaryOperator::Equality
        | BinaryOperator::Inequality
        | BinaryOperator::StrictEquality
        | BinaryOperator::StrictInequality
        | BinaryOperator::LessThan
        | BinaryOperator::LessEqualThan
        | BinaryOperator::GreaterThan
        | BinaryOperator::GreaterEqualThan
        | BinaryOperator::In
        | BinaryOperator::Instanceof => true,
        _ => false,
    }
}

fn check_gives_boolean(operator: BinaryOperator) -> (r: bool)
    ensures
        r == gives_boolean(operator),
{
    match operator {
        BinaryOperator::Equality
        | BinaryOperator::Inequality
        | BinaryOperator::StrictEquality
        | BinaryOperator::StrictInequality
        | BinaryOperator::LessThan
        | BinaryOperator::LessEqualThan
        | BinaryOperator::GreaterThan
        | BinaryOperator::GreaterEqualThan
        | BinaryOperator::In
        | BinaryOperator::Instanceof => true,
        _ => false,
    }
}

pub open spec fn arithmetic(operator: BinaryOperator) -> Option<ArithmeticOperator> {
    match operator {
        BinaryOperator::Addition => Some(ArithmeticOperator::Addition),
        BinaryOperator::Subtraction => Some(ArithmeticOperator::Subtraction),
        BinaryOperator::Multiplication => Some(ArithmeticOperator::Multiplication),
        BinaryOperator::Division => Some(ArithmeticOperator::Division),
        BinaryOperator::Remainder => Some(ArithmeticOperator::Remainder),
        BinaryOperator::Exponential => Some(ArithmeticOperator::Exponential),
        _ => None,
    }
}

fn get_arithmetic(operator: BinaryOperator) -> (r: Option<ArithmeticOperator>)
    ensures
        r == arithmetic(operator),
{
    match operator {
        BinaryOperator::Addition => Some(ArithmeticOperator::Addition),
        BinaryOperator::Subtraction => Some(ArithmeticOperator::Subtraction),
        BinaryOperator::Multiplication => Some(ArithmeticOperator::Multiplication),
        BinaryOperator::Division => Some(ArithmeticOperator::Division),
        BinaryOperator::Remainder => Some(ArithmeticOperator::Remainder),
        BinaryOperator::Exponential => Some(ArithmeticOperator::Exponential),
        _ => None,
    }
}

/// What a unary operator other than `void`, `typeof`, `!` and `delete` gives for a known value.
pub open spec fn unary_value(operator: UnaryOperator, value: StaticValue) -> StaticValue {
    match (operator, value) {
        (UnaryOperator::UnaryNegation, StaticValue::Number(value)) => StaticValue::Number(
            Number::Negation(Box::new(value)),
        ),
        (UnaryOperator::UnaryPlus, StaticValue::Number(value)) => StaticValue::Number(value),
        _ => StaticValue::Other,
    }
}

/// What a binary operator gives for known values.
pub open spec fn binary_value(
    operator: BinaryOperator,
    left: StaticValue,
    right: StaticValue,
) -> StaticValue {
    match (left, right, arithmetic(operator)) {
        (StaticValue::Number(left), StaticValue::Number(right), Some(operator)) =>
            StaticValue::Number(
            Number::Arithmetic { operator, left: Box::new(left), right: Box::new(right) },
        ),
        _ => StaticValue::Other,
    }
}

/// Whether the operator never gives a number, whatever its argument is.
pub open spec fn never_gives_number(operator: UnaryOperator) -> bool {
    match operator {
        UnaryOperator::Void
        | UnaryOperator::Typeof
        | UnaryOperator::LogicalNot
        | UnaryOperator::Delete => true,
        _ => false,
    }
}

/// The symbol and the initializer of a variable that is declared once and never reassigned.
pub open spec fn constant_init(ctx: &LintContext, ident: IdentifierReference) -> Option<
    (SymbolId, NodeId),
> {
    match ident.symbol_id {
        Some(symbol_id) => {
            let symbol = ctx.symbols@[symbol_id as int];
            if symbol.is_mutated || symbol.is_redeclared {
                None
            } else {
                match ctx.spec_kind(symbol.declaration) {
                    AstKind::VariableDeclarator {
                        kind,
                        is_binding_identifier,
                        type_annotation,
                        init,
                    } => match init {
                        Some(init) => if is_binding_identifier {
                            Some((symbol_id, init))
                        } else {
                            None
                        },
                        None => None,
                    },
                    _ => None,
                }
            }
        },
        None => None,
    }
}

/// The initializer of a variable that is never reassigned.
pub fn constant_initializer(ident: &IdentifierReference, ctx: &LintContext) -> (r: Option<
    (SymbolId, NodeId),
>)
    requires
        ctx.wf(),
        ident.symbol_id matches Some(symbol_id) ==> symbol_id < ctx.symbols@.len(),
    ensures
        r == constant_init(ctx, *ident),
        r matches Some((symbol_id, init)) ==> ctx.has(init),
{
    let symbol_id: SymbolId = match ident.symbol_id {
        Some(symbol_id) => symbol_id,
        None => return None,
    };
    let symbol = &ctx.symbols[symbol_id];
    // `var x = 1; var x = -1;` redeclares without a mutation.
    if symbol.is_mutated || symbol.is_redeclared {
        return None;
    }
    match ctx.kind(symbol.declaration) {
        AstKind::VariableDeclarator { is_binding_identifier, init, .. } => {
            // `const {value} = object` binds a property, not the initializer.
            if !*is_binding_identifier {
                return None;
            }
            match init {
                Some(init) => Some((symbol_id, *init)),
                None => None,
            }
        },
        _ => None,
    }
}

/// The value of a global variable, where it is known.
pub open spec fn global_value(name: Seq<char>) -> Option<StaticValue> {
    if name == "undefined"@ {
        Some(StaticValue::Other)
    } else if name == "NaN"@ {
        Some(StaticValue::Number(Number::NaN))
    } else if name == "Infinity"@ {
        Some(StaticValue::Number(Number::Infinity))
    } else {
        None
    }
}

/// The value of an expression, where it is known.
pub open spec fn value_of(
    ctx: &LintContext,
    id: NodeId,
    visited: Seq<SymbolId>,
    steps: nat,
) -> (Option<StaticValue>, nat)
    decreases steps, ctx.nodes@.len() - id,
    when ctx.has(id)
{
    proof {
        ctx.lemma_inner_expression(id);
    }
    match ctx.spec_kind(ctx.spec_inner_expression(id)) {
        AstKind::NumericLiteral { bits } => (
            Some(StaticValue::Number(Number::Literal { bits })),
            0,
        ),
        AstKind::StringLiteral { .. }
        | AstKind::TemplateLiteral { .. }
        | AstKind::BooleanLiteral
        | AstKind::NullLiteral
        | AstKind::BigIntLiteral => (Some(StaticValue::Other), 0),
        AstKind::IdentifierReference(ident) => if ident.is_global {
            (global_value(ident.name@), 0)
        } else {
            match constant_init(ctx, ident) {
                Some((symbol_id, init)) => if steps == 0 {
                    (Some(StaticValue::Other), 0)
                } else if visited.contains(symbol_id) {
                    (None, 0)
                } else {
                    let (value, used) = value_of(
                        ctx,
                        init,
                        visited.push(symbol_id),
                        (steps - 1) as nat,
                    );
                    (value, used + 1)
                },
                None => (None, 0),
            }
        },
        AstKind::UnaryExpression { operator, argument } => if never_gives_number(operator) {
            (Some(StaticValue::Other), 0)
        } else {
            let (value, used) = value_of(ctx, argument, visited, steps);
            match value {
                Some(value) => (Some(unary_value(operator, value)), used),
                None => (None, used),
            }
        },
        AstKind::BinaryExpression { operator, left: left_id, right: right_id } => if gives_boolean(
            operator,
        ) {
            (Some(StaticValue::Other), 0)
        } else {
            let (left_value, used) = value_of(ctx, left_id, visited, steps);
            match left_value {
                Some(left_value) => {
                    let (right_value, more) = value_of(ctx, right_id, visited, left(steps, used));
                    match right_value {
                        Some(right_value) => (
                            Some(binary_value(operator, left_value, right_value)),
                            used + more,
                        ),
                        None => (None, used + more),
                    }
                },
                None => (None, used),
            }
        },
        _ => (None, 0),
    }
}

/// Finds the value of an expression.
pub fn static_value(expr: NodeId, ctx: &LintContext, walk: &mut Resolution) -> (r: Option<
    StaticValue,
>)
    requires
        ctx.has(expr),
    ensures
        r == value_of(ctx, expr, old(walk).visited@, old(walk).steps as nat).0,
        spent(
            *old(walk),
            *final(walk),
            value_of(ctx, expr, old(walk).visited@, old(walk).steps as nat).1,
        ),
    decreases old(walk).steps, ctx.nodes@.len() - expr,
{
    let inner: NodeId = ctx.get_inner_expression(expr);
    match ctx.kind(inner) {
        AstKind::NumericLiteral { bits } => Some(
            StaticValue::Number(Number::Literal { bits: *bits }),
        ),
        AstKind::StringLiteral { .. }
        | AstKind::TemplateLiteral { .. }
        | AstKind::BooleanLiteral
        | AstKind::NullLiteral
        | AstKind::BigIntLiteral => Some(StaticValue::Other),
        AstKind::IdentifierReference(ident) => {
            if ident.is_global {
                let name = ident.name.as_str();
                return if same_text(name, "undefined") {
                    Some(StaticValue::Other)
                } else if same_text(name, "NaN") {
                    Some(StaticValue::Number(Number::NaN))
                } else if same_text(name, "Infinity") {
                    Some(StaticValue::Number(Number::Infinity))
                } else {
                    None
                };
            }
            let (symbol_id, init) = match constant_initializer(ident, ctx) {
                Some(constant) => constant,
                None => return None,
            };
            if walk.steps == 0 {
                return Some(StaticValue::Other);
            }
            if !walk.enter(symbol_id) {
                return None;
            }
            let value = static_value(init, ctx, walk);
            walk.leave();
            assert(walk.visited@ =~= old(walk).visited@);
            value
        },
        AstKind::UnaryExpression { operator, argument } => {
            match operator {
                UnaryOperator::Void
                | UnaryOperator::Typeof
                | UnaryOperator::LogicalNot
                | UnaryOperator::Delete => return Some(StaticValue::Other),
                _ => {},
            }
            let value = match static_value(*argument, ctx, walk) {
                Some(value) => value,
                None => return None,
            };
            Some(
                match (operator, value) {
                    (UnaryOperator::UnaryNegation, StaticValue::Number(value)) =>
                        StaticValue::Number(Number::Negation(Box::new(value))),
                    (UnaryOperator::UnaryPlus, StaticValue::Number(value)) => StaticValue::Number(
                        value,
                    ),
                    _ => StaticValue::Other,
                },
            )
        },
        AstKind::BinaryExpression { operator, left, right } => {
            if check_gives_boolean(*operator) {
                return Some(StaticValue::Other);
            }
            let left = match static_value(*left, ctx, walk) {
                Some(left) => left,
                None => return None,
            };
            let right = match static_value(*right, ctx, walk) {
                Some(right) => right,
                None => return None,
            };
            Some(
                match (left, right, get_arithmetic(*operator)) {
                    (StaticValue::Number(left), StaticValue::Number(right), Some(operator)) =>
                        StaticValue::Number(
                        Number::Arithmetic {
                            operator,
                            left: Box::new(left),
                            right: Box::new(right),
                        },
                    ),
                    _ => StaticValue::Other,
                },
            )
        },
        _ => None,
    }
}

/// Whether a member is read in an expression, or in the initializer of a variable in it that is
/// never reassigned. A variable that the walk may not follow counts as a member read.
pub open spec fn reads_member(
    ctx: &LintContext,
    id: NodeId,
    visited: Seq<SymbolId>,
    steps: nat,
) -> (bool, nat)
    decreases steps, ctx.nodes@.len() - id, 0nat,
    when ctx.has(id)
{
    match ctx.spec_kind(id) {
        AstKind::StaticMemberExpression { .. }
        | AstKind::ComputedMemberExpression { .. }
        | AstKind::PrivateFieldExpression { .. } => (true, 0),
        AstKind::IdentifierReference(ident) => match constant_init(ctx, ident) {
            Some((symbol_id, init)) => if is_blocked(visited, steps, symbol_id) {
                (true, 0)
            } else {
                let (found, used) = reads_member(
                    ctx,
                    init,
                    visited.push(symbol_id),
                    (steps - 1) as nat,
                );
                (found, used + 1)
            },
            None => (false, 0),
        },
        _ => some_child_reads_member(ctx, id, ctx.nodes@[id as int].children@, 0, visited, steps),
    }
}

/// Whether a member is read in one of the children from `from` on.
pub open spec fn some_child_reads_member(
    ctx: &LintContext,
    owner: NodeId,
    children: Seq<NodeId>,
    from: nat,
    visited: Seq<SymbolId>,
    steps: nat,
) -> (bool, nat)
    decreases steps, ctx.nodes@.len() - owner - 1, children.len() - from,
    when ctx.has(owner) && all_below(owner, children, ctx.nodes@.len())
{
    if from >= children.len() {
        (false, 0)
    } else {
        let (found, used) = reads_member(ctx, children[from as int], visited, steps);
        let (more_found, more) = some_child_reads_member(
            ctx,
            owner,
            children,
            from + 1,
            visited,
            left(steps, used),
        );
        (found || more_found, used + more)
    }
}

/// Finds a member read in the length expression. Follows bindings that are never reassigned.
pub struct MemberReadFinder<'c> {
    pub ctx: &'c LintContext,
    pub walk: Resolution,
    pub found: bool,
}

impl<'c> MemberReadFinder<'c> {
    /// Looks for a member read in a node and below it.
    pub fn visit_expression(&mut self, id: NodeId)
        requires
            old(self).ctx.has(id),
        ensures
            final(self).ctx == old(self).ctx,
            final(self).found == (old(self).found || reads_member(
                old(self).ctx,
                id,
                old(self).walk.visited@,
                old(self).walk.steps as nat,
            ).0),
            spent(
                old(self).walk,
                final(self).walk,
                reads_member(
                    old(self).ctx,
                    id,
                    old(self).walk.visited@,
                    old(self).walk.steps as nat,
                ).1,
            ),
        decreases old(self).walk.steps, old(self).ctx.nodes@.len() - id, 0nat,
    {
        let ctx = self.ctx;
        match ctx.kind(id) {
            AstKind::StaticMemberExpression { .. }
            | AstKind::ComputedMemberExpression { .. }
            | AstKind::PrivateFieldExpression { .. } => self.visit_member_expression(),
            AstKind::IdentifierReference(ident) => self.visit_identifier_reference(id, ident),
            _ => self.visit_children(id, 0),
        }
    }

    fn visit_member_expression(&mut self)
        ensures
            final(self).ctx == old(self).ctx,
            final(self).walk == old(self).walk,
            final(self).found,
    {
        self.found = true;
    }

    fn visit_identifier_reference(&mut self, id: NodeId, ident: &IdentifierReference)
        requires
            old(self).ctx.has(id),
            old(self).ctx.spec_kind(id) == AstKind::IdentifierReference(*ident),
        ensures
            final(self).ctx == old(self).ctx,
            final(self).found == (old(self).found || reads_member(
                old(self).ctx,
                id,
                old(self).walk.visited@,
                old(self).walk.steps as nat,
            ).0),
            spent(
                old(self).walk,
                final(self).walk,
                reads_member(
                    old(self).ctx,
                    id,
                    old(self).walk.visited@,
                    old(self).walk.steps as nat,
                ).1,
            ),
        decreases old(self).walk.steps, 0nat, 0nat,
    {
        let (symbol_id, init) = match constant_initializer(ident, self.ctx) {
            Some(constant) => constant,
            None => return ,
        };
        if !self.walk.enter(symbol_id) {
            self.found = true;
            return ;
        }
        self.visit_expression(init);
        self.walk.leave();
        assert(self.walk.visited@ =~= old(self).walk.visited@);
    }

    fn visit_children(&mut self, owner: NodeId, from: usize)
        requires
            old(self).ctx.has(owner),
            from <= old(self).ctx.nodes@[owner as int].children@.len(),
        ensures
            final(self).ctx == old(self).ctx,
            final(self).found == (old(self).found || some_child_reads_member(
                old(self).ctx,
                owner,
                old(self).ctx.nodes@[owner as int].children@,
                from as nat,
                old(self).walk.visited@,
                old(self).walk.steps as nat,
            ).0),
            spent(
                old(self).walk,
                final(self).walk,
                some_child_reads_member(
                    old(self).ctx,
                    owner,
                    old(self).ctx.nodes@[owner as int].children@,
                    from as nat,
                    old(self).walk.visited@,
                    old(self).walk.steps as nat,
                ).1,
            ),
        decreases
                old(self).walk.steps,
                old(self).ctx.nodes@.len() - owner - 1,
                old(self).ctx.nodes@[owner as int].children@.len() - from,
    {
        let children = &self.ctx.nodes[owner].children;
        if from < children.len() {
            self.visit_expression(children[from]);
            self.visit_children(owner, from + 1);
        }
    }
}

/// What can be known of an array length.
pub enum StaticLength {
    /// It is this number.
    Number(Number),
    /// It is no valid length, or it reads a member.
    Invalid,
    /// Nothing speaks against it.
    Unknown,
}

/// What can be known, with a budget of `steps` hops, of the length that an expression gives.
pub open spec fn length_within(ctx: &LintContext, length: NodeId, steps: nat) -> StaticLength {
    let (value, used) = value_of(ctx, length, seq![], steps);
    match value {
        Some(StaticValue::Number(number)) => StaticLength::Number(number),
        Some(StaticValue::Other) => StaticLength::Invalid,
        None => if reads_member(ctx, length, seq![], left(steps, used)).0 {
            StaticLength::Invalid
        } else {
            StaticLength::Unknown
        },
    }
}

/// What can be known of the length that an expression gives.
pub open spec fn length_of(ctx: &LintContext, length: NodeId) -> StaticLength {
    length_within(ctx, length, MAX_RESOLVE_STEPS as nat)
}

/// Finds what can be known of the length that an expression gives.
pub fn static_length(length: NodeId, ctx: &LintContext) -> (r: StaticLength)
    requires
        ctx.has(length),
    ensures
        r == length_of(ctx, length),
{
    let mut walk = Resolution::new();
    match static_value(length, ctx, &mut walk) {
        Some(StaticValue::Number(number)) => StaticLength::Number(number),
        Some(StaticValue::Other) => StaticLength::Invalid,
        None => {
            let mut finder = MemberReadFinder { ctx, walk, found: false };
            finder.visit_expression(length);
            if finder.found {
                StaticLength::Invalid
            } else {
                StaticLength::Unknown
            }
        },
    }
}

} // verus!
