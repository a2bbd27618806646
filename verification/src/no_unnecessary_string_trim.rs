//! Disallow `String#trim()` before `String#startsWith()` or `String#endsWith()`.
//!
//! Without a position argument, `startsWith()` compares only the start of the string, and
//! `endsWith()` compares only the end. If the search value has no whitespace at the other end,
//! the whitespace that `trim()` removes there does not change the result. `trimStart()` and
//! `trimEnd()` show the intent better and do less work.
use vstd::prelude::*;
use vstd::string::StringExecFns;

use crate::ast::{span_is_well_formed, AstKind, LintContext, NodeId, Span, UnaryOperator};
use crate::ast_util::{is_literal, kind_is_literal};
use crate::diagnostic::{reports, Diagnostic, DiagnosticView, Fix, FixKind, FixView};
use crate::resolution::{Resolution, MAX_RESOLVE_STEPS};
use crate::string_type::{
    const_declarator_init, const_init, expression_string, expression_string_type,
};
use crate::text::{
    ends_with_js_whitespace, ends_with_whitespace, same_text, starts_with_js_whitespace,
    starts_with_whitespace,
};
use crate::trimming::{
    is_safe_text, matches_at_end, other_end_is_not_observable, trim, trim_one_end,
};

verus! {

/// The rule.
#[derive(Debug, Default, Clone)]
pub struct NoUnnecessaryStringTrim;

/// A call `receiver.trim().startsWith(search)` or `receiver.trim().endsWith(search)`.
pub struct TrimCall {
    /// Whether the outer method is `startsWith`.
    pub starts_with: bool,
    pub receiver: NodeId,
    pub search_value: Option<NodeId>,
    /// The span of the name `trim`.
    pub span: Span,
}

/// Whether any of `arguments` is a spread.
pub open spec fn has_spread(ctx: &LintContext, arguments: Seq<NodeId>) -> bool {
    exists|i: int|
        0 <= i < arguments.len() && ctx.spec_kind(#[trigger] arguments[i]) is SpreadElement
}

pub open spec fn first_argument(arguments: Seq<NodeId>) -> Option<NodeId> {
    if arguments.len() == 0 {
        None
    } else {
        Some(arguments[0])
    }
}

/// The call at `id`, if it has the form that the rule looks for.
pub open spec fn trim_call(ctx: &LintContext, id: NodeId) -> Option<TrimCall> {
    if let AstKind::CallExpression { callee, arguments, optional } = ctx.spec_kind(id) {
        if let AstKind::StaticMemberExpression {
            object,
            property,
            property_span,
            optional: outer_optional,
        } = ctx.spec_kind(ctx.spec_without_parentheses(callee)) {
            if let AstKind::CallExpression {
                callee: trim_callee,
                arguments: trim_arguments,
                optional: trim_optional,
            } = ctx.spec_kind(ctx.spec_without_parentheses(object)) {
                if let AstKind::StaticMemberExpression {
                    object: receiver,
                    property: trim_property,
                    property_span: trim_span,
                    optional: trim_member_optional,
                } = ctx.spec_kind(ctx.spec_without_parentheses(trim_callee)) {
                    if (property@ == "startsWith"@ || property@ == "endsWith"@) && arguments@.len()
                        <= 1 && !has_spread(ctx, arguments@) && trim_property@ == "trim"@
                        && trim_arguments@.len() == 0 && !ctx.uses_optional_chain(id) {
                        Some(
                            TrimCall {
                                starts_with: property@ == "startsWith"@,
                                receiver,
                                search_value: first_argument(arguments@),
                                span: trim_span,
                            },
                        )
                    } else {
                        None
                    }
                } else {
                    None
                }
            } else {
                None
            }
        } else {
            None
        }
    } else {
        None
    }
}

fn check_spread(arguments: &Vec<NodeId>, ctx: &LintContext) -> (r: bool)
    requires
        ctx.wf(),
        forall|i: int|
            0 <= i < arguments@.len() ==> #[trigger] arguments@[i] < ctx.nodes@.len(),
    ensures
        r == has_spread(ctx, arguments@),
{
    let mut i: usize = 0;
    while i < arguments.len()
        invariant
            i <= arguments@.len(),
            ctx.wf(),
            forall|j: int|
                0 <= j < arguments@.len() ==> #[trigger] arguments@[j] < ctx.nodes@.len(),
            forall|j: int|
                0 <= j < i ==> !(ctx.spec_kind(#[trigger] arguments@[j]) is SpreadElement),
        decreases arguments@.len() - i,
    {
        match ctx.kind(arguments[i]) {
            AstKind::SpreadElement { .. } => {
                assert(ctx.spec_kind(arguments@[i as int]) is SpreadElement);
                return true;
            },
            _ => {},
        }
        i += 1;
    }
    false
}

/// Finds the call that the rule looks for.
pub fn find_trim_call(id: NodeId, ctx: &LintContext) -> (call: Option<TrimCall>)
    requires
        ctx.has(id),
    ensures
        call == trim_call(ctx, id),
        call matches Some(call) ==> ctx.has(call.receiver) && (call.search_value matches Some(
            search_value,
        ) ==> ctx.has(search_value)),
        call matches Some(call) ==> span_is_well_formed(call.span, ctx.source_text@),
{
    let (callee, arguments) = match ctx.kind(id) {
        AstKind::CallExpression { callee, arguments, .. } => (*callee, arguments),
        _ => return None,
    };
    let (object, method) = match ctx.kind(ctx.without_parentheses(callee)) {
        AstKind::StaticMemberExpression { object, property, .. } => (*object, property.as_str()),
        _ => return None,
    };
    let starts_with = same_text(method, "startsWith");
    if !starts_with && !same_text(method, "endsWith") {
        return None;
    }
    if arguments.len() > 1 || check_spread(arguments, ctx) {
        return None;
    }
    let (trim_callee, trim_arguments) = match ctx.kind(ctx.without_parentheses(object)) {
        AstKind::CallExpression { callee, arguments, .. } => (*callee, arguments),
        _ => return None,
    };
    let (receiver, property, span) = match ctx.kind(ctx.without_parentheses(trim_callee)) {
        AstKind::StaticMemberExpression { object, property, property_span, .. } => (
            *object,
            property.as_str(),
            *property_span,
        ),
        _ => return None,
    };
    if !same_text(property, "trim") || trim_arguments.len() != 0 || ctx.call_uses_optional_chain(
        id,
    ) {
        return None;
    }
    let search_value = if arguments.len() == 0 {
        None
    } else {
        Some(arguments[0])
    };
    Some(TrimCall { starts_with, receiver, search_value, span })
}

/// The expression itself, or the initializer of the `const` that it names, without parentheses
/// and TypeScript wrappers.
pub open spec fn resolved(ctx: &LintContext, id: NodeId) -> NodeId {
    let inner = ctx.spec_inner_expression(id);
    match ctx.spec_kind(inner) {
        AstKind::IdentifierReference(ident) => match ident.symbol_id {
            Some(symbol_id) => match const_init(ctx.spec_kind(ctx.declaration(symbol_id))) {
                Some(init) => ctx.spec_inner_expression(init),
                None => inner,
            },
            None => inner,
        },
        _ => inner,
    }
}

pub fn resolve_const(expr: NodeId, ctx: &LintContext) -> (r: NodeId)
    requires
        ctx.has(expr),
    ensures
        r == resolved(ctx, expr),
        ctx.has(r),
{
    let inner: NodeId = ctx.get_inner_expression(expr);
    match ctx.kind(inner) {
        AstKind::IdentifierReference(ident) => match ident.symbol_id {
            Some(symbol_id) => match const_declarator_init(
                ctx.kind(ctx.symbols[symbol_id].declaration),
            ) {
                Some(init) => ctx.get_inner_expression(init),
                None => inner,
            },
            None => inner,
        },
        _ => inner,
    }
}

/// Whether the expression is a primitive that is not a string. The string form of such a value
/// never starts or ends with whitespace.
pub open spec fn non_string_primitive(ctx: &LintContext, id: NodeId) -> bool {
    match ctx.spec_kind(id) {
        AstKind::NumericLiteral { .. }
        | AstKind::BigIntLiteral
        | AstKind::BooleanLiteral
        | AstKind::NullLiteral => true,
        AstKind::IdentifierReference(ident) => ident.name@ == "undefined"@ && ident.is_global,
        AstKind::UnaryExpression { operator, argument } => match operator {
            UnaryOperator::Void => kind_is_literal(ctx.spec_kind(argument)),
            UnaryOperator::UnaryNegation => ctx.spec_kind(argument) is NumericLiteral
                || ctx.spec_kind(argument) is BigIntLiteral,
            _ => false,
        },
        _ => false,
    }
}

/// These values are not strings, and their string form never starts or ends with whitespace.
pub fn is_non_string_primitive(expr: NodeId, ctx: &LintContext) -> (r: bool)
    requires
        ctx.has(expr),
    ensures
        r == non_string_primitive(ctx, expr),
{
    match ctx.kind(expr) {
        AstKind::NumericLiteral { .. }
        | AstKind::BigIntLiteral
        | AstKind::BooleanLiteral
        | AstKind::NullLiteral => true,
        AstKind::IdentifierReference(ident) => same_text(ident.name.as_str(), "undefined")
            && ident.is_global,
        AstKind::UnaryExpression { operator, argument } => match operator {
            UnaryOperator::Void => is_literal(ctx.kind(*argument)),
            UnaryOperator::UnaryNegation => match ctx.kind(*argument) {
                AstKind::NumericLiteral { .. } | AstKind::BigIntLiteral => true,
                _ => false,
            },
            _ => false,
        },
        _ => false,
    }
}

/// Whether the expression is, or names, a value that is plainly not a string.
pub open spec fn static_non_string(ctx: &LintContext, id: NodeId) -> bool {
    match ctx.spec_kind(resolved(ctx, id)) {
        AstKind::ArrayExpression { .. }
        | AstKind::ArrowFunctionExpression { .. }
        | AstKind::Class { .. }
        | AstKind::Function { .. }
        | AstKind::ObjectExpression
        | AstKind::RegExpLiteral => true,
        _ => non_string_primitive(ctx, resolved(ctx, id)),
    }
}

pub fn is_static_non_string(expr: NodeId, ctx: &LintContext) -> (r: bool)
    requires
        ctx.has(expr),
    ensures
        r == static_non_string(ctx, expr),
{
    let expr: NodeId = resolve_const(expr, ctx);
    match ctx.kind(expr) {
        AstKind::ArrayExpression { .. }
        | AstKind::ArrowFunctionExpression { .. }
        | AstKind::Class { .. }
        | AstKind::Function { .. }
        | AstKind::ObjectExpression
        | AstKind::RegExpLiteral => true,
        _ => is_non_string_primitive(expr, ctx),
    }
}

/// Whether the search value is known, and has no whitespace at the end that the outer method
/// does not compare.
pub open spec fn search_value_safe(ctx: &LintContext, id: NodeId, starts_with: bool) -> bool {
    let value = resolved(ctx, id);
    non_string_primitive(ctx, value) || (ctx.static_string(value) matches Some(text)
        && is_safe_text(text, starts_with))
}

pub fn is_search_value_safe(expr: NodeId, is_starts_with: bool, ctx: &LintContext) -> (r: bool)
    requires
        ctx.has(expr),
    ensures
        r == search_value_safe(ctx, expr, is_starts_with),
{
    let expr: NodeId = resolve_const(expr, ctx);
    if is_non_string_primitive(expr, ctx) {
        return true;
    }
    let value = match ctx.static_string_value(expr) {
        Some(value) => value,
        None => return false,
    };
    if is_starts_with {
        !ends_with_whitespace(value.as_str())
    } else {
        !starts_with_whitespace(value.as_str())
    }
}

/// Whether the syntax tells that the value is not a string.
pub open spec fn known_non_string(ctx: &LintContext, id: NodeId) -> bool {
    expression_string(ctx, id, seq![], MAX_RESOLVE_STEPS as nat).0 == Some(false)
}

pub fn is_known_non_string(expr: NodeId, ctx: &LintContext) -> (r: bool)
    requires
        ctx.has(expr),
    ensures
        r == known_non_string(ctx, expr),
{
    let mut state = Resolution::new();
    match expression_string_type(expr, ctx, &mut state) {
        Some(is_string) => !is_string,
        None => false,
    }
}

/// Whether the expression is a call `z.string()` of the `z` of zod, or of the zod namespace.
pub open spec fn zod_string_call(ctx: &LintContext, id: NodeId) -> bool {
    if let AstKind::CallExpression { callee, arguments, optional } = ctx.spec_kind(
        ctx.spec_inner_expression(id),
    ) {
        if let AstKind::StaticMemberExpression {
            object,
            property,
            property_span,
            optional: member_optional,
        } = ctx.spec_kind(ctx.spec_without_parentheses(callee)) {
            if let AstKind::IdentifierReference(ident) = ctx.spec_kind(
                ctx.spec_without_parentheses(object),
            ) {
                &&& arguments@.len() == 0
                &&& property@ == "string"@
                &&& ident.symbol_id matches Some(symbol_id)
                &&& !ctx.symbols@[symbol_id as int].is_type_import
                &&& ctx.imports_symbol(ident, "zod"@, "z"@) || (ctx.imported_from(ident, "zod"@)
                    && ctx.spec_kind(ctx.declaration(symbol_id)) is ImportNamespaceSpecifier)
            } else {
                false
            }
        } else {
            false
        }
    } else {
        false
    }
}

/// `z.string().trim()` is a zod schema method, not `String#trim()`.
pub fn is_zod_string_call(expr: NodeId, ctx: &LintContext) -> (r: bool)
    requires
        ctx.has(expr),
    ensures
        r == zod_string_call(ctx, expr),
{
    let (callee, arguments) = match ctx.kind(ctx.get_inner_expression(expr)) {
        AstKind::CallExpression { callee, arguments, .. } => (*callee, arguments),
        _ => return false,
    };
    let (object, property) = match ctx.kind(ctx.without_parentheses(callee)) {
        AstKind::StaticMemberExpression { object, property, .. } => (*object, property.as_str()),
        _ => return false,
    };
    if arguments.len() != 0 || !same_text(property, "string") {
        return false;
    }
    let ident = match ctx.kind(ctx.without_parentheses(object)) {
        AstKind::IdentifierReference(ident) => ident,
        _ => return false,
    };
    let symbol_id: usize = match ident.symbol_id {
        Some(symbol_id) => symbol_id,
        None => return false,
    };
    if ctx.symbols[symbol_id].is_type_import {
        return false;
    }
    if ctx.is_import_symbol(ident, "zod", "z") {
        return true;
    }
    if !ctx.is_import_from_module(ident, "zod") {
        return false;
    }
    match ctx.kind(ctx.symbols[symbol_id].declaration) {
        AstKind::ImportNamespaceSpecifier { .. } => true,
        _ => false,
    }
}

/// Whether a call of the form that the rule looks for is to be reported.
pub open spec fn is_unnecessary(ctx: &LintContext, call: TrimCall) -> bool {
    &&& !static_non_string(ctx, call.receiver)
    &&& !known_non_string(ctx, call.receiver)
    &&& !zod_string_call(ctx, call.receiver)
    &&& call.search_value matches Some(search_value) ==> search_value_safe(
        ctx,
        search_value,
        call.starts_with,
    )
}

pub open spec fn method_name(starts_with: bool) -> Seq<char> {
    if starts_with {
        "startsWith"@
    } else {
        "endsWith"@
    }
}

pub open spec fn replacement_name(starts_with: bool) -> Seq<char> {
    if starts_with {
        "trimStart"@
    } else {
        "trimEnd"@
    }
}

/// The diagnostic for a `trim` at `span`.
pub open spec fn trim_diagnostic(span: Span, starts_with: bool) -> DiagnosticView {
    DiagnosticView {
        message: "Unnecessary `String#trim()` before `String#"@ + method_name(starts_with) + "()`"@,
        help: "Use `String#"@ + replacement_name(starts_with) + "()` instead."@,
        span,
        fix: Some(
            FixView {
                kind: FixKind::Fix,
                span,
                replacement: replacement_name(starts_with),
                message: None,
            },
        ),
    }
}

/// What the rule reports at a node.
pub open spec fn trim_report(ctx: &LintContext, id: NodeId) -> Option<DiagnosticView> {
    match trim_call(ctx, id) {
        Some(call) => if is_unnecessary(ctx, call) {
            Some(trim_diagnostic(call.span, call.starts_with))
        } else {
            None
        },
        None => None,
    }
}

fn no_unnecessary_string_trim_diagnostic(span: Span, starts_with: bool) -> (diagnostic: Diagnostic)
    ensures
        diagnostic@ == trim_diagnostic(span, starts_with),
{
    let method: &str = if starts_with {
        "startsWith"
    } else {
        "endsWith"
    };
    let replacement: &str = if starts_with {
        "trimStart"
    } else {
        "trimEnd"
    };
    Diagnostic {
        message: "Unnecessary `String#trim()` before `String#".to_owned().concat(method).concat(
            "()`",
        ),
        help: "Use `String#".to_owned().concat(replacement).concat("()` instead."),
        span,
        fix: Some(
            Fix {
                kind: FixKind::Fix,
                span,
                replacement: replacement.to_owned(),
                message: None,
            },
        ),
    }
}

impl NoUnnecessaryStringTrim {
    /// Checks the node `node` of `ctx`.
    pub fn run(&self, node: NodeId, ctx: &LintContext) -> (diagnostic: Option<Diagnostic>)
        requires
            ctx.has(node),
        ensures
            reports(diagnostic, trim_report(ctx, node)),
            diagnostic matches Some(diagnostic) ==> span_is_well_formed(
                diagnostic.span,
                ctx.source_text@,
            ),
    {
        let call = match find_trim_call(node, ctx) {
            Some(call) => call,
            None => return None,
        };
        if is_static_non_string(call.receiver, ctx) || is_known_non_string(call.receiver, ctx)
            || is_zod_string_call(call.receiver, ctx) {
            return None;
        }
        match call.search_value {
            Some(search_value) => {
                if !is_search_value_safe(search_value, call.starts_with, ctx) {
                    return None;
                }
            },
            None => {},
        }
        Some(no_unnecessary_string_trim_diagnostic(call.span, call.starts_with))
    }
}

/// Whether `text` is a text that the outer method of a call compares with. A missing argument is
/// the text `undefined`. The text of a primitive that is not a string has no whitespace at its
/// ends.
pub open spec fn compares_with(ctx: &LintContext, call: TrimCall, text: Seq<char>) -> bool {
    match call.search_value {
        Some(search_value) => match ctx.static_string(resolved(ctx, search_value)) {
            Some(value) => text == value,
            None => non_string_primitive(ctx, resolved(ctx, search_value))
                && !starts_with_js_whitespace(text) && !ends_with_js_whitespace(text),
        },
        None => text == "undefined"@,
    }
}

proof fn resolved_is_inner_expression(ctx: &LintContext, id: NodeId)
    requires
        ctx.has(id),
    ensures
        ctx.has(resolved(ctx, id)),
        ctx.spec_inner_expression(resolved(ctx, id)) == resolved(ctx, id),
{
    ctx.lemma_inner_expression(id);
    let inner = ctx.spec_inner_expression(id);
    match ctx.spec_kind(inner) {
        AstKind::IdentifierReference(ident) => match ident.symbol_id {
            Some(symbol_id) => match const_init(ctx.spec_kind(ctx.declaration(symbol_id))) {
                Some(init) => ctx.lemma_inner_expression(init),
                None => {},
            },
            None => {},
        },
        _ => {},
    }
}

/// The change that a report asks for keeps the behaviour: whatever string the receiver is, the
/// comparison gives the same after `trim` and after the method that replaces it.
pub proof fn report_keeps_the_result(
    ctx: &LintContext,
    id: NodeId,
    receiver: Seq<char>,
    text: Seq<char>,
)
    requires
        ctx.has(id),
        trim_report(ctx, id) is Some,
        trim_call(ctx, id) matches Some(call) && compares_with(ctx, call, text),
    ensures
        trim_call(ctx, id) matches Some(call) && matches_at_end(
            trim(receiver),
            text,
            call.starts_with,
        ) == matches_at_end(trim_one_end(receiver, call.starts_with), text, call.starts_with),
{
    let call = trim_call(ctx, id)->0;
    trim_call_is_in_range(ctx, id);
    match call.search_value {
        Some(search_value) => {
            resolved_is_inner_expression(ctx, search_value);
        },
        None => {
            reveal_strlit("undefined");
        },
    }
    other_end_is_not_observable(receiver, text, call.starts_with);
}

proof fn trim_call_is_in_range(ctx: &LintContext, id: NodeId)
    requires
        ctx.has(id),
    ensures
        trim_call(ctx, id) matches Some(call) ==> ctx.has(call.receiver) && (
        call.search_value matches Some(search_value) ==> ctx.has(search_value)),
{
    if let AstKind::CallExpression { callee, arguments, optional } = ctx.spec_kind(id) {
        ctx.lemma_without_parentheses(callee);
        if let AstKind::StaticMemberExpression { object, .. } = ctx.spec_kind(
            ctx.spec_without_parentheses(callee),
        ) {
            ctx.lemma_without_parentheses(object);
            if let AstKind::CallExpression { callee, .. } = ctx.spec_kind(
                ctx.spec_without_parentheses(object),
            ) {
                ctx.lemma_without_parentheses(callee);
            }
        }
    }
}

/// Only `receiver.trim().startsWith()` and `receiver.trim().endsWith()` are reported: `trim` has no
/// arguments, and both methods are named by a plain member.
pub proof fn other_forms_are_not_reported(ctx: &LintContext, id: NodeId)
    requires
        ctx.has(id),
        trim_report(ctx, id) is Some,
    ensures
        ({
            &&& ctx.spec_kind(id) matches AstKind::CallExpression { callee, arguments, optional }
            &&& ctx.spec_kind(ctx.spec_without_parentheses(callee)) matches
                AstKind::StaticMemberExpression {
                object,
                property,
                property_span,
                optional: outer_optional,
            }
            &&& property@ == "startsWith"@ || property@ == "endsWith"@
            &&& ctx.spec_kind(ctx.spec_without_parentheses(object)) matches
                AstKind::CallExpression {
                callee: trim_callee,
                arguments: trim_arguments,
                optional: trim_optional,
            }
            &&& trim_arguments@.len() == 0
            &&& ctx.spec_kind(ctx.spec_without_parentheses(trim_callee)) matches
                AstKind::StaticMemberExpression {
                object: receiver,
                property: trim_property,
                property_span: trim_span,
                optional: trim_member_optional,
            }
            &&& trim_property@ == "trim"@
        }),
{
}

/// A call with a second argument, a spread argument or an optional chain is not reported.
pub proof fn position_spread_and_chain_are_not_reported(ctx: &LintContext, id: NodeId)
    requires
        ctx.has(id),
        ctx.spec_kind(id) matches AstKind::CallExpression { callee, arguments, optional } && (
        arguments@.len() > 1 || has_spread(ctx, arguments@) || ctx.uses_optional_chain(id)),
    ensures
        trim_report(ctx, id) is None,
{
}

/// A receiver that is known not to be a string, or that is a zod schema, is not reported.
pub proof fn other_receivers_are_not_reported(ctx: &LintContext, id: NodeId)
    requires
        ctx.has(id),
        trim_call(ctx, id) matches Some(call) && (static_non_string(ctx, call.receiver)
            || known_non_string(ctx, call.receiver) || zod_string_call(ctx, call.receiver)),
    ensures
        trim_report(ctx, id) is None,
{
}

/// A search value that is not known, or that has whitespace at the other end, is not reported.
pub proof fn other_search_values_are_not_reported(
    ctx: &LintContext,
    id: NodeId,
    search_value: NodeId,
)
    requires
        ctx.has(id),
        trim_call(ctx, id) matches Some(call) && call.search_value == Some(search_value) && match
            ctx.static_string(resolved(ctx, search_value)) {
            Some(text) => !is_safe_text(text, call.starts_with),
            None => !non_string_primitive(ctx, resolved(ctx, search_value)),
        },
    ensures
        trim_report(ctx, id) is None,
{
    trim_call_is_in_range(ctx, id);
    resolved_is_inner_expression(ctx, search_value);
}

/// The method that is called to get the object of a method call: `trim` in
/// `receiver.trim().startsWith()`.
pub open spec fn method_before(ctx: &LintContext, id: NodeId) -> Option<Seq<char>> {
    if let AstKind::CallExpression { callee, arguments, optional } = ctx.spec_kind(id) {
        if let AstKind::StaticMemberExpression {
            object,
            property,
            property_span,
            optional: outer_optional,
        } = ctx.spec_kind(ctx.spec_without_parentheses(callee)) {
            if let AstKind::CallExpression {
                callee: inner_callee,
                arguments: inner_arguments,
                optional: inner_optional,
            } = ctx.spec_kind(ctx.spec_without_parentheses(object)) {
                if let AstKind::StaticMemberExpression {
                    object: receiver,
                    property: inner_property,
                    property_span: inner_span,
                    optional: inner_member_optional,
                } = ctx.spec_kind(ctx.spec_without_parentheses(inner_callee)) {
                    Some(inner_property@)
                } else {
                    None
                }
            } else {
                None
            }
        } else {
            None
        }
    } else {
        None
    }
}

/// Code that already uses the method that a fix puts in is not reported.
pub proof fn replacement_is_not_reported(ctx: &LintContext, id: NodeId, starts_with: bool)
    requires
        ctx.has(id),
        method_before(ctx, id) == Some(replacement_name(starts_with)),
    ensures
        trim_report(ctx, id) is None,
{
    reveal_strlit("trim");
    reveal_strlit("trimStart");
    reveal_strlit("trimEnd");
    assert("trim"@.len() == 4);
}

} // verus!
