//! Runs the rules on source code: parses it, hands the syntax tree to the library, and applies
//! the fixes.
use oxc_allocator::Allocator;
use oxc_ast::AstKind as Syntax;
use oxc_ast::ast::{
    Expression, IdentifierReference, TSLiteral, TSType, TSTypeAnnotation,
    TSTypeOperatorOperator as TypeOperatorSyntax, VariableDeclarationKind as DeclarationSyntax,
};
use oxc_parser::Parser;
use oxc_semantic::{Semantic, SemanticBuilder};
use oxc_span::{GetSpan, SourceType};
use oxc_syntax::operator::{BinaryOperator as BinarySyntax, UnaryOperator as UnarySyntax};
use unicorn_rules::ast::{
    AstKind, AstNode, BinaryOperator, LintContext, NodeId, Span, Symbol, TSTypeOperatorOperator,
    UnaryOperator, VariableDeclarationKind,
};
use unicorn_rules::diagnostic::{Diagnostic, FixKind};
use unicorn_rules::no_unnecessary_string_trim::NoUnnecessaryStringTrim;
use unicorn_rules::prefer_array_from_range::PreferArrayFromRange;
use unicorn_rules::prefer_array_slice::PreferArraySlice;
use unicorn_rules::receiver_kind::{ReceiverKind, TypeResolver};
use unicorn_rules::resolution::Resolution;
use unicorn_rules::static_length::{
    evaluate, get_encoding, static_value, ArithmeticOperator, Number, StaticValue,
};
use unicorn_rules::string_type::expression_string_type;

/// A program as the rules read it.
fn context(semantic: &Semantic<'_>) -> LintContext {
    let nodes = semantic.nodes();
    let scoping = semantic.scoping();
    let mut converted: Vec<AstNode> = nodes
        .iter()
        .map(|node| {
            let parent = nodes.parent_id(node.id());
            AstNode {
                kind: kind(node.kind(), semantic),
                span: span(node.kind().span()),
                parent: if parent == node.id() { None } else { Some(parent.index()) },
                children: Vec::new(),
            }
        })
        .collect();
    for id in 0..converted.len() {
        if let Some(parent) = converted[id].parent {
            converted[parent].children.push(id);
        }
    }
    LintContext {
        source_text: semantic.source_text().to_owned(),
        nodes: converted,
        symbols: scoping
            .symbol_ids()
            .map(|symbol_id| Symbol {
                declaration: scoping.symbol_declaration(symbol_id).index(),
                is_redeclared: !scoping.symbol_redeclarations(symbol_id).is_empty(),
                is_mutated: scoping.symbol_is_mutated(symbol_id),
                is_const_variable: scoping.symbol_flags(symbol_id).is_const_variable(),
                is_type_import: scoping.symbol_flags(symbol_id).is_type_import(),
            })
            .collect(),
        comments: semantic.comments().iter().map(|comment| span(comment.span)).collect(),
    }
}

fn span(span: oxc_span::Span) -> Span {
    Span { start: span.start, end: span.end }
}

fn annotated(annotation: Option<&TSTypeAnnotation<'_>>) -> Option<NodeId> {
    annotation.map(|annotation| annotation.type_annotation.node_id().index())
}

fn expressions(expressions: &[Expression<'_>]) -> Vec<NodeId> {
    expressions.iter().map(|expression| expression.node_id().index()).collect()
}

fn types(types: &[TSType<'_>]) -> Vec<NodeId> {
    types.iter().map(|ts_type| ts_type.node_id().index()).collect()
}

fn identifier(
    ident: &IdentifierReference<'_>,
    semantic: &Semantic<'_>,
) -> unicorn_rules::ast::IdentifierReference {
    let reference = semantic.scoping().get_reference(ident.reference_id());
    unicorn_rules::ast::IdentifierReference {
        name: ident.name.to_string(),
        symbol_id: reference.symbol_id().map(|symbol_id| symbol_id.index()),
        is_global: semantic.is_reference_to_global_variable(ident),
    }
}

fn import_source(id: oxc_syntax::node::NodeId, semantic: &Semantic<'_>) -> String {
    match semantic.nodes().parent_kind(id) {
        Syntax::ImportDeclaration(import) => import.source.value.to_string(),
        _ => String::new(),
    }
}

fn declaration_kind(
    id: oxc_syntax::node::NodeId,
    semantic: &Semantic<'_>,
) -> VariableDeclarationKind {
    match semantic.nodes().parent_kind(id) {
        Syntax::VariableDeclaration(declaration) => match declaration.kind {
            DeclarationSyntax::Var => VariableDeclarationKind::Var,
            DeclarationSyntax::Let => VariableDeclarationKind::Let,
            DeclarationSyntax::Const => VariableDeclarationKind::Const,
            DeclarationSyntax::Using => VariableDeclarationKind::Using,
            DeclarationSyntax::AwaitUsing => VariableDeclarationKind::AwaitUsing,
        },
        _ => VariableDeclarationKind::Var,
    }
}

/// The name of a type comes right after the node that refers to the type.
fn first_child(id: oxc_syntax::node::NodeId, semantic: &Semantic<'_>) -> NodeId {
    let child = oxc_syntax::node::NodeId::from_usize(id.index() + 1);
    assert_eq!(semantic.nodes().parent_id(child), id);
    child.index()
}

fn is_static(member: oxc_span::Span, key: oxc_span::Span, semantic: &Semantic<'_>) -> bool {
    let mut modifiers = String::new();
    let mut start = member.start;
    for comment in semantic.comments() {
        if start <= comment.span.start && comment.span.end <= key.start {
            modifiers.push_str(&semantic.source_text()[start as usize..comment.span.start as usize]);
            modifiers.push(' ');
            start = comment.span.end;
        }
    }
    modifiers.push_str(&semantic.source_text()[start as usize..key.start as usize]);
    modifiers.split_whitespace().any(|word| word == "static")
}

fn unary_operator(operator: UnarySyntax) -> UnaryOperator {
    match operator {
        UnarySyntax::UnaryPlus => UnaryOperator::UnaryPlus,
        UnarySyntax::UnaryNegation => UnaryOperator::UnaryNegation,
        UnarySyntax::LogicalNot => UnaryOperator::LogicalNot,
        UnarySyntax::BitwiseNot => UnaryOperator::BitwiseNot,
        UnarySyntax::Typeof => UnaryOperator::Typeof,
        UnarySyntax::Void => UnaryOperator::Void,
        UnarySyntax::Delete => UnaryOperator::Delete,
    }
}

fn binary_operator(operator: BinarySyntax) -> BinaryOperator {
    match operator {
        BinarySyntax::Equality => BinaryOperator::Equality,
        BinarySyntax::Inequality => BinaryOperator::Inequality,
        BinarySyntax::StrictEquality => BinaryOperator::StrictEquality,
        BinarySyntax::StrictInequality => BinaryOperator::StrictInequality,
        BinarySyntax::LessThan => BinaryOperator::LessThan,
        BinarySyntax::LessEqualThan => BinaryOperator::LessEqualThan,
        BinarySyntax::GreaterThan => BinaryOperator::GreaterThan,
        BinarySyntax::GreaterEqualThan => BinaryOperator::GreaterEqualThan,
        BinarySyntax::Addition => BinaryOperator::Addition,
        BinarySyntax::Subtraction => BinaryOperator::Subtraction,
        BinarySyntax::Multiplication => BinaryOperator::Multiplication,
        BinarySyntax::Division => BinaryOperator::Division,
        BinarySyntax::Remainder => BinaryOperator::Remainder,
        BinarySyntax::Exponential => BinaryOperator::Exponential,
        BinarySyntax::ShiftLeft => BinaryOperator::ShiftLeft,
        BinarySyntax::ShiftRight => BinaryOperator::ShiftRight,
        BinarySyntax::ShiftRightZeroFill => BinaryOperator::ShiftRightZeroFill,
        BinarySyntax::BitwiseOR => BinaryOperator::BitwiseOR,
        BinarySyntax::BitwiseXOR => BinaryOperator::BitwiseXOR,
        BinarySyntax::BitwiseAnd => BinaryOperator::BitwiseAnd,
        BinarySyntax::In => BinaryOperator::In,
        BinarySyntax::Instanceof => BinaryOperator::Instanceof,
    }
}

fn type_operator(operator: TypeOperatorSyntax) -> TSTypeOperatorOperator {
    match operator {
        TypeOperatorSyntax::Keyof => TSTypeOperatorOperator::Keyof,
        TypeOperatorSyntax::Unique => TSTypeOperatorOperator::Unique,
        TypeOperatorSyntax::Readonly => TSTypeOperatorOperator::Readonly,
    }
}

fn kind(syntax: Syntax<'_>, semantic: &Semantic<'_>) -> AstKind {
    match syntax {
        Syntax::BooleanLiteral(_) => AstKind::BooleanLiteral,
        Syntax::NullLiteral(_) => AstKind::NullLiteral,
        Syntax::NumericLiteral(e) => AstKind::NumericLiteral { bits: e.value.to_bits() },
        Syntax::BigIntLiteral(_) => AstKind::BigIntLiteral,
        Syntax::RegExpLiteral(_) => AstKind::RegExpLiteral,
        Syntax::StringLiteral(e) => AstKind::StringLiteral { value: e.value.to_string() },
        Syntax::TemplateLiteral(e) => {
            AstKind::TemplateLiteral { single_quasi: e.single_quasi().map(|text| text.to_string()) }
        }
        Syntax::IdentifierReference(e) => AstKind::IdentifierReference(identifier(e, semantic)),
        Syntax::Super(_) => AstKind::Super,
        Syntax::ThisExpression(_) => AstKind::ThisExpression,
        Syntax::ArrayExpression(e) => AstKind::ArrayExpression {
            elements: e.elements.iter().map(|element| element.node_id().index()).collect(),
        },
        Syntax::SpreadElement(e) => {
            AstKind::SpreadElement { argument: e.argument.node_id().index() }
        }
        Syntax::ArrowFunctionExpression(e) => AstKind::ArrowFunctionExpression {
            has_type_parameters: e.type_parameters.is_some(),
            return_type: annotated(e.return_type.as_deref()),
        },
        Syntax::Function(e) => AstKind::Function {
            has_type_parameters: e.type_parameters.is_some(),
            this_type: annotated(
                e.this_param.as_ref().and_then(|param| param.type_annotation.as_deref()),
            ),
            return_type: annotated(e.return_type.as_deref()),
        },
        Syntax::Class(e) => AstKind::Class {
            heritage: e.heritage_expression().map(|heritage| heritage.node_id().index()),
        },
        Syntax::ObjectExpression(_) => AstKind::ObjectExpression,
        Syntax::BinaryExpression(e) => AstKind::BinaryExpression {
            operator: binary_operator(e.operator),
            left: e.left.node_id().index(),
            right: e.right.node_id().index(),
        },
        Syntax::UnaryExpression(e) => AstKind::UnaryExpression {
            operator: unary_operator(e.operator),
            argument: e.argument.node_id().index(),
        },
        Syntax::CallExpression(e) => AstKind::CallExpression {
            callee: e.callee.node_id().index(),
            arguments: e.arguments.iter().map(|argument| argument.node_id().index()).collect(),
            optional: e.optional,
        },
        Syntax::NewExpression(e) => AstKind::NewExpression {
            callee: e.callee.node_id().index(),
            arguments: e.arguments.iter().map(|argument| argument.node_id().index()).collect(),
        },
        Syntax::StaticMemberExpression(e) => AstKind::StaticMemberExpression {
            object: e.object.node_id().index(),
            property: e.property.name.to_string(),
            property_span: span(e.property.span),
            optional: e.optional,
        },
        Syntax::ComputedMemberExpression(e) => AstKind::ComputedMemberExpression {
            object: e.object.node_id().index(),
            optional: e.optional,
        },
        Syntax::PrivateFieldExpression(e) => AstKind::PrivateFieldExpression {
            object: e.object.node_id().index(),
            optional: e.optional,
        },
        Syntax::ChainExpression(e) => {
            AstKind::ChainExpression { expression: e.expression.node_id().index() }
        }
        Syntax::ConditionalExpression(e) => AstKind::ConditionalExpression {
            consequent: e.consequent.node_id().index(),
            alternate: e.alternate.node_id().index(),
        },
        Syntax::ParenthesizedExpression(e) => {
            AstKind::ParenthesizedExpression { expression: e.expression.node_id().index() }
        }
        Syntax::SequenceExpression(e) => {
            AstKind::SequenceExpression { expressions: expressions(&e.expressions) }
        }
        Syntax::TSAsExpression(e) => AstKind::TSAsExpression {
            expression: e.expression.node_id().index(),
            type_annotation: e.type_annotation.node_id().index(),
        },
        Syntax::TSTypeAssertion(e) => AstKind::TSTypeAssertion {
            expression: e.expression.node_id().index(),
            type_annotation: e.type_annotation.node_id().index(),
        },
        Syntax::TSSatisfiesExpression(e) => {
            AstKind::TSSatisfiesExpression { expression: e.expression.node_id().index() }
        }
        Syntax::TSNonNullExpression(e) => {
            AstKind::TSNonNullExpression { expression: e.expression.node_id().index() }
        }
        Syntax::TSInstantiationExpression(e) => {
            AstKind::TSInstantiationExpression { expression: e.expression.node_id().index() }
        }
        Syntax::UpdateExpression(_) => AstKind::UpdateExpression,
        Syntax::AssignmentExpression(e) => {
            AstKind::AssignmentExpression { left: e.left.node_id().index() }
        }
        Syntax::AssignmentTargetWithDefault(e) => {
            AstKind::AssignmentTargetWithDefault { binding: e.binding.node_id().index() }
        }
        Syntax::AssignmentTargetPropertyProperty(e) => {
            AstKind::AssignmentTargetPropertyProperty { binding: e.binding.node_id().index() }
        }
        Syntax::ArrayAssignmentTarget(_) => AstKind::ArrayAssignmentTarget,
        Syntax::AssignmentTargetRest(_) => AstKind::AssignmentTargetRest,
        Syntax::ObjectProperty(_) => AstKind::ObjectProperty,
        Syntax::StaticBlock(_) => AstKind::StaticBlock,
        Syntax::MethodDefinition(e) => AstKind::MethodDefinition { is_static: is_static(e.span, e.key.span(), semantic) },
        Syntax::PropertyDefinition(e) => AstKind::PropertyDefinition { is_static: is_static(e.span, e.key.span(), semantic) },
        Syntax::AccessorProperty(e) => AstKind::AccessorProperty { is_static: is_static(e.span, e.key.span(), semantic) },
        Syntax::VariableDeclarator(e) => AstKind::VariableDeclarator {
            kind: declaration_kind(e.node_id(), semantic),
            is_binding_identifier: e.id.is_binding_identifier(),
            type_annotation: annotated(e.type_annotation.as_deref()),
            init: e.init.as_ref().map(|init| init.node_id().index()),
        },
        Syntax::FormalParameter(e) => AstKind::FormalParameter {
            is_binding_identifier: e.pattern.is_binding_identifier(),
            type_annotation: annotated(e.type_annotation.as_deref()),
            optional: e.optional,
        },
        Syntax::ImportSpecifier(e) => AstKind::ImportSpecifier {
            imported: e.imported.name().to_string(),
            local: e.local.name.to_string(),
            source: import_source(e.node_id(), semantic),
        },
        Syntax::ImportDefaultSpecifier(e) => AstKind::ImportDefaultSpecifier {
            local: e.local.name.to_string(),
            source: import_source(e.node_id(), semantic),
        },
        Syntax::ImportNamespaceSpecifier(e) => {
            AstKind::ImportNamespaceSpecifier { source: import_source(e.node_id(), semantic) }
        }
        Syntax::TSTypeAliasDeclaration(e) => {
            AstKind::TSTypeAliasDeclaration { type_annotation: e.type_annotation.node_id().index() }
        }
        Syntax::TSTypeParameter(e) => AstKind::TSTypeParameter {
            constraint: e.constraint.as_ref().map(|constraint| constraint.node_id().index()),
        },
        Syntax::TSInterfaceDeclaration(e) => AstKind::TSInterfaceDeclaration {
            extends: e.extends.iter().map(|heritage| first_child(heritage.node_id(), semantic)).collect(),
        },
        Syntax::TSStringKeyword(_) => AstKind::TSStringKeyword,
        Syntax::TSBigIntKeyword(_) => AstKind::TSBigIntKeyword,
        Syntax::TSBooleanKeyword(_) => AstKind::TSBooleanKeyword,
        Syntax::TSNeverKeyword(_) => AstKind::TSNeverKeyword,
        Syntax::TSNumberKeyword(_) => AstKind::TSNumberKeyword,
        Syntax::TSSymbolKeyword(_) => AstKind::TSSymbolKeyword,
        Syntax::TSVoidKeyword(_) => AstKind::TSVoidKeyword,
        Syntax::TSNullKeyword(_) => AstKind::TSNullKeyword,
        Syntax::TSUndefinedKeyword(_) => AstKind::TSUndefinedKeyword,
        Syntax::TSArrayType(_) => AstKind::TSArrayType,
        Syntax::TSTupleType(_) => AstKind::TSTupleType,
        Syntax::TSTypeLiteral(_) => AstKind::TSTypeLiteral,
        Syntax::TSFunctionType(_) => AstKind::TSFunctionType,
        Syntax::TSConstructorType(_) => AstKind::TSConstructorType,
        Syntax::TSLiteralType(e) => AstKind::TSLiteralType {
            is_string: matches!(e.literal, TSLiteral::StringLiteral(_)),
        },
        Syntax::TSParenthesizedType(e) => {
            AstKind::TSParenthesizedType { type_annotation: e.type_annotation.node_id().index() }
        }
        Syntax::TSTypeOperator(e) => AstKind::TSTypeOperator {
            operator: type_operator(e.operator),
            type_annotation: e.type_annotation.node_id().index(),
        },
        Syntax::TSUnionType(e) => AstKind::TSUnionType { types: types(&e.types) },
        Syntax::TSIntersectionType(e) => AstKind::TSIntersectionType { types: types(&e.types) },
        Syntax::TSTypeReference(e) => {
            AstKind::TSTypeReference { name: first_child(e.node_id(), semantic) }
        }
        _ => AstKind::Other,
    }
}

/// What one operation on two doubles gives, all three by their encodings.
fn calculate(operator: ArithmeticOperator, left: u64, right: u64) -> u64 {
    let (left, right) = (f64::from_bits(left), f64::from_bits(right));
    let value = match operator {
        ArithmeticOperator::Addition => left + right,
        ArithmeticOperator::Subtraction => left - right,
        ArithmeticOperator::Multiplication => left * right,
        ArithmeticOperator::Division => left / right,
        ArithmeticOperator::Remainder => left % right,
        ArithmeticOperator::Exponential => left.powf(right),
    };
    value.to_bits()
}

fn value(number: &Number) -> f64 {
    f64::from_bits(evaluate(number, &calculate))
}

fn with_context<T>(source: &str, check: impl FnOnce(&LintContext) -> T) -> T {
    let allocator = Allocator::default();
    let parsed = Parser::new(&allocator, source, SourceType::ts()).parse();
    assert!(!parsed.panicked, "{source}");
    let semantic = SemanticBuilder::new().with_build_nodes(true).build(&parsed.program).semantic;
    let ctx = context(&semantic);
    assert!(ctx.is_well_formed(), "{source}");
    check(&ctx)
}

fn trim_diagnostics(source: &str) -> Vec<Diagnostic> {
    with_context(source, |ctx| {
        (0..ctx.nodes.len()).filter_map(|id| NoUnnecessaryStringTrim.run(id, ctx)).collect()
    })
}

fn slice_diagnostics(source: &str) -> Vec<Diagnostic> {
    with_context(source, |ctx| {
        (0..ctx.nodes.len()).filter_map(|id| PreferArraySlice.run(id, ctx)).collect()
    })
}

fn range_diagnostics(source: &str) -> Vec<Diagnostic> {
    with_context(source, |ctx| {
        (0..ctx.nodes.len())
            .filter_map(|id| PreferArrayFromRange.run_with(id, ctx, &calculate))
            .collect()
    })
}

fn fixed(source: &str, diagnostics: &[Diagnostic]) -> String {
    let mut fixed = String::new();
    let mut end = 0;
    for diagnostic in diagnostics {
        if let Some(fix) = &diagnostic.fix {
            fixed.push_str(&source[end..fix.span.start as usize]);
            fixed.push_str(&fix.replacement);
            end = fix.span.end as usize;
        }
    }
    fixed.push_str(&source[end..]);
    fixed
}

fn check_rule(
    diagnostics: fn(&str) -> Vec<Diagnostic>,
    pass: Vec<&str>,
    fail: Vec<&str>,
    fix: Vec<(&str, &str)>,
) {
    for source in pass {
        assert_eq!(diagnostics(source).len(), 0, "{source}");
    }
    for source in fail {
        assert_eq!(diagnostics(source).len(), 1, "{source}");
    }
    for (source, expected) in fix {
        assert_eq!(fixed(source, &diagnostics(source)), expected);
    }
}

#[test]
fn no_unnecessary_string_trim_test() {
    let pass = vec![
        r#"import {z} from "zod"; z.string().trim().startsWith("asdf")"#,
        r#"import {z as schema} from "zod"; schema.string().trim().startsWith("asdf")"#,
        r#"import {"z" as schema} from "zod"; schema.string().trim().startsWith("asdf")"#,
        r#"import * as z from "zod"; z.string().trim().endsWith("asdf")"#,
        r#"import {z} from "zod"; (z.string() as unknown).trim().startsWith("-");"#,
        r#"import {z} from "zod"; (z.string() satisfies unknown).trim().startsWith("-");"#,
        r#"import {z} from "zod"; z.string()!.trim().startsWith("-");"#,
        r#"import {z} from "zod"; (<unknown>z.string()).trim().startsWith("-");"#,
        r#"foo.trimStart().startsWith("-")"#,
        r#"foo.trimEnd().endsWith("-")"#,
        r#"foo.trim().includes("-")"#,
        r#"foo.trim().startsWith("-", 1)"#,
        r#"foo.trim().endsWith("-", 1)"#,
        r#"foo.trim(" ").startsWith("-")"#,
        "foo.trim().startsWith(prefix)",
        "foo.trim().endsWith(suffix)",
        r#"foo.trim().startsWith("foo ")"#,
        "foo.trim().startsWith(`foo `)",
        r#"foo.trim().endsWith(" foo")"#,
        "foo.trim().endsWith(` foo`)",
        "const modes = new Set(['foo']); modes.clear(); value.trim().startsWith(modes.size ? 'x' : 'x ')",
        "const modes = new Set(['foo']); modes.clear(); value.trim().endsWith((modes.size && 'x') || suffix)",
        "const object = {value: true}; Object.defineProperty(object, 'value', {get() { return false; }}); value.trim().startsWith(object.value ? 'x' : suffix)",
        "const modes = new Set(['foo']); modes.clear(); value.trim().startsWith((modes.size ? 'x' : 'x ') as string)",
        r#"const prefix = "foo "; foo.trim().startsWith(prefix)"#,
        r#"const suffix = " foo"; foo.trim().endsWith(suffix)"#,
        r#"foo.trim().startsWith("foo" + " ")"#,
        "foo.trim().startsWith(/foo/)",
        r#"foo.trim().endsWith(Symbol("foo"))"#,
        r#"const value = {trim() { return "ok"; }}; value.trim().startsWith("o")"#,
        r#"const value = []; value.trim().startsWith("-")"#,
        r#"const value = 1; value.trim().startsWith("-")"#,
        r#"foo.trim().startsWith("foo " as const)"#,
        "foo.trim().startsWith(...argumentsArray)",
        "foo.trim().endsWith(...argumentsArray)",
        r#"foo.trim().startsWith("-", ...positions)"#,
        r#"foo.trim().endsWith("-", ...positions)"#,
        r#"foo.trim().startsWith?.("-")"#,
        r#"foo.trim().endsWith?.("-")"#,
        r#"foo.trim?.().startsWith("-")"#,
        r#"foo.trim?.().endsWith("-")"#,
        r#"foo?.trim().startsWith("-")"#,
        r#"foo.trim()?.startsWith("-")"#,
        r#"foo?.trim()?.startsWith("-")"#,
        r#"foo?.trim().endsWith("-")"#,
        r#"foo.trim()?.endsWith("-")"#,
        r#"foo?.trim()?.endsWith("-")"#,
        r#"foo?.bar.trim().startsWith("-")"#,
        r#"(foo?.bar).trim().startsWith("-")"#,
        r#"(foo?.bar).baz.trim().startsWith("-")"#,
        r#"foo.trim()["startsWith"]("-")"#,
        r#"foo["trim"]().startsWith("-")"#,
        r#"trim().startsWith("-")"#,
        r#"foo.trim.startsWith("-")"#,
        r#"new foo.trim().startsWith("-")"#,
        r#"function foo(value: number[]) { value.trim().startsWith("-"); }"#,
        r#"interface Token { trim(): Token; startsWith(v: string): boolean } function foo(value: Token) { value.trim().startsWith("-"); }"#,
        r#"class Path { trim() { return this; } startsWith(v: string) { return true; } } function foo(value: Path) { value.trim().startsWith("/"); }"#,
        r#"type Id = number; function foo(value: Id) { value.trim().startsWith("-"); }"#,
        r#"function foo(value: number | boolean) { value.trim().startsWith("-"); }"#,
        r#"interface Token { trim(): Token; startsWith(v: string): boolean } const t = next() as Token; t.trim().startsWith("-")"#,
        r#"interface Token { trim(): Token; startsWith(v: string): boolean } function parse(): Token { return null as any; } parse().trim().startsWith("-")"#,
        r#"function foo(a: number, b: boolean[]) { (c ? a : b).trim().startsWith("-"); }"#,
        r#"function foo(value: number) { (bar(), value).trim().startsWith("-"); }"#,
        r#"interface Base { trim(): Base } interface Token extends Base { startsWith(v: string): boolean } function foo(value: Token) { value.trim().startsWith("-"); }"#,
        r#"class Base {} class Path extends Base { trim() { return this; } } function foo(value: Path) { value.trim().startsWith("/"); }"#,
        "function foo(value: `foo`) { value.trim().startsWith(\"-\"); }",
        r#"function f(v: number & {}) { v.trim().startsWith("-"); }"#,
        r#"function f(v: readonly string[]) { v.trim().startsWith("-"); }"#,
        r#"function f<T extends number>(v: T) { v.trim().startsWith("-"); }"#,
        r#"(foo as number).trim().startsWith("-")"#,
        r#"/a/.trim().startsWith("-")"#,
    ];

    let fail = vec![
        r#"foo.trim().startsWith("-")"#,
        r#"foo.trim().endsWith("-")"#,
        "foo.trim().startsWith()",
        "foo.trim().endsWith()",
        r#"" foo ".trim().startsWith("f")"#,
        r#"" foo ".trim().endsWith("o")"#,
        r#"foo.trim().startsWith(" foo")"#,
        r#"foo.trim().endsWith("foo ")"#,
        "foo.trim().startsWith(`foo`)",
        "foo.trim().endsWith(`foo`)",
        r#"const prefix = "foo"; foo.trim().startsWith(prefix)"#,
        r#"const suffix = "foo"; foo.trim().endsWith(suffix)"#,
        r#"foo.trim().startsWith("foo" + "bar")"#,
        r#"import {z} from "other-package"; z.string().trim().startsWith("-")"#,
        r#"import * as z from "other-package"; z.string().trim().startsWith("-")"#,
        r#"import {z} from "zod/mini"; z.string().trim().startsWith("-")"#,
        r#"import z from "zod"; z.string().trim().startsWith("-")"#,
        r#"import {z} from "zod"; z["string"]().trim().startsWith("-")"#,
        r#"import {z} from "zod"; z.string("argument").trim().startsWith("-")"#,
        r#"import {z} from "zod"; z.number().trim().startsWith("-")"#,
        r#"import {z} from "zod"; function foo(z) { z.string().trim().startsWith("-"); }"#,
        r#"import type {z} from "zod"; z.string().trim().startsWith("-");"#,
        r#"import type * as z from "zod"; z.string().trim().endsWith("-");"#,
        r#"import z = require("zod"); z.string().trim().startsWith("-");"#,
        "foo.trim().startsWith(undefined)",
        "foo.trim().endsWith(void 0)",
        "const search = undefined; foo.trim().startsWith(search)",
        "foo.trim().startsWith(123)",
        "foo.trim().endsWith(false)",
        "foo.trim().startsWith(null)",
        "foo.trim().endsWith(1n)",
        r#"(foo).trim().startsWith("-")"#,
        r#"(foo.trim()).startsWith("-")"#,
        r#"if (foo.trim().startsWith("-")) {
                bar();
            }"#,
        r#"foo
                // comment
                .trim/* comment */()
                .startsWith("-")"#,
        r#"function foo(value: string) { value.trim().endsWith("-"); }"#,
        r#"function foo(value: string) { value.trim().startsWith("-" as const); }"#,
        r#"function foo(value: string) { value.trim().endsWith("-" satisfies string); }"#,
        r#"type Text = string; function foo(value: Text) { value.trim().startsWith("-"); }"#,
        r#"type A = A; function foo(value: A) { value.trim().startsWith("-"); }"#,
        r#"function foo(value: string | number) { value.trim().startsWith("-"); }"#,
        "foo.trim().startsWith(-1)",
        r#"function foo(a: string, b: number) { (c ? a : b).trim().startsWith("-"); }"#,
        r#"type A0 = number; type A1 = A0 | A0; type A2 = A1 | A1; type A3 = A2 | A2; type A4 = A3 | A3; type A5 = A4 | A4; type A6 = A5 | A5; type A7 = A6 | A6; type A8 = A7 | A7; function foo(value: A8) { value.trim().startsWith("-"); }"#,
    ];

    let fix = vec![
        (r#"foo.trim().startsWith("-")"#, r#"foo.trimStart().startsWith("-")"#),
        (r#"foo.trim().endsWith("-")"#, r#"foo.trimEnd().endsWith("-")"#),
        ("foo.trim().startsWith()", "foo.trimStart().startsWith()"),
        ("foo.trim().endsWith()", "foo.trimEnd().endsWith()"),
        (r#"" foo ".trim().startsWith("f")"#, r#"" foo ".trimStart().startsWith("f")"#),
        (r#"" foo ".trim().endsWith("o")"#, r#"" foo ".trimEnd().endsWith("o")"#),
        (r#"foo.trim().startsWith(" foo")"#, r#"foo.trimStart().startsWith(" foo")"#),
        (r#"foo.trim().endsWith("foo ")"#, r#"foo.trimEnd().endsWith("foo ")"#),
        ("foo.trim().startsWith(`foo`)", "foo.trimStart().startsWith(`foo`)"),
        ("foo.trim().endsWith(`foo`)", "foo.trimEnd().endsWith(`foo`)"),
        (
            r#"const prefix = "foo"; foo.trim().startsWith(prefix)"#,
            r#"const prefix = "foo"; foo.trimStart().startsWith(prefix)"#,
        ),
        (
            r#"const suffix = "foo"; foo.trim().endsWith(suffix)"#,
            r#"const suffix = "foo"; foo.trimEnd().endsWith(suffix)"#,
        ),
        (r#"foo.trim().startsWith("foo" + "bar")"#, r#"foo.trimStart().startsWith("foo" + "bar")"#),
        (
            r#"import {z} from "other-package"; z.string().trim().startsWith("-")"#,
            r#"import {z} from "other-package"; z.string().trimStart().startsWith("-")"#,
        ),
        (
            r#"import * as z from "other-package"; z.string().trim().startsWith("-")"#,
            r#"import * as z from "other-package"; z.string().trimStart().startsWith("-")"#,
        ),
        (
            r#"import {z} from "zod/mini"; z.string().trim().startsWith("-")"#,
            r#"import {z} from "zod/mini"; z.string().trimStart().startsWith("-")"#,
        ),
        (
            r#"import z from "zod"; z.string().trim().startsWith("-")"#,
            r#"import z from "zod"; z.string().trimStart().startsWith("-")"#,
        ),
        (
            r#"import {z} from "zod"; z["string"]().trim().startsWith("-")"#,
            r#"import {z} from "zod"; z["string"]().trimStart().startsWith("-")"#,
        ),
        (
            r#"import {z} from "zod"; z.string("argument").trim().startsWith("-")"#,
            r#"import {z} from "zod"; z.string("argument").trimStart().startsWith("-")"#,
        ),
        (
            r#"import {z} from "zod"; z.number().trim().startsWith("-")"#,
            r#"import {z} from "zod"; z.number().trimStart().startsWith("-")"#,
        ),
        (
            r#"import {z} from "zod"; function foo(z) { z.string().trim().startsWith("-"); }"#,
            r#"import {z} from "zod"; function foo(z) { z.string().trimStart().startsWith("-"); }"#,
        ),
        (
            r#"import type {z} from "zod"; z.string().trim().startsWith("-");"#,
            r#"import type {z} from "zod"; z.string().trimStart().startsWith("-");"#,
        ),
        (
            r#"import type * as z from "zod"; z.string().trim().endsWith("-");"#,
            r#"import type * as z from "zod"; z.string().trimEnd().endsWith("-");"#,
        ),
        (
            r#"import z = require("zod"); z.string().trim().startsWith("-");"#,
            r#"import z = require("zod"); z.string().trimStart().startsWith("-");"#,
        ),
        ("foo.trim().startsWith(undefined)", "foo.trimStart().startsWith(undefined)"),
        ("foo.trim().endsWith(void 0)", "foo.trimEnd().endsWith(void 0)"),
        (
            "const search = undefined; foo.trim().startsWith(search)",
            "const search = undefined; foo.trimStart().startsWith(search)",
        ),
        ("foo.trim().startsWith(123)", "foo.trimStart().startsWith(123)"),
        ("foo.trim().endsWith(false)", "foo.trimEnd().endsWith(false)"),
        ("foo.trim().startsWith(null)", "foo.trimStart().startsWith(null)"),
        ("foo.trim().endsWith(1n)", "foo.trimEnd().endsWith(1n)"),
        (r#"(foo).trim().startsWith("-")"#, r#"(foo).trimStart().startsWith("-")"#),
        (r#"(foo.trim()).startsWith("-")"#, r#"(foo.trimStart()).startsWith("-")"#),
        (
            r#"if (foo.trim().startsWith("-")) {
                bar();
            }"#,
            r#"if (foo.trimStart().startsWith("-")) {
                bar();
            }"#,
        ),
        (
            r#"foo
                // comment
                .trim/* comment */()
                .startsWith("-")"#,
            r#"foo
                // comment
                .trimStart/* comment */()
                .startsWith("-")"#,
        ),
        (
            r#"function foo(value: string) { value.trim().endsWith("-"); }"#,
            r#"function foo(value: string) { value.trimEnd().endsWith("-"); }"#,
        ),
        (
            r#"function foo(value: string) { value.trim().startsWith("-" as const); }"#,
            r#"function foo(value: string) { value.trimStart().startsWith("-" as const); }"#,
        ),
        (
            r#"function foo(value: string) { value.trim().endsWith("-" satisfies string); }"#,
            r#"function foo(value: string) { value.trimEnd().endsWith("-" satisfies string); }"#,
        ),
        (
            r#"type Text = string; function foo(value: Text) { value.trim().startsWith("-"); }"#,
            r#"type Text = string; function foo(value: Text) { value.trimStart().startsWith("-"); }"#,
        ),
        (
            r#"type A = A; function foo(value: A) { value.trim().startsWith("-"); }"#,
            r#"type A = A; function foo(value: A) { value.trimStart().startsWith("-"); }"#,
        ),
        (
            r#"function foo(value: string | number) { value.trim().startsWith("-"); }"#,
            r#"function foo(value: string | number) { value.trimStart().startsWith("-"); }"#,
        ),
        ("foo.trim().startsWith(-1)", "foo.trimStart().startsWith(-1)"),
        (
            r#"function foo(a: string, b: number) { (c ? a : b).trim().startsWith("-"); }"#,
            r#"function foo(a: string, b: number) { (c ? a : b).trimStart().startsWith("-"); }"#,
        ),
        (
            r#"type A0 = number; type A1 = A0 | A0; type A2 = A1 | A1; type A3 = A2 | A2; type A4 = A3 | A3; type A5 = A4 | A4; type A6 = A5 | A5; type A7 = A6 | A6; type A8 = A7 | A7; function foo(value: A8) { value.trim().startsWith("-"); }"#,
            r#"type A0 = number; type A1 = A0 | A0; type A2 = A1 | A1; type A3 = A2 | A2; type A4 = A3 | A3; type A5 = A4 | A4; type A6 = A5 | A5; type A7 = A6 | A6; type A8 = A7 | A7; function foo(value: A8) { value.trimStart().startsWith("-"); }"#,
        ),
    ];

    check_rule(trim_diagnostics, pass, fail, fix);
}

#[test]
fn prefer_array_from_range_test() {
    let pass = vec![
        "Array.from({length}, (_, index) => index);",
        "Array.from({length: count}, (_, index) => index);",
        "Array.from(Array(length).values());",
        "Array.from(Array(length).entries());",
        "Array.from(Array(length).keys(), index => index);",
        "Array.from(Array(length).keys(), mapFunction);",
        "Array.from(...Array(length).keys());",
        "Array.from?.(Array(length).keys());",
        "Array?.from(Array(length).keys());",
        "NotArray.from(Array(length).keys());",
        "Array.from(array.keys());",
        "Array.from(new Set([1, 2]).keys());",
        "[...Array(length).values()];",
        "[...Array(length).entries()];",
        "[...Array(length).keys(), other];",
        "[other, ...Array(length).keys()];",
        "[...Array[length].keys()];",
        "[...Array(length)['keys']()];",
        "Array['from'](Array(length).keys());",
        "Array.from(Array(length)['keys']());",
        "[...Array(length).keys?.()];",
        "[...Array(length)?.keys()];",
        "[...Array?.(length).keys()];",
        "[...Array(...length).keys()];",
        "[...Array(length, other).keys()];",
        "[...NotArray(length).keys()];",
        "[...new Array(length, other).keys()];",
        "[...new Array(...length).keys()];",
        r#"[...Array("3").keys()];"#,
        r#"[...new Array("3").keys()];"#,
        r#"Array.from(Array("3").keys());"#,
        "[...Array(undefined).keys()];",
        "Array.from(new Array(undefined).keys());",
        "[...Array(null).keys()];",
        "[...Array(true).keys()];",
        "[...Array(1n).keys()];",
        "[...Array(3.5).keys()];",
        "Array.from(Array(3.5).keys());",
        "[...Array(-1).keys()];",
        "[...Array(({value: -1}).value).keys()];",
        "[...Array(2 ** 32).keys()];",
        r#"const length = "3"; [...Array(length).keys()];"#,
        "const length = -1; Array.from(new Array(length).keys());",
        "const object = {value: 3};
            Object.defineProperty(object, 'value', {get() { return -1; }});
            [...Array(object.value).keys()];",
        "for (const index of Array(length).keys()) {}",
        "const Array = value; [...Array(length).keys()];",
        "function foo(Array) { return [...Array(length).keys()]; }",
        "const Array = value; Array.from(Array(length).keys());",
        "function foo(Array) { return Array.from(Array(length).keys()); }",
        "[...NotArray<number>(length).keys()];",
        "[...Array(~0).keys()];",
        r#"[...Array("a" + "b").keys()];"#,
        r#"Array.from(Array(1 + "2").keys());"#,
        "[...Array(void length).keys()];",
        "[...Array(`${3}`).keys()];",
        "[...Array(`3`).keys()];",
        r#"[...Array(-"3").keys()];"#,
        "[...Array(NaN).keys()];",
        "[...Array(1 - 2).keys()];",
        "const length = length; [...Array(length).keys()];",
        "let length = -1; [...Array(length).keys()];",
        r#"let length = "3"; [...Array(length).keys()];"#,
        "const a0 = 1; const a1 = a0 + a0; const a2 = a1 + a1; const a3 = a2 + a2;
            const a4 = a3 + a3; const a5 = a4 + a4; const a6 = a5 + a5; const a7 = a6 + a6;
            const a8 = a7 + a7; [...Array(a8).keys()];",
        "[...Array(1 ** Infinity).keys()];",
        "[...Array(Infinity).keys()];",
        "[...Array(typeof x).keys()];",
        "[...Array(!x).keys()];",
        "[...Array(a === b).keys()];",
        "const a = [1, 2]; [...Array(a.length).keys()];",
    ];

    let fail = vec![
        "[...Array(length).keys()];",
        "[...new Array(length).keys()];",
        "Array.from(Array(length).keys());",
        "Array.from(new Array(length).keys());",
        "Array.from(Array(length).keys(),);",
        "[...Array(count + 1).keys()];",
        "Array.from(Array(count + 1).keys());",
        "[...Array((count + 1)).keys()];",
        "[...Array((count, fallback)).keys()];",
        "Array.from((Array(length).keys()));",
        "[...(Array(length).keys())];",
        "[
                ...Array(
                    length
                ).keys()
            ];",
        "Array.from(
                Array(
                    length
                ).keys()
            );",
        "[...Array(/* keep */ length).keys()];",
        "[.../* keep */Array(length).keys()];",
        "[...Array(length)/* keep */.keys()];",
        "[...Array(length).keys(/* keep */)];",
        "Array.from(/* keep */ Array(length).keys());",
        "[...Array<number>(length).keys()];",
        "[...new Array<number>(length).keys()];",
        "[...Array(length as number).keys()];",
        "[...(Array(length) as number[]).keys()];",
        "[...(new Array(length) as number[]).keys()];",
        "[...(Array(length)!).keys()];",
        "[...(Array(length) satisfies number[]).keys()];",
        "Array.from((Array(length) as number[]).keys());",
        "[...(Array(length).keys() as Iterable<number>)];",
        "[...(Array(length).keys()!)];",
        "[...(<Iterable<number>>Array(length).keys())];",
        "Array.from(Array(length).keys() as Iterable<number>);",
        "function foo() { return[...Array(length).keys()]; }",
        "let length = 3; length = n; [...Array(length).keys()];",
        "var length = 1; var length = -1; [...Array(length).keys()];",
        "[...Array(2 * 3).keys()];",
    ];

    let fix = vec![
        (
            "let length = 3; length = n; [...Array(length).keys()];",
            "let length = 3; length = n; Array.from({length}, (_, index) => index);",
        ),
        (
            "var length = 1; var length = -1; [...Array(length).keys()];",
            "var length = 1; var length = -1; Array.from({length}, (_, index) => index);",
        ),
        ("[...Array(2 * 3).keys()];", "Array.from({length: 2 * 3}, (_, index) => index);"),
        ("[...Array(length).keys()];", "Array.from({length}, (_, index) => index);"),
        ("[...new Array(length).keys()];", "Array.from({length}, (_, index) => index);"),
        ("Array.from(Array(length).keys());", "Array.from({length}, (_, index) => index);"),
        ("Array.from(new Array(length).keys());", "Array.from({length}, (_, index) => index);"),
        ("Array.from(Array(length).keys(),);", "Array.from({length}, (_, index) => index);"),
        ("[...Array(count + 1).keys()];", "Array.from({length: count + 1}, (_, index) => index);"),
        (
            "Array.from(Array(count + 1).keys());",
            "Array.from({length: count + 1}, (_, index) => index);",
        ),
        (
            "[...Array((count + 1)).keys()];",
            "Array.from({length: (count + 1)}, (_, index) => index);",
        ),
        (
            "[...Array((count, fallback)).keys()];",
            "Array.from({length: (count, fallback)}, (_, index) => index);",
        ),
        ("Array.from((Array(length).keys()));", "Array.from({length}, (_, index) => index);"),
        ("[...(Array(length).keys())];", "Array.from({length}, (_, index) => index);"),
        (
            "[
                ...Array(
                    length
                ).keys()
            ];",
            "Array.from({length}, (_, index) => index);",
        ),
        (
            "Array.from(
                Array(
                    length
                ).keys()
            );",
            "Array.from({length}, (_, index) => index);",
        ),
        ("[...Array<number>(length).keys()];", "Array.from({length}, (_, index) => index);"),
        ("[...new Array<number>(length).keys()];", "Array.from({length}, (_, index) => index);"),
        (
            "[...Array(length as number).keys()];",
            "Array.from({length: length as number}, (_, index) => index);",
        ),
        ("[...(Array(length) as number[]).keys()];", "Array.from({length}, (_, index) => index);"),
        (
            "[...(new Array(length) as number[]).keys()];",
            "Array.from({length}, (_, index) => index);",
        ),
        ("[...(Array(length)!).keys()];", "Array.from({length}, (_, index) => index);"),
        (
            "[...(Array(length) satisfies number[]).keys()];",
            "Array.from({length}, (_, index) => index);",
        ),
        (
            "Array.from((Array(length) as number[]).keys());",
            "Array.from({length}, (_, index) => index);",
        ),
        (
            "[...(Array(length).keys() as Iterable<number>)];",
            "Array.from({length}, (_, index) => index);",
        ),
        ("[...(Array(length).keys()!)];", "Array.from({length}, (_, index) => index);"),
        (
            "[...(<Iterable<number>>Array(length).keys())];",
            "Array.from({length}, (_, index) => index);",
        ),
        (
            "Array.from(Array(length).keys() as Iterable<number>);",
            "Array.from({length}, (_, index) => index);",
        ),
        (
            "function foo() { return[...Array(length).keys()]; }",
            "function foo() { return Array.from({length}, (_, index) => index); }",
        ),
        ("[...Array(/* keep */ length).keys()];", "[...Array(/* keep */ length).keys()];"),
        ("[.../* keep */Array(length).keys()];", "[.../* keep */Array(length).keys()];"),
        ("[...Array(length)/* keep */.keys()];", "[...Array(length)/* keep */.keys()];"),
        ("[...Array(length).keys(/* keep */)];", "[...Array(length).keys(/* keep */)];"),
        (
            "Array.from(/* keep */ Array(length).keys());",
            "Array.from(/* keep */ Array(length).keys());",
        ),
    ];

    check_rule(range_diagnostics, pass, fail, fix);
}

#[test]
fn prefer_array_slice_test() {
    let pass = vec![
        "array.splice(index)",
        "array.splice(index, 1)[0]",
        "array.splice(index, deleteCount)[0]",
        "array.splice(index).shift()",
        "array.splice(index).length",
        "array.splice(index).at()",
        "array.splice(index).at(0, extra)",
        "array.splice(index)[0] = value",
        r#"array.splice(index)["length"] = value"#,
        "delete array.splice(index)[0]",
        r#"array["splice"](index)[0]"#,
        "array[splice](index)[0]",
        "array?.splice(index)[0]",
        "array.splice?.(index)[0]",
        "splice(index)[0]",
        "const object = {splice() { return []; }}; object.splice(index)[0]",
        "({splice() { return []; }}).splice(index)[0]",
        "const object = {splice() { return []; }, method() { return this.splice(0)[0]; }}",
        "class Custom { splice() { return []; } method() { return this.splice(0)[0]; } }",
        "class ArraySubclass extends Array { static method() { return this.splice(0)[0]; } }",
        "class Custom { splice() { return []; } } const Array = Custom; class ArraySubclass extends Array {} new ArraySubclass().splice(0)[0]",
        "class Custom { splice() { return []; } } let BaseArray = Array; BaseArray = Custom; class ArraySubclass extends BaseArray {} new ArraySubclass().splice(0)[0]",
        "array.splice(index, 1 as const)[0]",
        "(array as string[])?.splice(index)[0]",
        "declare const set: Set<string>; set.splice(index)[0]",
        "declare const string: string; string.splice(index)[0]",
        "interface Custom { splice(index: number): string[]; } declare const value: Custom; value.splice(index)[0]",
        "interface Custom { splice(index: number): string[]; } declare const value: string[] | Custom; value.splice(index)[0]",
        "interface Custom { splice(index: number): string[]; } declare const value: string[] | Custom; (value as string[] | Custom).splice(index)[0]",
        "interface Custom { splice(index: number): string[]; } function method(this: Custom) { return this.splice(0)[0]; }",
        "class Custom { splice(): string[] { return []; } } const Array = Custom; class ArraySubclass extends Array {} declare const array: ArraySubclass; array.splice(0)[0]",
        "class Custom { splice() { return [1]; } } function getValue(): Custom { return new Custom(); } const value = getValue(); value.splice(0)[0]",
        "interface Custom { splice(index: number): string[]; } function getValue(): string[] | Custom { return []; } const value = getValue(); value.splice(0)[0]",
        "declare const ArrayConstructor: typeof Array; new ArrayConstructor().splice(0)[0]",
        "[array.splice(0)[0]] = values",
        "[...array.splice(0)[0]] = values",
        "({a: array.splice(0)[0]} = object)",
        "[array.splice(0)[0] = 1] = values",
        "array.splice(0)[0]++",
        "array.splice(0)[0] += 1",
        "class Custom { splice() { return []; } } class Sub extends Custom { m() { return super.splice(0)[0]; } }",
        "class ArraySubclass extends Array { static { this.splice(0)[0]; } }",
        "const value = condition ? new Set() : []; value.splice(0)[0]",
        "function foo(value?: string[]) { value.splice(0)[0]; }",
        "function foo<T extends Set<string>>(value: T) { value.splice(0)[0]; }",
        "const getValue = (): Set<string> => new Set(); getValue().splice(0)[0]",
        r#"import type { Set } from "./set"; declare const value: Set; value.splice(0)[0]"#,
        "(0, new Set()).splice(0)[0]",
        "class ArraySubclass extends Array { static value = this.splice(0)[0]; }",
        "class ArraySubclass extends Array { static value = super.splice(0)[0]; }",
        r#"import Set from "x"; declare const v: Set; v.splice(0)[0]"#,
        "interface I extends Set<string> {} declare const v: I; v.splice(0)[0]",
        "const f = function (): Set<string> { return new Set(); }; f().splice(0)[0]",
    ];

    let fail = vec![
        "process.argv.splice(2)[0]",
        "array.splice(index)[0]",
        "array.splice(index)[offset]",
        "array.splice(index).at(0)",
        "object.array.splice(index)[0]",
        "array.splice(/* comment */ index)[0]",
        "const array = []; array.splice(index)[0]",
        "const BaseArray = Array; class ArraySubclass extends BaseArray {} new ArraySubclass().splice(0)[0]",
        "const ArraySubclass = class extends Array {}; new ArraySubclass().splice(0)[0]",
        "class ArraySubclass extends Array {} new ArraySubclass().splice(0)[0]",
        "class ArraySubclass extends Array {} const array = new ArraySubclass(); array.splice(0)[0]",
        "class ArraySubclass extends Array { method() { return this.splice(0)[0]; } }",
        "array.splice(index as number)[0]",
        "array.splice(<number>index)[0]",
        "array.splice(index!)[0]",
        "array.splice(index satisfies number)[0]",
        "(array as string[]).splice(index)[0]",
        "declare const array: string[]; array.splice(index)[0]",
        "type Strings = string[]; declare const array: Strings; array.splice(index)[0]",
        "declare const value: unknown; value.splice(index)[0]",
        "type Value = Value; declare const value: Value; value.splice(index)[0]",
        "const array = array; array.splice(index)[0]",
        "function method(this: string[]) { return this.splice(0)[0]; }",
        "class ArraySubclass extends Array<number> {} declare const array: ArraySubclass; array.splice(0)[0]",
        "const BaseArray = Array; class ArraySubclass extends BaseArray {} declare const array: ArraySubclass; array.splice(0)[0]",
        "class ArraySubclass extends Array<number> {} const array = new ArraySubclass(); array.splice(0)[0]",
        "function getArray(): string[] { return []; } const array = getArray(); array.splice(0)[0]",
        "for (array.splice(0)[0] of values);",
        "(x as any)!.splice(0)[0]",
        "(x satisfies unknown).splice(0)[0]",
        "declare const x: readonly string[]; x.splice(0)[0]",
        "declare const x: [string]; x.splice(0)[0]",
        "function f<T>(): Set<T> { return new Set(); } f().splice(0)[0]",
        "declare const a0: unknown; const a1 = c ? a0 : a0; const a2 = c ? a1 : a1; const a3 = c ? a2 : a2; const a4 = c ? a3 : a3; const a5 = c ? a4 : a4; const a6 = c ? a5 : a5; const a7 = c ? a6 : a6; const a8 = c ? a7 : a7; const set = new Set(); const value = c ? a8 : set; value.splice(0)[0]",
    ];

    let fix = vec![
        ("process.argv.splice(2)[0]", "process.argv.slice(2)[0]"),
        ("array.splice(index)[0]", "array.slice(index)[0]"),
        ("array.splice(index)[offset]", "array.slice(index)[offset]"),
        ("array.splice(index).at(0)", "array.slice(index).at(0)"),
        ("object.array.splice(index)[0]", "object.array.slice(index)[0]"),
        ("array.splice(/* comment */ index)[0]", "array.slice(/* comment */ index)[0]"),
        ("const array = []; array.splice(index)[0]", "const array = []; array.slice(index)[0]"),
        (
            "const BaseArray = Array; class ArraySubclass extends BaseArray {} new ArraySubclass().splice(0)[0]",
            "const BaseArray = Array; class ArraySubclass extends BaseArray {} new ArraySubclass().slice(0)[0]",
        ),
        (
            "const ArraySubclass = class extends Array {}; new ArraySubclass().splice(0)[0]",
            "const ArraySubclass = class extends Array {}; new ArraySubclass().slice(0)[0]",
        ),
        (
            "class ArraySubclass extends Array {} new ArraySubclass().splice(0)[0]",
            "class ArraySubclass extends Array {} new ArraySubclass().slice(0)[0]",
        ),
        (
            "class ArraySubclass extends Array {} const array = new ArraySubclass(); array.splice(0)[0]",
            "class ArraySubclass extends Array {} const array = new ArraySubclass(); array.slice(0)[0]",
        ),
        (
            "class ArraySubclass extends Array { method() { return this.splice(0)[0]; } }",
            "class ArraySubclass extends Array { method() { return this.slice(0)[0]; } }",
        ),
        ("array.splice(index as number)[0]", "array.slice(index as number)[0]"),
        ("array.splice(<number>index)[0]", "array.slice(<number>index)[0]"),
        ("array.splice(index!)[0]", "array.slice(index!)[0]"),
        ("array.splice(index satisfies number)[0]", "array.slice(index satisfies number)[0]"),
        ("(array as string[]).splice(index)[0]", "(array as string[]).slice(index)[0]"),
        (
            "declare const array: string[]; array.splice(index)[0]",
            "declare const array: string[]; array.slice(index)[0]",
        ),
        (
            "type Strings = string[]; declare const array: Strings; array.splice(index)[0]",
            "type Strings = string[]; declare const array: Strings; array.slice(index)[0]",
        ),
        (
            "declare const value: unknown; value.splice(index)[0]",
            "declare const value: unknown; value.slice(index)[0]",
        ),
        (
            "type Value = Value; declare const value: Value; value.splice(index)[0]",
            "type Value = Value; declare const value: Value; value.slice(index)[0]",
        ),
        (
            "const array = array; array.splice(index)[0]",
            "const array = array; array.slice(index)[0]",
        ),
        (
            "function method(this: string[]) { return this.splice(0)[0]; }",
            "function method(this: string[]) { return this.slice(0)[0]; }",
        ),
        (
            "class ArraySubclass extends Array<number> {} declare const array: ArraySubclass; array.splice(0)[0]",
            "class ArraySubclass extends Array<number> {} declare const array: ArraySubclass; array.slice(0)[0]",
        ),
        (
            "const BaseArray = Array; class ArraySubclass extends BaseArray {} declare const array: ArraySubclass; array.splice(0)[0]",
            "const BaseArray = Array; class ArraySubclass extends BaseArray {} declare const array: ArraySubclass; array.slice(0)[0]",
        ),
        (
            "class ArraySubclass extends Array<number> {} const array = new ArraySubclass(); array.splice(0)[0]",
            "class ArraySubclass extends Array<number> {} const array = new ArraySubclass(); array.slice(0)[0]",
        ),
        (
            "function getArray(): string[] { return []; } const array = getArray(); array.splice(0)[0]",
            "function getArray(): string[] { return []; } const array = getArray(); array.slice(0)[0]",
        ),
        ("for (array.splice(0)[0] of values);", "for (array.slice(0)[0] of values);"),
        (
            "declare const a0: unknown; const a1 = c ? a0 : a0; const a2 = c ? a1 : a1; const a3 = c ? a2 : a2; const a4 = c ? a3 : a3; const a5 = c ? a4 : a4; const a6 = c ? a5 : a5; const a7 = c ? a6 : a6; const a8 = c ? a7 : a7; const set = new Set(); const value = c ? a8 : set; value.splice(0)[0]",
            "declare const a0: unknown; const a1 = c ? a0 : a0; const a2 = c ? a1 : a1; const a3 = c ? a2 : a2; const a4 = c ? a3 : a3; const a5 = c ? a4 : a4; const a6 = c ? a5 : a5; const a7 = c ? a6 : a6; const a8 = c ? a7 : a7; const set = new Set(); const value = c ? a8 : set; value.slice(0)[0]",
        ),
    ];

    check_rule(slice_diagnostics, pass, fail, fix);
}

fn only(diagnostics: Vec<Diagnostic>) -> Diagnostic {
    assert_eq!(diagnostics.len(), 1);
    diagnostics.into_iter().next().unwrap()
}

/// The first node of the program with exactly this source text.
fn node_at(ctx: &LintContext, text: &str) -> NodeId {
    ctx.nodes
        .iter()
        .position(|node| {
            &ctx.source_text[node.span.start as usize..node.span.end as usize] == text
                && !matches!(node.kind, AstKind::Other)
        })
        .unwrap()
}

#[test]
fn trim_report_is_complete() {
    let diagnostic = only(trim_diagnostics("foo.trim().startsWith('-')"));
    assert_eq!(diagnostic.message, "Unnecessary `String#trim()` before `String#startsWith()`");
    assert_eq!(diagnostic.help, "Use `String#trimStart()` instead.");
    assert_eq!(diagnostic.span, Span { start: 4, end: 8 });
    let fix = diagnostic.fix.unwrap();
    assert_eq!(fix.kind, FixKind::Fix);
    assert_eq!(fix.span, Span { start: 4, end: 8 });
    assert_eq!(fix.replacement, "trimStart");
    assert_eq!(fix.message, None);

    let diagnostic = only(trim_diagnostics("foo.trim().endsWith('-')"));
    assert_eq!(diagnostic.message, "Unnecessary `String#trim()` before `String#endsWith()`");
    assert_eq!(diagnostic.help, "Use `String#trimEnd()` instead.");
    assert_eq!(diagnostic.fix.unwrap().replacement, "trimEnd");
}

#[test]
fn slice_report_is_complete() {
    let diagnostic = only(slice_diagnostics("array.splice(index)[0]"));
    assert_eq!(
        diagnostic.message,
        "Prefer `Array#slice()` over `Array#splice()` when reading from the returned array."
    );
    assert_eq!(
        diagnostic.help,
        "`Array#splice()` removes the elements from the source array. Use `Array#slice()` to read the elements without changing the source array."
    );
    assert_eq!(diagnostic.span, Span { start: 6, end: 12 });
    let fix = diagnostic.fix.unwrap();
    assert_eq!(fix.kind, FixKind::Suggestion);
    assert_eq!(fix.span, Span { start: 6, end: 12 });
    assert_eq!(fix.replacement, "slice");
    assert_eq!(fix.message.as_deref(), Some("Use `Array#slice()`."));
}

#[test]
fn range_report_is_complete() {
    let diagnostic = only(range_diagnostics("x = [...Array(n).keys()];"));
    assert_eq!(
        diagnostic.message,
        "Prefer `Array.from({length}, …)` when creating range arrays."
    );
    assert_eq!(diagnostic.help, "Use `Array.from({length: …}, (_, index) => index)` instead.");
    assert_eq!(diagnostic.span, Span { start: 4, end: 24 });
    let fix = diagnostic.fix.unwrap();
    assert_eq!(fix.kind, FixKind::Fix);
    assert_eq!(fix.span, Span { start: 4, end: 24 });
    assert_eq!(fix.replacement, "Array.from({length: n}, (_, index) => index)");
    assert_eq!(fix.message, None);
}

#[test]
fn fixed_code_is_not_reported_again() {
    let source = "foo.trim().startsWith('-'); foo.trim().endsWith('-');";
    assert_eq!(trim_diagnostics(source).len(), 2);
    assert!(trim_diagnostics(&fixed(source, &trim_diagnostics(source))).is_empty());
    let source = "array.splice(index)[0]; array.splice(index).at(0);";
    assert_eq!(slice_diagnostics(source).len(), 2);
    assert!(slice_diagnostics(&fixed(source, &slice_diagnostics(source))).is_empty());
    let source = "[...Array(a).keys()]; Array.from(Array(b).keys());";
    assert_eq!(range_diagnostics(source).len(), 2);
    assert!(range_diagnostics(&fixed(source, &range_diagnostics(source))).is_empty());
}

#[test]
fn search_value_needs_no_whitespace_at_the_other_end() {
    for space in ["\\t", "\\v", "\\f", "\\u00a0", "\\ufeff", "\\u3000", "\\n", "\\r", "\\u2028"] {
        assert!(trim_diagnostics(&format!("a.trim().startsWith('x{space}')")).is_empty());
        assert!(trim_diagnostics(&format!("a.trim().endsWith('{space}x')")).is_empty());
        assert_eq!(trim_diagnostics(&format!("a.trim().startsWith('{space}x')")).len(), 1);
        assert_eq!(trim_diagnostics(&format!("a.trim().endsWith('x{space}')")).len(), 1);
    }
    // A zero width space and a next line character are no whitespace of JavaScript.
    for other in ["\\u200b", "\\u0085", "\\u180e"] {
        assert_eq!(trim_diagnostics(&format!("a.trim().startsWith('x{other}')")).len(), 1);
        assert_eq!(trim_diagnostics(&format!("a.trim().endsWith('{other}x')")).len(), 1);
    }
    assert_eq!(trim_diagnostics("a.trim().startsWith('')").len(), 1);
    assert!(trim_diagnostics("a.trim().startsWith(`x${y}`)").is_empty());
    assert!(trim_diagnostics("a.trim().startsWith('x' - 'y')").is_empty());
    assert!(trim_diagnostics("let x = 'a'; a.trim().startsWith(x)").is_empty());
    assert!(trim_diagnostics("const {x} = 'a'; a.trim().startsWith(x)").is_empty());
    assert!(trim_diagnostics("a.trim().startsWith(+1)").is_empty());
    assert!(trim_diagnostics("a.trim().startsWith(void x)").is_empty());
    assert!(trim_diagnostics("let undefined; a.trim().startsWith(undefined)").is_empty());
}

#[test]
fn receiver_that_is_no_string_is_not_reported() {
    for receiver in ["[]", "(() => 1)", "(class {})", "(function () {})", "({})", "/x/", "1n"] {
        assert!(trim_diagnostics(&format!("{receiver}.trim().startsWith('-')")).is_empty());
    }
    for annotation in ["number", "never", "symbol", "void", "null", "undefined", "bigint"] {
        let source = format!("function f(v: {annotation}) {{ v.trim().startsWith('-'); }}");
        assert!(trim_diagnostics(&source).is_empty(), "{source}");
    }
    for annotation in ["string", "'a'", "any", "keyof T", "number & string", "Unknown", "a.b"] {
        let source = format!("function f(v: {annotation}) {{ v.trim().startsWith('-'); }}");
        assert_eq!(trim_diagnostics(&source).len(), 1, "{source}");
    }
    // Only the first declaration is known, so that a second one leaves the type open.
    assert_eq!(
        trim_diagnostics("var v: number; var v: number; v.trim().startsWith('-');").len(),
        1
    );
    assert!(trim_diagnostics("const f = (): number => 1; f().trim().startsWith('-');").is_empty());
    assert_eq!(
        trim_diagnostics("const f = <T>(): number => 1; f().trim().startsWith('-');").len(),
        1
    );
    assert_eq!(
        trim_diagnostics("function f(): number { return 1; } f = g; f().trim().startsWith('-');")
            .len(),
        1
    );
}

#[test]
fn class_heritage_tells_the_kind() {
    let source = "const A = class {}; class B extends (A) {} function f(v: B) { v.trim().endsWith('-'); }";
    assert!(trim_diagnostics(source).is_empty());
    let source = "class B extends String {} function f(v: B) { v.trim().endsWith('-'); }";
    assert_eq!(trim_diagnostics(source).len(), 1);
    let source = "class B extends B {} function f(v: B) { v.trim().endsWith('-'); }";
    assert_eq!(trim_diagnostics(source).len(), 1);
}

#[test]
fn receiver_that_is_no_array_is_not_reported() {
    for receiver in ["'a'", "1", "`a`", "(() => 1)", "(function () {})", "(class {})", "null"] {
        assert!(slice_diagnostics(&format!("{receiver}.splice(0)[0]")).is_empty(), "{receiver}");
    }
    for annotation in ["Map<a, b>", "string", "'a'", "() => void", "new () => a", "{}", "A | B[]"] {
        let source = format!("interface A {{}} declare const v: {annotation}; v.splice(0)[0]");
        assert!(slice_diagnostics(&source).is_empty(), "{source}");
    }
    for annotation in ["any", "ReadonlyArray<a>", "(a[])", "Unknown", "a.b", "Map<a, b> & a[]"] {
        let source = format!("declare const v: {annotation}; v.splice(0)[0]");
        assert_eq!(slice_diagnostics(&source).len(), 1, "{source}");
    }
    assert_eq!(slice_diagnostics("new Array(3).splice(0)[0]").len(), 1);
    assert!(slice_diagnostics("new Foo().splice(0)[0]").is_empty());
    assert_eq!(slice_diagnostics("let v = new Set(); v.splice(0)[0]").len(), 1);
}

#[test]
fn parentheses_do_not_hide_the_use_of_the_result() {
    assert_eq!(slice_diagnostics("(array.splice(index))[0]").len(), 1);
    assert_eq!(slice_diagnostics("((array.splice)(index)).at(0)").len(), 1);
    assert!(slice_diagnostics("delete (array.splice(index)[0])").is_empty());
    assert!(slice_diagnostics("(array.splice(index)[0]) = 1").is_empty());
    assert!(slice_diagnostics("array.splice(index)?.[0]").is_empty());
    assert!(slice_diagnostics("array.splice(index)?.at(0)").is_empty());
    assert!(slice_diagnostics("array.splice(index).at?.(0)").is_empty());
    assert!(slice_diagnostics("array.splice(...index)[0]").is_empty());
    assert!(slice_diagnostics("other[array.splice(index)]").is_empty());
    assert_eq!(slice_diagnostics("x = array.splice(index)[0]").len(), 1);
    assert_eq!(slice_diagnostics("typeof array.splice(index)[0]").len(), 1);
}

#[test]
fn this_and_super_tell_the_kind() {
    let sources = [
        "class A extends Array { m() { return super.splice(0)[0]; } }",
        "class A extends Array { m = () => this.splice(0)[0]; }",
        "class A extends Array { accessor m = this.splice(0)[0]; }",
        "function f() { return this.splice(0)[0]; }",
        "this.splice(0)[0]",
    ];
    for source in sources {
        assert_eq!(slice_diagnostics(source).len(), 1, "{source}");
    }
    let sources = [
        "class A extends Array { static m() { return super.splice(0)[0]; } }",
        "class A extends Array { static accessor m = this.splice(0)[0]; }",
        "class A { m() { return super.splice(0)[0]; } }",
        "const a = { m: function () { return this.splice(0)[0]; } }",
    ];
    for source in sources {
        assert!(slice_diagnostics(source).is_empty(), "{source}");
    }
}

#[test]
fn comments_in_the_length_stay() {
    let source = "[...Array(a /* keep */ + 1).keys()]";
    assert_eq!(
        fixed(source, &range_diagnostics(source)),
        "Array.from({length: a /* keep */ + 1}, (_, index) => index)"
    );
    // The shorthand would drop the parentheses and the comment in them.
    let sources = [
        ("[...Array((/* c */ length)).keys()]", "(/* c */ length)"),
        ("[...Array((length /* c */)).keys()]", "(length /* c */)"),
        ("[...Array(((length // c\n))).keys()]", "((length // c\n))"),
        ("Array.from(new Array((/* c */ length)).keys())", "(/* c */ length)"),
    ];
    for (source, length) in sources {
        assert_eq!(
            fixed(source, &range_diagnostics(source)),
            format!("Array.from({{length: {length}}}, (_, index) => index)")
        );
    }
    let source = "[...Array((length)).keys()] // c";
    assert_eq!(
        fixed(source, &range_diagnostics(source)),
        "Array.from({length}, (_, index) => index) // c"
    );
    // A comment in the parentheses does not save one outside them.
    let source = "[...Array((/* c */ length) /* lost */).keys()]";
    assert!(only(range_diagnostics(source)).fix.is_none());
    // The comment stands right behind the length.
    let source = "[...Array(n/* lost */).keys()]";
    let diagnostic = only(range_diagnostics(source));
    assert!(diagnostic.fix.is_none());
    // A comment behind the range is none of the rule's business.
    let source = "[...Array(n).keys()]/* keep */";
    assert_eq!(
        fixed(source, &range_diagnostics(source)),
        "Array.from({length: n}, (_, index) => index)/* keep */"
    );
}

#[test]
fn fix_stands_apart_from_the_words_around_it() {
    let source = "function* f() { yield[...Array(n).keys()] }";
    assert_eq!(
        fixed(source, &range_diagnostics(source)),
        "function* f() { yield Array.from({length: n}, (_, index) => index) }"
    );
    let source = "x = é=>[...Array(n).keys()]";
    assert_eq!(
        fixed(source, &range_diagnostics(source)),
        "x = é=>Array.from({length: n}, (_, index) => index)"
    );
    let source = "for (const i of[...Array((length)).keys()]) {}";
    assert_eq!(
        fixed(source, &range_diagnostics(source)),
        "for (const i of Array.from({length}, (_, index) => index)) {}"
    );
}

#[test]
fn known_lengths_are_checked() {
    for length in ["0", "4294967295", "2 ** 31", "+3", "-0", "7 % 4", "6 / 2", "5 - 2"] {
        let source = format!("[...Array({length}).keys()]");
        assert_eq!(range_diagnostics(&source).len(), 1, "{source}");
    }
    for length in ["4294967296", "2 ** 0.5", "1 / 2", "-1", "NaN", "1 ** NaN", "1 << 2", "~x"] {
        let source = format!("[...Array({length}).keys()]");
        assert_eq!(range_diagnostics(&source).len(), usize::from(length == "~x"), "{source}");
    }
    for length in ["x < 1", "a in b", "a instanceof b", "delete a", "`${a}`", "undefined"] {
        assert!(range_diagnostics(&format!("[...Array({length}).keys()]")).is_empty());
    }
    // A number that is reassigned is not known.
    assert_eq!(range_diagnostics("let n = -1; n = 3; [...Array(n).keys()]").len(), 1);
    assert!(range_diagnostics("const n = 3.5; [...Array(n as any).keys()]").is_empty());
}

#[test]
fn lengths_that_read_a_member_are_not_reported() {
    let sources = [
        "[...Array(a.b).keys()]",
        "[...Array(a[b]).keys()]",
        "[...Array(a?.b).keys()]",
        "[...Array(f(a.b)).keys()]",
        "[...Array((() => a.b)()).keys()]",
        "const n = f(a.b); [...Array(n).keys()]",
        "const n = m; const m = n; [...Array(n).keys()]",
    ];
    for source in sources {
        assert!(range_diagnostics(source).is_empty(), "{source}");
    }
    let sources = [
        "[...Array(f(a)).keys()]",
        "const n = f(a); [...Array(n).keys()]",
        "const {n} = a.b; [...Array(n).keys()]",
    ];
    for source in sources {
        assert_eq!(range_diagnostics(source).len(), 1, "{source}");
    }
}

#[test]
fn number_without_arithmetic_needs_no_calculation() {
    let check = |length: &str| {
        with_context(&format!("[...Array({length}).keys()]"), |ctx| {
            let id = node_at(ctx, &ctx.source_text);
            let number = PreferArrayFromRange.number(id, ctx).unwrap();
            let bits = get_encoding(&number).unwrap();
            let calculate = |_: ArithmeticOperator, _: u64, _: u64| panic!("{length}");
            assert_eq!(evaluate(&number, &calculate), bits);
            let reported = PreferArrayFromRange.run_with(id, ctx, &calculate).is_some();
            assert_eq!(reported, PreferArrayFromRange.run(id, ctx, bits).is_some());
            (f64::from_bits(bits), reported)
        })
    };
    assert_eq!(check("3"), (3.0, true));
    assert_eq!(check("-1"), (-1.0, false));
    assert_eq!(check("3.5"), (3.5, false));
    assert_eq!(check("- -3"), (3.0, true));
    assert_eq!(check("-0"), (-0.0, true));
    assert_eq!(check("Infinity"), (f64::INFINITY, false));
    assert_eq!(check("-Infinity"), (f64::NEG_INFINITY, false));
    assert!(check("NaN").0.is_nan());
    assert!(!check("-NaN").1);
    with_context("[...Array(-(1 + 2)).keys()]", |ctx| {
        let id = node_at(ctx, &ctx.source_text);
        let number = PreferArrayFromRange.number(id, ctx).unwrap();
        assert_eq!(get_encoding(&number), None);
        assert_eq!(value(&number), -3.0);
    });
}

#[test]
fn undefined_powers_are_not_calculated() {
    for length in ["1 ** NaN", "1 ** Infinity", "(-1) ** -Infinity", "2 ** NaN"] {
        with_context(&format!("[...Array({length}).keys()]"), |ctx| {
            let id = node_at(ctx, &ctx.source_text);
            let number = PreferArrayFromRange.number(id, ctx).unwrap();
            let calculate = |_: ArithmeticOperator, _: u64, _: u64| panic!("{length}");
            assert!(f64::from_bits(evaluate(&number, &calculate)).is_nan());
            assert!(PreferArrayFromRange.run_with(id, ctx, &calculate).is_none());
        });
    }
    with_context("[...Array(NaN ** 0).keys()]", |ctx| {
        let id = node_at(ctx, &ctx.source_text);
        assert_eq!(value(&PreferArrayFromRange.number(id, ctx).unwrap()), 1.0);
    });
}

#[test]
fn programs_of_many_forms_are_well_formed() {
    let sources = [
        "@a.b(c) export class A { @d(e) f = 1; constructor(@g() private h?: i) {} }",
        "[, , a, ...b,]; f<T>(...a, b)!; new F; new (f())<T>(a); a?.b!?.[c]?.(d)!.e;",
        "(<T>a as U)! satisfies V; -+!~typeof void (delete a.b) ** 2; (a, b); f<T>;",
        "#!/usr/bin/env node\n'use strict'; // é\nclass A { #p; m() { return this.#p in a; } }",
        "type A<T> = T extends (infer U)[] ? U : a.b.C<typeof d>; enum E { A = 1 << 2 }",
        "namespace N { export import a = b.c; } declare module 'm' {} abstract class B<T> {}",
        "for await (const {a = b(), ...c} of d) { label: while (1) continue label; } tag`x${y}z`;",
        "import a, {type b as c} from 'd'; export * as e from 'f'; import('g'); export default () => {};",
    ];
    for source in sources {
        with_context(source, |ctx| assert!(ctx.nodes.len() > 1));
    }
}

#[test]
fn comment_does_not_make_a_member_static() {
    let source = "class A extends Array { /* static */ m() { return this.splice(0)[0]; } }";
    assert_eq!(slice_diagnostics(source).len(), 1);
    let source = "class A extends Array { /* a */ static /* b */ m() { return this.splice(0)[0]; } }";
    assert!(slice_diagnostics(source).is_empty());
}

#[test]
fn number_is_given_as_its_calculation() {
    with_context("const n = 3; [...Array(-n * 2).keys()]", |ctx| {
        let id = node_at(ctx, "[...Array(-n * 2).keys()]");
        let number = PreferArrayFromRange.number(id, ctx).unwrap();
        match &number {
            Number::Arithmetic { operator, left, right } => {
                assert_eq!(*operator, ArithmeticOperator::Multiplication);
                assert!(matches!(**left, Number::Negation(_)));
                assert!(matches!(**right, Number::Literal { bits } if bits == 2.0f64.to_bits()));
            }
            _ => panic!("{number:?}"),
        }
        assert_eq!(value(&number), -6.0);
        assert!(PreferArrayFromRange.run(id, ctx, (-6.0f64).to_bits()).is_none());
        assert!(PreferArrayFromRange.run(id, ctx, 6.0f64.to_bits()).is_some());
        assert!(PreferArrayFromRange.number(0, ctx).is_none());
    });
    with_context("[...Array(n).keys()]", |ctx| {
        let id = node_at(ctx, "[...Array(n).keys()]");
        assert!(PreferArrayFromRange.number(id, ctx).is_none());
        assert!(PreferArrayFromRange.run(id, ctx, 3.0f64.to_bits()).is_some());
        assert!(PreferArrayFromRange.run(id, ctx, f64::NAN.to_bits()).is_some());
    });
}

/// Declares `a0` to `a<depth>`, each of them twice the one before.
fn doubling_chain(depth: usize) -> String {
    let mut source = String::from("const a0 = 1;");
    for i in 1..=depth {
        let before = i - 1;
        source.push_str(&format!("const a{i} = a{before} + a{before};"));
    }
    source
}

#[test]
fn budget_is_spent_hop_by_hop() {
    let source = doubling_chain(8) + "[...Array(a4).keys()]";
    with_context(&source, |ctx| {
        let id = ctx
            .nodes
            .iter()
            .rposition(|node| {
                matches!(&node.kind, AstKind::IdentifierReference(ident) if ident.name == "a4")
            })
            .unwrap();
        // The chain takes one hop for `a4`, two for `a3`, and so on down to sixteen for `a0`.
        let mut enough = Resolution { visited: vec![], steps: 40 };
        assert!(matches!(
            static_value(id, ctx, &mut enough),
            Some(StaticValue::Number(number)) if value(&number) == 16.0
        ));
        assert_eq!(enough.steps, 9);
        assert!(enough.visited.is_empty());
        let mut exact = Resolution { visited: vec![], steps: 31 };
        assert!(matches!(
            static_value(id, ctx, &mut exact),
            Some(StaticValue::Number(number)) if value(&number) == 16.0
        ));
        assert_eq!(exact.steps, 0);
        let mut scarce = Resolution { visited: vec![], steps: 30 };
        assert!(matches!(static_value(id, ctx, &mut scarce), Some(StaticValue::Other)));
        assert_eq!(scarce.steps, 0);
    });
    assert_eq!(range_diagnostics(&(doubling_chain(5) + "[...Array(a5).keys()]")).len(), 1);
    assert!(range_diagnostics(&(doubling_chain(6) + "[...Array(a6).keys()]")).is_empty());
}

#[test]
fn larger_budget_changes_nothing_when_hops_are_left_over() {
    let source = "type A = B | B; type B = number; function f(v: A) { v; }";
    with_context(source, |ctx| {
        let id = ctx
            .nodes
            .iter()
            .rposition(|node| matches!(node.kind, AstKind::IdentifierReference(_)))
            .unwrap();
        for steps in [5, 6, 64] {
            let mut state = Resolution { visited: vec![], steps };
            assert_eq!(expression_string_type(id, ctx, &mut state), Some(false));
            assert_eq!(state.steps, steps - 4);
            let mut resolver = TypeResolver::new(ctx);
            resolver.state.steps = steps;
            assert_eq!(resolver.expression_kind(id), ReceiverKind::NotArray);
            // A union that has a member that is no array is left at once.
            assert_eq!(resolver.state.steps, steps - 3);
        }
        let mut state = Resolution { visited: vec![], steps: 3 };
        assert_eq!(expression_string_type(id, ctx, &mut state), None);
    });
}

#[test]
fn import_tells_where_a_name_comes_from() {
    with_context("import {z as schema} from 'zod'; schema; other;", |ctx| {
        let references: Vec<_> = ctx
            .nodes
            .iter()
            .filter_map(|node| match &node.kind {
                AstKind::IdentifierReference(ident) => Some(ident),
                _ => None,
            })
            .collect();
        assert!(ctx.is_import_from_module(references[0], "zod"));
        assert!(!ctx.is_import_from_module(references[0], "zod/mini"));
        assert!(ctx.is_import_symbol(references[0], "zod", "z"));
        assert!(!ctx.is_import_symbol(references[0], "zod", "schema"));
        assert!(!ctx.is_import_from_module(references[1], "zod"));
    });
}
