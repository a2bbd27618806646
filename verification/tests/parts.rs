//! Checks the parts of the library on values that are written down here.
use unicorn_rules::ast::{
    AstKind, AstNode, BinaryOperator, IdentifierReference, LintContext, Span, Symbol, UnaryOperator,
};
use unicorn_rules::ast_util::{get_signature, is_literal};
use unicorn_rules::double::{
    is_array_length, negate, power_is_nan, INFINITY, MAXIMUM_ARRAY_LENGTH, NAN,
};
use unicorn_rules::prefer_array_slice::is_single_argument_call;
use unicorn_rules::receiver_kind::{intersection, known_type_name_kind, union, ReceiverKind};
use unicorn_rules::resolution::{Resolution, MAX_RESOLVE_STEPS};
use unicorn_rules::static_length::{static_length, Number, StaticLength};
use unicorn_rules::string_type::intersection_string_type;
use unicorn_rules::text::{
    ends_with_whitespace, is_js_whitespace, pad_fix_with_token_boundary, same_text, source_range,
    starts_with_whitespace,
};

fn span(start: u32, end: u32) -> Span {
    Span { start, end }
}

fn node(kind: AstKind, parent: Option<usize>, children: Vec<usize>) -> AstNode {
    AstNode { kind, span: span(0, 0), parent, children }
}

fn program(nodes: Vec<AstNode>) -> LintContext {
    LintContext { source_text: String::new(), nodes, symbols: vec![], comments: vec![] }
}

#[test]
fn whitespace_is_that_of_javascript() {
    let expected = [
        0x9, 0xa, 0xb, 0xc, 0xd, 0x20, 0xa0, 0x1680, 0x2000, 0x2001, 0x2002, 0x2003, 0x2004, 0x2005,
        0x2006, 0x2007, 0x2008, 0x2009, 0x200a, 0x2028, 0x2029, 0x202f, 0x205f, 0x3000, 0xfeff,
    ];
    let found: Vec<u32> = (0..=0x10ffff)
        .filter(|&code| char::from_u32(code).is_some_and(is_js_whitespace))
        .collect();
    assert_eq!(found, expected);
}

#[test]
fn whitespace_is_found_at_the_ends() {
    assert!(starts_with_whitespace("\u{3000}é"));
    assert!(!starts_with_whitespace("é "));
    assert!(!starts_with_whitespace(""));
    assert!(ends_with_whitespace("é\u{2028}"));
    assert!(!ends_with_whitespace(" é"));
    assert!(!ends_with_whitespace(""));
    assert!(!ends_with_whitespace("x\u{85}"));
}

#[test]
fn trimming_the_other_end_is_seen_only_by_whitespace() {
    let values = ["", " ", "foo", " foo", "foo ", "\u{feff}foo bar\n", " foo  "];
    for value in values {
        let trimmed = value.trim_matches(is_js_whitespace);
        let start = value.trim_start_matches(is_js_whitespace);
        let end = value.trim_end_matches(is_js_whitespace);
        for search in ["", "f", "foo", " foo", "foo bar", "o"] {
            assert!(!ends_with_whitespace(search));
            assert_eq!(trimmed.starts_with(search), start.starts_with(search));
        }
        for search in ["", "r", "foo", "foo ", "o bar"] {
            assert!(!starts_with_whitespace(search));
            assert_eq!(trimmed.ends_with(search), end.ends_with(search));
        }
    }
    assert!("foo ".trim_start_matches(is_js_whitespace).starts_with("foo "));
    assert!(!"foo ".trim_matches(is_js_whitespace).starts_with("foo "));
}

#[test]
fn texts_are_compared() {
    assert!(same_text("", ""));
    assert!(same_text("été", "été"));
    assert!(!same_text("été", "ete"));
    assert!(!same_text("a", "ab"));
    assert!(!same_text("ab", "a"));
}

#[test]
fn source_is_cut_at_byte_offsets() {
    assert_eq!(source_range("aéz", span(0, 1)), "a");
    assert_eq!(source_range("aéz", span(1, 3)), "é");
    assert_eq!(source_range("aéz", span(1, 4)), "éz");
    assert_eq!(source_range("aéz", span(3, 3)), "");
    assert_eq!(source_range("aéz", span(0, 4)), "aéz");
}

fn pad(source: &str, start: u32, end: u32, replacement: &str) -> String {
    let mut padded = replacement.to_owned();
    pad_fix_with_token_boundary(source, span(start, end), &mut padded);
    padded
}

#[test]
fn replacement_is_kept_apart_from_words() {
    assert_eq!(pad("return[]", 6, 8, "Array"), " Array");
    assert_eq!(pad("return []", 7, 9, "Array"), "Array");
    assert_eq!(pad("[]in x", 0, 2, "a"), "a ");
    assert_eq!(pad("return[]in x", 6, 8, "a"), " a ");
    assert_eq!(pad("return[]in x", 6, 8, "(a)"), "(a)");
    assert_eq!(pad("[]", 0, 2, "a"), "a");
    assert_eq!(pad("$[]_", 1, 3, "a"), " a ");
    assert_eq!(pad("x9[]9", 2, 4, "a"), " a ");
    assert_eq!(pad("-[]+", 1, 3, "a"), "a");
    assert_eq!(pad("é[]日", 2, 4, "a"), " a ");
    assert_eq!(pad("→[]→", 3, 5, "a"), "a");
    assert_eq!(pad("return[]in", 6, 8, ""), "");
}

#[test]
fn union_is_an_array_only_if_all_members_are() {
    use_kinds(union, &[], ReceiverKind::Array);
    use_kinds(union, &[ReceiverKind::Array, ReceiverKind::Array], ReceiverKind::Array);
    use_kinds(union, &[ReceiverKind::Array, ReceiverKind::Unknown], ReceiverKind::Unknown);
    use_kinds(union, &[ReceiverKind::Array, ReceiverKind::NotArray], ReceiverKind::NotArray);
    use_kinds(union, &[ReceiverKind::Unknown, ReceiverKind::NotArray], ReceiverKind::NotArray);
}

#[test]
fn intersection_is_an_array_if_one_member_is() {
    use_kinds(intersection, &[], ReceiverKind::NotArray);
    use_kinds(intersection, &[ReceiverKind::NotArray], ReceiverKind::NotArray);
    let mixed = [ReceiverKind::NotArray, ReceiverKind::Unknown];
    use_kinds(intersection, &mixed, ReceiverKind::Unknown);
    use_kinds(intersection, &[ReceiverKind::Unknown, ReceiverKind::Array], ReceiverKind::Array);
}

/// Checks a list of kinds in both orders, and with its members repeated.
fn use_kinds(
    f: fn(&[ReceiverKind]) -> ReceiverKind,
    kinds: &[ReceiverKind],
    expected: ReceiverKind,
) {
    let reversed: Vec<ReceiverKind> = kinds.iter().rev().copied().collect();
    let doubled: Vec<ReceiverKind> = kinds.iter().chain(kinds).copied().collect();
    assert_eq!(f(kinds), expected);
    assert_eq!(f(&reversed), expected);
    assert_eq!(f(&doubled), expected);
}

#[test]
fn string_intersection_needs_one_string() {
    assert_eq!(intersection_string_type(&[]), Some(false));
    assert_eq!(intersection_string_type(&[Some(false), Some(false)]), Some(false));
    assert_eq!(intersection_string_type(&[Some(false), None]), None);
    assert_eq!(intersection_string_type(&[None, Some(false)]), None);
    assert_eq!(intersection_string_type(&[None, Some(true)]), Some(true));
    assert_eq!(intersection_string_type(&[Some(true), None, Some(false)]), Some(true));
}

#[test]
fn built_in_types_are_known_by_name() {
    for name in ["Array", "ReadonlyArray"] {
        assert_eq!(known_type_name_kind(name), ReceiverKind::Array);
    }
    let others = [
        "Int8Array",
        "Uint8Array",
        "Uint8ClampedArray",
        "Int16Array",
        "Uint16Array",
        "Int32Array",
        "Uint32Array",
        "Float16Array",
        "Float32Array",
        "Float64Array",
        "BigInt64Array",
        "BigUint64Array",
        "Map",
        "ReadonlyMap",
        "WeakMap",
        "Set",
        "ReadonlySet",
        "WeakSet",
        "CanvasRenderingContext2D",
        "OffscreenCanvasRenderingContext2D",
    ];
    for name in others {
        assert_eq!(known_type_name_kind(name), ReceiverKind::NotArray);
    }
    for name in ["", "array", "ArrayBuffer", "Promise", "String"] {
        assert_eq!(known_type_name_kind(name), ReceiverKind::Unknown);
    }
}

#[test]
fn walk_keeps_its_path_and_budget() {
    let mut walk = Resolution::new();
    assert_eq!(walk.steps, MAX_RESOLVE_STEPS);
    assert_eq!(MAX_RESOLVE_STEPS, 64);
    assert!(walk.enter(3));
    assert!(walk.enter(5));
    assert!(!walk.enter(3));
    assert_eq!(walk.visited, [3, 5]);
    assert_eq!(walk.steps, 62);
    assert!(walk.is_visited(5));
    walk.leave();
    assert!(!walk.is_visited(5));
    assert!(walk.enter(5));
    assert_eq!(walk.steps, 61);
    let mut spent = Resolution { visited: vec![], steps: 0 };
    assert!(!spent.enter(1));
    assert_eq!(spent.steps, 0);
    assert!(spent.visited.is_empty());
}

#[test]
fn malformed_programs_are_found() {
    let negation = |argument: usize| AstKind::UnaryExpression {
        operator: UnaryOperator::UnaryNegation,
        argument,
    };
    let literal = || node(AstKind::NumericLiteral { bits: 0 }, Some(0), vec![]);
    assert!(program(vec![]).is_well_formed());
    assert!(program(vec![node(negation(1), None, vec![1]), literal()]).is_well_formed());
    // A part that does not exist, that stands before its owner, or that is no child.
    assert!(!program(vec![node(negation(2), None, vec![1]), literal()]).is_well_formed());
    assert!(!program(vec![node(negation(0), None, vec![1]), literal()]).is_well_formed());
    assert!(!program(vec![node(negation(1), None, vec![]), literal()]).is_well_formed());
    // A child and a parent that do not exist.
    assert!(!program(vec![node(AstKind::Other, None, vec![1])]).is_well_formed());
    assert!(!program(vec![node(AstKind::Other, Some(0), vec![])]).is_well_formed());
    // A name that is bound to a symbol that does not exist.
    let name = |symbol_id| {
        let ident = IdentifierReference { name: "a".to_owned(), symbol_id, is_global: false };
        node(AstKind::IdentifierReference(ident), None, vec![])
    };
    assert!(program(vec![name(None)]).is_well_formed());
    assert!(!program(vec![name(Some(0))]).is_well_formed());
    let symbol = |declaration| Symbol {
        declaration,
        is_redeclared: false,
        is_mutated: false,
        is_const_variable: false,
        is_type_import: false,
    };
    let mut ctx = program(vec![name(Some(0))]);
    ctx.symbols.push(symbol(0));
    assert!(ctx.is_well_formed());
    ctx.symbols.push(symbol(1));
    assert!(!ctx.is_well_formed());
    // Spans that cut a character in two, run backwards, or end behind the source.
    for (start, end, expected) in
        [(0, 3, true), (1, 1, true), (2, 3, false), (0, 2, false), (1, 0, false), (0, 4, false)]
    {
        let mut ctx = program(vec![node(AstKind::Other, None, vec![])]);
        ctx.source_text = "aé".to_owned();
        ctx.nodes[0].span = span(start, end);
        assert_eq!(ctx.is_well_formed(), expected);
    }
    // A part that does not stand inside its expression.
    for (start, end, expected) in [(0, 2, true), (1, 2, true), (0, 3, false), (2, 3, false)] {
        let mut ctx = program(vec![
            node(
                AstKind::CallExpression { callee: 1, arguments: vec![2], optional: false },
                None,
                vec![1, 2],
            ),
            node(AstKind::ThisExpression, Some(0), vec![]),
            node(AstKind::ThisExpression, Some(0), vec![]),
        ]);
        ctx.source_text = "abc".to_owned();
        ctx.nodes[0].span = span(0, 2);
        for part in [1, 2] {
            ctx.nodes[part].span = span(start, end);
            assert_eq!(ctx.is_well_formed(), expected);
            ctx.nodes[part].span = span(0, 1);
        }
    }
    // A comment that is empty, or that ends behind the source.
    for (start, end, expected) in [(0, 3, true), (1, 1, false), (1, 4, false), (0, 2, false)] {
        let mut ctx = program(vec![]);
        ctx.source_text = "aé".to_owned();
        ctx.comments.push(span(start, end));
        assert_eq!(ctx.is_well_formed(), expected);
    }
    // A member name outside its expression, or one that cuts a character in two.
    for (start, end, expected) in [(0, 1, true), (1, 3, true), (0, 4, false), (0, 2, false)] {
        let member = AstKind::StaticMemberExpression {
            object: 1,
            property: "a".to_owned(),
            property_span: span(start, end),
            optional: false,
        };
        let mut ctx = program(vec![
            node(member, None, vec![1]),
            node(AstKind::ThisExpression, Some(0), vec![]),
        ]);
        ctx.source_text = "aéz".to_owned();
        ctx.nodes[0].span = span(0, 3);
        assert_eq!(ctx.is_well_formed(), expected);
    }
}

#[test]
fn wrappers_are_looked_through() {
    let ctx = program(vec![
        node(AstKind::ParenthesizedExpression { expression: 1 }, None, vec![1]),
        node(AstKind::TSNonNullExpression { expression: 2 }, Some(0), vec![2]),
        node(AstKind::TSSatisfiesExpression { expression: 3 }, Some(1), vec![3]),
        node(AstKind::TSInstantiationExpression { expression: 4 }, Some(2), vec![4]),
        node(AstKind::ParenthesizedExpression { expression: 5 }, Some(3), vec![5]),
        node(AstKind::ThisExpression, Some(4), vec![]),
    ]);
    assert!(ctx.is_well_formed());
    assert_eq!(ctx.without_parentheses(0), 1);
    assert_eq!(ctx.without_parentheses(1), 1);
    assert_eq!(ctx.skip_satisfies_and_non_null(0), 3);
    assert_eq!(ctx.get_inner_expression(0), 5);
    assert_eq!(ctx.outermost_paren_parent(5), Some(3));
    assert_eq!(ctx.outermost_paren_parent(1), None);
    assert!(!ctx.call_uses_optional_chain(0));
}

#[test]
fn text_of_a_sum_is_known() {
    let ctx = program(vec![
        node(
            AstKind::BinaryExpression { operator: BinaryOperator::Addition, left: 1, right: 2 },
            None,
            vec![1, 2],
        ),
        node(AstKind::StringLiteral { value: "a".to_owned() }, Some(0), vec![]),
        node(AstKind::TemplateLiteral { single_quasi: Some("b".to_owned()) }, Some(0), vec![]),
        node(AstKind::TemplateLiteral { single_quasi: None }, None, vec![]),
    ]);
    assert!(ctx.is_well_formed());
    assert_eq!(ctx.static_string_value(0).as_deref(), Some("ab"));
    assert_eq!(ctx.static_string_value(2).as_deref(), Some("b"));
    assert_eq!(ctx.static_string_value(3), None);
}

#[test]
fn literals_and_signatures_are_told_apart() {
    assert!(is_literal(&AstKind::RegExpLiteral));
    assert!(is_literal(&AstKind::StringLiteral { value: String::new() }));
    assert!(!is_literal(&AstKind::TemplateLiteral { single_quasi: None }));
    let arrow =
        AstKind::ArrowFunctionExpression { has_type_parameters: true, return_type: Some(7) };
    let signature = get_signature(&arrow).unwrap();
    assert!(signature.has_type_parameters);
    assert_eq!(signature.return_type, Some(7));
    assert!(get_signature(&AstKind::Class { heritage: None }).is_none());
}

#[test]
fn single_argument_is_counted() {
    let ctx = program(vec![
        node(AstKind::SpreadElement { argument: 1 }, None, vec![1]),
        node(AstKind::ThisExpression, Some(0), vec![]),
    ]);
    assert!(ctx.is_well_formed());
    assert!(is_single_argument_call(&vec![1], false, &ctx));
    assert!(!is_single_argument_call(&vec![1], true, &ctx));
    assert!(!is_single_argument_call(&vec![0], false, &ctx));
    assert!(!is_single_argument_call(&vec![1, 1], false, &ctx));
    assert!(!is_single_argument_call(&vec![], false, &ctx));
}

/// Doubles of all sorts: zeros, integers, fractions, subnormal and large numbers, and no numbers.
fn doubles() -> Vec<f64> {
    let mut values = vec![0.0, f64::MIN_POSITIVE, f64::from_bits(1), f64::MAX, f64::INFINITY];
    values.extend([f64::NAN, 0.1, 0.5, 1.5, 3.5, 7.25, 4_294_967_294.5, 4_294_967_295.5, 1e300]);
    for power in 0..80 {
        let value = 2.0f64.powi(power);
        values.extend([value, value + 1.0, value - 1.0, value + 0.5, 1.0 / value, value * 1.25]);
    }
    let negative: Vec<f64> = values.iter().map(|value| -value).collect();
    values.extend(negative);
    values
}

#[test]
fn array_lengths_are_told_by_their_encoding() {
    assert_eq!(MAXIMUM_ARRAY_LENGTH, 4_294_967_295);
    assert!(is_array_length(0.0f64.to_bits()));
    assert!(is_array_length((-0.0f64).to_bits()));
    assert!(is_array_length(4_294_967_295.0f64.to_bits()));
    assert!(!is_array_length(4_294_967_296.0f64.to_bits()));
    assert!(!is_array_length((-1.0f64).to_bits()));
    assert!(!is_array_length(3.5f64.to_bits()));
    for value in doubles() {
        let expected = (0.0..=4_294_967_295.0).contains(&value) && value.fract() == 0.0;
        assert_eq!(is_array_length(value.to_bits()), expected, "{value}");
    }
}

#[test]
fn negation_changes_the_sign_only() {
    assert_eq!(INFINITY, f64::INFINITY.to_bits());
    assert!(f64::from_bits(NAN).is_nan());
    assert!(!is_array_length(NAN));
    assert!(!is_array_length(INFINITY));
    for value in doubles() {
        assert_eq!(negate(value.to_bits()), (-value).to_bits());
        assert_eq!(negate(negate(value.to_bits())), value.to_bits());
        assert!(!(value > 0.0 && is_array_length(negate(value.to_bits()))));
    }
}

#[test]
fn powers_that_are_no_numbers_are_told_by_their_encodings() {
    assert!(power_is_nan(1.0f64.to_bits(), f64::INFINITY.to_bits()));
    assert!(power_is_nan((-1.0f64).to_bits(), f64::NEG_INFINITY.to_bits()));
    assert!(power_is_nan(1.0f64.to_bits(), f64::NAN.to_bits()));
    assert!(!power_is_nan(f64::NAN.to_bits(), 0.0f64.to_bits()));
    let values = doubles();
    for &left in &values {
        for &right in &values {
            let expected = right.is_nan() || (left.abs() == 1.0 && right.is_infinite());
            assert_eq!(power_is_nan(left.to_bits(), right.to_bits()), expected);
        }
    }
}

#[test]
fn literal_length_is_known() {
    let ctx = program(vec![
        node(
            AstKind::UnaryExpression { operator: UnaryOperator::UnaryPlus, argument: 1 },
            None,
            vec![1],
        ),
        node(AstKind::NumericLiteral { bits: 5 }, Some(0), vec![]),
        node(AstKind::StringLiteral { value: "5".to_owned() }, None, vec![]),
        node(AstKind::ThisExpression, None, vec![]),
        node(AstKind::ComputedMemberExpression { object: 5, optional: false }, None, vec![5]),
        node(AstKind::ThisExpression, Some(4), vec![]),
    ]);
    assert!(ctx.is_well_formed());
    assert!(matches!(
        static_length(0, &ctx),
        StaticLength::Number(Number::Literal { bits: 5 })
    ));
    assert!(matches!(static_length(2, &ctx), StaticLength::Invalid));
    assert!(matches!(static_length(3, &ctx), StaticLength::Unknown));
    assert!(matches!(static_length(4, &ctx), StaticLength::Invalid));
}
