//! Questions about a node that more than one rule asks.
use vstd::prelude::*;
use vstd::string::StringExecFns;

use crate::ast::{
    enclosed_parts, node_encloses_parts, AstKind, BinaryOperator, IdentifierReference, LintContext,
    NodeId,
};
use crate::text::same_text;

verus! {

/// The parts of a function that tell what a call of it gives: whether it has type parameters,
/// and its return type.
pub struct Signature {
    pub has_type_parameters: bool,
    pub return_type: Option<NodeId>,
}

/// The signature of a function, a function expression or an arrow function.
pub open spec fn signature_of(kind: AstKind) -> Option<Signature> {
    match kind {
        AstKind::Function { has_type_parameters, this_type, return_type } => Some(
            Signature { has_type_parameters, return_type },
        ),
        AstKind::ArrowFunctionExpression { has_type_parameters, return_type } => Some(
            Signature { has_type_parameters, return_type },
        ),
        _ => None,
    }
}

pub fn get_signature(kind: &AstKind) -> (signature: Option<Signature>)
    ensures
        signature == signature_of(*kind),
{
    match kind {
        AstKind::Function { has_type_parameters, return_type, .. }
        | AstKind::ArrowFunctionExpression { has_type_parameters, return_type } => Some(
            Signature { has_type_parameters: *has_type_parameters, return_type: *return_type },
        ),
        _ => None,
    }
}

/// Whether `kind` is a literal other than a template.
pub open spec fn kind_is_literal(kind: AstKind) -> bool {
    match kind {
        AstKind::BooleanLiteral
        | AstKind::NullLiteral
        | AstKind::NumericLiteral { .. }
        | AstKind::BigIntLiteral
        | AstKind::RegExpLiteral
        | AstKind::StringLiteral { .. } => true,
        _ => false,
    }
}

pub fn is_literal(kind: &AstKind) -> (result: bool)
    ensures
        result == kind_is_literal(*kind),
{
    match kind {
        AstKind::BooleanLiteral
        | AstKind::NullLiteral
        | AstKind::NumericLiteral { .. }
        | AstKind::BigIntLiteral
        | AstKind::RegExpLiteral
        | AstKind::StringLiteral { .. } => true,
        _ => false,
    }
}

impl LintContext {
    /// The expression inside all parentheses around it.
    pub open spec fn spec_without_parentheses(&self, id: NodeId) -> NodeId
        decreases self.nodes@.len() - id,
        when self.has(id)
    {
        match self.spec_kind(id) {
            AstKind::ParenthesizedExpression { expression } => self.spec_without_parentheses(
                expression,
            ),
            _ => id,
        }
    }

    /// The source text of an expression encloses that of its parts.
    pub proof fn lemma_enclosed_part(&self, id: NodeId, i: int)
        requires
            self.has(id),
            0 <= i < enclosed_parts(self.spec_kind(id)).len(),
        ensures
            self.spec_span(id).covers(self.spec_span(enclosed_parts(self.spec_kind(id))[i])),
    {
        assert(node_encloses_parts(self.nodes@, id));
    }

    pub proof fn lemma_without_parentheses(&self, id: NodeId)
        requires
            self.has(id),
        ensures
            id <= self.spec_without_parentheses(id),
            self.has(self.spec_without_parentheses(id)),
            !(self.spec_kind(self.spec_without_parentheses(id)) is ParenthesizedExpression),
            self.spec_span(id).covers(self.spec_span(self.spec_without_parentheses(id))),
        decreases self.nodes@.len() - id,
    {
        match self.spec_kind(id) {
            AstKind::ParenthesizedExpression { expression } => {
                self.lemma_enclosed_part(id, 0);
                self.lemma_without_parentheses(expression);
            },
            _ => {},
        }
    }

    pub fn without_parentheses(&self, id: NodeId) -> (inner: NodeId)
        requires
            self.has(id),
        ensures
            inner == self.spec_without_parentheses(id),
            id <= inner,
            self.has(inner),
    {
        proof {
            self.lemma_without_parentheses(id);
        }
        let mut inner: NodeId = id;
        loop
            invariant
                self.has(inner),
                self.spec_without_parentheses(inner) == self.spec_without_parentheses(id),
            ensures
                inner == self.spec_without_parentheses(id),
            decreases self.nodes@.len() - inner,
        {
            match self.kind(inner) {
                AstKind::ParenthesizedExpression { expression } => {
                    inner = *expression;
                },
                _ => {
                    break ;
                },
            }
        }
        inner
    }

    /// The expression inside all parentheses and TypeScript wrappers around it.
    pub open spec fn spec_inner_expression(&self, id: NodeId) -> NodeId
        decreases self.nodes@.len() - id,
        when self.has(id)
    {
        match self.spec_kind(id) {
            AstKind::ParenthesizedExpression { expression } => self.spec_inner_expression(
                expression,
            ),
            AstKind::TSAsExpression { expression, type_annotation } => self.spec_inner_expression(
                expression,
            ),
            AstKind::TSSatisfiesExpression { expression } => self.spec_inner_expression(expression),
            AstKind::TSInstantiationExpression { expression } => self.spec_inner_expression(
                expression,
            ),
            AstKind::TSNonNullExpression { expression } => self.spec_inner_expression(expression),
            AstKind::TSTypeAssertion { expression, type_annotation } => self.spec_inner_expression(
                expression,
            ),
            _ => id,
        }
    }

    pub proof fn lemma_inner_expression(&self, id: NodeId)
        requires
            self.has(id),
        ensures
            id <= self.spec_inner_expression(id),
            self.has(self.spec_inner_expression(id)),
            self.spec_inner_expression(self.spec_inner_expression(id))
                == self.spec_inner_expression(id),
            self.spec_span(id).covers(self.spec_span(self.spec_inner_expression(id))),
        decreases self.nodes@.len() - id,
    {
        match self.spec_kind(id) {
            AstKind::ParenthesizedExpression { expression } => {
                self.lemma_enclosed_part(id, 0);
                self.lemma_inner_expression(expression);
            },
            AstKind::TSAsExpression { expression, type_annotation } => {
                self.lemma_enclosed_part(id, 0);
                self.lemma_inner_expression(expression);
            },
            AstKind::TSSatisfiesExpression { expression } => {
                self.lemma_enclosed_part(id, 0);
                self.lemma_inner_expression(expression);
            },
            AstKind::TSInstantiationExpression { expression } => {
                self.lemma_enclosed_part(id, 0);
                self.lemma_inner_expression(expression);
            },
            AstKind::TSNonNullExpression { expression } => {
                self.lemma_enclosed_part(id, 0);
                self.lemma_inner_expression(expression);
            },
            AstKind::TSTypeAssertion { expression, type_annotation } => {
                self.lemma_enclosed_part(id, 0);
                self.lemma_inner_expression(expression);
            },
            _ => {},
        }
    }

    pub fn get_inner_expression(&self, id: NodeId) -> (inner: NodeId)
        requires
            self.has(id),
        ensures
            inner == self.spec_inner_expression(id),
            id <= inner,
            self.has(inner),
    {
        proof {
            self.lemma_inner_expression(id);
        }
        let mut inner: NodeId = id;
        loop
            invariant
                self.has(inner),
                self.spec_inner_expression(inner) == self.spec_inner_expression(id),
            ensures
                inner == self.spec_inner_expression(id),
            decreases self.nodes@.len() - inner,
        {
            match self.kind(inner) {
                AstKind::ParenthesizedExpression { expression }
                | AstKind::TSAsExpression { expression, .. }
                | AstKind::TSSatisfiesExpression { expression }
                | AstKind::TSInstantiationExpression { expression }
                | AstKind::TSNonNullExpression { expression }
                | AstKind::TSTypeAssertion { expression, .. } => {
                    inner = *expression;
                },
                _ => {
                    break ;
                },
            }
        }
        inner
    }

    /// The expression inside all parentheses, `satisfies` and `!` around it.
    pub open spec fn spec_skip_satisfies_and_non_null(&self, id: NodeId) -> NodeId
        decreases self.nodes@.len() - id,
        when self.has(id)
    {
        match self.spec_kind(id) {
            AstKind::ParenthesizedExpression { expression } =>
                self.spec_skip_satisfies_and_non_null(expression),
            AstKind::TSSatisfiesExpression { expression } => self.spec_skip_satisfies_and_non_null(
                expression,
            ),
            AstKind::TSNonNullExpression { expression } => self.spec_skip_satisfies_and_non_null(
                expression,
            ),
            _ => id,
        }
    }

    pub proof fn lemma_skip_satisfies_and_non_null(&self, id: NodeId)
        requires
            self.has(id),
        ensures
            id <= self.spec_skip_satisfies_and_non_null(id),
            self.has(self.spec_skip_satisfies_and_non_null(id)),
        decreases self.nodes@.len() - id,
    {
        match self.spec_kind(id) {
            AstKind::ParenthesizedExpression { expression } => {
                self.lemma_skip_satisfies_and_non_null(expression);
            },
            AstKind::TSSatisfiesExpression { expression } => {
                self.lemma_skip_satisfies_and_non_null(expression);
            },
            AstKind::TSNonNullExpression { expression } => {
                self.lemma_skip_satisfies_and_non_null(expression);
            },
            _ => {},
        }
    }

    /// Skips the wrappers that do not hide a function initializer.
    pub fn skip_satisfies_and_non_null(&self, id: NodeId) -> (inner: NodeId)
        requires
            self.has(id),
        ensures
            inner == self.spec_skip_satisfies_and_non_null(id),
            id <= inner,
            self.has(inner),
    {
        proof {
            self.lemma_skip_satisfies_and_non_null(id);
        }
        let mut inner: NodeId = id;
        loop
            invariant
                self.has(inner),
                self.spec_skip_satisfies_and_non_null(inner)
                    == self.spec_skip_satisfies_and_non_null(id),
            ensures
                inner == self.spec_skip_satisfies_and_non_null(id),
            decreases self.nodes@.len() - inner,
        {
            match self.kind(inner) {
                AstKind::ParenthesizedExpression { expression }
                | AstKind::TSSatisfiesExpression { expression }
                | AstKind::TSNonNullExpression { expression } => {
                    inner = *expression;
                },
                _ => {
                    break ;
                },
            }
        }
        inner
    }

    /// The first ancestor that is not a pair of parentheses.
    pub open spec fn spec_outermost_paren_parent(&self, id: NodeId) -> Option<NodeId>
        decreases id,
        when self.has(id)
    {
        match self.spec_parent(id) {
            Some(parent) => if self.spec_kind(parent) is ParenthesizedExpression {
                self.spec_outermost_paren_parent(parent)
            } else {
                Some(parent)
            },
            None => None,
        }
    }

    pub fn outermost_paren_parent(&self, id: NodeId) -> (parent: Option<NodeId>)
        requires
            self.has(id),
        ensures
            parent == self.spec_outermost_paren_parent(id),
            parent matches Some(parent) ==> parent < id,
        decreases id,
    {
        match self.parent(id) {
            Some(parent) => match self.kind(parent) {
                AstKind::ParenthesizedExpression { .. } => self.outermost_paren_parent(parent),
                _ => Some(parent),
            },
            None => None,
        }
    }

    /// Whether the calls and member accesses that lead to an expression contain a `?.`.
    pub open spec fn uses_optional_chain(&self, id: NodeId) -> bool
        decreases self.nodes@.len() - id,
        when self.has(id)
    {
        let inner = self.spec_inner_expression(id);
        proof {
            self.lemma_inner_expression(id);
        }
        match self.spec_kind(inner) {
            AstKind::ChainExpression { expression } => self.uses_optional_chain(expression),
            AstKind::CallExpression { callee, arguments, optional } => optional
                || self.uses_optional_chain(callee),
            AstKind::StaticMemberExpression { object, property, property_span, optional } =>
                optional || self.uses_optional_chain(object),
            AstKind::ComputedMemberExpression { object, optional } => optional
                || self.uses_optional_chain(object),
            AstKind::PrivateFieldExpression { object, optional } => optional
                || self.uses_optional_chain(object),
            _ => false,
        }
    }

    pub fn call_uses_optional_chain(&self, id: NodeId) -> (result: bool)
        requires
            self.has(id),
        ensures
            result == self.uses_optional_chain(id),
        decreases self.nodes@.len() - id,
    {
        let inner: NodeId = self.get_inner_expression(id);
        match self.kind(inner) {
            AstKind::ChainExpression { expression } => self.call_uses_optional_chain(*expression),
            AstKind::CallExpression { callee, optional, .. } => *optional
                || self.call_uses_optional_chain(*callee),
            AstKind::StaticMemberExpression { object, optional, .. }
            | AstKind::ComputedMemberExpression { object, optional }
            | AstKind::PrivateFieldExpression { object, optional } => *optional
                || self.call_uses_optional_chain(*object),
            _ => false,
        }
    }

    /// The text of an expression made of string literals, templates without substitutions, and
    /// `+` between such texts.
    pub open spec fn static_string(&self, id: NodeId) -> Option<Seq<char>>
        decreases self.nodes@.len() - id,
        when self.has(id)
    {
        let inner = self.spec_inner_expression(id);
        proof {
            self.lemma_inner_expression(id);
        }
        match self.spec_kind(inner) {
            AstKind::StringLiteral { value } => Some(value@),
            AstKind::TemplateLiteral { single_quasi } => match single_quasi {
                Some(value) => Some(value@),
                None => None,
            },
            AstKind::BinaryExpression { operator, left, right } => if operator
                == BinaryOperator::Addition {
                match (self.static_string(left), self.static_string(right)) {
                    (Some(left), Some(right)) => Some(left + right),
                    _ => None,
                }
            } else {
                None
            },
            _ => None,
        }
    }

    pub fn static_string_value(&self, id: NodeId) -> (value: Option<String>)
        requires
            self.has(id),
        ensures
            match (value, self.static_string(id)) {
                (Some(value), Some(text)) => value@ == text,
                (None, None) => true,
                _ => false,
            },
        decreases self.nodes@.len() - id,
    {
        let inner: NodeId = self.get_inner_expression(id);
        match self.kind(inner) {
            AstKind::StringLiteral { value } => Some(value.clone()),
            AstKind::TemplateLiteral { single_quasi } => match single_quasi {
                Some(value) => Some(value.clone()),
                None => None,
            },
            AstKind::BinaryExpression { operator, left, right } => {
                if *operator != BinaryOperator::Addition {
                    return None;
                }
                match (self.static_string_value(*left), self.static_string_value(*right)) {
                    (Some(left), Some(right)) => Some(left.concat(right.as_str())),
                    _ => None,
                }
            },
            _ => None,
        }
    }

    /// Whether the name is bound by an import from `module`.
    pub open spec fn imported_from(&self, ident: IdentifierReference, module: Seq<char>) -> bool {
        match ident.symbol_id {
            Some(symbol_id) => match self.spec_kind(self.declaration(symbol_id)) {
                AstKind::ImportSpecifier { imported, local, source } => source@ == module,
                AstKind::ImportDefaultSpecifier { local, source } => source@ == module,
                AstKind::ImportNamespaceSpecifier { source } => source@ == module,
                _ => false,
            },
            None => false,
        }
    }

    pub fn is_import_from_module(&self, ident: &IdentifierReference, module: &str) -> (result: bool)
        requires
            self.wf(),
            ident.symbol_id matches Some(symbol_id) ==> symbol_id < self.symbols@.len(),
        ensures
            result == self.imported_from(*ident, module@),
    {
        match ident.symbol_id {
            Some(symbol_id) => match self.kind(self.symbols[symbol_id].declaration) {
                AstKind::ImportSpecifier { source, .. }
                | AstKind::ImportDefaultSpecifier { source, .. }
                | AstKind::ImportNamespaceSpecifier { source } => same_text(
                    source.as_str(),
                    module,
                ),
                _ => false,
            },
            None => false,
        }
    }

    /// Whether the name is bound by an import of the export `name` of `module`.
    pub open spec fn imports_symbol(
        &self,
        ident: IdentifierReference,
        module: Seq<char>,
        name: Seq<char>,
    ) -> bool {
        match ident.symbol_id {
            Some(symbol_id) => match self.spec_kind(self.declaration(symbol_id)) {
                AstKind::ImportSpecifier { imported, local, source } => source@ == module
                    && imported@ == name,
                _ => false,
            },
            None => false,
        }
    }

    pub fn is_import_symbol(&self, ident: &IdentifierReference, module: &str, name: &str) -> (result:
        bool)
        requires
            self.wf(),
            ident.symbol_id matches Some(symbol_id) ==> symbol_id < self.symbols@.len(),
        ensures
            result == self.imports_symbol(*ident, module@, name@),
    {
        match ident.symbol_id {
            Some(symbol_id) => match self.kind(self.symbols[symbol_id].declaration) {
                AstKind::ImportSpecifier { imported, source, .. } => same_text(
                    source.as_str(),
                    module,
                ) && same_text(imported.as_str(), name),
                _ => false,
            },
            None => false,
        }
    }
}

} // verus!
