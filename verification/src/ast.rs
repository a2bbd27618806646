//! The syntax tree and the name bindings that the rules read.
//!
//! A [`LintContext`] holds one program: its source text, its nodes in the order in which a
//! depth-first walk enters them, its symbols and its comments. Nodes refer to each other by
//! index, and a node always comes before the nodes below it.
use vstd::prelude::*;
use vstd::utf8::{encode_utf8, is_char_boundary};

verus! {

/// The index of a node in [`LintContext::nodes`].
pub type NodeId = usize;

/// The index of a symbol in [`LintContext::symbols`].
pub type SymbolId = usize;

/// A range of byte offsets into the source text.
#[derive(Debug, Clone, Copy, PartialEq, Eq, Structural)]
pub struct Span {
    pub start: u32,
    pub end: u32,
}

impl Span {
    /// Whether `inner` lies inside this span. The two may share an end.
    pub open spec fn covers(self, inner: Span) -> bool {
        self.start <= inner.start && inner.end <= self.end
    }

    /// Calls `oxc_span::Span::contains_inclusive`, which compares the two starts and the two
    /// ends: the answer is whether `inner` lies inside this span. `oxc_span::Span::new` asks for a
    /// start that is not behind the end.
    #[verifier::external_body]
    pub(crate) fn contains_inclusive(self, inner: Span) -> (covers: bool)
        requires
            self.start <= self.end,
            inner.start <= inner.end,
        ensures
            covers == self.covers(inner),
    {
        oxc_span::Span::new(self.start, self.end).contains_inclusive(
            oxc_span::Span::new(inner.start, inner.end),
        )
    }
}

#[derive(Debug, Clone, Copy, PartialEq, Eq, Structural)]
pub enum UnaryOperator {
    UnaryPlus,
    UnaryNegation,
    LogicalNot,
    BitwiseNot,
    Typeof,
    Void,
    Delete,
}

#[derive(Debug, Clone, Copy, PartialEq, Eq, Structural)]
pub enum BinaryOperator {
    Equality,
    Inequality,
    StrictEquality,
    StrictInequality,
    LessThan,
    LessEqualThan,
    GreaterThan,
    GreaterEqualThan,
    Addition,
    Subtraction,
    Multiplication,
    Division,
    Remainder,
    Exponential,
    ShiftLeft,
    ShiftRight,
    ShiftRightZeroFill,
    BitwiseOR,
    BitwiseXOR,
    BitwiseAnd,
    In,
    Instanceof,
}

#[derive(Debug, Clone, Copy, PartialEq, Eq, Structural)]
pub enum VariableDeclarationKind {
    Var,
    Let,
    Const,
    Using,
    AwaitUsing,
}

#[derive(Debug, Clone, Copy, PartialEq, Eq, Structural)]
pub enum TSTypeOperatorOperator {
    Keyof,
    Unique,
    Readonly,
}

/// A use of a name.
#[derive(Debug)]
pub struct IdentifierReference {
    pub name: String,
    /// The symbol that the name is bound to, if the program declares one.
    pub symbol_id: Option<SymbolId>,
    /// Whether the name is a global variable of the host.
    pub is_global: bool,
}

/// A declared name.
#[derive(Debug)]
pub struct Symbol {
    /// The node of the first declaration.
    pub declaration: NodeId,
    /// Whether the name is declared more than once.
    pub is_redeclared: bool,
    /// Whether the program assigns to the name after its declaration.
    pub is_mutated: bool,
    /// Whether the name is bound by `const`.
    pub is_const_variable: bool,
    /// Whether the name is bound by an `import type`.
    pub is_type_import: bool,
}

/// What a node is, and those of its parts that the rules read. A child is given by its id. A
/// type annotation is given by the type in it.
#[allow(inconsistent_fields)]
#[derive(Debug)]
pub enum AstKind {
    BooleanLiteral,
    NullLiteral,
    /// `bits` is the IEEE 754 double-precision encoding of the value.
    NumericLiteral { bits: u64 },
    BigIntLiteral,
    RegExpLiteral,
    StringLiteral { value: String },
    /// `single_quasi` is the text of a template without substitutions.
    TemplateLiteral { single_quasi: Option<String> },
    IdentifierReference(IdentifierReference),
    Super,
    ThisExpression,
    ArrayExpression { elements: Vec<NodeId> },
    SpreadElement { argument: NodeId },
    ArrowFunctionExpression { has_type_parameters: bool, return_type: Option<NodeId> },
    Function { has_type_parameters: bool, this_type: Option<NodeId>, return_type: Option<NodeId> },
    Class { heritage: Option<NodeId> },
    ObjectExpression,
    BinaryExpression { operator: BinaryOperator, left: NodeId, right: NodeId },
    UnaryExpression { operator: UnaryOperator, argument: NodeId },
    CallExpression { callee: NodeId, arguments: Vec<NodeId>, optional: bool },
    NewExpression { callee: NodeId, arguments: Vec<NodeId> },
    StaticMemberExpression {
        object: NodeId,
        property: String,
        property_span: Span,
        optional: bool,
    },
    ComputedMemberExpression { object: NodeId, optional: bool },
    PrivateFieldExpression { object: NodeId, optional: bool },
    ChainExpression { expression: NodeId },
    ConditionalExpression { consequent: NodeId, alternate: NodeId },
    ParenthesizedExpression { expression: NodeId },
    SequenceExpression { expressions: Vec<NodeId> },
    TSAsExpression { expression: NodeId, type_annotation: NodeId },
    TSTypeAssertion { expression: NodeId, type_annotation: NodeId },
    TSSatisfiesExpression { expression: NodeId },
    TSNonNullExpression { expression: NodeId },
    TSInstantiationExpression { expression: NodeId },
    UpdateExpression,
    AssignmentExpression { left: NodeId },
    AssignmentTargetWithDefault { binding: NodeId },
    AssignmentTargetPropertyProperty { binding: NodeId },
    ArrayAssignmentTarget,
    AssignmentTargetRest,
    ObjectProperty,
    StaticBlock,
    MethodDefinition { is_static: bool },
    PropertyDefinition { is_static: bool },
    AccessorProperty { is_static: bool },
    VariableDeclarator {
        kind: VariableDeclarationKind,
        is_binding_identifier: bool,
        type_annotation: Option<NodeId>,
        init: Option<NodeId>,
    },
    FormalParameter {
        is_binding_identifier: bool,
        type_annotation: Option<NodeId>,
        optional: bool,
    },
    ImportSpecifier { imported: String, local: String, source: String },
    ImportDefaultSpecifier { local: String, source: String },
    ImportNamespaceSpecifier { source: String },
    TSTypeAliasDeclaration { type_annotation: NodeId },
    TSTypeParameter { constraint: Option<NodeId> },
    /// `extends` holds the names of the extended types.
    TSInterfaceDeclaration { extends: Vec<NodeId> },
    TSStringKeyword,
    TSBigIntKeyword,
    TSBooleanKeyword,
    TSNeverKeyword,
    TSNumberKeyword,
    TSSymbolKeyword,
    TSVoidKeyword,
    TSNullKeyword,
    TSUndefinedKeyword,
    TSArrayType,
    TSTupleType,
    TSTypeLiteral,
    TSFunctionType,
    TSConstructorType,
    TSLiteralType { is_string: bool },
    TSParenthesizedType { type_annotation: NodeId },
    TSTypeOperator { operator: TSTypeOperatorOperator, type_annotation: NodeId },
    TSUnionType { types: Vec<NodeId> },
    TSIntersectionType { types: Vec<NodeId> },
    TSTypeReference { name: NodeId },
    /// Any other node.
    Other,
}

#[derive(Debug)]
pub struct AstNode {
    pub kind: AstKind,
    pub span: Span,
    /// The node above this one. The program has none.
    pub parent: Option<NodeId>,
    /// All nodes directly below this one, in the order of a walk over the tree.
    pub children: Vec<NodeId>,
}

/// One program, as the rules see it.
#[derive(Debug)]
pub struct LintContext {
    pub source_text: String,
    pub nodes: Vec<AstNode>,
    pub symbols: Vec<Symbol>,
    /// The spans of all comments.
    pub comments: Vec<Span>,
}

/// Whether `child` comes after `id` in a list of `len` nodes.
pub open spec fn is_below(id: NodeId, child: NodeId, len: nat) -> bool {
    id < child < len
}

pub open spec fn is_below_if_some(id: NodeId, child: Option<NodeId>, len: nat) -> bool {
    child matches Some(child) ==> is_below(id, child, len)
}

pub open spec fn all_below(id: NodeId, children: Seq<NodeId>, len: nat) -> bool {
    forall|i: int| 0 <= i < children.len() ==> is_below(id, #[trigger] children[i], len)
}

/// Whether every part of a node stands behind the node, and every symbol it names exists.
pub open spec fn kind_is_well_formed(kind: AstKind, id: NodeId, len: nat, symbols: nat) -> bool {
    match kind {
        AstKind::IdentifierReference(ident) => ident.symbol_id matches Some(symbol_id)
            ==> symbol_id < symbols,
        AstKind::ArrayExpression { elements } => all_below(id, elements@, len),
        AstKind::SpreadElement { argument } => is_below(id, argument, len),
        AstKind::ArrowFunctionExpression { has_type_parameters, return_type } => is_below_if_some(
            id,
            return_type,
            len,
        ),
        AstKind::Function { has_type_parameters, this_type, return_type } => is_below_if_some(
            id,
            this_type,
            len,
        ) && is_below_if_some(id, return_type, len),
        AstKind::Class { heritage } => is_below_if_some(id, heritage, len),
        AstKind::BinaryExpression { operator, left, right } => is_below(id, left, len) && is_below(
            id,
            right,
            len,
        ),
        AstKind::UnaryExpression { operator, argument } => is_below(id, argument, len),
        AstKind::CallExpression { callee, arguments, optional } => is_below(id, callee, len)
            && all_below(id, arguments@, len),
        AstKind::NewExpression { callee, arguments } => is_below(id, callee, len) && all_below(
            id,
            arguments@,
            len,
        ),
        AstKind::StaticMemberExpression { object, property, property_span, optional } => is_below(
            id,
            object,
            len,
        ),
        AstKind::ComputedMemberExpression { object, optional } => is_below(id, object, len),
        AstKind::PrivateFieldExpression { object, optional } => is_below(id, object, len),
        AstKind::ChainExpression { expression } => is_below(id, expression, len),
        AstKind::ConditionalExpression { consequent, alternate } => is_below(id, consequent, len)
            && is_below(id, alternate, len),
        AstKind::ParenthesizedExpression { expression } => is_below(id, expression, len),
        AstKind::SequenceExpression { expressions } => all_below(id, expressions@, len),
        AstKind::TSAsExpression { expression, type_annotation } => is_below(id, expression, len)
            && is_below(id, type_annotation, len),
        AstKind::TSTypeAssertion { expression, type_annotation } => is_below(id, expression, len)
            && is_below(id, type_annotation, len),
        AstKind::TSSatisfiesExpression { expression } => is_below(id, expression, len),
        AstKind::TSNonNullExpression { expression } => is_below(id, expression, len),
        AstKind::TSInstantiationExpression { expression } => is_below(id, expression, len),
        AstKind::AssignmentExpression { left } => is_below(id, left, len),
        AstKind::AssignmentTargetWithDefault { binding } => is_below(id, binding, len),
        AstKind::AssignmentTargetPropertyProperty { binding } => is_below(id, binding, len),
        AstKind::VariableDeclarator { kind, is_binding_identifier, type_annotation, init } =>
            is_below_if_some(id, type_annotation, len) && is_below_if_some(id, init, len),
        AstKind::FormalParameter { is_binding_identifier, type_annotation, optional } =>
            is_below_if_some(id, type_annotation, len),
        AstKind::TSTypeAliasDeclaration { type_annotation } => is_below(id, type_annotation, len),
        AstKind::TSTypeParameter { constraint } => is_below_if_some(id, constraint, len),
        AstKind::TSInterfaceDeclaration { extends } => all_below(id, extends@, len),
        AstKind::TSParenthesizedType { type_annotation } => is_below(id, type_annotation, len),
        AstKind::TSTypeOperator { operator, type_annotation } => is_below(id, type_annotation, len),
        AstKind::TSUnionType { types } => all_below(id, types@, len),
        AstKind::TSIntersectionType { types } => all_below(id, types@, len),
        AstKind::TSTypeReference { name } => is_below(id, name, len),
        _ => true,
    }
}

/// The operands of an operator, and the expression inside parentheses or a TypeScript wrapper.
pub open spec fn operands(kind: AstKind) -> Seq<NodeId> {
    match kind {
        AstKind::BinaryExpression { operator, left, right } => seq![left, right],
        AstKind::UnaryExpression { operator, argument } => seq![argument],
        AstKind::ParenthesizedExpression { expression } => seq![expression],
        AstKind::TSAsExpression { expression, type_annotation } => seq![expression],
        AstKind::TSTypeAssertion { expression, type_annotation } => seq![expression],
        AstKind::TSSatisfiesExpression { expression } => seq![expression],
        AstKind::TSNonNullExpression { expression } => seq![expression],
        AstKind::TSInstantiationExpression { expression } => seq![expression],
        _ => seq![],
    }
}

/// Whether all operands are among the children of a node.
pub open spec fn operands_are_children(kind: AstKind, children: Seq<NodeId>) -> bool {
    forall|i: int| 0 <= i < operands(kind).len() ==> children.contains(#[trigger] operands(kind)[i])
}

/// Whether a span starts and ends between two characters of `source`.
pub open spec fn span_is_well_formed(span: Span, source: Seq<char>) -> bool {
    &&& span.start <= span.end
    &&& is_char_boundary(encode_utf8(source), span.start as int)
    &&& is_char_boundary(encode_utf8(source), span.end as int)
}

/// Whether a comment has a text.
pub open spec fn comment_is_well_formed(comment: Span, source: Seq<char>) -> bool {
    span_is_well_formed(comment, source) && comment.start < comment.end
}

/// Whether the name of a member stands inside the member expression.
pub open spec fn property_is_well_formed(node: AstNode, source: Seq<char>) -> bool {
    node.kind matches AstKind::StaticMemberExpression { object, property, property_span, optional }
        ==> span_is_well_formed(property_span, source) && node.span.covers(property_span)
}

pub open spec fn node_is_well_formed(
    node: AstNode,
    id: NodeId,
    len: nat,
    symbols: nat,
    source: Seq<char>,
) -> bool {
    &&& kind_is_well_formed(node.kind, id, len, symbols)
    &&& node.parent matches Some(parent) ==> parent < id
    &&& all_below(id, node.children@, len)
    &&& operands_are_children(node.kind, node.children@)
    &&& span_is_well_formed(node.span, source)
    &&& property_is_well_formed(node, source)
}

/// The parts of an expression that its source text encloses, as far as the rules rely on it.
pub open spec fn enclosed_parts(kind: AstKind) -> Seq<NodeId> {
    match kind {
        AstKind::ArrayExpression { elements } => elements@,
        AstKind::SpreadElement { argument } => seq![argument],
        AstKind::CallExpression { callee, arguments, optional } => arguments@.push(callee),
        AstKind::NewExpression { callee, arguments } => arguments@.push(callee),
        AstKind::StaticMemberExpression { object, property, property_span, optional } => {
            seq![object]
        },
        _ => operands(kind),
    }
}

/// Whether the span of a node covers those of the parts that its source text encloses.
pub open spec fn node_encloses_parts(nodes: Seq<AstNode>, id: NodeId) -> bool {
    let node = nodes[id as int];
    forall|i: int|
        0 <= i < enclosed_parts(node.kind).len() ==> node.span.covers(
            nodes[#[trigger] enclosed_parts(node.kind)[i] as int].span,
        )
}

impl LintContext {
    /// The invariant of a program: ids stay in range, a node comes before the nodes below it
    /// and after its parent, operands are children, and spans do not cut a character in two. The
    /// name of a member stands inside the member expression, and the parts of calls, arrays and
    /// wrappers stand inside those. No comment is empty.
    pub open spec fn wf(&self) -> bool {
        &&& forall|id: NodeId|
            id < self.nodes@.len() ==> node_is_well_formed(
                #[trigger] self.nodes@[id as int],
                id,
                self.nodes@.len(),
                self.symbols@.len(),
                self.source_text@,
            )
        &&& forall|id: NodeId|
            id < self.nodes@.len() ==> #[trigger] node_encloses_parts(self.nodes@, id)
        &&& forall|symbol_id: SymbolId|
            symbol_id < self.symbols@.len() ==> (#[trigger] self.symbols@[symbol_id as int]).declaration
                < self.nodes@.len()
        &&& forall|i: int|
            0 <= i < self.comments@.len() ==> comment_is_well_formed(
                #[trigger] self.comments@[i],
                self.source_text@,
            )
    }

    /// Whether `id` is a node of a well-formed program.
    pub open spec fn has(&self, id: NodeId) -> bool {
        self.wf() && id < self.nodes@.len()
    }

    pub open spec fn spec_kind(&self, id: NodeId) -> AstKind {
        self.nodes@[id as int].kind
    }

    pub open spec fn spec_span(&self, id: NodeId) -> Span {
        self.nodes@[id as int].span
    }

    pub open spec fn spec_parent(&self, id: NodeId) -> Option<NodeId> {
        self.nodes@[id as int].parent
    }

    pub open spec fn declaration(&self, symbol_id: SymbolId) -> NodeId {
        self.symbols@[symbol_id as int].declaration
    }

    pub fn kind(&self, id: NodeId) -> (kind: &AstKind)
        requires
            self.has(id),
        ensures
            *kind == self.spec_kind(id),
            kind_is_well_formed(*kind, id, self.nodes@.len(), self.symbols@.len()),
            property_is_well_formed(self.nodes@[id as int], self.source_text@),
    {
        &self.nodes[id].kind
    }

    pub fn span(&self, id: NodeId) -> (span: Span)
        requires
            self.has(id),
        ensures
            span == self.spec_span(id),
            span_is_well_formed(span, self.source_text@),
    {
        self.nodes[id].span
    }

    pub fn parent(&self, id: NodeId) -> (parent: Option<NodeId>)
        requires
            self.has(id),
        ensures
            parent == self.spec_parent(id),
            parent matches Some(parent) ==> parent < id,
    {
        self.nodes[id].parent
    }

    fn check_covers(&self, owner: NodeId, part: NodeId) -> (ok: bool)
        requires
            owner < self.nodes@.len(),
            part < self.nodes@.len(),
            self.spec_span(owner).start <= self.spec_span(owner).end,
            self.spec_span(part).start <= self.spec_span(part).end,
        ensures
            ok == self.spec_span(owner).covers(self.spec_span(part)),
    {
        self.nodes[owner].span.contains_inclusive(self.nodes[part].span)
    }

    fn check_covers_all(&self, owner: NodeId, parts: &Vec<NodeId>) -> (ok: bool)
        requires
            owner < self.nodes@.len(),
            all_below(owner, parts@, self.nodes@.len()),
            forall|i: NodeId|
                i < self.nodes@.len() ==> (#[trigger] self.nodes@[i as int]).span.start
                    <= self.nodes@[i as int].span.end,
        ensures
            ok == forall|i: int|
                0 <= i < parts@.len() ==> self.spec_span(owner).covers(
                    self.spec_span(#[trigger] parts@[i]),
                ),
    {
        let mut i: usize = 0;
        while i < parts.len()
            invariant
                i <= parts@.len(),
                owner < self.nodes@.len(),
                all_below(owner, parts@, self.nodes@.len()),
                forall|j: NodeId|
                    j < self.nodes@.len() ==> (#[trigger] self.nodes@[j as int]).span.start
                        <= self.nodes@[j as int].span.end,
                forall|j: int|
                    0 <= j < i ==> self.spec_span(owner).covers(
                        self.spec_span(#[trigger] parts@[j]),
                    ),
            decreases parts@.len() - i,
        {
            if !self.check_covers(owner, parts[i]) {
                assert(!self.spec_span(owner).covers(self.spec_span(parts@[i as int])));
                return false;
            }
            i += 1;
        }
        true
    }

    fn check_enclosed_parts(&self, owner: NodeId) -> (ok: bool)
        requires
            owner < self.nodes@.len(),
            forall|i: NodeId|
                i < self.nodes@.len() ==> node_is_well_formed(
                    #[trigger] self.nodes@[i as int],
                    i,
                    self.nodes@.len(),
                    self.symbols@.len(),
                    self.source_text@,
                ),
        ensures
            ok == node_encloses_parts(self.nodes@, owner),
    {
        let kind = &self.nodes[owner].kind;
        let ghost parts = enclosed_parts(*kind);
        match kind {
            AstKind::ArrayExpression { elements } => self.check_covers_all(owner, elements),
            AstKind::CallExpression { callee, arguments, .. }
            | AstKind::NewExpression { callee, arguments } => {
                let ok = self.check_covers(owner, *callee) && self.check_covers_all(
                    owner,
                    arguments,
                );
                proof {
                    assert(parts.last() == callee);
                    assert forall|i: int| 0 <= i < arguments@.len() implies #[trigger] parts[i]
                        == arguments@[i] by {}
                    assert(node_encloses_parts(self.nodes@, owner) ==> ok) by {
                        if node_encloses_parts(self.nodes@, owner) {
                            assert(self.spec_span(owner).covers(
                                self.spec_span(parts[parts.len() - 1]),
                            ));
                            assert forall|i: int| 0 <= i < arguments@.len() implies self.spec_span(
                                owner,
                            ).covers(self.spec_span(#[trigger] arguments@[i])) by {
                                assert(parts[i] == arguments@[i]);
                            }
                        }
                    }
                }
                ok
            },
            AstKind::BinaryExpression { operator: _, left, right } => {
                let ok = self.check_covers(owner, *left) && self.check_covers(owner, *right);
                assert(parts[0] == left && parts[1] == right);
                ok
            },
            AstKind::SpreadElement { argument: part }
            | AstKind::StaticMemberExpression { object: part, .. }
            | AstKind::UnaryExpression { operator: _, argument: part }
            | AstKind::ParenthesizedExpression { expression: part }
            | AstKind::TSAsExpression { expression: part, .. }
            | AstKind::TSTypeAssertion { expression: part, .. }
            | AstKind::TSSatisfiesExpression { expression: part }
            | AstKind::TSNonNullExpression { expression: part }
            | AstKind::TSInstantiationExpression { expression: part } => {
                let ok = self.check_covers(owner, *part);
                assert(parts[0] == part);
                ok
            },
            _ => true,
        }
    }

    /// Whether this program is well-formed.
    pub fn is_well_formed(&self) -> (well_formed: bool)
        ensures
            well_formed == self.wf(),
    {
        let mut id: usize = 0;
        while id < self.nodes.len()
            invariant
                id <= self.nodes@.len(),
                forall|i: NodeId|
                    i < id ==> node_is_well_formed(
                        #[trigger] self.nodes@[i as int],
                        i,
                        self.nodes@.len(),
                        self.symbols@.len(),
                        self.source_text@,
                    ),
            decreases self.nodes@.len() - id,
        {
            if !check_node(
                &self.nodes[id],
                id,
                self.nodes.len(),
                self.symbols.len(),
                self.source_text.as_str(),
            ) {
                assert(!node_is_well_formed(
                    self.nodes@[id as int],
                    id,
                    self.nodes@.len(),
                    self.symbols@.len(),
                    self.source_text@,
                ));
                return false;
            }
            id += 1;
        }
        let mut owner: usize = 0;
        while owner < self.nodes.len()
            invariant
                owner <= self.nodes@.len(),
                forall|i: NodeId|
                    i < self.nodes@.len() ==> node_is_well_formed(
                        #[trigger] self.nodes@[i as int],
                        i,
                        self.nodes@.len(),
                        self.symbols@.len(),
                        self.source_text@,
                    ),
                forall|i: NodeId| i < owner ==> #[trigger] node_encloses_parts(self.nodes@, i),
            decreases self.nodes@.len() - owner,
        {
            if !self.check_enclosed_parts(owner) {
                return false;
            }
            owner += 1;
        }
        let mut symbol_id: usize = 0;
        while symbol_id < self.symbols.len()
            invariant
                symbol_id <= self.symbols@.len(),
                forall|i: SymbolId|
                    i < symbol_id ==> (#[trigger] self.symbols@[i as int]).declaration
                        < self.nodes@.len(),
            decreases self.symbols@.len() - symbol_id,
        {
            if self.symbols[symbol_id].declaration >= self.nodes.len() {
                assert(!(self.symbols@[symbol_id as int].declaration < self.nodes@.len()));
                return false;
            }
            symbol_id += 1;
        }
        let mut i: usize = 0;
        while i < self.comments.len()
            invariant
                i <= self.comments@.len(),
                forall|j: int|
                    0 <= j < i ==> comment_is_well_formed(
                        #[trigger] self.comments@[j],
                        self.source_text@,
                    ),
            decreases self.comments@.len() - i,
        {
            let comment = self.comments[i];
            if !check_span(comment, self.source_text.as_str()) || comment.start >= comment.end {
                assert(!comment_is_well_formed(self.comments@[i as int], self.source_text@));
                return false;
            }
            i += 1;
        }
        true
    }
}

fn check_below(id: NodeId, child: NodeId, len: usize) -> (ok: bool)
    ensures
        ok == is_below(id, child, len as nat),
{
    id < child && child < len
}

fn check_below_if_some(id: NodeId, child: Option<NodeId>, len: usize) -> (ok: bool)
    ensures
        ok == is_below_if_some(id, child, len as nat),
{
    match child {
        Some(child) => check_below(id, child, len),
        None => true,
    }
}

fn check_all_below(id: NodeId, children: &Vec<NodeId>, len: usize) -> (ok: bool)
    ensures
        ok == all_below(id, children@, len as nat),
{
    let mut i: usize = 0;
    while i < children.len()
        invariant
            i <= children@.len(),
            forall|j: int| 0 <= j < i ==> is_below(id, #[trigger] children@[j], len as nat),
        decreases children@.len() - i,
    {
        if !check_below(id, children[i], len) {
            assert(!is_below(id, children@[i as int], len as nat));
            return false;
        }
        i += 1;
    }
    true
}

fn check_kind(kind: &AstKind, id: NodeId, len: usize, symbols: usize) -> (ok: bool)
    ensures
        ok == kind_is_well_formed(*kind, id, len as nat, symbols as nat),
{
    match kind {
        AstKind::IdentifierReference(ident) => match ident.symbol_id {
            Some(symbol_id) => symbol_id < symbols,
            None => true,
        },
        AstKind::ArrayExpression { elements } => check_all_below(id, elements, len),
        AstKind::SpreadElement { argument } => check_below(id, *argument, len),
        AstKind::ArrowFunctionExpression { has_type_parameters: _, return_type } => {
            check_below_if_some(id, *return_type, len)
        },
        AstKind::Function { has_type_parameters: _, this_type, return_type } => {
            check_below_if_some(id, *this_type, len) && check_below_if_some(id, *return_type, len)
        },
        AstKind::Class { heritage } => check_below_if_some(id, *heritage, len),
        AstKind::BinaryExpression { operator: _, left, right } => {
            check_below(id, *left, len) && check_below(id, *right, len)
        },
        AstKind::UnaryExpression { operator: _, argument } => check_below(id, *argument, len),
        AstKind::CallExpression { callee, arguments, optional: _ } => {
            check_below(id, *callee, len) && check_all_below(id, arguments, len)
        },
        AstKind::NewExpression { callee, arguments } => {
            check_below(id, *callee, len) && check_all_below(id, arguments, len)
        },
        AstKind::StaticMemberExpression { object, property: _, property_span: _, optional: _ } => {
            check_below(id, *object, len)
        },
        AstKind::ComputedMemberExpression { object, optional: _ } => check_below(id, *object, len),
        AstKind::PrivateFieldExpression { object, optional: _ } => check_below(id, *object, len),
        AstKind::ChainExpression { expression } => check_below(id, *expression, len),
        AstKind::ConditionalExpression { consequent, alternate } => {
            check_below(id, *consequent, len) && check_below(id, *alternate, len)
        },
        AstKind::ParenthesizedExpression { expression } => check_below(id, *expression, len),
        AstKind::SequenceExpression { expressions } => check_all_below(id, expressions, len),
        AstKind::TSAsExpression { expression, type_annotation } => {
            check_below(id, *expression, len) && check_below(id, *type_annotation, len)
        },
        AstKind::TSTypeAssertion { expression, type_annotation } => {
            check_below(id, *expression, len) && check_below(id, *type_annotation, len)
        },
        AstKind::TSSatisfiesExpression { expression } => check_below(id, *expression, len),
        AstKind::TSNonNullExpression { expression } => check_below(id, *expression, len),
        AstKind::TSInstantiationExpression { expression } => check_below(id, *expression, len),
        AstKind::AssignmentExpression { left } => check_below(id, *left, len),
        AstKind::AssignmentTargetWithDefault { binding } => check_below(id, *binding, len),
        AstKind::AssignmentTargetPropertyProperty { binding } => check_below(id, *binding, len),
        AstKind::VariableDeclarator { kind: _, is_binding_identifier: _, type_annotation, init } => {
            check_below_if_some(id, *type_annotation, len) && check_below_if_some(id, *init, len)
        },
        AstKind::FormalParameter { is_binding_identifier: _, type_annotation, optional: _ } => {
            check_below_if_some(id, *type_annotation, len)
        },
        AstKind::TSTypeAliasDeclaration { type_annotation } => {
            check_below(id, *type_annotation, len)
        },
        AstKind::TSTypeParameter { constraint } => check_below_if_some(id, *constraint, len),
        AstKind::TSInterfaceDeclaration { extends } => check_all_below(id, extends, len),
        AstKind::TSParenthesizedType { type_annotation } => check_below(id, *type_annotation, len),
        AstKind::TSTypeOperator { operator: _, type_annotation } => {
            check_below(id, *type_annotation, len)
        },
        AstKind::TSUnionType { types } => check_all_below(id, types, len),
        AstKind::TSIntersectionType { types } => check_all_below(id, types, len),
        AstKind::TSTypeReference { name } => check_below(id, *name, len),
        _ => true,
    }
}

fn check_child(child: NodeId, children: &Vec<NodeId>) -> (ok: bool)
    ensures
        ok == children@.contains(child),
{
    let mut i: usize = 0;
    while i < children.len()
        invariant
            i <= children@.len(),
            forall|j: int| 0 <= j < i ==> children@[j] != child,
        decreases children@.len() - i,
    {
        if children[i] == child {
            return true;
        }
        i += 1;
    }
    false
}

fn check_operands(kind: &AstKind, children: &Vec<NodeId>) -> (ok: bool)
    ensures
        ok == operands_are_children(*kind, children@),
{
    match kind {
        AstKind::BinaryExpression { operator: _, left, right } => {
            let ok = check_child(*left, children) && check_child(*right, children);
            proof {
                assert(operands(*kind)[0] == left);
                assert(operands(*kind)[1] == right);
            }
            ok
        },
        AstKind::UnaryExpression { operator: _, argument: operand }
        | AstKind::ParenthesizedExpression { expression: operand }
        | AstKind::TSAsExpression { expression: operand, .. }
        | AstKind::TSTypeAssertion { expression: operand, .. }
        | AstKind::TSSatisfiesExpression { expression: operand }
        | AstKind::TSNonNullExpression { expression: operand }
        | AstKind::TSInstantiationExpression { expression: operand } => {
            let ok = check_child(*operand, children);
            assert(operands(*kind)[0] == operand);
            ok
        },
        _ => true,
    }
}

fn check_span(span: Span, source: &str) -> (ok: bool)
    ensures
        ok == span_is_well_formed(span, source@),
{
    span.start <= span.end && source.is_char_boundary(span.start as usize)
        && source.is_char_boundary(span.end as usize)
}

fn check_property(node: &AstNode, source: &str) -> (ok: bool)
    requires
        node.span.start <= node.span.end,
    ensures
        ok == property_is_well_formed(*node, source@),
{
    match &node.kind {
        AstKind::StaticMemberExpression { property_span, .. } => {
            check_span(*property_span, source) && node.span.contains_inclusive(*property_span)
        },
        _ => true,
    }
}

fn check_node(node: &AstNode, id: NodeId, len: usize, symbols: usize, source: &str) -> (ok: bool)
    ensures
        ok == node_is_well_formed(*node, id, len as nat, symbols as nat, source@),
{
    let parent_ok = match node.parent {
        Some(parent) => parent < id,
        None => true,
    };
    check_kind(&node.kind, id, len, symbols) && parent_ok && check_all_below(
        id,
        &node.children,
        len,
    ) && check_operands(&node.kind, &node.children) && check_span(node.span, source)
        && check_property(node, source)
}

} // verus!
