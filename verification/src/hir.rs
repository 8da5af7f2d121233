//! Expressions after name resolution: every sub-expression, identifier,
//! statement and function is referred to by its id.

use crate::ast::{BinaryOp, BinaryOpKind, Type, UnaryOp};
use crate::errors::Span;
use crate::field::FieldElement;
use vstd::prelude::*;

verus! {

/// The id of an expression.
#[derive(Clone, Copy, Debug, PartialEq, Eq, Structural, Hash)]
pub struct ExprId(pub usize);

/// The id of a function.
#[derive(Clone, Copy, Debug, PartialEq, Eq, Structural, Hash)]
pub struct FuncId(pub usize);

/// The id of an identifier.
#[derive(Clone, Copy, Debug, PartialEq, Eq, Structural, Hash)]
pub struct IdentId(pub usize);

/// The id of a statement.
#[derive(Clone, Copy, Debug, PartialEq, Eq, Structural, Hash)]
pub struct StmtId(pub usize);

#[derive(Debug, Clone)]
pub enum HirExpression {
    Ident(IdentId),
    Literal(HirLiteral),
    Block(HirBlockExpression),
    Prefix(HirPrefixExpression),
    Infix(HirInfixExpression),
    Index(HirIndexExpression),
    Call(HirCallExpression),
    Cast(HirCastExpression),
    Predicate(HirInfixExpression),
    For(HirForExpression),
    If(IfExpression),
}

impl HirExpression {
    /// A block without statements.
    pub fn empty_block() -> (r: HirExpression)
        ensures
            (r matches HirExpression::Block(block) && block.0@ == Seq::<StmtId>::empty()),
    {
        HirExpression::Block(HirBlockExpression(Vec::new()))
    }
}

#[derive(Debug, Clone)]
pub struct HirForExpression {
    pub identifier: IdentId,
    pub start_range: ExprId,
    pub end_range: ExprId,
    pub block: ExprId,
}

#[derive(Debug, Copy, Clone, PartialEq, Eq, Structural)]
pub enum HirBinaryOpKind {
    Add,
    Subtract,
    Multiply,
    Divide,
    Equal,
    NotEqual,
    Less,
    LessEqual,
    Greater,
    GreaterEqual,
    And,
    Or,
    Xor,
    Assign,
}

#[derive(Debug, Copy, Clone, PartialEq, Eq, Structural)]
pub struct HirBinaryOp {
    pub span: Span,
    pub kind: HirBinaryOpKind,
}

/// The resolved operator for an operator of the syntax tree: the one of the
/// same name.
pub open spec fn resolved_kind(a: BinaryOpKind) -> HirBinaryOpKind {
    match a {
        BinaryOpKind::Add => HirBinaryOpKind::Add,
        BinaryOpKind::Subtract => HirBinaryOpKind::Subtract,
        BinaryOpKind::Multiply => HirBinaryOpKind::Multiply,
        BinaryOpKind::Divide => HirBinaryOpKind::Divide,
        BinaryOpKind::Equal => HirBinaryOpKind::Equal,
        BinaryOpKind::NotEqual => HirBinaryOpKind::NotEqual,
        BinaryOpKind::Less => HirBinaryOpKind::Less,
        BinaryOpKind::LessEqual => HirBinaryOpKind::LessEqual,
        BinaryOpKind::Greater => HirBinaryOpKind::Greater,
        BinaryOpKind::GreaterEqual => HirBinaryOpKind::GreaterEqual,
        BinaryOpKind::And => HirBinaryOpKind::And,
        BinaryOpKind::Or => HirBinaryOpKind::Or,
        BinaryOpKind::Xor => HirBinaryOpKind::Xor,
        BinaryOpKind::Assign => HirBinaryOpKind::Assign,
    }
}

impl From<BinaryOpKind> for HirBinaryOpKind {
    fn from(a: BinaryOpKind) -> (r: HirBinaryOpKind)
        ensures
            r == resolved_kind(a),
    {
        match a {
            BinaryOpKind::Add => HirBinaryOpKind::Add,
            BinaryOpKind::Subtract => HirBinaryOpKind::Subtract,
            BinaryOpKind::Multiply => HirBinaryOpKind::Multiply,
            BinaryOpKind::Divide => HirBinaryOpKind::Divide,
            BinaryOpKind::Equal => HirBinaryOpKind::Equal,
            BinaryOpKind::NotEqual => HirBinaryOpKind::NotEqual,
            BinaryOpKind::Less => HirBinaryOpKind::Less,
            BinaryOpKind::LessEqual => HirBinaryOpKind::LessEqual,
            BinaryOpKind::Greater => HirBinaryOpKind::Greater,
            BinaryOpKind::GreaterEqual => HirBinaryOpKind::GreaterEqual,
            BinaryOpKind::And => HirBinaryOpKind::And,
            BinaryOpKind::Or => HirBinaryOpKind::Or,
            BinaryOpKind::Xor => HirBinaryOpKind::Xor,
            BinaryOpKind::Assign => HirBinaryOpKind::Assign,
        }
    }
}

impl vstd::std_specs::convert::FromSpecImpl<BinaryOpKind> for HirBinaryOpKind {
    open spec fn obeys_from_spec() -> bool {
        true
    }

    open spec fn from_spec(a: BinaryOpKind) -> HirBinaryOpKind {
        resolved_kind(a)
    }
}

impl From<BinaryOp> for HirBinaryOp {
    fn from(a: BinaryOp) -> (r: HirBinaryOp)
        ensures
            r == (HirBinaryOp { span: a.span, kind: resolved_kind(a.contents) }),
    {
        let kind: HirBinaryOpKind = HirBinaryOpKind::from(a.contents);
        HirBinaryOp { span: a.span(), kind }
    }
}

impl vstd::std_specs::convert::FromSpecImpl<BinaryOp> for HirBinaryOp {
    open spec fn obeys_from_spec() -> bool {
        true
    }

    open spec fn from_spec(a: BinaryOp) -> HirBinaryOp {
        HirBinaryOp { span: a.span, kind: resolved_kind(a.contents) }
    }
}

impl HirBinaryOpKind {
    /// Whether the operator compares: such an operator gives 0 or 1, and
    /// turns the expression it stands in into a predicate.
    pub fn is_comparator(&self) -> (r: bool)
        ensures
            r == (*self is Equal || *self is NotEqual || *self is LessEqual || *self is Less
                || *self is Greater || *self is GreaterEqual),
    {
        match self {
            HirBinaryOpKind::Equal
            | HirBinaryOpKind::NotEqual
            | HirBinaryOpKind::LessEqual
            | HirBinaryOpKind::Less
            | HirBinaryOpKind::Greater
            | HirBinaryOpKind::GreaterEqual => true,
            _ => false,
        }
    }
}

#[derive(Debug, Copy, Clone, PartialEq, Eq, Structural)]
pub enum HirUnaryOp {
    Minus,
    Not,
}

/// The resolved operator for a unary operator of the syntax tree.
pub open spec fn resolved_unary(a: UnaryOp) -> HirUnaryOp {
    match a {
        UnaryOp::Minus => HirUnaryOp::Minus,
        UnaryOp::Not => HirUnaryOp::Not,
    }
}

impl From<UnaryOp> for HirUnaryOp {
    fn from(a: UnaryOp) -> (r: HirUnaryOp)
        ensures
            r == resolved_unary(a),
    {
        match a {
            UnaryOp::Minus => HirUnaryOp::Minus,
            UnaryOp::Not => HirUnaryOp::Not,
        }
    }
}

impl vstd::std_specs::convert::FromSpecImpl<UnaryOp> for HirUnaryOp {
    open spec fn obeys_from_spec() -> bool {
        true
    }

    open spec fn from_spec(a: UnaryOp) -> HirUnaryOp {
        resolved_unary(a)
    }
}

#[derive(Debug, Clone)]
pub enum HirLiteral {
    Array(HirArrayLiteral),
    Bool(bool),
    Integer(FieldElement),
    Str(String),
}

#[derive(Debug, Clone)]
pub struct HirPrefixExpression {
    pub operator: HirUnaryOp,
    pub rhs: ExprId,
}

#[derive(Debug, Clone)]
pub struct HirInfixExpression {
    pub lhs: ExprId,
    pub operator: HirBinaryOp,
    pub rhs: ExprId,
}

#[derive(Debug, Clone)]
pub struct IfExpression {
    pub condition: ExprId,
    pub consequence: ExprId,
    pub alternative: Option<ExprId>,
}

#[derive(Debug, Clone)]
pub struct HirCastExpression {
    pub lhs: ExprId,
    pub typ: Type,
}

#[derive(Debug, Clone)]
pub struct HirArrayLiteral {
    pub length: u128,
    pub typ: Type,
    pub contents: Vec<ExprId>,
}

/// A call: the function that is called and its arguments, in order.
#[derive(Debug, Clone)]
pub struct HirCallExpression {
    pub func_id: FuncId,
    pub arguments: Vec<ExprId>,
}

#[derive(Debug, Clone)]
pub struct HirIndexExpression {
    pub collection_name: IdentId,
    pub index: ExprId,
}

/// The statements of a block, in order.
#[derive(Debug, Clone)]
pub struct HirBlockExpression(pub Vec<StmtId>);

impl HirBlockExpression {
    /// The statements of the block, in order.
    pub fn statements(&self) -> (r: &[StmtId])
        ensures
            r@ == self.0@,
    {
        self.0.as_slice()
    }
}

} // verus!
