//! The syntax tree as far as function definitions and call expressions need
//! it.

use crate::errors::{Span, Spanned};
use vstd::prelude::*;
use vstd::string::*;

verus! {

#[derive(Clone, Copy, Debug, PartialEq, Eq, Structural, Hash)]
pub enum Signedness {
    Unsigned,
    Signed,
}

/// The type of a value of the language.
#[derive(Clone, Copy, Debug, PartialEq, Eq, Structural, Hash)]
pub enum Type {
    FieldElement,
    Constant,
    Public,
    Witness,
    /// An array of field elements of the given length.
    Array(u128),
    /// An integer of the given signedness and width in bits.
    Integer(Signedness, u32),
    Bool,
    Error,
    Unspecified,
    Unknown,
    Unit,
}

/// A name as it was written in the source.
#[derive(Clone, Debug, PartialEq, Eq, Hash)]
pub struct Ident(pub Spanned<String>);

/// What a function was marked with.
#[derive(Clone, Debug, PartialEq, Eq, Hash)]
pub enum Attribute {
    /// The function stands for the gadget of this name.
    Foreign(String),
    /// The function is supplied by the runtime under this name.
    Builtin(String),
}

impl Attribute {
    /// Whether the attribute names a gadget.
    pub fn is_foreign(&self) -> (r: bool)
        ensures
            r == (self is Foreign),
    {
        matches!(self, Attribute::Foreign(_))
    }
}

#[derive(Clone, Copy, Debug, PartialEq, Eq, Structural, Hash)]
pub enum BinaryOpKind {
    Add,
    Subtract,
    Multiply,
    Divide,
    Equal,
    NotEqual,
    Less,
    LessEqual,
    Greater,
    GreaterEqual,
    And,
    Or,
    Xor,
    Assign,
}

/// A binary operator with its place in the source.
pub type BinaryOp = Spanned<BinaryOpKind>;

#[derive(Clone, Copy, Debug, PartialEq, Eq, Structural, Hash)]
pub enum UnaryOp {
    Minus,
    Not,
}

/// A name made of segments, such as `std::hash`.
#[derive(Clone, Debug, PartialEq, Eq)]
pub struct Path {
    pub segments: Vec<Ident>,
}

/// An expression with its place in the source.
#[derive(Debug, PartialEq, Eq)]
pub struct Expression {
    pub kind: ExpressionKind,
    pub span: Span,
}

/// The kinds of expression.
#[derive(Debug, PartialEq, Eq)]
pub enum ExpressionKind {
    Ident(String),
    Path(Path),
    Call(Box<CallExpression>),
    Infix(Box<InfixExpression>),
}

/// A call: the path of the callee and the arguments, in order.
#[derive(Debug, PartialEq, Eq)]
pub struct CallExpression {
    pub func_name: Path,
    pub arguments: Vec<Expression>,
}

/// Two expressions with a binary operator between them.
#[derive(Debug, PartialEq, Eq)]
pub struct InfixExpression {
    pub lhs: Expression,
    pub operator: BinaryOp,
    pub rhs: Expression,
}

/// The kinds of statement.
#[derive(Clone, Copy, Debug, PartialEq, Eq, Structural)]
pub enum StatementKind {
    Let,
    Const,
    Constrain,
    Public,
    Private,
    Expression,
    Semi,
}

/// A statement of a function body, by its kind and its place in the source.
#[derive(Clone, Copy, Debug, PartialEq, Eq, Structural)]
pub struct Statement {
    pub kind: StatementKind,
    pub span: Span,
}

/// The statements of a block, in order.
#[derive(Clone, Debug, PartialEq, Eq)]
pub struct BlockExpression(pub Vec<Statement>);

/// A function as it was written: its name, marks, parameters, body and
/// return type.
#[derive(Clone, Debug, PartialEq, Eq)]
pub struct FunctionDefinition {
    pub name: Ident,
    pub attribute: Option<Attribute>,
    pub parameters: Vec<(Ident, Type)>,
    pub body: BlockExpression,
    pub span: Span,
    pub return_type: Type,
}

/// The kinds of function: ordinary ones, those that stand for a gadget, and
/// those that the runtime supplies.
#[derive(Clone, Copy, Debug, PartialEq, Eq, Structural)]
pub enum FunctionKind {
    LowLevel,
    Builtin,
    Normal,
}

/// A function definition together with its kind.
#[derive(Clone, Debug, PartialEq)]
pub struct NoirFunction {
    pub kind: FunctionKind,
    pub def: FunctionDefinition,
}

/// The kind that the attribute of a definition asks for.
pub open spec fn kind_of_attribute(attribute: Option<Attribute>) -> FunctionKind {
    match attribute {
        Some(Attribute::Builtin(_)) => FunctionKind::Builtin,
        Some(Attribute::Foreign(_)) => FunctionKind::LowLevel,
        None => FunctionKind::Normal,
    }
}

impl NoirFunction {
    /// A low-level function carries the name of the gadget it stands for.
    pub open spec fn well_formed(&self) -> bool {
        self.kind is LowLevel ==> (self.def.attribute matches Some(a) && a is Foreign)
    }

    /// An ordinary function.
    pub fn normal(def: FunctionDefinition) -> (r: NoirFunction)
        ensures
            r == (NoirFunction { kind: FunctionKind::Normal, def }),
    {
        NoirFunction { kind: FunctionKind::Normal, def }
    }

    /// A function that the runtime supplies.
    pub fn builtin(def: FunctionDefinition) -> (r: NoirFunction)
        ensures
            r == (NoirFunction { kind: FunctionKind::Builtin, def }),
    {
        NoirFunction { kind: FunctionKind::Builtin, def }
    }

    /// A function that stands for a gadget.
    pub fn low_level(def: FunctionDefinition) -> (r: NoirFunction)
        ensures
            r == (NoirFunction { kind: FunctionKind::LowLevel, def }),
    {
        NoirFunction { kind: FunctionKind::LowLevel, def }
    }

    /// The type of what the function returns.
    pub fn return_type(&self) -> (r: Type)
        ensures
            r == self.def.return_type,
    {
        self.def.return_type
    }

    /// The name of the function, as text.
    pub fn name(&self) -> (r: &str)
        ensures
            r@ == self.def.name.0.contents@,
    {
        self.name_ident().0.contents.as_str()
    }

    /// The name of the function, as it was written.
    pub fn name_ident(&self) -> (r: &Ident)
        ensures
            *r == self.def.name,
    {
        &self.def.name
    }

    /// The parameters with their types, in order.
    pub fn parameters(&self) -> (r: &Vec<(Ident, Type)>)
        ensures
            *r == self.def.parameters,
    {
        &self.def.parameters
    }

    /// What the function was marked with, if anything.
    pub fn attribute(&self) -> (r: Option<&Attribute>)
        ensures
            match r {
                Some(a) => self.def.attribute == Some(*a),
                None => self.def.attribute is None,
            },
    {
        self.def.attribute.as_ref()
    }

    /// The definition.
    pub fn def(&self) -> (r: &FunctionDefinition)
        ensures
            *r == self.def,
    {
        &self.def
    }

    /// The definition, to be changed in place. The kind stays as it is.
    pub fn def_mut(&mut self) -> (r: &mut FunctionDefinition)
        ensures
            *r == old(self).def,
            final(self).def == *final(r),
            final(self).kind == old(self).kind,
    {
        &mut self.def
    }

    /// How many statements the body has.
    pub fn number_of_statements(&self) -> (r: usize)
        ensures
            r == self.def.body.0@.len(),
    {
        self.def.body.0.len()
    }

    /// The definition of a low-level function, and nothing for any other.
    pub fn foreign(&self) -> (r: Option<&FunctionDefinition>)
        requires
            self.well_formed(),
        ensures
            match r {
                Some(def) => self.kind is LowLevel && *def == self.def,
                None => !(self.kind is LowLevel),
            },
    {
        match &self.kind {
            FunctionKind::LowLevel => {},
            _ => return None,
        }
        Some(&self.def)
    }
}

impl From<FunctionDefinition> for NoirFunction {
    /// The function of the kind that the definition's attribute asks for.
    fn from(def: FunctionDefinition) -> (r: NoirFunction)
        ensures
            r == (NoirFunction { kind: kind_of_attribute(def.attribute), def }),
            r.well_formed(),
    {
        let kind = match def.attribute {
            Some(Attribute::Builtin(_)) => FunctionKind::Builtin,
            Some(Attribute::Foreign(_)) => FunctionKind::LowLevel,
            None => FunctionKind::Normal,
        };
        NoirFunction { def, kind }
    }
}

impl vstd::std_specs::convert::FromSpecImpl<FunctionDefinition> for NoirFunction {
    open spec fn obeys_from_spec() -> bool {
        true
    }

    open spec fn from_spec(def: FunctionDefinition) -> NoirFunction {
        NoirFunction { kind: kind_of_attribute(def.attribute), def }
    }
}

/// What the parser reports.
#[derive(Clone, Debug, PartialEq, Eq)]
pub enum ParserErrorKind {
    UnstructuredError { message: String, span: Span },
}

/// The parser of call expressions, `PATH ( EXPR, EXPR, ... )`.
pub struct CallParser;

impl CallParser {
    /// The call expression of a callee and its arguments, once those are
    /// parsed. The callee must be a path.
    pub fn parse(func_path: Expression, arguments: Vec<Expression>) -> (r: Result<
        ExpressionKind,
        ParserErrorKind,
    >)
        ensures
            match func_path.kind {
                ExpressionKind::Path(path) => r == Ok::<ExpressionKind, ParserErrorKind>(
                    ExpressionKind::Call(Box::new(CallExpression { func_name: path, arguments })),
                ),
                _ => (r matches Err(ParserErrorKind::UnstructuredError { message, span })
                    && message@ == "expected a path for the function name"@ && span
                    == func_path.span),
            },
    {
        let func_name = match func_path.kind {
            ExpressionKind::Path(path) => path,
            _ => {
                return Err(
                    ParserErrorKind::UnstructuredError {
                        message: "expected a path for the function name".to_owned(),
                        span: func_path.span,
                    },
                )
            },
        };
        let call_expr = CallExpression { func_name, arguments };
        Ok(ExpressionKind::Call(Box::new(call_expr)))
    }
}

} // verus!
