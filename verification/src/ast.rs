//! The abstract syntax tree the compiler core consumes.
//!
//! The surface-language parser is an external collaborator: it delivers a
//! tree of plain values in this shape.  Constructs outside the supported
//! subset arrive as the `Unsupported` variants and are rejected with a
//! `NotImplemented` error during emission.

use vstd::prelude::*;

verus! {

/// A source position, 1-based row and column.
#[derive(Debug, Clone, Copy, PartialEq, Eq, Structural)]
pub struct Location {
    pub row: usize,
    pub column: usize,
}

impl Location {
    pub fn new(row: usize, column: usize) -> (r: Self)
        ensures
            r.row == row,
            r.column == column,
    {
        Location { row, column }
    }
}

/// A parsed module: an ordered sequence of top-level statements.
#[derive(Debug)]
pub struct Program {
    pub statements: Vec<Statement>,
}

#[derive(Debug)]
pub struct Statement {
    pub location: Location,
    pub node: StatementType,
}

#[derive(Debug)]
pub enum StatementType {
    Expression { expression: Expression },
    FunctionDef {
        is_async: bool,
        name: String,
        args: Vec<Parameter>,
        body: Vec<Statement>,
        returns: Option<Expression>,
    },
    /// An annotated assignment; the annotation itself is not checked, the
    /// stored type is the compiled value's type.
    AnnAssign { target: Expression, value: Option<Expression> },
    Assign { targets: Vec<Expression>, value: Expression },
    Return { value: Option<Expression> },
    ImportFrom { module: Option<String> },
    If { test: Expression, body: Vec<Statement>, orelse: Option<Vec<Statement>> },
    While { test: Expression, body: Vec<Statement>, orelse: Option<Vec<Statement>> },
    Pass,
    /// Any statement form the subset excludes.
    Unsupported,
}

/// A formal parameter of a function definition; the annotation is required
/// and must name a supported type.
#[derive(Debug)]
pub struct Parameter {
    pub arg: String,
    pub annotation: Option<Expression>,
}

#[derive(Debug)]
pub struct Expression {
    pub location: Location,
    pub node: ExpressionType,
}

#[derive(Debug)]
pub enum ExpressionType {
    Number { value: Number },
    Str { value: StringGroup },
    Identifier { name: String },
    Call { function: Box<Expression>, args: Vec<Expression> },
    Binop { a: Box<Expression>, op: Operator, b: Box<Expression> },
    Compare { vals: Vec<Expression>, ops: Vec<Comparison> },
    Unop { op: UnaryOperator, a: Box<Expression> },
    True,
    False,
    NoneLiteral,
    /// Any expression form the subset excludes.
    Unsupported,
}

/// A numeric literal.
#[derive(Debug, Clone, Copy)]
pub enum Number {
    /// An integer literal of arbitrary written size, reduced to what the
    /// emitter reads of it: its sign and the low 64 bits of its absolute
    /// value.
    Integer { negative: bool, magnitude: u64 },
    /// A floating literal, as the bits of the nearest single-precision value.
    Float { bits: u32 },
    /// A complex literal; always rejected.
    Complex,
}

/// A string literal, possibly written in joined pieces.
#[derive(Debug)]
pub enum StringGroup {
    Constant { value: String },
    Joined { values: Vec<StringGroup> },
    /// An interpolated piece; never a constant string.
    FormattedValue,
}

#[derive(Debug, Clone, Copy, PartialEq, Eq, Structural)]
pub enum Operator {
    Add,
    Sub,
    Mult,
    Div,
    FloorDiv,
    Mod,
    /// Any operator the subset excludes.
    Unsupported,
}

#[derive(Debug, Clone, Copy, PartialEq, Eq, Structural)]
pub enum Comparison {
    Equal,
    NotEqual,
    Less,
    LessOrEqual,
    Greater,
    GreaterOrEqual,
    /// Any comparison the subset excludes.
    Unsupported,
}

#[derive(Debug, Clone, Copy, PartialEq, Eq, Structural)]
pub enum UnaryOperator {
    Neg,
    /// Any unary operator the subset excludes.
    Unsupported,
}

} // verus!
