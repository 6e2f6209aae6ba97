//! The abstract syntax tree the parser produces: expressions and statements,
//! each carrying a source span used only for diagnostics, plus the binary
//! operator table and the constant-folding helper's specification.

use vstd::prelude::*;

use crate::token::Pos;
use crate::types::{Type, TypeNode};

verus! {

/// A binary operator. The table below fixes each operator's precedence:
/// `*`, `/` and `%` bind at 2; `+` and `-` at 1; the comparisons at 0.
/// Higher-or-equal incoming precedence groups to the right (see the binary
/// expression engine).
#[derive(Clone, Copy, Debug, PartialEq, Eq, Structural)]
pub enum Operator {
    Add,
    Sub,
    Mul,
    Div,
    Mod,
    Eq,
    NEq,
    Lt,
    Gt,
    LtEq,
    GtEq,
}

/// The operator an operator-category lexeme denotes, with its precedence.
pub open spec fn spec_operator_of(s: Seq<char>) -> Option<(Operator, u8)> {
    if s == seq!['+'] {
        Some((Operator::Add, 1u8))
    } else if s == seq!['-'] {
        Some((Operator::Sub, 1u8))
    } else if s == seq!['*'] {
        Some((Operator::Mul, 2u8))
    } else if s == seq!['/'] {
        Some((Operator::Div, 2u8))
    } else if s == seq!['%'] {
        Some((Operator::Mod, 2u8))
    } else if s == seq!['=', '='] {
        Some((Operator::Eq, 0u8))
    } else if s == seq!['!', '='] {
        Some((Operator::NEq, 0u8))
    } else if s == seq!['<'] {
        Some((Operator::Lt, 0u8))
    } else if s == seq!['>'] {
        Some((Operator::Gt, 0u8))
    } else if s == seq!['<', '='] {
        Some((Operator::LtEq, 0u8))
    } else if s == seq!['>', '='] {
        Some((Operator::GtEq, 0u8))
    } else {
        None
    }
}

impl Operator {
    /// Looks a lexeme up in the operator table.
    pub fn from_str(s: &str) -> (r: Option<(Operator, u8)>)
        ensures
            r == spec_operator_of(s@),
    {
        proof {
            reveal_strlit("+");
            reveal_strlit("-");
            reveal_strlit("*");
            reveal_strlit("/");
            reveal_strlit("%");
            reveal_strlit("==");
            reveal_strlit("!=");
            reveal_strlit("<");
            reveal_strlit(">");
            reveal_strlit("<=");
            reveal_strlit(">=");
            assert("+"@ =~= seq!['+']);
            assert("-"@ =~= seq!['-']);
            assert("*"@ =~= seq!['*']);
            assert("/"@ =~= seq!['/']);
            assert("%"@ =~= seq!['%']);
            assert("=="@ =~= seq!['=', '=']);
            assert("!="@ =~= seq!['!', '=']);
            assert("<"@ =~= seq!['<']);
            assert(">"@ =~= seq!['>']);
            assert("<="@ =~= seq!['<', '=']);
            assert(">="@ =~= seq!['>', '=']);
        }
        if crate::token::str_eq(s, "+") {
            Some((Operator::Add, 1u8))
        } else if crate::token::str_eq(s, "-") {
            Some((Operator::Sub, 1u8))
        } else if crate::token::str_eq(s, "*") {
            Some((Operator::Mul, 2u8))
        } else if crate::token::str_eq(s, "/") {
            Some((Operator::Div, 2u8))
        } else if crate::token::str_eq(s, "%") {
            Some((Operator::Mod, 2u8))
        } else if crate::token::str_eq(s, "==") {
            Some((Operator::Eq, 0u8))
        } else if crate::token::str_eq(s, "!=") {
            Some((Operator::NEq, 0u8))
        } else if crate::token::str_eq(s, "<") {
            Some((Operator::Lt, 0u8))
        } else if crate::token::str_eq(s, ">") {
            Some((Operator::Gt, 0u8))
        } else if crate::token::str_eq(s, "<=") {
            Some((Operator::LtEq, 0u8))
        } else if crate::token::str_eq(s, ">=") {
            Some((Operator::GtEq, 0u8))
        } else {
            None
        }
    }
}

/// An expression form. A float literal keeps its lexeme text: its numeric
/// reading is the concern of whatever renders or evaluates it, not of the
/// grammar. `EOF` marks "nothing left in this token window" and is produced
/// only at the end of a sub-stream.
#[derive(Debug, PartialEq)]
pub enum ExpressionNode {
    Int(u64),
    Float(String),
    Bool(bool),
    Str(String),
    Char(char),
    Identifier(String),
    Unwrap(Box<Expression>),
    Empty,
    EOF,
    Array(Vec<Expression>),
    Block(Vec<Statement>),
    Function(Vec<(String, Type)>, Type, Box<Expression>, Option<Vec<String>>),
    Call(Box<Expression>, Vec<Expression>),
    Index(Box<Expression>, Box<Expression>),
    Binary(Box<Expression>, Operator, Box<Expression>),
    Cast(Box<Expression>, Type),
    If(Box<Expression>, Box<Expression>, Option<Vec<(Option<Expression>, Expression, Pos)>>),
}

/// An expression with its source span.
#[derive(Debug, PartialEq)]
pub struct Expression {
    pub node: ExpressionNode,
    pub pos: Pos,
}

impl Expression {
    /// Pairs an expression form with its span.
    pub fn new(node: ExpressionNode, pos: Pos) -> (r: Expression)
        ensures
            r.node == node,
            r.pos == pos,
    {
        Expression { node, pos }
    }
}

/// A statement form. A variable declaration records the declared type (the
/// `Nil` shape standing for "infer/omit"), the name, and the optional
/// initializer.
#[derive(Debug, PartialEq)]
pub enum StatementNode {
    Expression(Expression),
    Variable(Type, String, Option<Expression>),
    Assignment(Expression, Expression),
    Return(Option<Box<Expression>>),
}

/// A statement with its source span.
#[derive(Debug, PartialEq)]
pub struct Statement {
    pub node: StatementNode,
    pub pos: Pos,
}

impl Statement {
    /// Pairs a statement form with its span.
    pub fn new(node: StatementNode, pos: Pos) -> (r: Statement)
        ensures
            r.node == node,
            r.pos == pos,
    {
        Statement { node, pos }
    }
}

/// Whether a literal expression form can inhabit a shape: an integer literal
/// fits the integer and float shapes; an array literal is checked element by
/// element against an array shape's element type and is not questioned by
/// any other shape; nothing else fits.
pub open spec fn spec_check_expression(t: TypeNode, e: ExpressionNode) -> bool
    decreases e,
{
    match e {
        ExpressionNode::Int(_) => t is Int || t is Float,
        ExpressionNode::Array(content) => match t {
            TypeNode::Array(inner, _) => forall|i: int|
                0 <= i < content@.len() ==> spec_check_expression(
                    inner.node,
                    (#[trigger] content@[i]).node,
                ),
            _ => true,
        },
        _ => false,
    }
}

impl TypeNode {
    /// Whether a literal expression form can inhabit this shape (see
    /// `spec_check_expression`).
    #[verifier::loop_isolation(false)]
    pub fn check_expression(&self, other: &ExpressionNode) -> (r: bool)
        ensures
            r == spec_check_expression(*self, *other),
        decreases *other,
    {
        match other {
            ExpressionNode::Int(_) => match self {
                TypeNode::Int => true,
                TypeNode::Float => true,
                _ => false,
            },
            ExpressionNode::Array(content) => match self {
                TypeNode::Array(inner, _) => {
                    let mut i: usize = 0;
                    while i < content.len()
                        invariant
                            0 <= i <= content.len(),
                            forall|j: int|
                                0 <= j < i ==> spec_check_expression(
                                    inner.node,
                                    (#[trigger] content@[j]).node,
                                ),
                        decreases content.len() - i,
                    {
                        proof {
                            assert(decreases_to!(*other => *content));
                            assert(decreases_to!(*content => content@[i as int]));
                        }
                        if !inner.node.check_expression(&content[i].node) {
                            return false;
                        }
                        i = i + 1;
                    }
                    true
                },
                _ => true,
            },
            _ => false,
        }
    }
}

/// One folding step on an already-folded pair of operands: integer `+`, `-`,
/// `*` and `/` collapse to an integer literal when the result is
/// representable (no wrap-around below zero or past the integer maximum, no
/// division by zero); any other combination leaves `orig`, the unfolded
/// node, as it was written.
pub open spec fn spec_fold_binary(
    l: ExpressionNode,
    op: Operator,
    r: ExpressionNode,
    orig: ExpressionNode,
) -> ExpressionNode {
    match (l, op, r) {
        (ExpressionNode::Int(a), Operator::Add, ExpressionNode::Int(b)) => if a + b
            <= u64::MAX {
            ExpressionNode::Int((a + b) as u64)
        } else {
            orig
        },
        (ExpressionNode::Int(a), Operator::Sub, ExpressionNode::Int(b)) => if a >= b {
            ExpressionNode::Int((a - b) as u64)
        } else {
            orig
        },
        (ExpressionNode::Int(a), Operator::Mul, ExpressionNode::Int(b)) => if a * b
            <= u64::MAX {
            ExpressionNode::Int((a * b) as u64)
        } else {
            orig
        },
        (ExpressionNode::Int(a), Operator::Div, ExpressionNode::Int(b)) => if b != 0 {
            ExpressionNode::Int(a / b)
        } else {
            orig
        },
        _ => orig,
    }
}

/// Compile-time constant folding: a binary node whose operands fold to
/// integer literals collapses per `spec_fold_binary`; where that step does
/// not apply, the node stays exactly as written (its operands included);
/// every non-binary node stays as written.
pub open spec fn spec_fold(e: Expression) -> Expression
    decreases e,
{
    match e.node {
        ExpressionNode::Binary(l, op, r) => Expression {
            node: spec_fold_binary(spec_fold(*l).node, op, spec_fold(*r).node, e.node),
            pos: e.pos,
        },
        _ => e,
    }
}

/// Folding either leaves the expression as written or replaces it by an
/// integer literal at the same span.
pub proof fn lemma_fold_shape(e: Expression)
    ensures
        spec_fold(e) == e || (spec_fold(e).node is Int && spec_fold(e).pos == e.pos),
{
}

/// Law: constant folding is idempotent — folding a folded expression
/// changes nothing.
pub proof fn lemma_fold_idempotent(e: Expression)
    ensures
        spec_fold(spec_fold(e)) == spec_fold(e),
{
    lemma_fold_shape(e);
}

} // verus!
