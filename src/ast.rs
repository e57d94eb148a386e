//! The syntax tree. Every node carries the span of the token that defines it.

use vstd::prelude::*;
use crate::span::{SpanView, TextSpan};
use crate::token::Num;

verus! {

#[derive(Debug, Clone, Copy, PartialEq, Eq, Structural)]
pub enum BinaryOperator {
    Add,
    Subtract,
    Multiply,
    Divide,
    /// Integer division, rounding down.
    Div,
    Mod,
    Power,
}

#[derive(Debug, Clone, Copy, PartialEq, Eq, Structural)]
pub enum UnaryOperator {
    Plus,
    Minus,
}

#[derive(Debug, Clone, Copy, PartialEq, Eq, Structural)]
pub enum Constant {
    Pi,
    Euler,
}

#[derive(Debug, Clone, Copy, PartialEq, Eq, Structural)]
pub enum Function {
    Sin,
    Cos,
    Tan,
    Cotan,
    Arcsin,
    Arccos,
    Arctan,
    Arccotan,
    Ln,
    Log,
    Exp,
    Sqrt,
    Sqr,
}

#[derive(Debug)]
pub enum ASTNode {
    Number(Num, TextSpan),
    /// A literal in scientific notation, converted when evaluated.
    Mantissa(String, TextSpan),
    Constant(Constant, TextSpan),
    Identifier(String, TextSpan),
    UnaryOp(UnaryOperator, Box<ASTNode>, TextSpan),
    BinaryOp(Box<ASTNode>, BinaryOperator, Box<ASTNode>, TextSpan),
    FunctionCall(Function, Box<ASTNode>, TextSpan),
}

/// The mathematical content of an `ASTNode`.
pub enum Tree {
    Integer(i64, SpanView),
    Float(Seq<char>, SpanView),
    Mantissa(Seq<char>, SpanView),
    Constant(Constant, SpanView),
    Identifier(Seq<char>, SpanView),
    Unary(UnaryOperator, Box<Tree>, SpanView),
    Binary(Box<Tree>, BinaryOperator, Box<Tree>, SpanView),
    Call(Function, Box<Tree>, SpanView),
}

pub open spec fn tree_of(n: ASTNode) -> Tree
    decreases n,
{
    match n {
        ASTNode::Number(Num::Integer(i), sp) => Tree::Integer(i, sp@),
        ASTNode::Number(Num::Float(t), sp) => Tree::Float(t@, sp@),
        ASTNode::Mantissa(t, sp) => Tree::Mantissa(t@, sp@),
        ASTNode::Constant(c, sp) => Tree::Constant(c, sp@),
        ASTNode::Identifier(t, sp) => Tree::Identifier(t@, sp@),
        ASTNode::UnaryOp(op, a, sp) => Tree::Unary(op, Box::new(tree_of(*a)), sp@),
        ASTNode::BinaryOp(l, op, r, sp) => Tree::Binary(
            Box::new(tree_of(*l)),
            op,
            Box::new(tree_of(*r)),
            sp@,
        ),
        ASTNode::FunctionCall(f, a, sp) => Tree::Call(f, Box::new(tree_of(*a)), sp@),
    }
}

impl View for ASTNode {
    type V = Tree;

    open spec fn view(&self) -> Tree {
        tree_of(*self)
    }
}

} // verus!
