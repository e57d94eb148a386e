//! The syntax tree drawn as an indented outline, one node per line.

use vstd::prelude::*;
use crate::ast::{ASTNode, Tree};
use crate::postfix::{
    binary_symbol, binary_text, constant_symbol, constant_text, function_name, function_text,
    unary_symbol, unary_text,
};
use crate::text::{push_char, push_signed, push_text, signed_decimal};
use crate::token::Num;

verus! {

/// The text a node shows on its own line.
pub open spec fn node_label(t: Tree) -> Seq<char> {
    match t {
        Tree::Integer(v, _) => signed_decimal(v as int),
        Tree::Float(x, _) => x,
        Tree::Mantissa(x, _) => x,
        Tree::Constant(c, _) => constant_text(c),
        Tree::Identifier(x, _) => x,
        Tree::Unary(op, _, _) => unary_text(op),
        Tree::Binary(_, op, _, _) => binary_text(op),
        Tree::Call(f, _, _) => function_text(f),
    }
}

pub open spec fn connector(is_left: bool) -> Seq<char> {
    if is_left {
        "├── "@
    } else {
        "└── "@
    }
}

pub open spec fn indent(is_left: bool) -> Seq<char> {
    if is_left {
        "│   "@
    } else {
        "    "@
    }
}

/// The outline of `t` under `prefix`: its own line, then its children one
/// level deeper; a left operand is drawn as a branch that continues below.
pub open spec fn tree_text(t: Tree, prefix: Seq<char>, is_left: bool) -> Seq<char>
    decreases t,
{
    let line = prefix + connector(is_left) + node_label(t) + seq!['\n'];
    let inner = prefix + indent(is_left);
    match t {
        Tree::Unary(_, a, _) => line + tree_text(*a, inner, false),
        Tree::Binary(l, _, r, _) => line + tree_text(*l, inner, true) + tree_text(*r, inner, false),
        Tree::Call(_, a, _) => line + tree_text(*a, inner, false),
        _ => line,
    }
}

fn push_label(s: &mut String, node: &ASTNode)
    ensures
        final(s)@ == old(s)@ + node_label(node@),
{
    match node {
        ASTNode::Number(Num::Integer(v), _) => push_signed(s, *v),
        ASTNode::Number(Num::Float(x), _) => push_text(s, x.as_str()),
        ASTNode::Mantissa(x, _) => push_text(s, x.as_str()),
        ASTNode::Constant(c, _) => push_text(s, constant_symbol(*c)),
        ASTNode::Identifier(x, _) => push_text(s, x.as_str()),
        ASTNode::UnaryOp(op, _, _) => push_text(s, unary_symbol(*op)),
        ASTNode::BinaryOp(_, op, _, _) => push_text(s, binary_symbol(*op)),
        ASTNode::FunctionCall(f, _, _) => push_text(s, function_name(*f)),
    }
}

impl ASTNode {
    /// The tree as an outline under `prefix`; a whole tree is drawn with an
    /// empty prefix and `is_left` false.
    pub fn stringify(&self, prefix: String, is_left: bool) -> (r: String)
        ensures
            r@ == tree_text(self@, prefix@, is_left),
        decreases self,
    {
        let mut s = prefix.clone();
        push_text(&mut s, if is_left { "├── " } else { "└── " });
        push_label(&mut s, self);
        push_char(&mut s, '\n');
        let mut inner = prefix.clone();
        push_text(&mut inner, if is_left { "│   " } else { "    " });
        match self {
            ASTNode::UnaryOp(_, a, _) => {
                let sub = a.stringify(inner, false);
                push_text(&mut s, sub.as_str());
            },
            ASTNode::BinaryOp(l, _, r, _) => {
                let left = l.stringify(inner.clone(), true);
                push_text(&mut s, left.as_str());
                let right = r.stringify(inner, false);
                push_text(&mut s, right.as_str());
            },
            ASTNode::FunctionCall(_, a, _) => {
                let sub = a.stringify(inner, false);
                push_text(&mut s, sub.as_str());
            },
            _ => {},
        }
        s
    }
}

} // verus!
