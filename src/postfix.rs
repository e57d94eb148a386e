//! The post-order program of a syntax tree: operands and operators in the
//! order in which a stack evaluator applies them, and its postfix text.

use vstd::prelude::*;
use crate::ast::{ASTNode, BinaryOperator, Constant, Function, Tree, UnaryOperator};
use crate::span::{SpanView, TextSpan};
use crate::text::{push_char, push_signed, push_text, signed_decimal};
use crate::token::Num;

verus! {

/// One step of a post-order program. Operands push one value; operators and
/// functions pop their arguments and push their result.
#[derive(Debug)]
pub enum Instruction {
    Integer(i64, TextSpan),
    Float(String, TextSpan),
    Mantissa(String, TextSpan),
    Constant(Constant, TextSpan),
    Identifier(String, TextSpan),
    Unary(UnaryOperator, TextSpan),
    Binary(BinaryOperator, TextSpan),
    Call(Function, TextSpan),
}

pub enum Step {
    Integer(i64, SpanView),
    Float(Seq<char>, SpanView),
    Mantissa(Seq<char>, SpanView),
    Constant(Constant, SpanView),
    Identifier(Seq<char>, SpanView),
    Unary(UnaryOperator, SpanView),
    Binary(BinaryOperator, SpanView),
    Call(Function, SpanView),
}

impl View for Instruction {
    type V = Step;

    open spec fn view(&self) -> Step {
        match self {
            Instruction::Integer(v, sp) => Step::Integer(*v, sp@),
            Instruction::Float(x, sp) => Step::Float(x@, sp@),
            Instruction::Mantissa(x, sp) => Step::Mantissa(x@, sp@),
            Instruction::Constant(c, sp) => Step::Constant(*c, sp@),
            Instruction::Identifier(x, sp) => Step::Identifier(x@, sp@),
            Instruction::Unary(op, sp) => Step::Unary(*op, sp@),
            Instruction::Binary(op, sp) => Step::Binary(*op, sp@),
            Instruction::Call(f, sp) => Step::Call(*f, sp@),
        }
    }
}

/// The steps of a tree in post-order: children left to right, then the node.
pub open spec fn postorder(t: Tree) -> Seq<Step>
    decreases t,
{
    match t {
        Tree::Integer(v, sp) => seq![Step::Integer(v, sp)],
        Tree::Float(x, sp) => seq![Step::Float(x, sp)],
        Tree::Mantissa(x, sp) => seq![Step::Mantissa(x, sp)],
        Tree::Constant(c, sp) => seq![Step::Constant(c, sp)],
        Tree::Identifier(x, sp) => seq![Step::Identifier(x, sp)],
        Tree::Unary(op, a, sp) => postorder(*a).push(Step::Unary(op, sp)),
        Tree::Binary(l, op, r, sp) => (postorder(*l) + postorder(*r)).push(Step::Binary(op, sp)),
        Tree::Call(f, a, sp) => postorder(*a).push(Step::Call(f, sp)),
    }
}

/// How many values a step pops.
pub open spec fn arity(s: Step) -> int {
    match s {
        Step::Unary(..) => 1,
        Step::Call(..) => 1,
        Step::Binary(..) => 2,
        _ => 0,
    }
}

/// The stack depth after running `p` from depth `d`, or `None` when a step
/// finds fewer values than it pops.
pub open spec fn run_depth(p: Seq<Step>, d: int) -> Option<int>
    decreases p.len(),
{
    if p.len() == 0 {
        Some(d)
    } else if d < arity(p[0]) {
        None
    } else {
        run_depth(p.drop_first(), d - arity(p[0]) + 1)
    }
}

proof fn lemma_run_depth_concat(a: Seq<Step>, b: Seq<Step>, d: int)
    ensures
        run_depth(a + b, d) == match run_depth(a, d) {
            None => None,
            Some(d2) => run_depth(b, d2),
        },
    decreases a.len(),
{
    if a.len() > 0 {
        assert((a + b).drop_first() =~= a.drop_first() + b);
        lemma_run_depth_concat(a.drop_first(), b, d - arity(a[0]) + 1);
    } else {
        assert(a + b =~= b);
    }
}

proof fn lemma_run_single(s: Step, d: int)
    requires
        d >= arity(s),
    ensures
        run_depth(seq![s], d) == Some(d - arity(s) + 1),
{
    assert(seq![s].drop_first() =~= Seq::<Step>::empty());
    assert(run_depth(Seq::<Step>::empty(), d - arity(s) + 1) == Some(d - arity(s) + 1));
}

/// The post-order program of any tree, run on a stack of any depth, never
/// pops from an empty stack and leaves exactly one value more: an evaluator
/// that runs it always finds its operands and ends with a single result.
pub proof fn lemma_postorder_stack_safe(t: Tree, d: int)
    requires
        d >= 0,
    ensures
        run_depth(postorder(t), d) == Some(d + 1),
    decreases t,
{
    match t {
        Tree::Unary(op, a, sp) => {
            lemma_postorder_stack_safe(*a, d);
            lemma_run_depth_concat(postorder(*a), seq![Step::Unary(op, sp)], d);
            lemma_run_single(Step::Unary(op, sp), d + 1);
            assert(postorder(*a).push(Step::Unary(op, sp)) =~= postorder(*a) + seq![
                Step::Unary(op, sp),
            ]);
        },
        Tree::Call(f, a, sp) => {
            lemma_postorder_stack_safe(*a, d);
            lemma_run_depth_concat(postorder(*a), seq![Step::Call(f, sp)], d);
            lemma_run_single(Step::Call(f, sp), d + 1);
            assert(postorder(*a).push(Step::Call(f, sp)) =~= postorder(*a) + seq![
                Step::Call(f, sp),
            ]);
        },
        Tree::Binary(l, op, r, sp) => {
            lemma_postorder_stack_safe(*l, d);
            lemma_postorder_stack_safe(*r, d + 1);
            lemma_run_depth_concat(postorder(*l), postorder(*r), d);
            lemma_run_depth_concat(
                postorder(*l) + postorder(*r),
                seq![Step::Binary(op, sp)],
                d,
            );
            lemma_run_single(Step::Binary(op, sp), d + 2);
            assert((postorder(*l) + postorder(*r)).push(Step::Binary(op, sp)) =~= (postorder(*l)
                + postorder(*r)) + seq![Step::Binary(op, sp)]);
        },
        _ => {
            lemma_run_single(postorder(t)[0], d);
            assert(postorder(t) =~= seq![postorder(t)[0]]);
        },
    }
}

pub open spec fn binary_text(op: BinaryOperator) -> Seq<char> {
    match op {
        BinaryOperator::Add => "+"@,
        BinaryOperator::Subtract => "-"@,
        BinaryOperator::Multiply => "*"@,
        BinaryOperator::Divide => "/"@,
        BinaryOperator::Div => "div"@,
        BinaryOperator::Mod => "mod"@,
        BinaryOperator::Power => "^"@,
    }
}

pub open spec fn unary_text(op: UnaryOperator) -> Seq<char> {
    match op {
        UnaryOperator::Plus => "+"@,
        UnaryOperator::Minus => "-"@,
    }
}

pub open spec fn constant_text(c: Constant) -> Seq<char> {
    match c {
        Constant::Pi => "π"@,
        Constant::Euler => "e"@,
    }
}

pub open spec fn function_text(f: Function) -> Seq<char> {
    match f {
        Function::Sin => "sin"@,
        Function::Cos => "cos"@,
        Function::Tan => "tan"@,
        Function::Cotan => "cotan"@,
        Function::Arcsin => "arcsin"@,
        Function::Arccos => "arccos"@,
        Function::Arctan => "arctan"@,
        Function::Arccotan => "arccotan"@,
        Function::Ln => "ln"@,
        Function::Log => "log"@,
        Function::Exp => "exp"@,
        Function::Sqrt => "sqrt"@,
        Function::Sqr => "sqr"@,
    }
}

pub fn binary_symbol(op: BinaryOperator) -> (r: &'static str)
    ensures
        r@ == binary_text(op),
{
    match op {
        BinaryOperator::Add => "+",
        BinaryOperator::Subtract => "-",
        BinaryOperator::Multiply => "*",
        BinaryOperator::Divide => "/",
        BinaryOperator::Div => "div",
        BinaryOperator::Mod => "mod",
        BinaryOperator::Power => "^",
    }
}

pub fn unary_symbol(op: UnaryOperator) -> (r: &'static str)
    ensures
        r@ == unary_text(op),
{
    match op {
        UnaryOperator::Plus => "+",
        UnaryOperator::Minus => "-",
    }
}

pub fn constant_symbol(c: Constant) -> (r: &'static str)
    ensures
        r@ == constant_text(c),
{
    match c {
        Constant::Pi => "π",
        Constant::Euler => "e",
    }
}

pub fn function_name(f: Function) -> (r: &'static str)
    ensures
        r@ == function_text(f),
{
    match f {
        Function::Sin => "sin",
        Function::Cos => "cos",
        Function::Tan => "tan",
        Function::Cotan => "cotan",
        Function::Arcsin => "arcsin",
        Function::Arccos => "arccos",
        Function::Arctan => "arctan",
        Function::Arccotan => "arccotan",
        Function::Ln => "ln",
        Function::Log => "log",
        Function::Exp => "exp",
        Function::Sqrt => "sqrt",
        Function::Sqr => "sqr",
    }
}

/// How a step is written in postfix text.
pub open spec fn step_text(s: Step) -> Seq<char> {
    match s {
        Step::Integer(v, _) => signed_decimal(v as int),
        Step::Float(x, _) => x,
        Step::Mantissa(x, _) => x,
        Step::Constant(c, _) => constant_text(c),
        Step::Identifier(x, _) => x,
        Step::Unary(op, _) => unary_text(op),
        Step::Binary(op, _) => binary_text(op),
        Step::Call(f, _) => function_text(f),
    }
}

/// The steps of a program, each followed by a space.
pub open spec fn program_text(p: Seq<Step>) -> Seq<char>
    decreases p.len(),
{
    if p.len() == 0 {
        Seq::empty()
    } else {
        program_text(p.drop_last()) + step_text(p.last()) + seq![' ']
    }
}

fn push_step(s: &mut String, ins: &Instruction)
    ensures
        final(s)@ == old(s)@ + step_text(ins@),
{
    match ins {
        Instruction::Integer(v, _) => push_signed(s, *v),
        Instruction::Float(x, _) => push_text(s, x.as_str()),
        Instruction::Mantissa(x, _) => push_text(s, x.as_str()),
        Instruction::Constant(c, _) => push_text(s, constant_symbol(*c)),
        Instruction::Identifier(x, _) => push_text(s, x.as_str()),
        Instruction::Unary(op, _) => push_text(s, unary_symbol(*op)),
        Instruction::Binary(op, _) => push_text(s, binary_symbol(*op)),
        Instruction::Call(f, _) => push_text(s, function_name(*f)),
    }
}

fn emit(node: &ASTNode, out: &mut Vec<Instruction>)
    ensures
        final(out)@.map_values(|i: Instruction| i@) == old(out)@.map_values(|i: Instruction| i@)
            + postorder(node@),
    decreases node,
{
    let ghost before = out@.map_values(|i: Instruction| i@);
    let last = match node {
        ASTNode::Number(Num::Integer(v), sp) => Instruction::Integer(*v, sp.duplicate()),
        ASTNode::Number(Num::Float(x), sp) => Instruction::Float(x.clone(), sp.duplicate()),
        ASTNode::Mantissa(x, sp) => Instruction::Mantissa(x.clone(), sp.duplicate()),
        ASTNode::Constant(c, sp) => Instruction::Constant(*c, sp.duplicate()),
        ASTNode::Identifier(x, sp) => Instruction::Identifier(x.clone(), sp.duplicate()),
        ASTNode::UnaryOp(op, a, sp) => {
            emit(a, out);
            Instruction::Unary(*op, sp.duplicate())
        },
        ASTNode::BinaryOp(l, op, r, sp) => {
            emit(l, out);
            emit(r, out);
            Instruction::Binary(*op, sp.duplicate())
        },
        ASTNode::FunctionCall(f, a, sp) => {
            emit(a, out);
            Instruction::Call(*f, sp.duplicate())
        },
    };
    let ghost mid = out@;
    out.push(last);
    assert(out@.map_values(|i: Instruction| i@) =~= mid.map_values(|i: Instruction| i@).push(
        last@,
    ));
    assert(out@.map_values(|i: Instruction| i@) =~= before + postorder(node@));
}

impl ASTNode {
    /// The post-order program of the tree.
    pub fn program(&self) -> (r: Vec<Instruction>)
        ensures
            r@.map_values(|i: Instruction| i@) == postorder(self@),
    {
        let mut out: Vec<Instruction> = Vec::new();
        emit(self, &mut out);
        assert(out@.map_values(|i: Instruction| i@) =~= Seq::<Step>::empty() + postorder(self@));
        out
    }

    /// The tree in postfix notation: each operand, operator and function in
    /// post-order, each followed by a space.
    pub fn postfix(&self) -> (r: String)
        ensures
            r@ == program_text(postorder(self@)),
    {
        let prog = self.program();
        let ghost p = prog@.map_values(|i: Instruction| i@);
        let mut s = String::new();
        let mut k: usize = 0;
        while k < prog.len()
            invariant
                k <= prog.len(),
                p == prog@.map_values(|i: Instruction| i@),
                s@ == program_text(p.take(k as int)),
            decreases prog.len() - k,
        {
            push_step(&mut s, &prog[k]);
            push_char(&mut s, ' ');
            assert(p.take(k + 1).drop_last() =~= p.take(k as int));
            k += 1;
        }
        assert(p.take(k as int) =~= p);
        s
    }
}

} // verus!
