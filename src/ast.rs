use vstd::prelude::*;

use crate::op::{BinaryOperator, UaryOperator};
use crate::value::Val;

verus! {

/// Where a node stood in the source text.
#[derive(Clone, Copy, Debug, PartialEq, Eq, Structural)]
pub struct Span {
    pub row: u64,
    pub col: u64,
    pub length: u64,
}

/// A syntax tree node with its optional source position.
#[derive(Debug)]
pub struct Node<T> {
    pub kind: T,
    pub span: Option<Span>,
}

/// A whole script: its statements, in order.
#[derive(Debug)]
pub struct Module {
    pub body: Vec<Node<Stmt>>,
    pub span: Option<Span>,
}

#[derive(Debug)]
pub enum Literal {
    Int(i64),
    String(String),
    Bool(bool),
    NoneValue,
}

#[allow(inconsistent_fields)]
#[derive(Debug)]
pub enum Expr {
    Literal(Literal),
    Variable(String),
    BinaryOp { left: Box<Node<Expr>>, op: BinaryOperator, right: Box<Node<Expr>> },
    UnaryOp { op: UaryOperator, operand: Box<Node<Expr>> },
}

/// Statements. An assignment target is a plain variable name; `otherwise`
/// of a loop runs when its test turns false, not when it is left by `break`.
#[derive(Debug)]
pub enum Stmt {
    Expression(Node<Expr>),
    Assign { target: String, value: Node<Expr> },
    If { test: Node<Expr>, body: Vec<Node<Stmt>>, otherwise: Option<Vec<Node<Stmt>>> },
    WhileLoop { test: Node<Expr>, body: Vec<Node<Stmt>>, otherwise: Option<Vec<Node<Stmt>>> },
    Break,
    Continue,
}

/// The mathematical form of an expression.
pub enum ExprV {
    Lit(Val),
    Var(Seq<char>),
    Binary(Box<ExprV>, BinaryOperator, Box<ExprV>),
    Unary(UaryOperator, Box<ExprV>),
}

/// The mathematical form of a statement.
pub enum StmtV {
    Expression(ExprV),
    Assign(Seq<char>, ExprV),
    If(ExprV, Seq<StmtV>, Option<Seq<StmtV>>),
    While(ExprV, Seq<StmtV>, Option<Seq<StmtV>>),
    Break,
    Continue,
}

pub open spec fn literal_view(l: Literal) -> Val {
    match l {
        Literal::Int(i) => Val::Int(i),
        Literal::String(s) => Val::Str(s@),
        Literal::Bool(b) => Val::Bool(b),
        Literal::NoneValue => Val::NoneValue,
    }
}

pub open spec fn expr_view(e: Expr) -> ExprV
    decreases e,
{
    match e {
        Expr::Literal(l) => ExprV::Lit(literal_view(l)),
        Expr::Variable(name) => ExprV::Var(name@),
        Expr::BinaryOp { left, op, right } => ExprV::Binary(
            Box::new(expr_view(left.kind)),
            op,
            Box::new(expr_view(right.kind)),
        ),
        Expr::UnaryOp { op, operand } => ExprV::Unary(op, Box::new(expr_view(operand.kind))),
    }
}

pub open spec fn stmt_view(s: Stmt) -> StmtV
    decreases s, 0int,
{
    match s {
        Stmt::Expression(e) => StmtV::Expression(expr_view(e.kind)),
        Stmt::Assign { target, value } => StmtV::Assign(target@, expr_view(value.kind)),
        Stmt::If { test, body, otherwise } => StmtV::If(
            expr_view(test.kind),
            block_view(body@, 0),
            match otherwise {
                Some(o) => Some(block_view(o@, 0)),
                None => None,
            },
        ),
        Stmt::WhileLoop { test, body, otherwise } => StmtV::While(
            expr_view(test.kind),
            block_view(body@, 0),
            match otherwise {
                Some(o) => Some(block_view(o@, 0)),
                None => None,
            },
        ),
        Stmt::Break => StmtV::Break,
        Stmt::Continue => StmtV::Continue,
    }
}

/// The forms of `b[i..]`.
pub open spec fn block_view(b: Seq<Node<Stmt>>, i: int) -> Seq<StmtV>
    decreases b, b.len() - i,
{
    if i < 0 || i >= b.len() {
        Seq::empty()
    } else {
        seq![stmt_view(b[i].kind)] + block_view(b, i + 1)
    }
}

pub proof fn lemma_block_view(b: Seq<Node<Stmt>>, i: int)
    requires
        0 <= i <= b.len(),
    ensures
        block_view(b, i).len() == b.len() - i,
        forall|k: int| i <= k < b.len() ==> block_view(b, i)[k - i] == stmt_view(#[trigger] b[k].kind),
    decreases b.len() - i,
{
    if i < b.len() {
        lemma_block_view(b, i + 1);
        let v = block_view(b, i);
        assert forall|k: int| i <= k < b.len() implies v[k - i] == stmt_view(#[trigger] b[k].kind) by {
            if k > i {
                assert(v[k - i] == block_view(b, i + 1)[k - i - 1]);
            }
        }
    }
}

impl Module {
    pub open spec fn body_view(&self) -> Seq<StmtV> {
        block_view(self.body@, 0)
    }
}

} // verus!
