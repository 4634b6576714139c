use vstd::prelude::*;

use crate::ast::{
    block_view, expr_view, lemma_block_view, literal_view, stmt_view, Expr, ExprV, Literal, Module, Node, Stmt,
    StmtV,
};
use crate::error::{Fault, SandboxExecutionError};
use crate::exec_ctx::{chain_assign, chain_get, ExecutionContext, State};
use crate::op::{binary_dispatch, unary_dispatch, BinaryImpl, Registry, UnaryImpl};
use crate::value::{alloc_value, Val, Value, ValueKind, VirPyInt};

verus! {

/// How a statement hands control back.
#[derive(Clone, Copy, Debug, PartialEq, Eq, Structural)]
pub enum Flow {
    Normal,
    Break,
    Continue,
}

/// The fuel left in `st`, as a measure.
pub open spec fn fuel(st: State) -> nat {
    if st.ttl > 0 {
        st.ttl as nat
    } else {
        0
    }
}

/// `st` after one unit of fuel is charged.
pub open spec fn charged(st: State) -> State {
    State { ttl: st.ttl - 1, scopes: st.scopes }
}

/// `after`, a state reached from `before`, with its fuel capped by that of
/// `before`. Evaluation never adds fuel, so the cap never bites; it makes
/// evident that the loop below ends.
pub open spec fn capped(after: State, before: State) -> State {
    State { ttl: if after.ttl <= before.ttl { after.ttl } else { before.ttl }, scopes: after.scopes }
}

/// What an operator application comes to: no implementation is an
/// unsupported operator, and an error value is a failure.
pub open spec fn op_outcome(o: Option<Val>) -> Result<Val, Fault> {
    match o {
        None => Err(Fault::UnsupportedOperator),
        Some(Val::Error(f)) => Err(f),
        Some(v) => Ok(v),
    }
}

/// Whether a value counts as true in a test.
pub open spec fn truthy(v: Val) -> bool {
    match v {
        Val::Bool(b) => b,
        Val::Int(i) => i != 0,
        Val::Str(s) => s.len() > 0,
        _ => false,
    }
}

/// Evaluation of expression `e` in state `st` with operator tables `bt` and
/// `ut`: one unit of fuel per node, operands left to right.
pub open spec fn eval_expr(bt: Seq<BinaryImpl>, ut: Seq<UnaryImpl>, e: ExprV, st: State) -> (Result<Val, Fault>, State)
    decreases e,
{
    if st.ttl < 1 {
        (Err(Fault::Timeout), st)
    } else {
        let st1 = charged(st);
        match e {
            ExprV::Lit(v) => (Ok(v), st1),
            ExprV::Var(name) => match chain_get(st1.scopes, name) {
                Some(v) => (Ok(v), st1),
                None => (Err(Fault::ReferenceNotExist(name)), st1),
            },
            ExprV::Binary(left, op, right) => {
                let (lr, st2) = eval_expr(bt, ut, *left, st1);
                match lr {
                    Err(f) => (Err(f), st2),
                    Ok(a) => {
                        let (rr, st3) = eval_expr(bt, ut, *right, st2);
                        match rr {
                            Err(f) => (Err(f), st3),
                            Ok(b) => (op_outcome(binary_dispatch(bt, op, a, b)), st3),
                        }
                    },
                }
            },
            ExprV::Unary(op, operand) => {
                let (r, st2) = eval_expr(bt, ut, *operand, st1);
                match r {
                    Err(f) => (Err(f), st2),
                    Ok(a) => (op_outcome(unary_dispatch(ut, op, a)), st2),
                }
            },
        }
    }
}

/// `stmts` run in a fresh scope, which is closed again afterwards.
pub open spec fn eval_scoped(bt: Seq<BinaryImpl>, ut: Seq<UnaryImpl>, stmts: Seq<StmtV>, st: State) -> (Result<Flow, Fault>, State)
    decreases fuel(st), stmts, stmts.len() + 1,
{
    let inner = State { ttl: st.ttl, scopes: st.scopes.push(Seq::empty()) };
    let (r, st2) = eval_block(bt, ut, stmts, 0, inner);
    (r, State { ttl: st2.ttl, scopes: st2.scopes.drop_last() })
}

/// `stmts[i..]` in order, up to the first failure, `break` or `continue`.
pub open spec fn eval_block(bt: Seq<BinaryImpl>, ut: Seq<UnaryImpl>, stmts: Seq<StmtV>, i: int, st: State) -> (Result<Flow, Fault>, State)
    decreases fuel(st), stmts, stmts.len() - i,
{
    if i < 0 || i >= stmts.len() {
        (Ok(Flow::Normal), st)
    } else {
        let (r, st2) = eval_stmt(bt, ut, stmts[i], st);
        match r {
            Ok(Flow::Normal) => eval_block(bt, ut, stmts, i + 1, capped(st2, st)),
            _ => (r, st2),
        }
    }
}

/// The passes of a loop: each costs one unit of fuel, then its test.
pub open spec fn eval_loop(
    bt: Seq<BinaryImpl>,
    ut: Seq<UnaryImpl>,
    test: ExprV,
    body: Seq<StmtV>,
    otherwise: Option<Seq<StmtV>>,
    st: State,
) -> (Result<Flow, Fault>, State)
    decreases fuel(st), body, 0int,
{
    if st.ttl < 1 {
        (Err(Fault::Timeout), st)
    } else {
        let st1 = charged(st);
        let (tr, st2) = eval_expr(bt, ut, test, st1);
        match tr {
            Err(f) => (Err(f), st2),
            Ok(v) => if truthy(v) {
                let (r, st3) = eval_scoped(bt, ut, body, capped(st2, st1));
                match r {
                    Err(f) => (Err(f), st3),
                    Ok(Flow::Break) => (Ok(Flow::Normal), st3),
                    Ok(_) => eval_loop(bt, ut, test, body, otherwise, capped(st3, st1)),
                }
            } else {
                match otherwise {
                    Some(o) => eval_scoped(bt, ut, o, capped(st2, st1)),
                    None => (Ok(Flow::Normal), st2),
                }
            },
        }
    }
}

/// Execution of statement `s`: one unit of fuel, then its own work.
pub open spec fn eval_stmt(bt: Seq<BinaryImpl>, ut: Seq<UnaryImpl>, s: StmtV, st: State) -> (Result<Flow, Fault>, State)
    decreases fuel(st), s, 0int,
{
    if st.ttl < 1 {
        (Err(Fault::Timeout), st)
    } else {
        let st1 = charged(st);
        match s {
            StmtV::Expression(e) => {
                let (r, st2) = eval_expr(bt, ut, e, st1);
                match r {
                    Err(f) => (Err(f), st2),
                    Ok(_) => (Ok(Flow::Normal), st2),
                }
            },
            StmtV::Assign(target, value) => {
                let (r, st2) = eval_expr(bt, ut, value, st1);
                match r {
                    Err(f) => (Err(f), st2),
                    Ok(v) => (Ok(Flow::Normal), State { ttl: st2.ttl, scopes: chain_assign(st2.scopes, target, v) }),
                }
            },
            StmtV::If(test, body, otherwise) => {
                let (r, st2) = eval_expr(bt, ut, test, st1);
                match r {
                    Err(f) => (Err(f), st2),
                    Ok(v) => if truthy(v) {
                        eval_scoped(bt, ut, body, capped(st2, st1))
                    } else {
                        match otherwise {
                            Some(o) => eval_scoped(bt, ut, o, capped(st2, st1)),
                            None => (Ok(Flow::Normal), st2),
                        }
                    },
                }
            },
            StmtV::While(test, body, otherwise) => eval_loop(bt, ut, test, body, otherwise, st1),
            StmtV::Break => (Ok(Flow::Break), st1),
            StmtV::Continue => (Ok(Flow::Continue), st1),
        }
    }
}

/// A script runs its statements in the global scope.
pub open spec fn eval_module(bt: Seq<BinaryImpl>, ut: Seq<UnaryImpl>, m: Module, st: State) -> (Result<Flow, Fault>, State) {
    eval_block(bt, ut, m.body_view(), 0, st)
}


/// `st` with `k` more units of fuel.
pub open spec fn add_fuel(st: State, k: int) -> State {
    State { ttl: st.ttl + k, scopes: st.scopes }
}

pub open spec fn timed_out<T>(r: Result<T, Fault>) -> bool {
    r == Err::<T, Fault>(Fault::Timeout)
}

/// Expressions spend fuel and change nothing else; they never spend more
/// than they have, and with more fuel an outcome that is not a timeout stays
/// the same.
pub proof fn lemma_expr_fuel(bt: Seq<BinaryImpl>, ut: Seq<UnaryImpl>, e: ExprV, st: State, k: int)
    requires
        k >= 0,
    ensures
        eval_expr(bt, ut, e, st).1.ttl <= st.ttl,
        eval_expr(bt, ut, e, st).1.scopes == st.scopes,
        st.ttl >= 0 ==> eval_expr(bt, ut, e, st).1.ttl >= 0,
        !timed_out(eval_expr(bt, ut, e, st).0) ==> eval_expr(bt, ut, e, add_fuel(st, k)) == (
            eval_expr(bt, ut, e, st).0,
            add_fuel(eval_expr(bt, ut, e, st).1, k),
        ),
    decreases e,
{
    if st.ttl >= 1 {
        let st1 = charged(st);
        assert(charged(add_fuel(st, k)) == add_fuel(st1, k));
        match e {
            ExprV::Binary(left, op, right) => {
                lemma_expr_fuel(bt, ut, *left, st1, k);
                let st2 = eval_expr(bt, ut, *left, st1).1;
                lemma_expr_fuel(bt, ut, *right, st2, k);
            },
            ExprV::Unary(op, operand) => {
                lemma_expr_fuel(bt, ut, *operand, st1, k);
            },
            _ => {},
        }
    }
}

/// Statements: the same three facts as for expressions, and the scope chain
/// keeps its length.
pub proof fn lemma_stmt_fuel(bt: Seq<BinaryImpl>, ut: Seq<UnaryImpl>, s: StmtV, st: State, k: int)
    requires
        k >= 0,
    ensures
        eval_stmt(bt, ut, s, st).1.ttl <= st.ttl,
        st.ttl >= 0 ==> eval_stmt(bt, ut, s, st).1.ttl >= 0,
        !timed_out(eval_stmt(bt, ut, s, st).0) ==> eval_stmt(bt, ut, s, add_fuel(st, k)) == (
            eval_stmt(bt, ut, s, st).0,
            add_fuel(eval_stmt(bt, ut, s, st).1, k),
        ),
    decreases fuel(st), s, 0int,
{
    if st.ttl >= 1 {
        let st1 = charged(st);
        assert(charged(add_fuel(st, k)) == add_fuel(st1, k));
        match s {
            StmtV::Expression(e) => {
                lemma_expr_fuel(bt, ut, e, st1, k);
            },
            StmtV::Assign(target, value) => {
                lemma_expr_fuel(bt, ut, value, st1, k);
            },
            StmtV::If(test, body, otherwise) => {
                lemma_expr_fuel(bt, ut, test, st1, k);
                let st2 = eval_expr(bt, ut, test, st1).1;
                assert(capped(st2, st1) == st2);
                assert(capped(add_fuel(st2, k), add_fuel(st1, k)) == add_fuel(st2, k));
                lemma_scoped_fuel(bt, ut, body, st2, k);
                match otherwise {
                    Some(o) => lemma_scoped_fuel(bt, ut, o, st2, k),
                    None => {},
                }
            },
            StmtV::While(test, body, otherwise) => {
                lemma_loop_fuel(bt, ut, test, body, otherwise, st1, k);
            },
            _ => {},
        }
    }
}

pub proof fn lemma_scoped_fuel(bt: Seq<BinaryImpl>, ut: Seq<UnaryImpl>, b: Seq<StmtV>, st: State, k: int)
    requires
        k >= 0,
    ensures
        eval_scoped(bt, ut, b, st).1.ttl <= st.ttl,
        st.ttl >= 0 ==> eval_scoped(bt, ut, b, st).1.ttl >= 0,
        !timed_out(eval_scoped(bt, ut, b, st).0) ==> eval_scoped(bt, ut, b, add_fuel(st, k)) == (
            eval_scoped(bt, ut, b, st).0,
            add_fuel(eval_scoped(bt, ut, b, st).1, k),
        ),
    decreases fuel(st), b, b.len() + 1,
{
    let inner = State { ttl: st.ttl, scopes: st.scopes.push(Seq::empty()) };
    assert(State { ttl: st.ttl + k, scopes: st.scopes.push(Seq::empty()) } == add_fuel(inner, k));
    lemma_block_fuel(bt, ut, b, 0, inner, k);
}

pub proof fn lemma_block_fuel(bt: Seq<BinaryImpl>, ut: Seq<UnaryImpl>, b: Seq<StmtV>, i: int, st: State, k: int)
    requires
        k >= 0,
    ensures
        eval_block(bt, ut, b, i, st).1.ttl <= st.ttl,
        st.ttl >= 0 ==> eval_block(bt, ut, b, i, st).1.ttl >= 0,
        !timed_out(eval_block(bt, ut, b, i, st).0) ==> eval_block(bt, ut, b, i, add_fuel(st, k)) == (
            eval_block(bt, ut, b, i, st).0,
            add_fuel(eval_block(bt, ut, b, i, st).1, k),
        ),
    decreases fuel(st), b, b.len() - i,
{
    if 0 <= i < b.len() {
        lemma_stmt_fuel(bt, ut, b[i], st, k);
        let st2 = eval_stmt(bt, ut, b[i], st).1;
        assert(capped(st2, st) == st2);
        assert(capped(add_fuel(st2, k), add_fuel(st, k)) == add_fuel(st2, k));
        lemma_block_fuel(bt, ut, b, i + 1, st2, k);
    }
}

pub proof fn lemma_loop_fuel(
    bt: Seq<BinaryImpl>,
    ut: Seq<UnaryImpl>,
    test: ExprV,
    body: Seq<StmtV>,
    otherwise: Option<Seq<StmtV>>,
    st: State,
    k: int,
)
    requires
        k >= 0,
    ensures
        eval_loop(bt, ut, test, body, otherwise, st).1.ttl <= st.ttl,
        st.ttl >= 0 ==> eval_loop(bt, ut, test, body, otherwise, st).1.ttl >= 0,
        !timed_out(eval_loop(bt, ut, test, body, otherwise, st).0) ==> eval_loop(
            bt,
            ut,
            test,
            body,
            otherwise,
            add_fuel(st, k),
        ) == (eval_loop(bt, ut, test, body, otherwise, st).0, add_fuel(
            eval_loop(bt, ut, test, body, otherwise, st).1,
            k,
        )),
    decreases fuel(st), body, 0int,
{
    if st.ttl >= 1 {
        let st1 = charged(st);
        assert(charged(add_fuel(st, k)) == add_fuel(st1, k));
        lemma_expr_fuel(bt, ut, test, st1, k);
        let st2 = eval_expr(bt, ut, test, st1).1;
        assert(capped(st2, st1) == st2);
        assert(capped(add_fuel(st2, k), add_fuel(st1, k)) == add_fuel(st2, k));
        lemma_scoped_fuel(bt, ut, body, st2, k);
        let st3 = eval_scoped(bt, ut, body, st2).1;
        assert(capped(st3, st1) == st3);
        assert(capped(add_fuel(st3, k), add_fuel(st1, k)) == add_fuel(st3, k));
        lemma_loop_fuel(bt, ut, test, body, otherwise, st3, k);
        match otherwise {
            Some(o) => lemma_scoped_fuel(bt, ut, o, st2, k),
            None => {},
        }
    }
}

pub open spec fn value_result(r: Result<Value, SandboxExecutionError>) -> Result<Val, Fault> {
    match r {
        Ok(v) => Ok(v@),
        Err(e) => Err(e@),
    }
}

pub open spec fn flow_result(r: Result<Flow, SandboxExecutionError>) -> Result<Flow, Fault> {
    match r {
        Ok(f) => Ok(f),
        Err(e) => Err(e@),
    }
}

pub open spec fn opt_block_view(o: Option<Vec<Node<Stmt>>>) -> Option<Seq<StmtV>> {
    match o {
        Some(v) => Some(block_view(v@, 0)),
        None => None,
    }
}

/// Whether `v` counts as true in a test.
pub fn is_truthy(v: &ValueKind) -> (r: bool)
    ensures
        r == truthy(v@),
{
    match v {
        ValueKind::Bool(b) => *b,
        ValueKind::Int(i) => i.value != 0,
        ValueKind::Str(s) => !s.as_str().is_empty(),
        _ => false,
    }
}

/// The outcome of an operator application, with a value result placed in `arena`.
fn settle<'a>(o: Option<ValueKind>, arena: &'a bumpalo::Bump) -> (r: Result<Value<'a>, SandboxExecutionError>)
    ensures
        value_result(r) == op_outcome(crate::op::opt_view(o)),
{
    match o {
        None => Err(SandboxExecutionError::UnsupportedOperator),
        Some(ValueKind::Error(e)) => Err(e),
        Some(v) => Ok(alloc_value(arena, v)),
    }
}

impl Literal {
    /// The value of this literal, placed in `arena`.
    pub fn eval<'a>(&self, arena: &'a bumpalo::Bump) -> (r: Value<'a>)
        ensures
            r@ == literal_view(*self),
    {
        let v = match self {
            Literal::Int(i) => ValueKind::Int(VirPyInt::new(*i)),
            Literal::String(s) => ValueKind::Str(s.clone()),
            Literal::Bool(b) => ValueKind::Bool(*b),
            Literal::NoneValue => ValueKind::NoneValue,
        };
        alloc_value(arena, v)
    }
}

impl Expr {
    /// Evaluates this expression; its value is placed in the context's arena.
    pub fn eval<'a>(&self, reg: &Registry, ctx: &mut ExecutionContext<'a>) -> (r: Result<Value<'a>, SandboxExecutionError>)
        requires
            old(ctx).wf(),
        ensures
            final(ctx).wf(),
            final(ctx).arena == old(ctx).arena,
            final(ctx)@.scopes == old(ctx)@.scopes,
            final(ctx)@.ttl <= old(ctx)@.ttl,
            (value_result(r), final(ctx)@) == eval_expr(reg.binary@, reg.unary@, expr_view(*self), old(ctx)@),
        decreases self,
    {
        match ctx.consume_one() {
            Ok(()) => {},
            Err(e) => return Err(e),
        }
        match self {
            Expr::Literal(l) => Ok(l.eval(ctx.arena)),
            Expr::Variable(name) => ctx.get(name),
            Expr::BinaryOp { left, op, right } => {
                let a = match left.kind.eval(reg, ctx) {
                    Ok(a) => a,
                    Err(e) => return Err(e),
                };
                let b = match right.kind.eval(reg, ctx) {
                    Ok(b) => b,
                    Err(e) => return Err(e),
                };
                settle(reg.dispatch_binary(*op, a, b), ctx.arena)
            },
            Expr::UnaryOp { op, operand } => {
                let a = match operand.kind.eval(reg, ctx) {
                    Ok(a) => a,
                    Err(e) => return Err(e),
                };
                settle(reg.dispatch_unary(*op, a), ctx.arena)
            },
        }
    }
}

/// Runs `stmts` in a fresh scope and closes it again.
pub fn run_scoped<'a>(reg: &Registry, stmts: &Vec<Node<Stmt>>, ctx: &mut ExecutionContext<'a>) -> (r: Result<Flow, SandboxExecutionError>)
    requires
        old(ctx).wf(),
    ensures
        final(ctx).wf(),
        final(ctx).arena == old(ctx).arena,
        final(ctx)@.ttl <= old(ctx)@.ttl,
        final(ctx)@.scopes.len() == old(ctx)@.scopes.len(),
        (flow_result(r), final(ctx)@) == eval_scoped(reg.binary@, reg.unary@, block_view(stmts@, 0), old(ctx)@),
    decreases fuel(old(ctx)@), stmts@, stmts@.len() + 1,
{
    ctx.push_scope();
    let r = run_block(reg, stmts, ctx);
    ctx.pop_scope();
    r
}

/// Runs `stmts` in order, up to the first failure, `break` or `continue`.
pub fn run_block<'a>(reg: &Registry, stmts: &Vec<Node<Stmt>>, ctx: &mut ExecutionContext<'a>) -> (r: Result<Flow, SandboxExecutionError>)
    requires
        old(ctx).wf(),
    ensures
        final(ctx).wf(),
        final(ctx).arena == old(ctx).arena,
        final(ctx)@.ttl <= old(ctx)@.ttl,
        final(ctx)@.scopes.len() == old(ctx)@.scopes.len(),
        (flow_result(r), final(ctx)@) == eval_block(reg.binary@, reg.unary@, block_view(stmts@, 0), 0, old(ctx)@),
    decreases fuel(old(ctx)@), stmts@, stmts@.len(),
{
    let ghost bt = reg.binary@;
    let ghost ut = reg.unary@;
    let ghost start = ctx@;
    let n = stmts.len();
    proof {
        lemma_block_view(stmts@, 0);
    }
    let mut i: usize = 0;
    while i < n
        invariant
            n == stmts@.len(),
            0 <= i <= n,
            ctx.wf(),
            ctx.arena == old(ctx).arena,
            ctx@.ttl <= start.ttl,
            ctx@.scopes.len() == start.scopes.len(),
            start == old(ctx)@,
            bt == reg.binary@,
            ut == reg.unary@,
            eval_block(bt, ut, block_view(stmts@, 0), 0, start) == eval_block(bt, ut, block_view(stmts@, 0), i as int, ctx@),
        decreases n - i,
    {
        let ghost before = ctx@;
        proof {
            lemma_block_view(stmts@, 0);
            assert(block_view(stmts@, 0)[i - 0] == stmt_view(stmts@[i as int].kind));
        }
        let r = stmts[i].kind.eval(reg, ctx);
        match r {
            Ok(Flow::Normal) => {
                assert(capped(ctx@, before) == ctx@);
            },
            _ => return r,
        }
        i = i + 1;
    }
    Ok(Flow::Normal)
}

/// Runs the passes of a loop.
fn run_loop<'a>(
    reg: &Registry,
    test: &Expr,
    body: &Vec<Node<Stmt>>,
    otherwise: &Option<Vec<Node<Stmt>>>,
    ctx: &mut ExecutionContext<'a>,
) -> (r: Result<Flow, SandboxExecutionError>)
    requires
        old(ctx).wf(),
    ensures
        final(ctx).wf(),
        final(ctx).arena == old(ctx).arena,
        final(ctx)@.ttl <= old(ctx)@.ttl,
        final(ctx)@.scopes.len() == old(ctx)@.scopes.len(),
        (flow_result(r), final(ctx)@) == eval_loop(
            reg.binary@,
            reg.unary@,
            expr_view(*test),
            block_view(body@, 0),
            opt_block_view(*otherwise),
            old(ctx)@,
        ),
    decreases fuel(old(ctx)@), body@, 0int,
{
    let ghost bt = reg.binary@;
    let ghost ut = reg.unary@;
    let ghost start = ctx@;
    let ghost o = opt_block_view(*otherwise);
    let ghost tv = expr_view(*test);
    let ghost bv = block_view(body@, 0);
    loop
        invariant
            ctx.wf(),
            ctx.arena == old(ctx).arena,
            ctx@.ttl <= start.ttl,
            ctx@.scopes.len() == start.scopes.len(),
            start == old(ctx)@,
            bt == reg.binary@,
            ut == reg.unary@,
            o == opt_block_view(*otherwise),
            tv == expr_view(*test),
            bv == block_view(body@, 0),
            eval_loop(bt, ut, tv, bv, o, start) == eval_loop(bt, ut, tv, bv, o, ctx@),
        decreases fuel(ctx@),
    {
        let ghost s0 = ctx@;
        match ctx.consume_one() {
            Ok(()) => {},
            Err(e) => return Err(e),
        }
        let ghost s1 = ctx@;
        let v = match test.eval(reg, ctx) {
            Ok(v) => v,
            Err(e) => return Err(e),
        };
        if is_truthy(v) {
            let r = run_scoped(reg, body, ctx);
            match r {
                Ok(Flow::Break) => return Ok(Flow::Normal),
                Ok(_) => {},
                Err(e) => return Err(e),
            }
            assert(capped(ctx@, s1) == ctx@);
        } else {
            match otherwise {
                Some(o) => return run_scoped(reg, o, ctx),
                None => return Ok(Flow::Normal),
            }
        }
    }
}

impl Stmt {
    /// Executes this statement.
    pub fn eval<'a>(&self, reg: &Registry, ctx: &mut ExecutionContext<'a>) -> (r: Result<Flow, SandboxExecutionError>)
        requires
            old(ctx).wf(),
        ensures
            final(ctx).wf(),
            final(ctx).arena == old(ctx).arena,
            final(ctx)@.ttl <= old(ctx)@.ttl,
            final(ctx)@.scopes.len() == old(ctx)@.scopes.len(),
            (flow_result(r), final(ctx)@) == eval_stmt(reg.binary@, reg.unary@, stmt_view(*self), old(ctx)@),
        decreases fuel(old(ctx)@), *self, 0int,
    {
        match ctx.consume_one() {
            Ok(()) => {},
            Err(e) => return Err(e),
        }
        match self {
            Stmt::Expression(e) => match e.kind.eval(reg, ctx) {
                Ok(_) => Ok(Flow::Normal),
                Err(e) => Err(e),
            },
            Stmt::Assign { target, value } => {
                let v = match value.kind.eval(reg, ctx) {
                    Ok(v) => v,
                    Err(e) => return Err(e),
                };
                ctx.assign(target.clone(), v);
                Ok(Flow::Normal)
            },
            Stmt::If { test, body, otherwise } => {
                let v = match test.kind.eval(reg, ctx) {
                    Ok(v) => v,
                    Err(e) => return Err(e),
                };
                if is_truthy(v) {
                    run_scoped(reg, body, ctx)
                } else {
                    match otherwise {
                        Some(o) => run_scoped(reg, o, ctx),
                        None => Ok(Flow::Normal),
                    }
                }
            },
            Stmt::WhileLoop { test, body, otherwise } => run_loop(reg, &test.kind, body, otherwise, ctx),
            Stmt::Break => Ok(Flow::Break),
            Stmt::Continue => Ok(Flow::Continue),
        }
    }
}

impl Module {
    /// Runs the script's statements in the global scope.
    pub fn eval<'a>(&self, reg: &Registry, ctx: &mut ExecutionContext<'a>) -> (r: Result<Flow, SandboxExecutionError>)
        requires
            old(ctx).wf(),
        ensures
            final(ctx).wf(),
            final(ctx).arena == old(ctx).arena,
            final(ctx)@.ttl <= old(ctx)@.ttl,
            final(ctx)@.scopes.len() == old(ctx)@.scopes.len(),
            (flow_result(r), final(ctx)@) == eval_module(reg.binary@, reg.unary@, *self, old(ctx)@),
    {
        run_block(reg, &self.body, ctx)
    }
}

} // verus!
