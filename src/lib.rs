//! A sandboxed interpreter for a small expression and statement language.
//!
//! Values live in a `bumpalo` arena owned by one execution, operators are
//! resolved through an ordered table of typed implementations, variables live
//! in a chain of scopes, and every evaluated node costs one unit of fuel.
use vstd::prelude::*;

pub mod ast;
pub mod error;
pub mod eval;
pub mod exec_ctx;
pub mod op;
pub mod parser;
pub mod tokenizer;
pub mod value;

use crate::error::{Fault, SandboxExecutionError};
use crate::eval::{add_fuel, eval_block, lemma_block_fuel};
use crate::exec_ctx::{ExecutionContext, Mapping, ScopeView, State};
use crate::op::{standard_binary, standard_unary, Registry};
use crate::parser::{parse, parse_source};
use crate::tokenizer::ParseError;
use crate::ast::{Module, StmtV};
use crate::value::ValueKind;

verus! {

/// Why a script produced no bindings.
#[derive(Debug, PartialEq, Eq)]
pub enum ExecError {
    /// The source text is not a script.
    Parse(ParseError),
    /// The script failed while it ran.
    Execution(SandboxExecutionError),
}

impl From<ParseError> for ExecError {
    fn from(e: ParseError) -> (r: ExecError)
        ensures
            r == ExecError::Parse(e),
    {
        ExecError::Parse(e)
    }
}

impl vstd::std_specs::convert::FromSpecImpl<ParseError> for ExecError {
    open spec fn obeys_from_spec() -> bool {
        true
    }

    open spec fn from_spec(v: ParseError) -> ExecError {
        ExecError::Parse(v)
    }
}

impl From<SandboxExecutionError> for ExecError {
    fn from(e: SandboxExecutionError) -> (r: ExecError)
        ensures
            r == ExecError::Execution(e),
    {
        ExecError::Execution(e)
    }
}

impl vstd::std_specs::convert::FromSpecImpl<SandboxExecutionError> for ExecError {
    open spec fn obeys_from_spec() -> bool {
        true
    }

    open spec fn from_spec(v: SandboxExecutionError) -> ExecError {
        ExecError::Execution(v)
    }
}

/// The mathematical form of an `ExecError`.
pub enum ExecFault {
    Parse(ParseError),
    Execution(Fault),
}

/// The state a script starts in: `ttl` units of fuel and one empty global scope.
pub open spec fn initial_state(ttl: i64) -> State {
    State { ttl: ttl as int, scopes: seq![Seq::empty()] }
}

/// Running statements `body` with `ttl` units of fuel and the standard
/// operators: the global bindings at the end, or the failure.
pub open spec fn run_spec(body: Seq<StmtV>, ttl: i64) -> Result<ScopeView, Fault> {
    let (r, st) = eval_block(standard_binary(), standard_unary(), body, 0, initial_state(ttl));
    match r {
        Ok(_) => Ok(st.scopes[0]),
        Err(f) => Err(f),
    }
}

/// What `exec` gives for source text `src` and budget `ttl`.
pub open spec fn exec_spec(src: Seq<char>, ttl: i64) -> Result<ScopeView, ExecFault> {
    match parse_source(src) {
        Err(e) => Err(ExecFault::Parse(e)),
        Ok(body) => match run_spec(body, ttl) {
            Ok(b) => Ok(b),
            Err(f) => Err(ExecFault::Execution(f)),
        },
    }
}

pub open spec fn bindings_view(b: Seq<(String, ValueKind)>) -> ScopeView {
    b.map_values(|p: (String, ValueKind)| (p.0@, p.1@))
}

pub open spec fn run_view(r: Result<Vec<(String, ValueKind)>, SandboxExecutionError>) -> Result<ScopeView, Fault> {
    match r {
        Ok(b) => Ok(bindings_view(b@)),
        Err(e) => Err(e@),
    }
}

pub open spec fn exec_view(r: Result<Vec<(String, ValueKind)>, ExecError>) -> Result<ScopeView, ExecFault> {
    match r {
        Ok(b) => Ok(bindings_view(b@)),
        Err(ExecError::Parse(e)) => Err(ExecFault::Parse(e)),
        Err(ExecError::Execution(e)) => Err(ExecFault::Execution(e@)),
    }
}

/// Runs a parsed script in a fresh arena with `ttl` units of fuel; on
/// success, copies of the global bindings in the order they were made.
pub fn run_module(module: &Module, ttl: i64) -> (r: Result<Vec<(String, ValueKind)>, SandboxExecutionError>)
    ensures
        run_view(r) == run_spec(module.body_view(), ttl),
{
    let arena = bumpalo::Bump::new();
    let reg = Registry::standard();
    let mut scopes: Vec<Mapping> = Vec::new();
    scopes.push(Mapping::new());
    let mut ctx = ExecutionContext::new(&arena, ttl, scopes);
    assert(ctx@.scopes =~= seq![Seq::<(Seq<char>, crate::value::Val)>::empty()]);
    let r = module.eval(&reg, &mut ctx);
    match r {
        Ok(_) => {
            let b = ctx.to_bindings();
            assert(bindings_view(b@) =~= ctx@.scopes[0]);
            Ok(b)
        },
        Err(e) => Err(e),
    }
}

/// Executes source text in the sandbox with a budget of `ttl` evaluation
/// steps: the final global bindings, or the parse or execution failure.
pub fn exec(code: &str, ttl: i64) -> (r: Result<Vec<(String, ValueKind)>, ExecError>)
    ensures
        exec_view(r) == exec_spec(code@, ttl),
{
    let module = match parse(code) {
        Ok(m) => m,
        Err(e) => return Err(ExecError::from(e)),
    };
    match run_module(&module, ttl) {
        Ok(b) => Ok(b),
        Err(e) => Err(ExecError::from(e)),
    }
}

/// Law: a run never spends more fuel than it is given. From a budget of
/// `ttl >= 0`, the fuel left at the end lies between 0 and `ttl`, so at most
/// `ttl` nodes were evaluated.
pub proof fn lemma_fuel_bound(body: Seq<StmtV>, ttl: i64)
    requires
        ttl >= 0,
    ensures
        0 <= eval_block(standard_binary(), standard_unary(), body, 0, initial_state(ttl)).1.ttl <= ttl,
{
    lemma_block_fuel(standard_binary(), standard_unary(), body, 0, initial_state(ttl), 0);
}

/// Law: fuel exhaustion is monotonic in the budget. A script that does not
/// time out with `ttl` gives exactly the same bindings or failure with any
/// larger budget; so a smaller budget never succeeds where a larger one ran
/// out.
pub proof fn lemma_fuel_monotone(src: Seq<char>, ttl: i64, more: i64)
    requires
        ttl <= more,
        exec_spec(src, ttl) != Err::<ScopeView, ExecFault>(ExecFault::Execution(Fault::Timeout)),
    ensures
        exec_spec(src, more) == exec_spec(src, ttl),
{
    match parse_source(src) {
        Ok(body) => {
            let k = more - ttl;
            let bt = standard_binary();
            let ut = standard_unary();
            lemma_block_fuel(bt, ut, body, 0, initial_state(ttl), k);
            assert(add_fuel(initial_state(ttl), k) == initial_state(more));
        },
        Err(_) => {},
    }
}

/// Law: determinism. Two runs of `exec` on the same source text with the
/// same budget give identical bindings or the identical failure.
pub proof fn lemma_exec_deterministic(
    src: Seq<char>,
    ttl: i64,
    r1: Result<Vec<(String, ValueKind)>, ExecError>,
    r2: Result<Vec<(String, ValueKind)>, ExecError>,
)
    requires
        exec_view(r1) == exec_spec(src, ttl),
        exec_view(r2) == exec_spec(src, ttl),
    ensures
        exec_view(r1) == exec_view(r2),
{
}

} // verus!
