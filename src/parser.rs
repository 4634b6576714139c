use vstd::prelude::*;

use crate::ast::{block_view, expr_view, lemma_block_view, ExprV, Module, Node, Stmt, StmtV, Expr, Literal};
use crate::op::{BinaryOperator, UaryOperator};
use crate::tokenizer::{lex, tokenize, tokens_view, AssinOp, ParseError, Token, TokenV};
use crate::value::Val;

verus! {

/// How tightly a prefix operator binds: tighter than any binary operator.
pub open spec fn prefix_bp(op: UaryOperator) -> nat {
    21
}

/// The left and right binding powers of a binary operator. From loosest to
/// tightest: `||`, `&&`, equality, order, `|`, `^`, `&`, shifts, `+ -`,
/// `* / %`. Every level groups to the left.
pub open spec fn infix_bp(op: BinaryOperator) -> (nat, nat) {
    match op {
        BinaryOperator::Or => (1, 2),
        BinaryOperator::And => (3, 4),
        BinaryOperator::Eq | BinaryOperator::NotEq => (5, 6),
        BinaryOperator::Lt | BinaryOperator::Lte | BinaryOperator::Gt | BinaryOperator::Gte => (7, 8),
        BinaryOperator::BitwiseOr => (9, 10),
        BinaryOperator::Xor => (11, 12),
        BinaryOperator::BitwiseAnd => (13, 14),
        BinaryOperator::LeftShift | BinaryOperator::RightShift => (15, 16),
        BinaryOperator::Add | BinaryOperator::Subtract => (17, 18),
        BinaryOperator::Multiply | BinaryOperator::Divide | BinaryOperator::Modulo => (19, 20),
    }
}

/// The binary operator that a compound assignment applies; none for `=`.
pub open spec fn assign_binary(op: AssinOp) -> Option<BinaryOperator> {
    match op {
        AssinOp::Plain => None,
        AssinOp::AddSet => Some(BinaryOperator::Add),
        AssinOp::SubSet => Some(BinaryOperator::Subtract),
        AssinOp::MulSet => Some(BinaryOperator::Multiply),
        AssinOp::DivSet => Some(BinaryOperator::Divide),
        AssinOp::ModSet => Some(BinaryOperator::Modulo),
        AssinOp::BitAndSet => Some(BinaryOperator::BitwiseAnd),
        AssinOp::BitOrSet => Some(BinaryOperator::BitwiseOr),
        AssinOp::BitXorSet => Some(BinaryOperator::Xor),
        AssinOp::LeftShiftSet => Some(BinaryOperator::LeftShift),
        AssinOp::RightShiftSet => Some(BinaryOperator::RightShift),
    }
}

pub open spec fn prefix_of(t: TokenV) -> Option<UaryOperator> {
    match t {
        TokenV::Bang => Some(UaryOperator::Not),
        TokenV::Op(BinaryOperator::Subtract) => Some(UaryOperator::Negative),
        TokenV::Op(BinaryOperator::Add) => Some(UaryOperator::Positive),
        _ => None,
    }
}

/// Tokens left from `pos` on.
pub open spec fn dist(ts: Seq<TokenV>, pos: int) -> nat {
    if 0 <= pos <= ts.len() {
        (ts.len() - pos) as nat
    } else {
        0
    }
}

/// The error for an unexpected token at `pos`, or for running out.
pub open spec fn token_error(ts: Seq<TokenV>, pos: int) -> ParseError {
    if 0 <= pos < ts.len() {
        ParseError::UnexpectedToken(pos as usize)
    } else {
        ParseError::UnexpectedEnd
    }
}

pub open spec fn is_token(ts: Seq<TokenV>, pos: int, t: TokenV) -> bool {
    0 <= pos < ts.len() && ts[pos] == t
}

pub open spec fn is_sep(ts: Seq<TokenV>, pos: int) -> bool {
    is_token(ts, pos, TokenV::Newline) || is_token(ts, pos, TokenV::Semi)
}

/// An expression at `pos` whose binary operators bind at least `min_bp`,
/// with the number of tokens it takes.
pub open spec fn parse_expr(ts: Seq<TokenV>, pos: int, min_bp: nat) -> Result<(ExprV, nat), ParseError>
    decreases dist(ts, pos), 2nat,
{
    if pos < 0 || pos >= ts.len() {
        Err(ParseError::UnexpectedEnd)
    } else {
        match prefix_of(ts[pos]) {
            Some(u) => match parse_expr(ts, pos + 1, prefix_bp(u)) {
                Ok((e, n)) => match parse_infix(ts, ExprV::Unary(u, Box::new(e)), pos + 1 + n, min_bp) {
                    Ok((r, m)) => Ok((r, 1 + n + m)),
                    Err(err) => Err(err),
                },
                Err(err) => Err(err),
            },
            None => match parse_atom(ts, pos) {
                Ok((e, n)) => match parse_infix(ts, e, pos + n, min_bp) {
                    Ok((r, m)) => Ok((r, n + m)),
                    Err(err) => Err(err),
                },
                Err(err) => Err(err),
            },
        }
    }
}

/// A literal, a name or a parenthesised expression at `pos`.
pub open spec fn parse_atom(ts: Seq<TokenV>, pos: int) -> Result<(ExprV, nat), ParseError>
    decreases dist(ts, pos), 1nat,
{
    if pos < 0 || pos >= ts.len() {
        Err(ParseError::UnexpectedEnd)
    } else {
        match ts[pos] {
            TokenV::Int(i) => Ok((ExprV::Lit(Val::Int(i)), 1)),
            TokenV::Str(s) => Ok((ExprV::Lit(Val::Str(s)), 1)),
            TokenV::True => Ok((ExprV::Lit(Val::Bool(true)), 1)),
            TokenV::False => Ok((ExprV::Lit(Val::Bool(false)), 1)),
            TokenV::NoneKw => Ok((ExprV::Lit(Val::NoneValue), 1)),
            TokenV::Ident(name) => Ok((ExprV::Var(name), 1)),
            TokenV::LParen => match parse_expr(ts, pos + 1, 0) {
                Ok((e, n)) => if is_token(ts, pos + 1 + n, TokenV::RParen) {
                    Ok((e, n + 2))
                } else {
                    Err(token_error(ts, pos + 1 + n))
                },
                Err(err) => Err(err),
            },
            _ => Err(ParseError::UnexpectedToken(pos as usize)),
        }
    }
}

/// Binary operators that follow `lhs` at `pos`, as long as they bind at
/// least `min_bp`.
pub open spec fn parse_infix(ts: Seq<TokenV>, lhs: ExprV, pos: int, min_bp: nat) -> Result<(ExprV, nat), ParseError>
    decreases dist(ts, pos), 0nat,
{
    if 0 <= pos < ts.len() && ts[pos] is Op && infix_bp(ts[pos]->Op_0).0 >= min_bp {
        let op = ts[pos]->Op_0;
        match parse_expr(ts, pos + 1, infix_bp(op).1) {
            Ok((rhs, n)) => match parse_infix(ts, ExprV::Binary(Box::new(lhs), op, Box::new(rhs)), pos + 1 + n, min_bp) {
                Ok((r, m)) => Ok((r, 1 + n + m)),
                Err(err) => Err(err),
            },
            Err(err) => Err(err),
        }
    } else {
        Ok((lhs, 0))
    }
}


/// Statements from `pos` on. A braced block runs to its closing brace, which
/// it takes; the top level runs to the end. Statements are separated by
/// newlines or semicolons.
pub open spec fn parse_block(ts: Seq<TokenV>, pos: int, in_loop: bool, braced: bool) -> Result<(Seq<StmtV>, nat), ParseError>
    decreases dist(ts, pos), 2nat,
{
    if pos < 0 || pos >= ts.len() {
        if braced {
            Err(ParseError::UnexpectedEnd)
        } else {
            Ok((Seq::empty(), 0))
        }
    } else if is_sep(ts, pos) {
        match parse_block(ts, pos + 1, in_loop, braced) {
            Ok((b, n)) => Ok((b, n + 1)),
            Err(err) => Err(err),
        }
    } else if ts[pos] == TokenV::RBrace {
        if braced {
            Ok((Seq::empty(), 1))
        } else {
            Err(ParseError::UnexpectedToken(pos as usize))
        }
    } else {
        match parse_stmt(ts, pos, in_loop) {
            Ok((st, n)) => {
                let p = pos + n;
                if p >= ts.len() {
                    if braced {
                        Err(ParseError::UnexpectedEnd)
                    } else {
                        Ok((seq![st], n))
                    }
                } else if is_sep(ts, p) {
                    match parse_block(ts, p + 1, in_loop, braced) {
                        Ok((b, m)) => Ok((seq![st] + b, n + 1 + m)),
                        Err(err) => Err(err),
                    }
                } else if braced && ts[p] == TokenV::RBrace {
                    Ok((seq![st], n + 1))
                } else {
                    Err(ParseError::UnexpectedToken(p as usize))
                }
            },
            Err(err) => Err(err),
        }
    }
}

/// A test followed by a braced block, from `pos` on.
pub open spec fn parse_guarded(ts: Seq<TokenV>, pos: int, in_loop: bool) -> Result<(ExprV, Seq<StmtV>, nat), ParseError>
    decreases dist(ts, pos), 1nat,
{
    match parse_expr(ts, pos, 0) {
        Ok((test, n)) => if is_token(ts, pos + n, TokenV::LBrace) {
            match parse_block(ts, pos + n + 1, in_loop, true) {
                Ok((body, m)) => Ok((test, body, n + 1 + m)),
                Err(err) => Err(err),
            }
        } else {
            Err(token_error(ts, pos + n))
        },
        Err(err) => Err(err),
    }
}

/// An optional `else` part at `pos`: a braced block, or another `if`.
pub open spec fn parse_else(ts: Seq<TokenV>, pos: int, in_loop: bool) -> Result<(Option<Seq<StmtV>>, nat), ParseError>
    decreases dist(ts, pos), 1nat,
{
    if is_token(ts, pos, TokenV::Else) {
        if is_token(ts, pos + 1, TokenV::LBrace) {
            match parse_block(ts, pos + 2, in_loop, true) {
                Ok((b, m)) => Ok((Some(b), 2 + m)),
                Err(err) => Err(err),
            }
        } else if is_token(ts, pos + 1, TokenV::If) {
            match parse_stmt(ts, pos + 1, in_loop) {
                Ok((st, m)) => Ok((Some(seq![st]), 1 + m)),
                Err(err) => Err(err),
            }
        } else {
            Err(token_error(ts, pos + 1))
        }
    } else {
        Ok((None, 0))
    }
}

/// The statement at `pos`; `in_loop` tells whether `break` and `continue`
/// may stand here.
pub open spec fn parse_stmt(ts: Seq<TokenV>, pos: int, in_loop: bool) -> Result<(StmtV, nat), ParseError>
    decreases dist(ts, pos), 0nat,
{
    if pos < 0 || pos >= ts.len() {
        Err(ParseError::UnexpectedEnd)
    } else {
        match ts[pos] {
            TokenV::If => match parse_guarded(ts, pos + 1, in_loop) {
                Ok((test, body, n)) => match parse_else(ts, pos + 1 + n, in_loop) {
                    Ok((o, m)) => Ok((StmtV::If(test, body, o), 1 + n + m)),
                    Err(err) => Err(err),
                },
                Err(err) => Err(err),
            },
            TokenV::While => match parse_guarded(ts, pos + 1, true) {
                Ok((test, body, n)) => match parse_else(ts, pos + 1 + n, in_loop) {
                    Ok((o, m)) => Ok((StmtV::While(test, body, o), 1 + n + m)),
                    Err(err) => Err(err),
                },
                Err(err) => Err(err),
            },
            TokenV::Break => if in_loop {
                Ok((StmtV::Break, 1))
            } else {
                Err(ParseError::LoopControlOutsideLoop(pos as usize))
            },
            TokenV::Continue => if in_loop {
                Ok((StmtV::Continue, 1))
            } else {
                Err(ParseError::LoopControlOutsideLoop(pos as usize))
            },
            TokenV::Ident(name) => if pos + 1 < ts.len() && ts[pos + 1] is Assign {
                parse_assign(ts, pos, name, ts[pos + 1]->Assign_0)
            } else {
                parse_expression_stmt(ts, pos)
            },
            _ => parse_expression_stmt(ts, pos),
        }
    }
}

/// An assignment to `name` by operator `a`, whose value starts two tokens
/// after `pos`; a compound assignment applies its operator to the old value.
pub open spec fn parse_assign(ts: Seq<TokenV>, pos: int, name: Seq<char>, a: AssinOp) -> Result<(StmtV, nat), ParseError> {
    match parse_expr(ts, pos + 2, 0) {
        Ok((e, n)) => {
            let value = match assign_binary(a) {
                None => e,
                Some(op) => ExprV::Binary(Box::new(ExprV::Var(name)), op, Box::new(e)),
            };
            Ok((StmtV::Assign(name, value), 2 + n))
        },
        Err(err) => Err(err),
    }
}

pub open spec fn parse_expression_stmt(ts: Seq<TokenV>, pos: int) -> Result<(StmtV, nat), ParseError> {
    match parse_expr(ts, pos, 0) {
        Ok((e, n)) => Ok((StmtV::Expression(e), n)),
        Err(err) => Err(err),
    }
}

/// A whole script.
pub open spec fn parse_tokens(ts: Seq<TokenV>) -> Result<Seq<StmtV>, ParseError> {
    match parse_block(ts, 0, false, false) {
        Ok((b, _)) => Ok(b),
        Err(err) => Err(err),
    }
}

/// A whole script, from its source text.
pub open spec fn parse_source(src: Seq<char>) -> Result<Seq<StmtV>, ParseError> {
    match lex(src, 0) {
        Ok(ts) => parse_tokens(ts),
        Err(err) => Err(err),
    }
}


pub open spec fn expr_result(ts: Seq<TokenV>, pos: int, r: Result<(Node<Expr>, usize), ParseError>) -> Result<(ExprV, nat), ParseError> {
    match r {
        Ok((e, p)) => Ok((expr_view(e.kind), (p - pos) as nat)),
        Err(err) => Err(err),
    }
}

pub open spec fn stmt_result(pos: int, r: Result<(Node<Stmt>, usize), ParseError>) -> Result<(StmtV, nat), ParseError> {
    match r {
        Ok((st, p)) => Ok((crate::ast::stmt_view(st.kind), (p - pos) as nat)),
        Err(err) => Err(err),
    }
}

pub open spec fn block_result(pos: int, r: Result<(Vec<Node<Stmt>>, usize), ParseError>) -> Result<(Seq<StmtV>, nat), ParseError> {
    match r {
        Ok((b, p)) => Ok((block_view(b@, 0), (p - pos) as nat)),
        Err(err) => Err(err),
    }
}

pub open spec fn ends_within(pos: int, len: int, r: Result<(Node<Expr>, usize), ParseError>) -> bool {
    r matches Ok((_, p)) ==> pos < p <= len
}

pub proof fn lemma_block_view_cons(st: Node<Stmt>, rest: Seq<Node<Stmt>>)
    ensures
        block_view(seq![st] + rest, 0) == seq![crate::ast::stmt_view(st.kind)] + block_view(rest, 0),
{
    let all = seq![st] + rest;
    lemma_block_view(all, 0);
    lemma_block_view(rest, 0);
    assert(all[0] == st);
    assert forall|k: int| 0 <= k < rest.len() implies all[k + 1] == rest[k] by {}
    assert forall|k: int| 0 <= k < rest.len() implies block_view(all, 0)[k + 1] == block_view(rest, 0)[k] by {
        assert(block_view(all, 0)[(k + 1) - 0] == crate::ast::stmt_view(all[k + 1].kind));
        assert(block_view(rest, 0)[k - 0] == crate::ast::stmt_view(rest[k].kind));
    }
    assert(block_view(all, 0)[0 - 0] == crate::ast::stmt_view(all[0].kind));
    assert(block_view(all, 0) =~= seq![crate::ast::stmt_view(st.kind)] + block_view(rest, 0));
}

/// How tightly a prefix operator binds.
pub fn prefix_binding_power(op: &UaryOperator) -> (r: u8)
    ensures
        r as nat == prefix_bp(*op),
{
    21
}

/// The left and right binding powers of a binary operator.
pub fn infix_binding_power(op: &BinaryOperator) -> (r: (u8, u8))
    ensures
        (r.0 as nat, r.1 as nat) == infix_bp(*op),
{
    match op {
        BinaryOperator::Or => (1, 2),
        BinaryOperator::And => (3, 4),
        BinaryOperator::Eq | BinaryOperator::NotEq => (5, 6),
        BinaryOperator::Lt | BinaryOperator::Lte | BinaryOperator::Gt | BinaryOperator::Gte => (7, 8),
        BinaryOperator::BitwiseOr => (9, 10),
        BinaryOperator::Xor => (11, 12),
        BinaryOperator::BitwiseAnd => (13, 14),
        BinaryOperator::LeftShift | BinaryOperator::RightShift => (15, 16),
        BinaryOperator::Add | BinaryOperator::Subtract => (17, 18),
        BinaryOperator::Multiply | BinaryOperator::Divide | BinaryOperator::Modulo => (19, 20),
    }
}

/// The binary operator that a compound assignment applies; `None` for `=`.
pub fn map_assign_op_to_binary_op(op: AssinOp) -> (r: Option<BinaryOperator>)
    ensures
        r == assign_binary(op),
{
    match op {
        AssinOp::Plain => None,
        AssinOp::AddSet => Some(BinaryOperator::Add),
        AssinOp::SubSet => Some(BinaryOperator::Subtract),
        AssinOp::MulSet => Some(BinaryOperator::Multiply),
        AssinOp::DivSet => Some(BinaryOperator::Divide),
        AssinOp::ModSet => Some(BinaryOperator::Modulo),
        AssinOp::BitAndSet => Some(BinaryOperator::BitwiseAnd),
        AssinOp::BitOrSet => Some(BinaryOperator::BitwiseOr),
        AssinOp::BitXorSet => Some(BinaryOperator::Xor),
        AssinOp::LeftShiftSet => Some(BinaryOperator::LeftShift),
        AssinOp::RightShiftSet => Some(BinaryOperator::RightShift),
    }
}

fn node<T>(kind: T) -> (r: Node<T>)
    ensures
        r.kind == kind,
{
    Node { kind, span: None }
}

fn token_error_at(ts: &Vec<Token>, pos: usize) -> (r: ParseError)
    ensures
        r == token_error(tokens_view(ts@), pos as int),
{
    if pos < ts.len() {
        ParseError::UnexpectedToken(pos)
    } else {
        ParseError::UnexpectedEnd
    }
}

fn is_punct(ts: &Vec<Token>, pos: usize, want: &Token) -> (r: bool)
    requires
        want@ == TokenV::RParen || want@ == TokenV::LBrace || want@ == TokenV::RBrace || want@ == TokenV::Else
            || want@ == TokenV::If || want@ == TokenV::Newline || want@ == TokenV::Semi,
    ensures
        r == is_token(tokens_view(ts@), pos as int, want@),
        ts@.len() <= usize::MAX,
{
    if pos >= ts.len() {
        return false;
    }
    match (&ts[pos], want) {
        (Token::RParen, Token::RParen) => true,
        (Token::LBrace, Token::LBrace) => true,
        (Token::RBrace, Token::RBrace) => true,
        (Token::Else, Token::Else) => true,
        (Token::If, Token::If) => true,
        (Token::Newline, Token::Newline) => true,
        (Token::Semi, Token::Semi) => true,
        _ => false,
    }
}

fn prefix_at(ts: &Vec<Token>, pos: usize) -> (r: Option<UaryOperator>)
    requires
        pos < ts@.len(),
    ensures
        r == prefix_of(tokens_view(ts@)[pos as int]),
{
    match &ts[pos] {
        Token::Bang => Some(UaryOperator::Not),
        Token::Op(BinaryOperator::Subtract) => Some(UaryOperator::Negative),
        Token::Op(BinaryOperator::Add) => Some(UaryOperator::Positive),
        _ => None,
    }
}

/// The binary operator at `pos` with its binding powers, if there is one.
pub fn peek_infix_op(ts: &Vec<Token>, pos: usize) -> (r: Option<(BinaryOperator, u8, u8)>)
    ensures
        match r {
            Some((op, l, rb)) => pos < ts@.len() && tokens_view(ts@)[pos as int] == TokenV::Op(op)
                && infix_bp(op) == (l as nat, rb as nat),
            None => !(pos < ts@.len() && tokens_view(ts@)[pos as int] is Op),
        },
{
    if pos >= ts.len() {
        return None;
    }
    match &ts[pos] {
        Token::Op(op) => {
            let (l, rb) = infix_binding_power(op);
            Some((*op, l, rb))
        },
        _ => None,
    }
}

/// An expression at `pos` whose binary operators bind at least `min_bp`,
/// and the position after it.
pub fn parse_expr_with_precedence(ts: &Vec<Token>, pos: usize, min_bp: u8) -> (r: Result<(Node<Expr>, usize), ParseError>)
    requires
        pos <= ts@.len(),
    ensures
        ends_within(pos as int, ts@.len() as int, r),
        expr_result(tokens_view(ts@), pos as int, r) == parse_expr(tokens_view(ts@), pos as int, min_bp as nat),
    decreases dist(tokens_view(ts@), pos as int), 2nat,
{
    if pos >= ts.len() {
        return Err(ParseError::UnexpectedEnd);
    }
    match prefix_at(ts, pos) {
        Some(u) => {
            let bp = prefix_binding_power(&u);
            match parse_expr_with_precedence(ts, pos + 1, bp) {
                Ok((e, p)) => {
                    let lhs = node(Expr::UnaryOp { op: u, operand: Box::new(e) });
                    parse_infix_at(ts, lhs, p, min_bp, pos)
                },
                Err(err) => Err(err),
            }
        },
        None => match parse_atom_at(ts, pos) {
            Ok((e, p)) => parse_infix_at(ts, e, p, min_bp, pos),
            Err(err) => Err(err),
        },
    }
}

/// A literal, a name or a parenthesised expression at `pos`.
pub fn parse_atom_at(ts: &Vec<Token>, pos: usize) -> (r: Result<(Node<Expr>, usize), ParseError>)
    requires
        pos <= ts@.len(),
    ensures
        ends_within(pos as int, ts@.len() as int, r),
        expr_result(tokens_view(ts@), pos as int, r) == parse_atom(tokens_view(ts@), pos as int),
    decreases dist(tokens_view(ts@), pos as int), 1nat,
{
    if pos >= ts.len() {
        return Err(ParseError::UnexpectedEnd);
    }
    let lit = match &ts[pos] {
        Token::Int(i) => Literal::Int(*i),
        Token::Str(s) => Literal::String(s.clone()),
        Token::True => Literal::Bool(true),
        Token::False => Literal::Bool(false),
        Token::NoneKw => Literal::NoneValue,
        Token::Ident(name) => return Ok((node(Expr::Variable(name.clone())), pos + 1)),
        Token::LParen => {
            return match parse_expr_with_precedence(ts, pos + 1, 0) {
                Ok((e, p)) => if is_punct(ts, p, &Token::RParen) {
                    Ok((e, p + 1))
                } else {
                    Err(token_error_at(ts, p))
                },
                Err(err) => Err(err),
            };
        },
        _ => return Err(ParseError::UnexpectedToken(pos)),
    };
    Ok((node(Expr::Literal(lit)), pos + 1))
}

/// Binary operators that follow `lhs` at `pos`, as long as they bind at
/// least `min_bp`; `start` is where `lhs` began.
pub fn parse_infix_at(ts: &Vec<Token>, lhs: Node<Expr>, pos: usize, min_bp: u8, start: usize) -> (r: Result<(Node<Expr>, usize), ParseError>)
    requires
        start < pos <= ts@.len(),
    ensures
        ends_within(start as int, ts@.len() as int, r),
        match parse_infix(tokens_view(ts@), expr_view(lhs.kind), pos as int, min_bp as nat) {
            Ok((e, n)) => expr_result(tokens_view(ts@), start as int, r) == Ok::<(ExprV, nat), ParseError>((e, (pos - start + n) as nat)),
            Err(err) => r == Err::<(Node<Expr>, usize), ParseError>(err),
        },
    decreases dist(tokens_view(ts@), pos as int), 0nat,
{
    if pos >= ts.len() {
        return Ok((lhs, pos));
    }
    match peek_infix_op(ts, pos) {
        Some((op, l_bp, r_bp)) => {
            if l_bp < min_bp {
                return Ok((lhs, pos));
            }
            match parse_expr_with_precedence(ts, pos + 1, r_bp) {
                Ok((rhs, p)) => {
                    let e = node(Expr::BinaryOp { left: Box::new(lhs), op, right: Box::new(rhs) });
                    parse_infix_at(ts, e, p, min_bp, start)
                },
                Err(err) => Err(err),
            }
        },
        None => Ok((lhs, pos)),
    }
}


/// Statements from `pos` on, up to the closing brace when `braced`, else to
/// the end; and the position after them.
pub fn parse_block_at(ts: &Vec<Token>, pos: usize, in_loop: bool, braced: bool) -> (r: Result<(Vec<Node<Stmt>>, usize), ParseError>)
    requires
        pos <= ts@.len(),
    ensures
        r matches Ok((_, p)) ==> pos <= p <= ts@.len(),
        block_result(pos as int, r) == parse_block(tokens_view(ts@), pos as int, in_loop, braced),
    decreases dist(tokens_view(ts@), pos as int), 2nat,
{
    if pos >= ts.len() {
        if braced {
            return Err(ParseError::UnexpectedEnd);
        } else {
            let b: Vec<Node<Stmt>> = Vec::new();
            assert(block_view(b@, 0) =~= Seq::<StmtV>::empty());
            return Ok((b, pos));
        }
    }
    if is_punct(ts, pos, &Token::Newline) || is_punct(ts, pos, &Token::Semi) {
        return parse_block_at(ts, pos + 1, in_loop, braced);
    }
    if is_punct(ts, pos, &Token::RBrace) {
        if braced {
            let b: Vec<Node<Stmt>> = Vec::new();
            assert(block_view(b@, 0) =~= Seq::<StmtV>::empty());
            return Ok((b, pos + 1));
        } else {
            return Err(ParseError::UnexpectedToken(pos));
        }
    }
    match parse_stmt_at(ts, pos, in_loop) {
        Ok((st, p)) => {
            let ghost first = st;
            let mut b: Vec<Node<Stmt>> = Vec::new();
            b.push(st);
            proof {
                lemma_block_view_cons(first, Seq::empty());
                assert(b@ =~= seq![first] + Seq::<Node<Stmt>>::empty());
                assert(block_view(Seq::<Node<Stmt>>::empty(), 0) =~= Seq::<StmtV>::empty());
                assert(seq![crate::ast::stmt_view(first.kind)] + Seq::<StmtV>::empty() =~= seq![crate::ast::stmt_view(first.kind)]);
            }
            if p >= ts.len() {
                if braced {
                    Err(ParseError::UnexpectedEnd)
                } else {
                    Ok((b, p))
                }
            } else if is_punct(ts, p, &Token::Newline) || is_punct(ts, p, &Token::Semi) {
                match parse_block_at(ts, p + 1, in_loop, braced) {
                    Ok((rest, q)) => {
                        let ghost rest_seq = rest@;
                        let mut rest = rest;
                        b.append(&mut rest);
                        proof {
                            lemma_block_view_cons(first, rest_seq);
                            assert(b@ =~= seq![first] + rest_seq);
                        }
                        Ok((b, q))
                    },
                    Err(err) => Err(err),
                }
            } else if braced && is_punct(ts, p, &Token::RBrace) {
                Ok((b, p + 1))
            } else {
                Err(ParseError::UnexpectedToken(p))
            }
        },
        Err(err) => Err(err),
    }
}

/// A test followed by a braced block, from `pos` on.
pub fn parse_guarded_at(ts: &Vec<Token>, pos: usize, in_loop: bool) -> (r: Result<(Node<Expr>, Vec<Node<Stmt>>, usize), ParseError>)
    requires
        pos <= ts@.len(),
    ensures
        r matches Ok((_, _, p)) ==> pos < p <= ts@.len(),
        parse_guarded(tokens_view(ts@), pos as int, in_loop) == match r {
            Ok((e, b, p)) => Ok::<(ExprV, Seq<StmtV>, nat), ParseError>((expr_view(e.kind), block_view(b@, 0), (p - pos) as nat)),
            Err(err) => Err(err),
        },
    decreases dist(tokens_view(ts@), pos as int), 1nat,
{
    match parse_expr_with_precedence(ts, pos, 0) {
        Ok((test, p)) => if is_punct(ts, p, &Token::LBrace) {
            match parse_block_at(ts, p + 1, in_loop, true) {
                Ok((body, q)) => Ok((test, body, q)),
                Err(err) => Err(err),
            }
        } else {
            Err(token_error_at(ts, p))
        },
        Err(err) => Err(err),
    }
}

/// An optional `else` part at `pos`.
pub fn parse_else_at(ts: &Vec<Token>, pos: usize, in_loop: bool) -> (r: Result<(Option<Vec<Node<Stmt>>>, usize), ParseError>)
    requires
        pos <= ts@.len(),
    ensures
        r matches Ok((_, p)) ==> pos <= p <= ts@.len(),
        parse_else(tokens_view(ts@), pos as int, in_loop) == match r {
            Ok((o, p)) => Ok::<(Option<Seq<StmtV>>, nat), ParseError>((crate::eval::opt_block_view(o), (p - pos) as nat)),
            Err(err) => Err(err),
        },
    decreases dist(tokens_view(ts@), pos as int), 1nat,
{
    if !is_punct(ts, pos, &Token::Else) {
        return Ok((None, pos));
    }
    if is_punct(ts, pos + 1, &Token::LBrace) {
        match parse_block_at(ts, pos + 2, in_loop, true) {
            Ok((b, q)) => Ok((Some(b), q)),
            Err(err) => Err(err),
        }
    } else if is_punct(ts, pos + 1, &Token::If) {
        match parse_stmt_at(ts, pos + 1, in_loop) {
            Ok((st, q)) => {
                let ghost first = st;
                let mut b: Vec<Node<Stmt>> = Vec::new();
                b.push(st);
                proof {
                    lemma_block_view_cons(first, Seq::empty());
                    assert(b@ =~= seq![first] + Seq::<Node<Stmt>>::empty());
                    assert(block_view(Seq::<Node<Stmt>>::empty(), 0) =~= Seq::<StmtV>::empty());
                    assert(seq![crate::ast::stmt_view(first.kind)] + Seq::<StmtV>::empty() =~= seq![crate::ast::stmt_view(first.kind)]);
                }
                Ok((Some(b), q))
            },
            Err(err) => Err(err),
        }
    } else {
        Err(token_error_at(ts, pos + 1))
    }
}

/// The statement at `pos`, and the position after it.
pub fn parse_stmt_at(ts: &Vec<Token>, pos: usize, in_loop: bool) -> (r: Result<(Node<Stmt>, usize), ParseError>)
    requires
        pos <= ts@.len(),
    ensures
        r matches Ok((_, p)) ==> pos < p <= ts@.len(),
        stmt_result(pos as int, r) == parse_stmt(tokens_view(ts@), pos as int, in_loop),
    decreases dist(tokens_view(ts@), pos as int), 0nat,
{
    if pos >= ts.len() {
        return Err(ParseError::UnexpectedEnd);
    }
    match &ts[pos] {
        Token::If => match parse_guarded_at(ts, pos + 1, in_loop) {
            Ok((test, body, p)) => match parse_else_at(ts, p, in_loop) {
                Ok((otherwise, q)) => Ok((node(Stmt::If { test, body, otherwise }), q)),
                Err(err) => Err(err),
            },
            Err(err) => Err(err),
        },
        Token::While => match parse_guarded_at(ts, pos + 1, true) {
            Ok((test, body, p)) => match parse_else_at(ts, p, in_loop) {
                Ok((otherwise, q)) => Ok((node(Stmt::WhileLoop { test, body, otherwise }), q)),
                Err(err) => Err(err),
            },
            Err(err) => Err(err),
        },
        Token::Break => if in_loop {
            Ok((node(Stmt::Break), pos + 1))
        } else {
            Err(ParseError::LoopControlOutsideLoop(pos))
        },
        Token::Continue => if in_loop {
            Ok((node(Stmt::Continue), pos + 1))
        } else {
            Err(ParseError::LoopControlOutsideLoop(pos))
        },
        Token::Ident(name) => {
            if pos + 1 < ts.len() {
                match &ts[pos + 1] {
                    Token::Assign(a) => return parse_assign_at(ts, pos, name, *a),
                    _ => {},
                }
            }
            parse_expression_stmt_at(ts, pos)
        },
        _ => parse_expression_stmt_at(ts, pos),
    }
}

fn parse_assign_at(ts: &Vec<Token>, pos: usize, name: &String, a: AssinOp) -> (r: Result<(Node<Stmt>, usize), ParseError>)
    requires
        pos + 1 < ts@.len(),
    ensures
        r matches Ok((_, p)) ==> pos < p <= ts@.len(),
        stmt_result(pos as int, r) == parse_assign(tokens_view(ts@), pos as int, name@, a),
{
    let n = ts.len();
    match parse_expr_with_precedence(ts, pos + 2, 0) {
        Ok((e, p)) => {
            let ghost ev = expr_view(e.kind);
            let value = match map_assign_op_to_binary_op(a) {
                None => e,
                Some(op) => {
                    let var = node(Expr::Variable(name.clone()));
                    assert(expr_view(var.kind) == ExprV::Var(name@));
                    let b = node(Expr::BinaryOp { left: Box::new(var), op, right: Box::new(e) });
                    assert(expr_view(b.kind) == ExprV::Binary(Box::new(ExprV::Var(name@)), op, Box::new(ev)));
                    b
                },
            };
            let target = name.clone();
            assert(target@ == name@);
            let st = node(Stmt::Assign { target, value });
            assert(crate::ast::stmt_view(st.kind) == StmtV::Assign(name@, expr_view(value.kind)));
            Ok((st, p))
        },
        Err(err) => Err(err),
    }
}

fn parse_expression_stmt_at(ts: &Vec<Token>, pos: usize) -> (r: Result<(Node<Stmt>, usize), ParseError>)
    requires
        pos <= ts@.len(),
    ensures
        r matches Ok((_, p)) ==> pos < p <= ts@.len(),
        stmt_result(pos as int, r) == parse_expression_stmt(tokens_view(ts@), pos as int),
{
    match parse_expr_with_precedence(ts, pos, 0) {
        Ok((e, p)) => Ok((node(Stmt::Expression(e)), p)),
        Err(err) => Err(err),
    }
}

/// Reads a script: its tokens, then its statements.
pub fn parse(source: &str) -> (r: Result<Module, ParseError>)
    ensures
        match r {
            Ok(m) => parse_source(source@) == Ok::<Seq<StmtV>, ParseError>(m.body_view()),
            Err(err) => parse_source(source@) == Err::<Seq<StmtV>, ParseError>(err),
        },
{
    let ts = match tokenize(source) {
        Ok(ts) => ts,
        Err(err) => return Err(err),
    };
    match parse_block_at(&ts, 0, false, false) {
        Ok((body, _)) => Ok(Module { body, span: None }),
        Err(err) => Err(err),
    }
}

} // verus!
