use vstd::prelude::*;

use crate::op::BinaryOperator;
use vstd::std_specs::iter::IteratorSpec;

verus! {

/// Why source text could not be read as a script; each carries the position
/// (in characters or tokens) where reading stopped.
#[derive(Debug, PartialEq, Eq)]
pub enum ParseError {
    UnexpectedChar(usize),
    /// Float literals are not part of this language.
    UnsupportedLiteral(usize),
    IntegerTooLarge(usize),
    UnterminatedString(usize),
    UnexpectedToken(usize),
    UnexpectedEnd,
    /// `break` or `continue` outside a loop.
    LoopControlOutsideLoop(usize),
}

/// Compound assignment operators, and `=` itself.
#[derive(Clone, Copy, Debug, PartialEq, Eq, Structural)]
pub enum AssinOp {
    Plain,
    AddSet,
    SubSet,
    MulSet,
    DivSet,
    ModSet,
    BitAndSet,
    BitOrSet,
    BitXorSet,
    LeftShiftSet,
    RightShiftSet,
}

#[derive(Debug)]
pub enum Token {
    Int(i64),
    Str(String),
    Ident(String),
    True,
    False,
    NoneKw,
    If,
    Else,
    While,
    Break,
    Continue,
    Newline,
    Semi,
    LParen,
    RParen,
    LBrace,
    RBrace,
    Op(BinaryOperator),
    Bang,
    Assign(AssinOp),
}

/// The mathematical form of a token.
pub enum TokenV {
    Int(i64),
    Str(Seq<char>),
    Ident(Seq<char>),
    True,
    False,
    NoneKw,
    If,
    Else,
    While,
    Break,
    Continue,
    Newline,
    Semi,
    LParen,
    RParen,
    LBrace,
    RBrace,
    Op(BinaryOperator),
    Bang,
    Assign(AssinOp),
}

impl View for Token {
    type V = TokenV;

    open spec fn view(&self) -> TokenV {
        match self {
            Token::Int(i) => TokenV::Int(*i),
            Token::Str(s) => TokenV::Str(s@),
            Token::Ident(s) => TokenV::Ident(s@),
            Token::True => TokenV::True,
            Token::False => TokenV::False,
            Token::NoneKw => TokenV::NoneKw,
            Token::If => TokenV::If,
            Token::Else => TokenV::Else,
            Token::While => TokenV::While,
            Token::Break => TokenV::Break,
            Token::Continue => TokenV::Continue,
            Token::Newline => TokenV::Newline,
            Token::Semi => TokenV::Semi,
            Token::LParen => TokenV::LParen,
            Token::RParen => TokenV::RParen,
            Token::LBrace => TokenV::LBrace,
            Token::RBrace => TokenV::RBrace,
            Token::Op(op) => TokenV::Op(*op),
            Token::Bang => TokenV::Bang,
            Token::Assign(a) => TokenV::Assign(*a),
        }
    }
}

pub open spec fn is_digit(c: char) -> bool {
    '0' <= c && c <= '9'
}

pub open spec fn is_ident_start(c: char) -> bool {
    ('a' <= c && c <= 'z') || ('A' <= c && c <= 'Z') || c == '_'
}

pub open spec fn is_ident_char(c: char) -> bool {
    is_ident_start(c) || is_digit(c)
}

pub open spec fn is_blank(c: char) -> bool {
    c == ' ' || c == '\t' || c == '\r'
}

/// How many decimal digits start at `i`.
pub open spec fn digit_run(cs: Seq<char>, i: int) -> nat
    decreases cs.len() - i,
{
    if 0 <= i < cs.len() && is_digit(cs[i]) {
        1 + digit_run(cs, i + 1)
    } else {
        0
    }
}

/// How many name characters start at `i`.
pub open spec fn ident_run(cs: Seq<char>, i: int) -> nat
    decreases cs.len() - i,
{
    if 0 <= i < cs.len() && is_ident_char(cs[i]) {
        1 + ident_run(cs, i + 1)
    } else {
        0
    }
}

/// How many characters other than a double quote start at `i`.
pub open spec fn text_run(cs: Seq<char>, i: int) -> nat
    decreases cs.len() - i,
{
    if 0 <= i < cs.len() && cs[i] != '"' {
        1 + text_run(cs, i + 1)
    } else {
        0
    }
}

pub proof fn lemma_runs(cs: Seq<char>, i: int)
    requires
        0 <= i <= cs.len(),
    ensures
        digit_run(cs, i) <= cs.len() - i,
        ident_run(cs, i) <= cs.len() - i,
        text_run(cs, i) <= cs.len() - i,
    decreases cs.len() - i,
{
    if i < cs.len() {
        lemma_runs(cs, i + 1);
    }
}

/// The number written by the decimal digits `cs[i..j]`.
pub open spec fn digits_value(cs: Seq<char>, i: int, j: int) -> int
    decreases j - i,
{
    if j <= i {
        0
    } else {
        digits_value(cs, i, j - 1) * 10 + (cs[j - 1] as int - '0' as int)
    }
}

/// The token of a word: a keyword, or else a name.
pub open spec fn word_token(w: Seq<char>) -> TokenV {
    if w == "true"@ {
        TokenV::True
    } else if w == "false"@ {
        TokenV::False
    } else if w == "None"@ {
        TokenV::NoneKw
    } else if w == "if"@ {
        TokenV::If
    } else if w == "else"@ {
        TokenV::Else
    } else if w == "while"@ {
        TokenV::While
    } else if w == "break"@ {
        TokenV::Break
    } else if w == "continue"@ {
        TokenV::Continue
    } else {
        TokenV::Ident(w)
    }
}

/// The character at `i`, or a NUL past the end.
pub open spec fn at(cs: Seq<char>, i: int) -> char {
    if 0 <= i < cs.len() {
        cs[i]
    } else {
        '\0'
    }
}

/// The punctuation token that starts at `i`, longest first, and its length.
pub open spec fn punct(cs: Seq<char>, i: int) -> Option<(TokenV, nat)> {
    let c = at(cs, i);
    let d = at(cs, i + 1);
    let e = at(cs, i + 2);
    if c == '<' && d == '<' && e == '=' {
        Some((TokenV::Assign(AssinOp::LeftShiftSet), 3))
    } else if c == '>' && d == '>' && e == '=' {
        Some((TokenV::Assign(AssinOp::RightShiftSet), 3))
    } else if c == '<' && d == '<' {
        Some((TokenV::Op(BinaryOperator::LeftShift), 2))
    } else if c == '>' && d == '>' {
        Some((TokenV::Op(BinaryOperator::RightShift), 2))
    } else if c == '=' && d == '=' {
        Some((TokenV::Op(BinaryOperator::Eq), 2))
    } else if c == '!' && d == '=' {
        Some((TokenV::Op(BinaryOperator::NotEq), 2))
    } else if c == '<' && d == '=' {
        Some((TokenV::Op(BinaryOperator::Lte), 2))
    } else if c == '>' && d == '=' {
        Some((TokenV::Op(BinaryOperator::Gte), 2))
    } else if c == '&' && d == '&' {
        Some((TokenV::Op(BinaryOperator::And), 2))
    } else if c == '|' && d == '|' {
        Some((TokenV::Op(BinaryOperator::Or), 2))
    } else if c == '+' && d == '=' {
        Some((TokenV::Assign(AssinOp::AddSet), 2))
    } else if c == '-' && d == '=' {
        Some((TokenV::Assign(AssinOp::SubSet), 2))
    } else if c == '*' && d == '=' {
        Some((TokenV::Assign(AssinOp::MulSet), 2))
    } else if c == '/' && d == '=' {
        Some((TokenV::Assign(AssinOp::DivSet), 2))
    } else if c == '%' && d == '=' {
        Some((TokenV::Assign(AssinOp::ModSet), 2))
    } else if c == '&' && d == '=' {
        Some((TokenV::Assign(AssinOp::BitAndSet), 2))
    } else if c == '|' && d == '=' {
        Some((TokenV::Assign(AssinOp::BitOrSet), 2))
    } else if c == '^' && d == '=' {
        Some((TokenV::Assign(AssinOp::BitXorSet), 2))
    } else if c == '+' {
        Some((TokenV::Op(BinaryOperator::Add), 1))
    } else if c == '-' {
        Some((TokenV::Op(BinaryOperator::Subtract), 1))
    } else if c == '*' {
        Some((TokenV::Op(BinaryOperator::Multiply), 1))
    } else if c == '/' {
        Some((TokenV::Op(BinaryOperator::Divide), 1))
    } else if c == '%' {
        Some((TokenV::Op(BinaryOperator::Modulo), 1))
    } else if c == '<' {
        Some((TokenV::Op(BinaryOperator::Lt), 1))
    } else if c == '>' {
        Some((TokenV::Op(BinaryOperator::Gt), 1))
    } else if c == '&' {
        Some((TokenV::Op(BinaryOperator::BitwiseAnd), 1))
    } else if c == '|' {
        Some((TokenV::Op(BinaryOperator::BitwiseOr), 1))
    } else if c == '^' {
        Some((TokenV::Op(BinaryOperator::Xor), 1))
    } else if c == '!' {
        Some((TokenV::Bang, 1))
    } else if c == '=' {
        Some((TokenV::Assign(AssinOp::Plain), 1))
    } else if c == '(' {
        Some((TokenV::LParen, 1))
    } else if c == ')' {
        Some((TokenV::RParen, 1))
    } else if c == '{' {
        Some((TokenV::LBrace, 1))
    } else if c == '}' {
        Some((TokenV::RBrace, 1))
    } else if c == ';' {
        Some((TokenV::Semi, 1))
    } else if c == '\n' {
        Some((TokenV::Newline, 1))
    } else {
        None
    }
}

pub open spec fn prepend(t: TokenV, r: Result<Seq<TokenV>, ParseError>) -> Result<Seq<TokenV>, ParseError> {
    match r {
        Ok(ts) => Ok(seq![t] + ts),
        Err(e) => Err(e),
    }
}

/// The tokens of `cs[i..]`. Blanks separate tokens; a newline is a token.
pub open spec fn lex(cs: Seq<char>, i: int) -> Result<Seq<TokenV>, ParseError>
    decreases cs.len() - i,
{
    if i < 0 || i >= cs.len() {
        Ok(Seq::empty())
    } else {
        let c = cs[i];
        proof {
            lemma_runs(cs, i + 1);
        }
        if is_blank(c) {
            lex(cs, i + 1)
        } else if is_digit(c) {
            let j = i + 1 + digit_run(cs, i + 1);
            if at(cs, j) == '.' {
                Err(ParseError::UnsupportedLiteral(i as usize))
            } else if digits_value(cs, i, j) > i64::MAX {
                Err(ParseError::IntegerTooLarge(i as usize))
            } else {
                prepend(TokenV::Int(digits_value(cs, i, j) as i64), lex(cs, j))
            }
        } else if is_ident_start(c) {
            let j = i + 1 + ident_run(cs, i + 1);
            prepend(word_token(cs.subrange(i, j)), lex(cs, j))
        } else if c == '"' {
            let j = i + 1 + text_run(cs, i + 1);
            if j >= cs.len() {
                Err(ParseError::UnterminatedString(i as usize))
            } else {
                prepend(TokenV::Str(cs.subrange(i + 1, j)), lex(cs, j + 1))
            }
        } else {
            match punct(cs, i) {
                Some((t, n)) => if n >= 1 {
                    prepend(t, lex(cs, i + n))
                } else {
                    Err(ParseError::UnexpectedChar(i as usize))
                },
                None => Err(ParseError::UnexpectedChar(i as usize)),
            }
        }
    }
}


pub open spec fn tokens_view(ts: Seq<Token>) -> Seq<TokenV> {
    ts.map_values(|t: Token| t@)
}

pub open spec fn after_tokens(acc: Seq<TokenV>, r: Result<Seq<TokenV>, ParseError>) -> Result<Seq<TokenV>, ParseError> {
    match r {
        Ok(ts) => Ok(acc + ts),
        Err(e) => Err(e),
    }
}

fn char_at(cs: &Vec<char>, i: usize, off: usize) -> (r: char)
    ensures
        r == at(cs@, i + off),
{
    if i < cs.len() && off < cs.len() - i {
        cs[i + off]
    } else {
        '\0'
    }
}

fn punct_at(cs: &Vec<char>, i: usize) -> (r: Option<(Token, usize)>)
    ensures
        match r {
            Some((t, n)) => punct(cs@, i as int) == Some((t@, n as nat)),
            None => punct(cs@, i as int) is None,
        },
{
    let c = char_at(cs, i, 0);
    let d = char_at(cs, i, 1);
    let e = char_at(cs, i, 2);
    if c == '<' && d == '<' && e == '=' {
        Some((Token::Assign(AssinOp::LeftShiftSet), 3usize))
    } else if c == '>' && d == '>' && e == '=' {
        Some((Token::Assign(AssinOp::RightShiftSet), 3usize))
    } else if c == '<' && d == '<' {
        Some((Token::Op(BinaryOperator::LeftShift), 2usize))
    } else if c == '>' && d == '>' {
        Some((Token::Op(BinaryOperator::RightShift), 2usize))
    } else if c == '=' && d == '=' {
        Some((Token::Op(BinaryOperator::Eq), 2usize))
    } else if c == '!' && d == '=' {
        Some((Token::Op(BinaryOperator::NotEq), 2usize))
    } else if c == '<' && d == '=' {
        Some((Token::Op(BinaryOperator::Lte), 2usize))
    } else if c == '>' && d == '=' {
        Some((Token::Op(BinaryOperator::Gte), 2usize))
    } else if c == '&' && d == '&' {
        Some((Token::Op(BinaryOperator::And), 2usize))
    } else if c == '|' && d == '|' {
        Some((Token::Op(BinaryOperator::Or), 2usize))
    } else if c == '+' && d == '=' {
        Some((Token::Assign(AssinOp::AddSet), 2usize))
    } else if c == '-' && d == '=' {
        Some((Token::Assign(AssinOp::SubSet), 2usize))
    } else if c == '*' && d == '=' {
        Some((Token::Assign(AssinOp::MulSet), 2usize))
    } else if c == '/' && d == '=' {
        Some((Token::Assign(AssinOp::DivSet), 2usize))
    } else if c == '%' && d == '=' {
        Some((Token::Assign(AssinOp::ModSet), 2usize))
    } else if c == '&' && d == '=' {
        Some((Token::Assign(AssinOp::BitAndSet), 2usize))
    } else if c == '|' && d == '=' {
        Some((Token::Assign(AssinOp::BitOrSet), 2usize))
    } else if c == '^' && d == '=' {
        Some((Token::Assign(AssinOp::BitXorSet), 2usize))
    } else if c == '+' {
        Some((Token::Op(BinaryOperator::Add), 1usize))
    } else if c == '-' {
        Some((Token::Op(BinaryOperator::Subtract), 1usize))
    } else if c == '*' {
        Some((Token::Op(BinaryOperator::Multiply), 1usize))
    } else if c == '/' {
        Some((Token::Op(BinaryOperator::Divide), 1usize))
    } else if c == '%' {
        Some((Token::Op(BinaryOperator::Modulo), 1usize))
    } else if c == '<' {
        Some((Token::Op(BinaryOperator::Lt), 1usize))
    } else if c == '>' {
        Some((Token::Op(BinaryOperator::Gt), 1usize))
    } else if c == '&' {
        Some((Token::Op(BinaryOperator::BitwiseAnd), 1usize))
    } else if c == '|' {
        Some((Token::Op(BinaryOperator::BitwiseOr), 1usize))
    } else if c == '^' {
        Some((Token::Op(BinaryOperator::Xor), 1usize))
    } else if c == '!' {
        Some((Token::Bang, 1usize))
    } else if c == '=' {
        Some((Token::Assign(AssinOp::Plain), 1usize))
    } else if c == '(' {
        Some((Token::LParen, 1usize))
    } else if c == ')' {
        Some((Token::RParen, 1usize))
    } else if c == '{' {
        Some((Token::LBrace, 1usize))
    } else if c == '}' {
        Some((Token::RBrace, 1usize))
    } else if c == ';' {
        Some((Token::Semi, 1usize))
    } else if c == '\n' {
        Some((Token::Newline, 1usize))
    } else {
        None
    }
}

/// The characters of `s`.
pub fn chars_of(s: &str) -> (r: Vec<char>)
    ensures
        r@ == s@,
{
    broadcast use vstd::string::group_string_axioms;

    let len = s.unicode_len();
    let mut it = s.chars();
    let mut out: Vec<char> = Vec::new();
    while out.len() < len
        invariant
            out@ + it.remaining() == s@,
            len == s@.len(),
        decreases len - out@.len(),
    {
        match it.next() {
            Some(c) => {
                out.push(c);
            },
            None => {
                return out;
            },
        }
    }
    assert(out@ =~= s@);
    out
}

proof fn lemma_digits_grow(cs: Seq<char>, i: int, k: int, j: int)
    requires
        0 <= i <= k <= j <= cs.len(),
        forall|m: int| i <= m < j ==> is_digit(#[trigger] cs[m]),
    ensures
        0 <= digits_value(cs, i, k) <= digits_value(cs, i, j),
    decreases j - i,
{
    if j > k {
        lemma_digits_grow(cs, i, k, j - 1);
    } else if k > i {
        lemma_digits_grow(cs, i, k - 1, k - 1);
    }
}

/// The value of the digits `cs[i..j]`, or `None` when it does not fit an `i64`.
fn read_int(cs: &Vec<char>, i: usize, j: usize) -> (r: Option<i64>)
    requires
        i <= j <= cs@.len(),
        forall|m: int| i <= m < j ==> is_digit(#[trigger] cs@[m]),
    ensures
        match r {
            Some(v) => digits_value(cs@, i as int, j as int) == v,
            None => digits_value(cs@, i as int, j as int) > i64::MAX,
        },
{
    let mut v: i64 = 0;
    let mut k = i;
    while k < j
        invariant
            i <= k <= j <= cs@.len(),
            forall|m: int| i <= m < j ==> is_digit(#[trigger] cs@[m]),
            v == digits_value(cs@, i as int, k as int),
            v >= 0,
        decreases j - k,
    {
        let c = cs[k];
        assert(is_digit(cs@[k as int]));
        let d = (c as u32 - '0' as u32) as i64;
        assert(0 <= d <= 9);
        if v > (i64::MAX - d) / 10 {
            proof {
                assert(v * 10 + d > i64::MAX) by (nonlinear_arith)
                    requires
                        v > (i64::MAX - d) / 10,
                        0 <= d <= 9,
                ;
                assert(digits_value(cs@, i as int, k + 1) == v * 10 + d);
                lemma_digits_grow(cs@, i as int, k + 1, j as int);
            }
            return None;
        }
        assert(v * 10 + d <= i64::MAX) by (nonlinear_arith)
            requires
                v <= (i64::MAX - d) / 10,
                0 <= d <= 9,
                v >= 0,
        ;
        v = v * 10 + d;
        k = k + 1;
    }
    Some(v)
}

fn scan_digits(cs: &Vec<char>, k: usize) -> (r: usize)
    requires
        k <= cs@.len(),
    ensures
        r == k + digit_run(cs@, k as int),
        r <= cs@.len(),
        forall|m: int| k <= m < r ==> is_digit(#[trigger] cs@[m]),
{
    let mut j = k;
    while j < cs.len() && '0' <= cs[j] && cs[j] <= '9'
        invariant
            k <= j <= cs@.len(),
            k + digit_run(cs@, k as int) == j + digit_run(cs@, j as int),
            forall|m: int| k <= m < j ==> is_digit(#[trigger] cs@[m]),
        decreases cs@.len() - j,
    {
        j = j + 1;
    }
    j
}

fn is_name_char(c: char) -> (r: bool)
    ensures
        r == is_ident_char(c),
{
    ('a' <= c && c <= 'z') || ('A' <= c && c <= 'Z') || c == '_' || ('0' <= c && c <= '9')
}

fn scan_ident(cs: &Vec<char>, k: usize) -> (r: usize)
    requires
        k <= cs@.len(),
    ensures
        r == k + ident_run(cs@, k as int),
        r <= cs@.len(),
{
    let mut j = k;
    while j < cs.len() && is_name_char(cs[j])
        invariant
            k <= j <= cs@.len(),
            k + ident_run(cs@, k as int) == j + ident_run(cs@, j as int),
        decreases cs@.len() - j,
    {
        j = j + 1;
    }
    j
}

fn scan_text(cs: &Vec<char>, k: usize) -> (r: usize)
    requires
        k <= cs@.len(),
    ensures
        r == k + text_run(cs@, k as int),
        r <= cs@.len(),
{
    let mut j = k;
    while j < cs.len() && cs[j] != '"'
        invariant
            k <= j <= cs@.len(),
            k + text_run(cs@, k as int) == j + text_run(cs@, j as int),
        decreases cs@.len() - j,
    {
        j = j + 1;
    }
    j
}

fn word_of(w: String) -> (r: Token)
    ensures
        r@ == word_token(w@),
{
    if w == String::from_str("true") {
        Token::True
    } else if w == String::from_str("false") {
        Token::False
    } else if w == String::from_str("None") {
        Token::NoneKw
    } else if w == String::from_str("if") {
        Token::If
    } else if w == String::from_str("else") {
        Token::Else
    } else if w == String::from_str("while") {
        Token::While
    } else if w == String::from_str("break") {
        Token::Break
    } else if w == String::from_str("continue") {
        Token::Continue
    } else {
        Token::Ident(w)
    }
}

/// Splits source text into tokens.
pub fn tokenize(code: &str) -> (r: Result<Vec<Token>, ParseError>)
    ensures
        match r {
            Ok(ts) => lex(code@, 0) == Ok::<Seq<TokenV>, ParseError>(tokens_view(ts@)),
            Err(e) => lex(code@, 0) == Err::<Seq<TokenV>, ParseError>(e),
        },
{
    let cs = chars_of(code);
    let n = cs.len();
    let mut out: Vec<Token> = Vec::new();
    let mut i: usize = 0;
    assert(tokens_view(out@) =~= Seq::<TokenV>::empty());
    assert(after_tokens(Seq::empty(), lex(cs@, 0)) =~~= lex(cs@, 0));
    while i < n
        invariant
            n == cs@.len(),
            cs@ == code@,
            i <= n,
            lex(cs@, 0) == after_tokens(tokens_view(out@), lex(cs@, i as int)),
        decreases n - i,
    {
        let ghost before = tokens_view(out@);
        let c = cs[i];
        if c == ' ' || c == '\t' || c == '\r' {
            i = i + 1;
        } else {
            let tok: Token;
            let next: usize;
            if '0' <= c && c <= '9' {
                let j = scan_digits(&cs, i + 1);
                if char_at(&cs, j, 0) == '.' {
                    return Err(ParseError::UnsupportedLiteral(i));
                }
                match read_int(&cs, i, j) {
                    Some(v) => {
                        tok = Token::Int(v);
                    },
                    None => return Err(ParseError::IntegerTooLarge(i)),
                }
                next = j;
            } else if ('a' <= c && c <= 'z') || ('A' <= c && c <= 'Z') || c == '_' {
                let j = scan_ident(&cs, i + 1);
                let w = String::from_str(code.substring_char(i, j));
                tok = word_of(w);
                next = j;
            } else if c == '"' {
                let j = scan_text(&cs, i + 1);
                if j >= n {
                    return Err(ParseError::UnterminatedString(i));
                }
                tok = Token::Str(String::from_str(code.substring_char(i + 1, j)));
                next = j + 1;
            } else {
                match punct_at(&cs, i) {
                    Some((t, k)) => {
                        tok = t;
                        assert(k <= 3);
                        next = i + k;
                    },
                    None => return Err(ParseError::UnexpectedChar(i)),
                }
            }
            assert(lex(cs@, i as int) == prepend(tok@, lex(cs@, next as int)));
            out.push(tok);
            assert(tokens_view(out@) =~= before.push(tok@));
            assert(before + (seq![tok@] + Seq::<TokenV>::empty()) =~= before.push(tok@));
            proof {
                match lex(cs@, next as int) {
                    Ok(ts) => {
                        assert(before + (seq![tok@] + ts) =~= before.push(tok@) + ts);
                    },
                    Err(_) => {},
                }
            }
            i = next;
        }
    }
    assert(tokens_view(out@) + Seq::<TokenV>::empty() =~= tokens_view(out@));
    Ok(out)
}

} // verus!
