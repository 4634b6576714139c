use vstd::prelude::*;

use crate::error::{Fault, SandboxExecutionError};
use crate::value::{alloc_value, tag_of, TypeTag, Val, Value, ValueKind, VirPyInt};

verus! {

/// The binary operators of the guest language.
#[derive(Clone, Copy, Debug, PartialEq, Eq, Structural)]
pub enum BinaryOperator {
    Add,
    Subtract,
    Multiply,
    Divide,
    Modulo,
    /// Logical and, `&&`.
    And,
    /// Logical or, `||`.
    Or,
    /// Exclusive or, `^`.
    Xor,
    BitwiseAnd,
    BitwiseOr,
    Eq,
    NotEq,
    Lt,
    Lte,
    Gt,
    Gte,
    LeftShift,
    RightShift,
}

/// The unary operators of the guest language.
#[derive(Clone, Copy, Debug, PartialEq, Eq, Structural)]
pub enum UaryOperator {
    Positive,
    Negative,
    Not,
}

/// A typed implementation of a binary operator: it names the operator and
/// the operand types it accepts.
#[derive(Clone, Copy, Debug, PartialEq, Eq, Structural)]
pub enum BinaryImpl {
    IntAdd,
    IntSub,
    IntMul,
    IntDiv,
    IntMod,
    IntBitAnd,
    IntBitOr,
    IntXor,
    IntShl,
    IntShr,
    IntEq,
    IntNe,
    IntLt,
    IntLe,
    IntGt,
    IntGe,
    BoolAnd,
    BoolOr,
    BoolXor,
    BoolBitAnd,
    BoolBitOr,
    BoolEq,
    BoolNe,
    StrConcat,
    StrEq,
    StrNe,
    NoneEq,
    NoneNe,
}

/// A typed implementation of a unary operator.
#[derive(Clone, Copy, Debug, PartialEq, Eq, Structural)]
pub enum UnaryImpl {
    IntPos,
    IntNeg,
    IntNot,
    BoolNot,
}

pub open spec fn binary_impl_op(i: BinaryImpl) -> BinaryOperator {
    match i {
        BinaryImpl::IntAdd => BinaryOperator::Add,
        BinaryImpl::IntSub => BinaryOperator::Subtract,
        BinaryImpl::IntMul => BinaryOperator::Multiply,
        BinaryImpl::IntDiv => BinaryOperator::Divide,
        BinaryImpl::IntMod => BinaryOperator::Modulo,
        BinaryImpl::IntBitAnd => BinaryOperator::BitwiseAnd,
        BinaryImpl::IntBitOr => BinaryOperator::BitwiseOr,
        BinaryImpl::IntXor => BinaryOperator::Xor,
        BinaryImpl::IntShl => BinaryOperator::LeftShift,
        BinaryImpl::IntShr => BinaryOperator::RightShift,
        BinaryImpl::IntEq => BinaryOperator::Eq,
        BinaryImpl::IntNe => BinaryOperator::NotEq,
        BinaryImpl::IntLt => BinaryOperator::Lt,
        BinaryImpl::IntLe => BinaryOperator::Lte,
        BinaryImpl::IntGt => BinaryOperator::Gt,
        BinaryImpl::IntGe => BinaryOperator::Gte,
        BinaryImpl::BoolAnd => BinaryOperator::And,
        BinaryImpl::BoolOr => BinaryOperator::Or,
        BinaryImpl::BoolXor => BinaryOperator::Xor,
        BinaryImpl::BoolBitAnd => BinaryOperator::BitwiseAnd,
        BinaryImpl::BoolBitOr => BinaryOperator::BitwiseOr,
        BinaryImpl::BoolEq => BinaryOperator::Eq,
        BinaryImpl::BoolNe => BinaryOperator::NotEq,
        BinaryImpl::StrConcat => BinaryOperator::Add,
        BinaryImpl::StrEq => BinaryOperator::Eq,
        BinaryImpl::StrNe => BinaryOperator::NotEq,
        BinaryImpl::NoneEq => BinaryOperator::Eq,
        BinaryImpl::NoneNe => BinaryOperator::NotEq,
    }
}

/// The operand type that an implementation accepts, on both sides.
pub open spec fn binary_impl_type(i: BinaryImpl) -> TypeTag {
    match i {
        BinaryImpl::BoolAnd | BinaryImpl::BoolOr | BinaryImpl::BoolXor | BinaryImpl::BoolBitAnd
        | BinaryImpl::BoolBitOr | BinaryImpl::BoolEq | BinaryImpl::BoolNe => TypeTag::Bool,
        BinaryImpl::StrConcat | BinaryImpl::StrEq | BinaryImpl::StrNe => TypeTag::Str,
        BinaryImpl::NoneEq | BinaryImpl::NoneNe => TypeTag::NoneValue,
        _ => TypeTag::Int,
    }
}

pub open spec fn unary_impl_op(i: UnaryImpl) -> UaryOperator {
    match i {
        UnaryImpl::IntPos => UaryOperator::Positive,
        UnaryImpl::IntNeg => UaryOperator::Negative,
        UnaryImpl::IntNot => UaryOperator::Not,
        UnaryImpl::BoolNot => UaryOperator::Not,
    }
}

pub open spec fn unary_impl_type(i: UnaryImpl) -> TypeTag {
    match i {
        UnaryImpl::BoolNot => TypeTag::Bool,
        _ => TypeTag::Int,
    }
}

/// Whether implementation `i` is the one for `op` on operands of types `l` and `r`.
pub open spec fn binary_accepts(i: BinaryImpl, op: BinaryOperator, l: TypeTag, r: TypeTag) -> bool {
    binary_impl_op(i) == op && binary_impl_type(i) == l && binary_impl_type(i) == r
}

pub open spec fn unary_accepts(i: UnaryImpl, op: UaryOperator, t: TypeTag) -> bool {
    unary_impl_op(i) == op && unary_impl_type(i) == t
}

pub open spec fn int_of(v: Val) -> i64 {
    match v {
        Val::Int(i) => i,
        _ => 0,
    }
}

pub open spec fn bool_of(v: Val) -> bool {
    match v {
        Val::Bool(b) => b,
        _ => false,
    }
}

pub open spec fn str_of(v: Val) -> Seq<char> {
    match v {
        Val::Str(s) => s,
        _ => Seq::empty(),
    }
}


/// Integer division, truncated toward zero; the one overflowing case,
/// `i64::MIN / -1`, wraps around to `i64::MIN`.
pub open spec fn int_div(a: i64, b: i64) -> Val {
    if b == 0 {
        Val::Error(Fault::DivideByZero)
    } else {
        match a.checked_div(b) {
            Some(q) => Val::Int(q),
            None => Val::Int(i64::MIN),
        }
    }
}

/// The remainder of truncated division; `i64::MIN % -1` is zero.
pub open spec fn int_mod(a: i64, b: i64) -> Val {
    if b == 0 {
        Val::Error(Fault::DivideByZero)
    } else {
        match a.checked_rem(b) {
            Some(m) => Val::Int(m),
            None => Val::Int(0),
        }
    }
}

/// What implementation `i` computes on operands of the types it accepts.
/// Integer arithmetic wraps around on overflow; shift amounts are taken
/// modulo 64.
pub open spec fn binary_impl_result(i: BinaryImpl, l: Val, r: Val) -> Val {
    let a = int_of(l);
    let b = int_of(r);
    let p = bool_of(l);
    let q = bool_of(r);
    match i {
        BinaryImpl::IntAdd => Val::Int(a.wrapping_add(b)),
        BinaryImpl::IntSub => Val::Int(a.wrapping_sub(b)),
        BinaryImpl::IntMul => Val::Int(a.wrapping_mul(b)),
        BinaryImpl::IntDiv => int_div(a, b),
        BinaryImpl::IntMod => int_mod(a, b),
        BinaryImpl::IntBitAnd => Val::Int(a & b),
        BinaryImpl::IntBitOr => Val::Int(a | b),
        BinaryImpl::IntXor => Val::Int(a ^ b),
        BinaryImpl::IntShl => Val::Int(a.wrapping_shl(b as u32)),
        BinaryImpl::IntShr => Val::Int(a.wrapping_shr(b as u32)),
        BinaryImpl::IntEq => Val::Bool(a == b),
        BinaryImpl::IntNe => Val::Bool(a != b),
        BinaryImpl::IntLt => Val::Bool(a < b),
        BinaryImpl::IntLe => Val::Bool(a <= b),
        BinaryImpl::IntGt => Val::Bool(a > b),
        BinaryImpl::IntGe => Val::Bool(a >= b),
        BinaryImpl::BoolAnd => Val::Bool(p && q),
        BinaryImpl::BoolOr => Val::Bool(p || q),
        BinaryImpl::BoolXor => Val::Bool(p != q),
        BinaryImpl::BoolBitAnd => Val::Bool(p && q),
        BinaryImpl::BoolBitOr => Val::Bool(p || q),
        BinaryImpl::BoolEq => Val::Bool(p == q),
        BinaryImpl::BoolNe => Val::Bool(p != q),
        BinaryImpl::StrConcat => Val::Str(str_of(l) + str_of(r)),
        BinaryImpl::StrEq => Val::Bool(str_of(l) == str_of(r)),
        BinaryImpl::StrNe => Val::Bool(str_of(l) != str_of(r)),
        BinaryImpl::NoneEq => Val::Bool(true),
        BinaryImpl::NoneNe => Val::Bool(false),
    }
}

pub open spec fn unary_impl_result(i: UnaryImpl, v: Val) -> Val {
    match i {
        UnaryImpl::IntPos => Val::Int(int_of(v)),
        UnaryImpl::IntNeg => Val::Int(0i64.wrapping_sub(int_of(v))),
        UnaryImpl::IntNot => Val::Int(!int_of(v)),
        UnaryImpl::BoolNot => Val::Bool(!bool_of(v)),
    }
}

pub open spec fn opt_view(o: Option<ValueKind>) -> Option<Val> {
    match o {
        Some(v) => Some(v@),
        None => None,
    }
}

impl BinaryImpl {
    pub fn operator(&self) -> (r: BinaryOperator)
        ensures
            r == binary_impl_op(*self),
    {
        match self {
        BinaryImpl::IntAdd => BinaryOperator::Add,
        BinaryImpl::IntSub => BinaryOperator::Subtract,
        BinaryImpl::IntMul => BinaryOperator::Multiply,
        BinaryImpl::IntDiv => BinaryOperator::Divide,
        BinaryImpl::IntMod => BinaryOperator::Modulo,
        BinaryImpl::IntBitAnd => BinaryOperator::BitwiseAnd,
        BinaryImpl::IntBitOr => BinaryOperator::BitwiseOr,
        BinaryImpl::IntXor => BinaryOperator::Xor,
        BinaryImpl::IntShl => BinaryOperator::LeftShift,
        BinaryImpl::IntShr => BinaryOperator::RightShift,
        BinaryImpl::IntEq => BinaryOperator::Eq,
        BinaryImpl::IntNe => BinaryOperator::NotEq,
        BinaryImpl::IntLt => BinaryOperator::Lt,
        BinaryImpl::IntLe => BinaryOperator::Lte,
        BinaryImpl::IntGt => BinaryOperator::Gt,
        BinaryImpl::IntGe => BinaryOperator::Gte,
        BinaryImpl::BoolAnd => BinaryOperator::And,
        BinaryImpl::BoolOr => BinaryOperator::Or,
        BinaryImpl::BoolXor => BinaryOperator::Xor,
        BinaryImpl::BoolBitAnd => BinaryOperator::BitwiseAnd,
        BinaryImpl::BoolBitOr => BinaryOperator::BitwiseOr,
        BinaryImpl::BoolEq => BinaryOperator::Eq,
        BinaryImpl::BoolNe => BinaryOperator::NotEq,
        BinaryImpl::StrConcat => BinaryOperator::Add,
        BinaryImpl::StrEq => BinaryOperator::Eq,
        BinaryImpl::StrNe => BinaryOperator::NotEq,
        BinaryImpl::NoneEq => BinaryOperator::Eq,
        BinaryImpl::NoneNe => BinaryOperator::NotEq,
    }
    }

    pub fn operand_type(&self) -> (r: TypeTag)
        ensures
            r == binary_impl_type(*self),
    {
        match self {
            BinaryImpl::BoolAnd | BinaryImpl::BoolOr | BinaryImpl::BoolXor | BinaryImpl::BoolBitAnd
            | BinaryImpl::BoolBitOr | BinaryImpl::BoolEq | BinaryImpl::BoolNe => TypeTag::Bool,
            BinaryImpl::StrConcat | BinaryImpl::StrEq | BinaryImpl::StrNe => TypeTag::Str,
            BinaryImpl::NoneEq | BinaryImpl::NoneNe => TypeTag::NoneValue,
            _ => TypeTag::Int,
        }
    }
}

impl UnaryImpl {
    pub fn operator(&self) -> (r: UaryOperator)
        ensures
            r == unary_impl_op(*self),
    {
        match self {
            UnaryImpl::IntPos => UaryOperator::Positive,
            UnaryImpl::IntNeg => UaryOperator::Negative,
            UnaryImpl::IntNot => UaryOperator::Not,
            UnaryImpl::BoolNot => UaryOperator::Not,
        }
    }

    pub fn operand_type(&self) -> (r: TypeTag)
        ensures
            r == unary_impl_type(*self),
    {
        match self {
            UnaryImpl::BoolNot => TypeTag::Bool,
            _ => TypeTag::Int,
        }
    }
}

fn int_binary(i: BinaryImpl, a: i64, b: i64) -> (r: ValueKind)
    requires
        binary_impl_type(i) == TypeTag::Int,
    ensures
        r@ == binary_impl_result(i, Val::Int(a), Val::Int(b)),
{
    let v = match i {
        BinaryImpl::IntAdd => a.wrapping_add(b),
        BinaryImpl::IntSub => a.wrapping_sub(b),
        BinaryImpl::IntMul => a.wrapping_mul(b),
        BinaryImpl::IntDiv => {
            if b == 0 {
                return ValueKind::Error(SandboxExecutionError::DivideByZero);
            }
            match a.checked_div(b) {
                Some(q) => q,
                None => i64::MIN,
            }
        },
        BinaryImpl::IntMod => {
            if b == 0 {
                return ValueKind::Error(SandboxExecutionError::DivideByZero);
            }
            match a.checked_rem(b) {
                Some(m) => m,
                None => 0,
            }
        },
        BinaryImpl::IntBitAnd => a & b,
        BinaryImpl::IntBitOr => a | b,
        BinaryImpl::IntXor => a ^ b,
        BinaryImpl::IntShl => a.wrapping_shl(b as u32),
        BinaryImpl::IntShr => a.wrapping_shr(b as u32),
        BinaryImpl::IntEq => return ValueKind::Bool(a == b),
        BinaryImpl::IntNe => return ValueKind::Bool(a != b),
        BinaryImpl::IntLt => return ValueKind::Bool(a < b),
        BinaryImpl::IntLe => return ValueKind::Bool(a <= b),
        BinaryImpl::IntGt => return ValueKind::Bool(a > b),
        _ => return ValueKind::Bool(a >= b),
    };
    ValueKind::Int(VirPyInt::new(v))
}

fn bool_binary(i: BinaryImpl, p: bool, q: bool) -> (r: ValueKind)
    requires
        binary_impl_type(i) == TypeTag::Bool,
    ensures
        r@ == binary_impl_result(i, Val::Bool(p), Val::Bool(q)),
{
    let v = match i {
        BinaryImpl::BoolAnd => p && q,
        BinaryImpl::BoolOr => p || q,
        BinaryImpl::BoolXor => p != q,
        BinaryImpl::BoolBitAnd => p && q,
        BinaryImpl::BoolBitOr => p || q,
        BinaryImpl::BoolEq => p == q,
        _ => p != q,
    };
    ValueKind::Bool(v)
}

fn str_binary(i: BinaryImpl, x: &String, y: &String) -> (r: ValueKind)
    requires
        binary_impl_type(i) == TypeTag::Str,
    ensures
        r@ == binary_impl_result(i, Val::Str(x@), Val::Str(y@)),
{
    match i {
        BinaryImpl::StrConcat => {
            let mut c = x.clone();
            c.append(y.as_str());
            ValueKind::Str(c)
        },
        BinaryImpl::StrEq => ValueKind::Bool(*x == *y),
        _ => ValueKind::Bool(!(*x == *y)),
    }
}

/// Applies implementation `i` to operands of the type it accepts.
pub fn apply_binary(i: BinaryImpl, l: &ValueKind, r: &ValueKind) -> (res: ValueKind)
    requires
        binary_impl_type(i) == tag_of(l@),
        binary_impl_type(i) == tag_of(r@),
    ensures
        res@ == binary_impl_result(i, l@, r@),
{
    match (l, r) {
        (ValueKind::Int(a), ValueKind::Int(b)) => int_binary(i, a.value, b.value),
        (ValueKind::Bool(p), ValueKind::Bool(q)) => bool_binary(i, *p, *q),
        (ValueKind::Str(x), ValueKind::Str(y)) => str_binary(i, x, y),
        _ => ValueKind::Bool(i == BinaryImpl::NoneEq),
    }
}

/// Applies unary implementation `i` to an operand of the type it accepts.
pub fn apply_unary(i: UnaryImpl, v: &ValueKind) -> (res: ValueKind)
    requires
        unary_impl_type(i) == tag_of(v@),
    ensures
        res@ == unary_impl_result(i, v@),
{
    match v {
        ValueKind::Bool(p) => ValueKind::Bool(!*p),
        ValueKind::Int(a) => {
            let x = a.value;
            let y = match i {
                UnaryImpl::IntPos => x,
                UnaryImpl::IntNeg => 0i64.wrapping_sub(x),
                _ => !x,
            };
            ValueKind::Int(VirPyInt::new(y))
        },
        _ => ValueKind::NoneValue,
    }
}

/// The first implementation in `table` for `op` on operand types `l` and `r`:
/// the earliest registration wins.
pub open spec fn first_binary(table: Seq<BinaryImpl>, op: BinaryOperator, l: TypeTag, r: TypeTag) -> Option<BinaryImpl>
    decreases table.len(),
{
    if table.len() == 0 {
        None
    } else if binary_accepts(table[0], op, l, r) {
        Some(table[0])
    } else {
        first_binary(table.drop_first(), op, l, r)
    }
}

pub open spec fn first_unary(table: Seq<UnaryImpl>, op: UaryOperator, t: TypeTag) -> Option<UnaryImpl>
    decreases table.len(),
{
    if table.len() == 0 {
        None
    } else if unary_accepts(table[0], op, t) {
        Some(table[0])
    } else {
        first_unary(table.drop_first(), op, t)
    }
}

/// The result of `l op r` under `table`; `None` when no implementation accepts
/// the operand types.
pub open spec fn binary_dispatch(table: Seq<BinaryImpl>, op: BinaryOperator, l: Val, r: Val) -> Option<Val> {
    match first_binary(table, op, tag_of(l), tag_of(r)) {
        Some(i) => Some(binary_impl_result(i, l, r)),
        None => None,
    }
}

pub open spec fn unary_dispatch(table: Seq<UnaryImpl>, op: UaryOperator, v: Val) -> Option<Val> {
    match first_unary(table, op, tag_of(v)) {
        Some(i) => Some(unary_impl_result(i, v)),
        None => None,
    }
}

/// The operator implementations that come with the interpreter, in
/// registration order.
pub open spec fn standard_binary() -> Seq<BinaryImpl> {
    seq![BinaryImpl::IntAdd, BinaryImpl::IntSub, BinaryImpl::IntMul, BinaryImpl::IntDiv, BinaryImpl::IntMod, BinaryImpl::IntBitAnd, BinaryImpl::IntBitOr, BinaryImpl::IntXor, BinaryImpl::IntShl, BinaryImpl::IntShr, BinaryImpl::IntEq, BinaryImpl::IntNe, BinaryImpl::IntLt, BinaryImpl::IntLe, BinaryImpl::IntGt, BinaryImpl::IntGe, BinaryImpl::BoolAnd, BinaryImpl::BoolOr, BinaryImpl::BoolXor, BinaryImpl::BoolBitAnd, BinaryImpl::BoolBitOr, BinaryImpl::BoolEq, BinaryImpl::BoolNe, BinaryImpl::StrConcat, BinaryImpl::StrEq, BinaryImpl::StrNe, BinaryImpl::NoneEq, BinaryImpl::NoneNe]
}

pub open spec fn standard_unary() -> Seq<UnaryImpl> {
    seq![UnaryImpl::IntPos, UnaryImpl::IntNeg, UnaryImpl::IntNot, UnaryImpl::BoolNot]
}

/// The operator dispatch table: for each operator, its typed implementations
/// in registration order. Registration only ever appends.
pub struct Registry {
    pub binary: Vec<BinaryImpl>,
    pub unary: Vec<UnaryImpl>,
}

impl Registry {
    /// A table with no implementation at all.
    pub fn new() -> (r: Registry)
        ensures
            r.binary@ == Seq::<BinaryImpl>::empty(),
            r.unary@ == Seq::<UnaryImpl>::empty(),
    {
        Registry { binary: Vec::new(), unary: Vec::new() }
    }

    /// The table with the interpreter's own implementations.
    pub fn standard() -> (r: Registry)
        ensures
            r.binary@ == standard_binary(),
            r.unary@ == standard_unary(),
    {
        let mut r = Registry::new();
        r.register_binary(BinaryImpl::IntAdd);
        r.register_binary(BinaryImpl::IntSub);
        r.register_binary(BinaryImpl::IntMul);
        r.register_binary(BinaryImpl::IntDiv);
        r.register_binary(BinaryImpl::IntMod);
        r.register_binary(BinaryImpl::IntBitAnd);
        r.register_binary(BinaryImpl::IntBitOr);
        r.register_binary(BinaryImpl::IntXor);
        r.register_binary(BinaryImpl::IntShl);
        r.register_binary(BinaryImpl::IntShr);
        r.register_binary(BinaryImpl::IntEq);
        r.register_binary(BinaryImpl::IntNe);
        r.register_binary(BinaryImpl::IntLt);
        r.register_binary(BinaryImpl::IntLe);
        r.register_binary(BinaryImpl::IntGt);
        r.register_binary(BinaryImpl::IntGe);
        r.register_binary(BinaryImpl::BoolAnd);
        r.register_binary(BinaryImpl::BoolOr);
        r.register_binary(BinaryImpl::BoolXor);
        r.register_binary(BinaryImpl::BoolBitAnd);
        r.register_binary(BinaryImpl::BoolBitOr);
        r.register_binary(BinaryImpl::BoolEq);
        r.register_binary(BinaryImpl::BoolNe);
        r.register_binary(BinaryImpl::StrConcat);
        r.register_binary(BinaryImpl::StrEq);
        r.register_binary(BinaryImpl::StrNe);
        r.register_binary(BinaryImpl::NoneEq);
        r.register_binary(BinaryImpl::NoneNe);
        r.register_unary(UnaryImpl::IntPos);
        r.register_unary(UnaryImpl::IntNeg);
        r.register_unary(UnaryImpl::IntNot);
        r.register_unary(UnaryImpl::BoolNot);
        assert(r.binary@ =~= standard_binary());
        assert(r.unary@ =~= standard_unary());
        r
    }

    /// Appends a binary implementation; earlier ones keep precedence.
    pub fn register_binary(&mut self, i: BinaryImpl)
        ensures
            final(self).binary@ == old(self).binary@.push(i),
            final(self).unary@ == old(self).unary@,
    {
        self.binary.push(i);
    }

    /// Appends a unary implementation; earlier ones keep precedence.
    pub fn register_unary(&mut self, i: UnaryImpl)
        ensures
            final(self).unary@ == old(self).unary@.push(i),
            final(self).binary@ == old(self).binary@,
    {
        self.unary.push(i);
    }

    /// Resolves `l op r` by the runtime types of the operands.
    pub fn dispatch_binary(&self, op: BinaryOperator, l: &ValueKind, r: &ValueKind) -> (res: Option<ValueKind>)
        ensures
            opt_view(res) == binary_dispatch(self.binary@, op, l@, r@),
    {
        let lt = l.type_tag();
        let rt = r.type_tag();
        let n = self.binary.len();
        let mut k: usize = 0;
        assert(self.binary@.subrange(0, n as int) =~= self.binary@);
        while k < n
            invariant
                n == self.binary@.len(),
                0 <= k <= n,
                lt == tag_of(l@),
                rt == tag_of(r@),
                first_binary(self.binary@, op, lt, rt) == first_binary(
                    self.binary@.subrange(k as int, n as int),
                    op,
                    lt,
                    rt,
                ),
            decreases n - k,
        {
            let i = self.binary[k];
            let rest = Ghost(self.binary@.subrange(k as int, n as int));
            assert(rest@[0] == i);
            if i.operator() == op && i.operand_type() == lt && i.operand_type() == rt {
                return Some(apply_binary(i, l, r));
            }
            assert(rest@.drop_first() =~= self.binary@.subrange(k + 1, n as int));
            k = k + 1;
        }
        None
    }

    /// Resolves `op v` by the runtime type of the operand.
    pub fn dispatch_unary(&self, op: UaryOperator, v: &ValueKind) -> (res: Option<ValueKind>)
        ensures
            opt_view(res) == unary_dispatch(self.unary@, op, v@),
    {
        let t = v.type_tag();
        let n = self.unary.len();
        let mut k: usize = 0;
        assert(self.unary@.subrange(0, n as int) =~= self.unary@);
        while k < n
            invariant
                n == self.unary@.len(),
                0 <= k <= n,
                t == tag_of(v@),
                first_unary(self.unary@, op, t) == first_unary(
                    self.unary@.subrange(k as int, n as int),
                    op,
                    t,
                ),
            decreases n - k,
        {
            let i = self.unary[k];
            let rest = Ghost(self.unary@.subrange(k as int, n as int));
            assert(rest@[0] == i);
            if i.operator() == op && i.operand_type() == t {
                return Some(apply_unary(i, v));
            }
            assert(rest@.drop_first() =~= self.unary@.subrange(k + 1, n as int));
            k = k + 1;
        }
        None
    }
}

/// `lhs + rhs` under `registry`, with the result placed in `arena`; `None`
/// when no implementation accepts the operand types.
pub fn op_add<'a>(registry: &Registry, lhs: &ValueKind, rhs: &ValueKind, arena: &'a bumpalo::Bump) -> (r: Option<Value<'a>>)
    ensures
        match r {
            Some(v) => binary_dispatch(registry.binary@, BinaryOperator::Add, lhs@, rhs@) == Some(v@),
            None => binary_dispatch(registry.binary@, BinaryOperator::Add, lhs@, rhs@) is None,
        },
{
    match registry.dispatch_binary(BinaryOperator::Add, lhs, rhs) {
        Some(v) => Some(alloc_value(arena, v)),
        None => None,
    }
}

/// Law: dispatch is total on registered pairs. When some implementation in
/// `table` accepts `op` on the types of `l` and `r`, dispatch gives a result,
/// never "unsupported".
pub proof fn lemma_dispatch_total(table: Seq<BinaryImpl>, i: int, op: BinaryOperator, l: Val, r: Val)
    requires
        0 <= i < table.len(),
        binary_accepts(table[i], op, tag_of(l), tag_of(r)),
    ensures
        binary_dispatch(table, op, l, r) is Some,
    decreases i,
{
    if !binary_accepts(table[0], op, tag_of(l), tag_of(r)) {
        lemma_dispatch_total(table.drop_first(), i - 1, op, l, r);
    }
}

/// Law: the unary form of dispatch totality.
pub proof fn lemma_unary_dispatch_total(table: Seq<UnaryImpl>, i: int, op: UaryOperator, v: Val)
    requires
        0 <= i < table.len(),
        unary_accepts(table[i], op, tag_of(v)),
    ensures
        unary_dispatch(table, op, v) is Some,
    decreases i,
{
    if !unary_accepts(table[0], op, tag_of(v)) {
        lemma_unary_dispatch_total(table.drop_first(), i - 1, op, v);
    }
}

/// When no implementation in `table` accepts the operand types, dispatch
/// reports "unsupported".
pub proof fn lemma_dispatch_none(table: Seq<BinaryImpl>, op: BinaryOperator, l: Val, r: Val)
    requires
        forall|i: int| 0 <= i < table.len() ==> !binary_accepts(#[trigger] table[i], op, tag_of(l), tag_of(r)),
    ensures
        binary_dispatch(table, op, l, r) is None,
    decreases table.len(),
{
    if table.len() > 0 {
        assert forall|i: int| 0 <= i < table.drop_first().len() implies !binary_accepts(
            #[trigger] table.drop_first()[i],
            op,
            tag_of(l),
            tag_of(r),
        ) by {
            assert(table.drop_first()[i] == table[i + 1]);
        }
        lemma_dispatch_none(table.drop_first(), op, l, r);
    }
}

/// Law: with the standard operators, adding an integer and a string is
/// unsupported, in either order; it is neither a crash nor a coerced result.
pub proof fn lemma_add_int_str_unsupported(a: i64, s: Seq<char>)
    ensures
        binary_dispatch(standard_binary(), BinaryOperator::Add, Val::Int(a), Val::Str(s)) is None,
        binary_dispatch(standard_binary(), BinaryOperator::Add, Val::Str(s), Val::Int(a)) is None,
{
    let t = standard_binary();
    assert forall|i: int| 0 <= i < t.len() implies !binary_accepts(#[trigger] t[i], BinaryOperator::Add, TypeTag::Int, TypeTag::Str) by {}
    assert forall|i: int| 0 <= i < t.len() implies !binary_accepts(#[trigger] t[i], BinaryOperator::Add, TypeTag::Str, TypeTag::Int) by {}
    lemma_dispatch_none(t, BinaryOperator::Add, Val::Int(a), Val::Str(s));
    lemma_dispatch_none(t, BinaryOperator::Add, Val::Str(s), Val::Int(a));
}

/// Law: with the standard operators, integer division or remainder by zero is
/// the DivideByZero failure, not a value.
pub proof fn lemma_divide_by_zero(a: i64)
    ensures
        binary_dispatch(standard_binary(), BinaryOperator::Divide, Val::Int(a), Val::Int(0)) == Some(
            Val::Error(Fault::DivideByZero),
        ),
        binary_dispatch(standard_binary(), BinaryOperator::Modulo, Val::Int(a), Val::Int(0)) == Some(
            Val::Error(Fault::DivideByZero),
        ),
{
    reveal_with_fuel(first_binary, 6);
    let t = standard_binary();
    assert(t.drop_first().drop_first().drop_first() =~= t.subrange(3, t.len() as int));
    assert(t.drop_first().drop_first().drop_first().drop_first() =~= t.subrange(4, t.len() as int));
}

} // verus!
