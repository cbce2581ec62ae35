//! Arithmetic, comparison and conversion of values.
//!
//! Operations on integers are checked: a result outside the range of 64-bit
//! integers is a runtime error, never a wrapped value. Operations on reals
//! are asked of the host.
use vstd::prelude::*;
use vstd::string::StringExecFns;
use crate::allocator::{heap_vector, Alloc, Obj};
use crate::amatype::Type;
use crate::ama_value::{AmaValue, Value};
use crate::display::{display, display_spec, Shown, ShownView};
use crate::host::{Fault, Num, RealOp, Reply, ReplyView, Request, RequestView};
use crate::module::{modules_of, Module, ModuleState};
use crate::opcode::OpCode;
use crate::text::{decimal, int_decimal, parse_int, push_decimal, push_int, spec_parse_int, str_eq};

verus! {

broadcast use vstd::string::group_string_axioms;

/// What an operation comes to.
#[derive(Debug)]
pub enum Outcome {
    /// The operation has a result.
    Done(AmaValue),
    /// The operation writes a text to the standard output and has the null
    /// value as its result.
    Print(String),
    /// The operation writes a prompt to the standard output and then goes
    /// on to read a line.
    Prompt(String),
    /// The operation fails with a runtime error.
    Error(String),
    /// The operation needs the host.
    Ask(Request),
    /// The operation is not defined on its operands.
    Fault(Fault),
}

/// The mathematical model of an [`Outcome`].
pub enum OutcomeView {
    Done(Value),
    Print(Seq<char>),
    Prompt(Seq<char>),
    Error(Seq<char>),
    Ask(RequestView),
    Fault(Fault),
}

impl View for Outcome {
    type V = OutcomeView;

    open spec fn view(&self) -> OutcomeView {
        match self {
            Outcome::Done(v) => OutcomeView::Done(v@),
            Outcome::Print(t) => OutcomeView::Print(t@),
            Outcome::Prompt(t) => OutcomeView::Prompt(t@),
            Outcome::Error(t) => OutcomeView::Error(t@),
            Outcome::Ask(r) => OutcomeView::Ask(r@),
            Outcome::Fault(f) => OutcomeView::Fault(*f),
        }
    }
}

/// The kind of reply that answers an operation on reals.
#[derive(Debug, Clone, Copy, PartialEq, Eq, Structural)]
pub enum ReplyKind {
    Real,
    Bool,
    Int,
    Ints,
}

impl RealOp {
    /// The kind of reply that answers the operation.
    pub open spec fn spec_kind(self) -> ReplyKind {
        match self {
            RealOp::Eq | RealOp::Ne | RealOp::Lt | RealOp::Le | RealOp::Gt | RealOp::Ge => {
                ReplyKind::Bool
            },
            RealOp::Trunc | RealOp::Round | RealOp::Floor | RealOp::Ceil => ReplyKind::Int,
            RealOp::TruncBoth => ReplyKind::Ints,
            _ => ReplyKind::Real,
        }
    }

    /// The kind of reply that answers the operation.
    pub fn kind(self) -> (k: ReplyKind)
        ensures
            k == self.spec_kind(),
    {
        match self {
            RealOp::Eq | RealOp::Ne | RealOp::Lt | RealOp::Le | RealOp::Gt | RealOp::Ge => {
                ReplyKind::Bool
            },
            RealOp::Trunc | RealOp::Round | RealOp::Floor | RealOp::Ceil => ReplyKind::Int,
            RealOp::TruncBoth => ReplyKind::Ints,
            _ => ReplyKind::Real,
        }
    }
}

/// The value that a reply gives as the result of an operation on reals, if
/// the reply is of the kind that answers the operation.
pub open spec fn answer(op: RealOp, reply: ReplyView) -> Option<Value> {
    match (op.spec_kind(), reply) {
        (ReplyKind::Real, ReplyView::Real(bits)) => Some(Value::Real(bits)),
        (ReplyKind::Bool, ReplyView::Bool(b)) => Some(Value::Bool(b)),
        (ReplyKind::Int, ReplyView::Int(i)) => Some(Value::Int(i)),
        _ => None,
    }
}

/// An operation on reals: asked of the host while there is no reply, and
/// done with the reply's value once there is one.
pub open spec fn ask(op: RealOp, a: Num, b: Num, reply: ReplyView) -> OutcomeView {
    if reply is Nothing {
        OutcomeView::Ask(RequestView::Real(op, a, b))
    } else {
        match answer(op, reply) {
            Some(v) => OutcomeView::Done(v),
            None => OutcomeView::Fault(Fault::BadReply),
        }
    }
}

/// An operation on reals: asked of the host while there is no reply, and
/// done with the reply's value once there is one.
pub fn ask_host(op: RealOp, a: Num, b: Num, reply: &Reply) -> (r: Outcome)
    ensures
        r@ == ask(op, a, b, reply@),
{
    match reply {
        Reply::Nothing => Outcome::Ask(Request::Real(op, a, b)),
        Reply::Real(bits) => match op.kind() {
            ReplyKind::Real => Outcome::Done(AmaValue::Real(*bits)),
            _ => Outcome::Fault(Fault::BadReply),
        },
        Reply::Bool(b) => match op.kind() {
            ReplyKind::Bool => Outcome::Done(AmaValue::Bool(*b)),
            _ => Outcome::Fault(Fault::BadReply),
        },
        Reply::Int(i) => match op.kind() {
            ReplyKind::Int => Outcome::Done(AmaValue::Int(*i)),
            _ => Outcome::Fault(Fault::BadReply),
        },
        _ => Outcome::Fault(Fault::BadReply),
    }
}

/// Whether the bits are those of a zero: in IEEE 754 binary64, the bits of
/// positive zero are all clear and those of negative zero have only the
/// sign set.
pub open spec fn spec_real_is_zero(bits: u64) -> bool {
    bits == 0 || bits == 0x8000_0000_0000_0000
}

/// Whether the bits are those of a zero.
pub fn real_is_zero(bits: u64) -> (r: bool)
    ensures
        r == spec_real_is_zero(bits),
{
    bits == 0 || bits == 0x8000_0000_0000_0000
}

impl Num {
    /// Whether the number is zero.
    pub open spec fn spec_is_zero(self) -> bool {
        match self {
            Num::Int(i) => i == 0,
            Num::Real(bits) => spec_real_is_zero(bits),
        }
    }

    /// The integer that the number is, or `other` where the number is a
    /// real.
    pub open spec fn spec_int_or(self, other: i64) -> i64 {
        match self {
            Num::Int(i) => i,
            Num::Real(_) => other,
        }
    }

    /// The integer that the number is, or `other` where the number is a
    /// real.
    pub fn int_or(self, other: i64) -> (r: i64)
        ensures
            r == self.spec_int_or(other),
    {
        match self {
            Num::Int(i) => i,
            Num::Real(_) => other,
        }
    }

    /// Whether the number is zero.
    pub fn is_zero(self) -> (r: bool)
        ensures
            r == self.spec_is_zero(),
    {
        match self {
            Num::Int(i) => i == 0,
            Num::Real(bits) => real_is_zero(bits),
        }
    }
}

/// The outcome of a checked operation on integers: its result, or the
/// overflow error where there is none.
pub open spec fn checked(result: Option<i64>) -> OutcomeView {
    match result {
        Some(i) => OutcomeView::Done(Value::Int(i)),
        None => OutcomeView::Error(
            "Erro ao realizar operação aritmética. Resultado fora do intervalo de inteiros representáveis"@,
        ),
    }
}

fn checked_outcome(result: Option<i64>) -> (r: Outcome)
    ensures
        r@ == checked(result),
{
    match result {
        Some(i) => Outcome::Done(AmaValue::Int(i)),
        None => Outcome::Error(
            String::from_str(
                "Erro ao realizar operação aritmética. Resultado fora do intervalo de inteiros representáveis",
            ),
        ),
    }
}

/// The error of a division by zero.
pub open spec fn div_by_zero() -> OutcomeView {
    OutcomeView::Error("não pode dividir um número por zero"@)
}

/// The error of a remainder of a division by zero.
pub open spec fn rem_by_zero() -> OutcomeView {
    OutcomeView::Error("não pode calcular o resto da divisão de um número por zero"@)
}

fn div_by_zero_outcome() -> (r: Outcome)
    ensures
        r@ == div_by_zero(),
{
    Outcome::Error(String::from_str("não pode dividir um número por zero"))
}

fn rem_by_zero_outcome() -> (r: Outcome)
    ensures
        r@ == rem_by_zero(),
{
    Outcome::Error(String::from_str("não pode calcular o resto da divisão de um número por zero"))
}

/// A binary operation on two integers.
pub open spec fn int_op(op: OpCode, i: i64, j: i64, reply: ReplyView) -> OutcomeView {
    match op {
        OpCode::OpAdd => checked(i.checked_add(j)),
        OpCode::OpMinus => checked(i.checked_sub(j)),
        OpCode::OpMul => checked(i.checked_mul(j)),
        OpCode::OpModulo => if j == 0 {
            rem_by_zero()
        } else {
            checked(i.checked_rem(j))
        },
        OpCode::OpDiv => if j == 0 {
            div_by_zero()
        } else {
            ask(RealOp::Div, Num::Int(i), Num::Int(j), reply)
        },
        OpCode::OpFloorDiv => if j == 0 {
            div_by_zero()
        } else {
            checked(i.checked_div(j))
        },
        OpCode::OpEq => OutcomeView::Done(Value::Bool(i == j)),
        OpCode::OpNotEq => OutcomeView::Done(Value::Bool(i != j)),
        OpCode::OpGreater => OutcomeView::Done(Value::Bool(i > j)),
        OpCode::OpGreaterEq => OutcomeView::Done(Value::Bool(i >= j)),
        OpCode::OpLess => OutcomeView::Done(Value::Bool(i < j)),
        OpCode::OpLessEq => OutcomeView::Done(Value::Bool(i <= j)),
        _ => OutcomeView::Fault(Fault::BadOperand),
    }
}

/// A binary operation on two numbers of which one at least is a real. The
/// floored division divides the operands as integers: an operand that is a
/// real is cut off toward zero by the host first.
pub open spec fn real_op(op: OpCode, a: Num, b: Num, reply: ReplyView) -> OutcomeView {
    match op {
        OpCode::OpAdd => ask(RealOp::Add, a, b, reply),
        OpCode::OpMinus => ask(RealOp::Sub, a, b, reply),
        OpCode::OpMul => ask(RealOp::Mul, a, b, reply),
        OpCode::OpModulo => if b.spec_is_zero() {
            rem_by_zero()
        } else {
            ask(RealOp::Rem, a, b, reply)
        },
        OpCode::OpDiv => if b.spec_is_zero() {
            div_by_zero()
        } else {
            ask(RealOp::Div, a, b, reply)
        },
        OpCode::OpFloorDiv => if b == Num::Int(0) {
            div_by_zero()
        } else {
            match reply {
                ReplyView::Nothing => OutcomeView::Ask(RequestView::Real(RealOp::TruncBoth, a, b)),
                ReplyView::Ints(x, y) => if b.spec_int_or(y) == 0 {
                    div_by_zero()
                } else {
                    checked(a.spec_int_or(x).checked_div(b.spec_int_or(y)))
                },
                _ => OutcomeView::Fault(Fault::BadReply),
            }
        },
        OpCode::OpEq => ask(RealOp::Eq, a, b, reply),
        OpCode::OpNotEq => ask(RealOp::Ne, a, b, reply),
        OpCode::OpGreater => ask(RealOp::Gt, a, b, reply),
        OpCode::OpGreaterEq => ask(RealOp::Ge, a, b, reply),
        OpCode::OpLess => ask(RealOp::Lt, a, b, reply),
        OpCode::OpLessEq => ask(RealOp::Le, a, b, reply),
        _ => OutcomeView::Fault(Fault::BadOperand),
    }
}

/// A binary operation on two booleans.
pub open spec fn bool_op(op: OpCode, p: bool, q: bool) -> OutcomeView {
    match op {
        OpCode::OpAnd => OutcomeView::Done(Value::Bool(p && q)),
        OpCode::OpOr => OutcomeView::Done(Value::Bool(p || q)),
        OpCode::OpEq => OutcomeView::Done(Value::Bool(p == q)),
        OpCode::OpNotEq => OutcomeView::Done(Value::Bool(p != q)),
        _ => OutcomeView::Fault(Fault::BadOperand),
    }
}

/// A binary operation on two texts.
pub open spec fn str_op(op: OpCode, s: Seq<char>, t: Seq<char>) -> OutcomeView {
    match op {
        OpCode::OpEq => OutcomeView::Done(Value::Bool(s == t)),
        OpCode::OpNotEq => OutcomeView::Done(Value::Bool(s != t)),
        _ => OutcomeView::Fault(Fault::BadOperand),
    }
}

/// A binary operation on two null values.
pub open spec fn null_op(op: OpCode) -> OutcomeView {
    match op {
        OpCode::OpEq => OutcomeView::Done(Value::Bool(true)),
        OpCode::OpNotEq => OutcomeView::Done(Value::Bool(false)),
        _ => OutcomeView::Fault(Fault::BadOperand),
    }
}

/// A binary operation. The operands decide the family of the operation:
/// real if either is a real and the other a number, integer if both are
/// integers, boolean if both are booleans, text if both are texts, null if
/// both are the null value. Operands of two families, and operations that a
/// family does not have, are faults.
pub open spec fn binop_spec(left: Value, op: OpCode, right: Value, reply: ReplyView) -> OutcomeView {
    match (left, right) {
        (Value::Int(i), Value::Int(j)) => int_op(op, i, j, reply),
        (Value::Int(i), Value::Real(b)) => real_op(op, Num::Int(i), Num::Real(b), reply),
        (Value::Real(a), Value::Int(j)) => real_op(op, Num::Real(a), Num::Int(j), reply),
        (Value::Real(a), Value::Real(b)) => real_op(op, Num::Real(a), Num::Real(b), reply),
        (Value::Bool(p), Value::Bool(q)) => bool_op(op, p, q),
        (Value::Str(s), Value::Str(t)) => str_op(op, s, t),
        (Value::Nulo, Value::Nulo) => null_op(op),
        _ => OutcomeView::Fault(Fault::BadOperand),
    }
}

fn int_outcome(op: OpCode, i: i64, j: i64, reply: &Reply) -> (r: Outcome)
    ensures
        r@ == int_op(op, i, j, reply@),
{
    match op {
        OpCode::OpAdd => checked_outcome(i.checked_add(j)),
        OpCode::OpMinus => checked_outcome(i.checked_sub(j)),
        OpCode::OpMul => checked_outcome(i.checked_mul(j)),
        OpCode::OpModulo => if j == 0 {
            rem_by_zero_outcome()
        } else {
            checked_outcome(i.checked_rem(j))
        },
        OpCode::OpDiv => if j == 0 {
            div_by_zero_outcome()
        } else {
            ask_host(RealOp::Div, Num::Int(i), Num::Int(j), reply)
        },
        OpCode::OpFloorDiv => if j == 0 {
            div_by_zero_outcome()
        } else {
            checked_outcome(i.checked_div(j))
        },
        OpCode::OpEq => Outcome::Done(AmaValue::Bool(i == j)),
        OpCode::OpNotEq => Outcome::Done(AmaValue::Bool(i != j)),
        OpCode::OpGreater => Outcome::Done(AmaValue::Bool(i > j)),
        OpCode::OpGreaterEq => Outcome::Done(AmaValue::Bool(i >= j)),
        OpCode::OpLess => Outcome::Done(AmaValue::Bool(i < j)),
        OpCode::OpLessEq => Outcome::Done(AmaValue::Bool(i <= j)),
        _ => Outcome::Fault(Fault::BadOperand),
    }
}

fn real_outcome(op: OpCode, a: Num, b: Num, reply: &Reply) -> (r: Outcome)
    ensures
        r@ == real_op(op, a, b, reply@),
{
    match op {
        OpCode::OpAdd => ask_host(RealOp::Add, a, b, reply),
        OpCode::OpMinus => ask_host(RealOp::Sub, a, b, reply),
        OpCode::OpMul => ask_host(RealOp::Mul, a, b, reply),
        OpCode::OpModulo => if b.is_zero() {
            rem_by_zero_outcome()
        } else {
            ask_host(RealOp::Rem, a, b, reply)
        },
        OpCode::OpDiv => if b.is_zero() {
            div_by_zero_outcome()
        } else {
            ask_host(RealOp::Div, a, b, reply)
        },
        OpCode::OpFloorDiv => {
            match b {
                Num::Int(j) => {
                    if j == 0 {
                        return div_by_zero_outcome();
                    }
                },
                _ => {},
            }
            match reply {
                Reply::Nothing => Outcome::Ask(Request::Real(RealOp::TruncBoth, a, b)),
                Reply::Ints(x, y) => {
                    let left: i64 = a.int_or(*x);
                    let right: i64 = b.int_or(*y);
                    if right == 0 {
                        div_by_zero_outcome()
                    } else {
                        checked_outcome(left.checked_div(right))
                    }
                },
                _ => Outcome::Fault(Fault::BadReply),
            }
        },
        OpCode::OpEq => ask_host(RealOp::Eq, a, b, reply),
        OpCode::OpNotEq => ask_host(RealOp::Ne, a, b, reply),
        OpCode::OpGreater => ask_host(RealOp::Gt, a, b, reply),
        OpCode::OpGreaterEq => ask_host(RealOp::Ge, a, b, reply),
        OpCode::OpLess => ask_host(RealOp::Lt, a, b, reply),
        OpCode::OpLessEq => ask_host(RealOp::Le, a, b, reply),
        _ => Outcome::Fault(Fault::BadOperand),
    }
}

fn bool_outcome(op: OpCode, p: bool, q: bool) -> (r: Outcome)
    ensures
        r@ == bool_op(op, p, q),
{
    match op {
        OpCode::OpAnd => Outcome::Done(AmaValue::Bool(p && q)),
        OpCode::OpOr => Outcome::Done(AmaValue::Bool(p || q)),
        OpCode::OpEq => Outcome::Done(AmaValue::Bool(p == q)),
        OpCode::OpNotEq => Outcome::Done(AmaValue::Bool(p != q)),
        _ => Outcome::Fault(Fault::BadOperand),
    }
}

fn str_outcome(op: OpCode, s: &str, t: &str) -> (r: Outcome)
    ensures
        r@ == str_op(op, s@, t@),
{
    match op {
        OpCode::OpEq => Outcome::Done(AmaValue::Bool(str_eq(s, t))),
        OpCode::OpNotEq => Outcome::Done(AmaValue::Bool(!str_eq(s, t))),
        _ => Outcome::Fault(Fault::BadOperand),
    }
}

fn null_outcome(op: OpCode) -> (r: Outcome)
    ensures
        r@ == null_op(op),
{
    match op {
        OpCode::OpEq => Outcome::Done(AmaValue::Bool(true)),
        OpCode::OpNotEq => Outcome::Done(AmaValue::Bool(false)),
        _ => Outcome::Fault(Fault::BadOperand),
    }
}

impl AmaValue {
    /// A binary operation on two values.
    pub fn binop(left: &AmaValue, op: OpCode, right: &AmaValue, reply: &Reply) -> (r: Outcome)
        ensures
            r@ == binop_spec(left@, op, right@, reply@),
    {
        match (left, right) {
            (AmaValue::Int(i), AmaValue::Int(j)) => int_outcome(op, *i, *j, reply),
            (AmaValue::Int(i), AmaValue::Real(b)) => real_outcome(
                op,
                Num::Int(*i),
                Num::Real(*b),
                reply,
            ),
            (AmaValue::Real(a), AmaValue::Int(j)) => real_outcome(
                op,
                Num::Real(*a),
                Num::Int(*j),
                reply,
            ),
            (AmaValue::Real(a), AmaValue::Real(b)) => real_outcome(
                op,
                Num::Real(*a),
                Num::Real(*b),
                reply,
            ),
            (AmaValue::Bool(p), AmaValue::Bool(q)) => bool_outcome(op, *p, *q),
            (AmaValue::Str(s), AmaValue::Str(t)) => str_outcome(op, s.as_str(), t.as_str()),
            (AmaValue::Nulo, AmaValue::Nulo) => null_outcome(op),
            _ => Outcome::Fault(Fault::BadOperand),
        }
    }

    /// Checks an index into the vector that the value refers to: nothing is
    /// wrong with an index from zero up to the length, the length left out.
    pub fn vec_index_check(&self, idx: i64, alloc: &Alloc) -> (r: Result<(), String>)
        requires
            self@ is Vector,
            heap_vector(alloc@, self@->Vector_0) is Some,
        ensures
            match index_error(heap_vector(alloc@, self@->Vector_0)->0.len(), idx) {
                Some(msg) => r is Err && r->Err_0@ == msg,
                None => r is Ok,
            },
    {
        match self {
            AmaValue::Vector(r) => match alloc.vector(*r) {
                Some(items) => check_index(items.len(), idx),
                None => Ok(()),
            },
            _ => Ok(()),
        }
    }
}

/// What is wrong with an index into a vector of the given length, if
/// anything: the index is negative, or it is not below the length.
pub open spec fn index_error(len: nat, idx: i64) -> Option<Seq<char>> {
    if idx < 0 {
        Some("Erro de índice inválido. Vectores só podem ser indexados com inteiros positivos"@)
    } else if idx >= len {
        Some(
            "Erro de índice inválido. O tamanho do vector é "@ + decimal(len)
                + ", mas tentou aceder o índice "@ + int_decimal(idx as int),
        )
    } else {
        None
    }
}

/// Checks an index into a vector of the given length.
pub fn check_index(len: usize, idx: i64) -> (r: Result<(), String>)
    ensures
        match index_error(len as nat, idx) {
            Some(msg) => r is Err && r->Err_0@ == msg,
            None => r is Ok && 0 <= idx < len,
        },
{
    if idx < 0 {
        return Err(
            String::from_str(
                "Erro de índice inválido. Vectores só podem ser indexados com inteiros positivos",
            ),
        );
    }
    if idx as u64 >= len as u64 {
        let mut msg = String::from_str("Erro de índice inválido. O tamanho do vector é ");
        push_decimal(&mut msg, len as u64);
        msg.append(", mas tentou aceder o índice ");
        push_int(&mut msg, idx);
        return Err(msg);
    }
    Ok(())
}

/// The error of a text that writes no integer.
pub open spec fn not_an_int(s: Seq<char>) -> Seq<char> {
    "A sequência de caracteres '"@ + s + "' não é um inteiro válido"@
}

/// The error of a text that writes no real.
pub open spec fn not_a_real(s: Seq<char>) -> Seq<char> {
    "A sequência de caracteres '"@ + s + "' não é um número real válido"@
}

/// The error of a checked cast between two different types.
pub open spec fn bad_cast(from: Type, to: Type) -> Seq<char> {
    "Conversão inválida. O tipo original do valor é '"@ + from.spec_name()
        + "', mas tentou converter o valor para o tipo '"@ + to.spec_name() + "'"@
}

/// The text `a`, `b` and `c` one after the other.
pub fn join3(a: &str, b: &str, c: &str) -> (r: String)
    ensures
        r@ == a@ + b@ + c@,
{
    let mut r = String::from_str(a);
    r.append(b);
    r.append(c);
    r
}

/// The outcome of a display that stands for a text value.
pub open spec fn shown_outcome(s: ShownView) -> OutcomeView {
    match s {
        ShownView::Text(t) => OutcomeView::Done(Value::Str(t)),
        ShownView::Missing(m) => OutcomeView::Ask(RequestView::Texts(m)),
        ShownView::Fault(f) => OutcomeView::Fault(f),
    }
}

/// A coercion of a value to a type.
///
/// A value of the target type is left as it is. To `texto`, any value goes
/// by its display form. To `int`, a real is cut off toward zero and a text
/// is read as a decimal integer. To `real`, an integer is widened and a text
/// is read as a real. To `bool`, a number is true unless it is zero and a
/// text is true unless it is empty. Every other coercion is a fault.
pub open spec fn cast_spec(
    v: Value,
    target: Type,
    heap: Seq<Obj>,
    modules: Seq<ModuleState>,
    reply: ReplyView,
) -> OutcomeView {
    if v.spec_type() == Some(target) {
        OutcomeView::Done(v)
    } else {
        match target {
            Type::Texto => shown_outcome(display_spec(v, heap, modules, reply)),
            Type::Int => match v {
                Value::Real(bits) => ask(RealOp::Trunc, Num::Real(bits), Num::Int(0), reply),
                Value::Str(s) => match spec_parse_int(s) {
                    Some(i) => OutcomeView::Done(Value::Int(i)),
                    None => OutcomeView::Error(not_an_int(s)),
                },
                _ => OutcomeView::Fault(Fault::BadOperand),
            },
            Type::Real => match v {
                Value::Int(i) => ask(RealOp::Widen, Num::Int(i), Num::Int(0), reply),
                Value::Str(s) => match reply {
                    ReplyView::Nothing => OutcomeView::Ask(RequestView::ParseReal(s)),
                    ReplyView::Real(bits) => OutcomeView::Done(Value::Real(bits)),
                    ReplyView::Invalid => OutcomeView::Error(not_a_real(s)),
                    _ => OutcomeView::Fault(Fault::BadReply),
                },
                _ => OutcomeView::Fault(Fault::BadOperand),
            },
            Type::Bool => match v {
                Value::Int(i) => OutcomeView::Done(Value::Bool(i != 0)),
                Value::Real(bits) => OutcomeView::Done(Value::Bool(!spec_real_is_zero(bits))),
                Value::Str(s) => OutcomeView::Done(Value::Bool(s.len() != 0)),
                _ => OutcomeView::Fault(Fault::BadOperand),
            },
            Type::Vector => OutcomeView::Fault(Fault::BadOperand),
        }
    }
}

/// The outcome of a display that stands for a text value.
pub fn shown_to_outcome(s: Shown) -> (r: Outcome)
    ensures
        r@ == shown_outcome(s@),
{
    match s {
        Shown::Text(t) => Outcome::Done(AmaValue::Str(t)),
        Shown::Missing(m) => Outcome::Ask(Request::Texts(m)),
        Shown::Fault(f) => Outcome::Fault(f),
    }
}

/// A coercion of a value to a type.
pub fn cast(
    value: &AmaValue,
    target: Type,
    alloc: &Alloc,
    modules: &Vec<Module>,
    reply: &Reply,
) -> (r: Outcome)
    ensures
        r@ == cast_spec(value@, target, alloc@, modules_of(modules@), reply@),
{
    match value.type_of() {
        Some(t) => {
            if t == target {
                return Outcome::Done(value.clone());
            }
        },
        None => {},
    }
    match target {
        Type::Texto => shown_to_outcome(display(value, alloc, modules, reply)),
        Type::Int => match value {
            AmaValue::Real(bits) => ask_host(RealOp::Trunc, Num::Real(*bits), Num::Int(0), reply),
            AmaValue::Str(s) => match parse_int(s.as_str()) {
                Some(i) => Outcome::Done(AmaValue::Int(i)),
                None => Outcome::Error(
                    join3("A sequência de caracteres '", s.as_str(), "' não é um inteiro válido"),
                ),
            },
            _ => Outcome::Fault(Fault::BadOperand),
        },
        Type::Real => match value {
            AmaValue::Int(i) => ask_host(RealOp::Widen, Num::Int(*i), Num::Int(0), reply),
            AmaValue::Str(s) => match reply {
                Reply::Nothing => Outcome::Ask(Request::ParseReal(s.clone())),
                Reply::Real(bits) => Outcome::Done(AmaValue::Real(*bits)),
                Reply::Invalid => Outcome::Error(
                    join3(
                        "A sequência de caracteres '",
                        s.as_str(),
                        "' não é um número real válido",
                    ),
                ),
                _ => Outcome::Fault(Fault::BadReply),
            },
            _ => Outcome::Fault(Fault::BadOperand),
        },
        Type::Bool => match value {
            AmaValue::Int(i) => Outcome::Done(AmaValue::Bool(*i != 0)),
            AmaValue::Real(bits) => Outcome::Done(AmaValue::Bool(!real_is_zero(*bits))),
            AmaValue::Str(s) => Outcome::Done(AmaValue::Bool(!s.as_str().is_empty())),
            _ => Outcome::Fault(Fault::BadOperand),
        },
        Type::Vector => Outcome::Fault(Fault::BadOperand),
    }
}

/// A checked cast: the value itself where its dynamic type is the target,
/// an error where it is another type, and a fault where the value has no
/// dynamic type.
pub open spec fn checked_cast_spec(v: Value, target: Type) -> OutcomeView {
    match v.spec_type() {
        None => OutcomeView::Fault(Fault::BadOperand),
        Some(t) => if t == target {
            OutcomeView::Done(v)
        } else {
            OutcomeView::Error(bad_cast(t, target))
        },
    }
}

/// A checked cast of a value to a type.
pub fn checked_cast(value: &AmaValue, target: Type) -> (r: Outcome)
    ensures
        r@ == checked_cast_spec(value@, target),
{
    match value.type_of() {
        None => Outcome::Fault(Fault::BadOperand),
        Some(t) => {
            if crate::amatype::check_cast(t, target) {
                Outcome::Done(value.clone())
            } else {
                let mut msg = String::from_str("Conversão inválida. O tipo original do valor é '");
                msg.append(t.name());
                msg.append("', mas tentou converter o valor para o tipo '");
                msg.append(target.name());
                msg.append("'");
                Outcome::Error(msg)
            }
        },
    }
}

/// A coercion of a value to its own dynamic type gives the value back.
pub proof fn lemma_cast_identity(
    v: Value,
    heap: Seq<Obj>,
    modules: Seq<ModuleState>,
    reply: ReplyView,
)
    requires
        v.spec_type() is Some,
    ensures
        cast_spec(v, v.spec_type()->0, heap, modules, reply) == OutcomeView::Done(v),
{
}

} // verus!
