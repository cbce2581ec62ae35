//! The native functions that the interpreter offers to user programs.
use vstd::prelude::*;
use vstd::string::StringExecFns;
use crate::allocator::{heap_vector, Alloc, HeapObj, Obj};
use crate::amatype::Type;
use crate::ama_value::{values_of, AmaValue, Ref, Value};
use crate::display::{display, display_spec, Shown, ShownView};
use crate::function::Builtin;
use crate::graphemes::{grapheme_clusters, tam, text_len};
use crate::host::{Fault, Num, RealOp, Reply, ReplyView, Request, RequestView};
use crate::module::{modules_of, Module, ModuleState};
use crate::ops::{ask, ask_host, check_index, index_error, Outcome, OutcomeView};
use crate::text::{contains, join2, parse_int, spec_contains, spec_parse_int};

verus! {

broadcast use vstd::string::group_string_axioms;

/// The number that a value holds, if it holds one.
pub open spec fn num_of(v: Value) -> Option<Num> {
    match v {
        Value::Int(i) => Some(Num::Int(i)),
        Value::Real(bits) => Some(Num::Real(bits)),
        _ => None,
    }
}

/// The number that a value holds, if it holds one.
pub fn take_num(v: &AmaValue) -> (r: Option<Num>)
    ensures
        r == num_of(v@),
{
    match v {
        AmaValue::Int(i) => Some(Num::Int(*i)),
        AmaValue::Real(bits) => Some(Num::Real(*bits)),
        _ => None,
    }
}

/// The value that a new cell of a vector holds: zero, false or the empty
/// text. Only the primitive types have one.
pub open spec fn zero_value(t: Type) -> Option<Value> {
    match t {
        Type::Int => Some(Value::Int(0)),
        Type::Real => Some(Value::Real(0)),
        Type::Bool => Some(Value::Bool(false)),
        Type::Texto => Some(Value::Str(Seq::empty())),
        Type::Vector => None,
    }
}

fn make_zero(t: Type) -> (r: Option<AmaValue>)
    ensures
        match r {
            Some(v) => zero_value(t) == Some(v@),
            None => zero_value(t) is None,
        },
{
    match t {
        Type::Int => Some(AmaValue::Int(0)),
        Type::Real => Some(AmaValue::Real(0)),
        Type::Bool => Some(AmaValue::Bool(false)),
        Type::Texto => Some(AmaValue::Str(String::new())),
        Type::Vector => None,
    }
}

/// The heap and the cells after `count` cells have been built, one after the
/// other. With no dimension left a cell is the zero value. Otherwise a cell
/// is a new vector of its own, of the length that the first dimension gives,
/// whose cells are built in the same way from the dimensions that follow it;
/// the vector is allocated once its cells are.
pub open spec fn build_cells(heap: Seq<Obj>, dims: Seq<i64>, zero: Value, count: nat) -> (
    Seq<Obj>,
    Seq<Value>,
)
    decreases dims.len(), count,
{
    if count == 0 {
        (heap, Seq::empty())
    } else {
        let (h1, cells) = build_cells(heap, dims, zero, (count - 1) as nat);
        if dims.len() == 0 {
            (h1, cells.push(zero))
        } else {
            let (h2, inner) = build_cells(h1, dims.drop_first(), zero, dims[0] as nat);
            (h2.push(Obj::Vector(inner)), cells.push(Value::Vector(Ref(h2.len() as usize))))
        }
    }
}

/// The integers that a run of values holds, if every one holds an integer.
pub open spec fn ints_of(vs: Seq<Value>) -> Option<Seq<i64>>
    decreases vs.len(),
{
    if vs.len() == 0 {
        Some(Seq::empty())
    } else {
        match (ints_of(vs.drop_last()), vs.last()) {
            (Some(is), Value::Int(i)) => Some(is.push(i)),
            _ => None,
        }
    }
}

/// Whether some dimension is negative.
pub open spec fn some_negative(dims: Seq<i64>) -> bool {
    exists|i: int| 0 <= i < dims.len() && dims[i] < 0
}

/// The native function `vec(type, d1, ..., dk)`: a new vector of `k`
/// dimensions whose innermost cells hold the zero value of the type.
pub open spec fn vec_spec(args: Seq<Value>, heap: Seq<Obj>) -> (OutcomeView, Seq<Obj>) {
    if args.len() < 2 {
        (OutcomeView::Fault(Fault::BadOperand), heap)
    } else {
        match (args[0], ints_of(args.skip(1))) {
            (Value::Type(t), Some(dims)) => if some_negative(dims) {
                (
                    OutcomeView::Error(
                        "Dimensões de um vector devem ser especificidas por números inteiros positivos"@,
                    ),
                    heap,
                )
            } else {
                match zero_value(t) {
                    None => (OutcomeView::Fault(Fault::BadOperand), heap),
                    Some(zero) => {
                        let (h, cells) = build_cells(heap, dims, zero, 1);
                        (OutcomeView::Done(cells[0]), h)
                    },
                }
            },
            _ => (OutcomeView::Fault(Fault::BadOperand), heap),
        }
    }
}

/// The outcome of a native function that writes the display form of a
/// value, followed by `suffix`.
pub open spec fn print_spec(s: ShownView, suffix: Seq<char>) -> OutcomeView {
    match s {
        ShownView::Text(t) => OutcomeView::Print(t + suffix),
        ShownView::Missing(m) => OutcomeView::Ask(RequestView::Texts(m)),
        ShownView::Fault(f) => OutcomeView::Fault(f),
    }
}

/// The outcome of a native function that shows the display form of a value
/// as a prompt.
pub open spec fn prompt_spec(s: ShownView) -> OutcomeView {
    match s {
        ShownView::Text(t) => OutcomeView::Prompt(t),
        ShownView::Missing(m) => OutcomeView::Ask(RequestView::Texts(m)),
        ShownView::Fault(f) => OutcomeView::Fault(f),
    }
}

/// The ways of reading a line.
#[derive(Debug, Clone, Copy, PartialEq, Eq, Structural)]
pub enum LineKind {
    Text,
    Int,
    Real,
}

/// What a line of input comes to, read in the given way.
pub open spec fn line_spec(kind: LineKind, reply: ReplyView) -> OutcomeView {
    match reply {
        ReplyView::Nothing => OutcomeView::Ask(RequestView::ReadLine),
        ReplyView::Line(text, parsed) => match kind {
            LineKind::Text => OutcomeView::Done(Value::Str(text)),
            LineKind::Int => match spec_parse_int(text) {
                Some(i) => OutcomeView::Done(Value::Int(i)),
                None => OutcomeView::Error("Valor introduzido não é um inteiro válido"@),
            },
            LineKind::Real => match parsed {
                Some(bits) => OutcomeView::Done(Value::Real(bits)),
                None => OutcomeView::Error("Valor introduzido não é um número real válido"@),
            },
        },
        _ => OutcomeView::Fault(Fault::BadReply),
    }
}

/// The native functions `leia`, `leia_int` and `leia_real`: first the
/// prompt, then the line.
pub open spec fn read_spec(
    kind: LineKind,
    args: Seq<Value>,
    heap: Seq<Obj>,
    modules: Seq<ModuleState>,
    reply: ReplyView,
    prompted: bool,
) -> OutcomeView {
    if args.len() < 1 {
        OutcomeView::Fault(Fault::BadOperand)
    } else if !prompted {
        prompt_spec(display_spec(args[0], heap, modules, reply))
    } else {
        line_spec(kind, reply)
    }
}

/// A numeric native function of one argument.
pub open spec fn unary_spec(op: RealOp, args: Seq<Value>, reply: ReplyView) -> OutcomeView {
    if args.len() < 1 {
        OutcomeView::Fault(Fault::BadOperand)
    } else {
        match num_of(args[0]) {
            Some(a) => ask(op, a, Num::Int(0), reply),
            None => OutcomeView::Fault(Fault::BadOperand),
        }
    }
}

/// A numeric native function of two arguments.
pub open spec fn binary_spec(op: RealOp, args: Seq<Value>, reply: ReplyView) -> OutcomeView {
    if args.len() < 2 {
        OutcomeView::Fault(Fault::BadOperand)
    } else {
        match (num_of(args[0]), num_of(args[1])) {
            (Some(a), Some(b)) => ask(op, a, b, reply),
            _ => OutcomeView::Fault(Fault::BadOperand),
        }
    }
}

/// The native function `tam(x)`: the number of grapheme clusters of a text,
/// or the length of a vector.
pub open spec fn tam_spec(args: Seq<Value>, heap: Seq<Obj>) -> OutcomeView {
    if args.len() < 1 {
        OutcomeView::Fault(Fault::BadOperand)
    } else {
        match args[0] {
            Value::Str(s) => OutcomeView::Done(Value::Int(text_len(grapheme_clusters(s)))),
            Value::Vector(r) => match heap_vector(heap, r) {
                Some(items) => OutcomeView::Done(Value::Int(items.len() as i64)),
                None => OutcomeView::Fault(Fault::DanglingRef),
            },
            _ => OutcomeView::Fault(Fault::BadOperand),
        }
    }
}

/// The native function `txt_contem(hay, needle)`: whether the second text
/// occurs in the first.
pub open spec fn txt_contem_spec(args: Seq<Value>) -> OutcomeView {
    if args.len() < 2 {
        OutcomeView::Fault(Fault::BadOperand)
    } else {
        match (args[0], args[1]) {
            (Value::Str(hay), Value::Str(needle)) => OutcomeView::Done(
                Value::Bool(spec_contains(hay, needle)),
            ),
            _ => OutcomeView::Fault(Fault::BadOperand),
        }
    }
}

/// The native function `anexa(vec, value)`: appends the value to the
/// vector; the result is the null value.
pub open spec fn anexa_spec(args: Seq<Value>, heap: Seq<Obj>) -> (OutcomeView, Seq<Obj>) {
    if args.len() < 2 {
        (OutcomeView::Fault(Fault::BadOperand), heap)
    } else {
        match args[0] {
            Value::Vector(r) => match heap_vector(heap, r) {
                Some(items) => (
                    OutcomeView::Done(Value::Nulo),
                    heap.update(r.0 as int, Obj::Vector(items.push(args[1]))),
                ),
                None => (OutcomeView::Fault(Fault::DanglingRef), heap),
            },
            _ => (OutcomeView::Fault(Fault::BadOperand), heap),
        }
    }
}

/// The native function `remova(vec, i)`: removes the item at position `i`
/// from the vector; the result is the removed item.
pub open spec fn remova_spec(args: Seq<Value>, heap: Seq<Obj>) -> (OutcomeView, Seq<Obj>) {
    if args.len() < 2 {
        (OutcomeView::Fault(Fault::BadOperand), heap)
    } else {
        match (args[0], args[1]) {
            (Value::Vector(r), Value::Int(idx)) => match heap_vector(heap, r) {
                Some(items) => match index_error(items.len(), idx) {
                    Some(msg) => (OutcomeView::Error(msg), heap),
                    None => (
                        OutcomeView::Done(items[idx as int]),
                        heap.update(r.0 as int, Obj::Vector(items.remove(idx as int))),
                    ),
                },
                None => (OutcomeView::Fault(Fault::DanglingRef), heap),
            },
            _ => (OutcomeView::Fault(Fault::BadOperand), heap),
        }
    }
}

/// What a call of a native function comes to, and the heap after it.
pub open spec fn native_spec(
    func: Builtin,
    args: Seq<Value>,
    heap: Seq<Obj>,
    modules: Seq<ModuleState>,
    reply: ReplyView,
    prompted: bool,
) -> (OutcomeView, Seq<Obj>) {
    match func {
        Builtin::Escrevaln => if args.len() < 1 {
            (OutcomeView::Fault(Fault::BadOperand), heap)
        } else {
            (print_spec(display_spec(args[0], heap, modules, reply), "\n"@), heap)
        },
        Builtin::Escreva => if args.len() < 1 {
            (OutcomeView::Fault(Fault::BadOperand), heap)
        } else {
            (print_spec(display_spec(args[0], heap, modules, reply), Seq::empty()), heap)
        },
        Builtin::Leia => (read_spec(LineKind::Text, args, heap, modules, reply, prompted), heap),
        Builtin::LeiaInt => (read_spec(LineKind::Int, args, heap, modules, reply, prompted), heap),
        Builtin::LeiaReal => (
            read_spec(LineKind::Real, args, heap, modules, reply, prompted),
            heap,
        ),
        Builtin::Tam => (tam_spec(args, heap), heap),
        Builtin::TxtContem => (txt_contem_spec(args), heap),
        Builtin::Vec => vec_spec(args, heap),
        Builtin::Anexa => anexa_spec(args, heap),
        Builtin::Remova => remova_spec(args, heap),
        Builtin::Abs => (unary_spec(RealOp::Abs, args, reply), heap),
        Builtin::Raizqd => (unary_spec(RealOp::Sqrt, args, reply), heap),
        Builtin::Expoente => (binary_spec(RealOp::Pow, args, reply), heap),
        Builtin::Arredonda => (unary_spec(RealOp::Round, args, reply), heap),
        Builtin::Piso => (unary_spec(RealOp::Floor, args, reply), heap),
        Builtin::Teto => (unary_spec(RealOp::Ceil, args, reply), heap),
        Builtin::Sen => (unary_spec(RealOp::Sin, args, reply), heap),
        Builtin::Cos => (unary_spec(RealOp::Cos, args, reply), heap),
        Builtin::Tan => (unary_spec(RealOp::Tan, args, reply), heap),
        Builtin::Log => (binary_spec(RealOp::Log, args, reply), heap),
        Builtin::Grausprad => (unary_spec(RealOp::ToRadians, args, reply), heap),
        Builtin::Radpgraus => (unary_spec(RealOp::ToDegrees, args, reply), heap),
    }
}

fn print_outcome(s: Shown, suffix: &str) -> (r: Outcome)
    ensures
        r@ == print_spec(s@, suffix@),
{
    match s {
        Shown::Text(t) => Outcome::Print(join2(t.as_str(), suffix)),
        Shown::Missing(m) => Outcome::Ask(Request::Texts(m)),
        Shown::Fault(f) => Outcome::Fault(f),
    }
}

fn prompt_outcome(s: Shown) -> (r: Outcome)
    ensures
        r@ == prompt_spec(s@),
{
    match s {
        Shown::Text(t) => Outcome::Prompt(t),
        Shown::Missing(m) => Outcome::Ask(Request::Texts(m)),
        Shown::Fault(f) => Outcome::Fault(f),
    }
}

/// What a line of input comes to, read in the given way.
pub fn read_line(kind: LineKind, reply: &Reply) -> (r: Outcome)
    ensures
        r@ == line_spec(kind, reply@),
{
    match reply {
        Reply::Nothing => Outcome::Ask(Request::ReadLine),
        Reply::Line(text, parsed) => match kind {
            LineKind::Text => Outcome::Done(AmaValue::Str(text.clone())),
            LineKind::Int => match parse_int(text.as_str()) {
                Some(i) => Outcome::Done(AmaValue::Int(i)),
                None => Outcome::Error(String::from_str("Valor introduzido não é um inteiro válido")),
            },
            LineKind::Real => match parsed {
                Some(bits) => Outcome::Done(AmaValue::Real(*bits)),
                None => Outcome::Error(
                    String::from_str("Valor introduzido não é um número real válido"),
                ),
            },
        },
        _ => Outcome::Fault(Fault::BadReply),
    }
}

fn read_outcome(
    kind: LineKind,
    stack: &Vec<AmaValue>,
    start: usize,
    end: usize,
    alloc: &Alloc,
    modules: &Vec<Module>,
    reply: &Reply,
    prompted: bool,
) -> (r: Outcome)
    requires
        start <= end <= stack.len(),
    ensures
        r@ == read_spec(
            kind,
            values_of(stack@).subrange(start as int, end as int),
            alloc@,
            modules_of(modules@),
            reply@,
            prompted,
        ),
{
    if end - start < 1 {
        Outcome::Fault(Fault::BadOperand)
    } else if !prompted {
        prompt_outcome(display(&stack[start], alloc, modules, reply))
    } else {
        read_line(kind, reply)
    }
}

fn unary_outcome(op: RealOp, stack: &Vec<AmaValue>, start: usize, end: usize, reply: &Reply) -> (r:
    Outcome)
    requires
        start <= end <= stack.len(),
    ensures
        r@ == unary_spec(op, values_of(stack@).subrange(start as int, end as int), reply@),
{
    if end - start < 1 {
        Outcome::Fault(Fault::BadOperand)
    } else {
        match take_num(&stack[start]) {
            Some(a) => ask_host(op, a, Num::Int(0), reply),
            None => Outcome::Fault(Fault::BadOperand),
        }
    }
}

fn binary_outcome(op: RealOp, stack: &Vec<AmaValue>, start: usize, end: usize, reply: &Reply) -> (r:
    Outcome)
    requires
        start <= end <= stack.len(),
    ensures
        r@ == binary_spec(op, values_of(stack@).subrange(start as int, end as int), reply@),
{
    if end - start < 2 {
        Outcome::Fault(Fault::BadOperand)
    } else {
        match (take_num(&stack[start]), take_num(&stack[start + 1])) {
            (Some(a), Some(b)) => ask_host(op, a, b, reply),
            _ => Outcome::Fault(Fault::BadOperand),
        }
    }
}

fn tam_outcome(stack: &Vec<AmaValue>, start: usize, end: usize, alloc: &Alloc) -> (r: Outcome)
    requires
        start <= end <= stack.len(),
    ensures
        r@ == tam_spec(values_of(stack@).subrange(start as int, end as int), alloc@),
{
    if end - start < 1 {
        Outcome::Fault(Fault::BadOperand)
    } else {
        match &stack[start] {
            AmaValue::Str(s) => Outcome::Done(AmaValue::Int(tam(s.as_str()))),
            AmaValue::Vector(r) => match alloc.vector(*r) {
                Some(items) => Outcome::Done(AmaValue::Int(items.len() as i64)),
                None => Outcome::Fault(Fault::DanglingRef),
            },
            _ => Outcome::Fault(Fault::BadOperand),
        }
    }
}

fn txt_contem_outcome(stack: &Vec<AmaValue>, start: usize, end: usize) -> (r: Outcome)
    requires
        start <= end <= stack.len(),
    ensures
        r@ == txt_contem_spec(values_of(stack@).subrange(start as int, end as int)),
{
    if end - start < 2 {
        Outcome::Fault(Fault::BadOperand)
    } else {
        match (&stack[start], &stack[start + 1]) {
            (AmaValue::Str(hay), AmaValue::Str(needle)) => Outcome::Done(
                AmaValue::Bool(contains(hay.as_str(), needle.as_str())),
            ),
            _ => Outcome::Fault(Fault::BadOperand),
        }
    }
}

fn anexa_outcome(stack: &Vec<AmaValue>, start: usize, end: usize, alloc: &mut Alloc) -> (r: Outcome)
    requires
        start <= end <= stack.len(),
    ensures
        (r@, final(alloc)@) == anexa_spec(
            values_of(stack@).subrange(start as int, end as int),
            old(alloc)@,
        ),
{
    if end - start < 2 {
        Outcome::Fault(Fault::BadOperand)
    } else {
        match &stack[start] {
            AmaValue::Vector(r) => {
                if alloc.vector(*r).is_some() {
                    alloc.vec_push(*r, stack[start + 1].clone());
                    Outcome::Done(AmaValue::Nulo)
                } else {
                    Outcome::Fault(Fault::DanglingRef)
                }
            },
            _ => Outcome::Fault(Fault::BadOperand),
        }
    }
}

fn remova_outcome(stack: &Vec<AmaValue>, start: usize, end: usize, alloc: &mut Alloc) -> (r:
    Outcome)
    requires
        start <= end <= stack.len(),
    ensures
        (r@, final(alloc)@) == remova_spec(
            values_of(stack@).subrange(start as int, end as int),
            old(alloc)@,
        ),
{
    if end - start < 2 {
        Outcome::Fault(Fault::BadOperand)
    } else {
        match (&stack[start], &stack[start + 1]) {
            (AmaValue::Vector(r), AmaValue::Int(idx)) => {
                let len: usize = match alloc.vector(*r) {
                    Some(items) => items.len(),
                    None => {
                        return Outcome::Fault(Fault::DanglingRef);
                    },
                };
                match check_index(len, *idx) {
                    Err(msg) => Outcome::Error(msg),
                    Ok(()) => Outcome::Done(alloc.vec_remove(*r, *idx as usize)),
                }
            },
            _ => Outcome::Fault(Fault::BadOperand),
        }
    }
}

/// Builds `count` cells of the dimensions `dims[level..]`.
fn make_cells(alloc: &mut Alloc, dims: &Vec<i64>, level: usize, zero: &AmaValue, count: u64) -> (r:
    Vec<AmaValue>)
    requires
        level <= dims.len(),
        forall|i: int| 0 <= i < dims.len() ==> dims[i] >= 0,
    ensures
        (final(alloc)@, values_of(r@)) == build_cells(
            old(alloc)@,
            dims@.skip(level as int),
            zero@,
            count as nat,
        ),
    decreases dims.len() - level, count,
{
    let ghost rest = dims@.skip(level as int);
    let mut cells: Vec<AmaValue> = Vec::new();
    let mut i: u64 = 0;
    assert(values_of(cells@) =~= Seq::<Value>::empty());
    while i < count
        invariant
            i <= count,
            level <= dims.len(),
            rest == dims@.skip(level as int),
            forall|i: int| 0 <= i < dims.len() ==> dims[i] >= 0,
            (alloc@, values_of(cells@)) == build_cells(old(alloc)@, rest, zero@, i as nat),
        decreases count - i,
    {
        let ghost before = values_of(cells@);
        let ghost h1 = alloc@;
        if level == dims.len() {
            cells.push(zero.clone());
            assert(values_of(cells@) =~= before.push(zero@));
            assert(rest.len() == 0);
        } else {
            assert(rest.drop_first() =~= dims@.skip(level + 1));
            assert(rest[0] == dims@[level as int]);
            assert(rest.len() > 0);
            let inner = make_cells(alloc, dims, level + 1, zero, dims[level] as u64);
            let ghost h2 = alloc@;
            let r = alloc.alloc_ref(HeapObj::Vector(inner));
            cells.push(AmaValue::Vector(r));
            assert(values_of(cells@) =~= before.push(Value::Vector(r)));
            assert((h2, values_of(inner@)) == build_cells(h1, rest.drop_first(), zero@, rest[0] as nat));
        }
        assert(build_cells(old(alloc)@, rest, zero@, (i + 1) as nat) == (alloc@, values_of(cells@)));
        i += 1;
    }
    cells
}

fn collect_dims(stack: &Vec<AmaValue>, start: usize, end: usize) -> (r: Option<Vec<i64>>)
    requires
        start <= end <= stack.len(),
    ensures
        match r {
            Some(dims) => ints_of(values_of(stack@).subrange(start as int, end as int)) == Some(
                dims@,
            ),
            None => ints_of(values_of(stack@).subrange(start as int, end as int)) is None,
        },
{
    let ghost all = values_of(stack@).subrange(start as int, end as int);
    let mut dims: Vec<i64> = Vec::new();
    let mut i: usize = start;
    assert(all.take(0) =~= Seq::<Value>::empty());
    while i < end
        invariant
            start <= i <= end <= stack.len(),
            all == values_of(stack@).subrange(start as int, end as int),
            ints_of(all.take(i - start)) == Some(dims@),
        decreases end - i,
    {
        let ghost next = all.take(i - start + 1);
        proof {
            assert(next.drop_last() =~= all.take(i - start));
            assert(next.last() == stack@[i as int]@);
        }
        match &stack[i] {
            AmaValue::Int(d) => {
                dims.push(*d);
            },
            _ => {
                proof {
                    lemma_ints_prefix(next, all);
                }
                return None;
            },
        }
        i += 1;
    }
    assert(all.take(end - start) =~= all);
    Some(dims)
}

/// If a prefix of a run of values holds something other than integers, so
/// does the run.
pub proof fn lemma_ints_prefix(prefix: Seq<Value>, all: Seq<Value>)
    requires
        prefix.len() <= all.len(),
        prefix == all.take(prefix.len() as int),
        ints_of(prefix) is None,
    ensures
        ints_of(all) is None,
    decreases all.len() - prefix.len(),
{
    if prefix.len() < all.len() {
        let longer = all.take(prefix.len() as int + 1);
        assert(longer.drop_last() =~= prefix);
        lemma_ints_prefix(longer, all);
    } else {
        assert(prefix =~= all);
    }
}

fn has_negative(dims: &Vec<i64>) -> (r: bool)
    ensures
        r == some_negative(dims@),
{
    let mut i: usize = 0;
    while i < dims.len()
        invariant
            i <= dims.len(),
            forall|k: int| 0 <= k < i ==> dims[k] >= 0,
        decreases dims.len() - i,
    {
        if dims[i] < 0 {
            return true;
        }
        i += 1;
    }
    false
}

fn vec_outcome(stack: &Vec<AmaValue>, start: usize, end: usize, alloc: &mut Alloc) -> (r: Outcome)
    requires
        start <= end <= stack.len(),
    ensures
        (r@, final(alloc)@) == vec_spec(
            values_of(stack@).subrange(start as int, end as int),
            old(alloc)@,
        ),
{
    let ghost args = values_of(stack@).subrange(start as int, end as int);
    if end - start < 2 {
        return Outcome::Fault(Fault::BadOperand);
    }
    assert(args.skip(1) =~= values_of(stack@).subrange(start + 1, end as int));
    assert(args[0] == stack@[start as int]@);
    let t: Type = match &stack[start] {
        AmaValue::Type(t) => *t,
        _ => {
            return Outcome::Fault(Fault::BadOperand);
        },
    };
    let dims = match collect_dims(stack, start + 1, end) {
        Some(dims) => dims,
        None => {
            return Outcome::Fault(Fault::BadOperand);
        },
    };
    if has_negative(&dims) {
        return Outcome::Error(
            String::from_str(
                "Dimensões de um vector devem ser especificidas por números inteiros positivos",
            ),
        );
    }
    match make_zero(t) {
        None => Outcome::Fault(Fault::BadOperand),
        Some(zero) => {
            assert(dims@.skip(0) =~= dims@);
            let mut cells = make_cells(alloc, &dims, 0, &zero, 1);
            proof {
                lemma_cells_len(old(alloc)@, dims@, zero@, 1);
            }
            match cells.pop() {
                Some(v) => Outcome::Done(v),
                None => Outcome::Fault(Fault::BadOperand),
            }
        },
    }
}

/// As many cells are built as were asked for.
pub proof fn lemma_cells_len(heap: Seq<Obj>, dims: Seq<i64>, zero: Value, count: nat)
    ensures
        build_cells(heap, dims, zero, count).1.len() == count,
    decreases dims.len(), count,
{
    if count > 0 {
        lemma_cells_len(heap, dims, zero, (count - 1) as nat);
    }
}

/// Calls a native function on the arguments `stack[start..end]`.
pub fn call_native(
    func: Builtin,
    stack: &Vec<AmaValue>,
    start: usize,
    end: usize,
    alloc: &mut Alloc,
    modules: &Vec<Module>,
    reply: &Reply,
    prompted: bool,
) -> (r: Outcome)
    requires
        start <= end <= stack.len(),
    ensures
        (r@, final(alloc)@) == native_spec(
            func,
            values_of(stack@).subrange(start as int, end as int),
            old(alloc)@,
            modules_of(modules@),
            reply@,
            prompted,
        ),
{
    let ghost args = values_of(stack@).subrange(start as int, end as int);
    proof {
        if end - start >= 1 {
            assert(args[0] == stack@[start as int]@);
        }
        reveal_strlit("");
        assert(""@ =~= Seq::<char>::empty());
    }
    match func {
        Builtin::Escrevaln => if end - start < 1 {
            Outcome::Fault(Fault::BadOperand)
        } else {
            print_outcome(display(&stack[start], alloc, modules, reply), "\n")
        },
        Builtin::Escreva => if end - start < 1 {
            Outcome::Fault(Fault::BadOperand)
        } else {
            print_outcome(display(&stack[start], alloc, modules, reply), "")
        },
        Builtin::Leia => read_outcome(
            LineKind::Text,
            stack,
            start,
            end,
            alloc,
            modules,
            reply,
            prompted,
        ),
        Builtin::LeiaInt => read_outcome(
            LineKind::Int,
            stack,
            start,
            end,
            alloc,
            modules,
            reply,
            prompted,
        ),
        Builtin::LeiaReal => read_outcome(
            LineKind::Real,
            stack,
            start,
            end,
            alloc,
            modules,
            reply,
            prompted,
        ),
        Builtin::Tam => tam_outcome(stack, start, end, alloc),
        Builtin::TxtContem => txt_contem_outcome(stack, start, end),
        Builtin::Vec => vec_outcome(stack, start, end, alloc),
        Builtin::Anexa => anexa_outcome(stack, start, end, alloc),
        Builtin::Remova => remova_outcome(stack, start, end, alloc),
        Builtin::Abs => unary_outcome(RealOp::Abs, stack, start, end, reply),
        Builtin::Raizqd => unary_outcome(RealOp::Sqrt, stack, start, end, reply),
        Builtin::Expoente => binary_outcome(RealOp::Pow, stack, start, end, reply),
        Builtin::Arredonda => unary_outcome(RealOp::Round, stack, start, end, reply),
        Builtin::Piso => unary_outcome(RealOp::Floor, stack, start, end, reply),
        Builtin::Teto => unary_outcome(RealOp::Ceil, stack, start, end, reply),
        Builtin::Sen => unary_outcome(RealOp::Sin, stack, start, end, reply),
        Builtin::Cos => unary_outcome(RealOp::Cos, stack, start, end, reply),
        Builtin::Tan => unary_outcome(RealOp::Tan, stack, start, end, reply),
        Builtin::Log => binary_outcome(RealOp::Log, stack, start, end, reply),
        Builtin::Grausprad => unary_outcome(RealOp::ToRadians, stack, start, end, reply),
        Builtin::Radpgraus => unary_outcome(RealOp::ToDegrees, stack, start, end, reply),
    }
}

} // verus!
