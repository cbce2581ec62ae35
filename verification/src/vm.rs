//! The interpreter.
//!
//! The machine executes one instruction per step. A step never blocks and
//! never touches the outside world: what it needs of the host it returns as
//! an [`Action`], and the host's answer comes in with the next step.
use vstd::prelude::*;
use vstd::string::StringExecFns;
use crate::allocator::{Alloc, HeapObj, Obj};
use crate::ama_value::{values_of, AmaValue, Ref, RegistoRef, Value};
use crate::builtins::call_native;
use crate::display::{display, display_all, Shown};
use crate::frames::{FrameStack, RECURSION_LIMIT};
use crate::function::{AmaFunc, Frame};
use crate::graphemes::grapheme_at;
use crate::host::{Fault, Num, RealOp, Reply, Request};
use crate::module::{modules_of, Module, ModuleState};
use crate::opcode::OpCode;
use crate::ops::{ask_host, cast, check_index, checked_cast, shown_to_outcome, Outcome};
use crate::registo::RegObj;
use crate::registry::definitions;
use crate::semantics::{
    advance, nulls, report, resolve, spec_offset_to_line, trace_lines, u16_at, u64_at, ActionView,
    VmState,
};
use crate::tabela::{tabela_get, tabela_insert};
use crate::text::{push_decimal, str_eq};

verus! {

broadcast use vstd::string::group_string_axioms;

/// What the host has to do after a step.
#[derive(Debug)]
pub enum Action {
    /// Nothing: take the next step.
    Continue,
    /// Write the text to the standard output, then take the next step.
    Print(String),
    /// Do the work that the request names, then take the step again with
    /// the reply.
    Ask(Request),
    /// The program has ended.
    Halt,
    /// The program has failed with a runtime error; the text is the report.
    Error(String),
    /// The machine cannot go on.
    Fatal(Fault),
}

impl View for Action {
    type V = ActionView;

    open spec fn view(&self) -> ActionView {
        match self {
            Action::Continue => ActionView::Continue,
            Action::Print(t) => ActionView::Print(t@),
            Action::Ask(r) => ActionView::Ask(r@),
            Action::Halt => ActionView::Halt,
            Action::Error(t) => ActionView::Error(t@),
            Action::Fatal(f) => ActionView::Fatal(*f),
        }
    }
}

/// The source line of an offset into the code: the line of the first triple
/// of `src_map` whose range covers the offset, and zero where none does.
pub fn offset_to_line(offset: usize, src_map: &Vec<usize>) -> (line: usize)
    ensures
        line == spec_offset_to_line(offset, src_map@),
{
    let n: usize = src_map.len();
    let mut i: usize = 0;
    assert(src_map@.skip(0) =~= src_map@);
    while n - i >= 3
        invariant
            i <= n,
            n == src_map.len(),
            spec_offset_to_line(offset, src_map@) == spec_offset_to_line(
                offset,
                src_map@.skip(i as int),
            ),
        decreases n - i,
    {
        if offset >= src_map[i] && offset <= src_map[i + 1] {
            return src_map[i + 2];
        }
        assert(src_map@.skip(i as int).skip(3) =~= src_map@.skip(i + 3));
        i += 3;
    }
    0
}

/// The report of a runtime error that occurred with the given frames
/// active.
pub fn format_report(frames: &FrameStack, src_map: &Vec<usize>, error: &str) -> (text: String)
    requires
        frames.wf(),
        frames@.len() > 0,
    ensures
        text@ == report(frames@, src_map@, error@),
{
    let depth: usize = frames.depth();
    let mut text = if depth > 1 {
        String::from_str("Fluxo de execução:\n")
    } else {
        String::new()
    };
    let ghost header = text@;
    let mut i: usize = depth;
    proof {
        assert(frames@.take(depth as int) =~= frames@);
        assert(header + trace_lines(frames@, src_map@) =~= text@ + trace_lines(
            frames@.take(i as int),
            src_map@,
        ));
    }
    while i > 1
        invariant
            1 <= i <= depth,
            depth == frames@.len(),
            frames.wf(),
            header + trace_lines(frames@, src_map@) == text@ + trace_lines(
                frames@.take(i as int),
                src_map@,
            ),
        decreases i,
    {
        let ghost before = text@;
        let ghost part = frames@.take(i as int);
        i -= 1;
        let f = frames.get(i);
        text.append("    Linha ");
        push_decimal(&mut text, offset_to_line(f.last_i, src_map) as u64);
        text.append(", na função ");
        text.append(f.name.as_str());
        text.append("\n");
        proof {
            assert(part.last() == frames@[i as int]);
            assert(part.drop_last() =~= frames@.take(i as int));
            assert(text@ + trace_lines(frames@.take(i as int), src_map@) =~= before + trace_lines(
                part,
                src_map@,
            ));
        }
    }
    let ghost traced = text@;
    text.append("Erro na linha ");
    push_decimal(&mut text, offset_to_line(frames.get(0).last_i, src_map) as u64);
    text.append(": ");
    text.append(error);
    text.append(".");
    proof {
        assert(trace_lines(frames@.take(1), src_map@) =~= Seq::<char>::empty());
        assert(traced =~= header + trace_lines(frames@, src_map@));
        assert(text@ =~= report(frames@, src_map@, error@));
    }
    text
}

/// The virtual machine.
pub struct AmaVM {
    modules: Vec<Module>,
    current: usize,
    entered: bool,
    frames: FrameStack,
    values: Vec<AmaValue>,
    alloc: Alloc,
    prompted: bool,
}

impl View for AmaVM {
    type V = VmState;

    closed spec fn view(&self) -> VmState {
        VmState {
            modules: modules_of(self.modules@),
            current: self.current,
            entered: self.entered,
            frames: self.frames@,
            stack: values_of(self.values@),
            heap: self.alloc@,
            prompted: self.prompted,
        }
    }
}

impl AmaVM {
    /// The machine is well formed when its state is.
    pub open spec fn wf(&self) -> bool {
        self@.wf()
    }

    /// Whether the machine stands before an instruction of the given kind
    /// whose operands lie within the code, the next instruction at `next`.
    pub open spec fn ready(&self, op: OpCode, next: usize) -> bool {
        &&& self.wf()
        &&& self@.entered
        &&& self@.frames.len() > 0
        &&& self@.top().ip + op.spec_operand_len() < self@.module().code.len()
        &&& next == self@.top().ip + 1 + op.spec_operand_len()
    }

    /// A machine that will run the imports in order and then the main
    /// module. Nothing has run yet: the first step enters the first module.
    pub fn new(imports: Vec<Module>, main: Module, alloc: Alloc) -> (vm: AmaVM)
        ensures
            vm.wf(),
            vm@ == (VmState {
                modules: modules_of(imports@).push(main@),
                current: 0,
                entered: false,
                frames: Seq::empty(),
                stack: Seq::empty(),
                heap: alloc@,
                prompted: false,
            }),
    {
        let mut modules = imports;
        modules.push(main);
        let vm = AmaVM {
            modules,
            current: 0,
            entered: false,
            frames: FrameStack::new(),
            values: Vec::new(),
            alloc,
            prompted: false,
        };
        proof {
            assert(vm@.modules =~= modules_of(imports@).push(main@));
            assert(vm@.stack =~= Seq::<Value>::empty());
            vm.alloc.lemma_len_bounded();
        }
        vm
    }

    /// The number of values on the operand stack.
    pub fn stack_len(&self) -> (n: usize)
        ensures
            n == self@.stack.len(),
    {
        self.values.len()
    }

    /// The value at a depth of the operand stack, the lowest at depth zero.
    pub fn stack_value(&self, i: usize) -> (v: &AmaValue)
        requires
            i < self@.stack.len(),
        ensures
            v@ == self@.stack[i as int],
    {
        &self.values[i]
    }

    /// The number of active frames.
    pub fn depth(&self) -> (n: usize)
        requires
            self.wf(),
        ensures
            n == self@.frames.len(),
    {
        self.frames.depth()
    }

    /// The frame at a depth, the outermost frame at depth zero.
    pub fn frame(&self, i: usize) -> (f: &AmaFunc)
        requires
            i < self@.frames.len(),
        ensures
            f@ == self@.frames[i as int],
    {
        self.frames.get(i)
    }

    /// The allocator of the machine.
    pub fn allocator(&self) -> (a: &Alloc)
        ensures
            a@ == self@.heap,
    {
        &self.alloc
    }

    /// The modules of the machine: the imports, then the main module.
    pub fn modules(&self) -> (m: &Vec<Module>)
        ensures
            modules_of(m@) == self@.modules,
    {
        &self.modules
    }

    proof fn lemma_module(&self)
        requires
            self.wf(),
        ensures
            self.current < self.modules@.len(),
            self@.module() == self.modules@[self.current as int]@,
            self@.module().code == self.modules@[self.current as int].code@,
            self@.modules.len() == self.modules@.len(),
    {
    }

    fn full(&self) -> (r: bool)
        ensures
            r == self@.full(),
    {
        self.values.len() >= isize::MAX as usize
    }

    fn u8_arg(&self) -> (r: u8)
        requires
            self.wf(),
            self@.frames.len() > 0,
            self@.top().ip + 1 < self@.module().code.len(),
        ensures
            r == self@.module().code[self@.top().ip + 1],
    {
        proof {
            self.lemma_module();
        }
        let ip: usize = self.frames.peek().ip;
        let code = &self.modules[self.current].code;
        let len: usize = code.len();
        code[ip + 1]
    }

    fn u16_arg(&self) -> (r: u16)
        requires
            self.wf(),
            self@.frames.len() > 0,
            self@.top().ip + 2 < self@.module().code.len(),
        ensures
            r == u16_at(self@.module().code, self@.top().ip + 1),
    {
        proof {
            self.lemma_module();
        }
        let ip: usize = self.frames.peek().ip;
        let code = &self.modules[self.current].code;
        let len: usize = code.len();
        let hi: u16 = code[ip + 1] as u16;
        let lo: u16 = code[ip + 2] as u16;
        hi * 256 + lo
    }

    fn u64_arg(&self) -> (r: u64)
        requires
            self.wf(),
            self@.frames.len() > 0,
            self@.top().ip + 8 < self@.module().code.len(),
        ensures
            r == u64_at(self@.module().code, self@.top().ip + 1),
    {
        proof {
            self.lemma_module();
        }
        let ip: usize = self.frames.peek().ip;
        let code = &self.modules[self.current].code;
        let len: usize = code.len();
        let b0: u64 = code[ip + 1] as u64;
        let b1: u64 = code[ip + 2] as u64;
        let b2: u64 = code[ip + 3] as u64;
        let b3: u64 = code[ip + 4] as u64;
        let b4: u64 = code[ip + 5] as u64;
        let b5: u64 = code[ip + 6] as u64;
        let b6: u64 = code[ip + 7] as u64;
        let b7: u64 = code[ip + 8] as u64;
        b0 * 0x100_0000_0000_0000 + b1 * 0x1_0000_0000_0000 + b2 * 0x100_0000_0000 + b3
            * 0x1_0000_0000 + b4 * 0x100_0000 + b5 * 0x1_0000 + b6 * 0x100 + b7
    }

    fn advance(&mut self, next: usize)
        requires
            old(self).wf(),
            old(self)@.frames.len() > 0,
        ensures
            final(self).wf(),
            final(self)@ == (VmState {
                frames: old(self)@.moved(next),
                prompted: false,
                ..old(self)@
            }),
    {
        let f = self.frames.peek_mut();
        f.last_i = f.ip;
        f.ip = next;
        self.prompted = false;
    }

    fn commit0(&mut self, pops: usize, next: usize)
        requires
            old(self).wf(),
            old(self)@.frames.len() > 0,
            pops <= old(self)@.stack.len(),
        ensures
            final(self).wf(),
            final(self)@ == old(self)@.commit(pops as nat, Seq::empty(), next),
    {
        let n: usize = self.values.len();
        self.values.truncate(n - pops);
        self.advance(next);
        assert(self@.stack =~= old(self)@.stack.take(n - pops) + Seq::<Value>::empty());
    }

    fn commit1(&mut self, pops: usize, v: AmaValue, next: usize)
        requires
            old(self).wf(),
            old(self)@.frames.len() > 0,
            pops <= old(self)@.stack.len(),
            pops >= 1 || !old(self)@.full(),
        ensures
            final(self).wf(),
            final(self)@ == old(self)@.commit(pops as nat, seq![v@], next),
    {
        let n: usize = self.values.len();
        self.values.truncate(n - pops);
        self.values.push(v);
        self.advance(next);
        assert(self@.stack =~= old(self)@.stack.take(n - pops) + seq![v@]);
    }

    /// Fails with a runtime error: unwinds the call stack and reports the
    /// lines at which the active functions stand.
    fn panic_and_throw(&mut self, error: &str) -> (a: Action)
        requires
            old(self).wf(),
            old(self)@.frames.len() > 0,
        ensures
            final(self).wf(),
            (final(self)@, a@) == old(self)@.throw(error@),
    {
        let f = self.frames.peek_mut();
        f.last_i = f.ip;
        let text = format_report(&self.frames, &self.modules[self.current].src_map, error);
        self.frames.clear();
        self.prompted = false;
        Action::Error(text)
    }

    fn apply(&mut self, pops: usize, outcome: Outcome, next: usize) -> (a: Action)
        requires
            old(self).wf(),
            old(self)@.frames.len() > 0,
            pops <= old(self)@.stack.len(),
            pops >= 1 || !old(self)@.full(),
        ensures
            final(self).wf(),
            (final(self)@, a@) == old(self)@.apply(pops as nat, outcome@, next),
    {
        match outcome {
            Outcome::Done(v) => {
                self.commit1(pops, v, next);
                Action::Continue
            },
            Outcome::Print(t) => {
                self.commit1(pops, AmaValue::Nulo, next);
                Action::Print(t)
            },
            Outcome::Prompt(t) => {
                self.prompted = true;
                Action::Print(t)
            },
            Outcome::Error(msg) => self.panic_and_throw(msg.as_str()),
            Outcome::Ask(r) => Action::Ask(r),
            Outcome::Fault(f) => Action::Fatal(f),
        }
    }
}


impl AmaVM {
    fn op_load(&mut self, op: OpCode, next: usize) -> (a: Action)
        requires
            old(self).ready(op, next),
            op == OpCode::LoadConst || op == OpCode::LoadName || op == OpCode::LoadRecord,
        ensures
            final(self).wf(),
            (final(self)@, a@) == old(self)@.load(op, next),
    {
        proof {
            self.lemma_module();
        }
        let idx: usize = self.u16_arg() as usize;
        let m = &self.modules[self.current];
        let bound: usize = match op {
            OpCode::LoadConst => m.constants.len(),
            OpCode::LoadName => m.names.len(),
            _ => m.registos.len(),
        };
        if idx >= bound {
            return Action::Fatal(Fault::BadIndex);
        }
        if self.full() {
            return Action::Fatal(Fault::StackOverflow);
        }
        let v = match op {
            OpCode::LoadConst => m.constants[idx].clone(),
            OpCode::LoadName => AmaValue::Str(m.names[idx].clone()),
            _ => AmaValue::Registo(RegistoRef { module: self.current, index: idx }),
        };
        self.commit1(0, v, next);
        Action::Continue
    }

    fn op_mostra(&mut self, reply: &Reply, next: usize) -> (a: Action)
        requires
            old(self).ready(OpCode::Mostra, next),
        ensures
            final(self).wf(),
            (final(self)@, a@) == old(self)@.mostra(reply@, next),
    {
        let n: usize = self.values.len();
        if n < 1 {
            return Action::Fatal(Fault::StackUnderflow);
        }
        match display(&self.values[n - 1], &self.alloc, &self.modules, reply) {
            Shown::Text(t) => {
                let mut line = t;
                line.append("\n");
                self.commit0(1, next);
                Action::Print(line)
            },
            Shown::Missing(m) => Action::Ask(Request::Texts(m)),
            Shown::Fault(f) => Action::Fatal(f),
        }
    }

    fn op_binary(&mut self, op: OpCode, reply: &Reply, next: usize) -> (a: Action)
        requires
            old(self).ready(op, next),
        ensures
            final(self).wf(),
            (final(self)@, a@) == old(self)@.binary(op, reply@, next),
    {
        let n: usize = self.values.len();
        if n < 2 {
            return Action::Fatal(Fault::StackUnderflow);
        }
        let outcome = AmaValue::binop(&self.values[n - 2], op, &self.values[n - 1], reply);
        self.apply(2, outcome, next)
    }

    fn op_unary(&mut self, op: OpCode, reply: &Reply, next: usize) -> (a: Action)
        requires
            old(self).ready(op, next),
            op == OpCode::OpInvert || op == OpCode::OpNot || op == OpCode::IsNull,
        ensures
            final(self).wf(),
            (final(self)@, a@) == old(self)@.unary(op, reply@, next),
    {
        let n: usize = self.values.len();
        if n < 1 {
            return Action::Fatal(Fault::StackUnderflow);
        }
        let outcome = match op {
            OpCode::IsNull => Outcome::Done(AmaValue::Bool(self.values[n - 1].is_none())),
            OpCode::OpNot => match &self.values[n - 1] {
                AmaValue::Bool(b) => Outcome::Done(AmaValue::Bool(!*b)),
                _ => Outcome::Fault(Fault::BadOperand),
            },
            _ => match &self.values[n - 1] {
                AmaValue::Int(i) => AmaValue::binop(
                    &AmaValue::Int(0),
                    OpCode::OpMinus,
                    &AmaValue::Int(*i),
                    reply,
                ),
                AmaValue::Real(bits) => ask_host(
                    RealOp::Neg,
                    Num::Real(*bits),
                    Num::Int(0),
                    reply,
                ),
                _ => Outcome::Fault(Fault::BadOperand),
            },
        };
        self.apply(1, outcome, next)
    }

    fn op_index_get(&mut self, next: usize) -> (a: Action)
        requires
            old(self).ready(OpCode::OpIndexGet, next),
        ensures
            final(self).wf(),
            (final(self)@, a@) == old(self)@.index_get(next),
    {
        let n: usize = self.values.len();
        if n < 2 {
            return Action::Fatal(Fault::StackUnderflow);
        }
        let outcome = match (&self.values[n - 2], &self.values[n - 1]) {
            (AmaValue::Str(s), AmaValue::Int(i)) => match grapheme_at(s.as_str(), *i) {
                Ok(cluster) => Outcome::Done(AmaValue::Str(cluster)),
                Err(msg) => Outcome::Error(msg),
            },
            (AmaValue::Vector(r), AmaValue::Int(i)) => match self.alloc.vector(*r) {
                None => Outcome::Fault(Fault::DanglingRef),
                Some(items) => match check_index(items.len(), *i) {
                    Err(msg) => Outcome::Error(msg),
                    Ok(()) => Outcome::Done(items[*i as usize].clone()),
                },
            },
            _ => Outcome::Fault(Fault::BadOperand),
        };
        self.apply(2, outcome, next)
    }

    fn op_index_set(&mut self, next: usize) -> (a: Action)
        requires
            old(self).ready(OpCode::OpIndexSet, next),
        ensures
            final(self).wf(),
            (final(self)@, a@) == old(self)@.index_set(next),
    {
        let n: usize = self.values.len();
        if n < 3 {
            return Action::Fatal(Fault::StackUnderflow);
        }
        match (&self.values[n - 3], &self.values[n - 2]) {
            (AmaValue::Vector(r), AmaValue::Int(i)) => {
                let r: Ref = *r;
                let i: i64 = *i;
                let len: usize = match self.alloc.vector(r) {
                    None => {
                        return Action::Fatal(Fault::DanglingRef);
                    },
                    Some(items) => items.len(),
                };
                match check_index(len, i) {
                    Err(msg) => self.panic_and_throw(msg.as_str()),
                    Ok(()) => {
                        let v = self.values[n - 1].clone();
                        self.alloc.vec_set(r, i as usize, v);
                        proof {
                            self.alloc.lemma_len_bounded();
                        }
                        self.commit0(3, next);
                        Action::Continue
                    },
                }
            },
            _ => Action::Fatal(Fault::BadOperand),
        }
    }

    fn op_get_global(&mut self, next: usize) -> (a: Action)
        requires
            old(self).ready(OpCode::GetGlobal, next),
        ensures
            final(self).wf(),
            (final(self)@, a@) == old(self)@.get_global(next),
    {
        proof {
            self.lemma_module();
        }
        let idx: usize = self.u16_arg() as usize;
        let m = &self.modules[self.current];
        if idx >= m.names.len() {
            return Action::Fatal(Fault::BadIndex);
        }
        match lookup_global(&self.modules, self.current, m.names[idx].as_str()) {
            None => Action::Fatal(Fault::MissingGlobal),
            Some(v) => {
                if self.full() {
                    return Action::Fatal(Fault::StackOverflow);
                }
                self.commit1(0, v, next);
                Action::Continue
            },
        }
    }

    fn op_set_global(&mut self, next: usize) -> (a: Action)
        requires
            old(self).ready(OpCode::SetGlobal, next),
        ensures
            final(self).wf(),
            (final(self)@, a@) == old(self)@.set_global(next),
    {
        proof {
            self.lemma_module();
        }
        let idx: usize = self.u16_arg() as usize;
        if idx >= self.modules[self.current].names.len() {
            return Action::Fatal(Fault::BadIndex);
        }
        let n: usize = self.values.len();
        if n < 1 {
            return Action::Fatal(Fault::StackUnderflow);
        }
        let name = self.modules[self.current].names[idx].clone();
        let v = self.values[n - 1].clone();
        let cur: usize = self.current;
        tabela_insert(&mut self.modules[cur].globals, name, v);
        proof {
            let m = old(self)@.module();
            assert(modules_of(self.modules@) =~= old(self)@.modules.update(
                cur as int,
                ModuleState {
                    globals: m.globals.insert(m.names[idx as int], old(self)@.stack.last()),
                    ..m
                },
            ));
        }
        self.commit0(1, next);
        Action::Continue
    }

    fn op_jump(&mut self, op: OpCode, next: usize) -> (a: Action)
        requires
            old(self).ready(op, next),
            op == OpCode::Jump || op == OpCode::JumpIfFalse,
        ensures
            final(self).wf(),
            (final(self)@, a@) == old(self)@.jump(op, next),
    {
        let addr: usize = self.u64_arg() as usize;
        match op {
            OpCode::Jump => {
                self.commit0(0, addr);
                Action::Continue
            },
            _ => {
                let n: usize = self.values.len();
                if n < 1 {
                    return Action::Fatal(Fault::StackUnderflow);
                }
                let jumps: bool = match &self.values[n - 1] {
                    AmaValue::Bool(b) => !*b,
                    _ => false,
                };
                if jumps {
                    self.commit0(1, addr);
                } else {
                    self.commit0(1, next);
                }
                Action::Continue
            },
        }
    }

    fn op_get_local(&mut self, next: usize) -> (a: Action)
        requires
            old(self).ready(OpCode::GetLocal, next),
        ensures
            final(self).wf(),
            (final(self)@, a@) == old(self)@.get_local(next),
    {
        let idx: usize = self.u16_arg() as usize;
        let bp: isize = self.frames.peek().bp;
        let n: usize = self.values.len();
        if bp < 0 || idx >= n || bp as usize >= n - idx {
            return Action::Fatal(Fault::BadIndex);
        }
        if self.full() {
            return Action::Fatal(Fault::StackOverflow);
        }
        let v = self.values[bp as usize + idx].clone();
        self.commit1(0, v, next);
        Action::Continue
    }

    fn op_set_local(&mut self, next: usize) -> (a: Action)
        requires
            old(self).ready(OpCode::SetLocal, next),
        ensures
            final(self).wf(),
            (final(self)@, a@) == old(self)@.set_local(next),
    {
        let idx: usize = self.u16_arg() as usize;
        let bp: isize = self.frames.peek().bp;
        let n: usize = self.values.len();
        if n < 1 {
            return Action::Fatal(Fault::StackUnderflow);
        }
        if bp < 0 || idx >= n - 1 || bp as usize >= n - 1 - idx {
            return Action::Fatal(Fault::BadIndex);
        }
        match self.values.pop() {
            Some(v) => {
                self.values[bp as usize + idx] = v;
                self.advance(next);
                assert(self@.stack =~= old(self)@.stack.drop_last().update(
                    bp + idx,
                    old(self)@.stack.last(),
                ));
            },
            None => {},
        }
        Action::Continue
    }

    fn call_user(&mut self, f: AmaFunc, argc: u8, next: usize) -> (a: Action)
        requires
            old(self).ready(OpCode::CallFunction, next),
            old(self)@.stack.len() >= 1,
        ensures
            final(self).wf(),
            (final(self)@, a@) == old(self)@.call_user(f@, argc, next),
    {
        let n: usize = self.values.len();
        if n - 1 < argc as usize {
            return Action::Fatal(Fault::StackUnderflow);
        }
        if argc > 0 && f.locals < argc as usize {
            return Action::Fatal(Fault::BadOperand);
        }
        if f.locals - argc as usize > isize::MAX as usize - (n - 1) {
            return Action::Fatal(Fault::StackOverflow);
        }
        if self.frames.depth() >= RECURSION_LIMIT {
            return self.panic_and_throw("Limite máximo de recursão atingido");
        }
        let base: usize = n - 1 - argc as usize;
        let mut frame = f;
        if argc > 0 {
            frame.bp = base as isize;
        } else if frame.locals > 0 {
            frame.bp = (n - 1) as isize;
        }
        let extra: usize = frame.locals - argc as usize;
        self.values.truncate(n - 1);
        push_nulls(&mut self.values, extra);
        assert(values_of(self.values@) =~= old(self)@.stack.take(n - 1) + nulls(extra as nat));
        self.advance(next);
        let _ = self.frames.push(frame);
        Action::Continue
    }

    fn op_call(&mut self, reply: &Reply, next: usize) -> (a: Action)
        requires
            old(self).ready(OpCode::CallFunction, next),
        ensures
            final(self).wf(),
            (final(self)@, a@) == old(self)@.call(reply@, next),
    {
        let argc: u8 = self.u8_arg();
        let n: usize = self.values.len();
        if n < 1 {
            return Action::Fatal(Fault::StackUnderflow);
        }
        match &self.values[n - 1] {
            AmaValue::Func(f) => {
                let f = f.clone();
                self.call_user(f, argc, next)
            },
            AmaValue::NativeFn(native) => {
                if n - 1 < argc as usize {
                    return Action::Fatal(Fault::StackUnderflow);
                }
                let func = native.func;
                let outcome = call_native(
                    func,
                    &self.values,
                    n - 1 - argc as usize,
                    n - 1,
                    &mut self.alloc,
                    &self.modules,
                    reply,
                    self.prompted,
                );
                proof {
                    self.alloc.lemma_len_bounded();
                }
                self.apply(argc as usize + 1, outcome, next)
            },
            _ => Action::Fatal(Fault::NotAFunction),
        }
    }

    fn op_ret(&mut self) -> (a: Action)
        requires
            old(self).wf(),
            old(self)@.frames.len() > 0,
        ensures
            final(self).wf(),
            (final(self)@, a@) == old(self)@.ret(),
    {
        let n: usize = self.values.len();
        let bp: isize = self.frames.peek().bp;
        if n < 1 {
            return Action::Fatal(Fault::StackUnderflow);
        }
        if bp > -1 && bp as usize > n - 1 {
            return Action::Fatal(Fault::BadIndex);
        }
        if bp > -1 {
            match self.values.pop() {
                Some(v) => {
                    self.values.truncate(bp as usize);
                    self.values.push(v);
                    assert(values_of(self.values@) =~= old(self)@.stack.take(bp as int).push(
                        old(self)@.stack.last(),
                    ));
                },
                None => {},
            }
        }
        let _ = self.frames.pop();
        self.prompted = false;
        Action::Continue
    }

    fn op_build_str(&mut self, reply: &Reply, next: usize) -> (a: Action)
        requires
            old(self).ready(OpCode::BuildStr, next),
        ensures
            final(self).wf(),
            (final(self)@, a@) == old(self)@.build_str(reply@, next),
    {
        let k: usize = self.u8_arg() as usize;
        let n: usize = self.values.len();
        if n < k {
            return Action::Fatal(Fault::StackUnderflow);
        }
        if k == 0 && self.full() {
            return Action::Fatal(Fault::StackOverflow);
        }
        assert(values_of(self.values@).skip(n - k) =~= self@.stack.subrange(n - k, n as int));
        let shown = display_all(&self.values, n - k, &self.alloc, &self.modules, reply);
        self.apply(k, shown_to_outcome(shown), next)
    }

    fn op_build_vec(&mut self, next: usize) -> (a: Action)
        requires
            old(self).ready(OpCode::BuildVec, next),
        ensures
            final(self).wf(),
            (final(self)@, a@) == old(self)@.build_vec(next),
    {
        let k: usize = self.u8_arg() as usize;
        let n: usize = self.values.len();
        if n < k {
            return Action::Fatal(Fault::StackUnderflow);
        }
        if k == 0 && self.full() {
            return Action::Fatal(Fault::StackOverflow);
        }
        let items = self.values.split_off(n - k);
        assert(values_of(items@) =~= old(self)@.stack.subrange(n - k, n as int));
        let r = self.alloc.alloc_ref(HeapObj::Vector(items));
        self.values.push(AmaValue::Vector(r));
        proof {
            self.alloc.lemma_len_bounded();
        }
        self.advance(next);
        assert(self@.stack =~= old(self)@.stack.take(n - k) + seq![Value::Vector(r)]);
        Action::Continue
    }

    fn op_build_obj(&mut self, next: usize) -> (a: Action)
        requires
            old(self).ready(OpCode::BuildObj, next),
        ensures
            final(self).wf(),
            (final(self)@, a@) == old(self)@.build_obj(next),
    {
        let k: usize = self.u8_arg() as usize;
        let n: usize = self.values.len();
        if n < 1 + 2 * k {
            return Action::Fatal(Fault::StackUnderflow);
        }
        let registo: RegistoRef = match &self.values[n - 1] {
            AmaValue::Registo(r) => *r,
            _ => {
                return Action::Fatal(Fault::BadOperand);
            },
        };
        match RegObj::with_fields(registo, &self.values, n - 1 - 2 * k, n - 1) {
            None => Action::Fatal(Fault::BadOperand),
            Some(obj) => {
                let r = self.alloc.alloc_ref(HeapObj::RegObj(obj));
                proof {
                    self.alloc.lemma_len_bounded();
                }
                self.commit1(2 * k + 1, AmaValue::RegObj(r), next);
                Action::Continue
            },
        }
    }

    fn op_get_prop(&mut self, next: usize) -> (a: Action)
        requires
            old(self).ready(OpCode::GetProp, next),
        ensures
            final(self).wf(),
            (final(self)@, a@) == old(self)@.get_prop(next),
    {
        let n: usize = self.values.len();
        if n < 2 {
            return Action::Fatal(Fault::StackUnderflow);
        }
        let outcome = match (&self.values[n - 2], &self.values[n - 1]) {
            (AmaValue::RegObj(r), AmaValue::Str(field)) => match self.alloc.regobj(*r) {
                None => Outcome::Fault(Fault::DanglingRef),
                Some(obj) => match obj.get(field.as_str()) {
                    Some(v) => Outcome::Done(v),
                    None => Outcome::Fault(Fault::MissingField),
                },
            },
            _ => Outcome::Fault(Fault::BadOperand),
        };
        self.apply(2, outcome, next)
    }

    fn op_set_prop(&mut self, next: usize) -> (a: Action)
        requires
            old(self).ready(OpCode::SetProp, next),
        ensures
            final(self).wf(),
            (final(self)@, a@) == old(self)@.set_prop(next),
    {
        let n: usize = self.values.len();
        if n < 3 {
            return Action::Fatal(Fault::StackUnderflow);
        }
        match (&self.values[n - 3], &self.values[n - 2]) {
            (AmaValue::RegObj(r), AmaValue::Str(field)) => {
                let r: Ref = *r;
                if self.alloc.regobj(r).is_none() {
                    return Action::Fatal(Fault::DanglingRef);
                }
                let field = field.clone();
                let v = self.values[n - 1].clone();
                self.alloc.obj_set(r, field, v);
                proof {
                    self.alloc.lemma_len_bounded();
                }
                self.commit0(3, next);
                Action::Continue
            },
            _ => Action::Fatal(Fault::BadOperand),
        }
    }

    fn op_unwrap(&mut self, next: usize) -> (a: Action)
        requires
            old(self).ready(OpCode::Unwrap, next),
        ensures
            final(self).wf(),
            (final(self)@, a@) == old(self)@.unwrap(next),
    {
        let has_default: bool = self.u8_arg() == 1;
        let n: usize = self.values.len();
        if has_default {
            if n < 2 {
                return Action::Fatal(Fault::StackUnderflow);
            }
            let v = if self.values[n - 2].is_none() {
                self.values[n - 1].clone()
            } else {
                self.values[n - 2].clone()
            };
            self.commit1(2, v, next);
            Action::Continue
        } else {
            if n < 1 {
                return Action::Fatal(Fault::StackUnderflow);
            }
            if self.values[n - 1].is_none() {
                self.panic_and_throw("Não pode aceder uma referência nula")
            } else {
                let v = self.values[n - 1].clone();
                self.commit1(1, v, next);
                Action::Continue
            }
        }
    }

    fn op_cast(&mut self, reply: &Reply, next: usize) -> (a: Action)
        requires
            old(self).ready(OpCode::Cast, next),
        ensures
            final(self).wf(),
            (final(self)@, a@) == old(self)@.cast(reply@, next),
    {
        let mode: u8 = self.u8_arg();
        let n: usize = self.values.len();
        if n < 2 {
            return Action::Fatal(Fault::StackUnderflow);
        }
        match &self.values[n - 1] {
            AmaValue::Type(t) => {
                if mode == 0 {
                    let outcome = cast(&self.values[n - 2], *t, &self.alloc, &self.modules, reply);
                    self.apply(2, outcome, next)
                } else if mode == 1 {
                    let outcome = checked_cast(&self.values[n - 2], *t);
                    self.apply(2, outcome, next)
                } else {
                    self.commit0(2, next);
                    Action::Continue
                }
            },
            _ => Action::Fatal(Fault::BadOperand),
        }
    }

    fn op_halt(&mut self) -> (a: Action)
        requires
            old(self).wf(),
            old(self)@.frames.len() > 0,
        ensures
            final(self).wf(),
            (final(self)@, a@) == old(self)@.halt(),
    {
        proof {
            self.lemma_module();
        }
        if !(self.frames.depth() == 1 && str_eq(self.frames.peek().name.as_str(), "_inicio_")) {
            Action::Fatal(Fault::BadHalt)
        } else if self.modules.len() - self.current > 1 {
            self.current = self.current + 1;
            self.entered = false;
            self.frames.clear();
            self.values.clear();
            self.prompted = false;
            assert(self@.stack =~= Seq::<Value>::empty());
            Action::Continue
        } else {
            Action::Halt
        }
    }

    fn enter(&mut self) -> (a: Action)
        requires
            old(self).wf(),
        ensures
            final(self).wf(),
            (final(self)@, a@) == old(self)@.enter(),
    {
        proof {
            self.lemma_module();
        }
        let cur: usize = self.current;
        let builtin_defs = definitions();
        if !self.modules[cur].can_initialize(&builtin_defs) {
            return Action::Fatal(Fault::UnknownModule);
        }
        if self.modules[cur].main.locals > isize::MAX as usize {
            return Action::Fatal(Fault::StackOverflow);
        }
        self.modules[cur].initialize(&builtin_defs);
        let mut frame = self.modules[cur].main.clone();
        let locals: usize = frame.locals;
        frame.bp = if locals > 0 {
            0
        } else {
            -1
        };
        self.values.clear();
        push_nulls(&mut self.values, locals);
        assert(values_of(self.values@) =~= nulls(locals as nat));
        self.frames.clear();
        let _ = self.frames.push(frame);
        self.entered = true;
        self.prompted = false;
        proof {
            assert(self@.modules =~= old(self)@.modules.update(
                cur as int,
                old(self)@.module().initialized(),
            ));
            assert(self@.frames =~= seq![frame@]);
        }
        Action::Continue
    }

    /// Takes one step: enters the module that runs, or executes the
    /// instruction at the instruction pointer of the active frame. `reply`
    /// is the host's answer to the request of the step before, and
    /// `Reply::Nothing` where that step made none.
    pub fn step(&mut self, reply: Reply) -> (a: Action)
        requires
            old(self).wf(),
        ensures
            final(self).wf(),
            (final(self)@, a@) == old(self)@.step(reply@),
    {
        if !self.entered {
            return self.enter();
        }
        if self.frames.depth() == 0 {
            return Action::Fatal(Fault::NoFrame);
        }
        proof {
            self.lemma_module();
        }
        let ip: usize = self.frames.peek().ip;
        let len: usize = self.modules[self.current].code.len();
        if ip >= len {
            return Action::Fatal(Fault::CodeOverrun);
        }
        let byte: u8 = self.modules[self.current].code[ip];
        match OpCode::from_byte(byte) {
            None => Action::Fatal(Fault::BadOpcode),
            Some(op) => {
                let k: usize = op.operand_len();
                if k >= len - ip {
                    return Action::Fatal(Fault::CodeOverrun);
                }
                let next: usize = ip + 1 + k;
                match op {
                    OpCode::LoadConst | OpCode::LoadName | OpCode::LoadRecord => self.op_load(
                        op,
                        next,
                    ),
                    OpCode::Mostra => self.op_mostra(&reply, next),
                    OpCode::OpAdd
                    | OpCode::OpMinus
                    | OpCode::OpMul
                    | OpCode::OpDiv
                    | OpCode::OpFloorDiv
                    | OpCode::OpModulo
                    | OpCode::OpAnd
                    | OpCode::OpOr
                    | OpCode::OpEq
                    | OpCode::OpNotEq
                    | OpCode::OpGreater
                    | OpCode::OpGreaterEq
                    | OpCode::OpLess
                    | OpCode::OpLessEq => self.op_binary(op, &reply, next),
                    OpCode::OpInvert | OpCode::OpNot | OpCode::IsNull => self.op_unary(
                        op,
                        &reply,
                        next,
                    ),
                    OpCode::OpIndexGet => self.op_index_get(next),
                    OpCode::OpIndexSet => self.op_index_set(next),
                    OpCode::GetGlobal => self.op_get_global(next),
                    OpCode::SetGlobal => self.op_set_global(next),
                    OpCode::Jump | OpCode::JumpIfFalse => self.op_jump(op, next),
                    OpCode::GetLocal => self.op_get_local(next),
                    OpCode::SetLocal => self.op_set_local(next),
                    OpCode::CallFunction => self.op_call(&reply, next),
                    OpCode::Return => self.op_ret(),
                    OpCode::BuildStr => self.op_build_str(&reply, next),
                    OpCode::BuildVec => self.op_build_vec(next),
                    OpCode::BuildObj => self.op_build_obj(next),
                    OpCode::GetProp => self.op_get_prop(next),
                    OpCode::SetProp => self.op_set_prop(next),
                    OpCode::Unwrap => self.op_unwrap(next),
                    OpCode::Cast => self.op_cast(&reply, next),
                    OpCode::Halt => self.op_halt(),
                }
            },
        }
    }

    /// Steps without the host: takes steps until one asks something of the
    /// host, or until `fuel` steps have been taken, and returns the action
    /// of the last step.
    pub fn run(&mut self, fuel: u64) -> (a: Action)
        requires
            old(self).wf(),
        ensures
            final(self).wf(),
            (final(self)@, a@) == old(self)@.run(fuel as nat),
    {
        let mut left: u64 = fuel;
        while left > 0
            invariant
                self.wf(),
                old(self)@.run(fuel as nat) == self@.run(left as nat),
            decreases left,
        {
            let ghost before = self@;
            let a = self.step(Reply::Nothing);
            match a {
                Action::Continue => {},
                _ => {
                    return a;
                },
            }
            left -= 1;
        }
        Action::Continue
    }
}

/// The global of a name as the module at position `from` sees it.
pub fn lookup_global(modules: &Vec<Module>, from: usize, name: &str) -> (r: Option<AmaValue>)
    requires
        from < modules.len(),
    ensures
        match resolve(modules_of(modules@), from as int, name@) {
            Some(v) => r is Some && r->0@ == v,
            None => r is None,
        },
{
    let mut i: usize = from;
    loop
        invariant
            i <= from < modules.len(),
            resolve(modules_of(modules@), from as int, name@) == resolve(
                modules_of(modules@),
                i as int,
                name@,
            ),
        decreases i,
    {
        match tabela_get(&modules[i].globals, name) {
            Some(v) => {
                return Some(v.clone());
            },
            None => {},
        }
        if i == 0 {
            return None;
        }
        i -= 1;
    }
}

/// Pushes `count` null values.
fn push_nulls(values: &mut Vec<AmaValue>, count: usize)
    ensures
        values_of(final(values)@) == values_of(old(values)@) + nulls(count as nat),
{
    let mut i: usize = 0;
    assert(values_of(values@) =~= values_of(old(values)@) + nulls(0));
    while i < count
        invariant
            i <= count,
            values_of(values@) == values_of(old(values)@) + nulls(i as nat),
        decreases count - i,
    {
        let ghost before = values_of(values@);
        values.push(AmaValue::Nulo);
        assert(values_of(values@) =~= before.push(Value::Nulo));
        assert(before.push(Value::Nulo) =~= values_of(old(values)@) + nulls((i + 1) as nat));
        i += 1;
    }
}

} // verus!
