//! The meaning of the instructions: one step of the interpreter as a
//! function from the state of the machine and the host's reply to the next
//! state and the action that the host has to take.
use vstd::prelude::*;
use crate::allocator::{heap_regobj, heap_vector, Obj};
use crate::ama_value::{Ref, RegistoRef, Value};
use crate::builtins::native_spec;
use crate::display::{display_all_spec, display_spec, ShownView};
use crate::frames::RECURSION_LIMIT;
use crate::function::Frame;
use crate::graphemes::{grapheme_clusters, position_error};
use crate::host::{Fault, Num, RealOp, ReplyView, RequestView};
use crate::module::ModuleState;
use crate::opcode::OpCode;
use crate::ops::{
    ask, binop_spec, cast_spec, checked, checked_cast_spec, index_error, shown_outcome,
    OutcomeView,
};
use crate::registo::{fields_from, RegObjView};
use crate::text::decimal;

verus! {

/// The state of the machine.
pub struct VmState {
    /// The imports, in the order in which they run, and then the main
    /// module.
    pub modules: Seq<ModuleState>,
    /// The position of the module that runs.
    pub current: usize,
    /// Whether the module that runs has been initialized and its main
    /// function called.
    pub entered: bool,
    /// The call stack, the active frame last.
    pub frames: Seq<Frame>,
    /// The operand stack, the top last.
    pub stack: Seq<Value>,
    /// The objects that the allocator owns.
    pub heap: Seq<Obj>,
    /// Whether the native function that is being called has written its
    /// prompt and waits for a line.
    pub prompted: bool,
}

/// What the host has to do after a step.
pub enum ActionView {
    /// Nothing: take the next step.
    Continue,
    /// Write the text to the standard output, then take the next step.
    Print(Seq<char>),
    /// Do the work that the request names, then take the step again with
    /// the reply.
    Ask(RequestView),
    /// The program has ended.
    Halt,
    /// The program has failed with a runtime error; the text is the report.
    Error(Seq<char>),
    /// The machine cannot go on.
    Fatal(Fault),
}

/// The source line of an offset into the code: the line of the first triple
/// of `src_map` whose range, both ends included, covers the offset, and zero
/// where no triple does.
pub open spec fn spec_offset_to_line(offset: usize, src_map: Seq<usize>) -> usize
    decreases src_map.len(),
{
    if src_map.len() < 3 {
        0
    } else if src_map[0] <= offset && offset <= src_map[1] {
        src_map[2]
    } else {
        spec_offset_to_line(offset, src_map.skip(3))
    }
}

/// The lines of a report that name the calls in progress, the innermost
/// first: one line for every frame but the outermost.
pub open spec fn trace_lines(frames: Seq<Frame>, src_map: Seq<usize>) -> Seq<char>
    decreases frames.len(),
{
    if frames.len() <= 1 {
        Seq::empty()
    } else {
        "    Linha "@ + decimal(spec_offset_to_line(frames.last().last_i, src_map) as nat)
            + ", na função "@ + frames.last().name + "\n"@ + trace_lines(
            frames.drop_last(),
            src_map,
        )
    }
}

/// The report of a runtime error: where two frames or more are active, a
/// header and the calls in progress; then the line of the outermost frame
/// and the message, closed by a period.
pub open spec fn report(frames: Seq<Frame>, src_map: Seq<usize>, msg: Seq<char>) -> Seq<char>
    recommends
        frames.len() > 0,
{
    (if frames.len() > 1 {
        "Fluxo de execução:\n"@
    } else {
        Seq::empty()
    }) + trace_lines(frames, src_map) + "Erro na linha "@ + decimal(
        spec_offset_to_line(frames[0].last_i, src_map) as nat,
    ) + ": "@ + msg + "."@
}

/// The operand of two bytes at an address, the high byte first.
pub open spec fn u16_at(code: Seq<u8>, at: int) -> u16 {
    (code[at] as int * 256 + code[at + 1] as int) as u16
}

/// The operand of eight bytes at an address, the highest byte first.
pub open spec fn u64_at(code: Seq<u8>, at: int) -> u64 {
    (code[at] as int * 0x100_0000_0000_0000 + code[at + 1] as int * 0x1_0000_0000_0000 + code[at
        + 2] as int * 0x100_0000_0000 + code[at + 3] as int * 0x1_0000_0000 + code[at + 4] as int
        * 0x100_0000 + code[at + 5] as int * 0x1_0000 + code[at + 6] as int * 0x100 + code[at
        + 7] as int) as u64
}

/// The global of a name as the module at position `from` sees it: its own,
/// or else that of the nearest module before it that defines the name. The
/// modules before a module are those that it may import.
pub open spec fn resolve(modules: Seq<ModuleState>, from: int, name: Seq<char>) -> Option<Value>
    decreases from,
{
    if from < 0 || from >= modules.len() {
        None
    } else if modules[from].globals.contains_key(name) {
        Some(modules[from].globals[name])
    } else if from == 0 {
        None
    } else {
        resolve(modules, from - 1, name)
    }
}

/// A frame after an instruction: the instruction is the last executed one,
/// and the next one is at `next`.
pub open spec fn advance(f: Frame, next: usize) -> Frame {
    Frame { ip: next, last_i: f.ip, ..f }
}

/// A run of null values.
pub open spec fn nulls(n: nat) -> Seq<Value> {
    Seq::new(n, |i: int| Value::Nulo)
}

impl VmState {
    /// The state is well formed: a module runs, the call stack is within the
    /// recursion limit, every position of the operand stack can be a base
    /// pointer, and a handle can name every object of the heap.
    pub open spec fn wf(self) -> bool {
        self.current < self.modules.len() && self.frames.len() <= RECURSION_LIMIT
            && self.stack.len() <= isize::MAX && self.heap.len() <= usize::MAX
    }

    /// Whether the operand stack cannot take one more value.
    pub open spec fn full(self) -> bool {
        self.stack.len() >= isize::MAX
    }

    /// The module that runs.
    pub open spec fn module(self) -> ModuleState {
        self.modules[self.current as int]
    }

    /// The active frame.
    pub open spec fn top(self) -> Frame {
        self.frames.last()
    }

    /// The call stack with the active frame moved on to `next`.
    pub open spec fn moved(self, next: usize) -> Seq<Frame> {
        self.frames.drop_last().push(advance(self.top(), next))
    }

    /// The state after an instruction that takes `pops` values off the
    /// operand stack, puts `pushes` on it and goes on at `next`.
    pub open spec fn commit(self, pops: nat, pushes: Seq<Value>, next: usize) -> VmState {
        VmState {
            stack: self.stack.take(self.stack.len() - pops) + pushes,
            frames: self.moved(next),
            prompted: false,
            ..self
        }
    }

    /// An instruction that needs nothing of the host.
    pub open spec fn done(self, pops: nat, pushes: Seq<Value>, next: usize) -> (
        VmState,
        ActionView,
    ) {
        (self.commit(pops, pushes, next), ActionView::Continue)
    }

    /// An instruction on which the machine cannot go on. The state stays as
    /// it is.
    pub open spec fn fatal(self, f: Fault) -> (VmState, ActionView) {
        (self, ActionView::Fatal(f))
    }

    /// An instruction that fails with a runtime error: the call stack is
    /// unwound, and the report names the lines at which the active
    /// functions stand.
    pub open spec fn throw(self, msg: Seq<char>) -> (VmState, ActionView) {
        (
            VmState { frames: Seq::empty(), prompted: false, ..self },
            ActionView::Error(
                report(
                    self.frames.drop_last().push(Frame { last_i: self.top().ip, ..self.top() }),
                    self.module().src_map,
                    msg,
                ),
            ),
        )
    }

    /// An instruction that replaces the `pops` topmost values by what an
    /// operation comes to.
    pub open spec fn apply(self, pops: nat, outcome: OutcomeView, next: usize) -> (
        VmState,
        ActionView,
    ) {
        match outcome {
            OutcomeView::Done(v) => self.done(pops, seq![v], next),
            OutcomeView::Print(t) => (
                self.commit(pops, seq![Value::Nulo], next),
                ActionView::Print(t),
            ),
            OutcomeView::Prompt(t) => (VmState { prompted: true, ..self }, ActionView::Print(t)),
            OutcomeView::Error(msg) => self.throw(msg),
            OutcomeView::Ask(r) => (self, ActionView::Ask(r)),
            OutcomeView::Fault(f) => self.fatal(f),
        }
    }

    /// The step that enters the module that runs: the module is initialized,
    /// the operand stack holds one null value for each local slot of the
    /// module's main function, and the main function is the one active
    /// frame, its base pointer zero if it has slots and -1 if it has none.
    pub open spec fn enter(self) -> (VmState, ActionView) {
        let m = self.module();
        if !m.can_initialize() {
            self.fatal(Fault::UnknownModule)
        } else if m.main.locals > isize::MAX {
            self.fatal(Fault::StackOverflow)
        } else {
            (
                VmState {
                    modules: self.modules.update(self.current as int, m.initialized()),
                    entered: true,
                    frames: seq![
                        Frame {
                            bp: if m.main.locals > 0 {
                                0isize
                            } else {
                                -1isize
                            },
                            ..m.main
                        },
                    ],
                    stack: nulls(m.main.locals as nat),
                    prompted: false,
                    ..self
                },
                ActionView::Continue,
            )
        }
    }

    /// `LoadConst`, `LoadName`, `LoadRecord`: pushes a constant, an
    /// identifier as a text, or a handle to a record schema.
    pub open spec fn load(self, op: OpCode, next: usize) -> (VmState, ActionView) {
        let m = self.module();
        let idx = u16_at(m.code, self.top().ip + 1);
        let bound = match op {
            OpCode::LoadConst => m.constants.len(),
            OpCode::LoadName => m.names.len(),
            _ => m.registos.len(),
        };
        if idx >= bound {
            self.fatal(Fault::BadIndex)
        } else if self.full() {
            self.fatal(Fault::StackOverflow)
        } else {
            match op {
                OpCode::LoadConst => self.done(0, seq![m.constants[idx as int]], next),
                OpCode::LoadName => self.done(0, seq![Value::Str(m.names[idx as int])], next),
                _ => self.done(
                    0,
                    seq![Value::Registo(RegistoRef { module: self.current, index: idx as usize })],
                    next,
                ),
            }
        }
    }

    /// `Mostra`: takes the top value and prints its display form and a
    /// newline.
    pub open spec fn mostra(self, reply: ReplyView, next: usize) -> (VmState, ActionView) {
        if self.stack.len() < 1 {
            self.fatal(Fault::StackUnderflow)
        } else {
            match display_spec(self.stack.last(), self.heap, self.modules, reply) {
                ShownView::Text(t) => (
                    self.commit(1, Seq::empty(), next),
                    ActionView::Print(t + "\n"@),
                ),
                ShownView::Missing(m) => (self, ActionView::Ask(RequestView::Texts(m))),
                ShownView::Fault(f) => self.fatal(f),
            }
        }
    }

    /// The binary operations: the two topmost values are the operands, the
    /// right one on top.
    pub open spec fn binary(self, op: OpCode, reply: ReplyView, next: usize) -> (
        VmState,
        ActionView,
    ) {
        let n = self.stack.len() as int;
        if n < 2 {
            self.fatal(Fault::StackUnderflow)
        } else {
            self.apply(2, binop_spec(self.stack[n - 2], op, self.stack[n - 1], reply), next)
        }
    }

    /// `OpInvert`, `OpNot` and `IsNull`: the top value is the operand.
    pub open spec fn unary(self, op: OpCode, reply: ReplyView, next: usize) -> (
        VmState,
        ActionView,
    ) {
        if self.stack.len() < 1 {
            self.fatal(Fault::StackUnderflow)
        } else {
            let v = self.stack.last();
            match op {
                OpCode::IsNull => self.done(1, seq![Value::Bool(v is Nulo)], next),
                OpCode::OpNot => match v {
                    Value::Bool(b) => self.done(1, seq![Value::Bool(!b)], next),
                    _ => self.fatal(Fault::BadOperand),
                },
                _ => match v {
                    Value::Int(i) => self.apply(1, checked(0i64.checked_sub(i)), next),
                    Value::Real(bits) => self.apply(
                        1,
                        ask(RealOp::Neg, Num::Real(bits), Num::Int(0), reply),
                        next,
                    ),
                    _ => self.fatal(Fault::BadOperand),
                },
            }
        }
    }

    /// `OpIndexGet`: the index is on top, the text or vector below it.
    pub open spec fn index_get(self, next: usize) -> (VmState, ActionView) {
        let n = self.stack.len() as int;
        if n < 2 {
            self.fatal(Fault::StackUnderflow)
        } else {
            match (self.stack[n - 2], self.stack[n - 1]) {
                (Value::Str(s), Value::Int(i)) => match position_error(
                    grapheme_clusters(s).len(),
                    i,
                ) {
                    Some(msg) => self.throw(msg),
                    None => self.done(2, seq![Value::Str(grapheme_clusters(s)[i as int])], next),
                },
                (Value::Vector(r), Value::Int(i)) => match heap_vector(self.heap, r) {
                    None => self.fatal(Fault::DanglingRef),
                    Some(items) => match index_error(items.len(), i) {
                        Some(msg) => self.throw(msg),
                        None => self.done(2, seq![items[i as int]], next),
                    },
                },
                _ => self.fatal(Fault::BadOperand),
            }
        }
    }

    /// `OpIndexSet`: the value is on top, the index below it, the vector
    /// below the index.
    pub open spec fn index_set(self, next: usize) -> (VmState, ActionView) {
        let n = self.stack.len() as int;
        if n < 3 {
            self.fatal(Fault::StackUnderflow)
        } else {
            match (self.stack[n - 3], self.stack[n - 2]) {
                (Value::Vector(r), Value::Int(i)) => match heap_vector(self.heap, r) {
                    None => self.fatal(Fault::DanglingRef),
                    Some(items) => match index_error(items.len(), i) {
                        Some(msg) => self.throw(msg),
                        None => (VmState {
                            heap: self.heap.update(
                                r.0 as int,
                                Obj::Vector(items.update(i as int, self.stack[n - 1])),
                            ),
                            ..self
                        }).done(3, Seq::empty(), next),
                    },
                },
                _ => self.fatal(Fault::BadOperand),
            }
        }
    }

    /// `GetGlobal`: pushes the global whose name the operand selects: that
    /// of the module that runs, or else that of the nearest module before it
    /// that defines the name.
    pub open spec fn get_global(self, next: usize) -> (VmState, ActionView) {
        let m = self.module();
        let idx = u16_at(m.code, self.top().ip + 1);
        if idx >= m.names.len() {
            self.fatal(Fault::BadIndex)
        } else {
            match resolve(self.modules, self.current as int, m.names[idx as int]) {
                Some(v) => if self.full() {
                    self.fatal(Fault::StackOverflow)
                } else {
                    self.done(0, seq![v], next)
                },
                None => self.fatal(Fault::MissingGlobal),
            }
        }
    }

    /// `SetGlobal`: takes the top value and stores it as the global of the
    /// module whose name the operand selects.
    pub open spec fn set_global(self, next: usize) -> (VmState, ActionView) {
        let m = self.module();
        let idx = u16_at(m.code, self.top().ip + 1);
        if idx >= m.names.len() {
            self.fatal(Fault::BadIndex)
        } else if self.stack.len() < 1 {
            self.fatal(Fault::StackUnderflow)
        } else {
            (VmState {
                modules: self.modules.update(
                    self.current as int,
                    ModuleState {
                        globals: m.globals.insert(m.names[idx as int], self.stack.last()),
                        ..m
                    },
                ),
                ..self
            }).done(1, Seq::empty(), next)
        }
    }

    /// `Jump` and `JumpIfFalse`: goes on at the address that the operand
    /// gives; `JumpIfFalse` takes the top value and does so only if the
    /// value is false.
    pub open spec fn jump(self, op: OpCode, next: usize) -> (VmState, ActionView) {
        let addr = u64_at(self.module().code, self.top().ip + 1) as usize;
        if op == OpCode::Jump {
            self.done(0, Seq::empty(), addr)
        } else if self.stack.len() < 1 {
            self.fatal(Fault::StackUnderflow)
        } else if self.stack.last() == Value::Bool(false) {
            self.done(1, Seq::empty(), addr)
        } else {
            self.done(1, Seq::empty(), next)
        }
    }

    /// `GetLocal`: pushes the local slot that the operand selects, counted
    /// from the base pointer of the active frame.
    pub open spec fn get_local(self, next: usize) -> (VmState, ActionView) {
        let idx = u16_at(self.module().code, self.top().ip + 1);
        let slot = self.top().bp + idx;
        if self.top().bp < 0 || slot >= self.stack.len() {
            self.fatal(Fault::BadIndex)
        } else if self.full() {
            self.fatal(Fault::StackOverflow)
        } else {
            self.done(0, seq![self.stack[slot]], next)
        }
    }

    /// `SetLocal`: takes the top value and stores it in the local slot that
    /// the operand selects.
    pub open spec fn set_local(self, next: usize) -> (VmState, ActionView) {
        let idx = u16_at(self.module().code, self.top().ip + 1);
        let slot = self.top().bp + idx;
        if self.stack.len() < 1 {
            self.fatal(Fault::StackUnderflow)
        } else if self.top().bp < 0 || slot >= self.stack.len() - 1 {
            self.fatal(Fault::BadIndex)
        } else {
            (
                VmState {
                    stack: self.stack.drop_last().update(slot, self.stack.last()),
                    frames: self.moved(next),
                    prompted: false,
                    ..self
                },
                ActionView::Continue,
            )
        }
    }

    /// `CallFunction` on a user function: the callee is taken off the
    /// operand stack; the `argc` values below it become the first local
    /// slots of the new frame, and a null value is pushed for each slot that
    /// is left; the caller goes on after the instruction once the callee
    /// returns. At the recursion limit the call fails with a runtime error.
    /// The base pointer of the new frame is the position of the first
    /// argument, or that of the first slot where there are no arguments; a
    /// callee without slots keeps the base pointer of its descriptor.
    pub open spec fn call_user(self, f: Frame, argc: u8, next: usize) -> (VmState, ActionView) {
        let n = self.stack.len() as int;
        let base = n - 1 - argc;
        if base < 0 {
            self.fatal(Fault::StackUnderflow)
        } else if argc > 0 && f.locals < argc {
            self.fatal(Fault::BadOperand)
        } else if n - 1 + (f.locals - argc) > isize::MAX {
            self.fatal(Fault::StackOverflow)
        } else if self.frames.len() >= RECURSION_LIMIT {
            self.throw("Limite máximo de recursão atingido"@)
        } else {
            let bp = if argc > 0 {
                base as isize
            } else if f.locals > 0 {
                (n - 1) as isize
            } else {
                f.bp
            };
            (
                VmState {
                    stack: self.stack.take(n - 1) + nulls((f.locals - argc) as nat),
                    frames: self.moved(next).push(Frame { bp, ..f }),
                    prompted: false,
                    ..self
                },
                ActionView::Continue,
            )
        }
    }

    /// `CallFunction`: the callee is on top of the operand stack, its
    /// arguments below it, the first argument lowest. A native function
    /// takes its arguments and the callee off the stack and leaves its
    /// result.
    pub open spec fn call(self, reply: ReplyView, next: usize) -> (VmState, ActionView) {
        let n = self.stack.len() as int;
        let argc = self.module().code[self.top().ip + 1];
        if n < 1 {
            self.fatal(Fault::StackUnderflow)
        } else {
            match self.stack[n - 1] {
                Value::Func(f) => self.call_user(f, argc, next),
                Value::NativeFn(func) => if n - 1 < argc {
                    self.fatal(Fault::StackUnderflow)
                } else {
                    let (outcome, heap) = native_spec(
                        func,
                        self.stack.subrange(n - 1 - argc, n - 1),
                        self.heap,
                        self.modules,
                        reply,
                        self.prompted,
                    );
                    (VmState { heap, ..self }).apply((argc + 1) as nat, outcome, next)
                },
                _ => self.fatal(Fault::NotAFunction),
            }
        }
    }

    /// `Return`: takes the result off the operand stack, drops the slots of
    /// the active frame, ends the frame and pushes the result.
    pub open spec fn ret(self) -> (VmState, ActionView) {
        let n = self.stack.len() as int;
        let bp = self.top().bp;
        if n < 1 {
            self.fatal(Fault::StackUnderflow)
        } else if bp > n - 1 {
            self.fatal(Fault::BadIndex)
        } else {
            (
                VmState {
                    stack: if bp > -1 {
                        self.stack.take(bp as int).push(self.stack.last())
                    } else {
                        self.stack
                    },
                    frames: self.frames.drop_last(),
                    prompted: false,
                    ..self
                },
                ActionView::Continue,
            )
        }
    }

    /// `BuildStr`: replaces the `k` topmost values by the text of their
    /// display forms, the lowest first.
    pub open spec fn build_str(self, reply: ReplyView, next: usize) -> (VmState, ActionView) {
        let n = self.stack.len() as int;
        let k = self.module().code[self.top().ip + 1];
        if n < k {
            self.fatal(Fault::StackUnderflow)
        } else if k == 0 && self.full() {
            self.fatal(Fault::StackOverflow)
        } else {
            self.apply(
                k as nat,
                shown_outcome(
                    display_all_spec(self.stack.subrange(n - k, n), self.heap, self.modules, reply),
                ),
                next,
            )
        }
    }

    /// `BuildVec`: replaces the `k` topmost values by a new vector that
    /// holds them, the lowest first.
    pub open spec fn build_vec(self, next: usize) -> (VmState, ActionView) {
        let n = self.stack.len() as int;
        let k = self.module().code[self.top().ip + 1];
        if n < k {
            self.fatal(Fault::StackUnderflow)
        } else if k == 0 && self.full() {
            self.fatal(Fault::StackOverflow)
        } else {
            (VmState {
                heap: self.heap.push(Obj::Vector(self.stack.subrange(n - k, n))),
                ..self
            }).done(k as nat, seq![Value::Vector(Ref(self.heap.len() as usize))], next)
        }
    }

    /// `BuildObj`: the schema is on top; below it lie `k` pairs of a field
    /// name and a value. All are replaced by a new instance of the schema
    /// with those fields set.
    pub open spec fn build_obj(self, next: usize) -> (VmState, ActionView) {
        let n = self.stack.len() as int;
        let k = self.module().code[self.top().ip + 1];
        if n < 1 + 2 * k {
            self.fatal(Fault::StackUnderflow)
        } else {
            match (
                self.stack[n - 1],
                fields_from(Map::empty(), self.stack.subrange(n - 1 - 2 * k, n - 1)),
            ) {
                (Value::Registo(registo), Some(state)) => (VmState {
                    heap: self.heap.push(Obj::RegObj(RegObjView { registo, state })),
                    ..self
                }).done((2 * k + 1) as nat, seq![Value::RegObj(Ref(self.heap.len() as usize))], next),
                _ => self.fatal(Fault::BadOperand),
            }
        }
    }

    /// `GetProp`: the field name is on top, the instance below it; both are
    /// replaced by the value of the field.
    pub open spec fn get_prop(self, next: usize) -> (VmState, ActionView) {
        let n = self.stack.len() as int;
        if n < 2 {
            self.fatal(Fault::StackUnderflow)
        } else {
            match (self.stack[n - 2], self.stack[n - 1]) {
                (Value::RegObj(r), Value::Str(field)) => match heap_regobj(self.heap, r) {
                    None => self.fatal(Fault::DanglingRef),
                    Some(obj) => if obj.state.contains_key(field) {
                        self.done(2, seq![obj.state[field]], next)
                    } else {
                        self.fatal(Fault::MissingField)
                    },
                },
                _ => self.fatal(Fault::BadOperand),
            }
        }
    }

    /// `SetProp`: the value is on top, the field name below it, the instance
    /// below the name; all three are taken and the field is set.
    pub open spec fn set_prop(self, next: usize) -> (VmState, ActionView) {
        let n = self.stack.len() as int;
        if n < 3 {
            self.fatal(Fault::StackUnderflow)
        } else {
            match (self.stack[n - 3], self.stack[n - 2]) {
                (Value::RegObj(r), Value::Str(field)) => match heap_regobj(self.heap, r) {
                    None => self.fatal(Fault::DanglingRef),
                    Some(obj) => (VmState {
                        heap: self.heap.update(
                            r.0 as int,
                            Obj::RegObj(
                                RegObjView {
                                    registo: obj.registo,
                                    state: obj.state.insert(field, self.stack[n - 1]),
                                },
                            ),
                        ),
                        ..self
                    }).done(3, Seq::empty(), next),
                },
                _ => self.fatal(Fault::BadOperand),
            }
        }
    }

    /// `Unwrap`: with a default, the default is on top and the value below
    /// it, and both are replaced by the value, or by the default where the
    /// value is null. Without a default, a null value on top is a runtime
    /// error and any other value stays.
    pub open spec fn unwrap(self, next: usize) -> (VmState, ActionView) {
        let n = self.stack.len() as int;
        let has_default = self.module().code[self.top().ip + 1] == 1;
        if has_default {
            if n < 2 {
                self.fatal(Fault::StackUnderflow)
            } else if self.stack[n - 2] is Nulo {
                self.done(2, seq![self.stack[n - 1]], next)
            } else {
                self.done(2, seq![self.stack[n - 2]], next)
            }
        } else {
            if n < 1 {
                self.fatal(Fault::StackUnderflow)
            } else if self.stack[n - 1] is Nulo {
                self.throw("Não pode aceder uma referência nula"@)
            } else {
                self.done(1, seq![self.stack[n - 1]], next)
            }
        }
    }

    /// `Cast`: the target type is on top, the value below it. Mode 0
    /// coerces the value; mode 1 checks that the value has the type.
    pub open spec fn cast(self, reply: ReplyView, next: usize) -> (VmState, ActionView) {
        let n = self.stack.len() as int;
        let mode = self.module().code[self.top().ip + 1];
        if n < 2 {
            self.fatal(Fault::StackUnderflow)
        } else {
            match self.stack[n - 1] {
                Value::Type(t) => if mode == 0 {
                    self.apply(
                        2,
                        cast_spec(self.stack[n - 2], t, self.heap, self.modules, reply),
                        next,
                    )
                } else if mode == 1 {
                    self.apply(2, checked_cast_spec(self.stack[n - 2], t), next)
                } else {
                    self.done(2, Seq::empty(), next)
                },
                _ => self.fatal(Fault::BadOperand),
            }
        }
    }

    /// `Halt`: ends the module that runs. A module has to end in its main
    /// function: unless exactly one frame is active and its name is
    /// `_inicio_`, the machine cannot go on. After an import, the machine
    /// turns to the next module with empty stacks; after the main module it
    /// halts and stays as it is.
    pub open spec fn halt(self) -> (VmState, ActionView) {
        if !(self.frames.len() == 1 && self.top().name == "_inicio_"@) {
            self.fatal(Fault::BadHalt)
        } else if self.current + 1 < self.modules.len() {
            (
                VmState {
                    current: (self.current + 1) as usize,
                    entered: false,
                    frames: Seq::empty(),
                    stack: Seq::empty(),
                    prompted: false,
                    ..self
                },
                ActionView::Continue,
            )
        } else {
            (self, ActionView::Halt)
        }
    }

    /// One instruction.
    pub open spec fn exec(self, op: OpCode, reply: ReplyView) -> (VmState, ActionView) {
        let next = (self.top().ip + 1 + op.spec_operand_len()) as usize;
        match op {
            OpCode::LoadConst | OpCode::LoadName | OpCode::LoadRecord => self.load(op, next),
            OpCode::Mostra => self.mostra(reply, next),
            OpCode::OpAdd
            | OpCode::OpMinus
            | OpCode::OpMul
            | OpCode::OpDiv
            | OpCode::OpFloorDiv
            | OpCode::OpModulo
            | OpCode::OpAnd
            | OpCode::OpOr
            | OpCode::OpEq
            | OpCode::OpNotEq
            | OpCode::OpGreater
            | OpCode::OpGreaterEq
            | OpCode::OpLess
            | OpCode::OpLessEq => self.binary(op, reply, next),
            OpCode::OpInvert | OpCode::OpNot | OpCode::IsNull => self.unary(op, reply, next),
            OpCode::OpIndexGet => self.index_get(next),
            OpCode::OpIndexSet => self.index_set(next),
            OpCode::GetGlobal => self.get_global(next),
            OpCode::SetGlobal => self.set_global(next),
            OpCode::Jump | OpCode::JumpIfFalse => self.jump(op, next),
            OpCode::GetLocal => self.get_local(next),
            OpCode::SetLocal => self.set_local(next),
            OpCode::CallFunction => self.call(reply, next),
            OpCode::Return => self.ret(),
            OpCode::BuildStr => self.build_str(reply, next),
            OpCode::BuildVec => self.build_vec(next),
            OpCode::BuildObj => self.build_obj(next),
            OpCode::GetProp => self.get_prop(next),
            OpCode::SetProp => self.set_prop(next),
            OpCode::Unwrap => self.unwrap(next),
            OpCode::Cast => self.cast(reply, next),
            OpCode::Halt => self.halt(),
        }
    }

    /// One step of the machine: the entry into the module that runs, or the
    /// instruction at the instruction pointer of the active frame.
    pub open spec fn step(self, reply: ReplyView) -> (VmState, ActionView) {
        if !self.entered {
            self.enter()
        } else if self.frames.len() == 0 {
            self.fatal(Fault::NoFrame)
        } else {
            let code = self.module().code;
            let ip = self.top().ip;
            if ip >= code.len() {
                self.fatal(Fault::CodeOverrun)
            } else {
                match OpCode::spec_from_byte(code[ip as int]) {
                    None => self.fatal(Fault::BadOpcode),
                    Some(op) => if ip + op.spec_operand_len() >= code.len() {
                        self.fatal(Fault::CodeOverrun)
                    } else {
                        self.exec(op, reply)
                    },
                }
            }
        }
    }

    /// Steps without the host: the machine steps until a step asks
    /// something of the host or `fuel` steps have been taken.
    pub open spec fn run(self, fuel: nat) -> (VmState, ActionView)
        decreases fuel,
    {
        if fuel == 0 {
            (self, ActionView::Continue)
        } else {
            let (next, action) = self.step(ReplyView::Nothing);
            if action is Continue {
                next.run((fuel - 1) as nat)
            } else {
                (next, action)
            }
        }
    }
}

} // verus!
