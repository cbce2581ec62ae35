//! Laws of the machine: what holds of every state, every program and every
//! reply of the host.
use vstd::prelude::*;
use crate::allocator::{heap_vector, Obj};
use crate::ama_value::Value;
use crate::function::Frame;
use crate::host::{Num, ReplyView};
use crate::module::{function_entries, install, ModuleState};
use crate::opcode::OpCode;
use crate::ops::{binop_spec, checked, div_by_zero, index_error, int_op, real_op, OutcomeView};
use crate::opcode::lemma_decode_encode;
use crate::semantics::{
    nulls, report, resolve, spec_offset_to_line, trace_lines, u16_at, ActionView, VmState,
};
use crate::binload::{const_of, kind_of, ConstView, TextKind};
use crate::bson::{le_i32, le_i64, le_u32, le_u64, parse_value, BsonView};
use crate::text::{decimal, spec_parse_int};
use vstd::utf8::{decode_utf8, encode_utf8, valid_utf8};

verus! {

broadcast use vstd::string::group_string_axioms;

/// A program ends only in its main function: when a step halts, exactly one
/// frame is active, and its name is `_inicio_`.
pub proof fn lemma_halt_in_main(s: VmState, reply: ReplyView)
    ensures
        s.step(reply).1 is Halt ==> s.step(reply).0.frames.len() == 1 && s.step(
            reply,
        ).0.frames.last().name == "_inicio_"@,
{
    lemma_step_halts_only_on_halt(s, reply);
}

/// A step halts only where the instruction is `Halt`, and then the state
/// stays as it is.
pub proof fn lemma_step_halts_only_on_halt(s: VmState, reply: ReplyView)
    ensures
        s.step(reply).1 is Halt ==> s.step(reply) == s.halt() && s.step(reply).0 == s,
{
    if s.entered && s.frames.len() > 0 && s.top().ip < s.module().code.len() {
        match OpCode::spec_from_byte(s.module().code[s.top().ip as int]) {
            Some(op) => {
                if s.top().ip + op.spec_operand_len() < s.module().code.len() {
                    lemma_exec_halts_only_on_halt(s, op, reply);
                }
            },
            None => {},
        }
    }
}

/// An instruction other than `Halt` does not halt.
pub proof fn lemma_exec_halts_only_on_halt(s: VmState, op: OpCode, reply: ReplyView)
    ensures
        s.exec(op, reply).1 is Halt ==> op == OpCode::Halt && s.exec(op, reply).0 == s,
{
}

/// A run ends only in the main function: when a run halts, exactly one
/// frame is active, and its name is `_inicio_`.
pub proof fn lemma_run_halts_in_main(s: VmState, fuel: nat)
    ensures
        s.run(fuel).1 is Halt ==> s.run(fuel).0.frames.len() == 1 && s.run(
            fuel,
        ).0.frames.last().name == "_inicio_"@,
    decreases fuel,
{
    if fuel > 0 {
        let (next, action) = s.step(ReplyView::Nothing);
        if action is Continue {
            lemma_run_halts_in_main(next, (fuel - 1) as nat);
        } else {
            lemma_halt_in_main(s, ReplyView::Nothing);
        }
    }
}

/// The report of a runtime error ends with the line of the outermost frame,
/// the message and a period.
pub proof fn lemma_report_shape(frames: Seq<Frame>, src_map: Seq<usize>, msg: Seq<char>)
    ensures
        report(frames, src_map, msg).len() > 0,
        report(frames, src_map, msg).last() == '.',
        exists|head: Seq<char>|
            report(frames, src_map, msg) == head + "Erro na linha "@ + decimal(
                spec_offset_to_line(frames[0].last_i, src_map) as nat,
            ) + ": "@ + msg + "."@,
{
    reveal_strlit(".");
    let head = (if frames.len() > 1 {
        "Fluxo de execução:\n"@
    } else {
        Seq::empty()
    }) + trace_lines(frames, src_map);
    assert(report(frames, src_map, msg) == head + "Erro na linha "@ + decimal(
        spec_offset_to_line(frames[0].last_i, src_map) as nat,
    ) + ": "@ + msg + "."@);
}

/// The frames as a report sees them: the active frame stands at the
/// instruction that failed.
pub open spec fn failing_frames(s: VmState) -> Seq<Frame> {
    s.frames.drop_last().push(Frame { last_i: s.top().ip, ..s.top() })
}

/// Whether a text is the report of a runtime error in a state, for some
/// message.
pub open spec fn is_report(s: VmState, text: Seq<char>) -> bool {
    exists|msg: Seq<char>| text == #[trigger] report(failing_frames(s), s.module().src_map, msg)
}

/// What an operation comes to is an error only through `apply`, which
/// reports it.
pub proof fn lemma_apply_reports(s: VmState, pops: nat, outcome: OutcomeView, next: usize)
    ensures
        s.apply(pops, outcome, next).1 matches ActionView::Error(text) ==> is_report(s, text),
{
    match outcome {
        OutcomeView::Error(msg) => {
            assert(s.apply(pops, outcome, next).1->Error_0 == report(
                failing_frames(s),
                s.module().src_map,
                msg,
            ));
        },
        _ => {},
    }
}

/// Whatever an instruction does, an error is a report.
pub proof fn lemma_exec_reports(s: VmState, op: OpCode, reply: ReplyView)
    ensures
        s.exec(op, reply).1 matches ActionView::Error(text) ==> is_report(s, text),
{
    let next = (s.top().ip + 1 + op.spec_operand_len()) as usize;
    let n = s.stack.len() as int;
    match s.exec(op, reply).1 {
        ActionView::Error(text) => {
            match op {
                OpCode::OpAdd
                | OpCode::OpMinus
                | OpCode::OpMul
                | OpCode::OpDiv
                | OpCode::OpFloorDiv
                | OpCode::OpModulo
                | OpCode::OpAnd
                | OpCode::OpOr
                | OpCode::OpEq
                | OpCode::OpNotEq
                | OpCode::OpGreater
                | OpCode::OpGreaterEq
                | OpCode::OpLess
                | OpCode::OpLessEq => {
                    lemma_apply_reports(
                        s,
                        2,
                        binop_spec(s.stack[n - 2], op, s.stack[n - 1], reply),
                        next,
                    );
                },
                OpCode::OpInvert | OpCode::OpNot | OpCode::IsNull => {
                    match s.stack.last() {
                        Value::Int(i) => {
                            lemma_apply_reports(s, 1, checked(0i64.checked_sub(i)), next);
                        },
                        Value::Real(bits) => {
                            lemma_apply_reports(
                                s,
                                1,
                                crate::ops::ask(
                                    crate::host::RealOp::Neg,
                                    Num::Real(bits),
                                    Num::Int(0),
                                    reply,
                                ),
                                next,
                            );
                        },
                        _ => {},
                    }
                },
                OpCode::OpIndexGet => {
                    lemma_throw_reports(s, s.index_get(next));
                },
                OpCode::OpIndexSet => {
                    lemma_throw_reports(s, s.index_set(next));
                },
                OpCode::CallFunction => {
                    let argc = s.module().code[s.top().ip + 1];
                    match s.stack[n - 1] {
                        Value::Func(f) => {
                            lemma_throw_reports(s, s.call_user(f, argc, next));
                        },
                        Value::NativeFn(func) => {
                            let (outcome, heap) = crate::builtins::native_spec(
                                func,
                                s.stack.subrange(n - 1 - argc, n - 1),
                                s.heap,
                                s.modules,
                                reply,
                                s.prompted,
                            );
                            let with_heap = VmState { heap, ..s };
                            lemma_apply_reports(with_heap, (argc + 1) as nat, outcome, next);
                            assert(failing_frames(with_heap) == failing_frames(s));
                        },
                        _ => {},
                    }
                },
                OpCode::BuildStr => {
                    let k = s.module().code[s.top().ip + 1];
                    lemma_apply_reports(
                        s,
                        k as nat,
                        crate::ops::shown_outcome(
                            crate::display::display_all_spec(
                                s.stack.subrange(n - k, n),
                                s.heap,
                                s.modules,
                                reply,
                            ),
                        ),
                        next,
                    );
                },
                OpCode::Unwrap => {
                    lemma_throw_reports(s, s.unwrap(next));
                },
                OpCode::Cast => {
                    match s.stack[n - 1] {
                        Value::Type(t) => {
                            lemma_apply_reports(
                                s,
                                2,
                                crate::ops::cast_spec(
                                    s.stack[n - 2],
                                    t,
                                    s.heap,
                                    s.modules,
                                    reply,
                                ),
                                next,
                            );
                            lemma_apply_reports(
                                s,
                                2,
                                crate::ops::checked_cast_spec(s.stack[n - 2], t),
                                next,
                            );
                        },
                        _ => {},
                    }
                },
                _ => {},
            }
        },
        _ => {},
    }
}

/// A result that is the throw of some message is a report.
pub proof fn lemma_throw_reports(s: VmState, result: (VmState, ActionView))
    requires
        result.1 is Error ==> exists|msg: Seq<char>| result == #[trigger] s.throw(msg),
    ensures
        result.1 matches ActionView::Error(text) ==> is_report(s, text),
{
    if result.1 is Error {
        let msg = choose|msg: Seq<char>| result == #[trigger] s.throw(msg);
        assert(result.1->Error_0 == report(failing_frames(s), s.module().src_map, msg));
    }
}

/// Every runtime error is reported in the same shape: the report ends with
/// `Erro na linha`, the line of the outermost frame, the message and a
/// period.
pub proof fn lemma_error_is_report(s: VmState, reply: ReplyView)
    ensures
        s.step(reply).1 matches ActionView::Error(text) ==> is_report(s, text) && text.len() > 0
            && text.last() == '.',
{
    if s.step(reply).1 is Error {
        let op = OpCode::spec_from_byte(s.module().code[s.top().ip as int])->0;
        lemma_exec_reports(s, op, reply);
        let text = s.step(reply).1->Error_0;
        let msg = choose|msg: Seq<char>|
            text == #[trigger] report(failing_frames(s), s.module().src_map, msg);
        lemma_report_shape(failing_frames(s), s.module().src_map, msg);
    }
}

/// `BuildVec` with operand `k` goes through on a stack of `k` values or
/// more, unless `k` is zero and the stack is full. Where it goes through,
/// the stack is shorter by `k - 1` values, and a new vector of the `k`
/// values is on top.
pub proof fn lemma_build_vec(s: VmState, next: usize)
    requires
        s.wf(),
        s.frames.len() > 0,
    ensures
        ({
            let k = s.module().code[s.top().ip + 1];
            let after = s.build_vec(next).0;
            &&& s.build_vec(next).1 is Continue <==> s.stack.len() >= k && !(k == 0 && s.full())
            &&& s.build_vec(next).1 is Continue ==> {
                &&& after.stack.len() == s.stack.len() - k + 1
                &&& after.stack.last() is Vector
                &&& heap_vector(after.heap, after.stack.last()->Vector_0) == Some(
                    s.stack.subrange(s.stack.len() - k, s.stack.len() as int),
                )
            }
        }),
{
}

/// `Return` goes through with a result on the stack and a base pointer that
/// is not above the result. Where it goes through, exactly one frame has
/// ended, and the result is on top of the stack.
pub proof fn lemma_return(s: VmState)
    requires
        s.wf(),
        s.frames.len() > 0,
    ensures
        s.ret().1 is Continue <==> s.stack.len() >= 1 && s.top().bp <= s.stack.len() - 1,
        s.ret().1 is Continue ==> {
            &&& s.ret().0.frames.len() == s.frames.len() - 1
            &&& s.ret().0.frames == s.frames.drop_last()
            &&& s.ret().0.stack.len() >= 1
            &&& s.ret().0.stack.last() == s.stack.last()
        },
{
}

/// `CallFunction` with a user function on top of the stack is the call of
/// that function.
pub proof fn lemma_call_is_call_user(s: VmState, f: Frame, reply: ReplyView, next: usize)
    requires
        s.stack.len() >= 1,
        s.stack.last() == Value::Func(f),
    ensures
        s.call(reply, next) == s.call_user(f, s.module().code[s.top().ip + 1], next),
{
}

/// A call of a user function goes through where the arguments are on the
/// stack, the callee has a slot for each, the stack has room for the other
/// slots and the recursion limit is not reached. Where it goes through,
/// exactly one frame is added; the base pointer of the new frame is not above
/// the stack; the first `argc` slots from the base pointer are the arguments
/// in order, and the other slots of the callee hold the null value.
///
/// A callee without slots keeps the base pointer of its descriptor, which is
/// -1 for a function that has not been called.
pub proof fn lemma_call_user(s: VmState, f: Frame, argc: u8, next: usize)
    requires
        s.wf(),
        s.frames.len() > 0,
        argc == 0 && f.locals == 0 ==> f.bp == -1,
    ensures
        ({
            let n = s.stack.len() as int;
            let after = s.call_user(f, argc, next).0;
            let bp = after.frames.last().bp as int;
            &&& s.call_user(f, argc, next).1 is Continue <==> {
                &&& n >= 1 + argc
                &&& argc > 0 ==> argc <= f.locals
                &&& n - 1 + (f.locals - argc) <= isize::MAX
                &&& s.frames.len() < crate::frames::RECURSION_LIMIT
            }
            &&& s.call_user(f, argc, next).1 is Continue ==> {
                &&& after.frames.len() == s.frames.len() + 1
                &&& after.frames.drop_last() == s.moved(next)
                &&& bp <= after.stack.len()
                &&& after.stack.len() == n - 1 - argc + f.locals
                &&& f.locals > 0 ==> bp == n - 1 - argc
                &&& f.locals > 0 ==> after.stack.subrange(bp, bp + argc) == s.stack.subrange(
                    n - 1 - argc,
                    n - 1,
                )
                &&& f.locals > 0 ==> after.stack.subrange(bp + argc, bp + f.locals) == nulls(
                    (f.locals - argc) as nat,
                )
            }
        }),
{
    let n = s.stack.len() as int;
    let after = s.call_user(f, argc, next).0;
    let bp = after.frames.last().bp as int;
    if s.call_user(f, argc, next).1 is Continue {
        assert(after.frames.drop_last() =~= s.moved(next));
        if f.locals > 0 {
            assert(after.stack.subrange(bp, bp + argc) =~= s.stack.subrange(n - 1 - argc, n - 1));
            assert(after.stack.subrange(bp + argc, bp + f.locals) =~= nulls(
                (f.locals - argc) as nat,
            ));
        }
    }
}

/// Whether the code at `p` gets the global whose name has the index `idx`
/// and calls it without arguments.
pub open spec fn calls_at(code: Seq<u8>, p: usize, idx: u16) -> bool {
    &&& p + 4 < code.len() <= usize::MAX
    &&& code[p as int] == OpCode::GetGlobal.spec_byte()
    &&& u16_at(code, p + 1) == idx
    &&& code[p + 3] == OpCode::CallFunction.spec_byte()
    &&& code[p + 4] == 0
}

/// Whether the machine is about to call the function `f`, and `f` starts by
/// calling itself: the code at the instruction pointer, and the code at
/// which `f` starts, both get the global of the same name and call it
/// without arguments; that global is `f`, a function without slots.
pub open spec fn recursing(s: VmState, f: Frame, idx: u16) -> bool {
    let m = s.module();
    &&& s.wf()
    &&& s.entered
    &&& s.frames.len() >= 1
    &&& !s.full()
    &&& calls_at(m.code, s.top().ip, idx)
    &&& calls_at(m.code, f.ip, idx)
    &&& f.locals == 0
    &&& idx < m.names.len()
    &&& resolve(s.modules, s.current as int, m.names[idx as int]) == Some(Value::Func(f))
}

/// Whether a text is the report of a recursion that hit the limit: the
/// header of the calls in progress, then the calls and the line, then the
/// message and a period.
pub open spec fn is_limit_report(text: Seq<char>) -> bool {
    exists|mid: Seq<char>|
        text == "Fluxo de execução:\n"@ + mid + "Limite máximo de recursão atingido"@ + "."@
}

/// One round of a recursion: the machine gets the function and calls it.
/// Below the recursion limit the machine then stands in the function, one
/// frame deeper, about to call it again; at the limit the call fails with
/// the report of the recursion.
pub proof fn lemma_recursion_round(s: VmState, f: Frame, idx: u16)
    requires
        recursing(s, f, idx),
    ensures
        ({
            let (s1, a1) = s.step(ReplyView::Nothing);
            let (s2, a2) = s1.step(ReplyView::Nothing);
            &&& a1 is Continue
            &&& if s.frames.len() < crate::frames::RECURSION_LIMIT {
                &&& a2 is Continue
                &&& recursing(s2, f, idx)
                &&& s2.frames.len() == s.frames.len() + 1
            } else {
                a2 matches ActionView::Error(text) && is_limit_report(text)
            }
        }),
{
    let m = s.module();
    let p = s.top().ip;
    lemma_decode_encode(OpCode::GetGlobal);
    lemma_decode_encode(OpCode::CallFunction);
    let (s1, a1) = s.step(ReplyView::Nothing);
    assert(s.step(ReplyView::Nothing) == s.get_global((p + 3) as usize));
    assert(s1.stack == s.stack.push(Value::Func(f)));
    assert(s1.top().ip == p + 3);
    assert(s1.module() == m);
    let (s2, a2) = s1.step(ReplyView::Nothing);
    assert(s1.step(ReplyView::Nothing) == s1.call(ReplyView::Nothing, (p + 5) as usize));
    assert(s1.call(ReplyView::Nothing, (p + 5) as usize) == s1.call_user(f, 0, (p + 5) as usize));
    if s.frames.len() < crate::frames::RECURSION_LIMIT {
        assert(s2.stack =~= s.stack);
        assert(s2.frames.last() == f);
        assert(s2.modules == s.modules);
    } else {
        let frames = s1.frames.drop_last().push(Frame { last_i: s1.top().ip, ..s1.top() });
        let text = a2->Error_0;
        assert(text == report(frames, m.src_map, "Limite máximo de recursão atingido"@));
        assert(frames.len() > 1);
        let mid = trace_lines(frames, m.src_map) + "Erro na linha "@ + decimal(
            spec_offset_to_line(frames[0].last_i, m.src_map) as nat,
        ) + ": "@;
        assert(text =~= "Fluxo de execução:\n"@ + mid + "Limite máximo de recursão atingido"@
            + "."@);
    }
}

/// A function that starts by calling itself hits the recursion limit: a run
/// with fuel for the rounds that are left ends in the report of the
/// recursion, and in nothing else.
pub proof fn lemma_recursion_hits_the_limit(s: VmState, f: Frame, idx: u16, fuel: nat)
    requires
        recursing(s, f, idx),
        fuel >= 2 * (crate::frames::RECURSION_LIMIT - s.frames.len()) + 2,
    ensures
        s.run(fuel).1 matches ActionView::Error(text) && is_limit_report(text),
    decreases crate::frames::RECURSION_LIMIT - s.frames.len(),
{
    lemma_recursion_round(s, f, idx);
    let (s1, a1) = s.step(ReplyView::Nothing);
    let (s2, a2) = s1.step(ReplyView::Nothing);
    assert(s.run(fuel) == s1.run((fuel - 1) as nat));
    if s.frames.len() < crate::frames::RECURSION_LIMIT {
        assert(s1.run((fuel - 1) as nat) == s2.run((fuel - 2) as nat));
        lemma_recursion_hits_the_limit(s2, f, idx, (fuel - 2) as nat);
    } else {
        assert(s1.run((fuel - 1) as nat) == (s2, a2));
    }
}

/// After the entries of a list have been stored in a table, the table holds
/// the last entry.
pub proof fn lemma_install_last(globals: Map<Seq<char>, Value>, entries: Seq<(Seq<char>, Value)>)
    requires
        entries.len() > 0,
    ensures
        install(globals, entries).contains_key(entries.last().0),
        install(globals, entries)[entries.last().0] == entries.last().1,
    decreases entries.len(),
{
    let first = globals.insert(entries[0].0, entries[0].1);
    assert(install(globals, entries) == install(first, entries.drop_first()));
    if entries.len() > 1 {
        assert(entries.drop_first().last() == entries.last());
        lemma_install_last(first, entries.drop_first());
    } else {
        assert(entries.drop_first().len() == 0);
        assert(install(first, entries.drop_first()) == first);
    }
}

/// A program whose module-level code calls a function that starts by
/// calling itself never ends well: from the start of the module, a run with
/// fuel for a thousand rounds ends in the report of the recursion.
///
/// The module is not builtin and its module-level code has no slots; `f` is
/// the last function of the module, has no slots and is named by the
/// identifier of index `idx`.
pub proof fn lemma_recursion_from_start(s: VmState, f: Frame, idx: u16, fuel: nat)
    requires
        s.wf(),
        !s.entered,
        s.stack.len() == 0,
        !s.module().builtin,
        s.module().main.locals == 0,
        s.module().functions.len() > 0,
        s.module().functions.last() == f,
        f.locals == 0,
        idx < s.module().names.len(),
        s.module().names[idx as int] == f.name,
        calls_at(s.module().code, s.module().main.ip, idx),
        calls_at(s.module().code, f.ip, idx),
        fuel >= 2 * crate::frames::RECURSION_LIMIT + 1,
    ensures
        s.run(fuel).1 matches ActionView::Error(text) && is_limit_report(text),
{
    let m = s.module();
    let (s0, a0) = s.step(ReplyView::Nothing);
    assert(s.step(ReplyView::Nothing) == s.enter());
    let entries = function_entries(m.functions);
    assert(entries.last() == (f.name, Value::Func(f)));
    lemma_install_last(m.globals, entries);
    assert(s0.module() == m.initialized());
    assert(s0.stack.len() == 0);
    assert(recursing(s0, f, idx));
    assert(s.run(fuel) == s0.run((fuel - 1) as nat));
    lemma_recursion_hits_the_limit(s0, f, idx, (fuel - 1) as nat);
}

/// A module ends only in its main function: where a step turns to the next
/// module, exactly one frame was active, and its name was `_inicio_`.
pub proof fn lemma_module_ends_in_main(s: VmState, reply: ReplyView)
    requires
        s.entered,
    ensures
        s.step(reply).0.current != s.current ==> s.frames.len() == 1 && s.top().name
            == "_inicio_"@,
{
    if s.frames.len() > 0 && s.top().ip < s.module().code.len() {
        match OpCode::spec_from_byte(s.module().code[s.top().ip as int]) {
            Some(op) => {
                if s.top().ip + op.spec_operand_len() < s.module().code.len() {
                    lemma_exec_keeps_module(s, op, reply);
                }
            },
            None => {},
        }
    }
}

/// Whatever an operation comes to, the module that runs stays.
pub proof fn lemma_apply_keeps_module(s: VmState, pops: nat, outcome: OutcomeView, next: usize)
    ensures
        s.apply(pops, outcome, next).0.current == s.current,
{
}

/// Only `Halt` turns to another module.
pub proof fn lemma_exec_keeps_module(s: VmState, op: OpCode, reply: ReplyView)
    ensures
        s.exec(op, reply).0.current != s.current ==> op == OpCode::Halt && s.frames.len() == 1
            && s.top().name == "_inicio_"@,
{
    let next = (s.top().ip + 1 + op.spec_operand_len()) as usize;
    let n = s.stack.len() as int;
    match op {
        OpCode::OpAdd
        | OpCode::OpMinus
        | OpCode::OpMul
        | OpCode::OpDiv
        | OpCode::OpFloorDiv
        | OpCode::OpModulo
        | OpCode::OpAnd
        | OpCode::OpOr
        | OpCode::OpEq
        | OpCode::OpNotEq
        | OpCode::OpGreater
        | OpCode::OpGreaterEq
        | OpCode::OpLess
        | OpCode::OpLessEq => {
            lemma_apply_keeps_module(
                s,
                2,
                binop_spec(s.stack[n - 2], op, s.stack[n - 1], reply),
                next,
            );
        },
        OpCode::OpInvert | OpCode::OpNot | OpCode::IsNull => {
            match s.stack.last() {
                Value::Int(i) => {
                    lemma_apply_keeps_module(s, 1, checked(0i64.checked_sub(i)), next);
                },
                Value::Real(bits) => {
                    lemma_apply_keeps_module(
                        s,
                        1,
                        crate::ops::ask(crate::host::RealOp::Neg, Num::Real(bits), Num::Int(0), reply),
                        next,
                    );
                },
                _ => {},
            }
        },
        OpCode::CallFunction => {
            let argc = s.module().code[s.top().ip + 1];
            match s.stack[n - 1] {
                Value::NativeFn(func) => {
                    let (outcome, heap) = crate::builtins::native_spec(
                        func,
                        s.stack.subrange(n - 1 - argc, n - 1),
                        s.heap,
                        s.modules,
                        reply,
                        s.prompted,
                    );
                    lemma_apply_keeps_module(
                        VmState { heap, ..s },
                        (argc + 1) as nat,
                        outcome,
                        next,
                    );
                },
                _ => {},
            }
        },
        OpCode::BuildStr => {
            let k = s.module().code[s.top().ip + 1];
            lemma_apply_keeps_module(
                s,
                k as nat,
                crate::ops::shown_outcome(
                    crate::display::display_all_spec(
                        s.stack.subrange(n - k, n),
                        s.heap,
                        s.modules,
                        reply,
                    ),
                ),
                next,
            );
        },
        OpCode::Cast => {
            match s.stack[n - 1] {
                Value::Type(t) => {
                    lemma_apply_keeps_module(
                        s,
                        2,
                        crate::ops::cast_spec(s.stack[n - 2], t, s.heap, s.modules, reply),
                        next,
                    );
                    lemma_apply_keeps_module(
                        s,
                        2,
                        crate::ops::checked_cast_spec(s.stack[n - 2], t),
                        next,
                    );
                },
                _ => {},
            }
        },
        _ => {},
    }
}

/// An offset has the line of a triple that covers it, unless no triple
/// covers it, and then the line zero: where the line is not zero, some
/// triple with that line covers the offset.
pub proof fn lemma_line_is_covered(offset: usize, src_map: Seq<usize>)
    ensures
        spec_offset_to_line(offset, src_map) != 0 ==> exists|k: int|
            covers(src_map, k, offset) && src_map[3 * k + 2] == spec_offset_to_line(
                offset,
                src_map,
            ),
    decreases src_map.len(),
{
    if src_map.len() >= 3 {
        if src_map[0] <= offset && offset <= src_map[1] {
            assert(covers(src_map, 0, offset));
        } else {
            lemma_line_is_covered(offset, src_map.skip(3));
            if spec_offset_to_line(offset, src_map) != 0 {
                let k = choose|k: int|
                    covers(src_map.skip(3), k, offset) && src_map.skip(3)[3 * k + 2]
                        == spec_offset_to_line(offset, src_map.skip(3));
                assert(covers(src_map, k + 1, offset));
                assert(src_map[3 * (k + 1) + 2] == src_map.skip(3)[3 * k + 2]);
            }
        }
    }
}

/// Whether the triple at position `k` of a source map covers an offset.
pub open spec fn covers(src_map: Seq<usize>, k: int, offset: usize) -> bool {
    0 <= k && 3 * k + 2 < src_map.len() && src_map[3 * k] <= offset && offset <= src_map[3 * k
        + 1]
}

/// Where every triple that covers an offset has the same line, the offset
/// has that line.
pub proof fn lemma_covered_has_line(offset: usize, src_map: Seq<usize>, k: int, line: usize)
    requires
        covers(src_map, k, offset),
        forall|j: int| covers(src_map, j, offset) ==> src_map[3 * j + 2] == line,
    ensures
        spec_offset_to_line(offset, src_map) == line,
    decreases src_map.len(),
{
    if src_map[0] <= offset && offset <= src_map[1] {
        assert(covers(src_map, 0, offset));
    } else {
        assert(k != 0);
        let rest = src_map.skip(3);
        assert(covers(rest, k - 1, offset));
        assert forall|j: int| covers(rest, j, offset) implies rest[3 * j + 2] == line by {
            assert(covers(src_map, j + 1, offset));
            assert(src_map[3 * (j + 1) + 2] == rest[3 * j + 2]);
        }
        lemma_covered_has_line(offset, rest, k - 1, line);
    }
}

/// The line of the triple at position `k` of a source map.
pub open spec fn line_of(src_map: Seq<usize>, k: int) -> usize {
    src_map[3 * k + 2]
}

/// Where a triple covers an offset and the line of every triple of the
/// source map is positive, the line of the offset is positive.
pub proof fn lemma_covered_line_is_positive(offset: usize, src_map: Seq<usize>, k: int)
    requires
        covers(src_map, k, offset),
        forall|j: int| 0 <= j && 3 * j + 2 < src_map.len() ==> #[trigger] line_of(src_map, j) > 0,
    ensures
        spec_offset_to_line(offset, src_map) > 0,
    decreases src_map.len(),
{
    if src_map[0] <= offset && offset <= src_map[1] {
        assert(line_of(src_map, 0) > 0);
    } else {
        let rest = src_map.skip(3);
        assert(covers(rest, k - 1, offset));
        assert forall|j: int| 0 <= j && 3 * j + 2 < rest.len() implies #[trigger] line_of(rest, j)
            > 0 by {
            assert(line_of(rest, j) == line_of(src_map, j + 1));
        }
        lemma_covered_line_is_positive(offset, rest, k - 1);
    }
}

/// Where no triple covers an offset, the offset has the line zero.
pub proof fn lemma_uncovered_has_no_line(offset: usize, src_map: Seq<usize>)
    requires
        forall|j: int| !covers(src_map, j, offset),
    ensures
        spec_offset_to_line(offset, src_map) == 0,
    decreases src_map.len(),
{
    if src_map.len() >= 3 {
        assert(!covers(src_map, 0, offset));
        let rest = src_map.skip(3);
        assert forall|j: int| !covers(rest, j, offset) by {
            if covers(rest, j, offset) {
                assert(covers(src_map, j + 1, offset));
            }
        }
        lemma_uncovered_has_no_line(offset, rest);
    }
}

/// Integer addition, subtraction and multiplication never wrap: the result
/// is the mathematical one, or the operation fails with the overflow error.
pub proof fn lemma_integer_arithmetic_is_checked(op: OpCode, i: i64, j: i64, reply: ReplyView)
    requires
        op == OpCode::OpAdd || op == OpCode::OpMinus || op == OpCode::OpMul,
    ensures
        ({
            let exact: int = if op == OpCode::OpAdd {
                i + j
            } else if op == OpCode::OpMinus {
                i - j
            } else {
                i * j
            };
            if i64::MIN <= exact <= i64::MAX {
                binop_spec(Value::Int(i), op, Value::Int(j), reply) == OutcomeView::Done(
                    Value::Int(exact as i64),
                )
            } else {
                binop_spec(Value::Int(i), op, Value::Int(j), reply) == checked(None)
            }
        }),
{
}

/// Division by zero, true or floored, fails with the error of a division
/// by zero, whatever the dividend and whatever the host replies. A real
/// divisor of a floored division is cut off toward zero by the host first;
/// the division then fails where the host finds zero.
pub proof fn lemma_division_by_zero(left: Value, right: Value, reply: ReplyView)
    requires
        left is Int || left is Real,
        right is Int || right is Real,
        crate::builtins::num_of(right)->0.spec_is_zero(),
    ensures
        binop_spec(left, OpCode::OpDiv, right, reply) == div_by_zero(),
        right is Int ==> binop_spec(left, OpCode::OpFloorDiv, right, reply) == div_by_zero(),
        right is Real && reply is Ints && reply->Ints_1 == 0 ==> binop_spec(
            left,
            OpCode::OpFloorDiv,
            right,
            reply,
        ) == div_by_zero(),
{
}

/// An index equal to the length of a vector is out of range; the index one
/// below the length of a vector that is not empty is in range.
pub proof fn lemma_index_bounds(len: nat)
    requires
        len <= i64::MAX,
    ensures
        index_error(len, len as i64) is Some,
        len > 0 ==> index_error(len, (len - 1) as i64) is None,
        index_error(len, -1i64) is Some,
{
}


/// A run that fails ends with a report that a period closes.
pub proof fn lemma_run_error_ends_with_period(s: VmState, fuel: nat)
    ensures
        s.run(fuel).1 matches ActionView::Error(text) ==> text.len() > 0 && text.last() == '.',
    decreases fuel,
{
    if fuel > 0 {
        let (next, action) = s.step(ReplyView::Nothing);
        if action is Continue {
            lemma_run_error_ends_with_period(next, (fuel - 1) as nat);
        } else {
            lemma_error_is_report(s, ReplyView::Nothing);
        }
    }
}

/// The value of the constant pool that writes a constant: an integer and a
/// real are written as they are, a boolean as its word, and a text between
/// double quotation marks.
pub open spec fn encode_const(c: ConstView) -> BsonView {
    match c {
        ConstView::Int(i) => BsonView::Int(i),
        ConstView::Double(bits) => BsonView::Double(bits),
        ConstView::Bool(b) => BsonView::String(
            if b {
                "verdadeiro"@
            } else {
                "falso"@
            },
        ),
        ConstView::Str(s) => BsonView::String(seq!['"'] + s + seq!['"']),
    }
}

/// A constant that is written to the constant pool and read back is the
/// same constant, whatever the host says of its text.
pub proof fn lemma_const_round_trip(c: ConstView, parsed: Option<u64>)
    ensures
        const_of(encode_const(c), parsed) == Some(c),
{
    reveal_strlit("verdadeiro");
    reveal_strlit("falso");
    match c {
        ConstView::Str(s) => {
            let text = seq!['"'] + s + seq!['"'];
            assert(text[0] == '"');
            assert(text != "verdadeiro"@);
            assert(text != "falso"@);
            assert(crate::text::unsigned_part(text) == text);
            assert(!crate::text::is_digit(text[0]));
            assert(spec_parse_int(text) is None);
            assert(kind_of(text) == TextKind::Quoted);
            assert(text.last() == '"');
            assert(text.subrange(1, text.len() - 1) =~= s);
        },
        ConstView::Bool(b) => {
            assert("verdadeiro"@ != "falso"@);
        },
        _ => {},
    }
}

/// The bytes that write a number, the lowest byte first.
pub open spec fn le_bytes(x: int, n: nat) -> Seq<u8>
    decreases n,
{
    if n == 0 {
        Seq::empty()
    } else {
        seq![(x % 256) as u8] + le_bytes(x / 256, (n - 1) as nat)
    }
}

/// The bytes that write a value of the constant pool: eight bytes for an
/// integer, in two's complement, and for a double; for a string, the size
/// of its UTF-8 form in four bytes, that form, and a zero byte.
pub open spec fn encode_value(v: BsonView) -> Seq<u8> {
    match v {
        BsonView::Int(i) => le_bytes(
            if i < 0 {
                i + 0x1_0000_0000_0000_0000
            } else {
                i as int
            },
            8,
        ),
        BsonView::Double(bits) => le_bytes(bits as int, 8),
        BsonView::String(s) => le_bytes(encode_utf8(s).len() as int, 4) + encode_utf8(s) + seq![
            0u8,
        ],
        _ => Seq::empty(),
    }
}

/// The type byte of a value of the constant pool.
pub open spec fn type_byte(v: BsonView) -> u8 {
    match v {
        BsonView::Int(_) => 0x12,
        BsonView::Double(_) => 0x01,
        _ => 0x02,
    }
}

/// Four bytes that write a number read back as that number.
pub proof fn lemma_le_u32(x: int)
    requires
        0 <= x < 0x1_0000_0000,
    ensures
        le_bytes(x, 4).len() == 4,
        le_u32(le_bytes(x, 4)) == x,
{
    reveal_with_fuel(le_bytes, 5);
}

/// Eight bytes that write a number read back as that number.
pub proof fn lemma_le_u64(x: int)
    requires
        0 <= x < 0x1_0000_0000_0000_0000,
    ensures
        le_bytes(x, 8).len() == 8,
        le_u64(le_bytes(x, 8)) == x,
{
    reveal_with_fuel(le_bytes, 9);
}

/// The bytes that write an integer, a double or a string, read as a value
/// of that type, give the value back and end where the bytes of the value
/// end, whatever follows them.
pub proof fn lemma_value_round_trip(v: BsonView, tail: Seq<u8>)
    requires
        v is Int || v is Double || v is String,
        v matches BsonView::String(s) ==> encode_utf8(s).len() <= i32::MAX,
    ensures
        parse_value(encode_value(v) + tail, 0, type_byte(v)) == Some(
            (v, encode_value(v).len() as int),
        ),
{
    let bytes = encode_value(v) + tail;
    match v {
        BsonView::Int(i) => {
            let x = if i < 0 {
                i + 0x1_0000_0000_0000_0000
            } else {
                i as int
            };
            lemma_le_u64(x);
            assert(bytes.subrange(0, 8) =~= le_bytes(x, 8));
        },
        BsonView::Double(bits) => {
            lemma_le_u64(bits as int);
            assert(bytes.subrange(0, 8) =~= le_bytes(bits as int, 8));
        },
        BsonView::String(s) => {
            let body = encode_utf8(s);
            let size = body.len() as int;
            lemma_le_u32(size);
            assert(bytes.subrange(0, 4) =~= le_bytes(size, 4));
            assert(le_i32(bytes.subrange(0, 4)) == size);
            assert(bytes.subrange(4, 4 + size) =~= body);
            vstd::utf8::encode_utf8_valid_utf8(s);
            vstd::utf8::encode_utf8_decode_utf8(s);
        },
        _ => {},
    }
}

/// A constant that is written to the bytes of a constant pool and read back
/// is the same constant: its bytes are read as the value that writes it,
/// and that value as the constant.
pub proof fn lemma_constant_bytes_round_trip(c: ConstView, tail: Seq<u8>, parsed: Option<u64>)
    requires
        encode_const(c) matches BsonView::String(s) ==> encode_utf8(s).len() <= i32::MAX,
    ensures
        parse_value(encode_value(encode_const(c)) + tail, 0, type_byte(encode_const(c)))
            matches Some((v, _)) && const_of(v, parsed) == Some(c),
{
    lemma_value_round_trip(encode_const(c), tail);
    lemma_const_round_trip(c, parsed);
}

} // verus!
