use amanda_vm::allocator::{Alloc, HeapObj};
use amanda_vm::ama_value::{AmaValue, Ref};
use amanda_vm::amatype::Type;
use amanda_vm::binload::{consume_const, Const};
use amanda_vm::bson::{unpack_bson_value, BSONType};
use amanda_vm::function::{AmaFunc, Builtin, FuncModule, NativeFunc};
use amanda_vm::host::{Fault, Num, RealOp, RealText, Reply, Request};
use amanda_vm::module::Module;
use amanda_vm::opcode::OpCode;
use amanda_vm::registo::Registo;
use amanda_vm::registry::definitions;
use amanda_vm::vm::{format_report, offset_to_line, Action, AmaVM};
use amanda_vm::frames::FrameStack;

#[test]
fn offset_to_line_works() {
    let src_map = vec![0, 3, 1, 4, 5, 2];
    assert_eq!(offset_to_line(0, &src_map), 1);
    assert_eq!(offset_to_line(1, &src_map), 1);
    assert_eq!(offset_to_line(3, &src_map), 1);
    assert_eq!(offset_to_line(5, &src_map), 2);
}

fn as_real(n: Num) -> f64 {
    match n {
        Num::Int(i) => i as f64,
        Num::Real(bits) => f64::from_bits(bits),
    }
}

fn real_text(bits: u64) -> String {
    let x = f64::from_bits(bits);
    if x.fract() == 0.0 {
        format!("{}.0", x)
    } else {
        format!("{}", x)
    }
}

fn serve(request: Request, input: &mut Vec<String>) -> Reply {
    match request {
        Request::Texts(reals) => Reply::Texts(
            reals.into_iter().map(|bits| RealText { bits, text: real_text(bits) }).collect(),
        ),
        Request::ParseReal(text) => match text.parse::<f64>() {
            Ok(x) => Reply::Real(x.to_bits()),
            Err(_) => Reply::Invalid,
        },
        Request::ParseReals(_) => Reply::Invalid,
        Request::ReadLine => {
            let line = input.remove(0);
            let parsed = line.parse::<f64>().ok().map(f64::to_bits);
            Reply::Line(line, parsed)
        }
        Request::Real(op, a, b) => {
            let (x, y) = (as_real(a), as_real(b));
            match op {
                RealOp::Add => Reply::Real((x + y).to_bits()),
                RealOp::Sub => Reply::Real((x - y).to_bits()),
                RealOp::Mul => Reply::Real((x * y).to_bits()),
                RealOp::Div => Reply::Real((x / y).to_bits()),
                RealOp::Rem => Reply::Real((x % y).to_bits()),
                RealOp::Pow => Reply::Real(x.powf(y).to_bits()),
                RealOp::Log => Reply::Real(x.log(y).to_bits()),
                RealOp::Eq => Reply::Bool(x == y),
                RealOp::Ne => Reply::Bool(x != y),
                RealOp::Lt => Reply::Bool(x < y),
                RealOp::Le => Reply::Bool(x <= y),
                RealOp::Gt => Reply::Bool(x > y),
                RealOp::Ge => Reply::Bool(x >= y),
                RealOp::Neg => Reply::Real((-x).to_bits()),
                RealOp::Abs => Reply::Real(x.abs().to_bits()),
                RealOp::Sqrt => Reply::Real(x.sqrt().to_bits()),
                RealOp::Sin => Reply::Real(x.sin().to_bits()),
                RealOp::Cos => Reply::Real(x.cos().to_bits()),
                RealOp::Tan => Reply::Real(x.tan().to_bits()),
                RealOp::ToRadians => Reply::Real(x.to_radians().to_bits()),
                RealOp::ToDegrees => Reply::Real(x.to_degrees().to_bits()),
                RealOp::Widen => Reply::Real(x.to_bits()),
                RealOp::Trunc => Reply::Int(x as i64),
                RealOp::Round => Reply::Int(x.round() as i64),
                RealOp::Floor => Reply::Int(x.floor() as i64),
                RealOp::Ceil => Reply::Int(x.ceil() as i64),
                RealOp::TruncBoth => Reply::Ints(x as i64, y as i64),
            }
        }
    }
}

/// How a run ended.
#[derive(Debug)]
enum End {
    Halt,
    Error(String),
    Fatal(Fault),
}

/// Runs a machine to its end, with the given lines of input. Returns what
/// it wrote and how it ended.
fn drive(vm: &mut AmaVM, lines: &[&str]) -> (String, End) {
    let mut input: Vec<String> = lines.iter().map(|l| l.to_string()).collect();
    let mut out = String::new();
    let mut reply = Reply::Nothing;
    for _ in 0..1_000_000 {
        let action = vm.step(std::mem::replace(&mut reply, Reply::Nothing));
        match action {
            Action::Continue => {}
            Action::Print(text) => out.push_str(&text),
            Action::Ask(request) => reply = serve(request, &mut input),
            Action::Halt => return (out, End::Halt),
            Action::Error(report) => return (out, End::Error(report)),
            Action::Fatal(fault) => return (out, End::Fatal(fault)),
        }
    }
    panic!("the program does not end");
}

fn module(constants: Vec<AmaValue>, names: &[&str], code: Vec<u8>) -> Module {
    let last = code.len();
    Module {
        name: String::from("principal"),
        builtin: false,
        constants,
        names: names.iter().map(|n| n.to_string()).collect(),
        code,
        main: AmaFunc::new(String::from("_inicio_"), 0, 0, FuncModule::Main),
        functions: Vec::new(),
        globals: Default::default(),
        registos: Vec::new(),
        src_map: vec![0, last, 1],
    }
}

/// A module that is the builtin module `embutidos` and has code of its own,
/// so that the code finds the native functions among its globals.
fn embutidos(constants: Vec<AmaValue>, names: &[&str], code: Vec<u8>) -> Module {
    let mut m = module(constants, names, code);
    m.name = String::from("embutidos");
    m.builtin = true;
    m
}

fn machine(main: Module) -> AmaVM {
    AmaVM::new(Vec::new(), main, Alloc::new())
}

fn op(o: OpCode) -> Vec<u8> {
    vec![o.byte()]
}

fn op8(o: OpCode, arg: u8) -> Vec<u8> {
    vec![o.byte(), arg]
}

fn op16(o: OpCode, arg: u16) -> Vec<u8> {
    vec![o.byte(), (arg >> 8) as u8, arg as u8]
}

fn op64(o: OpCode, arg: u64) -> Vec<u8> {
    let mut v = vec![o.byte()];
    v.extend_from_slice(&arg.to_be_bytes());
    v
}

fn code(parts: Vec<Vec<u8>>) -> Vec<u8> {
    parts.into_iter().flatten().collect()
}

fn float(x: f64) -> AmaValue {
    AmaValue::Real(x.to_bits())
}

fn text(s: &str) -> AmaValue {
    AmaValue::Str(s.to_string())
}

fn run_main(constants: Vec<AmaValue>, names: &[&str], parts: Vec<Vec<u8>>) -> (String, End) {
    let mut vm = machine(module(constants, names, code(parts)));
    drive(&mut vm, &[])
}

fn run_embutidos(constants: Vec<AmaValue>, names: &[&str], parts: Vec<Vec<u8>>) -> (String, End) {
    let mut vm = machine(embutidos(constants, names, code(parts)));
    drive(&mut vm, &[])
}

fn expect_output(result: (String, End), expected: &str) {
    match result {
        (out, End::Halt) => assert_eq!(out, expected),
        (_, other) => panic!("the program should halt, not end in {:?}", other),
    }
}

fn expect_error(result: (String, End), expected: &str) {
    match result {
        (_, End::Error(report)) => assert_eq!(report, expected),
        (_, other) => panic!("the program should fail, not end in {:?}", other),
    }
}

fn expect_fatal(result: (String, End), expected: Fault) {
    match result {
        (_, End::Fatal(fault)) => assert_eq!(fault, expected),
        (_, other) => panic!("the machine should stop, not end in {:?}", other),
    }
}

#[test]
fn halt_alone_runs_with_empty_output() {
    let mut vm = machine(module(vec![], &[], op(OpCode::Halt)));
    let (out, end) = drive(&mut vm, &[]);
    assert!(matches!(end, End::Halt));
    assert_eq!(out, "");
    assert_eq!(vm.depth(), 1);
    assert_eq!(vm.frame(0).name, "_inicio_");
}

#[test]
fn arithmetic_and_print() {
    expect_output(
        run_main(
            vec![AmaValue::Int(2), AmaValue::Int(3)],
            &[],
            vec![
                op16(OpCode::LoadConst, 0),
                op16(OpCode::LoadConst, 1),
                op(OpCode::OpAdd),
                op(OpCode::Mostra),
                op(OpCode::Halt),
            ],
        ),
        "5\n",
    );
}

#[test]
fn float_display() {
    expect_output(
        run_main(
            vec![float(1.0)],
            &[],
            vec![op16(OpCode::LoadConst, 0), op(OpCode::Mostra), op(OpCode::Halt)],
        ),
        "1.0\n",
    );
}

#[test]
fn division_by_zero() {
    for o in [OpCode::OpDiv, OpCode::OpFloorDiv] {
        expect_error(
            run_main(
                vec![AmaValue::Int(1), AmaValue::Int(0)],
                &[],
                vec![
                    op16(OpCode::LoadConst, 0),
                    op16(OpCode::LoadConst, 1),
                    op(o),
                    op(OpCode::Mostra),
                    op(OpCode::Halt),
                ],
            ),
            "Erro na linha 1: não pode dividir um número por zero.",
        );
    }
}

#[test]
fn division_of_reals_by_zero() {
    for (o, right) in [
        (OpCode::OpDiv, float(0.0)),
        (OpCode::OpDiv, float(-0.0)),
        (OpCode::OpFloorDiv, float(0.5)),
        (OpCode::OpFloorDiv, AmaValue::Int(0)),
    ] {
        expect_error(
            run_main(
                vec![float(1.0), right],
                &[],
                vec![
                    op16(OpCode::LoadConst, 0),
                    op16(OpCode::LoadConst, 1),
                    op(o),
                    op(OpCode::Halt),
                ],
            ),
            "Erro na linha 1: não pode dividir um número por zero.",
        );
    }
}

#[test]
fn modulo_by_zero() {
    expect_error(
        run_main(
            vec![AmaValue::Int(1), AmaValue::Int(0)],
            &[],
            vec![
                op16(OpCode::LoadConst, 0),
                op16(OpCode::LoadConst, 1),
                op(OpCode::OpModulo),
                op(OpCode::Halt),
            ],
        ),
        "Erro na linha 1: não pode calcular o resto da divisão de um número por zero.",
    );
}

#[test]
fn integer_addition_overflows() {
    expect_error(
        run_main(
            vec![AmaValue::Int(i64::MAX), AmaValue::Int(1)],
            &[],
            vec![
                op16(OpCode::LoadConst, 0),
                op16(OpCode::LoadConst, 1),
                op(OpCode::OpAdd),
                op(OpCode::Mostra),
                op(OpCode::Halt),
            ],
        ),
        "Erro na linha 1: Erro ao realizar operação aritmética. Resultado fora do intervalo de inteiros representáveis.",
    );
}

#[test]
fn integer_operations() {
    let cases: Vec<(OpCode, i64, i64, &str)> = vec![
        (OpCode::OpAdd, 7, -9, "-2\n"),
        (OpCode::OpMinus, 7, 9, "-2\n"),
        (OpCode::OpMul, -7, 9, "-63\n"),
        (OpCode::OpFloorDiv, 7, 2, "3\n"),
        (OpCode::OpFloorDiv, -7, 2, "-3\n"),
        (OpCode::OpModulo, 7, 3, "1\n"),
        (OpCode::OpModulo, -7, 3, "-1\n"),
        (OpCode::OpDiv, 7, 2, "3.5\n"),
        (OpCode::OpDiv, 8, 2, "4.0\n"),
        (OpCode::OpEq, 3, 3, "verdadeiro\n"),
        (OpCode::OpNotEq, 3, 3, "falso\n"),
        (OpCode::OpGreater, 3, 2, "verdadeiro\n"),
        (OpCode::OpGreaterEq, 2, 3, "falso\n"),
        (OpCode::OpLess, 2, 3, "verdadeiro\n"),
        (OpCode::OpLessEq, 3, 3, "verdadeiro\n"),
        (OpCode::OpMinus, i64::MIN, 0, "-9223372036854775808\n"),
    ];
    for (o, a, b, expected) in cases {
        expect_output(
            run_main(
                vec![AmaValue::Int(a), AmaValue::Int(b)],
                &[],
                vec![
                    op16(OpCode::LoadConst, 0),
                    op16(OpCode::LoadConst, 1),
                    op(o),
                    op(OpCode::Mostra),
                    op(OpCode::Halt),
                ],
            ),
            expected,
        );
    }
}

#[test]
fn checked_operations_overflow() {
    let cases: Vec<(OpCode, i64, i64)> = vec![
        (OpCode::OpMinus, i64::MIN, 1),
        (OpCode::OpMul, i64::MAX, 2),
        (OpCode::OpFloorDiv, i64::MIN, -1),
        (OpCode::OpModulo, i64::MIN, -1),
    ];
    for (o, a, b) in cases {
        expect_error(
            run_main(
                vec![AmaValue::Int(a), AmaValue::Int(b)],
                &[],
                vec![
                    op16(OpCode::LoadConst, 0),
                    op16(OpCode::LoadConst, 1),
                    op(o),
                    op(OpCode::Halt),
                ],
            ),
            "Erro na linha 1: Erro ao realizar operação aritmética. Resultado fora do intervalo de inteiros representáveis.",
        );
    }
}

#[test]
fn real_operations_go_through_the_host() {
    let cases: Vec<(OpCode, AmaValue, AmaValue, &str)> = vec![
        (OpCode::OpAdd, float(1.5), AmaValue::Int(2), "3.5\n"),
        (OpCode::OpMinus, AmaValue::Int(2), float(0.5), "1.5\n"),
        (OpCode::OpMul, float(1.5), float(2.0), "3.0\n"),
        (OpCode::OpDiv, float(1.0), float(4.0), "0.25\n"),
        (OpCode::OpModulo, float(7.5), float(2.0), "1.5\n"),
        (OpCode::OpFloorDiv, float(7.9), float(2.1), "3\n"),
        (OpCode::OpFloorDiv, AmaValue::Int(7), float(2.9), "3\n"),
        (OpCode::OpFloorDiv, float(-7.9), AmaValue::Int(2), "-3\n"),
        (OpCode::OpLess, float(1.0), AmaValue::Int(2), "verdadeiro\n"),
        (OpCode::OpEq, float(2.0), AmaValue::Int(2), "verdadeiro\n"),
        (OpCode::OpNotEq, float(2.0), float(2.0), "falso\n"),
    ];
    for (o, a, b, expected) in cases {
        expect_output(
            run_main(
                vec![a, b],
                &[],
                vec![
                    op16(OpCode::LoadConst, 0),
                    op16(OpCode::LoadConst, 1),
                    op(o),
                    op(OpCode::Mostra),
                    op(OpCode::Halt),
                ],
            ),
            expected,
        );
    }
}

#[test]
fn a_real_operation_is_asked_and_leaves_the_machine_as_it_is() {
    let mut vm = machine(module(
        vec![float(1.5), float(2.0)],
        &[],
        code(vec![
            op16(OpCode::LoadConst, 0),
            op16(OpCode::LoadConst, 1),
            op(OpCode::OpAdd),
            op(OpCode::Halt),
        ]),
    ));
    assert!(matches!(vm.step(Reply::Nothing), Action::Continue));
    assert!(matches!(vm.step(Reply::Nothing), Action::Continue));
    assert!(matches!(vm.step(Reply::Nothing), Action::Continue));
    match vm.step(Reply::Nothing) {
        Action::Ask(Request::Real(RealOp::Add, Num::Real(a), Num::Real(b))) => {
            assert_eq!(f64::from_bits(a), 1.5);
            assert_eq!(f64::from_bits(b), 2.0);
        }
        other => panic!("the addition of reals is the host's: {:?}", other),
    }
    assert_eq!(vm.stack_len(), 2);
    assert_eq!(vm.frame(0).ip, 6);
    // A reply of the wrong kind does not answer the request.
    assert!(matches!(vm.step(Reply::Bool(true)), Action::Fatal(Fault::BadReply)));
    assert_eq!(vm.stack_len(), 2);
    assert!(matches!(vm.step(Reply::Real(3.5f64.to_bits())), Action::Continue));
    assert_eq!(vm.stack_len(), 1);
    assert!(matches!(vm.stack_value(0), AmaValue::Real(b) if f64::from_bits(*b) == 3.5));
    assert_eq!(vm.frame(0).ip, 7);
    assert_eq!(vm.frame(0).last_i, 6);
}

#[test]
fn logic_and_unary_operations() {
    expect_output(
        run_main(
            vec![AmaValue::Bool(true), AmaValue::Bool(false), AmaValue::Int(5), float(2.5)],
            &[],
            vec![
                op16(OpCode::LoadConst, 0),
                op16(OpCode::LoadConst, 1),
                op(OpCode::OpAnd),
                op(OpCode::Mostra),
                op16(OpCode::LoadConst, 0),
                op16(OpCode::LoadConst, 1),
                op(OpCode::OpOr),
                op(OpCode::Mostra),
                op16(OpCode::LoadConst, 0),
                op(OpCode::OpNot),
                op(OpCode::Mostra),
                op16(OpCode::LoadConst, 2),
                op(OpCode::OpInvert),
                op(OpCode::Mostra),
                op16(OpCode::LoadConst, 3),
                op(OpCode::OpInvert),
                op(OpCode::Mostra),
                op16(OpCode::LoadConst, 2),
                op(OpCode::IsNull),
                op(OpCode::Mostra),
                op(OpCode::Halt),
            ],
        ),
        "falso\nverdadeiro\nfalso\n-5\n-2.5\nfalso\n",
    );
}

#[test]
fn negation_of_the_least_integer_overflows() {
    expect_error(
        run_main(
            vec![AmaValue::Int(i64::MIN)],
            &[],
            vec![op16(OpCode::LoadConst, 0), op(OpCode::OpInvert), op(OpCode::Halt)],
        ),
        "Erro na linha 1: Erro ao realizar operação aritmética. Resultado fora do intervalo de inteiros representáveis.",
    );
}

#[test]
fn null_equals_null() {
    expect_output(
        run_main(
            vec![AmaValue::Nulo],
            &[],
            vec![
                op16(OpCode::LoadConst, 0),
                op16(OpCode::LoadConst, 0),
                op(OpCode::OpEq),
                op(OpCode::Mostra),
                op16(OpCode::LoadConst, 0),
                op(OpCode::Mostra),
                op(OpCode::Halt),
            ],
        ),
        "verdadeiro\nnulo\n",
    );
}

#[test]
fn text_comparison_and_load_name() {
    expect_output(
        run_main(
            vec![text("abc")],
            &["abc", "abd"],
            vec![
                op16(OpCode::LoadConst, 0),
                op16(OpCode::LoadName, 0),
                op(OpCode::OpEq),
                op(OpCode::Mostra),
                op16(OpCode::LoadConst, 0),
                op16(OpCode::LoadName, 1),
                op(OpCode::OpNotEq),
                op(OpCode::Mostra),
                op(OpCode::Halt),
            ],
        ),
        "verdadeiro\nverdadeiro\n",
    );
}

#[test]
fn operands_of_two_families_are_a_fault() {
    expect_fatal(
        run_main(
            vec![AmaValue::Int(1), text("a")],
            &[],
            vec![
                op16(OpCode::LoadConst, 0),
                op16(OpCode::LoadConst, 1),
                op(OpCode::OpAdd),
                op(OpCode::Halt),
            ],
        ),
        Fault::BadOperand,
    );
}

#[test]
fn recursion_limit() {
    // _inicio_: GetGlobal f, CallFunction 0, Halt
    // f:        GetGlobal f, CallFunction 0, Return
    let main_code = code(vec![
        op16(OpCode::GetGlobal, 0),
        op8(OpCode::CallFunction, 0),
        op(OpCode::Halt),
        op16(OpCode::GetGlobal, 0),
        op8(OpCode::CallFunction, 0),
        op(OpCode::Return),
    ]);
    let mut m = module(vec![], &["f"], main_code);
    m.functions.push(AmaFunc::new(String::from("f"), 6, 0, FuncModule::Main));
    m.src_map = vec![0, 5, 1, 6, 11, 2];
    let mut vm = machine(m);
    match drive(&mut vm, &[]) {
        (_, End::Error(report)) => {
            assert!(report.starts_with("Fluxo de execução:\n    Linha 2, na função f\n"));
            assert!(report.contains("Limite máximo de recursão atingido"));
            assert!(report.ends_with("Erro na linha 1: Limite máximo de recursão atingido."));
            assert_eq!(report.matches("    Linha 2, na função f\n").count(), 999);
        }
        (_, other) => panic!("the recursion has to hit the limit: {:?}", other),
    }
    assert_eq!(vm.depth(), 0);
}

#[test]
fn vector_round_trip() {
    expect_output(
        run_embutidos(
            vec![AmaValue::Int(3), AmaValue::Int(7)],
            &["int", "vec", "v", "anexa", "tam"],
            vec![
                op16(OpCode::GetGlobal, 0),
                op16(OpCode::LoadConst, 0),
                op16(OpCode::GetGlobal, 1),
                op8(OpCode::CallFunction, 2),
                op16(OpCode::SetGlobal, 2),
                op16(OpCode::GetGlobal, 2),
                op16(OpCode::LoadConst, 1),
                op16(OpCode::GetGlobal, 3),
                op8(OpCode::CallFunction, 2),
                op16(OpCode::GetGlobal, 2),
                op16(OpCode::GetGlobal, 4),
                op8(OpCode::CallFunction, 1),
                op(OpCode::Mostra),
                op16(OpCode::GetGlobal, 2),
                op(OpCode::Mostra),
                op(OpCode::Halt),
            ],
        ),
        "4\n[0, 0, 0, 7]\n",
    );
}

#[test]
fn string_index_out_of_range() {
    // tam("ábc") is 3.
    expect_output(
        run_embutidos(
            vec![text("ábc")],
            &["tam"],
            vec![
                op16(OpCode::LoadConst, 0),
                op16(OpCode::GetGlobal, 0),
                op8(OpCode::CallFunction, 1),
                op(OpCode::Mostra),
                op(OpCode::Halt),
            ],
        ),
        "3\n",
    );
    expect_error(
        run_main(
            vec![text("ábc"), AmaValue::Int(5)],
            &[],
            vec![
                op16(OpCode::LoadConst, 0),
                op16(OpCode::LoadConst, 1),
                op(OpCode::OpIndexGet),
                op(OpCode::Halt),
            ],
        ),
        "Erro na linha 1: Erro de índice inválido. O tamanho da string é 3, mas o índice é 5.",
    );
}

#[test]
fn string_index_counts_grapheme_clusters() {
    // "e" with a combining acute accent is one cluster of two code points.
    expect_output(
        run_main(
            vec![text("ae\u{301}z"), AmaValue::Int(1), AmaValue::Int(2)],
            &[],
            vec![
                op16(OpCode::LoadConst, 0),
                op16(OpCode::LoadConst, 1),
                op(OpCode::OpIndexGet),
                op(OpCode::Mostra),
                op16(OpCode::LoadConst, 0),
                op16(OpCode::LoadConst, 2),
                op(OpCode::OpIndexGet),
                op(OpCode::Mostra),
                op(OpCode::Halt),
            ],
        ),
        "e\u{301}\nz\n",
    );
    expect_error(
        run_main(
            vec![text("abc"), AmaValue::Int(-1)],
            &[],
            vec![
                op16(OpCode::LoadConst, 0),
                op16(OpCode::LoadConst, 1),
                op(OpCode::OpIndexGet),
                op(OpCode::Halt),
            ],
        ),
        "Erro na linha 1: Erro de índice inválido. Strings só podem ser indexadas com inteiros positivos.",
    );
}

#[test]
fn vector_access_at_the_bounds() {
    let program = |index: i64| {
        run_main(
            vec![AmaValue::Int(10), AmaValue::Int(20), AmaValue::Int(index)],
            &[],
            vec![
                op16(OpCode::LoadConst, 0),
                op16(OpCode::LoadConst, 1),
                op8(OpCode::BuildVec, 2),
                op16(OpCode::LoadConst, 2),
                op(OpCode::OpIndexGet),
                op(OpCode::Mostra),
                op(OpCode::Halt),
            ],
        )
    };
    expect_output(program(0), "10\n");
    expect_output(program(1), "20\n");
    expect_error(
        program(2),
        "Erro na linha 1: Erro de índice inválido. O tamanho do vector é 2, mas tentou aceder o índice 2.",
    );
    expect_error(
        program(-1),
        "Erro na linha 1: Erro de índice inválido. Vectores só podem ser indexados com inteiros positivos.",
    );
}

#[test]
fn index_set_is_seen_through_every_handle() {
    expect_output(
        run_main(
            vec![AmaValue::Int(1), AmaValue::Int(2), AmaValue::Int(0), AmaValue::Int(9)],
            &["a", "b"],
            vec![
                op16(OpCode::LoadConst, 0),
                op16(OpCode::LoadConst, 1),
                op8(OpCode::BuildVec, 2),
                op16(OpCode::SetGlobal, 0),
                op16(OpCode::GetGlobal, 0),
                op16(OpCode::SetGlobal, 1),
                // a[0] = 9
                op16(OpCode::GetGlobal, 0),
                op16(OpCode::LoadConst, 2),
                op16(OpCode::LoadConst, 3),
                op(OpCode::OpIndexSet),
                op16(OpCode::GetGlobal, 1),
                op(OpCode::Mostra),
                op(OpCode::Halt),
            ],
        ),
        "[9, 2]\n",
    );
}

#[test]
fn build_vec_shrinks_the_stack_by_n_minus_one() {
    for n in [0u8, 1, 3] {
        let mut parts = vec![
            op16(OpCode::LoadConst, 0),
            op16(OpCode::LoadConst, 0),
            op16(OpCode::LoadConst, 0),
            op16(OpCode::LoadConst, 0),
        ];
        parts.push(op8(OpCode::BuildVec, n));
        parts.push(op(OpCode::Halt));
        let mut vm = machine(module(vec![AmaValue::Int(4)], &[], code(parts)));
        for _ in 0..5 {
            assert!(matches!(vm.step(Reply::Nothing), Action::Continue));
        }
        assert_eq!(vm.stack_len(), 4);
        assert!(matches!(vm.step(Reply::Nothing), Action::Continue));
        assert_eq!(vm.stack_len(), 4 - n as usize + 1);
        match vm.stack_value(vm.stack_len() - 1) {
            AmaValue::Vector(r) => match r.inner(vm.allocator()) {
                HeapObj::Vector(items) => assert_eq!(items.len(), n as usize),
                _ => panic!("the handle refers to a vector"),
            },
            other => panic!("a vector is on top: {:?}", other),
        }
    }
}

#[test]
fn build_str_concatenates_display_forms() {
    expect_output(
        run_main(
            vec![text("x = "), AmaValue::Int(3), float(0.5), AmaValue::Bool(true)],
            &[],
            vec![
                op16(OpCode::LoadConst, 0),
                op16(OpCode::LoadConst, 1),
                op16(OpCode::LoadConst, 2),
                op16(OpCode::LoadConst, 3),
                op8(OpCode::BuildStr, 4),
                op(OpCode::Mostra),
                op8(OpCode::BuildStr, 0),
                op(OpCode::Mostra),
                op(OpCode::Halt),
            ],
        ),
        "x = 30.5verdadeiro\n\n",
    );
}

#[test]
fn nested_vectors_with_reals_are_displayed() {
    expect_output(
        run_main(
            vec![float(1.0), float(2.5), AmaValue::Int(3), text("a")],
            &[],
            vec![
                op16(OpCode::LoadConst, 0),
                op16(OpCode::LoadConst, 1),
                op8(OpCode::BuildVec, 2),
                op16(OpCode::LoadConst, 2),
                op16(OpCode::LoadConst, 3),
                op16(OpCode::LoadConst, 0),
                op8(OpCode::BuildVec, 4),
                op(OpCode::Mostra),
                op8(OpCode::BuildVec, 0),
                op(OpCode::Mostra),
                op(OpCode::Halt),
            ],
        ),
        "[[1.0, 2.5], 3, a, 1.0]\n[]\n",
    );
}

#[test]
fn a_vector_that_contains_itself_has_no_display_form() {
    expect_fatal(
        run_embutidos(
            vec![],
            &["v", "anexa"],
            vec![
                op8(OpCode::BuildVec, 0),
                op16(OpCode::SetGlobal, 0),
                op16(OpCode::GetGlobal, 0),
                op16(OpCode::GetGlobal, 0),
                op16(OpCode::GetGlobal, 1),
                op8(OpCode::CallFunction, 2),
                op16(OpCode::GetGlobal, 0),
                op(OpCode::Mostra),
                op(OpCode::Halt),
            ],
        ),
        Fault::CyclicValue,
    );
}

#[test]
fn jumps() {
    // if falso { mostra 1 } mostra 2
    let body = vec![
        op16(OpCode::LoadConst, 0),
        op64(OpCode::JumpIfFalse, 16),
        op16(OpCode::LoadConst, 1),
        op(OpCode::Mostra),
        op16(OpCode::LoadConst, 2),
        op(OpCode::Mostra),
        op(OpCode::Halt),
    ];
    expect_output(
        run_main(
            vec![AmaValue::Bool(false), AmaValue::Int(1), AmaValue::Int(2)],
            &[],
            body.clone(),
        ),
        "2\n",
    );
    expect_output(
        run_main(vec![AmaValue::Bool(true), AmaValue::Int(1), AmaValue::Int(2)], &[], body),
        "1\n2\n",
    );
    expect_output(
        run_main(
            vec![AmaValue::Int(1)],
            &[],
            vec![
                op64(OpCode::Jump, 13),
                op16(OpCode::LoadConst, 0),
                op(OpCode::Mostra),
                op(OpCode::Halt),
            ],
        ),
        "",
    );
}

#[test]
fn call_and_return() {
    // _inicio_: push 10, push 4, call sub(2 args), mostra, halt
    // sub(a, b): local c = a - b; return c
    let main_code = code(vec![
        op16(OpCode::LoadConst, 0),
        op16(OpCode::LoadConst, 1),
        op16(OpCode::GetGlobal, 0),
        op8(OpCode::CallFunction, 2),
        op(OpCode::Mostra),
        op(OpCode::Halt),
        // sub, at 13
        op16(OpCode::GetLocal, 0),
        op16(OpCode::GetLocal, 1),
        op(OpCode::OpMinus),
        op16(OpCode::SetLocal, 2),
        op16(OpCode::GetLocal, 2),
        op(OpCode::Return),
    ]);
    let mut m = module(vec![AmaValue::Int(10), AmaValue::Int(4)], &["sub"], main_code);
    m.functions.push(AmaFunc::new(String::from("sub"), 13, 3, FuncModule::Main));
    let mut vm = machine(m);
    // Enter, two constants, the callee.
    for _ in 0..4 {
        assert!(matches!(vm.step(Reply::Nothing), Action::Continue));
    }
    assert_eq!(vm.depth(), 1);
    assert_eq!(vm.stack_len(), 3);
    // The call.
    assert!(matches!(vm.step(Reply::Nothing), Action::Continue));
    assert_eq!(vm.depth(), 2);
    assert_eq!(vm.frame(1).name, "sub");
    assert_eq!(vm.frame(1).bp, 0);
    assert_eq!(vm.frame(1).ip, 13);
    assert_eq!(vm.frame(0).ip, 11);
    assert_eq!(vm.frame(0).last_i, 9);
    assert!(vm.frame(1).bp <= vm.stack_len() as isize);
    assert_eq!(vm.stack_len(), 3);
    assert!(matches!(vm.stack_value(0), AmaValue::Int(10)));
    assert!(matches!(vm.stack_value(1), AmaValue::Int(4)));
    assert!(matches!(vm.stack_value(2), AmaValue::Nulo));
    // The body up to the return.
    for _ in 0..5 {
        assert!(matches!(vm.step(Reply::Nothing), Action::Continue));
    }
    assert_eq!(vm.depth(), 2);
    assert_eq!(vm.stack_len(), 4);
    // The return.
    assert!(matches!(vm.step(Reply::Nothing), Action::Continue));
    assert_eq!(vm.depth(), 1);
    assert_eq!(vm.stack_len(), 1);
    assert!(matches!(vm.stack_value(0), AmaValue::Int(6)));
    let (out, end) = drive(&mut vm, &[]);
    assert!(matches!(end, End::Halt));
    assert_eq!(out, "6\n");
}

#[test]
fn call_without_arguments_reserves_the_locals() {
    let main_code = code(vec![
        op16(OpCode::LoadConst, 0),
        op16(OpCode::GetGlobal, 0),
        op8(OpCode::CallFunction, 0),
        op(OpCode::Halt),
        // f, at 9
        op16(OpCode::LoadConst, 0),
        op(OpCode::Return),
    ]);
    let mut m = module(vec![AmaValue::Int(1)], &["f"], main_code);
    m.functions.push(AmaFunc::new(String::from("f"), 9, 2, FuncModule::Main));
    let mut vm = machine(m);
    for _ in 0..4 {
        assert!(matches!(vm.step(Reply::Nothing), Action::Continue));
    }
    assert_eq!(vm.depth(), 2);
    assert_eq!(vm.frame(1).bp, 1);
    assert_eq!(vm.stack_len(), 3);
    let (_, end) = drive(&mut vm, &[]);
    assert!(matches!(end, End::Halt));
    assert_eq!(vm.stack_len(), 2);
}

#[test]
fn halt_inside_a_function_is_a_fault() {
    let main_code = code(vec![
        op16(OpCode::GetGlobal, 0),
        op8(OpCode::CallFunction, 0),
        op(OpCode::Halt),
        // f, at 6
        op(OpCode::Halt),
    ]);
    let mut m = module(vec![], &["f"], main_code);
    m.functions.push(AmaFunc::new(String::from("f"), 6, 0, FuncModule::Main));
    expect_fatal(drive_once(m), Fault::BadHalt);
}

fn drive_once(m: Module) -> (String, End) {
    let mut vm = machine(m);
    drive(&mut vm, &[])
}

#[test]
fn faults_of_the_code() {
    expect_fatal(run_main(vec![], &[], vec![vec![200]]), Fault::BadOpcode);
    expect_fatal(run_main(vec![], &[], vec![]), Fault::CodeOverrun);
    expect_fatal(run_main(vec![], &[], vec![vec![OpCode::LoadConst.byte(), 0]]), Fault::CodeOverrun);
    expect_fatal(
        run_main(vec![], &[], vec![op16(OpCode::LoadConst, 0), op(OpCode::Halt)]),
        Fault::BadIndex,
    );
    expect_fatal(run_main(vec![], &[], vec![op(OpCode::Mostra)]), Fault::StackUnderflow);
    expect_fatal(
        run_main(vec![], &["x"], vec![op16(OpCode::GetGlobal, 0), op(OpCode::Halt)]),
        Fault::MissingGlobal,
    );
    expect_fatal(
        run_main(
            vec![AmaValue::Int(1)],
            &[],
            vec![op16(OpCode::LoadConst, 0), op8(OpCode::CallFunction, 0)],
        ),
        Fault::NotAFunction,
    );
    expect_fatal(
        run_main(vec![], &[], vec![op16(OpCode::GetLocal, 0), op(OpCode::Halt)]),
        Fault::BadIndex,
    );
    // A return from the main function leaves no frame.
    expect_fatal(
        run_main(
            vec![AmaValue::Int(1)],
            &[],
            vec![op16(OpCode::LoadConst, 0), op(OpCode::Return)],
        ),
        Fault::NoFrame,
    );
}

#[test]
fn an_undeclared_builtin_module_is_a_fault() {
    let mut m = module(vec![], &[], op(OpCode::Halt));
    m.builtin = true;
    m.name = String::from("desconhecido");
    expect_fatal(drive_once(m), Fault::UnknownModule);
}

#[test]
fn main_locals_are_reserved() {
    let mut m = module(
        vec![AmaValue::Int(8)],
        &[],
        code(vec![
            op16(OpCode::LoadConst, 0),
            op16(OpCode::SetLocal, 1),
            op16(OpCode::GetLocal, 1),
            op(OpCode::Mostra),
            op16(OpCode::GetLocal, 0),
            op(OpCode::Mostra),
            op(OpCode::Halt),
        ]),
    );
    m.main = AmaFunc::new(String::from("_inicio_"), 0, 2, FuncModule::Main);
    let mut vm = machine(m);
    assert!(matches!(vm.step(Reply::Nothing), Action::Continue));
    assert_eq!(vm.stack_len(), 2);
    assert_eq!(vm.frame(0).bp, 0);
    let (out, end) = drive(&mut vm, &[]);
    assert!(matches!(end, End::Halt));
    assert_eq!(out, "8\nnulo\n");
}

#[test]
fn casts() {
    let cast_program = |value: AmaValue, target: Type, mode: u8| {
        run_main(
            vec![value, AmaValue::Type(target)],
            &[],
            vec![
                op16(OpCode::LoadConst, 0),
                op16(OpCode::LoadConst, 1),
                op8(OpCode::Cast, mode),
                op(OpCode::Mostra),
                op(OpCode::Halt),
            ],
        )
    };
    expect_output(cast_program(AmaValue::Int(12), Type::Texto, 0), "12\n");
    expect_output(cast_program(float(1.0), Type::Texto, 0), "1.0\n");
    expect_output(cast_program(float(3.99), Type::Int, 0), "3\n");
    expect_output(cast_program(float(-3.99), Type::Int, 0), "-3\n");
    expect_output(cast_program(text("-45"), Type::Int, 0), "-45\n");
    expect_output(cast_program(AmaValue::Int(2), Type::Real, 0), "2.0\n");
    expect_output(cast_program(text("2.5"), Type::Real, 0), "2.5\n");
    expect_output(cast_program(AmaValue::Int(0), Type::Bool, 0), "falso\n");
    expect_output(cast_program(AmaValue::Int(-1), Type::Bool, 0), "verdadeiro\n");
    expect_output(cast_program(float(0.0), Type::Bool, 0), "falso\n");
    expect_output(cast_program(float(-0.0), Type::Bool, 0), "falso\n");
    expect_output(cast_program(float(0.1), Type::Bool, 0), "verdadeiro\n");
    expect_output(cast_program(float(f64::NAN), Type::Bool, 0), "verdadeiro\n");
    expect_output(cast_program(text(""), Type::Bool, 0), "falso\n");
    expect_output(cast_program(text("a"), Type::Bool, 0), "verdadeiro\n");
    // A cast to the value's own type leaves the value as it is.
    expect_output(cast_program(AmaValue::Int(7), Type::Int, 0), "7\n");
    expect_output(cast_program(float(7.5), Type::Real, 0), "7.5\n");
    expect_output(cast_program(AmaValue::Bool(true), Type::Bool, 0), "verdadeiro\n");
    expect_output(cast_program(text("t"), Type::Texto, 0), "t\n");
    expect_error(
        cast_program(text("4x"), Type::Int, 0),
        "Erro na linha 1: A sequência de caracteres '4x' não é um inteiro válido.",
    );
    expect_error(
        cast_program(text("x.5"), Type::Real, 0),
        "Erro na linha 1: A sequência de caracteres 'x.5' não é um número real válido.",
    );
    expect_fatal(cast_program(AmaValue::Bool(true), Type::Int, 0), Fault::BadOperand);
    // The checked cast.
    expect_output(cast_program(AmaValue::Int(7), Type::Int, 1), "7\n");
    expect_error(
        cast_program(AmaValue::Int(7), Type::Texto, 1),
        "Erro na linha 1: Conversão inválida. O tipo original do valor é 'int', mas tentou converter o valor para o tipo 'texto'.",
    );
    expect_error(
        cast_program(float(7.0), Type::Bool, 1),
        "Erro na linha 1: Conversão inválida. O tipo original do valor é 'real', mas tentou converter o valor para o tipo 'bool'.",
    );
}

#[test]
fn unwrap_with_and_without_default() {
    expect_output(
        run_main(
            vec![AmaValue::Nulo, AmaValue::Int(1), AmaValue::Int(2)],
            &[],
            vec![
                op16(OpCode::LoadConst, 0),
                op16(OpCode::LoadConst, 1),
                op8(OpCode::Unwrap, 1),
                op(OpCode::Mostra),
                op16(OpCode::LoadConst, 2),
                op16(OpCode::LoadConst, 1),
                op8(OpCode::Unwrap, 1),
                op(OpCode::Mostra),
                op16(OpCode::LoadConst, 2),
                op8(OpCode::Unwrap, 0),
                op(OpCode::Mostra),
                op(OpCode::Halt),
            ],
        ),
        "1\n2\n2\n",
    );
    expect_error(
        run_main(
            vec![AmaValue::Nulo],
            &[],
            vec![op16(OpCode::LoadConst, 0), op8(OpCode::Unwrap, 0), op(OpCode::Halt)],
        ),
        "Erro na linha 1: Não pode aceder uma referência nula.",
    );
}

#[test]
fn records() {
    let mut m = module(
        vec![AmaValue::Int(1), AmaValue::Int(2), AmaValue::Int(5)],
        &["x", "y", "p"],
        code(vec![
            // p = Ponto { x: 1, y: 2 }
            op16(OpCode::LoadName, 0),
            op16(OpCode::LoadConst, 0),
            op16(OpCode::LoadName, 1),
            op16(OpCode::LoadConst, 1),
            op16(OpCode::LoadRecord, 0),
            op8(OpCode::BuildObj, 2),
            op16(OpCode::SetGlobal, 2),
            // p.y = 5
            op16(OpCode::GetGlobal, 2),
            op16(OpCode::LoadName, 1),
            op16(OpCode::LoadConst, 2),
            op(OpCode::SetProp),
            // mostra p.x; mostra p.y; mostra p
            op16(OpCode::GetGlobal, 2),
            op16(OpCode::LoadName, 0),
            op(OpCode::GetProp),
            op(OpCode::Mostra),
            op16(OpCode::GetGlobal, 2),
            op16(OpCode::LoadName, 1),
            op(OpCode::GetProp),
            op(OpCode::Mostra),
            op16(OpCode::GetGlobal, 2),
            op(OpCode::Mostra),
            // An instance without fields.
            op16(OpCode::LoadRecord, 0),
            op8(OpCode::BuildObj, 0),
            op(OpCode::Mostra),
            op(OpCode::Halt),
        ]),
    );
    m.registos.push(Registo {
        name: String::from("Ponto"),
        fields: vec![String::from("x"), String::from("y")],
    });
    expect_output(
        drive_once(m),
        "1\n5\n<Instância do tipo Ponto>\n<Instância do tipo Ponto>\n",
    );
}

#[test]
fn a_missing_field_is_a_fault() {
    let mut m = module(
        vec![],
        &["x"],
        code(vec![
            op16(OpCode::LoadRecord, 0),
            op8(OpCode::BuildObj, 0),
            op16(OpCode::LoadName, 0),
            op(OpCode::GetProp),
            op(OpCode::Halt),
        ]),
    );
    m.registos.push(Registo { name: String::from("R"), fields: vec![String::from("x")] });
    expect_fatal(drive_once(m), Fault::MissingField);
}

#[test]
fn variants_are_displayed_by_tag() {
    expect_output(
        run_main(
            vec![AmaValue::Variant(3, None)],
            &[],
            vec![op16(OpCode::LoadConst, 0), op(OpCode::Mostra), op(OpCode::Halt)],
        ),
        "<Variante(3)>\n",
    );
}

#[test]
fn functions_have_no_display_form() {
    expect_fatal(
        run_main(
            vec![AmaValue::NativeFn(NativeFunc { func: Builtin::Tam })],
            &[],
            vec![op16(OpCode::LoadConst, 0), op(OpCode::Mostra), op(OpCode::Halt)],
        ),
        Fault::Unprintable,
    );
}

#[test]
fn imports_run_before_the_main_module() {
    let import = {
        let mut m = module(
            vec![text("importado")],
            &[],
            code(vec![op16(OpCode::LoadConst, 0), op(OpCode::Mostra), op(OpCode::Halt)]),
        );
        m.name = String::from("outro");
        m
    };
    let main = module(
        vec![text("principal")],
        &[],
        code(vec![op16(OpCode::LoadConst, 0), op(OpCode::Mostra), op(OpCode::Halt)]),
    );
    let mut vm = AmaVM::new(vec![import], main, Alloc::new());
    let (out, end) = drive(&mut vm, &[]);
    assert!(matches!(end, End::Halt));
    assert_eq!(out, "importado\nprincipal\n");
    assert_eq!(vm.depth(), 1);
    assert_eq!(vm.stack_len(), 0);
    assert_eq!(vm.modules().len(), 2);
}

#[test]
fn initialize_defines_the_functions_of_a_module() {
    let mut m = module(vec![], &[], op(OpCode::Halt));
    m.functions.push(AmaFunc::new(String::from("f"), 3, 1, FuncModule::Main));
    m.functions.push(AmaFunc::new(String::from("g"), 9, 0, FuncModule::Main));
    let defs = definitions();
    assert!(m.can_initialize(&defs));
    m.initialize(&defs);
    assert_eq!(m.globals.len(), 2);
    assert!(matches!(m.globals.get("f"), Some(AmaValue::Func(f)) if f.start_ip == 3 && f.locals == 1));
    assert!(matches!(m.globals.get("g"), Some(AmaValue::Func(g)) if g.start_ip == 9));
}

#[test]
fn initialize_copies_the_exports_of_a_builtin_module() {
    let mut m = embutidos(vec![], &[], op(OpCode::Halt));
    let defs = definitions();
    assert!(m.can_initialize(&defs));
    m.initialize(&defs);
    assert_eq!(m.globals.len(), 15);
    assert!(matches!(m.globals.get("int"), Some(AmaValue::Type(Type::Int))));
    assert!(matches!(m.globals.get("texto"), Some(AmaValue::Type(Type::Texto))));
    assert!(matches!(
        m.globals.get("PI"),
        Some(AmaValue::Real(bits)) if f64::from_bits(*bits) == std::f64::consts::PI
    ));
    assert!(matches!(
        m.globals.get("txt_contem"),
        Some(AmaValue::NativeFn(NativeFunc { func: Builtin::TxtContem }))
    ));
    // What the globals held stays, unless an export has the same name.
    let mut mat = module(vec![], &[], op(OpCode::Halt));
    mat.name = String::from("mat");
    mat.builtin = true;
    mat.globals.insert(String::from("x"), AmaValue::Int(1));
    mat.globals.insert(String::from("PI"), AmaValue::Int(3));
    assert!(mat.can_initialize(&defs));
    mat.initialize(&defs);
    assert_eq!(mat.globals.len(), 14);
    assert!(matches!(mat.globals.get("x"), Some(AmaValue::Int(1))));
    assert!(matches!(mat.globals.get("PI"), Some(AmaValue::Real(_))));
    let mut unknown = module(vec![], &[], op(OpCode::Halt));
    unknown.builtin = true;
    assert!(!unknown.can_initialize(&defs));
    assert!(matches!(
        mat.globals.get("raizqd"),
        Some(AmaValue::NativeFn(NativeFunc { func: Builtin::Raizqd }))
    ));
}

#[test]
fn report_of_one_frame_and_of_many() {
    let mut frames = FrameStack::new();
    let mut main = AmaFunc::new(String::from("_inicio_"), 0, 0, FuncModule::Main);
    main.last_i = 2;
    frames.push(main).unwrap();
    let src_map = vec![0, 4, 7, 5, 9, 8];
    assert_eq!(format_report(&frames, &src_map, "falhou"), "Erro na linha 7: falhou.");
    let mut f = AmaFunc::new(String::from("f"), 5, 0, FuncModule::Main);
    f.last_i = 6;
    frames.push(f).unwrap();
    let mut g = AmaFunc::new(String::from("g"), 5, 0, FuncModule::Main);
    g.last_i = 100;
    frames.push(g).unwrap();
    assert_eq!(
        format_report(&frames, &src_map, "falhou"),
        "Fluxo de execução:\n    Linha 0, na função g\n    Linha 8, na função f\nErro na linha 7: falhou."
    );
}

#[test]
fn offset_to_line_takes_the_first_covering_triple() {
    assert_eq!(offset_to_line(4, &vec![0, 3, 1, 4, 5, 2]), 2);
    assert_eq!(offset_to_line(6, &vec![0, 3, 1, 4, 5, 2]), 0);
    assert_eq!(offset_to_line(0, &vec![]), 0);
    assert_eq!(offset_to_line(2, &vec![0, 5, 1, 0, 5, 2]), 1);
    // A triple that is cut short is not looked at.
    assert_eq!(offset_to_line(7, &vec![0, 3, 1, 7, 9]), 0);
}

#[test]
fn run_steps_until_the_host_is_needed() {
    let mut vm = machine(module(
        vec![AmaValue::Int(2), AmaValue::Int(3)],
        &[],
        code(vec![
            op16(OpCode::LoadConst, 0),
            op16(OpCode::LoadConst, 1),
            op(OpCode::OpAdd),
            op(OpCode::Mostra),
            op(OpCode::Halt),
        ]),
    ));
    // Out of fuel after the entry and the first constant.
    assert!(matches!(vm.run(2), Action::Continue));
    assert_eq!(vm.stack_len(), 1);
    match vm.run(100) {
        Action::Print(text) => assert_eq!(text, "5\n"),
        other => panic!("the program prints: {:?}", other),
    }
    assert!(matches!(vm.run(100), Action::Halt));
    assert!(matches!(vm.run(0), Action::Continue));
}

#[test]
fn reading_a_line_first_writes_the_prompt() {
    let program = |name: &str| {
        embutidos(
            vec![text("valor: ")],
            &[name],
            code(vec![
                op16(OpCode::LoadConst, 0),
                op16(OpCode::GetGlobal, 0),
                op8(OpCode::CallFunction, 1),
                op(OpCode::Mostra),
                op(OpCode::Halt),
            ]),
        )
    };
    let mut vm = machine(program("leia"));
    for _ in 0..3 {
        assert!(matches!(vm.step(Reply::Nothing), Action::Continue));
    }
    // The prompt is written; the call is not over.
    assert!(matches!(vm.step(Reply::Nothing), Action::Print(t) if t == "valor: "));
    assert_eq!(vm.stack_len(), 2);
    assert_eq!(vm.frame(0).ip, 6);
    assert!(matches!(vm.step(Reply::Nothing), Action::Ask(Request::ReadLine)));
    assert_eq!(vm.stack_len(), 2);
    assert!(matches!(
        vm.step(Reply::Line(String::from("sete"), None)),
        Action::Continue
    ));
    assert_eq!(vm.stack_len(), 1);
    assert!(matches!(vm.stack_value(0), AmaValue::Str(s) if s == "sete"));
    assert_eq!(vm.frame(0).ip, 8);

    let mut vm = machine(program("leia_int"));
    match drive(&mut vm, &["42"]) {
        (out, End::Halt) => assert_eq!(out, "valor: 42\n"),
        (_, other) => panic!("the line is an integer: {:?}", other),
    }
    let mut vm = machine(program("leia_int"));
    expect_error(
        drive(&mut vm, &["4 2"]),
        "Erro na linha 1: Valor introduzido não é um inteiro válido.",
    );
    let mut vm = machine(program("leia_real"));
    match drive(&mut vm, &["2.50"]) {
        (out, End::Halt) => assert_eq!(out, "valor: 2.5\n"),
        (_, other) => panic!("the line is a real: {:?}", other),
    }
    let mut vm = machine(program("leia_real"));
    expect_error(
        drive(&mut vm, &["dois"]),
        "Erro na linha 1: Valor introduzido não é um número real válido.",
    );
}

#[test]
fn writing_natives_leave_the_null_value() {
    expect_output(
        run_embutidos(
            vec![text("a"), float(0.5)],
            &["escreva", "escrevaln"],
            vec![
                op16(OpCode::LoadConst, 0),
                op16(OpCode::GetGlobal, 0),
                op8(OpCode::CallFunction, 1),
                op(OpCode::Mostra),
                op16(OpCode::LoadConst, 1),
                op16(OpCode::GetGlobal, 1),
                op8(OpCode::CallFunction, 1),
                op(OpCode::Mostra),
                op(OpCode::Halt),
            ],
        ),
        "anulo\n0.5\nnulo\n",
    );
}

#[test]
fn numeric_natives_through_the_machine() {
    let mut m = module(
        vec![float(-2.25), AmaValue::Int(2), AmaValue::Int(9), float(2.5)],
        &["abs", "expoente", "raizqd", "arredonda", "piso", "teto"],
        code(vec![
            op16(OpCode::LoadConst, 0),
            op16(OpCode::GetGlobal, 0),
            op8(OpCode::CallFunction, 1),
            op(OpCode::Mostra),
            op16(OpCode::LoadConst, 1),
            op16(OpCode::LoadConst, 2),
            op16(OpCode::GetGlobal, 1),
            op8(OpCode::CallFunction, 2),
            op(OpCode::Mostra),
            op16(OpCode::LoadConst, 2),
            op16(OpCode::GetGlobal, 2),
            op8(OpCode::CallFunction, 1),
            op(OpCode::Mostra),
            op16(OpCode::LoadConst, 3),
            op16(OpCode::GetGlobal, 3),
            op8(OpCode::CallFunction, 1),
            op(OpCode::Mostra),
            op16(OpCode::LoadConst, 0),
            op16(OpCode::GetGlobal, 4),
            op8(OpCode::CallFunction, 1),
            op(OpCode::Mostra),
            op16(OpCode::LoadConst, 0),
            op16(OpCode::GetGlobal, 5),
            op8(OpCode::CallFunction, 1),
            op(OpCode::Mostra),
            op(OpCode::Halt),
        ]),
    );
    m.name = String::from("mat");
    m.builtin = true;
    expect_output(drive_once(m), "2.25\n512.0\n3.0\n3\n-3\n-2\n");
}

#[test]
fn a_handle_to_nothing_is_a_fault() {
    expect_fatal(
        run_main(
            vec![AmaValue::Vector(Ref(5)), AmaValue::Int(0)],
            &[],
            vec![
                op16(OpCode::LoadConst, 0),
                op16(OpCode::LoadConst, 1),
                op(OpCode::OpIndexGet),
                op(OpCode::Halt),
            ],
        ),
        Fault::DanglingRef,
    );
}

#[test]
fn a_step_after_an_error_finds_no_frame() {
    let mut vm = machine(module(
        vec![AmaValue::Nulo],
        &[],
        code(vec![op16(OpCode::LoadConst, 0), op8(OpCode::Unwrap, 0), op(OpCode::Halt)]),
    ));
    assert!(matches!(vm.step(Reply::Nothing), Action::Continue));
    assert!(matches!(vm.step(Reply::Nothing), Action::Continue));
    assert!(matches!(vm.step(Reply::Nothing), Action::Error(_)));
    assert_eq!(vm.depth(), 0);
    assert_eq!(vm.stack_len(), 1);
    assert!(matches!(vm.step(Reply::Nothing), Action::Fatal(Fault::NoFrame)));
}

#[test]
fn globals_resolve_through_the_imports() {
    let builtins = {
        let mut m = module(vec![], &[], op(OpCode::Halt));
        m.name = String::from("embutidos");
        m.builtin = true;
        m
    };
    let library = {
        // Defines `tam` anew, and `x`.
        let mut m = module(
            vec![AmaValue::Int(1), AmaValue::Int(2)],
            &["tam", "x"],
            code(vec![
                op16(OpCode::LoadConst, 0),
                op16(OpCode::SetGlobal, 0),
                op16(OpCode::LoadConst, 1),
                op16(OpCode::SetGlobal, 1),
                op(OpCode::Halt),
            ]),
        );
        m.name = String::from("biblioteca");
        m
    };
    let main = module(
        vec![AmaValue::Int(3), text("abc")],
        &["x", "tam", "escrevaln", "y"],
        code(vec![
            // The nearest definition of `tam` is the library's.
            op16(OpCode::GetGlobal, 1),
            op(OpCode::Mostra),
            // `x` of the library, until the main module defines its own.
            op16(OpCode::GetGlobal, 0),
            op(OpCode::Mostra),
            op16(OpCode::LoadConst, 0),
            op16(OpCode::SetGlobal, 0),
            op16(OpCode::GetGlobal, 0),
            op(OpCode::Mostra),
            // `escrevaln` of the builtin module.
            op16(OpCode::LoadConst, 1),
            op16(OpCode::GetGlobal, 2),
            op8(OpCode::CallFunction, 1),
            // Nobody defines `y`.
            op16(OpCode::GetGlobal, 3),
            op(OpCode::Halt),
        ]),
    );
    let mut vm = AmaVM::new(vec![builtins, library], main, Alloc::new());
    match drive(&mut vm, &[]) {
        (out, End::Fatal(Fault::MissingGlobal)) => assert_eq!(out, "1\n2\n3\nabc\n"),
        (_, other) => panic!("the last name is not defined: {:?}", other),
    }
    // The definition of the main module did not touch the library's.
    assert!(matches!(vm.modules()[1].globals.get("x"), Some(AmaValue::Int(2))));
    assert!(matches!(vm.modules()[2].globals.get("x"), Some(AmaValue::Int(3))));
}

#[test]
fn a_loop_sums_the_first_integers() {
    // soma = 0; i = 1; enquanto i <= 10 { soma = soma + i; i = i + 1 } mostra soma
    let mut parts: Vec<Vec<u8>> = vec![
        op16(OpCode::LoadConst, 0), // 0
        op16(OpCode::SetLocal, 0),  // 3
        op16(OpCode::LoadConst, 1), // 6
        op16(OpCode::SetLocal, 1),  // 9
        // 12: the condition
        op16(OpCode::GetLocal, 1),  // 12
        op16(OpCode::LoadConst, 2), // 15
        op(OpCode::OpLessEq),       // 18
        op64(OpCode::JumpIfFalse, 57), // 19
        op16(OpCode::GetLocal, 0),  // 28
        op16(OpCode::GetLocal, 1),  // 31
        op(OpCode::OpAdd),          // 34
        op16(OpCode::SetLocal, 0),  // 35
        op16(OpCode::GetLocal, 1),  // 38
        op16(OpCode::LoadConst, 1), // 41
        op(OpCode::OpAdd),          // 44
        op16(OpCode::SetLocal, 1),  // 45
        op64(OpCode::Jump, 12),     // 48
        // 57: after the loop
        op16(OpCode::GetLocal, 0),  // 57
        op(OpCode::Mostra),         // 60
    ];
    parts.push(op(OpCode::Halt));
    let mut m = module(
        vec![AmaValue::Int(0), AmaValue::Int(1), AmaValue::Int(10)],
        &[],
        code(parts),
    );
    m.main = AmaFunc::new(String::from("_inicio_"), 0, 2, FuncModule::Main);
    let mut vm = machine(m);
    match vm.run(10_000) {
        Action::Print(out) => assert_eq!(out, "55\n"),
        other => panic!("the program prints the sum: {:?}", other),
    }
    assert!(matches!(vm.run(10), Action::Halt));
    assert_eq!(vm.stack_len(), 2);
}

#[test]
fn constants_survive_the_container() {
    // An integer and a real are written as they are, in eight bytes.
    for i in [0i64, 1, -1, 255, 256, -256, i64::MAX, i64::MIN, 0x0102030405060708] {
        let (v, end) = unpack_bson_value(&i.to_le_bytes(), 0, 0x12).unwrap();
        assert_eq!(end, 8);
        assert!(matches!(consume_const(Const::from(&v, None).unwrap()), AmaValue::Int(j) if j == i));
    }
    for x in [0.0f64, -0.0, 1.5, -2.25e300, f64::INFINITY, f64::MIN_POSITIVE] {
        let (v, _) = unpack_bson_value(&x.to_bits().to_le_bytes(), 0, 0x01).unwrap();
        assert!(matches!(
            consume_const(Const::from(&v, None).unwrap()),
            AmaValue::Real(bits) if bits == x.to_bits()
        ));
    }
    // A boolean is written as its word, a text between quotation marks.
    let written = |s: &str| {
        let mut bytes = (s.len() as i32).to_le_bytes().to_vec();
        bytes.extend_from_slice(s.as_bytes());
        bytes.push(0);
        bytes.push(0xAA);
        bytes
    };
    for (word, b) in [("verdadeiro", true), ("falso", false)] {
        let (v, _) = unpack_bson_value(&written(word), 0, 0x02).unwrap();
        assert!(matches!(v, BSONType::String(_)));
        assert!(matches!(consume_const(Const::from(&v, None).unwrap()), AmaValue::Bool(c) if c == b));
    }
    for s in ["", "olá", "12", "1.5", "verdadeiro", "com \"aspas\"", "'"] {
        let quoted = format!("\"{}\"", s);
        let (v, end) = unpack_bson_value(&written(&quoted), 0, 0x02).unwrap();
        assert_eq!(end, quoted.len() + 5);
        // Whatever the host says of the text.
        for parsed in [None, Some(7u64)] {
            assert!(matches!(
                consume_const(Const::from(&v, parsed).unwrap()),
                AmaValue::Str(t) if t == s
            ));
        }
    }
}

#[test]
fn halt_inside_a_function_of_an_import_is_a_fault() {
    let import = {
        let mut m = module(
            vec![],
            &["f"],
            code(vec![
                op16(OpCode::GetGlobal, 0),
                op8(OpCode::CallFunction, 0),
                op(OpCode::Halt),
                // f, at 6
                op(OpCode::Halt),
            ]),
        );
        m.name = String::from("outro");
        m.functions.push(AmaFunc::new(String::from("f"), 6, 0, FuncModule::Imported(0)));
        m
    };
    let main = module(vec![], &[], op(OpCode::Halt));
    let mut vm = AmaVM::new(vec![import], main, Alloc::new());
    expect_fatal(drive(&mut vm, &[]), Fault::BadHalt);
    // The machine stays in the import, in the function that ran `Halt`.
    assert_eq!(vm.depth(), 2);
    assert_eq!(vm.frame(1).name, "f");

    // An import whose main function is not named `_inicio_` cannot end.
    let import = {
        let mut m = module(vec![], &[], op(OpCode::Halt));
        m.main = AmaFunc::new(String::from("principal"), 0, 0, FuncModule::Imported(0));
        m
    };
    let main = module(vec![], &[], op(OpCode::Halt));
    let mut vm = AmaVM::new(vec![import], main, Alloc::new());
    expect_fatal(drive(&mut vm, &[]), Fault::BadHalt);
}

#[test]
fn slots_beyond_the_reach_of_a_base_pointer_are_a_fault() {
    // The main function asks for more slots than a base pointer can reach.
    let mut m = module(vec![], &[], op(OpCode::Halt));
    m.main = AmaFunc::new(String::from("_inicio_"), 0, usize::MAX, FuncModule::Main);
    let mut vm = machine(m);
    assert!(matches!(vm.step(Reply::Nothing), Action::Fatal(Fault::StackOverflow)));
    assert_eq!(vm.stack_len(), 0);
    assert_eq!(vm.depth(), 0);
    // So does a callee.
    let mut m = module(
        vec![],
        &["f"],
        code(vec![
            op16(OpCode::GetGlobal, 0),
            op8(OpCode::CallFunction, 0),
            op(OpCode::Halt),
            op(OpCode::Return),
        ]),
    );
    m.functions.push(AmaFunc::new(String::from("f"), 6, usize::MAX, FuncModule::Main));
    let mut vm = machine(m);
    assert!(matches!(vm.step(Reply::Nothing), Action::Continue));
    assert!(matches!(vm.step(Reply::Nothing), Action::Continue));
    assert!(matches!(vm.step(Reply::Nothing), Action::Fatal(Fault::StackOverflow)));
    assert_eq!(vm.stack_len(), 1);
    assert_eq!(vm.depth(), 1);
}

#[test]
fn a_call_puts_arguments_first_and_nulls_after() {
    // f(a, b) has four slots.
    let main_code = code(vec![
        op16(OpCode::LoadConst, 0),
        op16(OpCode::LoadConst, 1),
        op16(OpCode::LoadConst, 2),
        op16(OpCode::GetGlobal, 0),
        op8(OpCode::CallFunction, 2),
        op(OpCode::Halt),
        op(OpCode::Halt),
    ]);
    let mut m = module(
        vec![AmaValue::Int(9), AmaValue::Int(10), AmaValue::Int(11)],
        &["f"],
        main_code,
    );
    m.functions.push(AmaFunc::new(String::from("f"), 15, 4, FuncModule::Main));
    let mut vm = machine(m);
    for _ in 0..6 {
        assert!(matches!(vm.step(Reply::Nothing), Action::Continue));
    }
    assert_eq!(vm.depth(), 2);
    let bp = vm.frame(1).bp;
    assert_eq!(bp, 1);
    assert!(bp as usize <= vm.stack_len());
    assert_eq!(vm.stack_len(), 1 + 4);
    assert!(matches!(vm.stack_value(0), AmaValue::Int(9)));
    assert!(matches!(vm.stack_value(1), AmaValue::Int(10)));
    assert!(matches!(vm.stack_value(2), AmaValue::Int(11)));
    assert!(matches!(vm.stack_value(3), AmaValue::Nulo));
    assert!(matches!(vm.stack_value(4), AmaValue::Nulo));
}
