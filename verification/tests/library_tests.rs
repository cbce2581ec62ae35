use amanda_vm::allocator::{Alloc, HeapObj};
use amanda_vm::ama_value::{AmaValue, Ref, RegistoRef};
use amanda_vm::amatype::{check_cast, Type};
use amanda_vm::builtins::{call_native, read_line, take_num, LineKind};
use amanda_vm::display::{display, display_all, Shown};
use amanda_vm::frames::{FrameStack, RECURSION_LIMIT};
use amanda_vm::function::{AmaFunc, Builtin, FuncModule, NativeFunc};
use amanda_vm::graphemes::{cluster_at, grapheme_at, tam};
use amanda_vm::host::{
    find_parsed, find_text, Fault, Num, ParsedReal, RealOp, RealText, Reply, Request,
};
use amanda_vm::module::{schema_name, Module};
use amanda_vm::opcode::{OpCode, HALT_BYTE, TABLE_SIZE};
use amanda_vm::ops::{
    ask_host, cast, check_index, checked_cast, join3, real_is_zero, Outcome, ReplyKind,
};
use amanda_vm::registo::{RegObj, Registo};
use amanda_vm::registry::{definitions, embutidos_exports, load_builtins, mat_exports, PI_BITS};
use amanda_vm::text::{
    chars_of, contains, int_text, join2, parse_int, push_decimal, push_int, str_eq,
};

fn all_opcodes() -> Vec<OpCode> {
    vec![
        OpCode::Mostra,
        OpCode::LoadConst,
        OpCode::OpAdd,
        OpCode::OpMinus,
        OpCode::OpMul,
        OpCode::OpDiv,
        OpCode::OpFloorDiv,
        OpCode::OpModulo,
        OpCode::OpInvert,
        OpCode::OpAnd,
        OpCode::OpOr,
        OpCode::OpNot,
        OpCode::OpEq,
        OpCode::OpNotEq,
        OpCode::OpGreater,
        OpCode::OpGreaterEq,
        OpCode::OpLess,
        OpCode::OpLessEq,
        OpCode::OpIndexGet,
        OpCode::OpIndexSet,
        OpCode::GetGlobal,
        OpCode::SetGlobal,
        OpCode::Jump,
        OpCode::JumpIfFalse,
        OpCode::GetLocal,
        OpCode::SetLocal,
        OpCode::CallFunction,
        OpCode::Return,
        OpCode::Cast,
        OpCode::BuildStr,
        OpCode::BuildVec,
        OpCode::LoadName,
        OpCode::LoadRecord,
        OpCode::BuildObj,
        OpCode::GetProp,
        OpCode::SetProp,
        OpCode::IsNull,
        OpCode::Unwrap,
        OpCode::Halt,
    ]
}

#[test]
fn opcodes_decode_from_their_bytes() {
    for (i, op) in all_opcodes().into_iter().enumerate() {
        let byte = op.byte();
        if op == OpCode::Halt {
            assert_eq!(byte, 0xff);
        } else {
            assert_eq!(byte as usize, i);
        }
        assert_eq!(OpCode::from_byte(byte), Some(op));
    }
    assert_eq!(HALT_BYTE, 255);
    assert_eq!(TABLE_SIZE, 38);
    for byte in TABLE_SIZE..HALT_BYTE {
        assert_eq!(OpCode::from_byte(byte), None);
    }
    assert_eq!(OpCode::from_byte(0), Some(OpCode::Mostra));
    assert_eq!(OpCode::from_byte(27), Some(OpCode::Return));
}

#[test]
fn opcodes_know_the_length_of_their_operands() {
    assert_eq!(OpCode::LoadConst.operand_len(), 2);
    assert_eq!(OpCode::GetLocal.operand_len(), 2);
    assert_eq!(OpCode::Jump.operand_len(), 8);
    assert_eq!(OpCode::JumpIfFalse.operand_len(), 8);
    assert_eq!(OpCode::CallFunction.operand_len(), 1);
    assert_eq!(OpCode::Unwrap.operand_len(), 1);
    assert_eq!(OpCode::OpAdd.operand_len(), 0);
    assert_eq!(OpCode::Halt.operand_len(), 0);
}

#[test]
fn type_names_and_checked_casts() {
    assert_eq!(Type::Int.name(), "int");
    assert_eq!(Type::Real.name(), "real");
    assert_eq!(Type::Texto.name(), "texto");
    assert_eq!(Type::Bool.name(), "bool");
    assert_eq!(Type::Vector.name(), "Vector");
    assert!(check_cast(Type::Int, Type::Int));
    assert!(check_cast(Type::Vector, Type::Vector));
    assert!(!check_cast(Type::Int, Type::Real));
    assert!(!check_cast(Type::Texto, Type::Bool));
}

#[test]
fn frame_stack_is_bounded() {
    let mut frames = FrameStack::new();
    assert_eq!(frames.depth(), 0);
    assert!(frames.pop().is_err());
    for i in 0..RECURSION_LIMIT {
        let f = AmaFunc::new(format!("f{}", i), i, 0, FuncModule::Main);
        assert!(frames.push(f).is_ok());
    }
    assert_eq!(RECURSION_LIMIT, 1000);
    assert_eq!(frames.depth(), 1000);
    let extra = AmaFunc::new(String::from("extra"), 0, 0, FuncModule::Main);
    assert!(frames.push(extra).is_err());
    assert_eq!(frames.depth(), 1000);
    assert_eq!(frames.peek().name, "f999");
    frames.peek_mut().ip = 77;
    assert_eq!(frames.peek().ip, 77);
    assert_eq!(frames.get(0).name, "f0");
    let top = frames.pop().unwrap();
    assert_eq!(top.name, "f999");
    assert_eq!(top.ip, 77);
    assert_eq!(frames.depth(), 999);
    assert_eq!(frames.peek().name, "f998");
    frames.clear();
    assert_eq!(frames.depth(), 0);
}

#[test]
fn a_new_function_has_not_been_called() {
    let f = AmaFunc::new(String::from("f"), 12, 3, FuncModule::Imported(2));
    assert_eq!(f.name, "f");
    assert_eq!(f.start_ip, 12);
    assert_eq!(f.ip, 12);
    assert_eq!(f.last_i, 12);
    assert_eq!(f.bp, -1);
    assert_eq!(f.locals, 3);
    assert_eq!(f.module, FuncModule::Imported(2));
    let g = f.clone();
    assert_eq!(g.name, "f");
    assert_eq!(g.start_ip, 12);
}

#[test]
fn decimal_forms() {
    assert_eq!(int_text(0), "0");
    assert_eq!(int_text(7), "7");
    assert_eq!(int_text(10), "10");
    assert_eq!(int_text(-1), "-1");
    assert_eq!(int_text(1234567890), "1234567890");
    assert_eq!(int_text(i64::MAX), "9223372036854775807");
    assert_eq!(int_text(i64::MIN), "-9223372036854775808");
    let mut s = String::from("n = ");
    push_decimal(&mut s, u64::MAX);
    assert_eq!(s, "n = 18446744073709551615");
    push_int(&mut s, -30);
    assert_eq!(s, "n = 18446744073709551615-30");
    for i in [-1001i64, -100, -99, -10, -9, 9, 99, 100, 101, 65535] {
        assert_eq!(int_text(i), i.to_string());
    }
}

#[test]
fn integers_are_read_as_the_standard_library_reads_them() {
    let cases = [
        "0", "7", "-7", "+7", "007", "-0", "+0", "9223372036854775807", "9223372036854775808",
        "-9223372036854775808", "-9223372036854775809", "", "+", "-", "+-1", "--1", "1 ", " 1",
        "1.0", "1e3", "abc", "12a", "٣", "0000000000000000000000000000001",
        "99999999999999999999999999", "-99999999999999999999999999", "1_000",
    ];
    for text in cases {
        assert_eq!(parse_int(text), text.parse::<i64>().ok(), "reading {:?}", text);
    }
}

#[test]
fn texts_are_compared_joined_and_searched() {
    assert!(str_eq("abc", "abc"));
    assert!(!str_eq("abc", "abd"));
    assert!(!str_eq("abc", "ab"));
    assert!(str_eq("", ""));
    assert_eq!(join2("ab", "cd"), "abcd");
    assert_eq!(join3("a", "é", "c"), "aéc");
    assert_eq!(chars_of("aé"), vec!['a', 'é']);
    let cases = [
        ("", ""), ("abc", ""), ("", "a"), ("abc", "abc"), ("abc", "bc"), ("abc", "ab"),
        ("abc", "ac"), ("abc", "abcd"), ("aab", "ab"), ("ababac", "abac"), ("olá mundo", "á m"),
        ("olá mundo", "a m"), ("aaa", "aaaa"),
    ];
    for (hay, needle) in cases {
        assert_eq!(contains(hay, needle), hay.contains(needle), "{:?} in {:?}", needle, hay);
    }
}

#[test]
fn grapheme_clusters_are_the_unit_of_texts() {
    assert_eq!(tam(""), 0);
    assert_eq!(tam("abc"), 3);
    assert_eq!(tam("ábc"), 3);
    assert_eq!(tam("a\u{310}e\u{301}o\u{308}\u{332}"), 3);
    assert_eq!(tam("a\r\nb"), 3);
    assert_eq!(grapheme_at("a\r\nb", 1), Ok(String::from("\r\n")));
    assert_eq!(grapheme_at("ábc", 0), Ok(String::from("á")));
    assert_eq!(grapheme_at("ábc", 2), Ok(String::from("c")));
    assert_eq!(
        grapheme_at("ábc", 3),
        Err(String::from("Erro de índice inválido. O tamanho da string é 3, mas o índice é 3"))
    );
    assert_eq!(
        grapheme_at("ábc", -2),
        Err(String::from(
            "Erro de índice inválido. Strings só podem ser indexadas com inteiros positivos"
        ))
    );
    let clusters = vec![String::from("x"), String::from("yz")];
    assert_eq!(cluster_at(&clusters, 1), Ok(String::from("yz")));
    assert!(cluster_at(&clusters, 2).is_err());
}

#[test]
fn index_checks() {
    assert_eq!(check_index(3, 0), Ok(()));
    assert_eq!(check_index(3, 2), Ok(()));
    assert_eq!(
        check_index(3, 3),
        Err(String::from(
            "Erro de índice inválido. O tamanho do vector é 3, mas tentou aceder o índice 3"
        ))
    );
    assert_eq!(
        check_index(0, 0),
        Err(String::from(
            "Erro de índice inválido. O tamanho do vector é 0, mas tentou aceder o índice 0"
        ))
    );
    assert_eq!(
        check_index(3, -1),
        Err(String::from(
            "Erro de índice inválido. Vectores só podem ser indexados com inteiros positivos"
        ))
    );
    let mut alloc = Alloc::new();
    let r = alloc.alloc_ref(HeapObj::Vector(vec![AmaValue::Int(1)]));
    let v = AmaValue::Vector(r);
    assert_eq!(v.vec_index_check(0, &alloc), Ok(()));
    assert!(v.vec_index_check(1, &alloc).is_err());
}

#[test]
fn values_know_what_they_hold() {
    assert_eq!(AmaValue::Int(3).take_int(), 3);
    assert_eq!(AmaValue::Real(9).take_float(), Num::Real(9));
    assert_eq!(AmaValue::Int(9).take_float(), Num::Int(9));
    assert_eq!(AmaValue::Bool(true).take_bool(), true);
    assert_eq!(AmaValue::Str(String::from("s")).take_str(), "s");
    assert_eq!(AmaValue::Type(Type::Bool).take_type(), Type::Bool);
    assert_eq!(AmaValue::RegObj(Ref(4)).take_regobj(), Ref(4));
    let f = AmaFunc::new(String::from("f"), 1, 2, FuncModule::Main);
    assert_eq!(AmaValue::Func(f).take_func().name, "f");
    assert!(AmaValue::Real(0).is_float());
    assert!(!AmaValue::Int(0).is_float());
    assert!(AmaValue::Int(0).is_int());
    assert!(AmaValue::Bool(false).is_bool());
    assert!(AmaValue::Str(String::new()).is_str());
    assert!(AmaValue::Nulo.is_none());
    assert!(!AmaValue::Int(0).is_none());
    assert_eq!(AmaValue::Int(0).get_type(), Type::Int);
    assert_eq!(AmaValue::Real(0).get_type(), Type::Real);
    assert_eq!(AmaValue::Str(String::new()).get_type(), Type::Texto);
    assert_eq!(AmaValue::Bool(true).get_type(), Type::Bool);
    assert_eq!(AmaValue::Vector(Ref(0)).get_type(), Type::Vector);
    assert_eq!(AmaValue::Nulo.type_of(), None);
    assert_eq!(AmaValue::Vector(Ref(0)).type_of(), Some(Type::Vector));
    assert_eq!(take_num(&AmaValue::Int(2)), Some(Num::Int(2)));
    assert_eq!(take_num(&AmaValue::Real(2)), Some(Num::Real(2)));
    assert_eq!(take_num(&AmaValue::Bool(true)), None);
    assert!(matches!(AmaValue::Str(String::from("x")).clone(), AmaValue::Str(s) if s == "x"));
    assert!(matches!(AmaValue::Vector(Ref(7)).clone(), AmaValue::Vector(Ref(7))));
}

#[test]
fn zero_has_two_forms() {
    assert!(real_is_zero(0.0f64.to_bits()));
    assert!(real_is_zero((-0.0f64).to_bits()));
    assert!(!real_is_zero(1.0f64.to_bits()));
    assert!(!real_is_zero(f64::MIN_POSITIVE.to_bits()));
    assert!(!real_is_zero(f64::from_bits(1).to_bits()));
    assert!(!real_is_zero(f64::NAN.to_bits()));
    assert!(!real_is_zero(f64::INFINITY.to_bits()));
    assert!(Num::Int(0).is_zero());
    assert!(!Num::Int(-1).is_zero());
    assert!(Num::Real((-0.0f64).to_bits()).is_zero());
    assert_eq!(f64::from_bits(PI_BITS), std::f64::consts::PI);
}

#[test]
fn the_host_is_asked_and_answers() {
    let nothing = Reply::Nothing;
    assert!(matches!(
        ask_host(RealOp::Add, Num::Int(1), Num::Real(2), &nothing),
        Outcome::Ask(Request::Real(RealOp::Add, Num::Int(1), Num::Real(2)))
    ));
    assert!(matches!(
        ask_host(RealOp::Add, Num::Int(1), Num::Real(2), &Reply::Real(5)),
        Outcome::Done(AmaValue::Real(5))
    ));
    assert!(matches!(
        ask_host(RealOp::Lt, Num::Int(1), Num::Real(2), &Reply::Bool(true)),
        Outcome::Done(AmaValue::Bool(true))
    ));
    assert!(matches!(
        ask_host(RealOp::Floor, Num::Real(1), Num::Int(0), &Reply::Int(-4)),
        Outcome::Done(AmaValue::Int(-4))
    ));
    assert!(matches!(
        ask_host(RealOp::Floor, Num::Real(1), Num::Int(0), &Reply::Real(4)),
        Outcome::Fault(Fault::BadReply)
    ));
    assert!(matches!(
        ask_host(RealOp::Add, Num::Real(1), Num::Int(0), &Reply::Invalid),
        Outcome::Fault(Fault::BadReply)
    ));
    assert_eq!(RealOp::Add.kind(), ReplyKind::Real);
    assert_eq!(RealOp::Ge.kind(), ReplyKind::Bool);
    assert_eq!(RealOp::Trunc.kind(), ReplyKind::Int);
    assert_eq!(RealOp::TruncBoth.kind(), ReplyKind::Ints);
    let texts = vec![
        RealText { bits: 1, text: String::from("um") },
        RealText { bits: 2, text: String::from("dois") },
        RealText { bits: 1, text: String::from("outro") },
    ];
    assert_eq!(find_text(&texts, 1).map(|s| s.as_str()), Some("um"));
    assert_eq!(find_text(&texts, 2).map(|s| s.as_str()), Some("dois"));
    assert_eq!(find_text(&texts, 3), None);
    let table = vec![
        ParsedReal { text: String::from("1.5"), bits: Some(15) },
        ParsedReal { text: String::from("abc"), bits: None },
    ];
    assert_eq!(find_parsed(&table, "1.5"), Some(Some(15)));
    assert_eq!(find_parsed(&table, "abc"), Some(None));
    assert_eq!(find_parsed(&table, "x"), None);
}

fn no_modules() -> Vec<Module> {
    Vec::new()
}

fn schema_module() -> Vec<Module> {
    vec![Module {
        name: String::from("m"),
        builtin: false,
        constants: Vec::new(),
        names: Vec::new(),
        code: Vec::new(),
        main: AmaFunc::new(String::from("_inicio_"), 0, 0, FuncModule::Main),
        functions: Vec::new(),
        globals: Default::default(),
        registos: vec![Registo { name: String::from("Ponto"), fields: vec![String::from("x")] }],
        src_map: Vec::new(),
    }]
}

fn shown_text(s: Shown) -> String {
    match s {
        Shown::Text(t) => t,
        other => panic!("the value has a display form: {:?}", other),
    }
}

#[test]
fn display_forms() {
    let mut alloc = Alloc::new();
    let modules = schema_module();
    let nothing = Reply::Nothing;
    let show = |v: &AmaValue, alloc: &Alloc| shown_text(display(v, alloc, &modules, &nothing));
    assert_eq!(show(&AmaValue::Int(-12), &alloc), "-12");
    assert_eq!(show(&AmaValue::Bool(true), &alloc), "verdadeiro");
    assert_eq!(show(&AmaValue::Bool(false), &alloc), "falso");
    assert_eq!(show(&AmaValue::Str(String::from("olá")), &alloc), "olá");
    assert_eq!(show(&AmaValue::Nulo, &alloc), "nulo");
    assert_eq!(show(&AmaValue::Variant(12, Some(Ref(0))), &alloc), "<Variante(12)>");
    let inner = alloc.alloc_ref(HeapObj::Vector(vec![AmaValue::Int(1), AmaValue::Nulo]));
    let empty = alloc.alloc_ref(HeapObj::Vector(vec![]));
    let outer = alloc.alloc_ref(HeapObj::Vector(vec![
        AmaValue::Vector(inner),
        AmaValue::Vector(empty),
        AmaValue::Vector(inner),
        AmaValue::Str(String::from("a, b")),
    ]));
    assert_eq!(show(&AmaValue::Vector(empty), &alloc), "[]");
    assert_eq!(show(&AmaValue::Vector(inner), &alloc), "[1, nulo]");
    assert_eq!(show(&AmaValue::Vector(outer), &alloc), "[[1, nulo], [], [1, nulo], a, b]");
    let obj = alloc.alloc_ref(HeapObj::RegObj(RegObj::new(RegistoRef { module: 0, index: 0 })));
    assert_eq!(show(&AmaValue::RegObj(obj), &alloc), "<Instância do tipo Ponto>");
    // Faults.
    assert!(matches!(
        display(&AmaValue::Vector(Ref(99)), &alloc, &modules, &nothing),
        Shown::Fault(Fault::DanglingRef)
    ));
    assert!(matches!(
        display(&AmaValue::Vector(obj), &alloc, &modules, &nothing),
        Shown::Fault(Fault::DanglingRef)
    ));
    assert!(matches!(
        display(&AmaValue::RegObj(inner), &alloc, &modules, &nothing),
        Shown::Fault(Fault::DanglingRef)
    ));
    let stray = alloc.alloc_ref(HeapObj::RegObj(RegObj::new(RegistoRef { module: 3, index: 0 })));
    assert!(matches!(
        display(&AmaValue::RegObj(stray), &alloc, &modules, &nothing),
        Shown::Fault(Fault::DanglingRef)
    ));
    assert!(matches!(
        display(&AmaValue::Type(Type::Int), &alloc, &modules, &nothing),
        Shown::Fault(Fault::Unprintable)
    ));
    assert!(matches!(
        display(&AmaValue::Registo(RegistoRef { module: 0, index: 0 }), &alloc, &modules, &nothing),
        Shown::Fault(Fault::Unprintable)
    ));
}

#[test]
fn display_of_reals_takes_the_texts_of_the_host() {
    let mut alloc = Alloc::new();
    let modules = no_modules();
    let v = alloc.alloc_ref(HeapObj::Vector(vec![
        AmaValue::Real(10),
        AmaValue::Int(1),
        AmaValue::Real(20),
        AmaValue::Real(10),
    ]));
    match display(&AmaValue::Vector(v), &alloc, &modules, &Reply::Nothing) {
        Shown::Missing(reals) => assert_eq!(reals, vec![10, 20, 10]),
        other => panic!("the reals have no text yet: {:?}", other),
    }
    let texts = Reply::Texts(vec![
        RealText { bits: 20, text: String::from("2.5") },
        RealText { bits: 10, text: String::from("1.0") },
    ]);
    assert_eq!(
        shown_text(display(&AmaValue::Vector(v), &alloc, &modules, &texts)),
        "[1.0, 1, 2.5, 1.0]"
    );
    let partial = Reply::Texts(vec![RealText { bits: 20, text: String::from("2.5") }]);
    assert!(matches!(
        display(&AmaValue::Vector(v), &alloc, &modules, &partial),
        Shown::Fault(Fault::BadReply)
    ));
    let stack = vec![AmaValue::Int(0), AmaValue::Str(String::from("a")), AmaValue::Int(2)];
    assert_eq!(shown_text(display_all(&stack, 1, &alloc, &modules, &Reply::Nothing)), "a2");
    assert_eq!(shown_text(display_all(&stack, 3, &alloc, &modules, &Reply::Nothing)), "");
}

#[test]
fn allocator_hands_out_handles_in_order() {
    let mut alloc = Alloc::new();
    assert_eq!(alloc.len(), 0);
    assert!(alloc.null_ref().is_none());
    let a = alloc.alloc_ref(HeapObj::Vector(vec![AmaValue::Int(1)]));
    let b = alloc.alloc_ref(HeapObj::RegObj(RegObj::new(RegistoRef { module: 0, index: 1 })));
    assert_eq!(a, Ref(0));
    assert_eq!(b, Ref(1));
    assert_eq!(alloc.len(), 2);
    assert!(alloc.vector(a).is_some());
    assert!(alloc.vector(b).is_none());
    assert!(alloc.vector(Ref(2)).is_none());
    assert!(alloc.regobj(b).is_some());
    assert!(alloc.regobj(a).is_none());
    alloc.vec_push(a, AmaValue::Int(2));
    alloc.vec_push(a, AmaValue::Int(3));
    alloc.vec_set(a, 0, AmaValue::Int(9));
    assert!(matches!(alloc.vec_remove(a, 1), AmaValue::Int(2)));
    let items = alloc.vector(a).unwrap();
    assert_eq!(items.len(), 2);
    assert!(matches!(items[0], AmaValue::Int(9)));
    assert!(matches!(items[1], AmaValue::Int(3)));
    alloc.obj_set(b, String::from("x"), AmaValue::Int(5));
    alloc.obj_set(b, String::from("x"), AmaValue::Int(6));
    assert!(matches!(alloc.regobj(b).unwrap().get("x"), Some(AmaValue::Int(6))));
    assert!(alloc.regobj(b).unwrap().get("y").is_none());
    assert_eq!(alloc.regobj(b).unwrap().registo(), RegistoRef { module: 0, index: 1 });
    assert_eq!(alloc.regobj(b).unwrap().reg_name(&schema_module()), None);
    assert!(matches!(a.inner(&alloc), HeapObj::Vector(_)));
    match a.inner_mut(&mut alloc) {
        HeapObj::Vector(items) => items.clear(),
        _ => panic!("the handle refers to a vector"),
    }
    assert_eq!(alloc.vector(a).unwrap().len(), 0);
}

#[test]
fn record_instances_are_built_from_pairs() {
    let r = RegistoRef { module: 0, index: 0 };
    let pairs = vec![
        AmaValue::Int(0),
        AmaValue::Str(String::from("x")),
        AmaValue::Int(1),
        AmaValue::Str(String::from("y")),
        AmaValue::Int(2),
        AmaValue::Str(String::from("x")),
        AmaValue::Int(3),
        AmaValue::Int(4),
    ];
    let obj = RegObj::with_fields(r, &pairs, 1, 7).unwrap();
    assert!(matches!(obj.get("x"), Some(AmaValue::Int(3))));
    assert!(matches!(obj.get("y"), Some(AmaValue::Int(2))));
    assert!(obj.get("z").is_none());
    assert!(RegObj::with_fields(r, &pairs, 1, 1).is_some());
    // A name without a value.
    assert!(RegObj::with_fields(r, &pairs, 1, 4).is_none());
    // A name that is not a text.
    assert!(RegObj::with_fields(r, &pairs, 0, 2).is_none());
    let mut fresh = RegObj::new(r);
    assert!(fresh.get("x").is_none());
    fresh.set(String::from("x"), AmaValue::Bool(true));
    assert!(matches!(fresh.get("x"), Some(AmaValue::Bool(true))));
    let modules = schema_module();
    assert_eq!(fresh.reg_name(&modules), Some("Ponto"));
    assert_eq!(schema_name(&modules, r), Some("Ponto"));
    assert_eq!(schema_name(&modules, RegistoRef { module: 0, index: 1 }), None);
    assert_eq!(schema_name(&modules, RegistoRef { module: 1, index: 0 }), None);
}

#[test]
fn the_registry_declares_two_modules() {
    let defs = definitions();
    assert_eq!(defs.len(), 2);
    assert!(defs.get("outro").is_none());
    let names = |table: &amanda_vm::tabela::Tabela| -> Vec<String> {
        let mut names: Vec<String> = table.keys().cloned().collect();
        names.sort();
        names
    };
    let sorted = |list: &[&str]| -> Vec<String> {
        let mut names: Vec<String> = list.iter().map(|n| n.to_string()).collect();
        names.sort();
        names
    };
    assert_eq!(
        names(defs.get("embutidos").unwrap()),
        sorted(&[
            "int", "real", "bool", "texto", "PI", "escrevaln", "escreva", "leia", "leia_int",
            "leia_real", "tam", "vec", "anexa", "remova", "txt_contem"
        ])
    );
    assert_eq!(
        names(defs.get("mat").unwrap()),
        sorted(&[
            "abs", "raizqd", "expoente", "PI", "arredonda", "piso", "teto", "sen", "cos", "tan",
            "log", "grausprad", "radpgraus"
        ])
    );
    assert_eq!(embutidos_exports().len(), 15);
    assert_eq!(mat_exports().len(), 13);
    for (module, table) in defs.iter() {
        for (name, value) in table.iter() {
            match value {
                AmaValue::NativeFn(native) => assert_eq!(native.name(), name),
                AmaValue::Type(t) => assert_eq!(t.name(), name),
                AmaValue::Real(bits) => {
                    assert_eq!(name, "PI");
                    assert_eq!(*bits, PI_BITS);
                }
                other => panic!("an export of {} is a function, a type or a constant: {:?}", module, other),
            }
        }
    }
    assert_eq!(NativeFunc { func: Builtin::LeiaInt }.name(), "leia_int");
}

#[test]
fn the_list_of_builtins_names_each_once() {
    let list = load_builtins();
    let names: Vec<&str> = list.iter().map(|e| e.name.as_str()).collect();
    assert_eq!(
        names,
        vec![
            "escrevaln", "escreva", "leia", "leia_int", "leia_real", "tam", "vec", "anexa",
            "remova", "txt_contem", "int", "real", "bool", "texto", "PI", "abs", "raizqd",
            "expoente", "arredonda", "piso", "teto", "sen", "cos", "tan", "log", "grausprad",
            "radpgraus"
        ]
    );
    assert_eq!(list.len(), 27);
    for (i, a) in names.iter().enumerate() {
        for b in &names[i + 1..] {
            assert_ne!(a, b);
        }
    }
    for export in &list {
        match &export.value {
            AmaValue::NativeFn(native) => assert_eq!(native.name(), export.name),
            AmaValue::Type(t) => assert_eq!(t.name(), export.name),
            AmaValue::Real(bits) => {
                assert_eq!(export.name, "PI");
                assert_eq!(f64::from_bits(*bits), std::f64::consts::PI);
            }
            other => panic!("a builtin is a function, a type or a constant: {:?}", other),
        }
    }
    assert!(matches!(list[10].value, AmaValue::Type(Type::Int)));
    assert!(matches!(list[11].value, AmaValue::Type(Type::Real)));
    assert!(matches!(list[12].value, AmaValue::Type(Type::Bool)));
    assert!(matches!(list[13].value, AmaValue::Type(Type::Texto)));
}

fn native(func: Builtin, args: Vec<AmaValue>, alloc: &mut Alloc, reply: &Reply, prompted: bool) -> Outcome {
    let modules = no_modules();
    let end = args.len();
    call_native(func, &args, 0, end, alloc, &modules, reply, prompted)
}

fn text(s: &str) -> AmaValue {
    AmaValue::Str(s.to_string())
}

#[test]
fn natives_that_write() {
    let mut alloc = Alloc::new();
    let nothing = Reply::Nothing;
    assert!(matches!(
        native(Builtin::Escreva, vec![text("olá")], &mut alloc, &nothing, false),
        Outcome::Print(t) if t == "olá"
    ));
    assert!(matches!(
        native(Builtin::Escrevaln, vec![AmaValue::Int(4)], &mut alloc, &nothing, false),
        Outcome::Print(t) if t == "4\n"
    ));
    assert!(matches!(
        native(Builtin::Escrevaln, vec![AmaValue::Real(8)], &mut alloc, &nothing, false),
        Outcome::Ask(Request::Texts(reals)) if reals == vec![8]
    ));
    let texts = Reply::Texts(vec![RealText { bits: 8, text: String::from("0.5") }]);
    assert!(matches!(
        native(Builtin::Escrevaln, vec![AmaValue::Real(8)], &mut alloc, &texts, false),
        Outcome::Print(t) if t == "0.5\n"
    ));
    assert!(matches!(
        native(Builtin::Escreva, vec![], &mut alloc, &nothing, false),
        Outcome::Fault(Fault::BadOperand)
    ));
}

#[test]
fn natives_that_read() {
    let mut alloc = Alloc::new();
    let nothing = Reply::Nothing;
    let line = |s: &str| Reply::Line(s.to_string(), s.parse::<f64>().ok().map(f64::to_bits));
    // First the prompt.
    assert!(matches!(
        native(Builtin::Leia, vec![text("nome: ")], &mut alloc, &nothing, false),
        Outcome::Prompt(t) if t == "nome: "
    ));
    // Then the line.
    assert!(matches!(
        native(Builtin::Leia, vec![text("nome: ")], &mut alloc, &nothing, true),
        Outcome::Ask(Request::ReadLine)
    ));
    assert!(matches!(
        native(Builtin::Leia, vec![text("nome: ")], &mut alloc, &line("Ana"), true),
        Outcome::Done(AmaValue::Str(s)) if s == "Ana"
    ));
    assert!(matches!(
        native(Builtin::LeiaInt, vec![text("")], &mut alloc, &line("-12"), true),
        Outcome::Done(AmaValue::Int(-12))
    ));
    assert!(matches!(
        native(Builtin::LeiaInt, vec![text("")], &mut alloc, &line("1.5"), true),
        Outcome::Error(msg) if msg == "Valor introduzido não é um inteiro válido"
    ));
    assert!(matches!(
        native(Builtin::LeiaReal, vec![text("")], &mut alloc, &line("1.5"), true),
        Outcome::Done(AmaValue::Real(bits)) if f64::from_bits(bits) == 1.5
    ));
    assert!(matches!(
        native(Builtin::LeiaReal, vec![text("")], &mut alloc, &line("x"), true),
        Outcome::Error(msg) if msg == "Valor introduzido não é um número real válido"
    ));
    assert!(matches!(
        native(Builtin::Leia, vec![text("")], &mut alloc, &Reply::Int(1), true),
        Outcome::Fault(Fault::BadReply)
    ));
    assert!(matches!(read_line(LineKind::Text, &nothing), Outcome::Ask(Request::ReadLine)));
}

#[test]
fn natives_on_texts_and_vectors() {
    let mut alloc = Alloc::new();
    let nothing = Reply::Nothing;
    assert!(matches!(
        native(Builtin::Tam, vec![text("ábc")], &mut alloc, &nothing, false),
        Outcome::Done(AmaValue::Int(3))
    ));
    assert!(matches!(
        native(Builtin::TxtContem, vec![text("amanda"), text("and")], &mut alloc, &nothing, false),
        Outcome::Done(AmaValue::Bool(true))
    ));
    assert!(matches!(
        native(Builtin::TxtContem, vec![text("amanda"), text("adn")], &mut alloc, &nothing, false),
        Outcome::Done(AmaValue::Bool(false))
    ));
    assert!(matches!(
        native(Builtin::TxtContem, vec![text("amanda"), AmaValue::Int(1)], &mut alloc, &nothing, false),
        Outcome::Fault(Fault::BadOperand)
    ));
    let v = alloc.alloc_ref(HeapObj::Vector(vec![AmaValue::Int(5), AmaValue::Int(6)]));
    assert!(matches!(
        native(Builtin::Tam, vec![AmaValue::Vector(v)], &mut alloc, &nothing, false),
        Outcome::Done(AmaValue::Int(2))
    ));
    assert!(matches!(
        native(Builtin::Tam, vec![AmaValue::Vector(Ref(9))], &mut alloc, &nothing, false),
        Outcome::Fault(Fault::DanglingRef)
    ));
    assert!(matches!(
        native(Builtin::Tam, vec![AmaValue::Int(1)], &mut alloc, &nothing, false),
        Outcome::Fault(Fault::BadOperand)
    ));
    assert!(matches!(
        native(Builtin::Anexa, vec![AmaValue::Vector(v), text("x")], &mut alloc, &nothing, false),
        Outcome::Done(AmaValue::Nulo)
    ));
    assert_eq!(alloc.vector(v).unwrap().len(), 3);
    assert!(matches!(
        native(Builtin::Remova, vec![AmaValue::Vector(v), AmaValue::Int(0)], &mut alloc, &nothing, false),
        Outcome::Done(AmaValue::Int(5))
    ));
    assert_eq!(alloc.vector(v).unwrap().len(), 2);
    assert!(matches!(alloc.vector(v).unwrap()[0], AmaValue::Int(6)));
    assert!(matches!(
        native(Builtin::Remova, vec![AmaValue::Vector(v), AmaValue::Int(2)], &mut alloc, &nothing, false),
        Outcome::Error(msg)
            if msg == "Erro de índice inválido. O tamanho do vector é 2, mas tentou aceder o índice 2"
    ));
    assert_eq!(alloc.vector(v).unwrap().len(), 2);
}

#[test]
fn vec_builds_independent_cells() {
    let mut alloc = Alloc::new();
    let nothing = Reply::Nothing;
    let built = native(
        Builtin::Vec,
        vec![AmaValue::Type(Type::Int), AmaValue::Int(2), AmaValue::Int(3)],
        &mut alloc,
        &nothing,
        false,
    );
    let outer = match built {
        Outcome::Done(AmaValue::Vector(r)) => r,
        other => panic!("vec builds a vector: {:?}", other),
    };
    // Two rows and the vector that holds them.
    assert_eq!(alloc.len(), 3);
    let rows: Vec<Ref> = alloc
        .vector(outer)
        .unwrap()
        .iter()
        .map(|row| match row {
            AmaValue::Vector(r) => *r,
            _ => panic!("a row is a vector"),
        })
        .collect();
    assert_eq!(rows.len(), 2);
    assert_ne!(rows[0], rows[1]);
    for row in &rows {
        let cells = alloc.vector(*row).unwrap();
        assert_eq!(cells.len(), 3);
        assert!(cells.iter().all(|c| matches!(c, AmaValue::Int(0))));
    }
    alloc.vec_set(rows[0], 1, AmaValue::Int(7));
    assert!(matches!(alloc.vector(rows[1]).unwrap()[1], AmaValue::Int(0)));
    let modules = no_modules();
    assert_eq!(
        shown_text(display(&AmaValue::Vector(outer), &alloc, &modules, &nothing)),
        "[[0, 7, 0], [0, 0, 0]]"
    );
    // The zero value of each type.
    let zero_of = |t: Type, alloc: &mut Alloc| {
        match native(Builtin::Vec, vec![AmaValue::Type(t), AmaValue::Int(1)], alloc, &nothing, false) {
            Outcome::Done(AmaValue::Vector(r)) => alloc.vector(r).unwrap()[0].clone(),
            other => panic!("vec builds a vector: {:?}", other),
        }
    };
    assert!(matches!(zero_of(Type::Int, &mut alloc), AmaValue::Int(0)));
    assert!(matches!(zero_of(Type::Real, &mut alloc), AmaValue::Real(b) if f64::from_bits(b) == 0.0));
    assert!(matches!(zero_of(Type::Bool, &mut alloc), AmaValue::Bool(false)));
    assert!(matches!(zero_of(Type::Texto, &mut alloc), AmaValue::Str(s) if s.is_empty()));
    // A vector of no cells, and one of no rows.
    match native(Builtin::Vec, vec![AmaValue::Type(Type::Int), AmaValue::Int(0)], &mut alloc, &nothing, false) {
        Outcome::Done(AmaValue::Vector(r)) => assert_eq!(alloc.vector(r).unwrap().len(), 0),
        other => panic!("vec builds a vector: {:?}", other),
    }
    let before = alloc.len();
    assert!(matches!(
        native(
            Builtin::Vec,
            vec![AmaValue::Type(Type::Int), AmaValue::Int(2), AmaValue::Int(-1)],
            &mut alloc,
            &nothing,
            false
        ),
        Outcome::Error(msg)
            if msg == "Dimensões de um vector devem ser especificidas por números inteiros positivos"
    ));
    assert_eq!(alloc.len(), before);
    assert!(matches!(
        native(Builtin::Vec, vec![AmaValue::Type(Type::Int)], &mut alloc, &nothing, false),
        Outcome::Fault(Fault::BadOperand)
    ));
    assert!(matches!(
        native(Builtin::Vec, vec![AmaValue::Type(Type::Vector), AmaValue::Int(1)], &mut alloc, &nothing, false),
        Outcome::Fault(Fault::BadOperand)
    ));
    assert!(matches!(
        native(Builtin::Vec, vec![AmaValue::Int(1), AmaValue::Int(1)], &mut alloc, &nothing, false),
        Outcome::Fault(Fault::BadOperand)
    ));
}

#[test]
fn numeric_natives_ask_the_host() {
    let mut alloc = Alloc::new();
    let nothing = Reply::Nothing;
    let unary = [
        (Builtin::Abs, RealOp::Abs),
        (Builtin::Raizqd, RealOp::Sqrt),
        (Builtin::Arredonda, RealOp::Round),
        (Builtin::Piso, RealOp::Floor),
        (Builtin::Teto, RealOp::Ceil),
        (Builtin::Sen, RealOp::Sin),
        (Builtin::Cos, RealOp::Cos),
        (Builtin::Tan, RealOp::Tan),
        (Builtin::Grausprad, RealOp::ToRadians),
        (Builtin::Radpgraus, RealOp::ToDegrees),
    ];
    for (func, op) in unary {
        match native(func, vec![AmaValue::Int(4)], &mut alloc, &nothing, false) {
            Outcome::Ask(Request::Real(asked, Num::Int(4), Num::Int(0))) => assert_eq!(asked, op),
            other => panic!("{:?} asks the host: {:?}", func, other),
        }
        assert!(matches!(
            native(func, vec![text("4")], &mut alloc, &nothing, false),
            Outcome::Fault(Fault::BadOperand)
        ));
    }
    for (func, op) in [(Builtin::Expoente, RealOp::Pow), (Builtin::Log, RealOp::Log)] {
        match native(func, vec![AmaValue::Real(1), AmaValue::Int(2)], &mut alloc, &nothing, false) {
            Outcome::Ask(Request::Real(asked, Num::Real(1), Num::Int(2))) => assert_eq!(asked, op),
            other => panic!("{:?} asks the host: {:?}", func, other),
        }
        assert!(matches!(
            native(func, vec![AmaValue::Real(1)], &mut alloc, &nothing, false),
            Outcome::Fault(Fault::BadOperand)
        ));
    }
    assert!(matches!(
        native(Builtin::Arredonda, vec![AmaValue::Real(1)], &mut alloc, &Reply::Int(3), false),
        Outcome::Done(AmaValue::Int(3))
    ));
    assert!(matches!(
        native(Builtin::Raizqd, vec![AmaValue::Real(1)], &mut alloc, &Reply::Real(3), false),
        Outcome::Done(AmaValue::Real(3))
    ));
}

#[test]
fn casts_outside_the_machine() {
    let alloc = Alloc::new();
    let modules = no_modules();
    let nothing = Reply::Nothing;
    assert!(matches!(
        cast(&AmaValue::Int(3), Type::Texto, &alloc, &modules, &nothing),
        Outcome::Done(AmaValue::Str(s)) if s == "3"
    ));
    assert!(matches!(
        cast(&AmaValue::Real(3), Type::Int, &alloc, &modules, &nothing),
        Outcome::Ask(Request::Real(RealOp::Trunc, Num::Real(3), Num::Int(0)))
    ));
    assert!(matches!(
        cast(&AmaValue::Int(3), Type::Real, &alloc, &modules, &nothing),
        Outcome::Ask(Request::Real(RealOp::Widen, Num::Int(3), Num::Int(0)))
    ));
    assert!(matches!(
        cast(&text("3.5"), Type::Real, &alloc, &modules, &nothing),
        Outcome::Ask(Request::ParseReal(s)) if s == "3.5"
    ));
    assert!(matches!(
        cast(&AmaValue::Vector(Ref(0)), Type::Vector, &alloc, &modules, &nothing),
        Outcome::Done(AmaValue::Vector(Ref(0)))
    ));
    assert!(matches!(
        cast(&AmaValue::Int(1), Type::Vector, &alloc, &modules, &nothing),
        Outcome::Fault(Fault::BadOperand)
    ));
    assert!(matches!(
        checked_cast(&AmaValue::Nulo, Type::Int),
        Outcome::Fault(Fault::BadOperand)
    ));
    assert!(matches!(
        checked_cast(&text("a"), Type::Texto),
        Outcome::Done(AmaValue::Str(s)) if s == "a"
    ));
}
