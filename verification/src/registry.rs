//! The registry of builtin modules: for each module, the table of the
//! identifiers that it exports and the value of each.
use vstd::prelude::*;
use vstd::string::StringExecFns;
use crate::amatype::Type;
use crate::ama_value::{AmaValue, Value};
use crate::function::{Builtin, NativeFunc};
use crate::tabela::{
    defs_entries, defs_insert, defs_new, tabela_entries, tabela_insert, tabela_new, BuiltinDefs,
    Tabela,
};

verus! {

broadcast use vstd::string::group_string_axioms;

/// The bits of the real closest to the ratio of a circle's circumference
/// to its diameter.
pub const PI_BITS: u64 = 0x400921FB54442D18;

/// One export of a builtin module.
#[derive(Debug)]
pub struct Export {
    pub name: String,
    pub value: AmaValue,
}

impl View for Export {
    type V = (Seq<char>, Value);

    open spec fn view(&self) -> (Seq<char>, Value) {
        (self.name@, self.value@)
    }
}

/// The models of a sequence of exports.
pub open spec fn exports_of(s: Seq<Export>) -> Seq<(Seq<char>, Value)> {
    Seq::new(s.len(), |i: int| s[i]@)
}

/// The export of a native function, under the function's own name.
pub open spec fn native_entry(func: Builtin) -> (Seq<char>, Value) {
    (func.spec_name(), Value::NativeFn(func))
}

/// The exports of the module `embutidos`, in the order of registration.
pub open spec fn embutidos_table() -> Seq<(Seq<char>, Value)> {
    seq![
        ("int"@, Value::Type(Type::Int)),
        ("real"@, Value::Type(Type::Real)),
        ("bool"@, Value::Type(Type::Bool)),
        ("texto"@, Value::Type(Type::Texto)),
        ("PI"@, Value::Real(PI_BITS)),
        native_entry(Builtin::Escrevaln),
        native_entry(Builtin::Escreva),
        native_entry(Builtin::Leia),
        native_entry(Builtin::LeiaInt),
        native_entry(Builtin::LeiaReal),
        native_entry(Builtin::Tam),
        native_entry(Builtin::Vec),
        native_entry(Builtin::Anexa),
        native_entry(Builtin::Remova),
        native_entry(Builtin::TxtContem),
    ]
}

/// The exports of the module `mat`, in the order of registration.
pub open spec fn mat_table() -> Seq<(Seq<char>, Value)> {
    seq![
        native_entry(Builtin::Abs),
        native_entry(Builtin::Raizqd),
        native_entry(Builtin::Expoente),
        ("PI"@, Value::Real(PI_BITS)),
        native_entry(Builtin::Arredonda),
        native_entry(Builtin::Piso),
        native_entry(Builtin::Teto),
        native_entry(Builtin::Sen),
        native_entry(Builtin::Cos),
        native_entry(Builtin::Tan),
        native_entry(Builtin::Log),
        native_entry(Builtin::Grausprad),
        native_entry(Builtin::Radpgraus),
    ]
}

/// Every builtin in one list, each identifier once: the native functions
/// for input, output, text and vectors, the primitive type descriptors, the
/// constant `PI`, and the numeric functions.
pub open spec fn builtins_table() -> Seq<(Seq<char>, Value)> {
    seq![
        native_entry(Builtin::Escrevaln),
        native_entry(Builtin::Escreva),
        native_entry(Builtin::Leia),
        native_entry(Builtin::LeiaInt),
        native_entry(Builtin::LeiaReal),
        native_entry(Builtin::Tam),
        native_entry(Builtin::Vec),
        native_entry(Builtin::Anexa),
        native_entry(Builtin::Remova),
        native_entry(Builtin::TxtContem),
        ("int"@, Value::Type(Type::Int)),
        ("real"@, Value::Type(Type::Real)),
        ("bool"@, Value::Type(Type::Bool)),
        ("texto"@, Value::Type(Type::Texto)),
        ("PI"@, Value::Real(PI_BITS)),
        native_entry(Builtin::Abs),
        native_entry(Builtin::Raizqd),
        native_entry(Builtin::Expoente),
        native_entry(Builtin::Arredonda),
        native_entry(Builtin::Piso),
        native_entry(Builtin::Teto),
        native_entry(Builtin::Sen),
        native_entry(Builtin::Cos),
        native_entry(Builtin::Tan),
        native_entry(Builtin::Log),
        native_entry(Builtin::Grausprad),
        native_entry(Builtin::Radpgraus),
    ]
}

/// Whether no two entries of a list have the same name.
pub open spec fn distinct_names(entries: Seq<(Seq<char>, Value)>) -> bool {
    forall|i: int, j: int|
        0 <= i < j < entries.len() ==> (#[trigger] entries[i]).0 != (#[trigger] entries[j]).0
}

/// The table that holds the entries of a list: under each name, the value of
/// the last entry of that name.
pub open spec fn table_of(entries: Seq<(Seq<char>, Value)>) -> Map<Seq<char>, Value>
    decreases entries.len(),
{
    if entries.len() == 0 {
        Map::empty()
    } else {
        table_of(entries.drop_last()).insert(entries.last().0, entries.last().1)
    }
}

/// The registry: under the name of each builtin module, the table of its
/// exports.
pub open spec fn registry() -> Map<Seq<char>, Map<Seq<char>, Value>> {
    Map::<Seq<char>, Map<Seq<char>, Value>>::empty().insert(
        "embutidos"@,
        table_of(embutidos_table()),
    ).insert("mat"@, table_of(mat_table()))
}

/// The exports of the builtin module of the given name, if one is declared.
pub open spec fn spec_exports(module: Seq<char>) -> Option<Map<Seq<char>, Value>> {
    if registry().contains_key(module) {
        Some(registry()[module])
    } else {
        None
    }
}

fn native(func: Builtin) -> (r: Export)
    ensures
        r@ == native_entry(func),
{
    Export { name: String::from_str(func.name()), value: AmaValue::NativeFn(NativeFunc { func }) }
}

fn var(name: &str, value: AmaValue) -> (r: Export)
    ensures
        r@ == (name@, value@),
{
    Export { name: String::from_str(name), value }
}

/// The table that holds the exports of a list.
fn collect(list: Vec<Export>) -> (t: Tabela)
    ensures
        tabela_entries(&t) == table_of(exports_of(list@)),
{
    let ghost all = exports_of(list@);
    let mut t = tabela_new();
    let mut i: usize = 0;
    assert(all.take(0) =~= Seq::<(Seq<char>, Value)>::empty());
    while i < list.len()
        invariant
            i <= list.len(),
            all == exports_of(list@),
            tabela_entries(&t) == table_of(all.take(i as int)),
        decreases list.len() - i,
    {
        proof {
            assert(all.take(i + 1).drop_last() =~= all.take(i as int));
            assert(all.take(i + 1).last() == list@[i as int]@);
        }
        tabela_insert(&mut t, list[i].name.clone(), list[i].value.clone());
        i += 1;
    }
    assert(all.take(list.len() as int) =~= all);
    t
}

fn embutidos_list() -> (r: Vec<Export>)
    ensures
        exports_of(r@) == embutidos_table(),
{
    let mut r: Vec<Export> = Vec::new();
    r.push(var("int", AmaValue::Type(Type::Int)));
    r.push(var("real", AmaValue::Type(Type::Real)));
    r.push(var("bool", AmaValue::Type(Type::Bool)));
    r.push(var("texto", AmaValue::Type(Type::Texto)));
    r.push(var("PI", AmaValue::Real(PI_BITS)));
    r.push(native(Builtin::Escrevaln));
    r.push(native(Builtin::Escreva));
    r.push(native(Builtin::Leia));
    r.push(native(Builtin::LeiaInt));
    r.push(native(Builtin::LeiaReal));
    r.push(native(Builtin::Tam));
    r.push(native(Builtin::Vec));
    r.push(native(Builtin::Anexa));
    r.push(native(Builtin::Remova));
    r.push(native(Builtin::TxtContem));
    assert(exports_of(r@) =~= embutidos_table());
    r
}

fn mat_list() -> (r: Vec<Export>)
    ensures
        exports_of(r@) == mat_table(),
{
    let mut r: Vec<Export> = Vec::new();
    r.push(native(Builtin::Abs));
    r.push(native(Builtin::Raizqd));
    r.push(native(Builtin::Expoente));
    r.push(var("PI", AmaValue::Real(PI_BITS)));
    r.push(native(Builtin::Arredonda));
    r.push(native(Builtin::Piso));
    r.push(native(Builtin::Teto));
    r.push(native(Builtin::Sen));
    r.push(native(Builtin::Cos));
    r.push(native(Builtin::Tan));
    r.push(native(Builtin::Log));
    r.push(native(Builtin::Grausprad));
    r.push(native(Builtin::Radpgraus));
    assert(exports_of(r@) =~= mat_table());
    r
}

/// The exports of the module `embutidos`: the primitive type descriptors,
/// the constant `PI`, and the native functions for input, output, text and
/// vectors.
pub fn embutidos_exports() -> (t: Tabela)
    ensures
        tabela_entries(&t) == table_of(embutidos_table()),
{
    collect(embutidos_list())
}

/// The exports of the module `mat`: the constant `PI` and the numeric
/// functions.
pub fn mat_exports() -> (t: Tabela)
    ensures
        tabela_entries(&t) == table_of(mat_table()),
{
    collect(mat_list())
}

/// The registry of the builtin modules: the exports of `embutidos` and of
/// `mat`, each under the name of its module.
pub fn definitions() -> (defs: BuiltinDefs)
    ensures
        defs_entries(&defs) == registry(),
{
    let mut defs = defs_new();
    defs_insert(&mut defs, String::from_str("embutidos"), embutidos_exports());
    defs_insert(&mut defs, String::from_str("mat"), mat_exports());
    defs
}

/// Every builtin in one list, each identifier once.
pub fn load_builtins() -> (r: Vec<Export>)
    ensures
        exports_of(r@) == builtins_table(),
        distinct_names(exports_of(r@)),
{
    let mut r: Vec<Export> = Vec::new();
    r.push(native(Builtin::Escrevaln));
    r.push(native(Builtin::Escreva));
    r.push(native(Builtin::Leia));
    r.push(native(Builtin::LeiaInt));
    r.push(native(Builtin::LeiaReal));
    r.push(native(Builtin::Tam));
    r.push(native(Builtin::Vec));
    r.push(native(Builtin::Anexa));
    r.push(native(Builtin::Remova));
    r.push(native(Builtin::TxtContem));
    r.push(var("int", AmaValue::Type(Type::Int)));
    r.push(var("real", AmaValue::Type(Type::Real)));
    r.push(var("bool", AmaValue::Type(Type::Bool)));
    r.push(var("texto", AmaValue::Type(Type::Texto)));
    r.push(var("PI", AmaValue::Real(PI_BITS)));
    r.push(native(Builtin::Abs));
    r.push(native(Builtin::Raizqd));
    r.push(native(Builtin::Expoente));
    r.push(native(Builtin::Arredonda));
    r.push(native(Builtin::Piso));
    r.push(native(Builtin::Teto));
    r.push(native(Builtin::Sen));
    r.push(native(Builtin::Cos));
    r.push(native(Builtin::Tan));
    r.push(native(Builtin::Log));
    r.push(native(Builtin::Grausprad));
    r.push(native(Builtin::Radpgraus));
    assert(exports_of(r@) =~= builtins_table());
    proof {
        lemma_builtins_distinct();
    }
    r
}

/// No two builtins have the same identifier: any two differ in their
/// length, in their first character or in their third.
pub proof fn lemma_builtins_distinct()
    ensures
        distinct_names(builtins_table()),
{
    reveal_strlit("escrevaln");
    reveal_strlit("escreva");
    reveal_strlit("leia");
    reveal_strlit("leia_int");
    reveal_strlit("leia_real");
    reveal_strlit("tam");
    reveal_strlit("vec");
    reveal_strlit("anexa");
    reveal_strlit("remova");
    reveal_strlit("txt_contem");
    reveal_strlit("int");
    reveal_strlit("real");
    reveal_strlit("bool");
    reveal_strlit("texto");
    reveal_strlit("PI");
    reveal_strlit("abs");
    reveal_strlit("raizqd");
    reveal_strlit("expoente");
    reveal_strlit("arredonda");
    reveal_strlit("piso");
    reveal_strlit("teto");
    reveal_strlit("sen");
    reveal_strlit("cos");
    reveal_strlit("tan");
    reveal_strlit("log");
    reveal_strlit("grausprad");
    reveal_strlit("radpgraus");
    let t = builtins_table();
    assert(t.len() == 27);
    assert(t[0].0 == "escrevaln"@ && "escrevaln"@.len() == 9 && "escrevaln"@[0] == 'e' && "escrevaln"@[2] == 'c');
    assert(t[1].0 == "escreva"@ && "escreva"@.len() == 7 && "escreva"@[0] == 'e' && "escreva"@[2] == 'c');
    assert(t[2].0 == "leia"@ && "leia"@.len() == 4 && "leia"@[0] == 'l' && "leia"@[2] == 'i');
    assert(t[3].0 == "leia_int"@ && "leia_int"@.len() == 8 && "leia_int"@[0] == 'l' && "leia_int"@[2] == 'i');
    assert(t[4].0 == "leia_real"@ && "leia_real"@.len() == 9 && "leia_real"@[0] == 'l' && "leia_real"@[2] == 'i');
    assert(t[5].0 == "tam"@ && "tam"@.len() == 3 && "tam"@[0] == 't' && "tam"@[2] == 'm');
    assert(t[6].0 == "vec"@ && "vec"@.len() == 3 && "vec"@[0] == 'v' && "vec"@[2] == 'c');
    assert(t[7].0 == "anexa"@ && "anexa"@.len() == 5 && "anexa"@[0] == 'a' && "anexa"@[2] == 'e');
    assert(t[8].0 == "remova"@ && "remova"@.len() == 6 && "remova"@[0] == 'r' && "remova"@[2] == 'm');
    assert(t[9].0 == "txt_contem"@ && "txt_contem"@.len() == 10 && "txt_contem"@[0] == 't' && "txt_contem"@[2] == 't');
    assert(t[10].0 == "int"@ && "int"@.len() == 3 && "int"@[0] == 'i' && "int"@[2] == 't');
    assert(t[11].0 == "real"@ && "real"@.len() == 4 && "real"@[0] == 'r' && "real"@[2] == 'a');
    assert(t[12].0 == "bool"@ && "bool"@.len() == 4 && "bool"@[0] == 'b' && "bool"@[2] == 'o');
    assert(t[13].0 == "texto"@ && "texto"@.len() == 5 && "texto"@[0] == 't' && "texto"@[2] == 'x');
    assert(t[14].0 == "PI"@ && "PI"@.len() == 2 && "PI"@[0] == 'P' && "PI"@[1] == 'I');
    assert(t[15].0 == "abs"@ && "abs"@.len() == 3 && "abs"@[0] == 'a' && "abs"@[2] == 's');
    assert(t[16].0 == "raizqd"@ && "raizqd"@.len() == 6 && "raizqd"@[0] == 'r' && "raizqd"@[2] == 'i');
    assert(t[17].0 == "expoente"@ && "expoente"@.len() == 8 && "expoente"@[0] == 'e' && "expoente"@[2] == 'p');
    assert(t[18].0 == "arredonda"@ && "arredonda"@.len() == 9 && "arredonda"@[0] == 'a' && "arredonda"@[2] == 'r');
    assert(t[19].0 == "piso"@ && "piso"@.len() == 4 && "piso"@[0] == 'p' && "piso"@[2] == 's');
    assert(t[20].0 == "teto"@ && "teto"@.len() == 4 && "teto"@[0] == 't' && "teto"@[2] == 't');
    assert(t[21].0 == "sen"@ && "sen"@.len() == 3 && "sen"@[0] == 's' && "sen"@[2] == 'n');
    assert(t[22].0 == "cos"@ && "cos"@.len() == 3 && "cos"@[0] == 'c' && "cos"@[2] == 's');
    assert(t[23].0 == "tan"@ && "tan"@.len() == 3 && "tan"@[0] == 't' && "tan"@[2] == 'n');
    assert(t[24].0 == "log"@ && "log"@.len() == 3 && "log"@[0] == 'l' && "log"@[2] == 'g');
    assert(t[25].0 == "grausprad"@ && "grausprad"@.len() == 9 && "grausprad"@[0] == 'g' && "grausprad"@[2] == 'a');
    assert(t[26].0 == "radpgraus"@ && "radpgraus"@.len() == 9 && "radpgraus"@[0] == 'r' && "radpgraus"@[2] == 'd');
    assert forall|i: int, j: int| 0 <= i < j < t.len() implies (#[trigger] t[i]).0 != (
    #[trigger] t[j]).0 by {
        lemma_index_cases(i);
        lemma_index_cases(j);
    }
}

/// An index into the list of builtins is one of its twenty-seven positions.
proof fn lemma_index_cases(k: int)
    requires
        0 <= k < 27,
    ensures
        k == 0 || k == 1 || k == 2 || k == 3 || k == 4 || k == 5 || k == 6 || k == 7 || k == 8 || k == 9 || k == 10 || k == 11 || k == 12 || k == 13 || k == 14 || k == 15 || k == 16 || k == 17 || k == 18 || k == 19 || k == 20 || k == 21 || k == 22 || k == 23 || k == 24 || k == 25 || k == 26,
{
}

} // verus!
