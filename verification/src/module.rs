//! Modules: the unit of compilation and of loading.
use vstd::prelude::*;
use crate::ama_value::{texts_of, values_of, AmaValue, RegistoRef, Value};
use crate::function::{frames_of, AmaFunc, Frame};
use crate::registo::{registos_of, Registo, RegistoView};
use crate::registry::{registry, spec_exports, Export};
use crate::tabela::{
    defs_entries, defs_get, tabela_entries, tabela_insert, tabela_items, BuiltinDefs, Tabela,
};

verus! {

/// A module: its constants, identifiers, code, functions, record schemas
/// and source map, and the table of its globals.
pub struct Module {
    pub name: String,
    /// Whether the module is implemented by the host.
    pub builtin: bool,
    pub constants: Vec<AmaValue>,
    pub names: Vec<String>,
    pub code: Vec<u8>,
    /// The function that holds the module-level code.
    pub main: AmaFunc,
    pub functions: Vec<AmaFunc>,
    pub globals: Tabela,
    pub registos: Vec<Registo>,
    /// Triples of first offset, last offset and source line.
    pub src_map: Vec<usize>,
}

/// The mathematical model of a module.
pub struct ModuleState {
    pub name: Seq<char>,
    pub builtin: bool,
    pub constants: Seq<Value>,
    pub names: Seq<Seq<char>>,
    pub code: Seq<u8>,
    pub main: Frame,
    pub functions: Seq<Frame>,
    pub globals: Map<Seq<char>, Value>,
    pub registos: Seq<RegistoView>,
    pub src_map: Seq<usize>,
}

impl View for Module {
    type V = ModuleState;

    open spec fn view(&self) -> ModuleState {
        ModuleState {
            name: self.name@,
            builtin: self.builtin,
            constants: values_of(self.constants@),
            names: texts_of(self.names@),
            code: self.code@,
            main: self.main@,
            functions: frames_of(self.functions@),
            globals: tabela_entries(&self.globals),
            registos: registos_of(self.registos@),
            src_map: self.src_map@,
        }
    }
}

/// The models of a sequence of modules.
pub open spec fn modules_of(s: Seq<Module>) -> Seq<ModuleState> {
    Seq::new(s.len(), |i: int| s[i]@)
}

/// The table `globals` after each entry has been stored in it, in order.
pub open spec fn install(globals: Map<Seq<char>, Value>, entries: Seq<(Seq<char>, Value)>) -> Map<
    Seq<char>,
    Value,
>
    decreases entries.len(),
{
    if entries.len() == 0 {
        globals
    } else {
        install(globals.insert(entries[0].0, entries[0].1), entries.drop_first())
    }
}

/// The entries that define the functions of a module: each function under
/// its own name.
pub open spec fn function_entries(functions: Seq<Frame>) -> Seq<(Seq<char>, Value)> {
    Seq::new(functions.len(), |i: int| (functions[i].name, Value::Func(functions[i])))
}

impl ModuleState {
    /// Whether the module can be initialized: a builtin module has to be
    /// declared in the registry.
    pub open spec fn can_initialize(self) -> bool {
        self.builtin ==> spec_exports(self.name) is Some
    }

    /// The module after its initialization: the globals of a builtin module
    /// hold, besides what they held, the exports of the builtin module of
    /// the same name; those of any other module hold each function of the
    /// module under its own name.
    pub open spec fn initialized(self) -> ModuleState {
        ModuleState {
            globals: if self.builtin {
                match spec_exports(self.name) {
                    Some(exports) => self.globals.union_prefer_right(exports),
                    None => self.globals,
                }
            } else {
                install(self.globals, function_entries(self.functions))
            },
            ..self
        }
    }

    /// The name of the schema at the given position.
    pub open spec fn schema_name(self, index: usize) -> Option<Seq<char>> {
        if index < self.registos.len() {
            Some(self.registos[index as int].name)
        } else {
            None
        }
    }
}

/// The name of the schema behind a handle, if the handle refers to one.
pub open spec fn spec_schema_name(modules: Seq<ModuleState>, r: RegistoRef) -> Option<Seq<char>> {
    if r.module < modules.len() {
        modules[r.module as int].schema_name(r.index)
    } else {
        None
    }
}

/// The name of the schema behind a handle, if the handle refers to one.
pub fn schema_name<'a>(modules: &'a Vec<Module>, r: RegistoRef) -> (name: Option<&'a str>)
    ensures
        match name {
            Some(s) => spec_schema_name(modules_of(modules@), r) == Some(s@),
            None => spec_schema_name(modules_of(modules@), r) is None,
        },
{
    if r.module < modules.len() {
        let m = &modules[r.module];
        if r.index < m.registos.len() {
            Some(m.registos[r.index].name.as_str())
        } else {
            None
        }
    } else {
        None
    }
}

/// The names of the first `n` items.
pub open spec fn names_seen(items: Seq<Export>, n: int) -> Set<Seq<char>> {
    Set::new(|key: Seq<char>| exists|j: int| 0 <= j < n && #[trigger] items[j].name@ == key)
}

/// Copies every entry of a table of exports into the globals.
fn install_exports(globals: &mut Tabela, exports: &Tabela)
    ensures
        tabela_entries(final(globals)) == tabela_entries(old(globals)).union_prefer_right(
            tabela_entries(exports),
        ),
{
    let items = tabela_items(exports);
    let ghost source = tabela_entries(exports);
    let ghost before = tabela_entries(old(globals));
    let mut i: usize = 0;
    proof {
        assert(source.restrict(names_seen(items@, 0)) =~= Map::<Seq<char>, Value>::empty());
        assert(before.union_prefer_right(source.restrict(names_seen(items@, 0))) =~= before);
    }
    while i < items.len()
        invariant
            i <= items.len(),
            source == tabela_entries(exports),
            forall|j: int|
                0 <= j < items@.len() ==> source.contains_key(#[trigger] items@[j].name@)
                    && source[items@[j].name@] == items@[j].value@,
            tabela_entries(globals) == before.union_prefer_right(
                source.restrict(names_seen(items@, i as int)),
            ),
        decreases items.len() - i,
    {
        let ghost name = items@[i as int].name@;
        let ghost held = tabela_entries(globals);
        tabela_insert(globals, items[i].name.clone(), items[i].value.clone());
        proof {
            let seen = names_seen(items@, i as int);
            let next = names_seen(items@, i + 1);
            assert(next =~= seen.insert(name)) by {
                assert forall|key: Seq<char>| next.contains(key) == seen.insert(name).contains(
                    key,
                ) by {
                    if seen.contains(key) {
                        let j = choose|j: int| 0 <= j < i && #[trigger] items@[j].name@ == key;
                        assert(0 <= j < i + 1 && items@[j].name@ == key);
                    }
                    if key == name {
                        assert(0 <= i < i + 1 && items@[i as int].name@ == key);
                    }
                    if next.contains(key) {
                        let j = choose|j: int| 0 <= j < i + 1 && #[trigger] items@[j].name@ == key;
                        if j < i {
                            assert(seen.contains(key));
                        }
                    }
                }
            }
            assert(held.insert(name, source[name]) =~= before.union_prefer_right(
                source.restrict(next),
            ));
        }
        i += 1;
    }
    proof {
        let all = names_seen(items@, items@.len() as int);
        assert(source.restrict(all) =~= source) by {
            assert forall|key: Seq<char>| source.contains_key(key) implies all.contains(key) by {
                let j = choose|j: int| 0 <= j < items@.len() && #[trigger] items@[j].name@ == key;
                assert(0 <= j < items@.len() && items@[j].name@ == key);
            }
        }
    }
}

fn install_functions(globals: &mut Tabela, functions: &Vec<AmaFunc>)
    ensures
        tabela_entries(final(globals)) == install(
            tabela_entries(old(globals)),
            function_entries(frames_of(functions@)),
        ),
{
    let ghost all = function_entries(frames_of(functions@));
    let mut i: usize = 0;
    assert(all.skip(0) =~= all);
    while i < functions.len()
        invariant
            i <= functions.len(),
            all == function_entries(frames_of(functions@)),
            install(tabela_entries(old(globals)), all) == install(
                tabela_entries(globals),
                all.skip(i as int),
            ),
        decreases functions.len() - i,
    {
        assert(all.skip(i as int)[0] == (functions@[i as int]@.name, Value::Func(functions@[i as int]@)));
        assert(all.skip(i as int).drop_first() =~= all.skip(i + 1));
        let f = functions[i].clone();
        tabela_insert(globals, f.name.clone(), AmaValue::Func(f));
        i += 1;
    }
}

impl Module {
    /// Whether the module can be initialized.
    pub fn can_initialize(&self, builtin_defs: &BuiltinDefs) -> (r: bool)
        requires
            defs_entries(builtin_defs) == registry(),
        ensures
            r == self@.can_initialize(),
    {
        !self.builtin || defs_get(builtin_defs, self.name.as_str()).is_some()
    }

    /// Fills the globals before any code of the module runs: with the
    /// exports that the registry holds for the builtin module of the same
    /// name, or else with the module's functions, each under its own name.
    pub fn initialize(&mut self, builtin_defs: &BuiltinDefs)
        requires
            defs_entries(builtin_defs) == registry(),
            old(self)@.can_initialize(),
        ensures
            final(self)@ == old(self)@.initialized(),
    {
        if self.builtin {
            match defs_get(builtin_defs, self.name.as_str()) {
                Some(exports) => {
                    install_exports(&mut self.globals, exports);
                },
                None => {},
            }
        } else {
            install_functions(&mut self.globals, &self.functions);
        }
    }
}

} // verus!
