//! Record schemas and record instances.
use vstd::prelude::*;
use crate::ama_value::{texts_of, AmaValue, RegistoRef, Value};
use crate::tabela::{tabela_entries, tabela_get, tabela_insert, tabela_new, Tabela};

verus! {

/// A record schema: the name of a record type and the names of its fields,
/// in the order of their declaration.
#[derive(Debug)]
pub struct Registo {
    pub name: String,
    pub fields: Vec<String>,
}

/// The mathematical model of a record schema.
pub struct RegistoView {
    pub name: Seq<char>,
    pub fields: Seq<Seq<char>>,
}

impl View for Registo {
    type V = RegistoView;

    open spec fn view(&self) -> RegistoView {
        RegistoView { name: self.name@, fields: texts_of(self.fields@) }
    }
}

/// The models of a sequence of schemas.
pub open spec fn registos_of(s: Seq<Registo>) -> Seq<RegistoView> {
    Seq::new(s.len(), |i: int| s[i]@)
}

/// A record instance: a handle to its schema and the value of each field
/// that has been set.
pub struct RegObj {
    registo: RegistoRef,
    state: Tabela,
}

/// The mathematical model of a record instance.
pub struct RegObjView {
    pub registo: RegistoRef,
    pub state: Map<Seq<char>, Value>,
}

impl View for RegObj {
    type V = RegObjView;

    closed spec fn view(&self) -> RegObjView {
        RegObjView { registo: self.registo, state: tabela_entries(&self.state) }
    }
}

/// The table that a sequence of alternating field names and values
/// describes, on top of the table `base`. A later pair overrides an earlier
/// pair of the same name. There is none if a name is missing its value or is
/// not a text.
pub open spec fn fields_from(base: Map<Seq<char>, Value>, pairs: Seq<Value>) -> Option<
    Map<Seq<char>, Value>,
>
    decreases pairs.len(),
{
    if pairs.len() == 0 {
        Some(base)
    } else if pairs.len() == 1 {
        None
    } else {
        match pairs[0] {
            Value::Str(name) => fields_from(base.insert(name, pairs[1]), pairs.skip(2)),
            _ => None,
        }
    }
}

impl RegObj {
    /// An instance of the given schema with no field set.
    pub fn new(registo: RegistoRef) -> (r: RegObj)
        ensures
            r@ == (RegObjView { registo, state: Map::empty() }),
    {
        RegObj { registo, state: tabela_new() }
    }

    /// An instance of the given schema whose fields are set from
    /// `fields[start..end]`, a run of alternating field names and values.
    pub fn with_fields(registo: RegistoRef, fields: &Vec<AmaValue>, start: usize, end: usize) -> (r:
        Option<RegObj>)
        requires
            start <= end <= fields.len(),
        ensures
            match fields_from(
                Map::empty(),
                crate::ama_value::values_of(fields@).subrange(start as int, end as int),
            ) {
                Some(state) => r is Some && r->0@ == (RegObjView { registo, state }),
                None => r is None,
            },
    {
        let mut state = tabela_new();
        let ghost all = crate::ama_value::values_of(fields@).subrange(start as int, end as int);
        let mut i: usize = start;
        assert(all.skip(0) =~= all);
        while i < end
            invariant
                start <= i <= end <= fields.len(),
                all == crate::ama_value::values_of(fields@).subrange(start as int, end as int),
                fields_from(Map::empty(), all) == fields_from(
                    tabela_entries(&state),
                    all.skip(i - start),
                ),
            decreases end - i,
        {
            if end - i == 1 {
                return None;
            }
            assert(all.skip(i - start)[0] == fields@[i as int]@);
            assert(all.skip(i - start)[1] == fields@[i + 1]@);
            assert(all.skip(i - start).skip(2) =~= all.skip(i - start + 2));
            match &fields[i] {
                AmaValue::Str(name) => {
                    tabela_insert(&mut state, name.clone(), fields[i + 1].clone());
                },
                _ => {
                    return None;
                },
            }
            i += 2;
        }
        Some(RegObj { registo, state })
    }

    /// The handle of the schema of the instance.
    pub fn registo(&self) -> (r: RegistoRef)
        ensures
            r == self@.registo,
    {
        self.registo
    }

    /// The name of the schema of the instance, if the handle of the schema
    /// refers to one of the schemas of the given modules.
    pub fn reg_name<'a>(&self, modules: &'a Vec<crate::module::Module>) -> (name: Option<&'a str>)
        ensures
            match name {
                Some(s) => crate::module::spec_schema_name(
                    crate::module::modules_of(modules@),
                    self@.registo,
                ) == Some(s@),
                None => crate::module::spec_schema_name(
                    crate::module::modules_of(modules@),
                    self@.registo,
                ) is None,
            },
    {
        crate::module::schema_name(modules, self.registo)
    }

    /// The value of a field, if the field has been set.
    pub fn get(&self, field: &str) -> (r: Option<AmaValue>)
        ensures
            r is Some <==> self@.state.contains_key(field@),
            r matches Some(v) ==> v@ == self@.state[field@],
    {
        match tabela_get(&self.state, field) {
            Some(v) => Some(v.clone()),
            None => None,
        }
    }

    /// Sets a field.
    pub fn set(&mut self, field: String, value: AmaValue)
        ensures
            final(self)@ == (RegObjView {
                registo: old(self)@.registo,
                state: old(self)@.state.insert(field@, value@),
            }),
    {
        tabela_insert(&mut self.state, field, value);
    }
}

} // verus!
