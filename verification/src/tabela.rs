//! Tables from names to values, and tables from names to such tables, kept
//! in hash maps with a fast non-cryptographic hasher.
use vstd::prelude::*;
use crate::ama_value::{AmaValue, Value};
use crate::registry::Export;

verus! {

/// The hasher of the tables.
#[verifier::external_type_specification]
#[verifier::external_body]
pub struct ExFxHasher(rustc_hash::FxHasher);

/// The builder that makes a hasher of the given kind for each lookup.
#[verifier::external_type_specification]
#[verifier::external_body]
#[verifier::reject_recursive_types(H)]
pub struct ExBuildHasherDefault<H>(core::hash::BuildHasherDefault<H>);

/// A table from names to values.
pub type Tabela = rustc_hash::FxHashMap<String, AmaValue>;

/// What a table holds: the model of the value stored under each name.
pub uninterp spec fn tabela_entries(t: &Tabela) -> Map<Seq<char>, Value>;

/// A table without entries.
///
/// Trusted: calls `FxHashMap::default`, which makes an empty hash map.
#[verifier::external_body]
pub(crate) fn tabela_new() -> (t: Tabela)
    ensures
        tabela_entries(&t) == (Map::<Seq<char>, Value>::empty()),
{
    rustc_hash::FxHashMap::default()
}

/// Stores a value under a name, in place of the value stored under that name
/// before, if there was one.
///
/// Trusted: calls `insert` of the hash map, which adds the entry, or
/// replaces the value of the entry whose key equals the given one.
#[verifier::external_body]
pub(crate) fn tabela_insert(t: &mut Tabela, key: String, value: AmaValue)
    ensures
        tabela_entries(final(t)) == tabela_entries(old(t)).insert(key@, value@),
{
    t.insert(key, value);
}

/// The value stored under a name, if there is one.
///
/// Trusted: calls `get` of the hash map, which returns a reference to the
/// value of the entry whose key equals the given one, or nothing if there
/// is no such entry.
#[verifier::external_body]
pub(crate) fn tabela_get<'a>(t: &'a Tabela, key: &str) -> (r: Option<&'a AmaValue>)
    ensures
        r is Some <==> tabela_entries(t).contains_key(key@),
        r matches Some(v) ==> v@ == tabela_entries(t)[key@],
{
    t.get(key)
}


/// The entries of a table, each once, in the order in which the hash map
/// hands them out, which is not fixed: every item is an entry of the table,
/// and every entry of the table is among the items.
///
/// Trusted: calls `iter` of the hash map, which visits every key-value pair
/// in arbitrary order, and copies each pair.
#[verifier::external_body]
pub(crate) fn tabela_items(t: &Tabela) -> (r: Vec<Export>)
    ensures
        forall|i: int|
            0 <= i < r@.len() ==> tabela_entries(t).contains_key(#[trigger] r@[i].name@)
                && tabela_entries(t)[r@[i].name@] == r@[i].value@,
        forall|key: Seq<char>|
            tabela_entries(t).contains_key(key) ==> exists|i: int|
                0 <= i < r@.len() && #[trigger] r@[i].name@ == key,
{
    let mut r: Vec<Export> = Vec::new();
    for (name, value) in t.iter() {
        r.push(Export { name: name.clone(), value: value.clone() });
    }
    r
}

/// A table from the names of the builtin modules to the exports of each.
pub type BuiltinDefs = rustc_hash::FxHashMap<String, Tabela>;

/// What a table of builtin modules holds: under the name of each module,
/// what the table of its exports holds.
pub uninterp spec fn defs_entries(d: &BuiltinDefs) -> Map<Seq<char>, Map<Seq<char>, Value>>;

/// A table of builtin modules without entries.
///
/// Trusted: calls `FxHashMap::default`, which makes an empty hash map.
#[verifier::external_body]
pub(crate) fn defs_new() -> (d: BuiltinDefs)
    ensures
        defs_entries(&d) == (Map::<Seq<char>, Map<Seq<char>, Value>>::empty()),
{
    rustc_hash::FxHashMap::default()
}

/// Stores the exports of a module under its name, in place of those stored
/// under that name before, if there were any.
///
/// Trusted: calls `insert` of the hash map, which adds the entry, or
/// replaces the value of the entry whose key equals the given one.
#[verifier::external_body]
pub(crate) fn defs_insert(d: &mut BuiltinDefs, module: String, exports: Tabela)
    ensures
        defs_entries(final(d)) == defs_entries(old(d)).insert(module@, tabela_entries(&exports)),
{
    d.insert(module, exports);
}

/// The exports stored under the name of a module, if there are any.
///
/// Trusted: calls `get` of the hash map, which returns a reference to the
/// value of the entry whose key equals the given one, or nothing if there
/// is no such entry.
#[verifier::external_body]
pub(crate) fn defs_get<'a>(d: &'a BuiltinDefs, module: &str) -> (r: Option<&'a Tabela>)
    ensures
        r is Some <==> defs_entries(d).contains_key(module@),
        r matches Some(exports) ==> tabela_entries(exports) == defs_entries(d)[module@],
{
    d.get(module)
}

} // verus!
