//! The loader of the binary container.
//!
//! A container is one document behind a size prefix of four bytes, which is
//! not looked at. The document holds the constants, the identifiers, the
//! code, the number of local slots of the module-level code, the source map
//! and the functions of the main module. It may hold the record schemas of
//! the module, its name, whether it is implemented by the host, and the
//! modules that it imports, each as a document of the same layout.
//!
//! A constant that is a string stands for a boolean, an integer, a real or
//! a text, in that order of preference. Which strings write a real is for
//! the host to say: the loader asks once, for all of them.
use vstd::prelude::*;
use vstd::slice::slice_subrange;
use vstd::string::StringExecFns;
use crate::ama_value::{texts_of, values_of, AmaValue, Value};
use crate::bson::{
    bsons_of, fields_of, field_of, get_field, parse_elements, unpack_bson_doc, BSONType, BsonView,
};
use crate::function::{frames_of, AmaFunc, Frame, FuncModule};
use crate::host::{
    find_parsed, parsed_of, parsed_reals_of, reply_reals, ParsedReal, Reply, ReplyView,
    Request, RequestView,
};
use crate::module::{modules_of, Module, ModuleState};
use crate::registo::{registos_of, Registo, RegistoView};
use crate::tabela::tabela_new;
use crate::text::{chars_of, parse_int, push_char, spec_parse_int, str_eq};

verus! {

broadcast use vstd::string::group_string_axioms;

/// A constant of a module.
#[derive(Debug)]
pub enum Const {
    Str(String),
    Int(i64),
    /// A real, as the 64 bits of its IEEE 754 binary64 form.
    Double(u64),
    Bool(bool),
}

/// The mathematical model of a constant.
pub enum ConstView {
    Str(Seq<char>),
    Int(i64),
    Double(u64),
    Bool(bool),
}

impl View for Const {
    type V = ConstView;

    open spec fn view(&self) -> ConstView {
        match self {
            Const::Str(s) => ConstView::Str(s@),
            Const::Int(i) => ConstView::Int(*i),
            Const::Double(bits) => ConstView::Double(*bits),
            Const::Bool(b) => ConstView::Bool(*b),
        }
    }
}

/// What the text of a constant is, as far as the library can tell.
#[derive(Debug, Clone, Copy, PartialEq, Eq, Structural)]
pub enum TextKind {
    /// One of the words `verdadeiro` and `falso`.
    Bool(bool),
    /// A decimal integer of 64 bits.
    Int(i64),
    /// A text that starts with a quotation mark, single or double.
    Quoted,
    /// Anything else: a real if the host reads it as one, and else a text.
    Bare,
}

/// What the text of a constant is.
pub open spec fn kind_of(s: Seq<char>) -> TextKind {
    if s == "verdadeiro"@ {
        TextKind::Bool(true)
    } else if s == "falso"@ {
        TextKind::Bool(false)
    } else {
        match spec_parse_int(s) {
            Some(i) => TextKind::Int(i),
            None => if s.len() > 0 && (s[0] == '"' || s[0] == '\'') {
                TextKind::Quoted
            } else {
                TextKind::Bare
            },
        }
    }
}

/// Whether a character takes one byte in UTF-8.
pub open spec fn one_byte(c: char) -> bool {
    (c as u32) < 128
}

/// The constant that a text stands for, given the real that the host reads
/// it as, if it reads it as one.
///
/// The words `verdadeiro` and `falso` are the booleans. A decimal integer is
/// that integer. A text that starts with a quotation mark is the text
/// between its first and its last character; it has to be two characters
/// long at least and end in a character of one byte. Any other text is the
/// real that it writes, or else the text itself, which then has to start
/// with a character of one byte.
pub open spec fn const_of_text(s: Seq<char>, parsed: Option<u64>) -> Option<ConstView> {
    match kind_of(s) {
        TextKind::Bool(b) => Some(ConstView::Bool(b)),
        TextKind::Int(i) => Some(ConstView::Int(i)),
        TextKind::Quoted => if s.len() >= 2 && one_byte(s.last()) {
            Some(ConstView::Str(s.subrange(1, s.len() - 1)))
        } else {
            None
        },
        TextKind::Bare => match parsed {
            Some(bits) => Some(ConstView::Double(bits)),
            None => if s.len() > 0 && one_byte(s[0]) {
                Some(ConstView::Str(s))
            } else {
                None
            },
        },
    }
}

/// The constant that a value of the constant pool stands for: an integer
/// and a double stand for themselves, a string for what its text says.
pub open spec fn const_of(v: BsonView, parsed: Option<u64>) -> Option<ConstView> {
    match v {
        BsonView::String(s) => const_of_text(s, parsed),
        BsonView::Int(i) => Some(ConstView::Int(i)),
        BsonView::Double(bits) => Some(ConstView::Double(bits)),
        _ => None,
    }
}

/// The runtime value of a constant.
pub open spec fn value_of_const(c: ConstView) -> Value {
    match c {
        ConstView::Str(s) => Value::Str(s),
        ConstView::Int(i) => Value::Int(i),
        ConstView::Double(bits) => Value::Real(bits),
        ConstView::Bool(b) => Value::Bool(b),
    }
}

/// What the text of a constant is.
pub fn classify(constant: &str) -> (kind: TextKind)
    ensures
        kind == kind_of(constant@),
{
    if str_eq(constant, "verdadeiro") {
        return TextKind::Bool(true);
    }
    if str_eq(constant, "falso") {
        return TextKind::Bool(false);
    }
    match parse_int(constant) {
        Some(i) => TextKind::Int(i),
        None => {
            let chars = chars_of(constant);
            if chars.len() > 0 && (chars[0] == '"' || chars[0] == '\'') {
                TextKind::Quoted
            } else {
                TextKind::Bare
            }
        },
    }
}

impl Const {
    /// The text of a text constant.
    pub fn get_str(&self) -> (s: &String)
        requires
            self@ is Str,
        ensures
            self@ == ConstView::Str(s@),
    {
        match self {
            Const::Str(s) => s,
            _ => vstd::pervasive::unreached(),
        }
    }

    /// The constant that a text stands for, given the real that the host
    /// reads it as, if it reads it as one.
    pub fn from_str(constant: &str, parsed: Option<u64>) -> (r: Result<Const, ()>)
        ensures
            match const_of_text(constant@, parsed) {
                Some(c) => r is Ok && r->Ok_0@ == c,
                None => r is Err,
            },
    {
        match classify(constant) {
            TextKind::Bool(b) => Ok(Const::Bool(b)),
            TextKind::Int(i) => Ok(Const::Int(i)),
            TextKind::Quoted => {
                let chars = chars_of(constant);
                let n: usize = chars.len();
                if n < 2 || chars[n - 1] as u32 >= 128 {
                    return Err(());
                }
                let mut inner = String::new();
                let mut i: usize = 1;
                assert(inner@ =~= chars@.subrange(1, 1));
                while i < n - 1
                    invariant
                        1 <= i <= n - 1,
                        n == chars@.len(),
                        inner@ == chars@.subrange(1, i as int),
                    decreases n - i,
                {
                    push_char(&mut inner, chars[i]);
                    assert(inner@ =~= chars@.subrange(1, i + 1));
                    i += 1;
                }
                Ok(Const::Str(inner))
            },
            TextKind::Bare => match parsed {
                Some(bits) => Ok(Const::Double(bits)),
                None => {
                    let chars = chars_of(constant);
                    if chars.len() > 0 && (chars[0] as u32) < 128 {
                        Ok(Const::Str(String::from_str(constant)))
                    } else {
                        Err(())
                    }
                },
            },
        }
    }

    /// The constant that a value of the constant pool stands for.
    pub fn from(bson_val: &BSONType, parsed: Option<u64>) -> (r: Result<Const, ()>)
        ensures
            match const_of(bson_val@, parsed) {
                Some(c) => r is Ok && r->Ok_0@ == c,
                None => r is Err,
            },
    {
        match bson_val {
            BSONType::String(s) => Const::from_str(s.as_str(), parsed),
            BSONType::Int(i) => Ok(Const::Int(*i)),
            BSONType::Double(bits) => Ok(Const::Double(*bits)),
            _ => Err(()),
        }
    }
}

/// The runtime value of a constant.
pub fn consume_const(constant: Const) -> (v: AmaValue)
    ensures
        v@ == value_of_const(constant@),
{
    match constant {
        Const::Str(s) => AmaValue::Str(s),
        Const::Int(i) => AmaValue::Int(i),
        Const::Double(bits) => AmaValue::Real(bits),
        Const::Bool(b) => AmaValue::Bool(b),
    }
}

/// The reading of a text in the host's table; nothing where the table has
/// no entry for the text.
pub open spec fn reading(table: Seq<(Seq<char>, Option<u64>)>, s: Seq<char>) -> Option<u64> {
    match parsed_of(table, s) {
        Some(parsed) => parsed,
        None => None,
    }
}

/// The text of a value of the constant pool that the host has to read
/// first: that of a string which may write a real and for which the table
/// has no entry.
pub open spec fn unread(v: BsonView, table: Seq<(Seq<char>, Option<u64>)>) -> Option<Seq<char>> {
    match v {
        BsonView::String(s) => if kind_of(s) is Bare && parsed_of(table, s) is None {
            Some(s)
        } else {
            None
        },
        _ => None,
    }
}

/// The texts of the values that the host has to read first, in order.
pub open spec fn unread_in(items: Seq<BsonView>, table: Seq<(Seq<char>, Option<u64>)>) -> Seq<
    Seq<char>,
>
    decreases items.len(),
{
    if items.len() == 0 {
        Seq::empty()
    } else {
        match unread(items.last(), table) {
            Some(s) => unread_in(items.drop_last(), table).push(s),
            None => unread_in(items.drop_last(), table),
        }
    }
}

/// The runtime value of a value of the constant pool.
pub open spec fn constant_of(v: BsonView, table: Seq<(Seq<char>, Option<u64>)>) -> Option<Value> {
    let parsed = match v {
        BsonView::String(s) => reading(table, s),
        _ => None,
    };
    match const_of(v, parsed) {
        Some(c) => Some(value_of_const(c)),
        None => None,
    }
}

/// The number that a value holds as a size: a non-negative integer that fits
/// the machine word.
pub open spec fn as_size(v: BsonView) -> Option<usize> {
    match v {
        BsonView::Int(i) => if 0 <= i <= usize::MAX {
            Some(i as usize)
        } else {
            None
        },
        _ => None,
    }
}

/// The text that a value holds.
pub open spec fn as_text(v: BsonView) -> Option<Seq<char>> {
    match v {
        BsonView::String(s) => Some(s),
        _ => None,
    }
}

/// The items that a value holds as an array.
pub open spec fn as_items(v: Option<BsonView>) -> Option<Seq<BsonView>> {
    match v {
        Some(BsonView::Array(items)) => Some(items),
        _ => None,
    }
}

/// The texts that the items hold, if every item holds one.
pub open spec fn texts_in(items: Seq<BsonView>) -> Option<Seq<Seq<char>>> {
    if forall|i: int| 0 <= i < items.len() ==> (#[trigger] as_text(items[i])) is Some {
        Some(Seq::new(items.len(), |i: int| as_text(items[i])->0))
    } else {
        None
    }
}

/// The sizes that the items hold, if every item holds one.
pub open spec fn sizes_in(items: Seq<BsonView>) -> Option<Seq<usize>> {
    if forall|i: int| 0 <= i < items.len() ==> (#[trigger] as_size(items[i])) is Some {
        Some(Seq::new(items.len(), |i: int| as_size(items[i])->0))
    } else {
        None
    }
}

/// The runtime values of the items of the constant pool, if every item has
/// one.
pub open spec fn constants_in(items: Seq<BsonView>, table: Seq<(Seq<char>, Option<u64>)>) -> Option<
    Seq<Value>,
> {
    if forall|i: int| 0 <= i < items.len() ==> (#[trigger] constant_of(items[i], table)) is Some {
        Some(Seq::new(items.len(), |i: int| constant_of(items[i], table)->0))
    } else {
        None
    }
}

/// The descriptors that the documents of the functions stand for, if each
/// stands for one.
pub open spec fn functions_in(items: Seq<BsonView>, module: FuncModule) -> Option<Seq<Frame>> {
    if forall|i: int| 0 <= i < items.len() ==> (#[trigger] as_function(items[i], module)) is Some {
        Some(Seq::new(items.len(), |i: int| as_function(items[i], module)->0))
    } else {
        None
    }
}

/// The schemas that the documents of the records stand for, if each stands
/// for one.
pub open spec fn schemas_in(items: Seq<BsonView>) -> Option<Seq<RegistoView>> {
    if forall|i: int| 0 <= i < items.len() ==> (#[trigger] as_registo(items[i])) is Some {
        Some(Seq::new(items.len(), |i: int| as_registo(items[i])->0))
    } else {
        None
    }
}

/// The descriptor that a document of a function stands for: its name, the
/// address of its first instruction and the number of its local slots, taken
/// over as they are.
pub open spec fn as_function(v: BsonView, module: FuncModule) -> Option<Frame> {
    match v {
        BsonView::Doc(doc) => match (
            field_of(doc, "name"@),
            field_of(doc, "start_ip"@),
            field_of(doc, "locals"@),
        ) {
            (Some(BsonView::String(name)), Some(start), Some(locals)) => match (
                as_size(start),
                as_size(locals),
            ) {
                (Some(start_ip), Some(locals)) => Some(
                    Frame {
                        name,
                        start_ip,
                        ip: start_ip,
                        last_i: start_ip,
                        bp: -1isize,
                        locals,
                        module,
                    },
                ),
                _ => None,
            },
            _ => None,
        },
        _ => None,
    }
}

/// The schema that a document of a record stands for: its name and the
/// names of its fields.
pub open spec fn as_registo(v: BsonView) -> Option<RegistoView> {
    match v {
        BsonView::Doc(doc) => match (field_of(doc, "name"@), as_items(field_of(doc, "fields"@))) {
            (Some(BsonView::String(name)), Some(items)) => match texts_in(items) {
                Some(fields) => Some(RegistoView { name, fields }),
                None => None,
            },
            _ => None,
        },
        _ => None,
    }
}

/// The module that a document stands for, or nothing where a field is
/// missing or holds a value of another kind than it should.
///
/// `constants`, `names`, `ops`, `entry_locals`, `src_map` and `functions`
/// have to be there; `registos`, `name` and `builtin` may. The main function
/// is named `_inicio_`, starts at address zero and has `entry_locals` slots.
/// The globals are empty.
pub open spec fn module_of(
    doc: Seq<(Seq<char>, BsonView)>,
    table: Seq<(Seq<char>, Option<u64>)>,
    which: FuncModule,
) -> Option<ModuleState> {
    match (
        as_items(field_of(doc, "constants"@)),
        as_items(field_of(doc, "names"@)),
        field_of(doc, "ops"@),
        field_of(doc, "entry_locals"@),
        as_items(field_of(doc, "src_map"@)),
        as_items(field_of(doc, "functions"@)),
    ) {
        (
            Some(constants),
            Some(names),
            Some(BsonView::Bytes(code)),
            Some(entry_locals),
            Some(src_map),
            Some(functions),
        ) => match (
            constants_in(constants, table),
            texts_in(names),
            as_size(entry_locals),
            sizes_in(src_map),
            functions_in(functions, which),
            registos_in(doc),
            name_in(doc),
            builtin_in(doc),
        ) {
            (
                Some(constants),
                Some(names),
                Some(locals),
                Some(src_map),
                Some(functions),
                Some(registos),
                Some(name),
                Some(builtin),
            ) => Some(
                ModuleState {
                    name,
                    builtin,
                    constants,
                    names,
                    code,
                    main: Frame {
                        name: "_inicio_"@,
                        start_ip: 0,
                        ip: 0,
                        last_i: 0,
                        bp: -1isize,
                        locals,
                        module: which,
                    },
                    functions,
                    globals: Map::empty(),
                    registos,
                    src_map,
                },
            ),
            _ => None,
        },
        _ => None,
    }
}

/// The record schemas of a document: those of the array `registos`, and none
/// where the document has no such field.
pub open spec fn registos_in(doc: Seq<(Seq<char>, BsonView)>) -> Option<Seq<RegistoView>> {
    match field_of(doc, "registos"@) {
        None => Some(Seq::empty()),
        Some(BsonView::Array(items)) => schemas_in(items),
        Some(_) => None,
    }
}

/// The name of the module of a document: the string `name`, and the empty
/// name where the document has no such field.
pub open spec fn name_in(doc: Seq<(Seq<char>, BsonView)>) -> Option<Seq<char>> {
    match field_of(doc, "name"@) {
        None => Some(Seq::empty()),
        Some(BsonView::String(name)) => Some(name),
        Some(_) => None,
    }
}

/// Whether the module of a document is implemented by the host: whether
/// the integer `builtin` is other than zero, and not where the document has
/// no such field.
pub open spec fn builtin_in(doc: Seq<(Seq<char>, BsonView)>) -> Option<bool> {
    match field_of(doc, "builtin"@) {
        None => Some(false),
        Some(BsonView::Int(flag)) => Some(flag != 0),
        Some(_) => None,
    }
}

/// The documents of the imports of a document: the items of the array
/// `imports`, and none where the document has no such field.
pub open spec fn import_docs(doc: Seq<(Seq<char>, BsonView)>) -> Option<Seq<BsonView>> {
    match field_of(doc, "imports"@) {
        None => Some(Seq::empty()),
        Some(BsonView::Array(items)) => Some(items),
        Some(_) => None,
    }
}

/// The module that the document of an import stands for.
pub open spec fn import_of(v: BsonView, table: Seq<(Seq<char>, Option<u64>)>, index: int) -> Option<
    ModuleState,
> {
    match v {
        BsonView::Doc(doc) => if 0 <= index <= usize::MAX {
            module_of(doc, table, FuncModule::Imported(index as usize))
        } else {
            None
        },
        _ => None,
    }
}

/// The modules that the documents of the imports stand for, if each stands
/// for one.
pub open spec fn imports_of(items: Seq<BsonView>, table: Seq<(Seq<char>, Option<u64>)>) -> Option<
    Seq<ModuleState>,
> {
    if forall|i: int| 0 <= i < items.len() ==> (#[trigger] import_of(items[i], table, i)) is Some {
        Some(Seq::new(items.len(), |i: int| import_of(items[i], table, i)->0))
    } else {
        None
    }
}

/// The texts of the constants of a document that the host has to read
/// first.
pub open spec fn unread_of(doc: Seq<(Seq<char>, BsonView)>, table: Seq<(Seq<char>, Option<u64>)>) -> Seq<
    Seq<char>,
> {
    match field_of(doc, "constants"@) {
        Some(BsonView::Array(items)) => unread_in(items, table),
        _ => Seq::empty(),
    }
}

/// The texts of the constants of the documents of the imports that the host
/// has to read first, in the order of the imports.
pub open spec fn unread_of_imports(
    items: Seq<BsonView>,
    table: Seq<(Seq<char>, Option<u64>)>,
) -> Seq<Seq<char>>
    decreases items.len(),
{
    if items.len() == 0 {
        Seq::empty()
    } else {
        unread_of_imports(items.drop_last(), table) + (match items.last() {
            BsonView::Doc(doc) => unread_of(doc, table),
            _ => Seq::empty(),
        })
    }
}

/// What the loading of a container gives.
pub enum Loaded {
    /// The main module and the modules that it imports.
    Program(Module, Vec<Module>),
    /// Work that the host has to do first.
    Ask(Request),
    /// The bytes are no container, or the reply does not answer the request.
    Malformed,
}

/// The mathematical model of [`Loaded`].
pub enum LoadedView {
    Program(ModuleState, Seq<ModuleState>),
    Ask(RequestView),
    Malformed,
}

impl View for Loaded {
    type V = LoadedView;

    open spec fn view(&self) -> LoadedView {
        match self {
            Loaded::Program(main, imports) => LoadedView::Program(main@, modules_of(imports@)),
            Loaded::Ask(r) => LoadedView::Ask(r@),
            Loaded::Malformed => LoadedView::Malformed,
        }
    }
}

/// What the loading of a document gives.
pub open spec fn program_of(doc: Seq<(Seq<char>, BsonView)>, reply: ReplyView) -> LoadedView {
    let table = reply_reals(reply);
    match import_docs(doc) {
        None => LoadedView::Malformed,
        Some(items) => {
            let unread = unread_of(doc, table) + unread_of_imports(items, table);
            if unread.len() > 0 {
                if reply is Nothing {
                    LoadedView::Ask(RequestView::ParseReals(unread))
                } else {
                    LoadedView::Malformed
                }
            } else {
                match (module_of(doc, table, FuncModule::Main), imports_of(items, table)) {
                    (Some(main), Some(imports)) => LoadedView::Program(main, imports),
                    _ => LoadedView::Malformed,
                }
            }
        },
    }
}

/// What the loading of a container gives: the bytes after the size prefix
/// are read as a document, and the document as a program.
pub open spec fn load_spec(bytes: Seq<u8>, reply: ReplyView) -> LoadedView {
    if bytes.len() < 4 {
        LoadedView::Malformed
    } else {
        match parse_elements(bytes.subrange(4, bytes.len() as int), 0, true) {
            None => LoadedView::Malformed,
            Some((doc, _)) => program_of(doc, reply),
        }
    }
}


/// The size that a value holds.
pub fn to_size(v: &BSONType) -> (r: Option<usize>)
    ensures
        r == as_size(v@),
{
    match v {
        BSONType::Int(i) => {
            if *i >= 0 && *i as u64 <= usize::MAX as u64 {
                Some(*i as usize)
            } else {
                None
            }
        },
        _ => None,
    }
}

/// The items of the array under a key.
fn get_items<'a>(doc: &'a Vec<(String, BSONType)>, key: &str) -> (r: Option<&'a Vec<BSONType>>)
    ensures
        match as_items(field_of(fields_of(doc@), key@)) {
            Some(items) => r is Some && bsons_of(r->0@) == items,
            None => r is None,
        },
{
    match get_field(doc, key) {
        Some(BSONType::Array(items)) => {
            proof {
                crate::bson::lemma_array_view(*items);
            }
            Some(items)
        },
        _ => None,
    }
}

/// The text under a key.
fn get_text<'a>(doc: &'a Vec<(String, BSONType)>, key: &str) -> (r: Option<&'a String>)
    ensures
        match field_of(fields_of(doc@), key@) {
            Some(BsonView::String(s)) => r is Some && r->0@ == s,
            _ => r is None,
        },
{
    match get_field(doc, key) {
        Some(BSONType::String(s)) => Some(s),
        _ => None,
    }
}

/// The texts that the items hold.
fn load_texts(items: &Vec<BSONType>) -> (r: Option<Vec<String>>)
    ensures
        match texts_in(bsons_of(items@)) {
            Some(texts) => r is Some && texts_of(r->0@) == texts,
            None => r is None,
        },
{
    let ghost all = bsons_of(items@);
    let mut out: Vec<String> = Vec::new();
    let mut i: usize = 0;
    while i < items.len()
        invariant
            i <= items.len(),
            all == bsons_of(items@),
            out@.len() == i,
            forall|k: int| 0 <= k < i ==> #[trigger] as_text(all[k]) == Some(out@[k]@),
        decreases items.len() - i,
    {
        match &items[i] {
            BSONType::String(s) => {
                out.push(s.clone());
            },
            _ => {
                assert(as_text(all[i as int]) is None);
                return None;
            },
        }
        i += 1;
    }
    assert(texts_of(out@) =~= texts_in(all)->0);
    Some(out)
}

/// The sizes that the items hold.
fn load_sizes(items: &Vec<BSONType>) -> (r: Option<Vec<usize>>)
    ensures
        match sizes_in(bsons_of(items@)) {
            Some(sizes) => r is Some && r->0@ == sizes,
            None => r is None,
        },
{
    let ghost all = bsons_of(items@);
    let mut out: Vec<usize> = Vec::new();
    let mut i: usize = 0;
    while i < items.len()
        invariant
            i <= items.len(),
            all == bsons_of(items@),
            out@.len() == i,
            forall|k: int| 0 <= k < i ==> #[trigger] as_size(all[k]) == Some(out@[k]),
        decreases items.len() - i,
    {
        match to_size(&items[i]) {
            Some(size) => {
                out.push(size);
            },
            None => {
                assert(as_size(all[i as int]) is None);
                return None;
            },
        }
        i += 1;
    }
    assert(out@ =~= sizes_in(all)->0);
    Some(out)
}

/// The descriptor that a document of a function stands for.
pub fn doc_into_amafn(doc: &BSONType, module: FuncModule) -> (r: Option<AmaFunc>)
    ensures
        match as_function(doc@, module) {
            Some(f) => r is Some && r->0@ == f,
            None => r is None,
        },
{
    match doc {
        BSONType::Doc(func) => {
            proof {
                crate::bson::lemma_doc_view(*func);
            }
            let name = match get_text(func, "name") {
                Some(name) => name,
                None => {
                    return None;
                },
            };
            let start = match get_field(func, "start_ip") {
                Some(v) => v,
                None => {
                    return None;
                },
            };
            let locals = match get_field(func, "locals") {
                Some(v) => v,
                None => {
                    return None;
                },
            };
            match (to_size(start), to_size(locals)) {
                (Some(start_ip), Some(locals)) => Some(
                    AmaFunc::new(name.clone(), start_ip, locals, module),
                ),
                _ => None,
            }
        },
        _ => None,
    }
}

/// The descriptors that the documents of the functions stand for.
fn load_functions(items: &Vec<BSONType>, module: FuncModule) -> (r: Option<Vec<AmaFunc>>)
    ensures
        match functions_in(bsons_of(items@), module) {
            Some(functions) => r is Some && frames_of(r->0@) == functions,
            None => r is None,
        },
{
    let ghost all = bsons_of(items@);
    let mut out: Vec<AmaFunc> = Vec::new();
    let mut i: usize = 0;
    while i < items.len()
        invariant
            i <= items.len(),
            all == bsons_of(items@),
            out@.len() == i,
            forall|k: int| 0 <= k < i ==> #[trigger] as_function(all[k], module) == Some(out@[k]@),
        decreases items.len() - i,
    {
        match doc_into_amafn(&items[i], module) {
            Some(f) => {
                out.push(f);
            },
            None => {
                assert(as_function(all[i as int], module) is None);
                return None;
            },
        }
        i += 1;
    }
    assert(frames_of(out@) =~= functions_in(all, module)->0);
    Some(out)
}

/// The schema that a document of a record stands for.
fn load_registo(doc: &BSONType) -> (r: Option<Registo>)
    ensures
        match as_registo(doc@) {
            Some(schema) => r is Some && r->0@ == schema,
            None => r is None,
        },
{
    match doc {
        BSONType::Doc(fields) => {
            proof {
                crate::bson::lemma_doc_view(*fields);
            }
            let name = match get_text(fields, "name") {
                Some(name) => name,
                None => {
                    return None;
                },
            };
            let items = match get_items(fields, "fields") {
                Some(items) => items,
                None => {
                    return None;
                },
            };
            match load_texts(items) {
                Some(names) => Some(Registo { name: name.clone(), fields: names }),
                None => None,
            }
        },
        _ => None,
    }
}

/// The schemas that the documents of the records stand for.
fn load_registos(items: &Vec<BSONType>) -> (r: Option<Vec<Registo>>)
    ensures
        match schemas_in(bsons_of(items@)) {
            Some(schemas) => r is Some && registos_of(r->0@) == schemas,
            None => r is None,
        },
{
    let ghost all = bsons_of(items@);
    let mut out: Vec<Registo> = Vec::new();
    let mut i: usize = 0;
    while i < items.len()
        invariant
            i <= items.len(),
            all == bsons_of(items@),
            out@.len() == i,
            forall|k: int| 0 <= k < i ==> #[trigger] as_registo(all[k]) == Some(out@[k]@),
        decreases items.len() - i,
    {
        match load_registo(&items[i]) {
            Some(schema) => {
                out.push(schema);
            },
            None => {
                assert(as_registo(all[i as int]) is None);
                return None;
            },
        }
        i += 1;
    }
    assert(registos_of(out@) =~= schemas_in(all)->0);
    Some(out)
}

/// The runtime value of a value of the constant pool.
fn load_constant(v: &BSONType, table: &Vec<ParsedReal>) -> (r: Option<AmaValue>)
    ensures
        match constant_of(v@, parsed_reals_of(table@)) {
            Some(value) => r is Some && r->0@ == value,
            None => r is None,
        },
{
    let parsed: Option<u64> = match v {
        BSONType::String(s) => match find_parsed(table, s.as_str()) {
            Some(parsed) => parsed,
            None => None,
        },
        _ => None,
    };
    match Const::from(v, parsed) {
        Ok(c) => Some(consume_const(c)),
        Err(_) => None,
    }
}

/// The runtime values of the items of the constant pool.
fn load_constants(items: &Vec<BSONType>, table: &Vec<ParsedReal>) -> (r: Option<Vec<AmaValue>>)
    ensures
        match constants_in(bsons_of(items@), parsed_reals_of(table@)) {
            Some(constants) => r is Some && values_of(r->0@) == constants,
            None => r is None,
        },
{
    let ghost all = bsons_of(items@);
    let ghost tab = parsed_reals_of(table@);
    let mut out: Vec<AmaValue> = Vec::new();
    let mut i: usize = 0;
    while i < items.len()
        invariant
            i <= items.len(),
            all == bsons_of(items@),
            tab == parsed_reals_of(table@),
            out@.len() == i,
            forall|k: int| 0 <= k < i ==> #[trigger] constant_of(all[k], tab) == Some(out@[k]@),
        decreases items.len() - i,
    {
        match load_constant(&items[i], table) {
            Some(value) => {
                out.push(value);
            },
            None => {
                assert(constant_of(all[i as int], tab) is None);
                return None;
            },
        }
        i += 1;
    }
    assert(values_of(out@) =~= constants_in(all, tab)->0);
    Some(out)
}

/// Appends the texts of the constants of a document that the host has to
/// read first.
fn collect_unread(doc: &Vec<(String, BSONType)>, table: &Vec<ParsedReal>, out: &mut Vec<String>)
    ensures
        texts_of(final(out)@) == texts_of(old(out)@) + unread_of(
            fields_of(doc@),
            parsed_reals_of(table@),
        ),
{
    let ghost tab = parsed_reals_of(table@);
    match get_items(doc, "constants") {
        None => {
            assert(texts_of(out@) =~= texts_of(old(out)@) + Seq::<Seq<char>>::empty());
        },
        Some(items) => {
            let ghost all = bsons_of(items@);
            let mut i: usize = 0;
            proof {
                assert(all.take(0) =~= Seq::<BsonView>::empty());
                assert(texts_of(out@) =~= texts_of(old(out)@) + unread_in(all.take(0), tab));
            }
            while i < items.len()
                invariant
                    i <= items.len(),
                    all == bsons_of(items@),
                    tab == parsed_reals_of(table@),
                    texts_of(out@) == texts_of(old(out)@) + unread_in(all.take(i as int), tab),
                decreases items.len() - i,
            {
                let ghost before = texts_of(out@);
                proof {
                    assert(all.take(i + 1).drop_last() =~= all.take(i as int));
                    assert(all.take(i + 1).last() == items@[i as int]@);
                }
                match &items[i] {
                    BSONType::String(s) => {
                        let bare: bool = match classify(s.as_str()) {
                            TextKind::Bare => true,
                            _ => false,
                        };
                        if bare && find_parsed(table, s.as_str()).is_none() {
                            out.push(s.clone());
                            assert(texts_of(out@) =~= before.push(s@));
                            assert(before.push(s@) =~= texts_of(old(out)@) + unread_in(
                                all.take(i + 1),
                                tab,
                            ));
                        }
                    },
                    _ => {},
                }
                i += 1;
            }
            assert(all.take(items.len() as int) =~= all);
        },
    }
}

/// The module that a document stands for.
pub fn build_module(doc: &Vec<(String, BSONType)>, table: &Vec<ParsedReal>, which: FuncModule) -> (r:
    Option<Module>)
    ensures
        match module_of(fields_of(doc@), parsed_reals_of(table@), which) {
            Some(m) => r is Some && r->0@ == m,
            None => r is None,
        },
{
    let constants = match get_items(doc, "constants") {
        Some(items) => items,
        None => {
            return None;
        },
    };
    let names = match get_items(doc, "names") {
        Some(items) => items,
        None => {
            return None;
        },
    };
    let code: &Vec<u8> = match get_field(doc, "ops") {
        Some(BSONType::Bytes(code)) => code,
        _ => {
            return None;
        },
    };
    let entry_locals = match get_field(doc, "entry_locals") {
        Some(v) => v,
        None => {
            return None;
        },
    };
    let src_map = match get_items(doc, "src_map") {
        Some(items) => items,
        None => {
            return None;
        },
    };
    let functions = match get_items(doc, "functions") {
        Some(items) => items,
        None => {
            return None;
        },
    };
    let constants = load_constants(constants, table);
    let names = load_texts(names);
    let locals = to_size(entry_locals);
    let src_map = load_sizes(src_map);
    let functions = load_functions(functions, which);
    let registos: Option<Vec<Registo>> = match get_field(doc, "registos") {
        None => {
            let none: Vec<Registo> = Vec::new();
            assert(registos_of(none@) =~= Seq::<RegistoView>::empty());
            Some(none)
        },
        Some(BSONType::Array(items)) => {
            proof {
                crate::bson::lemma_array_view(*items);
            }
            load_registos(items)
        },
        Some(_) => None,
    };
    let name: Option<String> = match get_field(doc, "name") {
        None => Some(String::new()),
        Some(BSONType::String(name)) => Some(name.clone()),
        Some(_) => None,
    };
    let builtin: Option<bool> = match get_field(doc, "builtin") {
        None => Some(false),
        Some(BSONType::Int(flag)) => Some(*flag != 0),
        Some(_) => None,
    };
    match (constants, names, locals, src_map, functions, registos, name, builtin) {
        (
            Some(constants),
            Some(names),
            Some(locals),
            Some(src_map),
            Some(functions),
            Some(registos),
            Some(name),
            Some(builtin),
        ) => Some(
            Module {
                name,
                builtin,
                constants,
                names,
                code: code.clone(),
                main: AmaFunc::new(String::from_str("_inicio_"), 0, locals, which),
                functions,
                globals: tabela_new(),
                registos,
                src_map,
            },
        ),
        _ => None,
    }
}

/// The modules that the documents of the imports stand for.
fn load_imports(items: &Vec<BSONType>, table: &Vec<ParsedReal>) -> (r: Option<Vec<Module>>)
    ensures
        match imports_of(bsons_of(items@), parsed_reals_of(table@)) {
            Some(imports) => r is Some && modules_of(r->0@) == imports,
            None => r is None,
        },
{
    let ghost all = bsons_of(items@);
    let ghost tab = parsed_reals_of(table@);
    let mut out: Vec<Module> = Vec::new();
    let mut i: usize = 0;
    while i < items.len()
        invariant
            i <= items.len(),
            all == bsons_of(items@),
            tab == parsed_reals_of(table@),
            out@.len() == i,
            forall|k: int| 0 <= k < i ==> #[trigger] import_of(all[k], tab, k) == Some(out@[k]@),
        decreases items.len() - i,
    {
        let loaded: Option<Module> = match &items[i] {
            BSONType::Doc(doc) => {
                proof {
                    crate::bson::lemma_doc_view(*doc);
                }
                build_module(doc, table, FuncModule::Imported(i))
            },
            _ => None,
        };
        match loaded {
            Some(m) => {
                out.push(m);
            },
            None => {
                assert(import_of(all[i as int], tab, i as int) is None);
                return None;
            },
        }
        i += 1;
    }
    assert(modules_of(out@) =~= imports_of(all, tab)->0);
    Some(out)
}

/// Appends the texts of the constants of the documents of the imports that
/// the host has to read first.
fn collect_unread_imports(items: &Vec<BSONType>, table: &Vec<ParsedReal>, out: &mut Vec<String>)
    ensures
        texts_of(final(out)@) == texts_of(old(out)@) + unread_of_imports(
            bsons_of(items@),
            parsed_reals_of(table@),
        ),
{
    let ghost all = bsons_of(items@);
    let ghost tab = parsed_reals_of(table@);
    let mut i: usize = 0;
    proof {
        assert(all.take(0) =~= Seq::<BsonView>::empty());
        assert(texts_of(out@) =~= texts_of(old(out)@) + unread_of_imports(all.take(0), tab));
    }
    while i < items.len()
        invariant
            i <= items.len(),
            all == bsons_of(items@),
            tab == parsed_reals_of(table@),
            texts_of(out@) == texts_of(old(out)@) + unread_of_imports(all.take(i as int), tab),
        decreases items.len() - i,
    {
        let ghost before = texts_of(out@);
        proof {
            assert(all.take(i + 1).drop_last() =~= all.take(i as int));
            assert(all.take(i + 1).last() == items@[i as int]@);
        }
        match &items[i] {
            BSONType::Doc(doc) => {
                proof {
                    crate::bson::lemma_doc_view(*doc);
                }
                collect_unread(doc, table, out);
                assert(texts_of(out@) =~= texts_of(old(out)@) + unread_of_imports(
                    all.take(i + 1),
                    tab,
                ));
            },
            _ => {
                assert(texts_of(out@) =~= texts_of(old(out)@) + unread_of_imports(
                    all.take(i + 1),
                    tab,
                ));
            },
        }
        i += 1;
    }
    assert(all.take(items.len() as int) =~= all);
}

/// Loads a document as a program.
pub fn load_doc(doc: &Vec<(String, BSONType)>, reply: &Reply) -> (r: Loaded)
    ensures
        r@ == program_of(fields_of(doc@), reply@),
{
    let none: Vec<ParsedReal> = Vec::new();
    let table: &Vec<ParsedReal> = match reply {
        Reply::Reals(table) => table,
        _ => {
            assert(parsed_reals_of(none@) =~= reply_reals(reply@));
            &none
        },
    };
    let no_imports: Vec<BSONType> = Vec::new();
    let items: &Vec<BSONType> = match get_field(doc, "imports") {
        None => {
            assert(bsons_of(no_imports@) =~= Seq::<BsonView>::empty());
            &no_imports
        },
        Some(BSONType::Array(items)) => {
            proof {
                crate::bson::lemma_array_view(*items);
            }
            items
        },
        Some(_) => {
            return Loaded::Malformed;
        },
    };
    let mut unread: Vec<String> = Vec::new();
    assert(texts_of(unread@) =~= Seq::<Seq<char>>::empty());
    collect_unread(doc, table, &mut unread);
    collect_unread_imports(items, table, &mut unread);
    proof {
        let tab = parsed_reals_of(table@);
        assert(texts_of(unread@) =~= unread_of(fields_of(doc@), tab) + unread_of_imports(
            bsons_of(items@),
            tab,
        ));
    }
    if unread.len() > 0 {
        return match reply {
            Reply::Nothing => Loaded::Ask(Request::ParseReals(unread)),
            _ => Loaded::Malformed,
        };
    }
    match (build_module(doc, table, FuncModule::Main), load_imports(items, table)) {
        (Some(main), Some(imports)) => Loaded::Program(main, imports),
        _ => Loaded::Malformed,
    }
}

/// Loads a container: skips the size prefix, reads the document and loads it
/// as a program. `reply` is the host's answer to the request of the call
/// before, and `Reply::Nothing` where there was none.
pub fn load_bin(amac_bin: &[u8], reply: &Reply) -> (r: Loaded)
    ensures
        r@ == load_spec(amac_bin@, reply@),
{
    let len: usize = amac_bin.len();
    if len < 4 {
        return Loaded::Malformed;
    }
    let body = slice_subrange(amac_bin, 4, len);
    match unpack_bson_doc(body) {
        None => Loaded::Malformed,
        Some(doc) => load_doc(&doc, reply),
    }
}

} // verus!
