//! A reader for the documents of the binary container.
//!
//! A document is a run of elements closed by a zero byte. An element is a
//! type byte, a key that a zero byte closes, and a value. Six types of value
//! are read: doubles, strings, embedded documents, arrays, binary data and
//! 64-bit integers. Numbers are little-endian.
use vstd::prelude::*;
use vstd::utf8::{decode_utf8, valid_utf8};
use crate::text::{push_char, string_from_utf8};

verus! {

broadcast use vstd::std_specs::vec::group_vec_axioms;

/// A value of a document.
#[derive(Debug)]
pub enum BSONType {
    String(String),
    Int(i64),
    /// A double, as the 64 bits of its IEEE 754 binary64 form.
    Double(u64),
    Array(Vec<BSONType>),
    Bytes(Vec<u8>),
    /// The elements of an embedded document, in the order of the bytes.
    Doc(Vec<(String, BSONType)>),
}

/// The mathematical model of a value of a document.
pub enum BsonView {
    String(Seq<char>),
    Int(i64),
    Double(u64),
    Array(Seq<BsonView>),
    Bytes(Seq<u8>),
    Doc(Seq<(Seq<char>, BsonView)>),
}

/// The model of a value.
pub open spec fn bson_view(value: BSONType) -> BsonView
    decreases value,
{
    match value {
        BSONType::String(s) => BsonView::String(s@),
        BSONType::Int(i) => BsonView::Int(i),
        BSONType::Double(bits) => BsonView::Double(bits),
        BSONType::Array(items) => BsonView::Array(
            Seq::new(
                items@.len(),
                |i: int|
                    if 0 <= i < items@.len() {
                        bson_view(items@[i])
                    } else {
                        BsonView::Int(0)
                    },
            ),
        ),
        BSONType::Bytes(bytes) => BsonView::Bytes(bytes@),
        BSONType::Doc(fields) => BsonView::Doc(
            Seq::new(
                fields@.len(),
                |i: int|
                    if 0 <= i < fields@.len() {
                        (fields@[i].0@, bson_view(fields@[i].1))
                    } else {
                        (Seq::empty(), BsonView::Int(0))
                    },
            ),
        ),
    }
}

impl View for BSONType {
    type V = BsonView;

    open spec fn view(&self) -> BsonView {
        bson_view(*self)
    }
}

/// Reads `N` bytes at a position.
pub fn read_bytes<const N: usize>(raw: &[u8], pos: usize) -> (r: Option<[u8; N]>)
    ensures
        r is Some <==> pos + N <= raw@.len(),
        r matches Some(buf) ==> buf@ == raw@.subrange(pos as int, pos + N),
{
    if pos > raw.len() || N > raw.len() - pos {
        return None;
    }
    let mut buf: [u8; N] = [0u8; N];
    let mut i: usize = 0;
    while i < N
        invariant
            i <= N,
            pos + N <= raw@.len() <= usize::MAX,
            forall|k: int| 0 <= k < i ==> buf@[k] == raw@[pos + k],
        decreases N - i,
    {
        buf[i] = raw[pos + i];
        i += 1;
    }
    assert(buf@ =~= raw@.subrange(pos as int, pos + N));
    Some(buf)
}


/// The models of a sequence of values.
pub open spec fn bsons_of(items: Seq<BSONType>) -> Seq<BsonView> {
    Seq::new(items.len(), |i: int| items[i]@)
}

/// The models of a sequence of elements.
pub open spec fn fields_of(fields: Seq<(String, BSONType)>) -> Seq<(Seq<char>, BsonView)> {
    Seq::new(fields.len(), |i: int| (fields[i].0@, fields[i].1@))
}

/// The model of a document is the models of its elements.
pub proof fn lemma_doc_view(fields: Vec<(String, BSONType)>)
    ensures
        BSONType::Doc(fields)@ == BsonView::Doc(fields_of(fields@)),
{
    let v = BSONType::Doc(fields);
    assert(v@ is Doc);
    assert(v@->Doc_0.len() == fields@.len());
    assert(v@->Doc_0 =~= fields_of(fields@));
}

/// The model of an array is the models of its items.
pub proof fn lemma_array_view(items: Vec<BSONType>)
    ensures
        BSONType::Array(items)@ == BsonView::Array(bsons_of(items@)),
{
    let v = BSONType::Array(items);
    assert(v@ is Array);
    assert(v@->Array_0.len() == items@.len());
    assert(v@->Array_0 =~= bsons_of(items@));
}

/// The unsigned number that four bytes write, the lowest byte first.
pub open spec fn le_u32(b: Seq<u8>) -> int
    recommends
        b.len() == 4,
{
    b[0] as int + b[1] as int * 0x100 + b[2] as int * 0x1_0000 + b[3] as int * 0x100_0000
}

/// The signed number that four bytes write in two's complement, the lowest
/// byte first.
pub open spec fn le_i32(b: Seq<u8>) -> int
    recommends
        b.len() == 4,
{
    if le_u32(b) >= 0x8000_0000 {
        le_u32(b) - 0x1_0000_0000
    } else {
        le_u32(b)
    }
}

/// The unsigned number that eight bytes write, the lowest byte first.
pub open spec fn le_u64(b: Seq<u8>) -> int
    recommends
        b.len() == 8,
{
    b[0] as int + b[1] as int * 0x100 + b[2] as int * 0x1_0000 + b[3] as int * 0x100_0000 + b[4] as int
        * 0x1_0000_0000 + b[5] as int * 0x100_0000_0000 + b[6] as int * 0x1_0000_0000_0000
        + b[7] as int * 0x100_0000_0000_0000
}

/// The signed number that eight bytes write in two's complement, the lowest
/// byte first.
pub open spec fn le_i64(b: Seq<u8>) -> int
    recommends
        b.len() == 8,
{
    if le_u64(b) >= 0x8000_0000_0000_0000 {
        le_u64(b) - 0x1_0000_0000_0000_0000
    } else {
        le_u64(b)
    }
}

/// The signed number that four bytes write, the lowest byte first.
pub fn i32_from_le(buf: [u8; 4]) -> (r: i32)
    ensures
        r == le_i32(buf@),
{
    let u: u32 = buf[0] as u32 + buf[1] as u32 * 0x100 + buf[2] as u32 * 0x1_0000 + buf[3] as u32
        * 0x100_0000;
    if u >= 0x8000_0000 {
        let low: u32 = u - 0x8000_0000;
        low as i32 + i32::MIN
    } else {
        u as i32
    }
}

/// The unsigned number that eight bytes write, the lowest byte first.
pub fn u64_from_le(buf: [u8; 8]) -> (r: u64)
    ensures
        r == le_u64(buf@),
{
    buf[0] as u64 + buf[1] as u64 * 0x100 + buf[2] as u64 * 0x1_0000 + buf[3] as u64 * 0x100_0000
        + buf[4] as u64 * 0x1_0000_0000 + buf[5] as u64 * 0x100_0000_0000 + buf[6] as u64
        * 0x1_0000_0000_0000 + buf[7] as u64 * 0x100_0000_0000_0000
}

/// The signed number that eight bytes write, the lowest byte first.
pub fn i64_from_le(buf: [u8; 8]) -> (r: i64)
    ensures
        r == le_i64(buf@),
{
    let u: u64 = u64_from_le(buf);
    if u >= 0x8000_0000_0000_0000 {
        let low: u64 = u - 0x8000_0000_0000_0000;
        low as i64 + i64::MIN
    } else {
        u as i64
    }
}

/// The position of the first zero byte at or after a position.
pub open spec fn key_end(bytes: Seq<u8>, pos: int) -> Option<int>
    decreases bytes.len() - pos,
{
    if pos < 0 || pos >= bytes.len() {
        None
    } else if bytes[pos] == 0 {
        Some(pos)
    } else {
        key_end(bytes, pos + 1)
    }
}

/// The characters of a key: each byte is the code of one character.
pub open spec fn key_chars(bytes: Seq<u8>) -> Seq<char> {
    Seq::new(bytes.len(), |i: int| bytes[i] as char)
}

/// The key at a position and the position after the zero byte that closes
/// it; nothing where no zero byte follows.
pub open spec fn parse_key(bytes: Seq<u8>, pos: int) -> Option<(Seq<char>, int)> {
    match key_end(bytes, pos) {
        Some(end) => Some((key_chars(bytes.subrange(pos, end)), end + 1)),
        None => None,
    }
}

/// The value of the given type at a position and the position after it;
/// nothing where the bytes end too early, a size is negative, a string is
/// not UTF-8 or the type is not one of the six that are read.
///
/// A double and a 64-bit integer are eight bytes. A string is its size in
/// four bytes, as many bytes of UTF-8, and one closing byte. An embedded
/// document and an array are four bytes of size, which are not looked at,
/// and elements up to a zero byte; an array keeps the values of its elements
/// and drops their keys. Binary data is its size in four bytes, one byte of
/// subtype, which is not looked at, and as many bytes of data.
pub open spec fn parse_value(bytes: Seq<u8>, pos: int, value_type: u8) -> Option<(BsonView, int)>
    decreases bytes.len() - pos, 1nat,
{
    let len = bytes.len() as int;
    if pos < 0 || pos > len {
        None
    } else if value_type == 0x01 {
        if pos + 8 <= len {
            Some((BsonView::Double(le_u64(bytes.subrange(pos, pos + 8)) as u64), pos + 8))
        } else {
            None
        }
    } else if value_type == 0x12 {
        if pos + 8 <= len {
            Some((BsonView::Int(le_i64(bytes.subrange(pos, pos + 8)) as i64), pos + 8))
        } else {
            None
        }
    } else if value_type == 0x02 {
        if pos + 4 <= len {
            let size = le_i32(bytes.subrange(pos, pos + 4));
            if size >= 0 && pos + 4 + size + 1 <= len && valid_utf8(
                bytes.subrange(pos + 4, pos + 4 + size),
            ) {
                Some(
                    (
                        BsonView::String(decode_utf8(bytes.subrange(pos + 4, pos + 4 + size))),
                        pos + 4 + size + 1,
                    ),
                )
            } else {
                None
            }
        } else {
            None
        }
    } else if value_type == 0x05 {
        if pos + 5 <= len {
            let size = le_i32(bytes.subrange(pos, pos + 4));
            if size >= 0 && pos + 5 + size <= len {
                Some((BsonView::Bytes(bytes.subrange(pos + 5, pos + 5 + size)), pos + 5 + size))
            } else {
                None
            }
        } else {
            None
        }
    } else if value_type == 0x03 || value_type == 0x04 {
        if pos + 4 <= len {
            match parse_elements(bytes, pos + 4, false) {
                Some((fields, end)) => if value_type == 0x03 {
                    Some((BsonView::Doc(fields), end))
                } else {
                    Some((BsonView::Array(Seq::new(fields.len(), |i: int| fields[i].1)), end))
                },
                None => None,
            }
        } else {
            None
        }
    } else {
        None
    }
}

/// The elements from a position up to the zero byte that closes them, and
/// the position after that byte; nothing where an element cannot be read.
/// Where `top` is set, the end of the bytes closes the elements too.
///
/// (An element always ends after the position at which it starts; the
/// definition asks for it so that it is plain that it terminates.)
pub open spec fn parse_elements(bytes: Seq<u8>, pos: int, top: bool) -> Option<
    (Seq<(Seq<char>, BsonView)>, int),
>
    decreases bytes.len() - pos, 0nat,
{
    if pos < 0 || pos > bytes.len() {
        None
    } else if pos == bytes.len() {
        if top {
            Some((Seq::empty(), pos))
        } else {
            None
        }
    } else if bytes[pos] == 0 {
        Some((Seq::empty(), pos + 1))
    } else {
        match parse_key(bytes, pos + 1) {
            None => None,
            Some((key, after_key)) => if after_key <= pos || after_key > bytes.len() {
                None
            } else {
                match parse_value(bytes, after_key, bytes[pos]) {
                    None => None,
                    Some((value, after)) => if after <= pos || after > bytes.len() {
                        None
                    } else {
                        match parse_elements(bytes, after, top) {
                            None => None,
                            Some((rest, end)) => Some((seq![(key, value)] + rest, end)),
                        }
                    },
                }
            },
        }
    }
}

/// The end of a key lies at or after the position at which the key starts,
/// within the bytes.
pub proof fn lemma_key_end(bytes: Seq<u8>, pos: int)
    ensures
        key_end(bytes, pos) matches Some(end) ==> pos <= end < bytes.len() && bytes[end] == 0 && (
        forall|i: int| pos <= i < end ==> bytes[i] != 0),
    decreases bytes.len() - pos,
{
    if pos >= 0 && pos < bytes.len() && bytes[pos] != 0 {
        lemma_key_end(bytes, pos + 1);
    }
}

/// A value ends after the position at which it starts, within the bytes.
pub proof fn lemma_value_advances(bytes: Seq<u8>, pos: int, value_type: u8)
    ensures
        parse_value(bytes, pos, value_type) matches Some((_, end)) ==> pos < end <= bytes.len(),
    decreases bytes.len() - pos, 1nat,
{
    if 0 <= pos && pos + 4 <= bytes.len() && (value_type == 0x03 || value_type == 0x04) {
        lemma_elements_advance(bytes, pos + 4, false);
    }
}

/// Elements end at or after the position at which they start, within the
/// bytes.
pub proof fn lemma_elements_advance(bytes: Seq<u8>, pos: int, top: bool)
    ensures
        parse_elements(bytes, pos, top) matches Some((_, end)) ==> pos <= end <= bytes.len(),
    decreases bytes.len() - pos, 0nat,
{
    if 0 <= pos && pos < bytes.len() && bytes[pos] != 0 {
        match parse_key(bytes, pos + 1) {
            None => {},
            Some((key, after_key)) => {
                lemma_key_end(bytes, pos + 1);
                match parse_value(bytes, after_key, bytes[pos]) {
                    None => {},
                    Some((value, after)) => {
                        lemma_value_advances(bytes, after_key, bytes[pos]);
                        lemma_elements_advance(bytes, after, top);
                    },
                }
            },
        }
    }
}

/// Reads the key at a position: the bytes up to the next zero byte, each
/// as one character. Returns the key and the position after the zero byte.
pub fn read_bson_key(raw_doc: &[u8], pos: usize) -> (r: Option<(String, usize)>)
    ensures
        match parse_key(raw_doc@, pos as int) {
            Some((key, end)) => r matches Some(pair) && pair.0@ == key && pair.1 == end,
            None => r is None,
        },
{
    let len: usize = raw_doc.len();
    if pos > len {
        return None;
    }
    let mut key = String::new();
    let mut i: usize = pos;
    proof {
        assert(key@ =~= key_chars(raw_doc@.subrange(pos as int, i as int)));
    }
    while i < raw_doc.len()
        invariant
            pos <= i <= raw_doc@.len() <= usize::MAX,
            key_end(raw_doc@, pos as int) == key_end(raw_doc@, i as int),
            key@ == key_chars(raw_doc@.subrange(pos as int, i as int)),
        decreases raw_doc.len() - i,
    {
        let b: u8 = raw_doc[i];
        if b == 0 {
            return Some((key, i + 1));
        }
        push_char(&mut key, b as char);
        proof {
            assert(key@ =~= key_chars(raw_doc@.subrange(pos as int, i + 1)));
        }
        i += 1;
    }
    None
}

/// Copies the bytes from `start` up to `end`.
fn copy_bytes(raw: &[u8], start: usize, end: usize) -> (r: Vec<u8>)
    requires
        start <= end <= raw@.len(),
    ensures
        r@ == raw@.subrange(start as int, end as int),
{
    let mut r: Vec<u8> = Vec::new();
    let mut i: usize = start;
    while i < end
        invariant
            start <= i <= end <= raw@.len(),
            r@ == raw@.subrange(start as int, i as int),
        decreases end - i,
    {
        r.push(raw[i]);
        assert(r@ =~= raw@.subrange(start as int, i + 1));
        i += 1;
    }
    r
}

/// Reads the value of the given type at a position. Returns the value and
/// the position after it.
pub fn unpack_bson_value(raw_doc: &[u8], pos: usize, value_type: u8) -> (r: Option<
    (BSONType, usize),
>)
    ensures
        match parse_value(raw_doc@, pos as int, value_type) {
            Some((value, end)) => r matches Some(pair) && pair.0@ == value && pair.1 == end,
            None => r is None,
        },
    decreases raw_doc@.len() - pos, 1nat,
{
    let len: usize = raw_doc.len();
    if pos > len {
        return None;
    }
    if value_type == 0x01 {
        match read_bytes::<8>(raw_doc, pos) {
            Some(buf) => Some((BSONType::Double(u64_from_le(buf)), pos + 8)),
            None => None,
        }
    } else if value_type == 0x12 {
        match read_bytes::<8>(raw_doc, pos) {
            Some(buf) => Some((BSONType::Int(i64_from_le(buf)), pos + 8)),
            None => None,
        }
    } else if value_type == 0x02 {
        match read_bytes::<4>(raw_doc, pos) {
            None => None,
            Some(buf) => {
                let size: i32 = i32_from_le(buf);
                if size < 0 {
                    return None;
                }
                let size: usize = size as usize;
                let rest: usize = len - pos - 4;
                if rest < 1 || size > rest - 1 {
                    return None;
                }
                let bytes = copy_bytes(raw_doc, pos + 4, pos + 4 + size);
                match string_from_utf8(bytes) {
                    Some(text) => Some((BSONType::String(text), pos + 4 + size + 1)),
                    None => None,
                }
            },
        }
    } else if value_type == 0x05 {
        match read_bytes::<4>(raw_doc, pos) {
            None => None,
            Some(buf) => {
                let size: i32 = i32_from_le(buf);
                if size < 0 {
                    return None;
                }
                let size: usize = size as usize;
                let rest: usize = len - pos - 4;
                if rest < 1 || size > rest - 1 {
                    return None;
                }
                let bytes = copy_bytes(raw_doc, pos + 5, pos + 5 + size);
                Some((BSONType::Bytes(bytes), pos + 5 + size))
            },
        }
    } else if value_type == 0x03 || value_type == 0x04 {
        if len - pos < 4 {
            return None;
        }
        match unpack_elements(raw_doc, pos + 4, false) {
            None => None,
            Some((fields, end)) => {
                if value_type == 0x03 {
                    let value = BSONType::Doc(fields);
                    assert(value@ == BsonView::Doc(fields_of(fields@))) by {
                        assert(value@->Doc_0 =~= fields_of(fields@));
                    }
                    Some((value, end))
                } else {
                    let ghost all = fields_of(fields@);
                    let items = drop_keys(fields);
                    let value = BSONType::Array(items);
                    assert(value@ == BsonView::Array(Seq::new(all.len(), |i: int| all[i].1))) by {
                        assert(value@->Array_0 =~= Seq::new(all.len(), |i: int| all[i].1));
                    }
                    Some((value, end))
                }
            },
        }
    } else {
        None
    }
}

/// The values of the elements, without their keys.
fn drop_keys(fields: Vec<(String, BSONType)>) -> (items: Vec<BSONType>)
    ensures
        bsons_of(items@) == Seq::new(fields@.len(), |i: int| fields_of(fields@)[i].1),
{
    let ghost all = fields_of(fields@);
    let mut fields = fields;
    let mut items: Vec<BSONType> = Vec::new();
    let n: usize = fields.len();
    while fields.len() > 0
        invariant
            fields@.len() <= n,
            n == all.len(),
            items@.len() + fields@.len() == n,
            forall|k: int| 0 <= k < fields@.len() ==> (#[trigger] fields@[k]).1@ == all[k].1,
            forall|k: int| 0 <= k < items@.len() ==> (#[trigger] items@[k])@ == all[n - 1 - k].1,
        decreases fields.len(),
    {
        match fields.pop() {
            Some(field) => {
                items.push(field.1);
            },
            None => {},
        }
    }
    let items = reversed(items);
    assert(bsons_of(items@) =~= Seq::new(all.len(), |i: int| all[i].1));
    items
}

/// The items in the opposite order.
fn reversed(items: Vec<BSONType>) -> (r: Vec<BSONType>)
    ensures
        r@.len() == items@.len(),
        forall|k: int| 0 <= k < items@.len() ==> r@[k] == items@[items@.len() - 1 - k],
{
    let mut items = items;
    let ghost all = items@;
    let n: usize = items.len();
    let mut r: Vec<BSONType> = Vec::new();
    while items.len() > 0
        invariant
            n == all.len(),
            r@.len() + items@.len() == n,
            forall|k: int| 0 <= k < items@.len() ==> items@[k] == all[k],
            forall|k: int| 0 <= k < r@.len() ==> r@[k] == all[n - 1 - k],
        decreases items.len(),
    {
        match items.pop() {
            Some(item) => {
                r.push(item);
            },
            None => {},
        }
    }
    r
}

/// Reads elements from a position up to the zero byte that closes them.
/// Returns the elements and the position after that byte. Where `top` is
/// set, the end of the bytes closes the elements too.
pub fn unpack_elements(raw_doc: &[u8], pos: usize, top: bool) -> (r: Option<
    (Vec<(String, BSONType)>, usize),
>)
    ensures
        match parse_elements(raw_doc@, pos as int, top) {
            Some((fields, end)) => r matches Some(pair) && fields_of(pair.0@) == fields && pair.1 == end,
            None => r is None,
        },
    decreases raw_doc@.len() - pos, 0nat,
{
    let ghost bytes = raw_doc@;
    let len: usize = raw_doc.len();
    if pos > len {
        return None;
    }
    let mut fields: Vec<(String, BSONType)> = Vec::new();
    let mut cur: usize = pos;
    proof {
        assert(fields_of(fields@) =~= Seq::<(Seq<char>, BsonView)>::empty());
        match parse_elements(bytes, cur as int, top) {
            Some((rest, end)) => {
                assert(fields_of(fields@) + rest =~= rest);
            },
            None => {},
        }
    }
    loop
        invariant
            pos <= cur <= len,
            len == raw_doc@.len(),
            bytes == raw_doc@,
            match parse_elements(bytes, cur as int, top) {
                Some((rest, end)) => parse_elements(bytes, pos as int, top) == Some(
                    (fields_of(fields@) + rest, end),
                ),
                None => parse_elements(bytes, pos as int, top) is None,
            },
        decreases len - cur,
    {
        if cur == len {
            if top {
                proof {
                    assert(fields_of(fields@) + Seq::<(Seq<char>, BsonView)>::empty() =~= fields_of(
                        fields@,
                    ));
                }
                return Some((fields, cur));
            } else {
                return None;
            }
        }
        let value_type: u8 = raw_doc[cur];
        if value_type == 0 {
            proof {
                assert(fields_of(fields@) + Seq::<(Seq<char>, BsonView)>::empty() =~= fields_of(
                    fields@,
                ));
            }
            return Some((fields, cur + 1));
        }
        proof {
            lemma_key_end(bytes, cur + 1);
        }
        let (key, after_key) = match read_bson_key(raw_doc, cur + 1) {
            Some(pair) => pair,
            None => {
                return None;
            },
        };
        proof {
            lemma_value_advances(bytes, after_key as int, value_type);
        }
        let (value, after) = match unpack_bson_value(raw_doc, after_key, value_type) {
            Some(pair) => pair,
            None => {
                return None;
            },
        };
        let ghost before = fields_of(fields@);
        let ghost entry = (key@, value@);
        fields.push((key, value));
        proof {
            assert(fields_of(fields@) =~= before.push(entry));
            match parse_elements(bytes, after as int, top) {
                Some((rest, end)) => {
                    assert(before + (seq![entry] + rest) =~= fields_of(fields@) + rest);
                },
                None => {},
            }
        }
        cur = after;
    }
}

/// Reads a document whose size prefix has been taken off: elements up to a
/// zero byte or the end of the bytes. Nothing is returned where an element
/// cannot be read.
pub fn unpack_bson_doc(raw_doc: &[u8]) -> (r: Option<Vec<(String, BSONType)>>)
    ensures
        match parse_elements(raw_doc@, 0, true) {
            Some((fields, _)) => r is Some && fields_of(r->0@) == fields,
            None => r is None,
        },
{
    match unpack_elements(raw_doc, 0, true) {
        Some((fields, _)) => Some(fields),
        None => None,
    }
}

/// The value of the last element of the given key, if there is one.
pub open spec fn field_of(fields: Seq<(Seq<char>, BsonView)>, key: Seq<char>) -> Option<BsonView>
    decreases fields.len(),
{
    if fields.len() == 0 {
        None
    } else if fields.last().0 == key {
        Some(fields.last().1)
    } else {
        field_of(fields.drop_last(), key)
    }
}

/// The value of the last element of the given key, if there is one.
pub fn get_field<'a>(fields: &'a Vec<(String, BSONType)>, key: &str) -> (r: Option<&'a BSONType>)
    ensures
        match field_of(fields_of(fields@), key@) {
            Some(value) => r is Some && r->0@ == value,
            None => r is None,
        },
{
    let ghost all = fields_of(fields@);
    let mut i: usize = fields.len();
    assert(all.take(i as int) =~= all);
    while i > 0
        invariant
            i <= fields.len(),
            all == fields_of(fields@),
            field_of(all, key@) == field_of(all.take(i as int), key@),
        decreases i,
    {
        let ghost part = all.take(i as int);
        i -= 1;
        assert(part.last() == all[i as int]);
        assert(part.drop_last() =~= all.take(i as int));
        if crate::text::str_eq(fields[i].0.as_str(), key) {
            return Some(&fields[i].1);
        }
    }
    None
}

impl BSONType {
    /// The items of an array.
    pub fn take_vec(self) -> (r: Vec<BSONType>)
        requires
            self@ is Array,
        ensures
            bsons_of(r@) == self@->Array_0,
    {
        match self {
            BSONType::Array(items) => {
                assert(bsons_of(items@) =~= self@->Array_0);
                items
            },
            _ => Vec::new(),
        }
    }
}

} // verus!
