//! What the interpreter asks of its host, and what the host answers.
//!
//! The library computes on integers, booleans, text and composite values.
//! Arithmetic on reals, the decimal form of a real and the reading of a line
//! of input are the work of the host: the interpreter names the work in a
//! [`Request`] and takes the result in a [`Reply`]. A real travels as the 64
//! bits of its IEEE 754 binary64 form.
use vstd::prelude::*;

verus! {

/// A numeric operand: an integer, or the bits of a real.
#[derive(Debug, Clone, Copy, PartialEq, Eq, Structural)]
pub enum Num {
    Int(i64),
    Real(u64),
}

/// An operation on reals. An integer operand is widened to a real first.
#[derive(Debug, Clone, Copy, PartialEq, Eq, Structural)]
pub enum RealOp {
    /// `left + right`; answered by `Reply::Real`.
    Add,
    /// `left - right`; answered by `Reply::Real`.
    Sub,
    /// `left * right`; answered by `Reply::Real`.
    Mul,
    /// `left / right`; answered by `Reply::Real`.
    Div,
    /// The remainder of `left / right`; answered by `Reply::Real`.
    Rem,
    /// `left` raised to the power `right`; answered by `Reply::Real`.
    Pow,
    /// The logarithm of `left` in base `right`; answered by `Reply::Real`.
    Log,
    /// `left == right`; answered by `Reply::Bool`.
    Eq,
    /// `left != right`; answered by `Reply::Bool`.
    Ne,
    /// `left < right`; answered by `Reply::Bool`.
    Lt,
    /// `left <= right`; answered by `Reply::Bool`.
    Le,
    /// `left > right`; answered by `Reply::Bool`.
    Gt,
    /// `left >= right`; answered by `Reply::Bool`.
    Ge,
    /// `-left`; answered by `Reply::Real`.
    Neg,
    /// The absolute value of `left`; answered by `Reply::Real`.
    Abs,
    /// The square root of `left`; answered by `Reply::Real`.
    Sqrt,
    /// The sine of `left` radians; answered by `Reply::Real`.
    Sin,
    /// The cosine of `left` radians; answered by `Reply::Real`.
    Cos,
    /// The tangent of `left` radians; answered by `Reply::Real`.
    Tan,
    /// `left` degrees in radians; answered by `Reply::Real`.
    ToRadians,
    /// `left` radians in degrees; answered by `Reply::Real`.
    ToDegrees,
    /// `left` as a real; answered by `Reply::Real`.
    Widen,
    /// `left` cut off toward zero; answered by `Reply::Int`.
    Trunc,
    /// `left` rounded to the nearest integer; answered by `Reply::Int`.
    Round,
    /// The largest integer not above `left`; answered by `Reply::Int`.
    Floor,
    /// The smallest integer not below `left`; answered by `Reply::Int`.
    Ceil,
    /// Both operands cut off toward zero; answered by `Reply::Ints`.
    TruncBoth,
}

/// The decimal form of one real, as the host writes it.
#[derive(Debug)]
pub struct RealText {
    pub bits: u64,
    pub text: String,
}

/// What the host found when it read a text as a real: the bits of the real,
/// or nothing where the text writes none.
#[derive(Debug)]
pub struct ParsedReal {
    pub text: String,
    pub bits: Option<u64>,
}

/// Work that the library needs done before it can go on.
#[derive(Debug)]
pub enum Request {
    /// The display form of each of these reals; answered by `Reply::Texts`.
    Texts(Vec<u64>),
    /// An operation on reals.
    Real(RealOp, Num, Num),
    /// The real that a text writes; answered by `Reply::Real`, or by
    /// `Reply::Invalid` where the text writes none.
    ParseReal(String),
    /// The real that each of these texts writes, if it writes one;
    /// answered by `Reply::Reals` with one entry for each text.
    ParseReals(Vec<String>),
    /// One line of standard input without its line end; answered by
    /// `Reply::Line`, which also carries the real that the line writes, if
    /// it writes one.
    ReadLine,
}

/// The host's answer to a [`Request`].
#[derive(Debug)]
pub enum Reply {
    /// No request is open.
    Nothing,
    Texts(Vec<RealText>),
    Real(u64),
    Int(i64),
    Ints(i64, i64),
    Bool(bool),
    Invalid,
    Reals(Vec<ParsedReal>),
    Line(String, Option<u64>),
}

/// The mathematical model of a [`Request`].
pub enum RequestView {
    Texts(Seq<u64>),
    Real(RealOp, Num, Num),
    ParseReal(Seq<char>),
    ParseReals(Seq<Seq<char>>),
    ReadLine,
}

/// The mathematical model of a [`Reply`].
pub enum ReplyView {
    Nothing,
    Texts(Seq<(u64, Seq<char>)>),
    Real(u64),
    Int(i64),
    Ints(i64, i64),
    Bool(bool),
    Invalid,
    Reals(Seq<(Seq<char>, Option<u64>)>),
    Line(Seq<char>, Option<u64>),
}

impl View for ParsedReal {
    type V = (Seq<char>, Option<u64>);

    open spec fn view(&self) -> (Seq<char>, Option<u64>) {
        (self.text@, self.bits)
    }
}

/// The models of a sequence of readings.
pub open spec fn parsed_reals_of(s: Seq<ParsedReal>) -> Seq<(Seq<char>, Option<u64>)> {
    Seq::new(s.len(), |i: int| s[i]@)
}

impl View for RealText {
    type V = (u64, Seq<char>);

    open spec fn view(&self) -> (u64, Seq<char>) {
        (self.bits, self.text@)
    }
}

impl View for Request {
    type V = RequestView;

    open spec fn view(&self) -> RequestView {
        match self {
            Request::Texts(reals) => RequestView::Texts(reals@),
            Request::Real(op, left, right) => RequestView::Real(*op, *left, *right),
            Request::ParseReal(text) => RequestView::ParseReal(text@),
            Request::ParseReals(texts) => RequestView::ParseReals(crate::ama_value::texts_of(texts@)),
            Request::ReadLine => RequestView::ReadLine,
        }
    }
}

impl View for Reply {
    type V = ReplyView;

    open spec fn view(&self) -> ReplyView {
        match self {
            Reply::Nothing => ReplyView::Nothing,
            Reply::Texts(texts) => ReplyView::Texts(Seq::new(texts@.len(), |i: int| texts@[i]@)),
            Reply::Real(bits) => ReplyView::Real(*bits),
            Reply::Int(i) => ReplyView::Int(*i),
            Reply::Ints(a, b) => ReplyView::Ints(*a, *b),
            Reply::Bool(b) => ReplyView::Bool(*b),
            Reply::Invalid => ReplyView::Invalid,
            Reply::Reals(table) => ReplyView::Reals(parsed_reals_of(table@)),
            Reply::Line(text, parsed) => ReplyView::Line(text@, *parsed),
        }
    }
}

/// A condition under which the interpreter cannot go on: the code or the
/// host broke a rule that the compiler and the host are bound to keep.
#[derive(Debug, Clone, Copy, PartialEq, Eq, Structural)]
pub enum Fault {
    /// No frame is active.
    NoFrame,
    /// The instruction pointer, or an operand of the instruction, lies
    /// outside the code.
    CodeOverrun,
    /// The byte at the instruction pointer encodes no instruction.
    BadOpcode,
    /// The operand stack holds fewer values than the instruction takes.
    StackUnderflow,
    /// The operand stack cannot hold the values that the instruction puts on
    /// it: a stack position could no longer be a base pointer.
    StackOverflow,
    /// An operand has a type that the instruction does not take.
    BadOperand,
    /// An index into the constants, the names, the record schemas or the
    /// local slots is out of range.
    BadIndex,
    /// No global of that name is defined.
    MissingGlobal,
    /// The record instance has no field of that name.
    MissingField,
    /// The value called is not a function.
    NotAFunction,
    /// A handle refers to no object of the expected kind.
    DanglingRef,
    /// A vector contains itself.
    CyclicValue,
    /// The value has no display form.
    Unprintable,
    /// The reply does not answer the request.
    BadReply,
    /// A builtin module of that name is not declared.
    UnknownModule,
    /// `Halt` ran, in the main module or in an import, while a function other
    /// than the module's main function was active.
    BadHalt,
}

/// The text that the host gave for a real: that of the first entry with the
/// same bits.
pub open spec fn text_of(texts: Seq<(u64, Seq<char>)>, bits: u64) -> Option<Seq<char>>
    decreases texts.len(),
{
    if texts.len() == 0 {
        None
    } else if texts[0].0 == bits {
        Some(texts[0].1)
    } else {
        text_of(texts.drop_first(), bits)
    }
}

/// What the host found for a text: the reading of the first entry with the
/// same text.
pub open spec fn parsed_of(table: Seq<(Seq<char>, Option<u64>)>, text: Seq<char>) -> Option<
    Option<u64>,
>
    decreases table.len(),
{
    if table.len() == 0 {
        None
    } else if table[0].0 == text {
        Some(table[0].1)
    } else {
        parsed_of(table.drop_first(), text)
    }
}

/// The readings that a reply carries; none unless it is `Reply::Reals`.
pub open spec fn reply_reals(reply: ReplyView) -> Seq<(Seq<char>, Option<u64>)> {
    match reply {
        ReplyView::Reals(table) => table,
        _ => Seq::empty(),
    }
}

/// Looks up what the host found for a text.
pub fn find_parsed(table: &Vec<ParsedReal>, text: &str) -> (r: Option<Option<u64>>)
    ensures
        r == parsed_of(parsed_reals_of(table@), text@),
{
    let ghost all = parsed_reals_of(table@);
    let mut i: usize = 0;
    assert(all.skip(0) =~= all);
    while i < table.len()
        invariant
            i <= table.len(),
            all == parsed_reals_of(table@),
            parsed_of(all, text@) == parsed_of(all.skip(i as int), text@),
        decreases table.len() - i,
    {
        assert(all.skip(i as int)[0] == table@[i as int]@);
        if crate::text::str_eq(table[i].text.as_str(), text) {
            return Some(table[i].bits);
        }
        assert(all.skip(i as int).drop_first() =~= all.skip(i + 1));
        i += 1;
    }
    assert(all.skip(i as int).len() == 0);
    None
}

/// The texts that a reply carries; none unless it is `Reply::Texts`.
pub open spec fn reply_texts(reply: ReplyView) -> Seq<(u64, Seq<char>)> {
    match reply {
        ReplyView::Texts(texts) => texts,
        _ => Seq::empty(),
    }
}

/// Looks up the text that the host gave for a real.
pub fn find_text<'a>(texts: &'a Vec<RealText>, bits: u64) -> (r: Option<&'a String>)
    ensures
        match r {
            Some(s) => text_of(Seq::new(texts@.len(), |i: int| texts@[i]@), bits) == Some(s@),
            None => text_of(Seq::new(texts@.len(), |i: int| texts@[i]@), bits) is None,
        },
{
    let ghost all = Seq::new(texts@.len(), |i: int| texts@[i]@);
    let mut i: usize = 0;
    assert(all.skip(0) =~= all);
    while i < texts.len()
        invariant
            i <= texts.len(),
            all == Seq::new(texts@.len(), |i: int| texts@[i]@),
            text_of(all, bits) == text_of(all.skip(i as int), bits),
        decreases texts.len() - i,
    {
        if texts[i].bits == bits {
            assert(all.skip(i as int)[0] == texts@[i as int]@);
            return Some(&texts[i].text);
        }
        assert(all.skip(i as int).drop_first() =~= all.skip(i + 1));
        i += 1;
    }
    assert(all.skip(i as int).len() == 0);
    None
}

} // verus!
