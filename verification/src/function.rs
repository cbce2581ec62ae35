//! Descriptors of user functions and of native functions.
use vstd::prelude::*;

verus! {

/// The module that owns a function.
#[derive(Debug, Clone, Copy, PartialEq, Eq, Structural)]
pub enum FuncModule {
    Main,
    Imported(usize),
}

/// The descriptor of a user function, which doubles as its activation
/// record once the function is called.
#[derive(Debug)]
pub struct AmaFunc {
    /// The name shown in error reports.
    pub name: String,
    /// The address of the first instruction in the code of the module.
    pub start_ip: usize,
    /// The address of the instruction that runs next.
    pub ip: usize,
    /// The address of the instruction that ran last.
    pub last_i: usize,
    /// The operand-stack index of the first local slot, or -1 while the
    /// function has no slots.
    pub bp: isize,
    /// The number of local slots, arguments included.
    pub locals: usize,
    /// The module that owns the function.
    pub module: FuncModule,
}

/// The mathematical model of a function descriptor.
pub struct Frame {
    pub name: Seq<char>,
    pub start_ip: usize,
    pub ip: usize,
    pub last_i: usize,
    pub bp: isize,
    pub locals: usize,
    pub module: FuncModule,
}

impl View for AmaFunc {
    type V = Frame;

    open spec fn view(&self) -> Frame {
        Frame {
            name: self.name@,
            start_ip: self.start_ip,
            ip: self.ip,
            last_i: self.last_i,
            bp: self.bp,
            locals: self.locals,
            module: self.module,
        }
    }
}

impl Clone for AmaFunc {
    fn clone(&self) -> (r: Self)
        ensures
            r == *self,
    {
        AmaFunc {
            name: self.name.clone(),
            start_ip: self.start_ip,
            ip: self.ip,
            last_i: self.last_i,
            bp: self.bp,
            locals: self.locals,
            module: self.module,
        }
    }
}

impl AmaFunc {
    /// A descriptor of a function that has not been called yet: it starts at
    /// `start_ip` and has no base pointer.
    pub fn new(name: String, start_ip: usize, locals: usize, module: FuncModule) -> (r: AmaFunc)
        ensures
            r@ == (Frame {
                name: name@,
                start_ip,
                ip: start_ip,
                last_i: start_ip,
                bp: -1isize,
                locals,
                module,
            }),
    {
        AmaFunc { name, start_ip, ip: start_ip, last_i: start_ip, bp: -1, locals, module }
    }
}

/// The models of a sequence of descriptors.
pub open spec fn frames_of(s: Seq<AmaFunc>) -> Seq<Frame> {
    Seq::new(s.len(), |i: int| s[i]@)
}

/// The functions that the host implements for user programs.
#[derive(Debug, Clone, Copy, PartialEq, Eq, Structural)]
pub enum Builtin {
    Escrevaln,
    Escreva,
    Leia,
    LeiaInt,
    LeiaReal,
    Tam,
    TxtContem,
    Vec,
    Anexa,
    Remova,
    Abs,
    Raizqd,
    Expoente,
    Arredonda,
    Piso,
    Teto,
    Sen,
    Cos,
    Tan,
    Log,
    Grausprad,
    Radpgraus,
}

impl Builtin {
    /// The identifier under which user programs call the function.
    pub open spec fn spec_name(self) -> Seq<char> {
        match self {
            Builtin::Escrevaln => "escrevaln"@,
            Builtin::Escreva => "escreva"@,
            Builtin::Leia => "leia"@,
            Builtin::LeiaInt => "leia_int"@,
            Builtin::LeiaReal => "leia_real"@,
            Builtin::Tam => "tam"@,
            Builtin::TxtContem => "txt_contem"@,
            Builtin::Vec => "vec"@,
            Builtin::Anexa => "anexa"@,
            Builtin::Remova => "remova"@,
            Builtin::Abs => "abs"@,
            Builtin::Raizqd => "raizqd"@,
            Builtin::Expoente => "expoente"@,
            Builtin::Arredonda => "arredonda"@,
            Builtin::Piso => "piso"@,
            Builtin::Teto => "teto"@,
            Builtin::Sen => "sen"@,
            Builtin::Cos => "cos"@,
            Builtin::Tan => "tan"@,
            Builtin::Log => "log"@,
            Builtin::Grausprad => "grausprad"@,
            Builtin::Radpgraus => "radpgraus"@,
        }
    }

    /// The identifier under which user programs call the function.
    pub fn name(self) -> (r: &'static str)
        ensures
            r@ == self.spec_name(),
    {
        match self {
            Builtin::Escrevaln => "escrevaln",
            Builtin::Escreva => "escreva",
            Builtin::Leia => "leia",
            Builtin::LeiaInt => "leia_int",
            Builtin::LeiaReal => "leia_real",
            Builtin::Tam => "tam",
            Builtin::TxtContem => "txt_contem",
            Builtin::Vec => "vec",
            Builtin::Anexa => "anexa",
            Builtin::Remova => "remova",
            Builtin::Abs => "abs",
            Builtin::Raizqd => "raizqd",
            Builtin::Expoente => "expoente",
            Builtin::Arredonda => "arredonda",
            Builtin::Piso => "piso",
            Builtin::Teto => "teto",
            Builtin::Sen => "sen",
            Builtin::Cos => "cos",
            Builtin::Tan => "tan",
            Builtin::Log => "log",
            Builtin::Grausprad => "grausprad",
            Builtin::Radpgraus => "radpgraus",
        }
    }
}

/// A native function as a value: the function that the host implements.
#[derive(Debug, Clone, Copy, PartialEq, Eq, Structural)]
pub struct NativeFunc {
    pub func: Builtin,
}

impl NativeFunc {
    /// The identifier under which user programs call the function.
    pub fn name(&self) -> (r: &'static str)
        ensures
            r@ == self.func.spec_name(),
    {
        self.func.name()
    }
}

} // verus!
