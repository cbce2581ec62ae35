//! The instruction alphabet of the interpreter.
use vstd::prelude::*;

verus! {

/// One instruction of the virtual machine. Every instruction is one byte
/// wide and may be followed by operand bytes in big-endian order.
#[derive(Debug, Clone, Copy, PartialEq, Eq, Structural)]
pub enum OpCode {
    Mostra,
    LoadConst,
    OpAdd,
    OpMinus,
    OpMul,
    OpDiv,
    OpFloorDiv,
    OpModulo,
    OpInvert,
    OpAnd,
    OpOr,
    OpNot,
    OpEq,
    OpNotEq,
    OpGreater,
    OpGreaterEq,
    OpLess,
    OpLessEq,
    OpIndexGet,
    OpIndexSet,
    GetGlobal,
    SetGlobal,
    Jump,
    JumpIfFalse,
    GetLocal,
    SetLocal,
    CallFunction,
    Return,
    Cast,
    BuildStr,
    BuildVec,
    LoadName,
    LoadRecord,
    BuildObj,
    GetProp,
    SetProp,
    IsNull,
    Unwrap,
    Halt,
}

/// The byte of `Halt`, the one instruction that does not sit in the dense
/// table that starts at zero.
pub const HALT_BYTE: u8 = 0xff;

/// The number of instructions in the dense table.
pub const TABLE_SIZE: u8 = 38;

impl OpCode {
    /// The byte that encodes the instruction.
    pub open spec fn spec_byte(self) -> u8 {
        match self {
            OpCode::Mostra => 0,
            OpCode::LoadConst => 1,
            OpCode::OpAdd => 2,
            OpCode::OpMinus => 3,
            OpCode::OpMul => 4,
            OpCode::OpDiv => 5,
            OpCode::OpFloorDiv => 6,
            OpCode::OpModulo => 7,
            OpCode::OpInvert => 8,
            OpCode::OpAnd => 9,
            OpCode::OpOr => 10,
            OpCode::OpNot => 11,
            OpCode::OpEq => 12,
            OpCode::OpNotEq => 13,
            OpCode::OpGreater => 14,
            OpCode::OpGreaterEq => 15,
            OpCode::OpLess => 16,
            OpCode::OpLessEq => 17,
            OpCode::OpIndexGet => 18,
            OpCode::OpIndexSet => 19,
            OpCode::GetGlobal => 20,
            OpCode::SetGlobal => 21,
            OpCode::Jump => 22,
            OpCode::JumpIfFalse => 23,
            OpCode::GetLocal => 24,
            OpCode::SetLocal => 25,
            OpCode::CallFunction => 26,
            OpCode::Return => 27,
            OpCode::Cast => 28,
            OpCode::BuildStr => 29,
            OpCode::BuildVec => 30,
            OpCode::LoadName => 31,
            OpCode::LoadRecord => 32,
            OpCode::BuildObj => 33,
            OpCode::GetProp => 34,
            OpCode::SetProp => 35,
            OpCode::IsNull => 36,
            OpCode::Unwrap => 37,
            OpCode::Halt => 0xff,
        }
    }

    /// The instruction that a byte encodes, if any: the one whose byte it is.
    pub open spec fn spec_from_byte(byte: u8) -> Option<OpCode> {
        if exists|op: OpCode| op.spec_byte() == byte {
            Some(choose|op: OpCode| op.spec_byte() == byte)
        } else {
            None
        }
    }

    /// The number of operand bytes that follow the instruction in the code.
    pub open spec fn spec_operand_len(self) -> nat {
        match self {
            OpCode::LoadConst | OpCode::LoadName | OpCode::LoadRecord | OpCode::GetGlobal
            | OpCode::SetGlobal | OpCode::GetLocal | OpCode::SetLocal => 2,
            OpCode::Jump | OpCode::JumpIfFalse => 8,
            OpCode::CallFunction | OpCode::Cast | OpCode::BuildStr | OpCode::BuildVec
            | OpCode::BuildObj | OpCode::Unwrap => 1,
            _ => 0,
        }
    }

    /// The byte that encodes the instruction.
    pub fn byte(self) -> (b: u8)
        ensures
            b == self.spec_byte(),
    {
        match self {
            OpCode::Mostra => 0,
            OpCode::LoadConst => 1,
            OpCode::OpAdd => 2,
            OpCode::OpMinus => 3,
            OpCode::OpMul => 4,
            OpCode::OpDiv => 5,
            OpCode::OpFloorDiv => 6,
            OpCode::OpModulo => 7,
            OpCode::OpInvert => 8,
            OpCode::OpAnd => 9,
            OpCode::OpOr => 10,
            OpCode::OpNot => 11,
            OpCode::OpEq => 12,
            OpCode::OpNotEq => 13,
            OpCode::OpGreater => 14,
            OpCode::OpGreaterEq => 15,
            OpCode::OpLess => 16,
            OpCode::OpLessEq => 17,
            OpCode::OpIndexGet => 18,
            OpCode::OpIndexSet => 19,
            OpCode::GetGlobal => 20,
            OpCode::SetGlobal => 21,
            OpCode::Jump => 22,
            OpCode::JumpIfFalse => 23,
            OpCode::GetLocal => 24,
            OpCode::SetLocal => 25,
            OpCode::CallFunction => 26,
            OpCode::Return => 27,
            OpCode::Cast => 28,
            OpCode::BuildStr => 29,
            OpCode::BuildVec => 30,
            OpCode::LoadName => 31,
            OpCode::LoadRecord => 32,
            OpCode::BuildObj => 33,
            OpCode::GetProp => 34,
            OpCode::SetProp => 35,
            OpCode::IsNull => 36,
            OpCode::Unwrap => 37,
            OpCode::Halt => 0xff,
        }
    }

    /// Decodes one byte of code. A byte outside the table decodes to nothing.
    pub fn from_byte(byte: u8) -> (r: Option<OpCode>)
        ensures
            r == OpCode::spec_from_byte(byte),
            r is Some <==> (byte < TABLE_SIZE || byte == HALT_BYTE),
            r matches Some(op) ==> op.spec_byte() == byte,
    {
        let r = match byte {
            0 => Some(OpCode::Mostra),
            1 => Some(OpCode::LoadConst),
            2 => Some(OpCode::OpAdd),
            3 => Some(OpCode::OpMinus),
            4 => Some(OpCode::OpMul),
            5 => Some(OpCode::OpDiv),
            6 => Some(OpCode::OpFloorDiv),
            7 => Some(OpCode::OpModulo),
            8 => Some(OpCode::OpInvert),
            9 => Some(OpCode::OpAnd),
            10 => Some(OpCode::OpOr),
            11 => Some(OpCode::OpNot),
            12 => Some(OpCode::OpEq),
            13 => Some(OpCode::OpNotEq),
            14 => Some(OpCode::OpGreater),
            15 => Some(OpCode::OpGreaterEq),
            16 => Some(OpCode::OpLess),
            17 => Some(OpCode::OpLessEq),
            18 => Some(OpCode::OpIndexGet),
            19 => Some(OpCode::OpIndexSet),
            20 => Some(OpCode::GetGlobal),
            21 => Some(OpCode::SetGlobal),
            22 => Some(OpCode::Jump),
            23 => Some(OpCode::JumpIfFalse),
            24 => Some(OpCode::GetLocal),
            25 => Some(OpCode::SetLocal),
            26 => Some(OpCode::CallFunction),
            27 => Some(OpCode::Return),
            28 => Some(OpCode::Cast),
            29 => Some(OpCode::BuildStr),
            30 => Some(OpCode::BuildVec),
            31 => Some(OpCode::LoadName),
            32 => Some(OpCode::LoadRecord),
            33 => Some(OpCode::BuildObj),
            34 => Some(OpCode::GetProp),
            35 => Some(OpCode::SetProp),
            36 => Some(OpCode::IsNull),
            37 => Some(OpCode::Unwrap),
            0xff => Some(OpCode::Halt),
            _ => None,
        };
        proof {
            match r {
                Some(op) => {
                    assert(op.spec_byte() == byte);
                    lemma_byte_injective(op, choose|o: OpCode| o.spec_byte() == byte);
                },
                None => {
                    assert forall|op: OpCode| op.spec_byte() != byte by {
                        lemma_byte_in_table(op);
                    }
                },
            }
        }
        r
    }

    /// The number of operand bytes that follow the instruction in the code.
    pub fn operand_len(self) -> (n: usize)
        ensures
            n == self.spec_operand_len(),
            n <= 8,
    {
        match self {
            OpCode::LoadConst | OpCode::LoadName | OpCode::LoadRecord | OpCode::GetGlobal
            | OpCode::SetGlobal | OpCode::GetLocal | OpCode::SetLocal => 2,
            OpCode::Jump | OpCode::JumpIfFalse => 8,
            OpCode::CallFunction | OpCode::Cast | OpCode::BuildStr | OpCode::BuildVec
            | OpCode::BuildObj | OpCode::Unwrap => 1,
            _ => 0,
        }
    }
}

/// Two instructions with the same byte are the same instruction.
pub proof fn lemma_byte_injective(a: OpCode, b: OpCode)
    requires
        a.spec_byte() == b.spec_byte(),
    ensures
        a == b,
{
}

/// The byte of every instruction lies in the dense table or is the byte of
/// `Halt`.
pub proof fn lemma_byte_in_table(op: OpCode)
    ensures
        op.spec_byte() < TABLE_SIZE || op.spec_byte() == HALT_BYTE,
{
}

/// Decoding the byte of an instruction gives the instruction back.
pub proof fn lemma_decode_encode(op: OpCode)
    ensures
        OpCode::spec_from_byte(op.spec_byte()) == Some(op),
{
    lemma_byte_injective(op, choose|o: OpCode| o.spec_byte() == op.spec_byte());
}

} // verus!
