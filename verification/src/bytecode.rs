use vstd::prelude::*;

use crate::compiler::Compiler;
use crate::obj::UpvalueSpec;
use crate::text::{
    format_table, i64_to_string, int_to_dec, layout, nat_to_dec, string_views, table_views,
    u64_to_string,
};

verus! {

/// One slot of an instruction stream: an opcode or one of its arguments.
pub type OpcodeByteSize = u16;

/// Number of opcodes; the byte of an opcode is its rank in [`Opcode`].
pub const NB_OPCODES: u16 = 34;

/// Added to a jump distance before it is stored in the instruction stream.
pub const JUMP_OFFSET: i16 = 255;

/// The operations of the AliveScript virtual machine.
#[derive(Debug, Clone, Copy, PartialEq, Eq, Structural)]
pub enum Opcode {
    /// stack `[any]`: pushes a copy of the top of the stack.
    Dup,
    /// stack `[any]`: pops the top of the stack.
    Pop,
    /// arg `const_idx`: pushes the constant at `const_idx`.
    Constant,
    /// arg `const_idx`: closes the closure prototype at `const_idx` and pushes the instance.
    Closure,
    Read,
    /// stack `[msg]`.
    ReadWithMsg,
    /// stack `[func]`.
    ReadCall,
    /// stack `[msg, func]`.
    ReadCallWithMsg,
    /// args `jump_to_catch_dist`, `nb_func_args`; stack `[func, ...args]`: calls the function with
    /// `nb_func_args` arguments; on failure restores the stack and jumps `jump_to_catch_dist`.
    TryCall,
    GetUpvalue,
    SetUpvalue,
    GetLocal,
    /// stack `[value]`.
    SetLocal,
    GetGlobal,
    /// stack `[value]`.
    SetGlobal,
    Call,
    /// arg `dist`: jumps `dist`.
    Jump,
    /// arg `dist`, stack `[val]`: pops `val` and jumps `dist` when it is false.
    JumpIfFalse,
    /// args `dist`, `cond`, stack `[val]`: jumps `dist` when the truth of `val` is `cond`, else pops `val`.
    JumpTest,
    Return,
    BinOp,
    Neg,
    BinComp,
    Not,
    /// arg `nb_elements`: pops that many elements and pushes a new list of them.
    NewList,
    /// stack `[obj, item]`: pushes `obj[item]`.
    GetItem,
    /// stack `[value, obj, item]`: does `obj[item] = value`.
    SetItem,
    /// arg `nb_fields`: pops name/value pairs and the structure, pushes a new instance.
    NewStruct,
    /// arg `const_name_idx`, stack `[obj]`: pushes `obj.field_name`.
    GetField,
    /// arg `const_name_idx`, stack `[value, obj]`: does `obj.field_name = value`.
    SetField,
    /// arg `const_name_idx`, stack `[struct, closure]`: sets the default value of a field.
    SetDefaultField,
    /// arg `const_name_idx`, stack `[struct, closure]`: sets a method of the structure.
    SetMethod,
    /// arg `const_name_idx`: loads the named module and pushes it.
    LoadModule,
    /// arg `iter_idx`: advances the iteration state; pushes the next value and skips the following jump, or falls through to it.
    ForNext,
}

/// The byte of an opcode is its rank in the declaration of [`Opcode`].
impl Opcode {
    pub open spec fn spec_code(self) -> u16 {
        match self {
            Opcode::Dup => 0,
            Opcode::Pop => 1,
            Opcode::Constant => 2,
            Opcode::Closure => 3,
            Opcode::Read => 4,
            Opcode::ReadWithMsg => 5,
            Opcode::ReadCall => 6,
            Opcode::ReadCallWithMsg => 7,
            Opcode::TryCall => 8,
            Opcode::GetUpvalue => 9,
            Opcode::SetUpvalue => 10,
            Opcode::GetLocal => 11,
            Opcode::SetLocal => 12,
            Opcode::GetGlobal => 13,
            Opcode::SetGlobal => 14,
            Opcode::Call => 15,
            Opcode::Jump => 16,
            Opcode::JumpIfFalse => 17,
            Opcode::JumpTest => 18,
            Opcode::Return => 19,
            Opcode::BinOp => 20,
            Opcode::Neg => 21,
            Opcode::BinComp => 22,
            Opcode::Not => 23,
            Opcode::NewList => 24,
            Opcode::GetItem => 25,
            Opcode::SetItem => 26,
            Opcode::NewStruct => 27,
            Opcode::GetField => 28,
            Opcode::SetField => 29,
            Opcode::SetDefaultField => 30,
            Opcode::SetMethod => 31,
            Opcode::LoadModule => 32,
            Opcode::ForNext => 33,
        }
    }

    pub open spec fn spec_name(self) -> Seq<char> {
        match self {
            Opcode::Dup => "DUP"@,
            Opcode::Pop => "POP"@,
            Opcode::Constant => "CONST"@,
            Opcode::Closure => "CLOSURE"@,
            Opcode::Read => "READ"@,
            Opcode::ReadWithMsg => "READ_MSG"@,
            Opcode::ReadCall => "READ_CALL"@,
            Opcode::ReadCallWithMsg => "READ_CALL_MSG"@,
            Opcode::TryCall => "TRY_CALL"@,
            Opcode::GetUpvalue => "GET_UPVAL"@,
            Opcode::SetUpvalue => "SET_UPVAL"@,
            Opcode::GetLocal => "GET_LOCAL"@,
            Opcode::SetLocal => "SET_LOCAL"@,
            Opcode::GetGlobal => "GET_GLOBAL"@,
            Opcode::SetGlobal => "SET_GLOBAL"@,
            Opcode::Call => "CALL"@,
            Opcode::Jump => "JUMP"@,
            Opcode::JumpIfFalse => "JUMP_IF_FALSE"@,
            Opcode::JumpTest => "JUMP_TEST"@,
            Opcode::Return => "RETURN"@,
            Opcode::BinOp => "BINOP"@,
            Opcode::Neg => "NEG"@,
            Opcode::BinComp => "BINCOMP"@,
            Opcode::Not => "NOT"@,
            Opcode::NewList => "NEW_LIST"@,
            Opcode::GetItem => "GET_ITEM"@,
            Opcode::SetItem => "SET_ITEM"@,
            Opcode::NewStruct => "NEW_STRUCT"@,
            Opcode::GetField => "GET_ATTR"@,
            Opcode::SetField => "SET_ATTR"@,
            Opcode::SetDefaultField => "SET_DEFAULT_FIELD"@,
            Opcode::SetMethod => "SET_METHOD"@,
            Opcode::LoadModule => "LOAD_MODULE"@,
            Opcode::ForNext => "FOR_NEXT"@,
        }
    }

    pub open spec fn spec_nargs(self) -> u16 {
        match self {
            Opcode::Dup => 0,
            Opcode::Pop => 0,
            Opcode::Constant => 1,
            Opcode::Closure => 1,
            Opcode::Read => 0,
            Opcode::ReadWithMsg => 0,
            Opcode::ReadCall => 1,
            Opcode::ReadCallWithMsg => 1,
            Opcode::TryCall => 2,
            Opcode::GetUpvalue => 1,
            Opcode::SetUpvalue => 1,
            Opcode::GetLocal => 1,
            Opcode::SetLocal => 1,
            Opcode::GetGlobal => 1,
            Opcode::SetGlobal => 1,
            Opcode::Call => 1,
            Opcode::Jump => 1,
            Opcode::JumpIfFalse => 1,
            Opcode::JumpTest => 2,
            Opcode::Return => 0,
            Opcode::BinOp => 1,
            Opcode::Neg => 0,
            Opcode::BinComp => 1,
            Opcode::Not => 0,
            Opcode::NewList => 1,
            Opcode::GetItem => 0,
            Opcode::SetItem => 0,
            Opcode::NewStruct => 1,
            Opcode::GetField => 1,
            Opcode::SetField => 1,
            Opcode::SetDefaultField => 1,
            Opcode::SetMethod => 1,
            Opcode::LoadModule => 1,
            Opcode::ForNext => 1,
        }
    }

    pub fn to_byte(self) -> (b: OpcodeByteSize)
        ensures
            b == self.spec_code(),
    {
        match self {
            Opcode::Dup => 0,
            Opcode::Pop => 1,
            Opcode::Constant => 2,
            Opcode::Closure => 3,
            Opcode::Read => 4,
            Opcode::ReadWithMsg => 5,
            Opcode::ReadCall => 6,
            Opcode::ReadCallWithMsg => 7,
            Opcode::TryCall => 8,
            Opcode::GetUpvalue => 9,
            Opcode::SetUpvalue => 10,
            Opcode::GetLocal => 11,
            Opcode::SetLocal => 12,
            Opcode::GetGlobal => 13,
            Opcode::SetGlobal => 14,
            Opcode::Call => 15,
            Opcode::Jump => 16,
            Opcode::JumpIfFalse => 17,
            Opcode::JumpTest => 18,
            Opcode::Return => 19,
            Opcode::BinOp => 20,
            Opcode::Neg => 21,
            Opcode::BinComp => 22,
            Opcode::Not => 23,
            Opcode::NewList => 24,
            Opcode::GetItem => 25,
            Opcode::SetItem => 26,
            Opcode::NewStruct => 27,
            Opcode::GetField => 28,
            Opcode::SetField => 29,
            Opcode::SetDefaultField => 30,
            Opcode::SetMethod => 31,
            Opcode::LoadModule => 32,
            Opcode::ForNext => 33,
        }
    }

    pub fn try_from_byte(b: OpcodeByteSize) -> (r: Result<Opcode, InstructionError>)
        ensures
            r is Ok <==> b < NB_OPCODES,
            r matches Ok(op) ==> op.spec_code() == b,
            r matches Err(e) ==> e == InstructionError::InvalidOpcode(b),
    {
        match b {
            0 => Ok(Opcode::Dup),
            1 => Ok(Opcode::Pop),
            2 => Ok(Opcode::Constant),
            3 => Ok(Opcode::Closure),
            4 => Ok(Opcode::Read),
            5 => Ok(Opcode::ReadWithMsg),
            6 => Ok(Opcode::ReadCall),
            7 => Ok(Opcode::ReadCallWithMsg),
            8 => Ok(Opcode::TryCall),
            9 => Ok(Opcode::GetUpvalue),
            10 => Ok(Opcode::SetUpvalue),
            11 => Ok(Opcode::GetLocal),
            12 => Ok(Opcode::SetLocal),
            13 => Ok(Opcode::GetGlobal),
            14 => Ok(Opcode::SetGlobal),
            15 => Ok(Opcode::Call),
            16 => Ok(Opcode::Jump),
            17 => Ok(Opcode::JumpIfFalse),
            18 => Ok(Opcode::JumpTest),
            19 => Ok(Opcode::Return),
            20 => Ok(Opcode::BinOp),
            21 => Ok(Opcode::Neg),
            22 => Ok(Opcode::BinComp),
            23 => Ok(Opcode::Not),
            24 => Ok(Opcode::NewList),
            25 => Ok(Opcode::GetItem),
            26 => Ok(Opcode::SetItem),
            27 => Ok(Opcode::NewStruct),
            28 => Ok(Opcode::GetField),
            29 => Ok(Opcode::SetField),
            30 => Ok(Opcode::SetDefaultField),
            31 => Ok(Opcode::SetMethod),
            32 => Ok(Opcode::LoadModule),
            33 => Ok(Opcode::ForNext),
            _ => Err(InstructionError::InvalidOpcode(b)),
        }
    }

    pub fn name(&self) -> (s: &'static str)
        ensures
            s@ == self.spec_name(),
    {
        match self {
            Opcode::Dup => "DUP",
            Opcode::Pop => "POP",
            Opcode::Constant => "CONST",
            Opcode::Closure => "CLOSURE",
            Opcode::Read => "READ",
            Opcode::ReadWithMsg => "READ_MSG",
            Opcode::ReadCall => "READ_CALL",
            Opcode::ReadCallWithMsg => "READ_CALL_MSG",
            Opcode::TryCall => "TRY_CALL",
            Opcode::GetUpvalue => "GET_UPVAL",
            Opcode::SetUpvalue => "SET_UPVAL",
            Opcode::GetLocal => "GET_LOCAL",
            Opcode::SetLocal => "SET_LOCAL",
            Opcode::GetGlobal => "GET_GLOBAL",
            Opcode::SetGlobal => "SET_GLOBAL",
            Opcode::Call => "CALL",
            Opcode::Jump => "JUMP",
            Opcode::JumpIfFalse => "JUMP_IF_FALSE",
            Opcode::JumpTest => "JUMP_TEST",
            Opcode::Return => "RETURN",
            Opcode::BinOp => "BINOP",
            Opcode::Neg => "NEG",
            Opcode::BinComp => "BINCOMP",
            Opcode::Not => "NOT",
            Opcode::NewList => "NEW_LIST",
            Opcode::GetItem => "GET_ITEM",
            Opcode::SetItem => "SET_ITEM",
            Opcode::NewStruct => "NEW_STRUCT",
            Opcode::GetField => "GET_ATTR",
            Opcode::SetField => "SET_ATTR",
            Opcode::SetDefaultField => "SET_DEFAULT_FIELD",
            Opcode::SetMethod => "SET_METHOD",
            Opcode::LoadModule => "LOAD_MODULE",
            Opcode::ForNext => "FOR_NEXT",
        }
    }

    pub fn nargs(&self) -> (n: OpcodeByteSize)
        ensures
            n == self.spec_nargs(),
    {
        match self {
            Opcode::Dup => 0,
            Opcode::Pop => 0,
            Opcode::Constant => 1,
            Opcode::Closure => 1,
            Opcode::Read => 0,
            Opcode::ReadWithMsg => 0,
            Opcode::ReadCall => 1,
            Opcode::ReadCallWithMsg => 1,
            Opcode::TryCall => 2,
            Opcode::GetUpvalue => 1,
            Opcode::SetUpvalue => 1,
            Opcode::GetLocal => 1,
            Opcode::SetLocal => 1,
            Opcode::GetGlobal => 1,
            Opcode::SetGlobal => 1,
            Opcode::Call => 1,
            Opcode::Jump => 1,
            Opcode::JumpIfFalse => 1,
            Opcode::JumpTest => 2,
            Opcode::Return => 0,
            Opcode::BinOp => 1,
            Opcode::Neg => 0,
            Opcode::BinComp => 1,
            Opcode::Not => 0,
            Opcode::NewList => 1,
            Opcode::GetItem => 0,
            Opcode::SetItem => 0,
            Opcode::NewStruct => 1,
            Opcode::GetField => 1,
            Opcode::SetField => 1,
            Opcode::SetDefaultField => 1,
            Opcode::SetMethod => 1,
            Opcode::LoadModule => 1,
            Opcode::ForNext => 1,
        }
    }
}

/// Error raised when a byte of an instruction stream is not an opcode.
#[derive(Debug, Clone, Copy, PartialEq, Eq, Structural)]
pub enum InstructionError {
    InvalidOpcode(OpcodeByteSize),
}

/// Distinct opcodes have distinct bytes, and every byte below [`NB_OPCODES`]
/// is the byte of an opcode.
pub proof fn lemma_opcode_code_injective(a: Opcode, b: Opcode)
    ensures
        a.spec_code() == b.spec_code() ==> a == b,
        a.spec_code() < NB_OPCODES,
{
}

/// Unary operations.
#[derive(Debug, Clone, Copy, PartialEq, Eq, Structural)]
pub enum UnaryOpcode {
    Pas,
    Negate,
    Positive,
}

/// Binary arithmetic and bitwise operations, stored as the argument of [`Opcode::BinOp`].
#[derive(Debug, Clone, Copy, PartialEq, Eq, Structural)]
pub enum BinOpcode {
    Mul,
    Div,
    DivInt,
    Add,
    Sub,
    Exp,
    Mod,
    Extend,
    BitwiseOr,
    BitwiseAnd,
    BitwiseXor,
    ShiftLeft,
    ShiftRight,
}

impl BinOpcode {
    /// The byte of an operation is its rank in the declaration.
    pub open spec fn spec_code(self) -> u16 {
        match self {
            BinOpcode::Mul => 0,
            BinOpcode::Div => 1,
            BinOpcode::DivInt => 2,
            BinOpcode::Add => 3,
            BinOpcode::Sub => 4,
            BinOpcode::Exp => 5,
            BinOpcode::Mod => 6,
            BinOpcode::Extend => 7,
            BinOpcode::BitwiseOr => 8,
            BinOpcode::BitwiseAnd => 9,
            BinOpcode::BitwiseXor => 10,
            BinOpcode::ShiftLeft => 11,
            BinOpcode::ShiftRight => 12,
        }
    }

    /// The name that `{:?}` shows.
    pub open spec fn spec_debug_name(self) -> Seq<char> {
        match self {
            BinOpcode::Mul => "Mul"@,
            BinOpcode::Div => "Div"@,
            BinOpcode::DivInt => "DivInt"@,
            BinOpcode::Add => "Add"@,
            BinOpcode::Sub => "Sub"@,
            BinOpcode::Exp => "Exp"@,
            BinOpcode::Mod => "Mod"@,
            BinOpcode::Extend => "Extend"@,
            BinOpcode::BitwiseOr => "BitwiseOr"@,
            BinOpcode::BitwiseAnd => "BitwiseAnd"@,
            BinOpcode::BitwiseXor => "BitwiseXor"@,
            BinOpcode::ShiftLeft => "ShiftLeft"@,
            BinOpcode::ShiftRight => "ShiftRight"@,
        }
    }

    pub fn to_byte(self) -> (b: OpcodeByteSize)
        ensures
            b == self.spec_code(),
    {
        match self {
            BinOpcode::Mul => 0,
            BinOpcode::Div => 1,
            BinOpcode::DivInt => 2,
            BinOpcode::Add => 3,
            BinOpcode::Sub => 4,
            BinOpcode::Exp => 5,
            BinOpcode::Mod => 6,
            BinOpcode::Extend => 7,
            BinOpcode::BitwiseOr => 8,
            BinOpcode::BitwiseAnd => 9,
            BinOpcode::BitwiseXor => 10,
            BinOpcode::ShiftLeft => 11,
            BinOpcode::ShiftRight => 12,
        }
    }

    pub fn try_from_byte(b: OpcodeByteSize) -> (r: Option<BinOpcode>)
        ensures
            r is Some <==> b < 13,
            r matches Some(op) ==> op.spec_code() == b,
    {
        match b {
            0 => Some(BinOpcode::Mul),
            1 => Some(BinOpcode::Div),
            2 => Some(BinOpcode::DivInt),
            3 => Some(BinOpcode::Add),
            4 => Some(BinOpcode::Sub),
            5 => Some(BinOpcode::Exp),
            6 => Some(BinOpcode::Mod),
            7 => Some(BinOpcode::Extend),
            8 => Some(BinOpcode::BitwiseOr),
            9 => Some(BinOpcode::BitwiseAnd),
            10 => Some(BinOpcode::BitwiseXor),
            11 => Some(BinOpcode::ShiftLeft),
            12 => Some(BinOpcode::ShiftRight),
            _ => None,
        }
    }

    pub fn debug_name(&self) -> (s: &'static str)
        ensures
            s@ == self.spec_debug_name(),
    {
        match self {
            BinOpcode::Mul => "Mul",
            BinOpcode::Div => "Div",
            BinOpcode::DivInt => "DivInt",
            BinOpcode::Add => "Add",
            BinOpcode::Sub => "Sub",
            BinOpcode::Exp => "Exp",
            BinOpcode::Mod => "Mod",
            BinOpcode::Extend => "Extend",
            BinOpcode::BitwiseOr => "BitwiseOr",
            BinOpcode::BitwiseAnd => "BitwiseAnd",
            BinOpcode::BitwiseXor => "BitwiseXor",
            BinOpcode::ShiftLeft => "ShiftLeft",
            BinOpcode::ShiftRight => "ShiftRight",
        }
    }
}

/// Comparisons, stored as the argument of [`Opcode::BinComp`].
#[derive(Debug, Clone, Copy, PartialEq, Eq, Structural)]
pub enum BinCompcode {
    Eq,
    NotEq,
    Lth,
    Gth,
    Geq,
    Leq,
    Dans,
    PasDans,
}

impl BinCompcode {
    /// The byte of an operation is its rank in the declaration.
    pub open spec fn spec_code(self) -> u16 {
        match self {
            BinCompcode::Eq => 0,
            BinCompcode::NotEq => 1,
            BinCompcode::Lth => 2,
            BinCompcode::Gth => 3,
            BinCompcode::Geq => 4,
            BinCompcode::Leq => 5,
            BinCompcode::Dans => 6,
            BinCompcode::PasDans => 7,
        }
    }

    /// The name that `{:?}` shows.
    pub open spec fn spec_debug_name(self) -> Seq<char> {
        match self {
            BinCompcode::Eq => "Eq"@,
            BinCompcode::NotEq => "NotEq"@,
            BinCompcode::Lth => "Lth"@,
            BinCompcode::Gth => "Gth"@,
            BinCompcode::Geq => "Geq"@,
            BinCompcode::Leq => "Leq"@,
            BinCompcode::Dans => "Dans"@,
            BinCompcode::PasDans => "PasDans"@,
        }
    }

    pub fn to_byte(self) -> (b: OpcodeByteSize)
        ensures
            b == self.spec_code(),
    {
        match self {
            BinCompcode::Eq => 0,
            BinCompcode::NotEq => 1,
            BinCompcode::Lth => 2,
            BinCompcode::Gth => 3,
            BinCompcode::Geq => 4,
            BinCompcode::Leq => 5,
            BinCompcode::Dans => 6,
            BinCompcode::PasDans => 7,
        }
    }

    pub fn try_from_byte(b: OpcodeByteSize) -> (r: Option<BinCompcode>)
        ensures
            r is Some <==> b < 8,
            r matches Some(op) ==> op.spec_code() == b,
    {
        match b {
            0 => Some(BinCompcode::Eq),
            1 => Some(BinCompcode::NotEq),
            2 => Some(BinCompcode::Lth),
            3 => Some(BinCompcode::Gth),
            4 => Some(BinCompcode::Geq),
            5 => Some(BinCompcode::Leq),
            6 => Some(BinCompcode::Dans),
            7 => Some(BinCompcode::PasDans),
            _ => None,
        }
    }

    pub fn debug_name(&self) -> (s: &'static str)
        ensures
            s@ == self.spec_debug_name(),
    {
        match self {
            BinCompcode::Eq => "Eq",
            BinCompcode::NotEq => "NotEq",
            BinCompcode::Lth => "Lth",
            BinCompcode::Gth => "Gth",
            BinCompcode::Geq => "Geq",
            BinCompcode::Leq => "Leq",
            BinCompcode::Dans => "Dans",
            BinCompcode::PasDans => "PasDans",
        }
    }
}

/// Logical operations.
#[derive(Debug, Clone, Copy, PartialEq, Eq, Structural)]
pub enum BinLogiccode {
    Et,
    Ou,
    NonNul,
}

/// The abstract state of an [`Instructions`] buffer.
#[verifier::ext_equal]
pub struct InstructionsView {
    /// The instruction stream.
    pub insts: Seq<OpcodeByteSize>,
    /// The opcodes emitted while no cursor was set, in order.
    pub opcodes: Seq<Opcode>,
    /// Where the next byte is inserted, when set; otherwise bytes are appended.
    pub cursor: Option<nat>,
}

impl InstructionsView {
    /// The cursor, when set, lies within the stream.
    pub open spec fn cursor_ok(self) -> bool {
        self.cursor matches Some(c) ==> c <= self.insts.len()
    }

    /// Writes `bs` at the cursor (moving the cursor past them), or at the end.
    pub open spec fn emit_bytes(self, bs: Seq<OpcodeByteSize>) -> InstructionsView {
        match self.cursor {
            Some(c) => InstructionsView {
                insts: self.insts.take(c as int) + bs + self.insts.skip(c as int),
                opcodes: self.opcodes,
                cursor: Some(c + bs.len()),
            },
            None => InstructionsView {
                insts: self.insts + bs,
                opcodes: self.opcodes,
                cursor: None,
            },
        }
    }

    /// Emits `op` followed by its arguments; the opcode is recorded only when
    /// no cursor is set.
    pub open spec fn emit_op(self, op: Opcode, args: Seq<OpcodeByteSize>) -> InstructionsView {
        let recorded = if self.cursor is None {
            self.opcodes.push(op)
        } else {
            self.opcodes
        };
        InstructionsView { opcodes: recorded, ..self }.emit_bytes(seq![op.spec_code()] + args)
    }

    /// Forgets the last recorded opcode and drops its byte and arguments
    /// (as many bytes as there are, at most one plus its argument count) from
    /// the end of the stream.
    pub open spec fn spec_pop(self) -> InstructionsView {
        if self.opcodes.len() == 0 {
            self
        } else {
            let n = self.opcodes.last().spec_nargs() + 1;
            let keep = if self.insts.len() >= n {
                self.insts.len() - n
            } else {
                0
            };
            InstructionsView {
                insts: self.insts.take(keep),
                opcodes: self.opcodes.drop_last(),
                cursor: self.cursor,
            }
        }
    }

    /// The last recorded opcode is `op`.
    pub open spec fn spec_last_op_is(self, op: Opcode) -> bool {
        self.opcodes.len() > 0 && self.opcodes.last() == op
    }
}

/// A growing instruction stream, with the opcodes emitted into it.
#[derive(Clone)]
pub struct Instructions {
    insts: Vec<OpcodeByteSize>,
    opcodes: Vec<Opcode>,
    cursor: Option<usize>,
}

impl View for Instructions {
    type V = InstructionsView;

    closed spec fn view(&self) -> InstructionsView {
        InstructionsView {
            insts: self.insts@,
            opcodes: self.opcodes@,
            cursor: match self.cursor {
                Some(c) => Some(c as nat),
                None => None,
            },
        }
    }
}

impl Instructions {
    pub fn new() -> (r: Self)
        ensures
            r@.insts == Seq::<OpcodeByteSize>::empty(),
            r@.opcodes == Seq::<Opcode>::empty(),
            r@.cursor is None,
    {
        Self { insts: Vec::new(), opcodes: Vec::new(), cursor: None }
    }

    pub fn len_inner(&self) -> (n: usize)
        ensures
            n == self@.insts.len(),
    {
        self.insts.len()
    }

    pub fn inner(&self) -> (v: &Vec<OpcodeByteSize>)
        ensures
            v@ == self@.insts,
    {
        &self.insts
    }

    pub fn raw_patch(&mut self, idx: usize, val: OpcodeByteSize)
        requires
            idx < old(self)@.insts.len(),
        ensures
            final(self)@ == (InstructionsView {
                insts: old(self)@.insts.update(idx as int, val),
                ..old(self)@
            }),
    {
        self.insts.set(idx, val);
    }

    pub fn set_cursor(&mut self, pos: usize)
        ensures
            final(self)@ == (InstructionsView { cursor: Some(pos as nat), ..old(self)@ }),
    {
        self.cursor = Some(pos);
    }

    pub fn remove_cursor(&mut self)
        ensures
            final(self)@ == (InstructionsView { cursor: None, ..old(self)@ }),
    {
        self.cursor = None;
    }

    fn emit_byte(&mut self, b: OpcodeByteSize)
        requires
            old(self)@.cursor_ok(),
        ensures
            final(self)@ == old(self)@.emit_bytes(seq![b]),
            final(self)@.cursor_ok(),
    {
        match self.cursor {
            Some(c) => {
                let ghost old_insts = self.insts@;
                self.insts.insert(c, b);
                assert(self.insts@ =~= old_insts.take(c as int) + seq![b] + old_insts.skip(c as int));
                let l = self.insts.len();
                assert(c < l);
                self.cursor = Some(c + 1);
                assert(seq![b].len() == 1);
                assert(self@.insts == old(self)@.emit_bytes(seq![b]).insts);
                assert(self@.cursor == old(self)@.emit_bytes(seq![b]).cursor);
                assert(self@.opcodes == old(self)@.emit_bytes(seq![b]).opcodes);
            },
            None => {
                self.insts.push(b);
            },
        }
    }

    fn emit_opcode(&mut self, op: Opcode)
        requires
            old(self)@.cursor_ok(),
        ensures
            final(self)@ == old(self)@.emit_op(op, Seq::empty()),
            final(self)@.cursor_ok(),
    {
        if self.cursor.is_none() {
            self.opcodes.push(op);
        }
        let b = op.to_byte();
        self.emit_byte(b);
        assert(seq![op.spec_code()] + Seq::<OpcodeByteSize>::empty() =~= seq![op.spec_code()]);
    }

    /// Emits `op` followed by one argument.
    fn emit_opcode_arg(&mut self, op: Opcode, arg: OpcodeByteSize)
        requires
            old(self)@.cursor_ok(),
        ensures
            final(self)@ == old(self)@.emit_op(op, seq![arg]),
            final(self)@.cursor_ok(),
    {
        let ghost s0 = self@;
        self.emit_opcode(op);
        self.emit_byte(arg);
        proof { lemma_emit_bytes_concat(InstructionsView { opcodes: self@.opcodes, ..s0 }, seq![op.spec_code()], seq![arg]); }
    }

    /// Emits `op` followed by two arguments.
    fn emit_opcode_args2(&mut self, op: Opcode, arg1: OpcodeByteSize, arg2: OpcodeByteSize)
        requires
            old(self)@.cursor_ok(),
        ensures
            final(self)@ == old(self)@.emit_op(op, seq![arg1, arg2]),
            final(self)@.cursor_ok(),
    {
        let ghost s0 = self@;
        self.emit_opcode_arg(op, arg1);
        self.emit_byte(arg2);
        proof {
            lemma_emit_bytes_concat(InstructionsView { opcodes: self@.opcodes, ..s0 }, seq![op.spec_code()] + seq![arg1], seq![arg2]);
            assert(seq![op.spec_code()] + seq![arg1] + seq![arg2] =~= seq![op.spec_code()] + seq![arg1, arg2]);
        }
    }

    pub fn pop(&mut self)
        ensures
            final(self)@ == old(self)@.spec_pop(),
    {
        let last = match self.opcodes.last() {
            Some(op) => *op,
            None => { return; },
        };
        self.opcodes.pop();
        let n = last.nargs();
        let ghost s0 = old(self)@.insts;
        let mut i: u16 = 0;
        while i <= n
            invariant
                i <= n + 1,
                n == last.spec_nargs(),
                self.opcodes@ == old(self)@.opcodes.drop_last(),
                self.cursor == old(self).cursor,
                self.insts@ == s0.take(if s0.len() >= i { s0.len() - i } else { 0 }),
            decreases n + 1 - i,
        {
            let ghost before = self.insts@;
            self.insts.pop();
            assert(self.insts@ =~= s0.take(if s0.len() >= i + 1 { s0.len() - (i + 1) } else { 0 }));
            i = i + 1;
        }
        proof {
            assert(last == old(self)@.opcodes.last());
            let sp = old(self)@.spec_pop();
            assert(self@.opcodes =~= sp.opcodes);
            assert(self@.insts =~= sp.insts);
            assert(self@.cursor == sp.cursor);
        }
    }

    pub fn pop_if_op_is(&mut self, op: Opcode)
        ensures
            final(self)@ == if old(self)@.spec_last_op_is(op) {
                old(self)@.spec_pop()
            } else {
                old(self)@
            },
    {
        if self.last_op_is(op) {
            self.pop();
        }
    }

    pub fn last_op_is(&self, op: Opcode) -> (b: bool)
        ensures
            b == self@.spec_last_op_is(op),
    {
        match self.opcodes.last() {
            Some(lo) => *lo == op,
            None => false,
        }
    }

    pub fn emit_const(&mut self, idx: OpcodeByteSize)
        requires
            old(self)@.cursor_ok(),
        ensures
            final(self)@ == old(self)@.emit_op(Opcode::Constant, seq![idx]),
            final(self)@.cursor_ok(),
            old(self)@.cursor is None ==> final(self)@.spec_pop() == old(self)@,
    {
        broadcast use lemma_pop_undoes_emit;
        self.emit_opcode_arg(Opcode::Constant, idx);
    }

    pub fn emit_neg(&mut self)
        requires
            old(self)@.cursor_ok(),
        ensures
            final(self)@ == old(self)@.emit_op(Opcode::Neg, seq![]),
            final(self)@.cursor_ok(),
            old(self)@.cursor is None ==> final(self)@.spec_pop() == old(self)@,
    {
        broadcast use lemma_pop_undoes_emit;
        self.emit_opcode(Opcode::Neg);
    }

    pub fn emit_not(&mut self)
        requires
            old(self)@.cursor_ok(),
        ensures
            final(self)@ == old(self)@.emit_op(Opcode::Not, seq![]),
            final(self)@.cursor_ok(),
            old(self)@.cursor is None ==> final(self)@.spec_pop() == old(self)@,
    {
        broadcast use lemma_pop_undoes_emit;
        self.emit_opcode(Opcode::Not);
    }

    pub fn emit_new_list(&mut self, nb_el: OpcodeByteSize)
        requires
            old(self)@.cursor_ok(),
        ensures
            final(self)@ == old(self)@.emit_op(Opcode::NewList, seq![nb_el]),
            final(self)@.cursor_ok(),
            old(self)@.cursor is None ==> final(self)@.spec_pop() == old(self)@,
    {
        broadcast use lemma_pop_undoes_emit;
        self.emit_opcode_arg(Opcode::NewList, nb_el);
    }

    pub fn emit_new_struct(&mut self, nb_el: OpcodeByteSize)
        requires
            old(self)@.cursor_ok(),
        ensures
            final(self)@ == old(self)@.emit_op(Opcode::NewStruct, seq![nb_el]),
            final(self)@.cursor_ok(),
            old(self)@.cursor is None ==> final(self)@.spec_pop() == old(self)@,
    {
        broadcast use lemma_pop_undoes_emit;
        self.emit_opcode_arg(Opcode::NewStruct, nb_el);
    }

    pub fn emit_get_item(&mut self)
        requires
            old(self)@.cursor_ok(),
        ensures
            final(self)@ == old(self)@.emit_op(Opcode::GetItem, seq![]),
            final(self)@.cursor_ok(),
            old(self)@.cursor is None ==> final(self)@.spec_pop() == old(self)@,
    {
        broadcast use lemma_pop_undoes_emit;
        self.emit_opcode(Opcode::GetItem);
    }

    pub fn emit_set_item(&mut self)
        requires
            old(self)@.cursor_ok(),
        ensures
            final(self)@ == old(self)@.emit_op(Opcode::SetItem, seq![]),
            final(self)@.cursor_ok(),
            old(self)@.cursor is None ==> final(self)@.spec_pop() == old(self)@,
    {
        broadcast use lemma_pop_undoes_emit;
        self.emit_opcode(Opcode::SetItem);
    }

    pub fn emit_get_attr(&mut self, const_idx: OpcodeByteSize)
        requires
            old(self)@.cursor_ok(),
        ensures
            final(self)@ == old(self)@.emit_op(Opcode::GetField, seq![const_idx]),
            final(self)@.cursor_ok(),
            old(self)@.cursor is None ==> final(self)@.spec_pop() == old(self)@,
    {
        broadcast use lemma_pop_undoes_emit;
        self.emit_opcode_arg(Opcode::GetField, const_idx);
    }

    pub fn emit_set_field(&mut self, const_idx: OpcodeByteSize)
        requires
            old(self)@.cursor_ok(),
        ensures
            final(self)@ == old(self)@.emit_op(Opcode::SetField, seq![const_idx]),
            final(self)@.cursor_ok(),
            old(self)@.cursor is None ==> final(self)@.spec_pop() == old(self)@,
    {
        broadcast use lemma_pop_undoes_emit;
        self.emit_opcode_arg(Opcode::SetField, const_idx);
    }

    pub fn emit_set_method(&mut self, name_const_idx: OpcodeByteSize)
        requires
            old(self)@.cursor_ok(),
        ensures
            final(self)@ == old(self)@.emit_op(Opcode::SetMethod, seq![name_const_idx]),
            final(self)@.cursor_ok(),
            old(self)@.cursor is None ==> final(self)@.spec_pop() == old(self)@,
    {
        broadcast use lemma_pop_undoes_emit;
        self.emit_opcode_arg(Opcode::SetMethod, name_const_idx);
    }

    pub fn emit_set_default_field(&mut self, name_const_idx: OpcodeByteSize)
        requires
            old(self)@.cursor_ok(),
        ensures
            final(self)@ == old(self)@.emit_op(Opcode::SetDefaultField, seq![name_const_idx]),
            final(self)@.cursor_ok(),
            old(self)@.cursor is None ==> final(self)@.spec_pop() == old(self)@,
    {
        broadcast use lemma_pop_undoes_emit;
        self.emit_opcode_arg(Opcode::SetDefaultField, name_const_idx);
    }

    pub fn emit_closure(&mut self, const_idx: OpcodeByteSize)
        requires
            old(self)@.cursor_ok(),
        ensures
            final(self)@ == old(self)@.emit_op(Opcode::Closure, seq![const_idx]),
            final(self)@.cursor_ok(),
            old(self)@.cursor is None ==> final(self)@.spec_pop() == old(self)@,
    {
        broadcast use lemma_pop_undoes_emit;
        self.emit_opcode_arg(Opcode::Closure, const_idx);
    }

    pub fn emit_get_upvalue(&mut self, idx: OpcodeByteSize)
        requires
            old(self)@.cursor_ok(),
        ensures
            final(self)@ == old(self)@.emit_op(Opcode::GetUpvalue, seq![idx]),
            final(self)@.cursor_ok(),
            old(self)@.cursor is None ==> final(self)@.spec_pop() == old(self)@,
    {
        broadcast use lemma_pop_undoes_emit;
        self.emit_opcode_arg(Opcode::GetUpvalue, idx);
    }

    pub fn emit_set_upvalue(&mut self, idx: OpcodeByteSize)
        requires
            old(self)@.cursor_ok(),
        ensures
            final(self)@ == old(self)@.emit_op(Opcode::SetUpvalue, seq![idx]),
            final(self)@.cursor_ok(),
            old(self)@.cursor is None ==> final(self)@.spec_pop() == old(self)@,
    {
        broadcast use lemma_pop_undoes_emit;
        self.emit_opcode_arg(Opcode::SetUpvalue, idx);
    }

    pub fn emit_get_local(&mut self, slot: OpcodeByteSize)
        requires
            old(self)@.cursor_ok(),
        ensures
            final(self)@ == old(self)@.emit_op(Opcode::GetLocal, seq![slot]),
            final(self)@.cursor_ok(),
            old(self)@.cursor is None ==> final(self)@.spec_pop() == old(self)@,
    {
        broadcast use lemma_pop_undoes_emit;
        self.emit_opcode_arg(Opcode::GetLocal, slot);
    }

    pub fn emit_set_local(&mut self, slot: OpcodeByteSize)
        requires
            old(self)@.cursor_ok(),
        ensures
            final(self)@ == old(self)@.emit_op(Opcode::SetLocal, seq![slot]),
            final(self)@.cursor_ok(),
            old(self)@.cursor is None ==> final(self)@.spec_pop() == old(self)@,
    {
        broadcast use lemma_pop_undoes_emit;
        self.emit_opcode_arg(Opcode::SetLocal, slot);
    }

    pub fn emit_get_global(&mut self, const_name_slot: OpcodeByteSize)
        requires
            old(self)@.cursor_ok(),
        ensures
            final(self)@ == old(self)@.emit_op(Opcode::GetGlobal, seq![const_name_slot]),
            final(self)@.cursor_ok(),
            old(self)@.cursor is None ==> final(self)@.spec_pop() == old(self)@,
    {
        broadcast use lemma_pop_undoes_emit;
        self.emit_opcode_arg(Opcode::GetGlobal, const_name_slot);
    }

    pub fn emit_set_global(&mut self, const_name_slot: OpcodeByteSize)
        requires
            old(self)@.cursor_ok(),
        ensures
            final(self)@ == old(self)@.emit_op(Opcode::SetGlobal, seq![const_name_slot]),
            final(self)@.cursor_ok(),
            old(self)@.cursor is None ==> final(self)@.spec_pop() == old(self)@,
    {
        broadcast use lemma_pop_undoes_emit;
        self.emit_opcode_arg(Opcode::SetGlobal, const_name_slot);
    }

    pub fn emit_call(&mut self, nargs: OpcodeByteSize)
        requires
            old(self)@.cursor_ok(),
        ensures
            final(self)@ == old(self)@.emit_op(Opcode::Call, seq![nargs]),
            final(self)@.cursor_ok(),
            old(self)@.cursor is None ==> final(self)@.spec_pop() == old(self)@,
    {
        broadcast use lemma_pop_undoes_emit;
        self.emit_opcode_arg(Opcode::Call, nargs);
    }

    pub fn emit_return(&mut self)
        requires
            old(self)@.cursor_ok(),
        ensures
            final(self)@ == old(self)@.emit_op(Opcode::Return, seq![]),
            final(self)@.cursor_ok(),
            old(self)@.cursor is None ==> final(self)@.spec_pop() == old(self)@,
    {
        broadcast use lemma_pop_undoes_emit;
        self.emit_opcode(Opcode::Return);
    }

    pub fn emit_dup(&mut self)
        requires
            old(self)@.cursor_ok(),
        ensures
            final(self)@ == old(self)@.emit_op(Opcode::Dup, seq![]),
            final(self)@.cursor_ok(),
            old(self)@.cursor is None ==> final(self)@.spec_pop() == old(self)@,
    {
        broadcast use lemma_pop_undoes_emit;
        self.emit_opcode(Opcode::Dup);
    }

    pub fn emit_pop(&mut self)
        requires
            old(self)@.cursor_ok(),
        ensures
            final(self)@ == old(self)@.emit_op(Opcode::Pop, seq![]),
            final(self)@.cursor_ok(),
            old(self)@.cursor is None ==> final(self)@.spec_pop() == old(self)@,
    {
        broadcast use lemma_pop_undoes_emit;
        self.emit_opcode(Opcode::Pop);
    }
    pub fn emit_binop(&mut self, op: BinOpcode)
        requires
            old(self)@.cursor_ok(),
        ensures
            final(self)@ == old(self)@.emit_op(Opcode::BinOp, seq![op.spec_code()]),
            final(self)@.cursor_ok(),
            old(self)@.cursor is None ==> final(self)@.spec_pop() == old(self)@,
    {
        broadcast use lemma_pop_undoes_emit;
        // the argument byte names the operation
        self.emit_opcode_arg(Opcode::BinOp, op.to_byte());
    }

    pub fn emit_bincomp(&mut self, op: BinCompcode)
        requires
            old(self)@.cursor_ok(),
        ensures
            final(self)@ == old(self)@.emit_op(Opcode::BinComp, seq![op.spec_code()]),
            final(self)@.cursor_ok(),
            old(self)@.cursor is None ==> final(self)@.spec_pop() == old(self)@,
    {
        broadcast use lemma_pop_undoes_emit;
        self.emit_opcode_arg(Opcode::BinComp, op.to_byte());
    }

    pub fn emit_jump(&mut self, target: i16)
        requires
            old(self)@.cursor_ok(),
            target + JUMP_OFFSET <= i16::MAX,
        ensures
            final(self)@ == old(self)@.emit_op(Opcode::Jump, seq![jump_arg(target)]),
            final(self)@.cursor_ok(),
            old(self)@.cursor is None ==> final(self)@.spec_pop() == old(self)@,
    {
        broadcast use lemma_pop_undoes_emit;
        let arg = encode_jump(target);
        self.emit_opcode_arg(Opcode::Jump, arg);
    }

    pub fn emit_jump_test(&mut self, target: i16, cond: bool)
        requires
            old(self)@.cursor_ok(),
            target + JUMP_OFFSET <= i16::MAX,
        ensures
            final(self)@ == old(self)@.emit_op(
                Opcode::JumpTest,
                seq![jump_arg(target), if cond { 1u16 } else { 0u16 }],
            ),
            final(self)@.cursor_ok(),
            old(self)@.cursor is None ==> final(self)@.spec_pop() == old(self)@,
    {
        broadcast use lemma_pop_undoes_emit;
        let arg = encode_jump(target);
        let c: OpcodeByteSize = if cond { 1 } else { 0 };
        self.emit_opcode_args2(Opcode::JumpTest, arg, c);
    }

    pub fn emit_jump_if_false(&mut self, target: i16)
        requires
            old(self)@.cursor_ok(),
            target + JUMP_OFFSET <= i16::MAX,
        ensures
            final(self)@ == old(self)@.emit_op(Opcode::JumpIfFalse, seq![jump_arg(target)]),
            final(self)@.cursor_ok(),
            old(self)@.cursor is None ==> final(self)@.spec_pop() == old(self)@,
    {
        broadcast use lemma_pop_undoes_emit;
        let arg = encode_jump(target);
        self.emit_opcode_arg(Opcode::JumpIfFalse, arg);
    }

    pub fn emit_read(&mut self, with_msg: bool)
        requires
            old(self)@.cursor_ok(),
        ensures
            final(self)@ == old(self)@.emit_op(
                if with_msg { Opcode::ReadWithMsg } else { Opcode::Read },
                seq![],
            ),
            final(self)@.cursor_ok(),
            old(self)@.cursor is None ==> final(self)@.spec_pop() == old(self)@,
    {
        broadcast use lemma_pop_undoes_emit;
        if with_msg {
            self.emit_opcode(Opcode::ReadWithMsg);
        } else {
            self.emit_opcode(Opcode::Read);
        }
    }

    pub fn emit_read_call(&mut self, jmp: OpcodeByteSize, with_msg: bool)
        requires
            old(self)@.cursor_ok(),
        ensures
            final(self)@ == old(self)@.emit_op(
                if with_msg { Opcode::ReadCallWithMsg } else { Opcode::ReadCall },
                seq![jmp],
            ),
            final(self)@.cursor_ok(),
            old(self)@.cursor is None ==> final(self)@.spec_pop() == old(self)@,
    {
        broadcast use lemma_pop_undoes_emit;
        if with_msg {
            self.emit_opcode_arg(Opcode::ReadCallWithMsg, jmp);
        } else {
            self.emit_opcode_arg(Opcode::ReadCall, jmp);
        }
    }

    pub fn emit_try_call(&mut self, jmp: OpcodeByteSize, nargs: OpcodeByteSize)
        requires
            old(self)@.cursor_ok(),
        ensures
            final(self)@ == old(self)@.emit_op(Opcode::TryCall, seq![jmp, nargs]),
            final(self)@.cursor_ok(),
            old(self)@.cursor is None ==> final(self)@.spec_pop() == old(self)@,
    {
        broadcast use lemma_pop_undoes_emit;
        self.emit_opcode_args2(Opcode::TryCall, jmp, nargs);
    }

    pub fn emit_load_module(&mut self, module_name_const: OpcodeByteSize)
        requires
            old(self)@.cursor_ok(),
        ensures
            final(self)@ == old(self)@.emit_op(Opcode::LoadModule, seq![module_name_const]),
            final(self)@.cursor_ok(),
            old(self)@.cursor is None ==> final(self)@.spec_pop() == old(self)@,
    {
        broadcast use lemma_pop_undoes_emit;
        self.emit_opcode_arg(Opcode::LoadModule, module_name_const);
    }

    pub fn emit_for_next(&mut self, first_var_slot: OpcodeByteSize)
        requires
            old(self)@.cursor_ok(),
        ensures
            final(self)@ == old(self)@.emit_op(Opcode::ForNext, seq![first_var_slot]),
            final(self)@.cursor_ok(),
            old(self)@.cursor is None ==> final(self)@.spec_pop() == old(self)@,
    {
        broadcast use lemma_pop_undoes_emit;
        self.emit_opcode_arg(Opcode::ForNext, first_var_slot);
    }
}

/// The stored form of a jump distance: the distance plus [`JUMP_OFFSET`],
/// read as an unsigned slot.
pub open spec fn jump_arg(target: i16) -> OpcodeByteSize {
    ((target + JUMP_OFFSET) as i16) as u16
}

fn encode_jump(target: i16) -> (b: OpcodeByteSize)
    requires
        target + JUMP_OFFSET <= i16::MAX,
    ensures
        b == jump_arg(target),
{
    let t: i16 = target + JUMP_OFFSET;
    t as u16
}

/// Writing `a` then `b` is writing `a + b`.
pub proof fn lemma_emit_bytes_concat(s: InstructionsView, a: Seq<OpcodeByteSize>, b: Seq<OpcodeByteSize>)
    requires
        s.cursor_ok(),
    ensures
        s.emit_bytes(a).emit_bytes(b) == s.emit_bytes(a + b),
{
    match s.cursor {
        Some(c) => {
            let x = s.insts.take(c as int) + a + s.insts.skip(c as int);
            let c2 = c + a.len();
            assert(x.take(c2 as int) =~= s.insts.take(c as int) + a);
            assert(x.skip(c2 as int) =~= s.insts.skip(c as int));
            assert(x.take(c2 as int) + b + x.skip(c2 as int) =~= s.insts.take(c as int) + (a + b) + s.insts.skip(c as int));
        },
        None => {
            assert(s.insts + a + b =~= s.insts + (a + b));
        },
    }
}


/// The opcode whose byte is `b` (for `b < NB_OPCODES`).
pub open spec fn opcode_of(b: OpcodeByteSize) -> Opcode {
    if b == 0 {
        Opcode::Dup
    } else if b == 1 {
        Opcode::Pop
    } else if b == 2 {
        Opcode::Constant
    } else if b == 3 {
        Opcode::Closure
    } else if b == 4 {
        Opcode::Read
    } else if b == 5 {
        Opcode::ReadWithMsg
    } else if b == 6 {
        Opcode::ReadCall
    } else if b == 7 {
        Opcode::ReadCallWithMsg
    } else if b == 8 {
        Opcode::TryCall
    } else if b == 9 {
        Opcode::GetUpvalue
    } else if b == 10 {
        Opcode::SetUpvalue
    } else if b == 11 {
        Opcode::GetLocal
    } else if b == 12 {
        Opcode::SetLocal
    } else if b == 13 {
        Opcode::GetGlobal
    } else if b == 14 {
        Opcode::SetGlobal
    } else if b == 15 {
        Opcode::Call
    } else if b == 16 {
        Opcode::Jump
    } else if b == 17 {
        Opcode::JumpIfFalse
    } else if b == 18 {
        Opcode::JumpTest
    } else if b == 19 {
        Opcode::Return
    } else if b == 20 {
        Opcode::BinOp
    } else if b == 21 {
        Opcode::Neg
    } else if b == 22 {
        Opcode::BinComp
    } else if b == 23 {
        Opcode::Not
    } else if b == 24 {
        Opcode::NewList
    } else if b == 25 {
        Opcode::GetItem
    } else if b == 26 {
        Opcode::SetItem
    } else if b == 27 {
        Opcode::NewStruct
    } else if b == 28 {
        Opcode::GetField
    } else if b == 29 {
        Opcode::SetField
    } else if b == 30 {
        Opcode::SetDefaultField
    } else if b == 31 {
        Opcode::SetMethod
    } else if b == 32 {
        Opcode::LoadModule
    } else {
        Opcode::ForNext
    }
}

/// Reading an opcode's byte back gives the opcode.
pub proof fn lemma_opcode_of_code(op: Opcode)
    ensures
        opcode_of(op.spec_code()) == op,
{
}

/// Length of the instruction that starts with byte `b`.
pub open spec fn inst_len(b: OpcodeByteSize) -> nat {
    (1 + opcode_of(b).spec_nargs()) as nat
}

/// `s` is a run of whole instructions: each one a valid opcode byte followed by
/// as many argument slots as that opcode takes.
pub open spec fn decodes(s: Seq<OpcodeByteSize>) -> bool
    decreases s.len(),
{
    if s.len() == 0 {
        true
    } else {
        &&& s[0] < NB_OPCODES
        &&& s.len() >= inst_len(s[0])
        &&& decodes(s.skip(inst_len(s[0]) as int))
    }
}

/// The instructions of a decodable stream, each an opcode with its arguments.
pub open spec fn decode(s: Seq<OpcodeByteSize>) -> Seq<(Opcode, Seq<OpcodeByteSize>)>
    decreases s.len(),
{
    if s.len() == 0 || s.len() < inst_len(s[0]) {
        Seq::empty()
    } else {
        let n = inst_len(s[0]) as int;
        seq![(opcode_of(s[0]), s.subrange(1, n))] + decode(s.skip(n))
    }
}

/// The opcodes of a decodable stream.
pub open spec fn decode_ops(s: Seq<OpcodeByteSize>) -> Seq<Opcode> {
    decode(s).map_values(|i: (Opcode, Seq<OpcodeByteSize>)| i.0)
}

/// The stream was built by appending whole instructions only: it decodes, and
/// its opcodes are the recorded ones.
pub open spec fn well_encoded(v: InstructionsView) -> bool {
    &&& v.cursor is None
    &&& decodes(v.insts)
    &&& decode_ops(v.insts) == v.opcodes
}

/// One instruction: `op` with exactly as many arguments as it takes.
pub proof fn lemma_decode_one(op: Opcode, args: Seq<OpcodeByteSize>)
    requires
        args.len() == op.spec_nargs(),
    ensures
        decodes(seq![op.spec_code()] + args),
        decode(seq![op.spec_code()] + args) == seq![(op, args)],
{
    let s = seq![op.spec_code()] + args;
    lemma_opcode_of_code(op);
    lemma_opcode_code_injective(op, op);
    assert(s[0] == op.spec_code());
    assert(s.skip(inst_len(s[0]) as int) =~= Seq::<OpcodeByteSize>::empty());
    assert(decodes(Seq::<OpcodeByteSize>::empty()));
    assert(s.subrange(1, inst_len(s[0]) as int) =~= args);
    assert(decode(Seq::<OpcodeByteSize>::empty()) =~= Seq::empty());
    assert(decode(s) =~= seq![(op, args)]);
}

/// Decoding distributes over the concatenation of two decodable streams.
pub proof fn lemma_decode_append(s: Seq<OpcodeByteSize>, b: Seq<OpcodeByteSize>)
    requires
        decodes(s),
        decodes(b),
    ensures
        decodes(s + b),
        decode(s + b) == decode(s) + decode(b),
    decreases s.len(),
{
    if s.len() == 0 {
        assert(s + b =~= b);
        assert(decode(s) =~= Seq::empty());
        assert(decode(s) + decode(b) =~= decode(b));
    } else {
        let n = inst_len(s[0]) as int;
        lemma_decode_append(s.skip(n), b);
        assert((s + b).skip(n) =~= s.skip(n) + b);
        assert((s + b)[0] == s[0]);
        assert((s + b).subrange(1, n) =~= s.subrange(1, n));
        assert(decode(s + b) =~= decode(s) + decode(b));
    }
}

/// A decodable stream with at least one instruction ends with the encoding of
/// its last instruction, and what precedes it decodes to the others.
pub proof fn lemma_decode_last(s: Seq<OpcodeByteSize>)
    requires
        decodes(s),
        decode(s).len() > 0,
    ensures
        ({
            let last = decode(s).last();
            let k = s.len() - (1 + last.0.spec_nargs());
            &&& k >= 0
            &&& decodes(s.take(k))
            &&& decode(s.take(k)) == decode(s).drop_last()
            &&& s.skip(k) == seq![last.0.spec_code()] + last.1
            &&& last.1.len() == last.0.spec_nargs()
        }),
    decreases s.len(),
{
    let n = inst_len(s[0]) as int;
    let rest = s.skip(n);
    let first = (opcode_of(s[0]), s.subrange(1, n));
    assert(opcode_of(s[0]).spec_code() == s[0]);
    if rest.len() == 0 {
        assert(decode(rest) =~= Seq::empty());
        assert(decode(s) =~= seq![first]);
        assert(s.take(0) =~= Seq::<OpcodeByteSize>::empty());
        assert(decode(s.take(0)) =~= Seq::empty());
        assert(decode(s).drop_last() =~= Seq::empty());
        assert(s.skip(0) =~= seq![first.0.spec_code()] + first.1);
    } else {
        assert(decode(rest).len() > 0) by {
            assert(decodes(rest));
            assert(rest.len() >= inst_len(rest[0]));
        }
        lemma_decode_last(rest);
        let last = decode(rest).last();
        assert(decode(s) =~= seq![first] + decode(rest));
        assert(decode(s).last() == last);
        let k2 = rest.len() - (1 + last.0.spec_nargs());
        let k = s.len() - (1 + last.0.spec_nargs());
        assert(k == n + k2);
        let t = s.take(k);
        assert(t[0] == s[0]);
        assert(t.skip(n) =~= rest.take(k2));
        assert(t.subrange(1, n) =~= s.subrange(1, n));
        assert(decode(t) =~= seq![first] + decode(rest.take(k2)));
        assert(decode(s).drop_last() =~= seq![first] + decode(rest).drop_last());
        assert(s.skip(k) =~= rest.skip(k2));
    }
}

/// A fresh buffer is well encoded.
pub proof fn lemma_new_well_encoded(v: InstructionsView)
    requires
        v.insts.len() == 0,
        v.opcodes.len() == 0,
        v.cursor is None,
    ensures
        well_encoded(v),
{
    assert(decode(v.insts) =~= Seq::empty());
    assert(decode_ops(v.insts) =~= v.opcodes);
}

/// Emitting a whole instruction into a well-encoded buffer keeps it well
/// encoded, with the opcode recorded last.
pub proof fn lemma_emit_keeps_well_encoded(v: InstructionsView, op: Opcode, args: Seq<OpcodeByteSize>)
    requires
        well_encoded(v),
        args.len() == op.spec_nargs(),
    ensures
        well_encoded(v.emit_op(op, args)),
        v.emit_op(op, args).spec_last_op_is(op),
{
    let blk = seq![op.spec_code()] + args;
    lemma_decode_one(op, args);
    lemma_decode_append(v.insts, blk);
    let w = v.emit_op(op, args);
    assert(w.insts == v.insts + blk);
    assert(decode_ops(w.insts) =~= v.opcodes.push(op));
}

/// Popping a well-encoded buffer removes exactly its last instruction and
/// keeps it well encoded.
pub proof fn lemma_pop_keeps_well_encoded(v: InstructionsView)
    requires
        well_encoded(v),
    ensures
        well_encoded(v.spec_pop()),
        v.opcodes.len() > 0 ==> v.spec_pop().insts == v.insts.take(
            v.insts.len() - (1 + v.opcodes.last().spec_nargs()),
        ),
{
    if v.opcodes.len() > 0 {
        assert(decode(v.insts).len() == v.opcodes.len());
        lemma_decode_last(v.insts);
        let last = decode(v.insts).last();
        assert(last.0 == v.opcodes.last()) by {
            assert(decode_ops(v.insts)[decode(v.insts).len() - 1] == last.0);
        }
        let k = v.insts.len() - (1 + last.0.spec_nargs());
        assert(decode_ops(v.insts.take(k)) =~= v.opcodes.drop_last());
    }
}

/// Popping right after emitting an instruction (with no cursor set) gives back
/// the buffer as it was. Every `emit_*` method emits one whole instruction, so
/// each of them states this of itself.
pub broadcast proof fn lemma_pop_undoes_emit(v: InstructionsView, op: Opcode, args: Seq<OpcodeByteSize>)
    requires
        v.cursor is None,
        args.len() == op.spec_nargs(),
    ensures
        #[trigger] v.emit_op(op, args).spec_pop() == v,
{
    let w = v.emit_op(op, args);
    assert(w.opcodes.drop_last() =~= v.opcodes);
    assert(w.insts.take(v.insts.len() as int) =~= v.insts);
}


/// The jump distance stored in slot `arg`.
pub open spec fn jump_dist(arg: OpcodeByteSize) -> int {
    (arg as i16) as int - JUMP_OFFSET
}

/// The operation whose byte is `b`.
pub open spec fn binop_of(b: OpcodeByteSize) -> BinOpcode {
    choose|op: BinOpcode| op.spec_code() == b
}

/// The comparison whose byte is `b`.
pub open spec fn bincomp_of(b: OpcodeByteSize) -> BinCompcode {
    choose|op: BinCompcode| op.spec_code() == b
}

/// The cells shown for the `op_i`-th instruction `op` with arguments `args`:
/// its rank and name, its arguments, then jump distances, the tested
/// condition, or the operation of a binary instruction.
pub open spec fn inst_cells(op_i: nat, op: Opcode, args: Seq<OpcodeByteSize>) -> Seq<Seq<char>> {
    let base = seq![nat_to_dec(op_i) + ". "@ + op.spec_name()] + args.map_values(
        |a: OpcodeByteSize| nat_to_dec(a as nat),
    );
    match op {
        Opcode::JumpIfFalse | Opcode::Jump | Opcode::ReadCall | Opcode::ReadCallWithMsg => base.push(
            int_to_dec(jump_dist(args[0])),
        ),
        Opcode::JumpTest => base.drop_last().drop_last().push(int_to_dec(jump_dist(args[0]))).push(
            if args[1] == 1 {
                "if true"@
            } else {
                "if false"@
            },
        ),
        Opcode::BinOp => base.push("("@ + binop_of(args[0]).spec_debug_name() + ")"@),
        Opcode::BinComp => base.push("("@ + bincomp_of(args[0]).spec_debug_name() + ")"@),
        _ => base,
    }
}

/// An instruction that can be shown: the operation byte of a binary
/// instruction names an operation, and a jump distance fits in an `i16`.
pub open spec fn renderable(inst: (Opcode, Seq<OpcodeByteSize>)) -> bool {
    match inst.0 {
        Opcode::JumpIfFalse | Opcode::Jump | Opcode::ReadCall | Opcode::ReadCallWithMsg
        | Opcode::JumpTest => jump_dist(inst.1[0]) >= i16::MIN,
        Opcode::BinOp => inst.1[0] < 13,
        Opcode::BinComp => inst.1[0] < 8,
        _ => true,
    }
}

/// The rows of cells shown for a decodable stream.
pub open spec fn inst_rows(insts: Seq<OpcodeByteSize>) -> Seq<Seq<Seq<char>>> {
    let d = decode(insts);
    Seq::new(d.len(), |i: int| inst_cells((i + 1) as nat, d[i].0, d[i].1))
}

pub(crate) proof fn lemma_binop_of(op: BinOpcode)
    ensures
        binop_of(op.spec_code()) == op,
{
    let c = binop_of(op.spec_code());
    assert(c.spec_code() == op.spec_code());
}

pub(crate) proof fn lemma_bincomp_of(op: BinCompcode)
    ensures
        bincomp_of(op.spec_code()) == op,
{
    let c = bincomp_of(op.spec_code());
    assert(c.spec_code() == op.spec_code());
}

/// The cells of one instruction, as `instructions_to_string` lays them out.
fn inst_cells_exec(op_i: u64, op: Opcode, args: &Vec<OpcodeByteSize>) -> (cells: Vec<String>)
    requires
        args@.len() == op.spec_nargs(),
        renderable((op, args@)),
    ensures
        string_views(cells@) == inst_cells(op_i as nat, op, args@),
{
    let mut cells: Vec<String> = Vec::new();
    let mut head = u64_to_string(op_i);
    proof { reveal_strlit(". "); }
    head.append(". ");
    head.append(op.name());
    cells.push(head);
    let mut k: usize = 0;
    let ghost base_args = args@.map_values(|a: OpcodeByteSize| nat_to_dec(a as nat));
    while k < args.len()
        invariant
            k <= args@.len(),
            base_args == args@.map_values(|a: OpcodeByteSize| nat_to_dec(a as nat)),
            string_views(cells@) == seq![nat_to_dec(op_i as nat) + ". "@ + op.spec_name()]
                + base_args.take(k as int),
        decreases args.len() - k,
    {
        let a = args[k];
        let t = u64_to_string(a as u64);
        let ghost old_cells = cells@;
        cells.push(t);
        assert(string_views(cells@) =~= string_views(old_cells).push(t@));
        assert(base_args.take(k + 1) =~= base_args.take(k as int).push(nat_to_dec(a as nat)));
        assert(string_views(cells@) =~= seq![nat_to_dec(op_i as nat) + ". "@ + op.spec_name()]
            + base_args.take(k + 1));
        k = k + 1;
    }
    assert(base_args.take(args@.len() as int) =~= base_args);
    let ghost base = string_views(cells@);
    match op {
        Opcode::JumpIfFalse | Opcode::Jump | Opcode::ReadCall | Opcode::ReadCallWithMsg => {
            let d: i16 = (args[0] as i16) - JUMP_OFFSET;
            cells.push(i64_to_string(d as i64));
            assert(string_views(cells@) =~= base.push(int_to_dec(jump_dist(args@[0]))));
        },
        Opcode::JumpTest => {
            cells.pop();
            cells.pop();
            let d: i16 = (args[0] as i16) - JUMP_OFFSET;
            cells.push(i64_to_string(d as i64));
            proof {
                reveal_strlit("if true");
                reveal_strlit("if false");
            }
            if args[1] == 1 {
                cells.push(String::from_str("if true"));
            } else {
                cells.push(String::from_str("if false"));
            }
            assert(string_views(cells@) =~= base.drop_last().drop_last().push(
                int_to_dec(jump_dist(args@[0])),
            ).push(if args@[1] == 1 { "if true"@ } else { "if false"@ }));
        },
        Opcode::BinOp => {
            let b = BinOpcode::try_from_byte(args[0]);
            match b {
                Some(bo) => {
                    proof { lemma_binop_of(bo); }
                    let mut t = String::from_str("(");
                    t.append(bo.debug_name());
                    t.append(")");
                    cells.push(t);
                    assert(string_views(cells@) =~= base.push(
                        "("@ + binop_of(args@[0]).spec_debug_name() + ")"@,
                    ));
                },
                None => {},
            }
        },
        Opcode::BinComp => {
            let b = BinCompcode::try_from_byte(args[0]);
            match b {
                Some(bo) => {
                    proof { lemma_bincomp_of(bo); }
                    let mut t = String::from_str("(");
                    t.append(bo.debug_name());
                    t.append(")");
                    cells.push(t);
                    assert(string_views(cells@) =~= base.push(
                        "("@ + bincomp_of(args@[0]).spec_debug_name() + ")"@,
                    ));
                },
                None => {},
            }
        },
        _ => {},
    }
    cells
}

/// Renders an instruction stream as aligned lines, one per instruction.
pub fn instructions_to_string(insts: &[OpcodeByteSize]) -> (lines: Vec<String>)
    requires
        decodes(insts@),
        forall|i: int| 0 <= i < decode(insts@).len() ==> #[trigger] renderable(decode(insts@)[i]),
        decode(insts@).len() < u64::MAX,
    ensures
        string_views(lines@) == layout(inst_rows(insts@)),
{
    let ghost all = decode(insts@);
    let mut rows: Vec<Vec<String>> = Vec::new();
    let mut pos: usize = 0;
    let mut op_i: u64 = 1;
    let total = insts.len();
    assert(insts@.skip(0) =~= insts@);
    assert(all.take(0) + decode(insts@.skip(0)) =~= all);
    while pos < insts.len()
        invariant
            all == decode(insts@),
            forall|i: int| 0 <= i < all.len() ==> #[trigger] renderable(all[i]),
            all.len() < u64::MAX,
            pos <= insts@.len(),
            total == insts@.len(),
            decodes(insts@.skip(pos as int)),
            op_i == rows@.len() + 1,
            rows@.len() <= all.len(),
            all == all.take(rows@.len() as int) + decode(insts@.skip(pos as int)),
            table_views(rows@) == inst_rows(insts@).take(rows@.len() as int),
        decreases insts@.len() - pos,
    {
        let ghost rest = insts@.skip(pos as int);
        let b = insts[pos];
        assert(rest[0] == b);
        let op = match Opcode::try_from_byte(b) {
            Ok(op) => op,
            Err(_) => {
                assert(false);
                Opcode::Pop
            },
        };
        proof {
            lemma_opcode_of_code(op);
        }
        let n = op.nargs();
        let mut args: Vec<OpcodeByteSize> = Vec::new();
        let mut k: u16 = 0;
        while k < n
            invariant
                k <= n,
                n == op.spec_nargs(),
                pos + 1 + n <= insts@.len(),
                total == insts@.len(),
                args@ == insts@.subrange(pos + 1, pos + 1 + k),
            decreases n - k,
        {
            args.push(insts[pos + 1 + k as usize]);
            assert(args@ =~= insts@.subrange(pos + 1, pos + 1 + k + 1));
            k = k + 1;
        }
        let ghost inst = (op, args@);
        proof {
            assert(rest.subrange(1, inst_len(b) as int) =~= args@);
            assert(decode(rest) == seq![inst] + decode(rest.skip(inst_len(b) as int)));
            assert(rest.skip(inst_len(b) as int) =~= insts@.skip(pos + 1 + n));
            assert(all[rows@.len() as int] == inst);
        }
        let cells = inst_cells_exec(op_i, op, &args);
        let ghost old_rows = rows@;
        rows.push(cells);
        proof {
            assert(all.take(rows@.len() as int) =~= all.take(old_rows.len() as int).push(inst));
            assert(table_views(rows@) =~= inst_rows(insts@).take(rows@.len() as int));
        }
        pos = pos + 1 + n as usize;
        op_i = op_i + 1;
    }
    proof {
        assert(insts@.skip(pos as int) =~= Seq::<OpcodeByteSize>::empty());
        assert(all.take(rows@.len() as int) =~= all);
        assert(table_views(rows@) =~= inst_rows(insts@));
    }
    format_table(&rows)
}

/// How `{:?}` shows a string: quoted, with std's escapes. The escaping
/// rules are std's and are not restated here.
pub uninterp spec fn debug_text(s: Seq<char>) -> Seq<char>;

/// `format!("{:?}", s)`.
#[verifier::external_body]
pub(crate) fn debug_str(s: &str) -> (r: String)
    ensures
        r@ == debug_text(s@),
{
    format!("{:?}", s)
}

/// How `{:?}` shows where a captured variable comes from.
pub open spec fn upvalue_spec_text(u: UpvalueSpec) -> Seq<char> {
    match u {
        UpvalueSpec::Local(i) => "Local("@ + nat_to_dec(i as nat) + ")"@,
        UpvalueSpec::Upvalue(i) => "Upvalue("@ + nat_to_dec(i as nat) + ")"@,
    }
}

fn upvalue_spec_string(u: UpvalueSpec) -> (r: String)
    ensures
        r@ == upvalue_spec_text(u),
{
    let (mut s, i) = match u {
        UpvalueSpec::Local(i) => (String::from_str("Local("), i),
        UpvalueSpec::Upvalue(i) => (String::from_str("Upvalue("), i),
    };
    let d = u64_to_string(i as u64);
    s.append(d.as_str());
    s.append(")");
    s
}

/// The cells shown in the detailed listing for the `op_i`-th instruction
/// `op` with arguments `args`, compiled by `c` whose constants are shown as
/// `texts`: a constant, a local's name or a captured variable's source is
/// shown beside its index; jump distances replace their stored form.
pub open spec fn debug_cells(
    op_i: nat,
    op: Opcode,
    args: Seq<OpcodeByteSize>,
    c: Compiler,
    texts: Seq<Seq<char>>,
) -> Seq<Seq<char>> {
    let base = seq![nat_to_dec(op_i) + ". "@ + op.spec_name()] + args.map_values(
        |a: OpcodeByteSize| nat_to_dec(a as nat),
    );
    match op {
        Opcode::Constant => base.push(texts[args[0] as int]),
        Opcode::GetLocal | Opcode::SetLocal => base.push(debug_text(c.locals@[args[0] as int].name@)),
        Opcode::GetUpvalue | Opcode::SetUpvalue => base.push(upvalue_spec_text(c.upvalues@[args[0] as int])),
        Opcode::JumpIfFalse | Opcode::Jump | Opcode::ReadCall | Opcode::ReadCallWithMsg => base.drop_last().push(
            int_to_dec(jump_dist(args[0])),
        ),
        Opcode::TryCall => base.drop_last().drop_last().push(nat_to_dec(args[1] as nat)).push(
            int_to_dec(jump_dist(args[0])),
        ),
        Opcode::JumpTest => base.drop_last().drop_last().push(int_to_dec(jump_dist(args[0]))).push(
            if args[1] == 1 {
                "if true"@
            } else {
                "if false"@
            },
        ),
        Opcode::BinOp => base.push(binop_of(args[0]).spec_debug_name()),
        Opcode::BinComp => base.push(bincomp_of(args[0]).spec_debug_name()),
        _ => base,
    }
}

/// An instruction that the detailed listing can show: what it refers to
/// exists and its jump distance fits in an `i16`.
pub open spec fn debug_renderable(inst: (Opcode, Seq<OpcodeByteSize>), c: Compiler, nb_texts: nat) -> bool {
    match inst.0 {
        Opcode::Constant => inst.1[0] < nb_texts,
        Opcode::GetLocal | Opcode::SetLocal => inst.1[0] < c.locals@.len(),
        Opcode::GetUpvalue | Opcode::SetUpvalue => inst.1[0] < c.upvalues@.len(),
        Opcode::JumpIfFalse | Opcode::Jump | Opcode::ReadCall | Opcode::ReadCallWithMsg
        | Opcode::JumpTest => jump_dist(inst.1[0]) >= i16::MIN,
        Opcode::TryCall => jump_dist(inst.1[0]) >= i16::MIN,
        Opcode::BinOp => inst.1[0] < 13,
        Opcode::BinComp => inst.1[0] < 8,
        _ => true,
    }
}

/// The rows of cells of the detailed listing of a decodable stream.
pub open spec fn debug_rows(insts: Seq<OpcodeByteSize>, c: Compiler, texts: Seq<Seq<char>>) -> Seq<Seq<Seq<char>>> {
    let d = decode(insts);
    Seq::new(d.len(), |i: int| debug_cells((i + 1) as nat, d[i].0, d[i].1, c, texts))
}

fn debug_cells_exec(
    op_i: u64,
    op: Opcode,
    args: &Vec<OpcodeByteSize>,
    compiler: &Compiler,
    texts: &Vec<String>,
) -> (cells: Vec<String>)
    requires
        args@.len() == op.spec_nargs(),
        debug_renderable((op, args@), *compiler, texts@.len()),
    ensures
        string_views(cells@) == debug_cells(op_i as nat, op, args@, *compiler, string_views(texts@)),
{
    let mut cells: Vec<String> = Vec::new();
    let mut head = u64_to_string(op_i);
    head.append(". ");
    head.append(op.name());
    cells.push(head);
    let mut k: usize = 0;
    let ghost base_args = args@.map_values(|a: OpcodeByteSize| nat_to_dec(a as nat));
    while k < args.len()
        invariant
            k <= args@.len(),
            base_args == args@.map_values(|a: OpcodeByteSize| nat_to_dec(a as nat)),
            string_views(cells@) == seq![nat_to_dec(op_i as nat) + ". "@ + op.spec_name()]
                + base_args.take(k as int),
        decreases args.len() - k,
    {
        let a = args[k];
        let t = u64_to_string(a as u64);
        let ghost old_cells = cells@;
        cells.push(t);
        assert(string_views(cells@) =~= string_views(old_cells).push(t@));
        assert(base_args.take(k + 1) =~= base_args.take(k as int).push(nat_to_dec(a as nat)));
        assert(string_views(cells@) =~= seq![nat_to_dec(op_i as nat) + ". "@ + op.spec_name()]
            + base_args.take(k + 1));
        k = k + 1;
    }
    assert(base_args.take(args@.len() as int) =~= base_args);
    let ghost base = string_views(cells@);
    match op {
        Opcode::Constant => {
            cells.push(texts[args[0] as usize].clone());
            assert(string_views(cells@) =~= base.push(string_views(texts@)[args@[0] as int]));
        },
        Opcode::GetLocal | Opcode::SetLocal => {
            cells.push(debug_str(compiler.locals[args[0] as usize].name.as_str()));
            assert(string_views(cells@) =~= base.push(debug_text(compiler.locals@[args@[0] as int].name@)));
        },
        Opcode::GetUpvalue | Opcode::SetUpvalue => {
            cells.push(upvalue_spec_string(compiler.upvalues[args[0] as usize]));
            assert(string_views(cells@) =~= base.push(upvalue_spec_text(compiler.upvalues@[args@[0] as int])));
        },
        Opcode::JumpIfFalse | Opcode::Jump | Opcode::ReadCall | Opcode::ReadCallWithMsg => {
            cells.pop();
            let d: i16 = (args[0] as i16) - JUMP_OFFSET;
            cells.push(i64_to_string(d as i64));
            assert(string_views(cells@) =~= base.drop_last().push(int_to_dec(jump_dist(args@[0]))));
        },
        Opcode::TryCall => {
            cells.pop();
            cells.pop();
            cells.push(u64_to_string(args[1] as u64));
            let d: i16 = (args[0] as i16) - JUMP_OFFSET;
            cells.push(i64_to_string(d as i64));
            assert(string_views(cells@) =~= base.drop_last().drop_last().push(nat_to_dec(args@[1] as nat)).push(
                int_to_dec(jump_dist(args@[0])),
            ));
        },
        Opcode::JumpTest => {
            cells.pop();
            cells.pop();
            let d: i16 = (args[0] as i16) - JUMP_OFFSET;
            cells.push(i64_to_string(d as i64));
            if args[1] == 1 {
                cells.push(String::from_str("if true"));
            } else {
                cells.push(String::from_str("if false"));
            }
            assert(string_views(cells@) =~= base.drop_last().drop_last().push(
                int_to_dec(jump_dist(args@[0])),
            ).push(if args@[1] == 1 { "if true"@ } else { "if false"@ }));
        },
        Opcode::BinOp => {
            let b = BinOpcode::try_from_byte(args[0]);
            match b {
                Some(bo) => {
                    proof { lemma_binop_of(bo); }
                    cells.push(String::from_str(bo.debug_name()));
                    assert(string_views(cells@) =~= base.push(binop_of(args@[0]).spec_debug_name()));
                },
                None => {},
            }
        },
        Opcode::BinComp => {
            let b = BinCompcode::try_from_byte(args[0]);
            match b {
                Some(bo) => {
                    proof { lemma_bincomp_of(bo); }
                    cells.push(String::from_str(bo.debug_name()));
                    assert(string_views(cells@) =~= base.push(bincomp_of(args@[0]).spec_debug_name()));
                },
                None => {},
            }
        },
        _ => {},
    }
    cells
}

/// Renders an instruction stream compiled by `compiler` as aligned lines,
/// one per instruction, with what each index refers to. The constants of
/// the pool are shown as `constant_texts` gives them, rank by rank (how a
/// value is shown is up to the caller).
pub fn instructions_to_string_debug(
    insts: &[OpcodeByteSize],
    compiler: &Compiler,
    constant_texts: &Vec<String>,
) -> (lines: Vec<String>)
    requires
        decodes(insts@),
        forall|i: int|
            0 <= i < decode(insts@).len() ==> #[trigger] debug_renderable(
                decode(insts@)[i],
                *compiler,
                constant_texts@.len(),
            ),
        decode(insts@).len() < u64::MAX,
    ensures
        string_views(lines@) == layout(debug_rows(insts@, *compiler, string_views(constant_texts@))),
{
    let ghost all = decode(insts@);
    let ghost texts = string_views(constant_texts@);
    let mut rows: Vec<Vec<String>> = Vec::new();
    let mut pos: usize = 0;
    let mut op_i: u64 = 1;
    let total = insts.len();
    assert(insts@.skip(0) =~= insts@);
    assert(all.take(0) + decode(insts@.skip(0)) =~= all);
    while pos < insts.len()
        invariant
            all == decode(insts@),
            texts == string_views(constant_texts@),
            forall|i: int| 0 <= i < all.len() ==> #[trigger] debug_renderable(all[i], *compiler, constant_texts@.len()),
            all.len() < u64::MAX,
            pos <= insts@.len(),
            total == insts@.len(),
            decodes(insts@.skip(pos as int)),
            op_i == rows@.len() + 1,
            rows@.len() <= all.len(),
            all == all.take(rows@.len() as int) + decode(insts@.skip(pos as int)),
            table_views(rows@) == debug_rows(insts@, *compiler, texts).take(rows@.len() as int),
        decreases insts@.len() - pos,
    {
        let ghost rest = insts@.skip(pos as int);
        let b = insts[pos];
        assert(rest[0] == b);
        let op = match Opcode::try_from_byte(b) {
            Ok(op) => op,
            Err(_) => {
                assert(false);
                Opcode::Pop
            },
        };
        proof {
            lemma_opcode_of_code(op);
        }
        let n = op.nargs();
        let mut args: Vec<OpcodeByteSize> = Vec::new();
        let mut k: u16 = 0;
        while k < n
            invariant
                k <= n,
                n == op.spec_nargs(),
                pos + 1 + n <= insts@.len(),
                total == insts@.len(),
                args@ == insts@.subrange(pos + 1, pos + 1 + k),
            decreases n - k,
        {
            args.push(insts[pos + 1 + k as usize]);
            assert(args@ =~= insts@.subrange(pos + 1, pos + 1 + k + 1));
            k = k + 1;
        }
        let ghost inst = (op, args@);
        proof {
            assert(rest.subrange(1, inst_len(b) as int) =~= args@);
            assert(decode(rest) == seq![inst] + decode(rest.skip(inst_len(b) as int)));
            assert(rest.skip(inst_len(b) as int) =~= insts@.skip(pos + 1 + n));
            assert(all[rows@.len() as int] == inst);
        }
        let cells = debug_cells_exec(op_i, op, &args, compiler, constant_texts);
        let ghost old_rows = rows@;
        rows.push(cells);
        proof {
            assert(all.take(rows@.len() as int) =~= all.take(old_rows.len() as int).push(inst));
            assert(table_views(rows@) =~= debug_rows(insts@, *compiler, texts).take(rows@.len() as int));
        }
        pos = pos + 1 + n as usize;
        op_i = op_i + 1;
    }
    proof {
        assert(insts@.skip(pos as int) =~= Seq::<OpcodeByteSize>::empty());
        assert(all.take(rows@.len() as int) =~= all);
        assert(table_views(rows@) =~= debug_rows(insts@, *compiler, texts));
    }
    format_table(&rows)
}


/// A conditional jump is listed with the condition it tests: once a
/// `JUMP_TEST` with condition `cond` is appended to a stream of whole
/// instructions, the listing has one more row, and that row ends with the
/// words "if true" when `cond` holds and "if false" when it does not, in
/// the short listing and in the detailed one alike.
pub proof fn lemma_jump_test_listed_with_its_condition(
    v: InstructionsView,
    target: i16,
    cond: bool,
    c: Compiler,
    texts: Seq<Seq<char>>,
)
    requires
        v.cursor is None,
        decodes(v.insts),
    ensures
        ({
            let w = v.emit_op(Opcode::JumpTest, seq![jump_arg(target), if cond { 1u16 } else { 0u16 }]);
            let shown: Seq<char> = if cond { "if true"@ } else { "if false"@ };
            &&& decodes(w.insts)
            &&& inst_rows(w.insts).len() == inst_rows(v.insts).len() + 1
            &&& inst_rows(w.insts).last().last() == shown
            &&& debug_rows(w.insts, c, texts).last().last() == shown
            &&& inst_rows(w.insts).last()[0] == nat_to_dec(inst_rows(w.insts).len()) + ". "@ + "JUMP_TEST"@
        }),
        "if true"@ != "if false"@,
{
    reveal_strlit("if true");
    reveal_strlit("if false");
    let args = seq![jump_arg(target), if cond { 1u16 } else { 0u16 }];
    let w = v.emit_op(Opcode::JumpTest, args);
    let tail = seq![Opcode::JumpTest.spec_code()] + args;
    lemma_decode_one(Opcode::JumpTest, args);
    lemma_decode_append(v.insts, tail);
    assert(w.insts =~= v.insts + tail);
    let d = decode(w.insts);
    assert(d == decode(v.insts) + seq![(Opcode::JumpTest, args)]);
    assert(d.last() == (Opcode::JumpTest, args));
    assert(("if true"@)[3] != ("if false"@)[3]);
}

} // verus!
