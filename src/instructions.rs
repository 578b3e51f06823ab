//! The instruction set of the machine.
use vstd::prelude::*;

use crate::memory::data::{DataView, InnerData};

verus! {

/// The largest opcode.
pub const LAST_OPCODE: u8 = 19;

/// One instruction; the opcode of each variant is its position, from 0.
/// `LOAD`, `POP` and `EQU` carry an operand and an addressing tag; the
/// jumps and `CALL` carry a target.
#[derive(Debug)]
pub enum InstructionSet {
    LOAD(InnerData, u8),
    ADD,
    SUB,
    MUL,
    DIV,
    HALT,
    MOD,
    LABEL,
    JMP(InnerData),
    POP(InnerData, u8),
    JZ(InnerData),
    JN(InnerData),
    STARTSTR,
    ENDSTR,
    SHOW,
    RET,
    CALL(InnerData),
    EQU(InnerData, u8),
    NEG,
    DEREF,
}

/// The mathematical content of an instruction.
pub enum InstrView {
    Load(DataView, u8),
    Add,
    Sub,
    Mul,
    Div,
    Halt,
    Mod,
    Label,
    Jmp(DataView),
    Pop(DataView, u8),
    Jz(DataView),
    Jn(DataView),
    StartStr,
    EndStr,
    Show,
    Ret,
    Call(DataView),
    Equ(DataView, u8),
    Neg,
    Deref,
}

impl View for InstructionSet {
    type V = InstrView;

    open spec fn view(&self) -> InstrView {
        match self {
            InstructionSet::LOAD(a, b) => InstrView::Load(a@, *b),
            InstructionSet::ADD => InstrView::Add,
            InstructionSet::SUB => InstrView::Sub,
            InstructionSet::MUL => InstrView::Mul,
            InstructionSet::DIV => InstrView::Div,
            InstructionSet::HALT => InstrView::Halt,
            InstructionSet::MOD => InstrView::Mod,
            InstructionSet::LABEL => InstrView::Label,
            InstructionSet::JMP(a) => InstrView::Jmp(a@),
            InstructionSet::POP(a, b) => InstrView::Pop(a@, *b),
            InstructionSet::JZ(a) => InstrView::Jz(a@),
            InstructionSet::JN(a) => InstrView::Jn(a@),
            InstructionSet::STARTSTR => InstrView::StartStr,
            InstructionSet::ENDSTR => InstrView::EndStr,
            InstructionSet::SHOW => InstrView::Show,
            InstructionSet::RET => InstrView::Ret,
            InstructionSet::CALL(a) => InstrView::Call(a@),
            InstructionSet::EQU(a, b) => InstrView::Equ(a@, *b),
            InstructionSet::NEG => InstrView::Neg,
            InstructionSet::DEREF => InstrView::Deref,
        }
    }
}

/// How many operands the instruction with opcode `op` is built from.
pub open spec fn arity(op: u8) -> nat {
    match op {
        0 => 2,
        8 => 1,
        9 => 2,
        10 => 1,
        11 => 1,
        16 => 1,
        17 => 2,
        _ => 0,
    }
}

/// The operands suit the opcode: it is known, each operand it takes is
/// there, and a tag operand is an 8-bit integer.
pub open spec fn operands_fit(op: u8, arg: Option<DataView>, arg1: Option<DataView>) -> bool {
    &&& op <= LAST_OPCODE
    &&& arity(op) >= 1 ==> arg is Some
    &&& arity(op) == 2 ==> arg1 is Some && arg1->Some_0 is Int8
}

/// The instruction with opcode `op` built from operands `a` and `b`.
pub open spec fn instr_of(op: u8, a: DataView, b: DataView) -> InstrView {
    match op {
        0 => InstrView::Load(a, b.int_value() as u8),
        1 => InstrView::Add,
        2 => InstrView::Sub,
        3 => InstrView::Mul,
        4 => InstrView::Div,
        5 => InstrView::Halt,
        6 => InstrView::Mod,
        7 => InstrView::Label,
        8 => InstrView::Jmp(a),
        9 => InstrView::Pop(a, b.int_value() as u8),
        10 => InstrView::Jz(a),
        11 => InstrView::Jn(a),
        12 => InstrView::StartStr,
        13 => InstrView::EndStr,
        14 => InstrView::Show,
        15 => InstrView::Ret,
        16 => InstrView::Call(a),
        17 => InstrView::Equ(a, b.int_value() as u8),
        18 => InstrView::Neg,
        19 => InstrView::Deref,
        _ => InstrView::Halt,
    }
}

pub open spec fn option_data_view(o: Option<InnerData>) -> Option<DataView> {
    match o {
        Some(v) => Some(v@),
        None => None,
    }
}

impl InstructionSet {
    /// Builds the instruction with opcode `value` from its operands: the
    /// first is the value or target, the second the addressing tag.
    pub fn from_int(value: u8, arg: Option<InnerData>, arg1: Option<InnerData>) -> (r: InstructionSet)
        requires
            operands_fit(value, option_data_view(arg), option_data_view(arg1)),
        ensures
            r@ == instr_of(
                value,
                option_data_view(arg).unwrap_or(DataView::Int8(0)),
                option_data_view(arg1).unwrap_or(DataView::Int8(0)),
            ),
    {
        match value {
            0 => match (arg, arg1) {
                (Some(a), Some(b)) => InstructionSet::LOAD(a, b.get_u8()),
                // excluded by the precondition
                _ => InstructionSet::HALT,
            },
            1 => InstructionSet::ADD,
            2 => InstructionSet::SUB,
            3 => InstructionSet::MUL,
            4 => InstructionSet::DIV,
            5 => InstructionSet::HALT,
            6 => InstructionSet::MOD,
            7 => InstructionSet::LABEL,
            8 => match arg {
                Some(a) => InstructionSet::JMP(a),
                // excluded by the precondition
                None => InstructionSet::HALT,
            },
            9 => match (arg, arg1) {
                (Some(a), Some(b)) => InstructionSet::POP(a, b.get_u8()),
                // excluded by the precondition
                _ => InstructionSet::HALT,
            },
            10 => match arg {
                Some(a) => InstructionSet::JZ(a),
                // excluded by the precondition
                None => InstructionSet::HALT,
            },
            11 => match arg {
                Some(a) => InstructionSet::JN(a),
                // excluded by the precondition
                None => InstructionSet::HALT,
            },
            12 => InstructionSet::STARTSTR,
            13 => InstructionSet::ENDSTR,
            14 => InstructionSet::SHOW,
            15 => InstructionSet::RET,
            16 => match arg {
                Some(a) => InstructionSet::CALL(a),
                // excluded by the precondition
                None => InstructionSet::HALT,
            },
            17 => match (arg, arg1) {
                (Some(a), Some(b)) => InstructionSet::EQU(a, b.get_u8()),
                // excluded by the precondition
                _ => InstructionSet::HALT,
            },
            18 => InstructionSet::NEG,
            19 => InstructionSet::DEREF,
            // excluded by the precondition
            _ => InstructionSet::HALT,
        }
    }
}

impl PartialEq for InstructionSet {
    fn eq(&self, other: &InstructionSet) -> (r: bool) {
        match (self, other) {
            (InstructionSet::LOAD(a, b), InstructionSet::LOAD(c, d)) => a == c && *b == *d,
            (InstructionSet::ADD, InstructionSet::ADD) => true,
            (InstructionSet::SUB, InstructionSet::SUB) => true,
            (InstructionSet::MUL, InstructionSet::MUL) => true,
            (InstructionSet::DIV, InstructionSet::DIV) => true,
            (InstructionSet::HALT, InstructionSet::HALT) => true,
            (InstructionSet::MOD, InstructionSet::MOD) => true,
            (InstructionSet::LABEL, InstructionSet::LABEL) => true,
            (InstructionSet::JMP(a), InstructionSet::JMP(c)) => a == c,
            (InstructionSet::POP(a, b), InstructionSet::POP(c, d)) => a == c && *b == *d,
            (InstructionSet::JZ(a), InstructionSet::JZ(c)) => a == c,
            (InstructionSet::JN(a), InstructionSet::JN(c)) => a == c,
            (InstructionSet::STARTSTR, InstructionSet::STARTSTR) => true,
            (InstructionSet::ENDSTR, InstructionSet::ENDSTR) => true,
            (InstructionSet::SHOW, InstructionSet::SHOW) => true,
            (InstructionSet::RET, InstructionSet::RET) => true,
            (InstructionSet::CALL(a), InstructionSet::CALL(c)) => a == c,
            (InstructionSet::EQU(a, b), InstructionSet::EQU(c, d)) => a == c && *b == *d,
            (InstructionSet::NEG, InstructionSet::NEG) => true,
            (InstructionSet::DEREF, InstructionSet::DEREF) => true,
            _ => false,
        }
    }
}

impl vstd::std_specs::cmp::PartialEqSpecImpl for InstructionSet {
    open spec fn obeys_eq_spec() -> bool {
        true
    }

    open spec fn eq_spec(&self, other: &InstructionSet) -> bool {
        self@ == other@
    }
}

} // verus!
