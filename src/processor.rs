//! The execution engine: registers, flags and the fetch-execute loop.
use vstd::prelude::*;

use crate::instructions::{InstrView, InstructionSet};
use crate::memory::data::{arith, int_at, ArithError, ArithOp, DataView, InnerData, MINUS};
use crate::memory::data_memory::{read_var, DataMemory};
use crate::memory::program_memory::ProgramMemory;
use crate::memory::stack::Stack;

verus! {

/// Addressing tags: how the operand of `LOAD`, `POP` and `EQU` is read.
/// The operand names a register.
pub const REGISTER_OFFSET: u8 = 1;

/// The operand is a literal number.
pub const STACK_OFFSET: u8 = 2;

/// The operand is a literal string.
pub const STACK_OFFSET_STR: u8 = 3;

/// The operand is a variable address.
pub const DATA_MEMORY_OFFSET: u8 = 4;

/// The operand's byte address (the address times 8) is taken.
pub const ADDR_OFFSET: u8 = 5;

/// The operand is a variable that holds a byte address (store through it).
pub const PTR_OFFSET: u8 = 6;

/// The byte that ends each line of output.
pub const NEWLINE: u8 = 10;

/// The number of registers.
pub const REGISTER_COUNT: usize = 10;

/// The most instructions one run of a program executes.
pub const STEP_LIMIT: u64 = 18446744073709551615;

/// Why execution stopped abnormally.
#[derive(Debug, Clone, Copy, PartialEq, Eq, Structural)]
pub enum RuntimeError {
    /// A value was needed from an empty stack.
    StackEmpty,
    /// A register index outside 0 to 9.
    RegisterOutOfBounds,
    /// An addressing tag that the instruction does not know.
    InvalidTag(u8),
    /// An operand of the wrong type (a label, an address or a register value
    /// that is not an 8-bit integer, a non-integer to negate).
    IllegalOperandType,
    /// A value operator failed.
    Arithmetic(ArithError),
    /// The program counter left the program.
    ProgramCounterOutOfBounds,
    /// The program ran for `STEP_LIMIT` instructions without halting.
    StepLimitReached,
}

/// The zero and negative flags.
#[derive(Debug, Clone, Copy)]
pub struct FlagRegister {
    pub zero: bool,
    pub negative: bool,
}

impl FlagRegister {
    /// Both flags clear.
    pub fn new() -> (r: FlagRegister)
        ensures
            !r.zero,
            !r.negative,
    {
        FlagRegister { zero: false, negative: false }
    }
}

/// The state of the engine itself.
pub struct ProcessorView {
    pub pc: nat,
    pub registers: Seq<i8>,
    pub zero: bool,
    pub negative: bool,
}

/// Everything one instruction can read or change.
pub struct MachineView {
    pub pc: nat,
    pub registers: Seq<i8>,
    pub zero: bool,
    pub negative: bool,
    pub vars: Map<u8, DataView>,
    pub stack: Seq<DataView>,
    pub calls: Seq<DataView>,
    pub out: Seq<u8>,
}

pub open spec fn machine(
    p: ProcessorView,
    vars: Map<u8, DataView>,
    stack: Seq<DataView>,
    calls: Seq<DataView>,
    out: Seq<u8>,
) -> MachineView {
    MachineView {
        pc: p.pc,
        registers: p.registers,
        zero: p.zero,
        negative: p.negative,
        vars,
        stack,
        calls,
        out,
    }
}

/// The decimal digits of a natural number.
pub open spec fn nat_text(n: nat) -> Seq<u8>
    decreases n,
{
    if n < 10 {
        seq![(48 + n) as u8]
    } else {
        nat_text(n / 10).push((48 + n % 10) as u8)
    }
}

/// An integer in decimal, with a leading '-' when negative.
pub open spec fn int_text(n: int) -> Seq<u8> {
    if n < 0 {
        seq![MINUS] + nat_text((-n) as nat)
    } else {
        nat_text(n as nat)
    }
}

/// The display form of a value: an integer in decimal, a string as UTF-8.
pub open spec fn display_bytes(v: DataView) -> Seq<u8> {
    match v {
        DataView::Str(s) => vstd::utf8::encode_utf8(s),
        _ => int_text(v.int_value()),
    }
}

/// An 8-bit operand read as an unsigned byte.
pub open spec fn byte_of(v: DataView) -> u8 {
    (v->Int8_0) as u8
}

/// The byte address of a variable address: the address times 8, wrapped to
/// a byte.
pub open spec fn address_of(b: u8) -> i8 {
    ((b as int * 8) % 256) as u8 as i8
}

/// The value an operand names under an addressing tag.
pub open spec fn load_value(registers: Seq<i8>, vars: Map<u8, DataView>, value: DataView, tag: u8) -> Result<
    DataView,
    RuntimeError,
> {
    if tag == REGISTER_OFFSET {
        if !(value is Int8) {
            Err(RuntimeError::IllegalOperandType)
        } else if value->Int8_0 < 0 || value->Int8_0 >= REGISTER_COUNT {
            Err(RuntimeError::RegisterOutOfBounds)
        } else {
            Ok(DataView::Int8(registers[value->Int8_0 as int]))
        }
    } else if tag == STACK_OFFSET || tag == STACK_OFFSET_STR {
        Ok(value)
    } else if tag == DATA_MEMORY_OFFSET {
        if value is Int8 {
            Ok(read_var(vars, byte_of(value)))
        } else {
            Err(RuntimeError::IllegalOperandType)
        }
    } else if tag == ADDR_OFFSET {
        if value is Int8 {
            Ok(DataView::Int8(address_of(byte_of(value))))
        } else {
            Err(RuntimeError::IllegalOperandType)
        }
    } else {
        Err(RuntimeError::InvalidTag(tag))
    }
}

/// A binary operator on the two top values: the top is the right operand.
pub open spec fn binary_step(stack: Seq<DataView>, op: ArithOp) -> Result<Seq<DataView>, RuntimeError> {
    if stack.len() < 2 {
        Err(RuntimeError::StackEmpty)
    } else {
        match arith(op, stack[stack.len() - 2], stack.last()) {
            Ok(v) => Ok(stack.drop_last().drop_last().push(v)),
            Err(e) => Err(RuntimeError::Arithmetic(e)),
        }
    }
}

/// Where `POP` stores the top value, as registers, variables and stack after.
pub open spec fn pop_step(
    registers: Seq<i8>,
    vars: Map<u8, DataView>,
    stack: Seq<DataView>,
    value: DataView,
    tag: u8,
) -> Result<(Seq<i8>, Map<u8, DataView>, Seq<DataView>), RuntimeError> {
    if tag == REGISTER_OFFSET {
        if !(value is Int8) {
            Err(RuntimeError::IllegalOperandType)
        } else if value->Int8_0 < 0 || value->Int8_0 >= REGISTER_COUNT {
            Err(RuntimeError::RegisterOutOfBounds)
        } else if stack.len() == 0 {
            Err(RuntimeError::StackEmpty)
        } else if !(stack.last() is Int8) {
            Err(RuntimeError::IllegalOperandType)
        } else {
            Ok((registers.update(value->Int8_0 as int, stack.last()->Int8_0), vars, stack.drop_last()))
        }
    } else if tag == DATA_MEMORY_OFFSET {
        if stack.len() == 0 {
            Err(RuntimeError::StackEmpty)
        } else if !(value is Int8) {
            Err(RuntimeError::IllegalOperandType)
        } else {
            Ok((registers, vars.insert(byte_of(value), stack.last()), stack.drop_last()))
        }
    } else if tag == PTR_OFFSET {
        if !(value is Int8) {
            Err(RuntimeError::IllegalOperandType)
        } else if stack.len() == 0 {
            Err(RuntimeError::StackEmpty)
        } else if !(read_var(vars, byte_of(value)) is Int8) {
            Err(RuntimeError::IllegalOperandType)
        } else {
            Ok((registers, vars.insert((byte_of(read_var(vars, byte_of(value))) / 8) as u8, stack.last()), stack.drop_last()))
        }
    } else {
        Err(RuntimeError::InvalidTag(tag))
    }
}

/// 1 when two values are equal integers or equal strings, else 0.
pub open spec fn equal_flag(a: DataView, b: DataView) -> DataView {
    if (a.is_int() && b.is_int() && a.int_value() == b.int_value()) || (a is Str && b is Str && a == b) {
        DataView::Int8(1)
    } else {
        DataView::Int8(0)
    }
}

/// The value that `CALL` saves for the program counter: the narrowest
/// integer that holds it.
pub open spec fn pc_value(pc: nat) -> DataView {
    if pc <= 127 {
        DataView::Int8(pc as i8)
    } else if pc <= 32767 {
        DataView::Int16(pc as i16)
    } else {
        DataView::Int32(pc as i32)
    }
}

/// The flags after an instruction: set from an integer on top of the
/// stack, unchanged otherwise.
pub open spec fn with_flags(m: MachineView) -> MachineView {
    if m.stack.len() > 0 && m.stack.last().is_int() {
        MachineView { zero: m.stack.last().int_value() == 0, negative: m.stack.last().int_value() < 0, ..m }
    } else {
        m
    }
}

/// The effect of one instruction before the flags are updated. The program
/// counter is set by jumps, calls and returns; it is advanced afterwards by
/// the fetch loop, so a jump to `t` continues at `t + 1`.
pub open spec fn effect(m: MachineView, i: InstrView) -> Result<MachineView, RuntimeError> {
    match i {
        InstrView::Load(v, t) => match load_value(m.registers, m.vars, v, t) {
            Ok(x) => Ok(MachineView { stack: m.stack.push(x), ..m }),
            Err(e) => Err(e),
        },
        InstrView::Add => binary_effect(m, ArithOp::Add),
        InstrView::Sub => binary_effect(m, ArithOp::Sub),
        InstrView::Mul => binary_effect(m, ArithOp::Mul),
        InstrView::Div => binary_effect(m, ArithOp::Div),
        InstrView::Mod => binary_effect(m, ArithOp::Rem),
        InstrView::Halt | InstrView::Label | InstrView::StartStr | InstrView::EndStr => Ok(m),
        InstrView::Show => if m.stack.len() == 0 {
            Err(RuntimeError::StackEmpty)
        } else {
            Ok(MachineView { stack: m.stack.drop_last(), out: m.out + display_bytes(m.stack.last()).push(NEWLINE), ..m })
        },
        InstrView::Jmp(l) => if l is Int8 {
            Ok(MachineView { pc: byte_of(l) as nat, ..m })
        } else {
            Err(RuntimeError::IllegalOperandType)
        },
        InstrView::Jz(l) => conditional_jump(m, l, m.zero),
        InstrView::Jn(l) => conditional_jump(m, l, m.negative),
        InstrView::Pop(v, t) => match pop_step(m.registers, m.vars, m.stack, v, t) {
            Ok((r, vars, s)) => Ok(MachineView { registers: r, vars, stack: s, ..m }),
            Err(e) => Err(e),
        },
        InstrView::Ret => if m.calls.len() == 0 {
            Ok(m)
        } else if m.calls.last().is_int() && m.calls.last().int_value() >= 0 {
            Ok(MachineView { pc: m.calls.last().int_value() as nat, calls: m.calls.drop_last(), ..m })
        } else {
            Err(RuntimeError::IllegalOperandType)
        },
        InstrView::Call(l) => if !(l is Int8) {
            Err(RuntimeError::IllegalOperandType)
        } else if m.pc > i32::MAX {
            Err(RuntimeError::ProgramCounterOutOfBounds)
        } else {
            Ok(MachineView { pc: byte_of(l) as nat, calls: m.calls.push(pc_value(m.pc)), ..m })
        },
        InstrView::Equ(v, t) => match load_value(m.registers, m.vars, v, t) {
            Ok(x) => if m.stack.len() == 0 {
                Err(RuntimeError::StackEmpty)
            } else {
                Ok(MachineView { stack: m.stack.push(equal_flag(m.stack.last(), x)), ..m })
            },
            Err(e) => Err(e),
        },
        InstrView::Neg => if m.stack.len() == 0 {
            Err(RuntimeError::StackEmpty)
        } else if !m.stack.last().is_int() {
            Err(RuntimeError::IllegalOperandType)
        } else {
            match arith(ArithOp::Sub, int_at(m.stack.last().rank(), 0), m.stack.last()) {
                Ok(x) => Ok(MachineView { stack: m.stack.drop_last().push(x), ..m }),
                Err(e) => Err(RuntimeError::Arithmetic(e)),
            }
        },
        InstrView::Deref => if m.stack.len() == 0 {
            Err(RuntimeError::StackEmpty)
        } else if !(m.stack.last() is Int8) {
            Err(RuntimeError::IllegalOperandType)
        } else {
            Ok(MachineView {
                stack: m.stack.drop_last().push(read_var(m.vars, (byte_of(m.stack.last()) / 8) as u8)),
                ..m
            })
        },
    }
}

pub open spec fn binary_effect(m: MachineView, op: ArithOp) -> Result<MachineView, RuntimeError> {
    match binary_step(m.stack, op) {
        Ok(s) => Ok(MachineView { stack: s, ..m }),
        Err(e) => Err(e),
    }
}

pub open spec fn conditional_jump(m: MachineView, l: DataView, taken: bool) -> Result<MachineView, RuntimeError> {
    if !taken {
        Ok(m)
    } else if l is Int8 {
        Ok(MachineView { pc: byte_of(l) as nat, ..m })
    } else {
        Err(RuntimeError::IllegalOperandType)
    }
}

/// One instruction: its effect, then the flag update.
pub open spec fn step_spec(m: MachineView, i: InstrView) -> Result<MachineView, RuntimeError> {
    match effect(m, i) {
        Ok(m1) => Ok(with_flags(m1)),
        Err(e) => Err(e),
    }
}

/// The view of a produced value or error.
pub open spec fn value_result(r: Result<InnerData, RuntimeError>) -> Result<DataView, RuntimeError> {
    match r {
        Ok(v) => Ok(v@),
        Err(e) => Err(e),
    }
}

/// The engine state after the flag update.
pub open spec fn flags_after(p: ProcessorView, stack: Seq<DataView>) -> ProcessorView {
    if stack.len() > 0 && stack.last().is_int() {
        ProcessorView { zero: stack.last().int_value() == 0, negative: stack.last().int_value() < 0, ..p }
    } else {
        p
    }
}

/// The registers, flags and program counter of the machine.
pub struct Processor {
    pc: usize,
    registers: [i8; 10],
    flag_register: FlagRegister,
}

impl View for Processor {
    type V = ProcessorView;

    closed spec fn view(&self) -> ProcessorView {
        ProcessorView {
            pc: self.pc as nat,
            registers: self.registers@,
            zero: self.flag_register.zero,
            negative: self.flag_register.negative,
        }
    }
}

/// Takes the top value off the stack.
fn pop_value(stack: &mut Stack) -> (r: Result<InnerData, RuntimeError>)
    ensures
        old(stack)@.len() == 0 ==> r == Err::<InnerData, RuntimeError>(RuntimeError::StackEmpty)
            && final(stack)@ == old(stack)@,
        old(stack)@.len() > 0 ==> r is Ok && r->Ok_0@ == old(stack)@.last()
            && final(stack)@ == old(stack)@.drop_last(),
{
    match stack.pop() {
        Some(v) => Ok(v),
        None => Err(RuntimeError::StackEmpty),
    }
}

/// Applies a binary operator to the two top values.
fn binary(stack: &mut Stack, op: ArithOp) -> (r: Result<(), RuntimeError>)
    ensures
        match r {
            Ok(_) => binary_step(old(stack)@, op) == Ok::<Seq<DataView>, RuntimeError>(final(stack)@),
            Err(e) => binary_step(old(stack)@, op) == Err::<Seq<DataView>, RuntimeError>(e),
        },
{
    let ghost s = stack@;
    let b = match pop_value(stack) {
        Ok(v) => v,
        Err(e) => return Err(e),
    };
    let a = match pop_value(stack) {
        Ok(v) => v,
        Err(e) => return Err(e),
    };
    proof {
        assert(s[s.len() - 2] == s.drop_last().last());
    }
    match InnerData::apply(op, a, b) {
        Ok(v) => {
            stack.push(v);
            Ok(())
        },
        Err(e) => Err(RuntimeError::Arithmetic(e)),
    }
}

/// The decimal digits of `n`.
fn nat_digits(n: u64) -> (r: Vec<u8>)
    ensures
        r@ == nat_text(n as nat),
    decreases n,
{
    if n < 10 {
        let mut r = Vec::new();
        r.push(48 + n as u8);
        proof {
            assert(r@ =~= nat_text(n as nat));
        }
        r
    } else {
        let mut r = nat_digits(n / 10);
        r.push(48 + (n % 10) as u8);
        r
    }
}

/// Appends all of `bytes` to `out`.
fn append_bytes(out: &mut Vec<u8>, bytes: &[u8])
    ensures
        final(out)@ == old(out)@ + bytes@,
{
    let mut i: usize = 0;
    while i < bytes.len()
        invariant
            i <= bytes@.len(),
            out@ == old(out)@ + bytes@.subrange(0, i as int),
        decreases bytes@.len() - i,
    {
        proof {
            assert(bytes@.subrange(0, i + 1) =~= bytes@.subrange(0, i as int).push(bytes@[i as int]));
        }
        out.push(bytes[i]);
        i = i + 1;
    }
    proof {
        assert(bytes@.subrange(0, i as int) =~= bytes@);
    }
}

/// Appends an integer in decimal.
fn write_int(out: &mut Vec<u8>, v: i64)
    requires
        v > i64::MIN,
    ensures
        final(out)@ == old(out)@ + int_text(v as int),
{
    if v < 0 {
        out.push(MINUS);
        let digits = nat_digits((-v) as u64);
        append_bytes(out, digits.as_slice());
        proof {
            assert(final(out)@ =~= old(out)@ + int_text(v as int));
        }
    } else {
        let digits = nat_digits(v as u64);
        append_bytes(out, digits.as_slice());
    }
}

/// Appends the display form of a value.
pub fn write_display(out: &mut Vec<u8>, v: &InnerData)
    ensures
        final(out)@ == old(out)@ + display_bytes(v@),
{
    match v {
        InnerData::INT(a) => write_int(out, *a as i64),
        InnerData::INT16(a) => write_int(out, *a as i64),
        InnerData::INT32(a) => write_int(out, *a as i64),
        InnerData::STR(s) => append_bytes(out, s.as_str().as_bytes()),
    }
}

/// The integer a value holds, if it is one.
fn int_of(v: &InnerData) -> (r: Option<i32>)
    ensures
        v@.is_int() ==> r == Some(v@.int_value() as i32),
        !v@.is_int() ==> r is None,
{
    match v {
        InnerData::INT(a) => Some(*a as i32),
        InnerData::INT16(a) => Some(*a as i32),
        InnerData::INT32(a) => Some(*a),
        InnerData::STR(_) => None,
    }
}

/// 1 when two values are equal integers or equal strings, else 0.
fn equal_data(a: &InnerData, b: &InnerData) -> (r: InnerData)
    ensures
        r@ == equal_flag(a@, b@),
{
    let same = match (a, b) {
        (InnerData::STR(s), InnerData::STR(t)) => s.eq(t),
        _ => match (int_of(a), int_of(b)) {
            (Some(x), Some(y)) => x == y,
            _ => false,
        },
    };
    if same {
        InnerData::INT(1)
    } else {
        InnerData::INT(0)
    }
}

/// Zero at the width of an integer.
fn zero_like(v: &InnerData) -> (r: InnerData)
    requires
        v@.is_int(),
    ensures
        r@ == int_at(v@.rank(), 0),
{
    match v {
        InnerData::INT(_) => InnerData::INT(0),
        InnerData::INT16(_) => InnerData::INT16(0),
        _ => InnerData::INT32(0),
    }
}

/// The program counter as the narrowest integer value that holds it.
fn pc_data(pc: usize) -> (r: InnerData)
    requires
        pc <= i32::MAX,
    ensures
        r@ == pc_value(pc as nat),
{
    if pc <= 127 {
        InnerData::INT(pc as i8)
    } else if pc <= 32767 {
        InnerData::INT16(pc as i16)
    } else {
        InnerData::INT32(pc as i32)
    }
}

impl Processor {
    /// A processor at instruction 0 with zeroed registers and clear flags.
    pub fn new() -> (r: Processor)
        ensures
            r@.pc == 0,
            r@.registers == Seq::new(10, |i: int| 0i8),
            !r@.zero,
            !r@.negative,
    {
        let r = Processor { pc: 0, registers: [0i8; 10], flag_register: FlagRegister::new() };
        proof {
            assert(r@.registers =~= Seq::new(10, |i: int| 0i8));
        }
        r
    }

    /// The index of the instruction to run next.
    pub fn pc(&self) -> (r: usize)
        ensures
            r == self@.pc,
    {
        self.pc
    }

    /// The registers.
    pub fn registers(&self) -> (r: [i8; 10])
        ensures
            r@ == self@.registers,
    {
        self.registers
    }

    /// The flags.
    pub fn flags(&self) -> (r: FlagRegister)
        ensures
            r.zero == self@.zero,
            r.negative == self@.negative,
    {
        self.flag_register
    }

    /// The value an operand names under an addressing tag.
    fn load_operand(&self, value: &InnerData, tag: u8, data_memory: &DataMemory) -> (r: Result<InnerData, RuntimeError>)
        ensures
            value_result(r) == load_value(self@.registers, data_memory@, value@, tag),
    {
        if tag == REGISTER_OFFSET {
            match value {
                InnerData::INT(i) => if *i < 0 || *i >= 10 {
                    Err(RuntimeError::RegisterOutOfBounds)
                } else {
                    Ok(InnerData::INT(self.registers[*i as usize]))
                },
                _ => Err(RuntimeError::IllegalOperandType),
            }
        } else if tag == STACK_OFFSET || tag == STACK_OFFSET_STR {
            Ok(value.clone())
        } else if tag == DATA_MEMORY_OFFSET {
            match value {
                InnerData::INT(a) => Ok(data_memory.get_var_value(*a as u8).clone()),
                _ => Err(RuntimeError::IllegalOperandType),
            }
        } else if tag == ADDR_OFFSET {
            match value {
                InnerData::INT(a) => Ok(InnerData::INT((*a as u8).wrapping_mul(8) as i8)),
                _ => Err(RuntimeError::IllegalOperandType),
            }
        } else {
            Err(RuntimeError::InvalidTag(tag))
        }
    }

    /// Stores the top value where `POP` with this operand and tag puts it.
    fn pop_into(&mut self, value: &InnerData, tag: u8, data_memory: &mut DataMemory, stack: &mut Stack) -> (r: Result<(), RuntimeError>)
        ensures
            final(self)@.pc == old(self)@.pc,
            final(self)@.zero == old(self)@.zero,
            final(self)@.negative == old(self)@.negative,
            r is Err ==> final(self)@.registers == old(self)@.registers && final(data_memory)@ == old(
                data_memory,
            )@,
            match r {
                Ok(_) => pop_step(old(self)@.registers, old(data_memory)@, old(stack)@, value@, tag)
                    == Ok::<(Seq<i8>, Map<u8, DataView>, Seq<DataView>), RuntimeError>(
                    (final(self)@.registers, final(data_memory)@, final(stack)@)),
                Err(e) => pop_step(old(self)@.registers, old(data_memory)@, old(stack)@, value@, tag)
                    == Err::<(Seq<i8>, Map<u8, DataView>, Seq<DataView>), RuntimeError>(e),
            },
    {
        if tag == REGISTER_OFFSET {
            let idx = match value {
                InnerData::INT(i) => *i,
                _ => return Err(RuntimeError::IllegalOperandType),
            };
            if idx < 0 || idx >= 10 {
                return Err(RuntimeError::RegisterOutOfBounds);
            }
            let top = match pop_value(stack) {
                Ok(v) => v,
                Err(e) => return Err(e),
            };
            match top {
                InnerData::INT(x) => {
                    self.registers[idx as usize] = x;
                    Ok(())
                },
                _ => Err(RuntimeError::IllegalOperandType),
            }
        } else if tag == DATA_MEMORY_OFFSET {
            let top = match pop_value(stack) {
                Ok(v) => v,
                Err(e) => return Err(e),
            };
            match value {
                InnerData::INT(a) => {
                    data_memory.set_var_value(*a as u8, top);
                    Ok(())
                },
                _ => Err(RuntimeError::IllegalOperandType),
            }
        } else if tag == PTR_OFFSET {
            let address = match value {
                InnerData::INT(a) => data_memory.get_var_value(*a as u8).clone(),
                _ => return Err(RuntimeError::IllegalOperandType),
            };
            let top = match pop_value(stack) {
                Ok(v) => v,
                Err(e) => return Err(e),
            };
            match address {
                InnerData::INT(p) => {
                    data_memory.set_var_value((p as u8) / 8, top);
                    Ok(())
                },
                _ => Err(RuntimeError::IllegalOperandType),
            }
        } else {
            Err(RuntimeError::InvalidTag(tag))
        }
    }

    /// Sets the flags from an integer on top of the stack.
    fn update_flags(&mut self, stack: &Stack)
        ensures
            final(self)@ == flags_after(old(self)@, stack@),
    {
        if stack.head() > 0 {
            match int_of(stack.top()) {
                Some(v) => {
                    self.flag_register.zero = v == 0;
                    self.flag_register.negative = v < 0;
                },
                None => {},
            }
        }
    }
}

/// The result of an instruction over the machine state before and after it.
pub open spec fn matches_step(
    m0: MachineView,
    i: InstrView,
    m1: MachineView,
    r: Result<(), RuntimeError>,
    f: spec_fn(MachineView, InstrView) -> Result<MachineView, RuntimeError>,
) -> bool {
    match r {
        Ok(_) => f(m0, i) == Ok::<MachineView, RuntimeError>(m1),
        Err(e) => f(m0, i) == Err::<MachineView, RuntimeError>(e),
    }
}

/// One fetch-execute step: the instruction at the program counter runs,
/// then the counter advances by one. The flag says the instruction was
/// `HALT`.
pub open spec fn step_at(m: MachineView, program: Seq<InstrView>) -> Result<(MachineView, bool), RuntimeError> {
    if m.pc >= program.len() {
        Err(RuntimeError::ProgramCounterOutOfBounds)
    } else {
        match step_spec(m, program[m.pc as int]) {
            Err(e) => Err(e),
            Ok(m1) => if m1.pc + 1 > usize::MAX {
                Err(RuntimeError::ProgramCounterOutOfBounds)
            } else {
                Ok((MachineView { pc: m1.pc + 1, ..m1 }, program[m.pc as int] is Halt))
            },
        }
    }
}

/// Runs a program from state `m` for at most `fuel` steps, stopping after
/// `HALT`.
pub open spec fn run_spec(m: MachineView, program: Seq<InstrView>, fuel: nat) -> Result<MachineView, RuntimeError>
    decreases fuel,
{
    if fuel == 0 {
        Err(RuntimeError::StepLimitReached)
    } else {
        match step_at(m, program) {
            Err(e) => Err(e),
            Ok((m1, halted)) => if halted {
                Ok(m1)
            } else {
                run_spec(m1, program, (fuel - 1) as nat)
            },
        }
    }
}

impl Processor {
    /// Performs an instruction's effect, before the flag update.
    fn apply_effect(
        &mut self,
        instruction: &InstructionSet,
        data_memory: &mut DataMemory,
        stack: &mut Stack,
        call_stack: &mut Stack,
        stdout: &mut Vec<u8>,
    ) -> (r: Result<(), RuntimeError>)
        ensures
            matches_step(
                machine(old(self)@, old(data_memory)@, old(stack)@, old(call_stack)@, old(stdout)@),
                instruction@,
                machine(final(self)@, final(data_memory)@, final(stack)@, final(call_stack)@, final(stdout)@),
                r,
                |m: MachineView, i: InstrView| effect(m, i),
            ),
            r is Err ==> final(self)@.registers == old(self)@.registers && final(data_memory)@ == old(
                data_memory,
            )@,
    {
        match instruction {
            InstructionSet::LOAD(value, tag) => {
                let v = match self.load_operand(value, *tag, data_memory) {
                    Ok(v) => v,
                    Err(e) => return Err(e),
                };
                stack.push(v);
                Ok(())
            },
            InstructionSet::ADD => binary(stack, ArithOp::Add),
            InstructionSet::SUB => binary(stack, ArithOp::Sub),
            InstructionSet::MUL => binary(stack, ArithOp::Mul),
            InstructionSet::DIV => binary(stack, ArithOp::Div),
            InstructionSet::MOD => binary(stack, ArithOp::Rem),
            InstructionSet::HALT | InstructionSet::LABEL | InstructionSet::STARTSTR | InstructionSet::ENDSTR => Ok(()),
            InstructionSet::SHOW => {
                let v = match pop_value(stack) {
                    Ok(v) => v,
                    Err(e) => return Err(e),
                };
                write_display(stdout, &v);
                stdout.push(NEWLINE);
                proof {
                    assert(stdout@ =~= old(stdout)@ + display_bytes(v@).push(NEWLINE));
                }
                Ok(())
            },
            InstructionSet::JMP(label) => match label {
                InnerData::INT(l) => {
                    self.pc = *l as u8 as usize;
                    Ok(())
                },
                _ => Err(RuntimeError::IllegalOperandType),
            },
            InstructionSet::JZ(label) => {
                let taken = self.flag_register.zero;
                self.jump_if(label, taken)
            },
            InstructionSet::JN(label) => {
                let taken = self.flag_register.negative;
                self.jump_if(label, taken)
            },
            InstructionSet::POP(value, tag) => self.pop_into(value, *tag, data_memory, stack),
            InstructionSet::RET => {
                if call_stack.head() == 0 {
                    return Ok(());
                }
                let target = match call_stack.top() {
                    InnerData::INT(v) => if *v >= 0 { Some(*v as usize) } else { None },
                    InnerData::INT16(v) => if *v >= 0 { Some(*v as usize) } else { None },
                    InnerData::INT32(v) => if *v >= 0 { Some(*v as usize) } else { None },
                    InnerData::STR(_) => None,
                };
                match target {
                    Some(t) => {
                        let _ = call_stack.pop();
                        self.pc = t;
                        Ok(())
                    },
                    None => Err(RuntimeError::IllegalOperandType),
                }
            },
            InstructionSet::CALL(label) => match label {
                InnerData::INT(l) => {
                    if self.pc > 2147483647 {
                        return Err(RuntimeError::ProgramCounterOutOfBounds);
                    }
                    call_stack.push(pc_data(self.pc));
                    self.pc = *l as u8 as usize;
                    Ok(())
                },
                _ => Err(RuntimeError::IllegalOperandType),
            },
            InstructionSet::EQU(value, tag) => {
                let x = match self.load_operand(value, *tag, data_memory) {
                    Ok(v) => v,
                    Err(e) => return Err(e),
                };
                if stack.head() == 0 {
                    return Err(RuntimeError::StackEmpty);
                }
                let flag = equal_data(stack.top(), &x);
                stack.push(flag);
                Ok(())
            },
            InstructionSet::NEG => {
                let v = match pop_value(stack) {
                    Ok(v) => v,
                    Err(e) => return Err(e),
                };
                if v.is_str() {
                    return Err(RuntimeError::IllegalOperandType);
                }
                let zero = zero_like(&v);
                match InnerData::apply(ArithOp::Sub, zero, v) {
                    Ok(n) => {
                        stack.push(n);
                        Ok(())
                    },
                    Err(e) => Err(RuntimeError::Arithmetic(e)),
                }
            },
            InstructionSet::DEREF => {
                let v = match pop_value(stack) {
                    Ok(v) => v,
                    Err(e) => return Err(e),
                };
                match v {
                    InnerData::INT(a) => {
                        let x = data_memory.get_var_value((a as u8) / 8).clone();
                        stack.push(x);
                        Ok(())
                    },
                    _ => Err(RuntimeError::IllegalOperandType),
                }
            },
        }
    }

    /// Jumps to an 8-bit label when `taken`.
    fn jump_if(&mut self, label: &InnerData, taken: bool) -> (r: Result<(), RuntimeError>)
        ensures
            !taken ==> r is Ok && final(self)@ == old(self)@,
            taken && label@ is Int8 ==> r is Ok && final(self)@ == (ProcessorView {
                pc: byte_of(label@) as nat,
                ..old(self)@
            }),
            taken && !(label@ is Int8) ==> r == Err::<(), RuntimeError>(RuntimeError::IllegalOperandType)
                && final(self)@ == old(self)@,
    {
        if !taken {
            return Ok(());
        }
        match label {
            InnerData::INT(l) => {
                self.pc = *l as u8 as usize;
                Ok(())
            },
            _ => Err(RuntimeError::IllegalOperandType),
        }
    }

    /// Executes one instruction: its effect, then the flag update from the
    /// top of the operand stack. The program counter is not advanced.
    pub fn execute(
        &mut self,
        instruction: &InstructionSet,
        data_memory: &mut DataMemory,
        stack: &mut Stack,
        call_stack: &mut Stack,
        stdout: &mut Vec<u8>,
    ) -> (r: Result<(), RuntimeError>)
        ensures
            matches_step(
                machine(old(self)@, old(data_memory)@, old(stack)@, old(call_stack)@, old(stdout)@),
                instruction@,
                machine(final(self)@, final(data_memory)@, final(stack)@, final(call_stack)@, final(stdout)@),
                r,
                |m: MachineView, i: InstrView| step_spec(m, i),
            ),
            r is Err ==> final(self)@.registers == old(self)@.registers && final(data_memory)@ == old(
                data_memory,
            )@,
    {
        let r = self.apply_effect(instruction, data_memory, stack, call_stack, stdout);
        if r.is_ok() {
            self.update_flags(stack);
        }
        r
    }
}

impl Processor {
    /// Fetches the instruction at the program counter, executes it and
    /// advances the counter. `Ok(true)` when the instruction was `HALT`.
    pub fn step(
        &mut self,
        program_memory: &ProgramMemory,
        data_memory: &mut DataMemory,
        stack: &mut Stack,
        call_stack: &mut Stack,
        stdout: &mut Vec<u8>,
    ) -> (r: Result<bool, RuntimeError>)
        ensures
            ({
                let m0 = machine(old(self)@, old(data_memory)@, old(stack)@, old(call_stack)@, old(stdout)@);
                let m1 = machine(final(self)@, final(data_memory)@, final(stack)@, final(call_stack)@, final(stdout)@);
                match r {
                    Ok(h) => step_at(m0, program_memory@) == Ok::<(MachineView, bool), RuntimeError>((m1, h)),
                    Err(e) => step_at(m0, program_memory@) == Err::<(MachineView, bool), RuntimeError>(e),
                }
            }),
    {
        if self.pc >= program_memory.program.len() {
            return Err(RuntimeError::ProgramCounterOutOfBounds);
        }
        let instruction = program_memory.get_instruction(self.pc);
        match self.execute(instruction, data_memory, stack, call_stack, stdout) {
            Ok(_) => {},
            Err(e) => return Err(e),
        }
        if self.pc == usize::MAX {
            return Err(RuntimeError::ProgramCounterOutOfBounds);
        }
        self.pc = self.pc + 1;
        Ok(matches!(instruction, InstructionSet::HALT))
    }

    /// Runs the program from the current program counter until `HALT` has
    /// executed, for at most `STEP_LIMIT` instructions.
    pub fn execute_program(
        &mut self,
        program_memory: ProgramMemory,
        data_memory: &mut DataMemory,
        stack: &mut Stack,
        call_stack: &mut Stack,
        stdout: &mut Vec<u8>,
    ) -> (r: Result<(), RuntimeError>)
        ensures
            ({
                let m0 = machine(old(self)@, old(data_memory)@, old(stack)@, old(call_stack)@, old(stdout)@);
                let m1 = machine(final(self)@, final(data_memory)@, final(stack)@, final(call_stack)@, final(stdout)@);
                match r {
                    Ok(_) => run_spec(m0, program_memory@, STEP_LIMIT as nat) == Ok::<MachineView, RuntimeError>(m1),
                    Err(e) => run_spec(m0, program_memory@, STEP_LIMIT as nat) == Err::<MachineView, RuntimeError>(e),
                }
            }),
    {
        let ghost m0 = machine(self@, data_memory@, stack@, call_stack@, stdout@);
        let mut fuel: u64 = STEP_LIMIT;
        while fuel > 0
            invariant
                m0 == machine(old(self)@, old(data_memory)@, old(stack)@, old(call_stack)@, old(stdout)@),
                run_spec(m0, program_memory@, STEP_LIMIT as nat) == run_spec(
                    machine(self@, data_memory@, stack@, call_stack@, stdout@),
                    program_memory@,
                    fuel as nat,
                ),
            decreases fuel,
        {
            let ghost cur = machine(self@, data_memory@, stack@, call_stack@, stdout@);
            let r = self.step(&program_memory, data_memory, stack, call_stack, stdout);
            let ghost next = machine(self@, data_memory@, stack@, call_stack@, stdout@);
            proof {
                assert(run_spec(cur, program_memory@, fuel as nat) == match step_at(cur, program_memory@) {
                    Err(e) => Err(e),
                    Ok((m1, halted)) => if halted {
                        Ok(m1)
                    } else {
                        run_spec(m1, program_memory@, (fuel - 1) as nat)
                    },
                });
            }
            match r {
                Ok(true) => return Ok(()),
                Ok(false) => {},
                Err(e) => return Err(e),
            }
            fuel = fuel - 1;
        }
        Err(RuntimeError::StepLimitReached)
    }
}

/// A logical stack operation, as recorded in a trace.
#[derive(Debug, Clone, Copy, PartialEq, Eq, Structural)]
pub enum StackEvent {
    Push,
    Pop,
}

/// The pushes and pops an instruction implies on the operand stack and on
/// the call stack, in order.
pub open spec fn events_of(i: InstrView) -> (Seq<StackEvent>, Seq<StackEvent>) {
    match i {
        InstrView::Load(_, _) => (seq![StackEvent::Push], Seq::empty()),
        InstrView::Equ(_, _) => (seq![StackEvent::Push], Seq::empty()),
        InstrView::Add | InstrView::Sub | InstrView::Mul | InstrView::Div | InstrView::Mod => (
            seq![StackEvent::Pop, StackEvent::Pop, StackEvent::Push],
            Seq::empty(),
        ),
        InstrView::Show | InstrView::Pop(_, _) => (seq![StackEvent::Pop], Seq::empty()),
        InstrView::Neg | InstrView::Deref => (seq![StackEvent::Pop, StackEvent::Push], Seq::empty()),
        InstrView::Call(_) => (Seq::empty(), seq![StackEvent::Push]),
        InstrView::Ret => (Seq::empty(), seq![StackEvent::Pop]),
        _ => (Seq::empty(), Seq::empty()),
    }
}

/// The stack events of an instruction: those on the operand stack, then
/// those on the call stack.
pub fn stack_events(instruction: &InstructionSet) -> (r: (Vec<StackEvent>, Vec<StackEvent>))
    ensures
        (r.0@, r.1@) == events_of(instruction@),
{
    let mut operand: Vec<StackEvent> = Vec::new();
    let mut call: Vec<StackEvent> = Vec::new();
    match instruction {
        InstructionSet::LOAD(_, _) | InstructionSet::EQU(_, _) => operand.push(StackEvent::Push),
        InstructionSet::ADD | InstructionSet::SUB | InstructionSet::MUL | InstructionSet::DIV | InstructionSet::MOD => {
            operand.push(StackEvent::Pop);
            operand.push(StackEvent::Pop);
            operand.push(StackEvent::Push);
        },
        InstructionSet::SHOW | InstructionSet::POP(_, _) => operand.push(StackEvent::Pop),
        InstructionSet::NEG | InstructionSet::DEREF => {
            operand.push(StackEvent::Pop);
            operand.push(StackEvent::Push);
        },
        InstructionSet::CALL(_) => call.push(StackEvent::Push),
        InstructionSet::RET => call.push(StackEvent::Pop),
        _ => {},
    }
    proof {
        assert(operand@ =~= events_of(instruction@).0);
        assert(call@ =~= events_of(instruction@).1);
    }
    (operand, call)
}

/// A call returns after itself: `CALL` at index `p` saves `p`, and a `RET`
/// that finds the call stack as that `CALL` left it pops the saved value and
/// sets the program counter back to `p`, so the fetch loop goes on at
/// `p + 1`, the instruction right after the `CALL`.
pub proof fn lemma_call_returns(m: MachineView, label: DataView, callee: MachineView)
    requires
        label is Int8,
        m.pc <= i32::MAX,
        callee.calls == m.calls.push(pc_value(m.pc)),
    ensures
        step_spec(m, InstrView::Call(label)) is Ok,
        step_spec(m, InstrView::Call(label))->Ok_0.calls == callee.calls,
        step_spec(callee, InstrView::Ret) is Ok,
        step_spec(callee, InstrView::Ret)->Ok_0.pc == m.pc,
        step_spec(callee, InstrView::Ret)->Ok_0.calls == m.calls,
{
    assert(callee.calls.drop_last() =~= m.calls);
}

} // verus!
