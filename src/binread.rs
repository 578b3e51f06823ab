//! The bytecode decoder: turns a program image into instructions.
//!
//! An image is a sequence of opcode bytes. The jumps and `CALL` take one
//! operand byte (the target): `[op, target]`. `LOAD` and `POP` take two,
//! the operand first and the addressing tag second: `[op, operand, tag]`.
//! An image that puts the tag before the operand decodes to other
//! instructions. When the byte after `LOAD` or `POP` is a literal tag and
//! the one after it is `STARTSTR`, an inline literal follows instead:
//! `[op, tag, STARTSTR, bytes.., ENDSTR]`. The last instruction of an image
//! is built without operands.
use vstd::prelude::*;

use crate::instructions::{arity, instr_of, operands_fit, InstrView, InstructionSet, LAST_OPCODE};
use crate::memory::data::{
    all_digits, digits_value, int_at, is_digit, max_at, parse_int, parsed, sign_len, DataView, InnerData, IntWidth,
};
use crate::processor::{STACK_OFFSET, STACK_OFFSET_STR};

verus! {

/// The opcode that opens an inline literal.
pub const START_OBJECT: u8 = 12;

/// The byte that closes an inline literal.
pub const END_OBJECT: u8 = 13;

/// Why an image could not be decoded.
#[derive(Debug, Clone, Copy, PartialEq, Eq, Structural)]
pub enum DecodeError {
    /// The image holds no byte.
    EmptyProgram,
    /// An opcode above the last one.
    UnknownOpcode(u8),
    /// The opcode takes operands that it was not given (it is the last
    /// instruction, or it is `EQU`, whose operands no image can carry).
    MissingOperand(u8),
    /// The image ends inside an instruction's operand bytes.
    Truncated,
    /// An inline literal has no closing byte.
    UnterminatedLiteral,
    /// A numeric literal is not a number of the width its length selects, or
    /// has no digit or more than ten.
    InvalidLiteral,
    /// A ten-digit literal beyond the 32-bit bound.
    LiteralOverflow,
}

/// One instruction as it stands in the image, before it is built.
pub struct Item {
    pub op: u8,
    pub arg: Option<DataView>,
    pub arg1: Option<DataView>,
    pub size: nat,
}

/// The jumps and `CALL`.
pub open spec fn takes_one(op: u8) -> bool {
    op == 8 || op == 10 || op == 11 || op == 16
}

/// `LOAD` and `POP`.
pub open spec fn takes_two(op: u8) -> bool {
    op == 0 || op == 9
}

pub open spec fn literal_tag(b: u8) -> bool {
    b == STACK_OFFSET || b == STACK_OFFSET_STR
}

/// How many bytes from `j` on come before the first `END_OBJECT`.
pub open spec fn text_len(bytes: Seq<u8>, j: int) -> Option<nat>
    decreases bytes.len() - j,
{
    if j < 0 || j >= bytes.len() {
        None
    } else if bytes[j] == END_OBJECT {
        Some(0)
    } else {
        match text_len(bytes, j + 1) {
            Some(n) => Some(n + 1),
            None => None,
        }
    }
}

/// A digit of a literal: the byte minus '0', wrapped to a byte.
pub open spec fn digit_of(b: u8) -> u8 {
    ((b as int - 48) % 256) as u8
}

/// Every digit of `digits` is at most the digit at the same place of
/// `reference`, and both have the same length.
pub open spec fn within(digits: Seq<u8>, reference: Seq<u8>) -> bool {
    digits.len() == reference.len() && forall|k: int| 0 <= k < digits.len() ==> digit_of(#[trigger] digits[k]) <= digit_of(reference[k])
}

/// The bound a three-digit literal is held to.
pub open spec fn ref3() -> Seq<u8> {
    seq![49u8, 50, 56]
}

/// The bound a five-digit literal is held to.
pub open spec fn ref5() -> Seq<u8> {
    seq![51u8, 50, 55, 54, 55]
}

/// The bound a ten-digit literal is held to.
pub open spec fn ref10() -> Seq<u8> {
    seq![50u8, 49, 52, 55, 52, 56, 51, 54, 52, 55]
}

/// A literal read at a width.
pub open spec fn read_at(text: Seq<u8>, w: IntWidth) -> Result<DataView, DecodeError> {
    match parsed(text, w) {
        Some(v) => Ok(v),
        None => Err(DecodeError::InvalidLiteral),
    }
}

/// A numeric literal: its length picks the width, and at lengths 3, 5 and
/// 10 a digit-by-digit comparison with the narrower width's bound decides.
pub open spec fn number_value(text: Seq<u8>) -> Result<DataView, DecodeError> {
    let n = text.len();
    if n == 1 || n == 2 {
        read_at(text, IntWidth::W8)
    } else if n == 3 {
        if within(text, ref3()) {
            read_at(text, IntWidth::W8)
        } else {
            read_at(text, IntWidth::W16)
        }
    } else if n == 4 {
        read_at(text, IntWidth::W16)
    } else if n == 5 {
        if within(text, ref5()) {
            read_at(text, IntWidth::W16)
        } else {
            read_at(text, IntWidth::W32)
        }
    } else if 6 <= n <= 9 {
        read_at(text, IntWidth::W32)
    } else if n == 10 {
        if within(text, ref10()) {
            read_at(text, IntWidth::W32)
        } else {
            Err(DecodeError::LiteralOverflow)
        }
    } else {
        Err(DecodeError::InvalidLiteral)
    }
}

/// The characters of a string literal, one per byte.
pub open spec fn text_chars(text: Seq<u8>) -> Seq<char> {
    text.map_values(|b: u8| b as char)
}

/// The value of a literal under its tag.
pub open spec fn literal_value(tag: u8, text: Seq<u8>) -> Result<DataView, DecodeError> {
    if tag == STACK_OFFSET_STR {
        Ok(DataView::Str(text_chars(text)))
    } else {
        number_value(text)
    }
}

/// The instruction whose opcode is at `i`.
pub open spec fn item_at(bytes: Seq<u8>, i: int) -> Result<Item, DecodeError> {
    let op = bytes[i];
    let len = bytes.len();
    if takes_one(op) {
        if i + 1 < len {
            Ok(Item { op, arg: Some(DataView::Int8(bytes[i + 1] as i8)), arg1: None, size: 2 })
        } else {
            Ok(Item { op, arg: None, arg1: None, size: 1 })
        }
    } else if takes_two(op) {
        if len - i <= 2 {
            Err(DecodeError::Truncated)
        } else if literal_tag(bytes[i + 1]) && bytes[i + 2] == START_OBJECT {
            match text_len(bytes, i + 3) {
                None => Err(DecodeError::UnterminatedLiteral),
                Some(n) => match literal_value(bytes[i + 1], bytes.subrange(i + 3, i + 3 + n)) {
                    Ok(v) => Ok(Item { op, arg: Some(v), arg1: Some(DataView::Int8(bytes[i + 1] as i8)), size: n + 4 }),
                    Err(e) => Err(e),
                },
            }
        } else {
            Ok(Item {
                op,
                arg: Some(DataView::Int8(bytes[i + 1] as i8)),
                arg1: Some(DataView::Int8(bytes[i + 2] as i8)),
                size: 3,
            })
        }
    } else {
        Ok(Item { op, arg: None, arg1: None, size: 1 })
    }
}

/// Builds an item into an instruction; the last one of the image gets no
/// operands.
pub open spec fn build(item: Item, last: bool) -> Result<InstrView, DecodeError> {
    let a = if last { None } else { item.arg };
    let b = if last { None } else { item.arg1 };
    if item.op > LAST_OPCODE {
        Err(DecodeError::UnknownOpcode(item.op))
    } else if !operands_fit(item.op, a, b) {
        Err(DecodeError::MissingOperand(item.op))
    } else {
        Ok(instr_of(item.op, a.unwrap_or(DataView::Int8(0)), b.unwrap_or(DataView::Int8(0))))
    }
}

/// Decodes the image from position `i` on, after the instructions `acc`.
pub open spec fn decode_from(bytes: Seq<u8>, i: nat, acc: Seq<InstrView>) -> Result<Seq<InstrView>, DecodeError>
    decreases bytes.len() - i,
{
    if i >= bytes.len() {
        Ok(acc)
    } else {
        match item_at(bytes, i as int) {
            Err(e) => Err(e),
            Ok(item) => {
                let last = i + item.size >= bytes.len();
                match build(item, last) {
                    Err(e) => Err(e),
                    Ok(ins) => if last {
                        Ok(acc.push(ins))
                    } else {
                        decode_from(bytes, i + item.size, acc.push(ins))
                    },
                }
            },
        }
    }
}

/// The instructions an image decodes to.
pub open spec fn decode_spec(bytes: Seq<u8>) -> Result<Seq<InstrView>, DecodeError> {
    if bytes.len() == 0 {
        Err(DecodeError::EmptyProgram)
    } else {
        decode_from(bytes, 0, Seq::empty())
    }
}

/// Relies on `String::push`: appends one character to the string.
#[verifier::external_body]
fn push_char(s: &mut String, c: char)
    ensures
        final(s)@ == old(s)@.push(c),
{
    s.push(c);
}

/// The string whose characters are the bytes of `text`, one each.
fn text_string(text: &Vec<u8>) -> (r: String)
    ensures
        r@ == text_chars(text@),
{
    let mut r = String::new();
    let mut i: usize = 0;
    while i < text.len()
        invariant
            i <= text@.len(),
            r@ == text_chars(text@.subrange(0, i as int)),
        decreases text@.len() - i,
    {
        proof {
            assert(text_chars(text@.subrange(0, i + 1)) =~= text_chars(text@.subrange(0, i as int)).push(
                text@[i as int] as char,
            ));
        }
        push_char(&mut r, text[i] as char);
        i = i + 1;
    }
    proof {
        assert(text@.subrange(0, i as int) =~= text@);
    }
    r
}

/// Compares a literal with a bound digit by digit: the same length, and no
/// digit of `digits` above the digit of `reference` at the same place. This
/// bounds the digits, not the number: "128" is within "128".
pub fn digits_within(digits: &[u8], reference: &[u8]) -> (r: bool)
    ensures
        r == within(digits@, reference@),
{
    if digits.len() != reference.len() {
        return false;
    }
    let mut k: usize = 0;
    while k < digits.len()
        invariant
            digits@.len() == reference@.len(),
            k <= digits@.len(),
            forall|j: int| 0 <= j < k ==> digit_of(#[trigger] digits@[j]) <= digit_of(reference@[j]),
        decreases digits@.len() - k,
    {
        if digits[k].wrapping_sub(48) > reference[k].wrapping_sub(48) {
            return false;
        }
        k = k + 1;
    }
    true
}

/// Reads a literal at a width.
fn read_number(text: &Vec<u8>, width: IntWidth) -> (r: Result<InnerData, DecodeError>)
    ensures
        match r {
            Ok(v) => read_at(text@, width) == Ok::<DataView, DecodeError>(v@),
            Err(e) => read_at(text@, width) == Err::<DataView, DecodeError>(e),
        },
{
    match parse_int(text.as_slice(), width) {
        Some(v) => Ok(v),
        None => Err(DecodeError::InvalidLiteral),
    }
}

/// Reads a literal at the narrower width when it is within the bound, else
/// at the wider width; with no wider width, a literal beyond the bound
/// overflows.
pub fn in_range_or_promote(text: &Vec<u8>, reference: &[u8], in_range: IntWidth, out_range: Option<IntWidth>) -> (r: Result<InnerData, DecodeError>)
    ensures
        ({
            let expected = if within(text@, reference@) {
                read_at(text@, in_range)
            } else {
                match out_range {
                    Some(w) => read_at(text@, w),
                    None => Err(DecodeError::LiteralOverflow),
                }
            };
            match r {
                Ok(v) => expected == Ok::<DataView, DecodeError>(v@),
                Err(e) => expected == Err::<DataView, DecodeError>(e),
            }
        }),
{
    if digits_within(text.as_slice(), reference) {
        read_number(text, in_range)
    } else {
        match out_range {
            Some(w) => read_number(text, w),
            None => Err(DecodeError::LiteralOverflow),
        }
    }
}

/// Decodes a numeric literal by the length table.
pub fn decode_number(text: &Vec<u8>) -> (r: Result<InnerData, DecodeError>)
    ensures
        match r {
            Ok(v) => number_value(text@) == Ok::<DataView, DecodeError>(v@),
            Err(e) => number_value(text@) == Err::<DataView, DecodeError>(e),
        },
{
    let n = text.len();
    if n == 1 || n == 2 {
        read_number(text, IntWidth::W8)
    } else if n == 3 {
        let reference: [u8; 3] = [49, 50, 56];
        proof {
            assert(reference@ =~= ref3());
        }
        in_range_or_promote(text, reference.as_slice(), IntWidth::W8, Some(IntWidth::W16))
    } else if n == 4 {
        read_number(text, IntWidth::W16)
    } else if n == 5 {
        let reference: [u8; 5] = [51, 50, 55, 54, 55];
        proof {
            assert(reference@ =~= ref5());
        }
        in_range_or_promote(text, reference.as_slice(), IntWidth::W16, Some(IntWidth::W32))
    } else if 6 <= n && n <= 9 {
        read_number(text, IntWidth::W32)
    } else if n == 10 {
        let reference: [u8; 10] = [50, 49, 52, 55, 52, 56, 51, 54, 52, 55];
        proof {
            assert(reference@ =~= ref10());
        }
        in_range_or_promote(text, reference.as_slice(), IntWidth::W32, None)
    } else {
        Err(DecodeError::InvalidLiteral)
    }
}

/// The view of an optional operand.
pub open spec fn operand_view(o: Option<InnerData>) -> Option<DataView> {
    match o {
        Some(v) => Some(v@),
        None => None,
    }
}

/// The item read at `i` matches `item_at`.
pub open spec fn item_matches(bytes: Seq<u8>, i: int, r: Result<(u8, Option<InnerData>, Option<InnerData>, usize), DecodeError>) -> bool {
    match r {
        Ok((op, a, b, size)) => {
            &&& item_at(bytes, i) == Ok::<Item, DecodeError>(
                Item { op, arg: operand_view(a), arg1: operand_view(b), size: size as nat },
            )
            &&& i + size <= bytes.len()
        },
        Err(e) => item_at(bytes, i) == Err::<Item, DecodeError>(e),
    }
}

/// Reads an inline literal whose tag is at `i + 1`; its bytes start at
/// `i + 3`.
fn read_literal(bytes: &[u8], i: usize) -> (r: Result<(InnerData, usize), DecodeError>)
    requires
        i + 2 < bytes@.len(),
    ensures
        match r {
            Ok((v, n)) => text_len(bytes@, i + 3) == Some(n as nat)
                && literal_value(bytes@[i + 1], bytes@.subrange(i + 3, i + 3 + n)) == Ok::<DataView, DecodeError>(v@)
                && i + 3 + n < bytes@.len(),
            Err(e) => match text_len(bytes@, i + 3) {
                None => e == DecodeError::UnterminatedLiteral,
                Some(n) => literal_value(bytes@[i + 1], bytes@.subrange(i + 3, i + 3 + n)) == Err::<DataView, DecodeError>(e),
            },
        },
{
    let len = bytes.len();
    let start = i + 3;
    let mut j: usize = start;
    let mut text: Vec<u8> = Vec::new();
    while j < bytes.len() && bytes[j] != END_OBJECT
        invariant
            start <= j <= bytes@.len(),
            text@ == bytes@.subrange(start as int, j as int),
            text_len(bytes@, start as int) == match text_len(bytes@, j as int) {
                Some(n) => Some((n + (j - start)) as nat),
                None => None::<nat>,
            },
        decreases bytes@.len() - j,
    {
        proof {
            assert(bytes@.subrange(start as int, j + 1) =~= bytes@.subrange(start as int, j as int).push(bytes@[j as int]));
        }
        text.push(bytes[j]);
        j = j + 1;
    }
    if j >= bytes.len() {
        return Err(DecodeError::UnterminatedLiteral);
    }
    let n = j - start;
    let value = if bytes[i + 1] == STACK_OFFSET_STR {
        InnerData::STR(text_string(&text))
    } else {
        match decode_number(&text) {
            Ok(v) => v,
            Err(e) => return Err(e),
        }
    };
    Ok((value, n))
}

/// Reads the instruction whose opcode is at `i`: its opcode, operands and
/// size in bytes.
fn read_item(bytes: &[u8], i: usize) -> (r: Result<(u8, Option<InnerData>, Option<InnerData>, usize), DecodeError>)
    requires
        i < bytes@.len(),
    ensures
        item_matches(bytes@, i as int, r),
{
    let op = bytes[i];
    let len = bytes.len();
    if op == 8 || op == 10 || op == 11 || op == 16 {
        if i + 1 < len {
            Ok((op, Some(InnerData::INT(#[verifier::truncate] (bytes[i + 1] as i8))), None, 2))
        } else {
            Ok((op, None, None, 1))
        }
    } else if op == 0 || op == 9 {
        if len - i <= 2 {
            Err(DecodeError::Truncated)
        } else if (bytes[i + 1] == STACK_OFFSET || bytes[i + 1] == STACK_OFFSET_STR) && bytes[i + 2] == START_OBJECT {
            match read_literal(bytes, i) {
                Ok((v, n)) => Ok((op, Some(v), Some(InnerData::INT(#[verifier::truncate] (bytes[i + 1] as i8))), n + 4)),
                Err(e) => Err(e),
            }
        } else {
            Ok((op, Some(InnerData::INT(#[verifier::truncate] (bytes[i + 1] as i8))), Some(InnerData::INT(#[verifier::truncate] (bytes[i + 2] as i8))), 3))
        }
    } else {
        Ok((op, None, None, 1))
    }
}

/// How many operands the instruction with opcode `op` is built from.
fn arity_of(op: u8) -> (r: u8)
    ensures
        r == arity(op),
{
    if op == 0 || op == 9 || op == 17 {
        2
    } else if op == 8 || op == 10 || op == 11 || op == 16 {
        1
    } else {
        0
    }
}

/// Builds an instruction; the last one of the image gets no operands.
fn build_instruction(op: u8, arg: Option<InnerData>, arg1: Option<InnerData>, last: bool) -> (r: Result<InstructionSet, DecodeError>)
    ensures
        ({
            let item = Item { op, arg: operand_view(arg), arg1: operand_view(arg1), size: 0 };
            match r {
                Ok(ins) => build(item, last) == Ok::<InstrView, DecodeError>(ins@),
                Err(e) => build(item, last) == Err::<InstrView, DecodeError>(e),
            }
        }),
{
    let (a, b) = if last {
        (None, None)
    } else {
        (arg, arg1)
    };
    if op > LAST_OPCODE {
        return Err(DecodeError::UnknownOpcode(op));
    }
    let n = arity_of(op);
    let fits = (n < 1 || a.is_some()) && (n < 2 || match &b {
        Some(InnerData::INT(_)) => true,
        _ => false,
    });
    if !fits {
        return Err(DecodeError::MissingOperand(op));
    }
    Ok(InstructionSet::from_int(op, a, b))
}

/// Decodes a program image into its instructions.
pub fn decode(bytes: &[u8]) -> (r: Result<Vec<InstructionSet>, DecodeError>)
    ensures
        match r {
            Ok(p) => decode_spec(bytes@) == Ok::<Seq<InstrView>, DecodeError>(p@.map_values(|i: InstructionSet| i@)),
            Err(e) => decode_spec(bytes@) == Err::<Seq<InstrView>, DecodeError>(e),
        },
{
    if bytes.len() == 0 {
        return Err(DecodeError::EmptyProgram);
    }
    let mut program: Vec<InstructionSet> = Vec::new();
    let mut i: usize = 0;
    proof {
        assert(program@.map_values(|i: InstructionSet| i@) =~= Seq::<InstrView>::empty());
    }
    while i < bytes.len()
        invariant
            bytes@.len() > 0,
            i <= bytes@.len(),
            decode_spec(bytes@) == decode_from(bytes@, i as nat, program@.map_values(|i: InstructionSet| i@)),
        decreases bytes@.len() - i,
    {
        let ghost acc = program@.map_values(|i: InstructionSet| i@);
        let (op, arg, arg1, size) = match read_item(bytes, i) {
            Ok(item) => item,
            Err(e) => return Err(e),
        };
        let last = i + size >= bytes.len();
        let instruction = match build_instruction(op, arg, arg1, last) {
            Ok(ins) => ins,
            Err(e) => return Err(e),
        };
        program.push(instruction);
        proof {
            assert(program@.map_values(|i: InstructionSet| i@) =~= acc.push(program@.last()@));
        }
        if last {
            return Ok(program);
        }
        i = i + size;
    }
    Ok(program)
}

/// Ten to the power `n`.
pub open spec fn pow10(n: nat) -> int
    decreases n,
{
    if n == 0 {
        1
    } else {
        10 * pow10((n - 1) as nat)
    }
}

proof fn lemma_digits_bound(s: Seq<u8>)
    requires
        all_digits(s),
    ensures
        0 <= digits_value(s) < pow10(s.len()),
    decreases s.len(),
{
    if s.len() > 0 {
        let init = s.drop_last();
        assert forall|k: int| 0 <= k < init.len() implies is_digit(#[trigger] init[k]) by {
            assert(init[k] == s[k]);
        }
        lemma_digits_bound(init);
        assert(is_digit(s[s.len() - 1]));
    }
}

/// A text of one or more ASCII digits reads as its number at any width it
/// fits.
proof fn lemma_digit_text_reads(text: Seq<u8>, w: IntWidth)
    requires
        text.len() > 0,
        all_digits(text),
        digits_value(text) <= max_at(w.rank()),
    ensures
        read_at(text, w) == Ok::<DataView, DecodeError>(int_at(w.rank(), digits_value(text))),
{
    assert(is_digit(text[0]));
    assert(sign_len(text) == 0);
    assert(text.skip(0) =~= text);
    lemma_digits_bound(text);
}

/// The length table of numeric literals: a text of ASCII digits of length 1
/// or 2 reads as an 8-bit integer, of length 4 as a 16-bit one, of length 6
/// to 9 as a 32-bit one; at lengths 3, 5 and 10 the digit comparison with
/// the bound picks the narrower width or, failing it, the wider one (an
/// overflow at 10).
pub proof fn lemma_length_table(text: Seq<u8>)
    requires
        all_digits(text),
    ensures
        1 <= text.len() <= 2 ==> number_value(text) == Ok::<DataView, DecodeError>(int_at(0, digits_value(text))),
        text.len() == 4 ==> number_value(text) == Ok::<DataView, DecodeError>(int_at(1, digits_value(text))),
        6 <= text.len() <= 9 ==> number_value(text) == Ok::<DataView, DecodeError>(int_at(2, digits_value(text))),
        text.len() == 3 ==> number_value(text) == if within(text, ref3()) {
            read_at(text, IntWidth::W8)
        } else {
            Ok::<DataView, DecodeError>(int_at(1, digits_value(text)))
        },
        text.len() == 5 ==> number_value(text) == if within(text, ref5()) {
            read_at(text, IntWidth::W16)
        } else {
            Ok::<DataView, DecodeError>(int_at(2, digits_value(text)))
        },
        text.len() == 10 ==> number_value(text) == if within(text, ref10()) {
            read_at(text, IntWidth::W32)
        } else {
            Err::<DataView, DecodeError>(DecodeError::LiteralOverflow)
        },
        text.len() == 0 || text.len() > 10 ==> number_value(text) == Err::<DataView, DecodeError>(
            DecodeError::InvalidLiteral,
        ),
{
    lemma_digits_bound(text);
    let n = text.len();
    if n > 0 {
        reveal_with_fuel(pow10, 10);
        assert(pow10(1) == 10);
        assert(pow10(2) == 100);
        assert(pow10(3) == 1000);
        assert(pow10(4) == 10000);
        assert(pow10(5) == 100000);
        assert(pow10(6) == 1000000);
        assert(pow10(7) == 10000000);
        assert(pow10(8) == 100000000);
        assert(pow10(9) == 1000000000);
        if n <= 2 {
            lemma_digit_text_reads(text, IntWidth::W8);
        } else if n == 3 || n == 4 {
            lemma_digit_text_reads(text, IntWidth::W16);
        } else if n <= 9 {
            lemma_digit_text_reads(text, IntWidth::W32);
        }
    }
}

/// The image of a `LOAD` of the numeric literal `d`, then `HALT`.
pub open spec fn literal_load_image(d: Seq<u8>) -> Seq<u8> {
    seq![0u8, STACK_OFFSET, START_OBJECT] + d + seq![END_OBJECT, 5u8]
}

proof fn lemma_text_len_digits(d: Seq<u8>, j: int)
    requires
        all_digits(d),
        3 <= j <= 3 + d.len(),
    ensures
        text_len(literal_load_image(d), j) == Some((3 + d.len() - j) as nat),
    decreases 3 + d.len() - j,
{
    let b = literal_load_image(d);
    if j < 3 + d.len() {
        assert(b[j] == d[j - 3]);
        assert(is_digit(d[j - 3]));
        lemma_text_len_digits(d, j + 1);
    } else {
        assert(b[j] == END_OBJECT);
    }
}

/// The length table end to end: an image that loads a literal of ASCII
/// digits `d` and halts decodes to that `LOAD` and `HALT`, the literal read
/// by the table (an 8-bit integer at length 1 or 2, a 16-bit one at length 4,
/// a 32-bit one at lengths 6 to 9, the digit comparison at 3, 5 and 10), or
/// fails as the table does.
pub proof fn lemma_decode_literal_load(d: Seq<u8>)
    requires
        all_digits(d),
    ensures
        decode_spec(literal_load_image(d)) == match number_value(d) {
            Ok(v) => Ok(seq![InstrView::Load(v, STACK_OFFSET), InstrView::Halt]),
            Err(e) => Err::<Seq<InstrView>, DecodeError>(e),
        },
        1 <= d.len() <= 2 ==> decode_spec(literal_load_image(d)) == Ok::<Seq<InstrView>, DecodeError>(
            seq![InstrView::Load(int_at(0, digits_value(d)), STACK_OFFSET), InstrView::Halt],
        ),
        d.len() == 4 ==> decode_spec(literal_load_image(d)) == Ok::<Seq<InstrView>, DecodeError>(
            seq![InstrView::Load(int_at(1, digits_value(d)), STACK_OFFSET), InstrView::Halt],
        ),
        6 <= d.len() <= 9 ==> decode_spec(literal_load_image(d)) == Ok::<Seq<InstrView>, DecodeError>(
            seq![InstrView::Load(int_at(2, digits_value(d)), STACK_OFFSET), InstrView::Halt],
        ),
{
    let b = literal_load_image(d);
    let n = d.len();
    lemma_length_table(d);
    lemma_text_len_digits(d, 3);
    assert(b.len() == n + 5);
    assert(b[0] == 0 && b[1] == STACK_OFFSET && b[2] == START_OBJECT);
    assert(b.subrange(3, 3 + n as int) =~= d);
    match number_value(d) {
        Ok(v) => {
            let first = Item { op: 0, arg: Some(v), arg1: Some(DataView::Int8(STACK_OFFSET as i8)), size: n + 4 };
            assert(item_at(b, 0) == Ok::<Item, DecodeError>(first));
            let load = InstrView::Load(v, STACK_OFFSET);
            assert(build(first, false) == Ok::<InstrView, DecodeError>(load));
            assert(b[n + 4 as int] == 5);
            let halt = Item { op: 5, arg: None, arg1: None, size: 1 };
            assert(item_at(b, n + 4 as int) == Ok::<Item, DecodeError>(halt));
            assert(build(halt, true) == Ok::<InstrView, DecodeError>(InstrView::Halt));
            assert(decode_from(b, (n + 4) as nat, seq![load]) == Ok::<Seq<InstrView>, DecodeError>(
                seq![load].push(InstrView::Halt),
            ));
            assert(seq![load].push(InstrView::Halt) =~= seq![load, InstrView::Halt]);
            assert(Seq::<InstrView>::empty().push(load) =~= seq![load]);
        },
        Err(e) => {
            assert(item_at(b, 0) == Err::<Item, DecodeError>(e));
        },
    }
}

} // verus!
