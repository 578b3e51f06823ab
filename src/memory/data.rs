//! The tagged value of the machine and its arithmetic.
use vstd::prelude::*;
use vstd::string::StringSliceAdditionalSpecFns;

verus! {

/// A machine value: a signed integer of 8, 16 or 32 bits, or a string.
#[derive(Debug, Clone)]
pub enum InnerData {
    INT(i8),
    INT16(i16),
    INT32(i32),
    STR(String),
}

/// The mathematical content of an `InnerData`.
pub enum DataView {
    Int8(i8),
    Int16(i16),
    Int32(i32),
    Str(Seq<char>),
}

/// The five binary operators on values.
#[derive(Debug, Clone, Copy, PartialEq, Eq, Structural)]
pub enum ArithOp {
    Add,
    Sub,
    Mul,
    Div,
    Rem,
}

/// Why a binary operator has no result.
#[derive(Debug, Clone, Copy, PartialEq, Eq, Structural)]
pub enum ArithError {
    /// The operator is not defined on these operand types.
    IllegalOperands,
    /// The result does not fit in 32 bits.
    Overflow,
    /// Division or remainder by zero.
    DivideByZero,
}

/// An integer width, used to name the type a literal is read as.
#[derive(Debug, Clone, Copy, PartialEq, Eq, Structural)]
pub enum IntWidth {
    W8,
    W16,
    W32,
}

impl IntWidth {
    /// 0, 1 and 2 for 8, 16 and 32 bits.
    pub open spec fn rank(self) -> nat {
        match self {
            IntWidth::W8 => 0,
            IntWidth::W16 => 1,
            IntWidth::W32 => 2,
        }
    }
}

impl DataView {
    pub open spec fn is_int(self) -> bool {
        !(self is Str)
    }

    /// 0, 1 and 2 for 8, 16 and 32 bits; strings have rank 3.
    pub open spec fn rank(self) -> nat {
        match self {
            DataView::Int8(_) => 0,
            DataView::Int16(_) => 1,
            DataView::Int32(_) => 2,
            DataView::Str(_) => 3,
        }
    }

    /// The integer held, 0 for a string.
    pub open spec fn int_value(self) -> int {
        match self {
            DataView::Int8(a) => a as int,
            DataView::Int16(a) => a as int,
            DataView::Int32(a) => a as int,
            DataView::Str(_) => 0,
        }
    }
}

impl View for InnerData {
    type V = DataView;

    open spec fn view(&self) -> DataView {
        match self {
            InnerData::INT(a) => DataView::Int8(*a),
            InnerData::INT16(a) => DataView::Int16(*a),
            InnerData::INT32(a) => DataView::Int32(*a),
            InnerData::STR(s) => DataView::Str(s@),
        }
    }
}

/// The smallest integer of the width of rank `r`.
pub open spec fn min_at(r: nat) -> int {
    if r == 0 {
        i8::MIN as int
    } else if r == 1 {
        i16::MIN as int
    } else {
        i32::MIN as int
    }
}

/// The largest integer of the width of rank `r`.
pub open spec fn max_at(r: nat) -> int {
    if r == 0 {
        i8::MAX as int
    } else if r == 1 {
        i16::MAX as int
    } else {
        i32::MAX as int
    }
}

/// The integer `v` as a value of the width of rank `r`.
pub open spec fn int_at(r: nat, v: int) -> DataView {
    if r == 0 {
        DataView::Int8(v as i8)
    } else if r == 1 {
        DataView::Int16(v as i16)
    } else {
        DataView::Int32(v as i32)
    }
}

/// Division that rounds toward zero.
pub open spec fn trunc_div(x: int, d: int) -> int {
    if x == 0 {
        0
    } else if x > 0 && d > 0 {
        x / d
    } else if x < 0 && d < 0 {
        (x * -1) / (d * -1)
    } else if x < 0 {
        ((x * -1) / d) * -1
    } else {
        (x / (d * -1)) * -1
    }
}

/// The remainder of `trunc_div`, with the sign of the dividend.
pub open spec fn trunc_rem(x: int, d: int) -> int {
    if x == 0 {
        0
    } else if x > 0 && d > 0 {
        x % d
    } else if x < 0 && d < 0 {
        ((x * -1) % (d * -1)) * -1
    } else if x < 0 {
        ((x * -1) % d) * -1
    } else {
        x % (d * -1)
    }
}

/// The exact mathematical result of an operator on two integers.
pub open spec fn exact(op: ArithOp, x: int, y: int) -> int {
    match op {
        ArithOp::Add => x + y,
        ArithOp::Sub => x - y,
        ArithOp::Mul => x * y,
        ArithOp::Div => trunc_div(x, y),
        ArithOp::Rem => trunc_rem(x, y),
    }
}

pub open spec fn divides(op: ArithOp) -> bool {
    op == ArithOp::Div || op == ArithOp::Rem
}

/// The checked operator at the width of rank `r` succeeds: the divisor is
/// not zero, the exact result fits, and it is not the remainder of the
/// smallest integer by -1, which the checked remainder also refuses.
pub open spec fn fits_at(op: ArithOp, r: nat, x: int, y: int) -> bool {
    &&& divides(op) ==> y != 0
    &&& min_at(r) <= exact(op, x, y) <= max_at(r)
    &&& !(op == ArithOp::Rem && x == min_at(r) && y == -1)
}

/// The result of an operator on two integers computed at the width of rank
/// `r`, retried at the next wider width while the checked operation fails.
pub open spec fn promote_result(op: ArithOp, r: nat, x: int, y: int) -> Result<DataView, ArithError>
    decreases 2 - r,
{
    if fits_at(op, r, x, y) {
        Ok(int_at(r, exact(op, x, y)))
    } else if r >= 2 {
        if divides(op) && y == 0 {
            Err(ArithError::DivideByZero)
        } else {
            Err(ArithError::Overflow)
        }
    } else {
        promote_result(op, r + 1, x, y)
    }
}

/// `s` repeated `n` times; empty when `n` is not positive.
pub open spec fn repeat(s: Seq<char>, n: int) -> Seq<char>
    decreases n,
{
    if n <= 0 {
        Seq::empty()
    } else {
        repeat(s, n - 1) + s
    }
}

/// The result of a binary operator on two values. Integers of different
/// widths meet at the wider one; strings concatenate under `Add` and repeat
/// under `Mul` with an integer; every other mix is illegal.
pub open spec fn arith(op: ArithOp, a: DataView, b: DataView) -> Result<DataView, ArithError> {
    if a.is_int() && b.is_int() {
        promote_result(op, if a.rank() >= b.rank() { a.rank() } else { b.rank() }, a.int_value(), b.int_value())
    } else {
        match (op, a, b) {
            (ArithOp::Add, DataView::Str(s), DataView::Str(t)) => Ok(DataView::Str(s + t)),
            (ArithOp::Mul, DataView::Str(s), n) => if n.is_int() {
                Ok(DataView::Str(repeat(s, n.int_value())))
            } else {
                Err(ArithError::IllegalOperands)
            },
            (ArithOp::Mul, n, DataView::Str(s)) => Ok(DataView::Str(repeat(s, n.int_value()))),
            _ => Err(ArithError::IllegalOperands),
        }
    }
}

/// The view of a computed result.
pub open spec fn result_view(r: Result<InnerData, ArithError>) -> Result<DataView, ArithError> {
    match r {
        Ok(v) => Ok(v@),
        Err(e) => Err(e),
    }
}

/// Both values have the same variant.
pub open spec fn same_variant(a: DataView, b: DataView) -> bool {
    a.rank() == b.rank()
}

/// An operator overflows at a width when its exact result is defined but
/// the checked operation at that width fails.
pub open spec fn overflows_at(op: ArithOp, r: nat, x: int, y: int) -> bool {
    (divides(op) ==> y != 0) && !fits_at(op, r, x, y)
}

proof fn lemma_next_width_fits(op: ArithOp, r: nat, x: int, y: int)
    requires
        r < 2,
        min_at(r) <= x <= max_at(r),
        min_at(r) <= y <= max_at(r),
        divides(op) ==> y != 0,
    ensures
        fits_at(op, r + 1, x, y),
{
    if op == ArithOp::Mul {
        if r == 0 {
            assert(-16384 <= x * y <= 16384) by (nonlinear_arith)
                requires -128 <= x <= 127, -128 <= y <= 127;
        } else {
            assert(-1073741824 <= x * y <= 1073741824) by (nonlinear_arith)
                requires -32768 <= x <= 32767, -32768 <= y <= 32767;
        }
    } else if op == ArithOp::Div {
        lemma_trunc_div_bound(x, y);
    } else if op == ArithOp::Rem {
        lemma_trunc_rem_bound(x, y);
    }
}

proof fn lemma_trunc_div_bound(x: int, d: int)
    requires
        d != 0,
    ensures
        -(if x >= 0 { x } else { -x }) <= trunc_div(x, d) <= (if x >= 0 { x } else { -x }),
{
    if x > 0 && d > 0 {
        assert(0 <= x / d <= x) by (nonlinear_arith)
            requires x > 0, d > 0;
    } else if x < 0 && d < 0 {
        assert(0 <= (x * -1) / (d * -1) <= x * -1) by (nonlinear_arith)
            requires x < 0, d < 0;
    } else if x < 0 {
        assert(0 <= (x * -1) / d <= x * -1) by (nonlinear_arith)
            requires x < 0, d > 0;
    } else if x > 0 {
        assert(0 <= x / (d * -1) <= x) by (nonlinear_arith)
            requires x > 0, d < 0;
    }
}

proof fn lemma_trunc_rem_bound(x: int, d: int)
    requires
        d != 0,
    ensures
        -(if x >= 0 { x } else { -x }) <= trunc_rem(x, d) <= (if x >= 0 { x } else { -x }),
{
    if x > 0 && d > 0 {
        assert(0 <= x % d <= x) by (nonlinear_arith)
            requires x > 0, d > 0;
    } else if x < 0 && d < 0 {
        assert(0 <= (x * -1) % (d * -1) <= x * -1) by (nonlinear_arith)
            requires x < 0, d < 0;
    } else if x < 0 {
        assert(0 <= (x * -1) % d <= x * -1) by (nonlinear_arith)
            requires x < 0, d > 0;
    } else if x > 0 {
        assert(0 <= x % (d * -1) <= x) by (nonlinear_arith)
            requires x > 0, d < 0;
    }
}

/// Promotion: when an operator on two integers of one width overflows that
/// width, the result is the exact value at the next wider width; at 32 bits
/// an overflow is an error.
pub proof fn lemma_promotion(op: ArithOp, a: DataView, b: DataView)
    requires
        a.is_int(),
        b.is_int(),
        same_variant(a, b),
        overflows_at(op, a.rank(), a.int_value(), b.int_value()),
    ensures
        a.rank() < 2 ==> arith(op, a, b) == Ok::<DataView, ArithError>(int_at(a.rank() + 1, exact(op, a.int_value(), b.int_value()))),
        a.rank() == 2 ==> arith(op, a, b) == Err::<DataView, ArithError>(ArithError::Overflow),
{
    if a.rank() < 2 {
        lemma_next_width_fits(op, a.rank(), a.int_value(), b.int_value());
        assert(promote_result(op, a.rank() + 1, a.int_value(), b.int_value()) == Ok::<DataView, ArithError>(
            int_at(a.rank() + 1, exact(op, a.int_value(), b.int_value()))));
    }
}

fn checked_i8(op: ArithOp, a: i8, b: i8) -> (r: Option<i8>)
    ensures
        r == if fits_at(op, 0, a as int, b as int) { Some(exact(op, a as int, b as int) as i8) } else { None },
{
    match op {
        ArithOp::Add => a.checked_add(b),
        ArithOp::Sub => a.checked_sub(b),
        ArithOp::Mul => a.checked_mul(b),
        ArithOp::Div => a.checked_div(b),
        ArithOp::Rem => a.checked_rem(b),
    }
}

fn checked_i16(op: ArithOp, a: i16, b: i16) -> (r: Option<i16>)
    ensures
        r == if fits_at(op, 1, a as int, b as int) { Some(exact(op, a as int, b as int) as i16) } else { None },
{
    match op {
        ArithOp::Add => a.checked_add(b),
        ArithOp::Sub => a.checked_sub(b),
        ArithOp::Mul => a.checked_mul(b),
        ArithOp::Div => a.checked_div(b),
        ArithOp::Rem => a.checked_rem(b),
    }
}

fn checked_i32(op: ArithOp, a: i32, b: i32) -> (r: Option<i32>)
    ensures
        r == if fits_at(op, 2, a as int, b as int) { Some(exact(op, a as int, b as int) as i32) } else { None },
{
    match op {
        ArithOp::Add => a.checked_add(b),
        ArithOp::Sub => a.checked_sub(b),
        ArithOp::Mul => a.checked_mul(b),
        ArithOp::Div => a.checked_div(b),
        ArithOp::Rem => a.checked_rem(b),
    }
}

/// `s` repeated `count` times.
fn repeat_string(s: &String, count: i32) -> (r: String)
    ensures
        r@ == repeat(s@, count as int),
{
    let mut r = String::new();
    let mut i: i32 = 0;
    while i < count
        invariant
            0 <= i,
            i <= (if count > 0 { count } else { 0 }),
            r@ == repeat(s@, i as int),
        decreases count - i,
    {
        r.append(s.as_str());
        i = i + 1;
    }
    proof {
        if count <= 0 {
            assert(repeat(s@, 0) == Seq::<char>::empty());
            assert(repeat(s@, count as int) == Seq::<char>::empty());
        }
    }
    r
}

impl InnerData {
    /// The integer as an unsigned byte.
    pub fn get_u8(&self) -> (r: u8)
        requires
            self is INT,
        ensures
            r == (self->INT_0) as u8,
    {
        match self {
            InnerData::INT(a) => *a as u8,
            _ => 0,
        }
    }

    /// The 8-bit integer held.
    pub fn get_i8(&self) -> (r: i8)
        requires
            self is INT,
        ensures
            r == self->INT_0,
    {
        match self {
            InnerData::INT(a) => *a,
            _ => 0,
        }
    }

    /// The 16-bit integer as an unsigned 16-bit number.
    pub fn get_u16(&self) -> (r: u16)
        requires
            self is INT16,
        ensures
            r == (self->INT16_0) as u16,
    {
        match self {
            InnerData::INT16(a) => *a as u16,
            _ => 0,
        }
    }

    /// The 16-bit integer held.
    pub fn get_i16(&self) -> (r: i16)
        requires
            self is INT16,
        ensures
            r == self->INT16_0,
    {
        match self {
            InnerData::INT16(a) => *a,
            _ => 0,
        }
    }

    /// A copy of the value.
    pub fn clone(&self) -> (r: InnerData)
        ensures
            r@ == self@,
    {
        match self {
            InnerData::INT(a) => InnerData::INT(*a),
            InnerData::INT16(a) => InnerData::INT16(*a),
            InnerData::INT32(a) => InnerData::INT32(*a),
            InnerData::STR(a) => InnerData::STR(a.clone()),
        }
    }

    /// Both values have the same variant.
    pub fn variant_eq(a: &InnerData, b: &InnerData) -> (r: bool)
        ensures
            r == same_variant(a@, b@),
    {
        match (a, b) {
            (InnerData::INT(_), InnerData::INT(_)) => true,
            (InnerData::INT16(_), InnerData::INT16(_)) => true,
            (InnerData::INT32(_), InnerData::INT32(_)) => true,
            (InnerData::STR(_), InnerData::STR(_)) => true,
            _ => false,
        }
    }

    /// Widens the narrower of two integers of different widths to the width
    /// of the other.
    fn promote_type(self, other: Self) -> (r: (InnerData, InnerData))
        requires
            self@.is_int(),
            other@.is_int(),
            !same_variant(self@, other@),
        ensures
            r.0@.is_int(),
            r.1@.is_int(),
            r.0@.rank() == r.1@.rank(),
            r.0@.rank() == if self@.rank() >= other@.rank() { self@.rank() } else { other@.rank() },
            r.0@.int_value() == self@.int_value(),
            r.1@.int_value() == other@.int_value(),
    {
        match (self, other) {
            (InnerData::INT(a), InnerData::INT16(b)) => (InnerData::INT16(a as i16), InnerData::INT16(b)),
            (InnerData::INT(a), InnerData::INT32(b)) => (InnerData::INT32(a as i32), InnerData::INT32(b)),
            (InnerData::INT16(a), InnerData::INT(b)) => (InnerData::INT16(a), InnerData::INT16(b as i16)),
            (InnerData::INT16(a), InnerData::INT32(b)) => (InnerData::INT32(a as i32), InnerData::INT32(b)),
            (InnerData::INT32(a), InnerData::INT(b)) => (InnerData::INT32(a), InnerData::INT32(b as i32)),
            (InnerData::INT32(a), InnerData::INT16(b)) => (InnerData::INT32(a), InnerData::INT32(b as i32)),
            (a, b) => (a, b),
        }
    }

    /// Brings two integers to a common width; leaves any pair with a string
    /// as it is.
    fn promote_or_not(self, other: Self) -> (r: (InnerData, InnerData))
        ensures
            !(self@.is_int() && other@.is_int()) ==> r.0@ == self@ && r.1@ == other@,
            self@.is_int() && other@.is_int() ==> {
                &&& r.0@.is_int() && r.1@.is_int()
                &&& r.0@.rank() == r.1@.rank()
                &&& r.0@.rank() == if self@.rank() >= other@.rank() { self@.rank() } else { other@.rank() }
                &&& r.0@.int_value() == self@.int_value()
                &&& r.1@.int_value() == other@.int_value()
            },
    {
        if self.is_str() || other.is_str() {
            return (self, other);
        }
        if !InnerData::variant_eq(&self, &other) {
            InnerData::promote_type(self, other)
        } else {
            (self, other)
        }
    }

    /// The value is a string.
    pub fn is_str(&self) -> (r: bool)
        ensures
            r == !self@.is_int(),
    {
        match self {
            InnerData::STR(_) => true,
            _ => false,
        }
    }

    fn compute_or_promote_i8(op: ArithOp, a: i8, b: i8) -> (r: Result<InnerData, ArithError>)
        ensures
            result_view(r) == promote_result(op, 0, a as int, b as int),
    {
        match checked_i8(op, a, b) {
            Some(v) => Ok(InnerData::INT(v)),
            None => InnerData::compute_or_promote_i16(op, a as i16, b as i16),
        }
    }

    fn compute_or_promote_i16(op: ArithOp, a: i16, b: i16) -> (r: Result<InnerData, ArithError>)
        ensures
            result_view(r) == promote_result(op, 1, a as int, b as int),
    {
        match checked_i16(op, a, b) {
            Some(v) => Ok(InnerData::INT16(v)),
            None => InnerData::compute_or_promote_i32(op, a as i32, b as i32),
        }
    }

    fn compute_or_promote_i32(op: ArithOp, a: i32, b: i32) -> (r: Result<InnerData, ArithError>)
        ensures
            result_view(r) == promote_result(op, 2, a as int, b as int),
    {
        match checked_i32(op, a, b) {
            Some(v) => Ok(InnerData::INT32(v)),
            None => if (op == ArithOp::Div || op == ArithOp::Rem) && b == 0 {
                Err(ArithError::DivideByZero)
            } else {
                Err(ArithError::Overflow)
            },
        }
    }

    /// Applies a binary operator: integers meet at the wider width and are
    /// promoted further while the result overflows; strings concatenate or
    /// repeat.
    pub fn apply(op: ArithOp, a: InnerData, b: InnerData) -> (r: Result<InnerData, ArithError>)
        ensures
            result_view(r) == arith(op, a@, b@),
    {
        let (x, y) = InnerData::promote_or_not(a, b);
        match (x, y) {
            (InnerData::INT(p), InnerData::INT(q)) => InnerData::compute_or_promote_i8(op, p, q),
            (InnerData::INT16(p), InnerData::INT16(q)) => InnerData::compute_or_promote_i16(op, p, q),
            (InnerData::INT32(p), InnerData::INT32(q)) => InnerData::compute_or_promote_i32(op, p, q),
            (InnerData::STR(s), InnerData::STR(t)) => if op == ArithOp::Add {
                Ok(InnerData::STR(s.concat(t.as_str())))
            } else {
                Err(ArithError::IllegalOperands)
            },
            (InnerData::STR(s), InnerData::INT(n)) => InnerData::repeat_if_mul(op, &s, n as i32),
            (InnerData::STR(s), InnerData::INT16(n)) => InnerData::repeat_if_mul(op, &s, n as i32),
            (InnerData::STR(s), InnerData::INT32(n)) => InnerData::repeat_if_mul(op, &s, n),
            (InnerData::INT(n), InnerData::STR(s)) => InnerData::repeat_if_mul(op, &s, n as i32),
            (InnerData::INT16(n), InnerData::STR(s)) => InnerData::repeat_if_mul(op, &s, n as i32),
            (InnerData::INT32(n), InnerData::STR(s)) => InnerData::repeat_if_mul(op, &s, n),
            _ => Err(ArithError::IllegalOperands),
        }
    }

    fn repeat_if_mul(op: ArithOp, s: &String, count: i32) -> (r: Result<InnerData, ArithError>)
        ensures
            result_view(r) == if op == ArithOp::Mul {
                Ok(DataView::Str(repeat(s@, count as int)))
            } else {
                Err::<DataView, ArithError>(ArithError::IllegalOperands)
            },
    {
        if op == ArithOp::Mul {
            Ok(InnerData::STR(repeat_string(s, count)))
        } else {
            Err(ArithError::IllegalOperands)
        }
    }
}

impl InnerData {
    /// The operator's result where it is defined.
    fn apply_defined(op: ArithOp, a: InnerData, b: InnerData) -> (r: InnerData)
        requires
            arith(op, a@, b@) is Ok,
        ensures
            Ok::<DataView, ArithError>(r@) == arith(op, a@, b@),
    {
        match InnerData::apply(op, a, b) {
            Ok(v) => v,
            // cannot happen under the precondition
            Err(_) => InnerData::INT(0),
        }
    }
}

/// The operators of `InnerData` follow `InnerData::apply`: each requires
/// that the operation is defined on its operands and ensures that the result
/// is the one `arith` gives. The `*_spec` functions name a value with that
/// view; `obeys_*_spec` stays false because two strings with one view need
/// not be the same `String`, and the exact result is stated on each method.
impl std::ops::Add for InnerData {
    type Output = InnerData;

    fn add(self, other: InnerData) -> (r: InnerData)
        ensures
            Ok::<DataView, ArithError>(r@) == arith(ArithOp::Add, self@, other@),
    {
        InnerData::apply_defined(ArithOp::Add, self, other)
    }
}

impl vstd::std_specs::ops::AddSpecImpl for InnerData {
    open spec fn obeys_add_spec() -> bool {
        false
    }

    open spec fn add_req(self, other: InnerData) -> bool {
        arith(ArithOp::Add, self@, other@) is Ok
    }

    open spec fn add_spec(self, other: InnerData) -> InnerData {
        choose|r: InnerData| Ok::<DataView, ArithError>(r@) == arith(ArithOp::Add, self@, other@)
    }
}

impl std::ops::Sub for InnerData {
    type Output = InnerData;

    fn sub(self, other: InnerData) -> (r: InnerData)
        ensures
            Ok::<DataView, ArithError>(r@) == arith(ArithOp::Sub, self@, other@),
    {
        InnerData::apply_defined(ArithOp::Sub, self, other)
    }
}

impl vstd::std_specs::ops::SubSpecImpl for InnerData {
    open spec fn obeys_sub_spec() -> bool {
        false
    }

    open spec fn sub_req(self, other: InnerData) -> bool {
        arith(ArithOp::Sub, self@, other@) is Ok
    }

    open spec fn sub_spec(self, other: InnerData) -> InnerData {
        choose|r: InnerData| Ok::<DataView, ArithError>(r@) == arith(ArithOp::Sub, self@, other@)
    }
}

impl std::ops::Mul for InnerData {
    type Output = InnerData;

    fn mul(self, other: InnerData) -> (r: InnerData)
        ensures
            Ok::<DataView, ArithError>(r@) == arith(ArithOp::Mul, self@, other@),
    {
        InnerData::apply_defined(ArithOp::Mul, self, other)
    }
}

impl vstd::std_specs::ops::MulSpecImpl for InnerData {
    open spec fn obeys_mul_spec() -> bool {
        false
    }

    open spec fn mul_req(self, other: InnerData) -> bool {
        arith(ArithOp::Mul, self@, other@) is Ok
    }

    open spec fn mul_spec(self, other: InnerData) -> InnerData {
        choose|r: InnerData| Ok::<DataView, ArithError>(r@) == arith(ArithOp::Mul, self@, other@)
    }
}

impl std::ops::Div for InnerData {
    type Output = InnerData;

    fn div(self, other: InnerData) -> (r: InnerData)
        ensures
            Ok::<DataView, ArithError>(r@) == arith(ArithOp::Div, self@, other@),
    {
        InnerData::apply_defined(ArithOp::Div, self, other)
    }
}

impl vstd::std_specs::ops::DivSpecImpl for InnerData {
    open spec fn obeys_div_spec() -> bool {
        false
    }

    open spec fn div_req(self, other: InnerData) -> bool {
        arith(ArithOp::Div, self@, other@) is Ok
    }

    open spec fn div_spec(self, other: InnerData) -> InnerData {
        choose|r: InnerData| Ok::<DataView, ArithError>(r@) == arith(ArithOp::Div, self@, other@)
    }
}

impl std::ops::Rem for InnerData {
    type Output = InnerData;

    fn rem(self, other: InnerData) -> (r: InnerData)
        ensures
            Ok::<DataView, ArithError>(r@) == arith(ArithOp::Rem, self@, other@),
    {
        InnerData::apply_defined(ArithOp::Rem, self, other)
    }
}

impl vstd::std_specs::ops::RemSpecImpl for InnerData {
    open spec fn obeys_rem_spec() -> bool {
        false
    }

    open spec fn rem_req(self, other: InnerData) -> bool {
        arith(ArithOp::Rem, self@, other@) is Ok
    }

    open spec fn rem_spec(self, other: InnerData) -> InnerData {
        choose|r: InnerData| Ok::<DataView, ArithError>(r@) == arith(ArithOp::Rem, self@, other@)
    }
}

impl PartialEq for InnerData {
    fn eq(&self, other: &InnerData) -> (r: bool) {
        match (self, other) {
            (InnerData::INT(a), InnerData::INT(b)) => *a == *b,
            (InnerData::INT16(a), InnerData::INT16(b)) => *a == *b,
            (InnerData::INT32(a), InnerData::INT32(b)) => *a == *b,
            (InnerData::STR(a), InnerData::STR(b)) => a.eq(b),
            _ => false,
        }
    }
}

impl vstd::std_specs::cmp::PartialEqSpecImpl for InnerData {
    open spec fn obeys_eq_spec() -> bool {
        true
    }

    open spec fn eq_spec(&self, other: &InnerData) -> bool {
        self@ == other@
    }
}

/// ASCII '-'.
pub const MINUS: u8 = 45;

/// ASCII '+'.
pub const PLUS: u8 = 43;

/// The largest magnitude a 32-bit integer can have.
const MAGNITUDE_LIMIT: u64 = 2147483648;

pub open spec fn is_digit(b: u8) -> bool {
    48 <= b <= 57
}

pub open spec fn all_digits(s: Seq<u8>) -> bool {
    forall|i: int| 0 <= i < s.len() ==> is_digit(#[trigger] s[i])
}

/// The number that a string of ASCII digits spells in base ten.
pub open spec fn digits_value(s: Seq<u8>) -> int
    decreases s.len(),
{
    if s.len() == 0 {
        0
    } else {
        digits_value(s.drop_last()) * 10 + (s.last() - 48)
    }
}

/// 1 when the text starts with a sign, else 0.
pub open spec fn sign_len(s: Seq<u8>) -> int {
    if s.len() > 0 && (s[0] == MINUS || s[0] == PLUS) {
        1
    } else {
        0
    }
}

/// An optional sign followed by at least one ASCII digit.
pub open spec fn is_decimal(s: Seq<u8>) -> bool {
    s.len() > sign_len(s) && all_digits(s.skip(sign_len(s)))
}

/// The signed number that a decimal text spells.
pub open spec fn decimal_value(s: Seq<u8>) -> int {
    if s.len() > 0 && s[0] == MINUS {
        -digits_value(s.skip(sign_len(s)))
    } else {
        digits_value(s.skip(sign_len(s)))
    }
}

/// A decimal text read as an integer of the given width, if it is one and
/// the number fits.
pub open spec fn parsed(s: Seq<u8>, w: IntWidth) -> Option<DataView> {
    if is_decimal(s) && min_at(w.rank()) <= decimal_value(s) <= max_at(w.rank()) {
        Some(int_at(w.rank(), decimal_value(s)))
    } else {
        None
    }
}

/// The view of an optional value.
pub open spec fn option_view(r: Option<InnerData>) -> Option<DataView> {
    match r {
        Some(v) => Some(v@),
        None => None,
    }
}

/// The name of a value's type.
pub open spec fn kind_name(v: DataView) -> Seq<char> {
    match v {
        DataView::Int8(_) => "i8"@,
        DataView::Int16(_) => "i16"@,
        DataView::Int32(_) => "i32"@,
        DataView::Str(_) => "str"@,
    }
}

/// Reads a decimal text (an optional sign, then ASCII digits) as an integer
/// of the given width.
pub fn parse_int(bytes: &[u8], width: IntWidth) -> (r: Option<InnerData>)
    ensures
        option_view(r) == parsed(bytes@, width),
{
    let n = bytes.len();
    let start: usize = if n > 0 && (bytes[0] == MINUS || bytes[0] == PLUS) {
        1
    } else {
        0
    };
    if n <= start {
        return None;
    }
    let ghost s = bytes@;
    let mut acc: u64 = 0;
    let mut big = false;
    let mut i: usize = start;
    while i < n
        invariant
            n == s.len(),
            s == bytes@,
            start == sign_len(s),
            start <= i <= n,
            all_digits(s.subrange(start as int, i as int)),
            !big ==> acc == digits_value(s.subrange(start as int, i as int)) && acc <= MAGNITUDE_LIMIT,
            big ==> digits_value(s.subrange(start as int, i as int)) > MAGNITUDE_LIMIT,
        decreases n - i,
    {
        let b = bytes[i];
        if b < 48 || b > 57 {
            proof {
                assert(s.skip(start as int)[i - start] == b);
            }
            return None;
        }
        proof {
            assert(s.subrange(start as int, i + 1).drop_last() =~= s.subrange(start as int, i as int));
            assert(s.subrange(start as int, i + 1).last() == b);
            assert forall|k: int| 0 <= k < i + 1 - start implies is_digit(#[trigger] s.subrange(start as int, i + 1)[k]) by {
                if k < i - start {
                    assert(s.subrange(start as int, i + 1)[k] == s.subrange(start as int, i as int)[k]);
                }
            }
        }
        if !big {
            acc = acc * 10 + (b - 48) as u64;
            if acc > MAGNITUDE_LIMIT {
                big = true;
            }
        }
        i = i + 1;
    }
    proof {
        assert(s.subrange(start as int, n as int) =~= s.skip(start as int));
    }
    if big {
        return None;
    }
    let v: i64 = if bytes[0] == MINUS {
        -(acc as i64)
    } else {
        acc as i64
    };
    match width {
        IntWidth::W8 => if -128 <= v && v <= 127 {
            Some(InnerData::INT(v as i8))
        } else {
            None
        },
        IntWidth::W16 => if -32768 <= v && v <= 32767 {
            Some(InnerData::INT16(v as i16))
        } else {
            None
        },
        IntWidth::W32 => if -2147483648 <= v && v <= 2147483647 {
            Some(InnerData::INT32(v as i32))
        } else {
            None
        },
    }
}

/// The two texts are the same.
fn str_eq(a: &str, b: &str) -> (r: bool)
    ensures
        r == (a@ == b@),
{
    let x = a.as_bytes();
    let y = b.as_bytes();
    proof {
        vstd::utf8::encode_utf8_decode_utf8(a@);
        vstd::utf8::encode_utf8_decode_utf8(b@);
    }
    proof {
        assert(a@ == b@ ==> x@ == y@);
    }
    if x.len() != y.len() {
        return false;
    }
    let mut i: usize = 0;
    while i < x.len()
        invariant
            x@.len() == y@.len(),
            i <= x@.len(),
            forall|k: int| 0 <= k < i ==> x@[k] == y@[k],
            a@ == b@ ==> x@ == y@,
            x@ == y@ ==> a@ == b@,
        decreases x@.len() - i,
    {
        if x[i] != y[i] {
            proof {
                assert(x@ != y@);
            }
            return false;
        }
        i = i + 1;
    }
    proof {
        assert(x@ =~= y@);
    }
    true
}

impl InnerData {
    /// Reads `data` as a value of the variant named `variant` ("INT",
    /// "INT16", "INT32" or "STR"). `None` when the name is none of these or
    /// the text is not a number that fits the width.
    pub fn from(data: &str, variant: &str) -> (r: Option<InnerData>)
        ensures
            variant@ == "INT"@ ==> option_view(r) == parsed(data.spec_bytes(), IntWidth::W8),
            variant@ == "INT16"@ ==> option_view(r) == parsed(data.spec_bytes(), IntWidth::W16),
            variant@ == "INT32"@ ==> option_view(r) == parsed(data.spec_bytes(), IntWidth::W32),
            variant@ == "STR"@ ==> option_view(r) == Some(DataView::Str(data@)),
            variant@ != "INT"@ && variant@ != "INT16"@ && variant@ != "INT32"@ && variant@ != "STR"@
                ==> r is None,
    {
        proof {
            reveal_strlit("INT");
            reveal_strlit("INT16");
            reveal_strlit("INT32");
            reveal_strlit("STR");
            assert("INT"@.len() == 3 && "INT16"@.len() == 5 && "INT32"@.len() == 5 && "STR"@.len() == 3);
            assert("INT16"@[3] != "INT32"@[3]);
            assert("INT"@[0] != "STR"@[0]);
        }
        if str_eq(variant, "INT") {
            parse_int(data.as_bytes(), IntWidth::W8)
        } else if str_eq(variant, "INT16") {
            parse_int(data.as_bytes(), IntWidth::W16)
        } else if str_eq(variant, "INT32") {
            parse_int(data.as_bytes(), IntWidth::W32)
        } else if str_eq(variant, "STR") {
            Some(InnerData::STR(data.to_owned()))
        } else {
            None
        }
    }

    /// The name of the value's type: "i8", "i16", "i32" or "str".
    pub fn get_type(&self) -> (r: &'static str)
        ensures
            r@ == kind_name(self@),
    {
        match self {
            InnerData::INT(_) => "i8",
            InnerData::INT16(_) => "i16",
            InnerData::INT32(_) => "i32",
            InnerData::STR(_) => "str",
        }
    }
}

} // verus!
