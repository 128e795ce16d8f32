//! The `Evaluate` capability implemented by every operator, and the default
//! signed-integer evaluator set.

use vstd::prelude::*;
use vstd::arithmetic::power::pow;
use vstd::string::StringExecFns;
use crate::stack::Stack;
use crate::text::{str_eq, Render};
use crate::convert_ref::TryFromRef;

verus! {

/// Truncated division (quotient rounded towards zero), as performed by the
/// `/` operator on Rust's primitive integers.
pub open spec fn trunc_div(x: int, d: int) -> int {
    if x == 0 {
        0
    } else if x > 0 && d > 0 {
        x / d
    } else if x < 0 && d < 0 {
        (x * -1) / (d * -1)
    } else if x < 0 {
        ((x * -1) / d) * -1
    } else {
        (x / (d * -1)) * -1
    }
}

/// Truncated remainder (sign follows the dividend), as performed by the `%`
/// operator on Rust's primitive integers.
pub open spec fn trunc_rem(x: int, d: int) -> int {
    if x == 0 {
        0
    } else if x > 0 && d > 0 {
        x % d
    } else if x < 0 && d < 0 {
        ((x * -1) % (d * -1)) * -1
    } else if x < 0 {
        ((x * -1) % d) * -1
    } else {
        x % (d * -1)
    }
}

/// A bounded signed machine integer: the operand capability required by the
/// signed-integer evaluator set.
///
/// `as_int` maps a value to the mathematical integer it stands for,
/// `from_int` maps an in-range mathematical integer back; the checked
/// operations succeed exactly when the mathematical result lies within
/// `[min_val, max_val]`.
pub trait SignedInt: Copy + Sized {
    /// The smallest representable value.
    spec fn min_val() -> int;

    /// The largest representable value.
    spec fn max_val() -> int;

    /// The mathematical integer this value stands for.
    spec fn as_int(self) -> int;

    /// The representable value standing for `v`, when `v` is in range.
    spec fn from_int(v: int) -> Self;

    /// Every value lies within the type's range, which spans zero.
    proof fn lemma_bounds(self)
        ensures
            Self::min_val() <= self.as_int() <= Self::max_val(),
            Self::min_val() < -1 && 1 < Self::max_val(),
    ;

    /// `from_int` inverts `as_int` on representable values.
    proof fn lemma_from_int_as_int(v: int)
        requires
            Self::min_val() <= v <= Self::max_val(),
        ensures
            Self::from_int(v).as_int() == v,
    ;

    /// `as_int` inverts `from_int`.
    proof fn lemma_as_int_from_int(self)
        ensures
            Self::from_int(self.as_int()) == self,
    ;

    /// The value standing for zero.
    fn zero() -> (r: Self)
        ensures
            r == Self::from_int(0),
    ;

    /// The value standing for one.
    fn one() -> (r: Self)
        ensures
            r == Self::from_int(1),
    ;

    /// Addition, `None` exactly on overflow.
    fn checked_add(self, rhs: Self) -> (r: Option<Self>)
        ensures
            r == (if Self::min_val() <= self.as_int() + rhs.as_int() <= Self::max_val() {
                Some(Self::from_int(self.as_int() + rhs.as_int()))
            } else {
                None::<Self>
            }),
    ;

    /// Subtraction, `None` exactly on overflow.
    fn checked_sub(self, rhs: Self) -> (r: Option<Self>)
        ensures
            r == (if Self::min_val() <= self.as_int() - rhs.as_int() <= Self::max_val() {
                Some(Self::from_int(self.as_int() - rhs.as_int()))
            } else {
                None::<Self>
            }),
    ;

    /// Multiplication, `None` exactly on overflow.
    fn checked_mul(self, rhs: Self) -> (r: Option<Self>)
        ensures
            r == (if Self::min_val() <= self.as_int() * rhs.as_int() <= Self::max_val() {
                Some(Self::from_int(self.as_int() * rhs.as_int()))
            } else {
                None::<Self>
            }),
    ;

    /// Truncated division, `None` exactly on a zero divisor or overflow.
    fn checked_div(self, rhs: Self) -> (r: Option<Self>)
        ensures
            r == (if rhs.as_int() == 0 {
                None::<Self>
            } else if Self::min_val() <= trunc_div(self.as_int(), rhs.as_int()) <= Self::max_val() {
                Some(Self::from_int(trunc_div(self.as_int(), rhs.as_int())))
            } else {
                None::<Self>
            }),
    ;

    /// Truncated remainder, `None` exactly on a zero divisor or when the
    /// underlying division overflows.
    fn checked_rem(self, rhs: Self) -> (r: Option<Self>)
        ensures
            r == (if rhs.as_int() == 0 || (self.as_int() == Self::min_val() && rhs.as_int() == -1) {
                None::<Self>
            } else {
                Some(Self::from_int(trunc_rem(self.as_int(), rhs.as_int())))
            }),
    ;

    /// Conversion to `usize`, `None` exactly when the value is negative or
    /// too large.
    fn to_usize(self) -> (r: Option<usize>)
        ensures
            match r {
                Some(u) => u as int == self.as_int() && 0 <= self.as_int() <= usize::MAX as int,
                None => !(0 <= self.as_int() <= usize::MAX as int),
            },
    ;

    /// Exponentiation, `None` exactly on overflow.
    fn checked_pow(self, exp: usize) -> (r: Option<Self>)
        ensures
            r == (if Self::min_val() <= pow(self.as_int(), exp as nat) <= Self::max_val() {
                Some(Self::from_int(pow(self.as_int(), exp as nat)))
            } else {
                None::<Self>
            }),
    ;
}

/// Relies on `num::checked_pow`: binary exponentiation by checked
/// multiplications; every intermediate product is a power of the base whose
/// magnitude is at most that of the full power, so the call returns `Some`
/// exactly when the mathematical power is representable, and then returns it.
#[verifier::external_body]
fn checked_pow_i8(base: i8, exp: usize) -> (r: Option<i8>)
    ensures
        r == (if i8::MIN <= pow(base as int, exp as nat) <= i8::MAX {
            Some(pow(base as int, exp as nat) as i8)
        } else {
            None::<i8>
        }),
{
    num::checked_pow(base, exp)
}

/// Relies on `num::checked_pow`, as for the 8-bit wrapper.
#[verifier::external_body]
fn checked_pow_i32(base: i32, exp: usize) -> (r: Option<i32>)
    ensures
        r == (if i32::MIN <= pow(base as int, exp as nat) <= i32::MAX {
            Some(pow(base as int, exp as nat) as i32)
        } else {
            None::<i32>
        }),
{
    num::checked_pow(base, exp)
}

/// Relies on `num::checked_pow`, as for the 8-bit wrapper.
#[verifier::external_body]
fn checked_pow_i64(base: i64, exp: usize) -> (r: Option<i64>)
    ensures
        r == (if i64::MIN <= pow(base as int, exp as nat) <= i64::MAX {
            Some(pow(base as int, exp as nat) as i64)
        } else {
            None::<i64>
        }),
{
    num::checked_pow(base, exp)
}

impl SignedInt for i8 {
    open spec fn min_val() -> int {
        i8::MIN as int
    }

    open spec fn max_val() -> int {
        i8::MAX as int
    }

    open spec fn as_int(self) -> int {
        self as int
    }

    open spec fn from_int(v: int) -> i8 {
        v as i8
    }

    proof fn lemma_bounds(self) {
    }

    proof fn lemma_from_int_as_int(v: int) {
    }

    proof fn lemma_as_int_from_int(self) {
    }

    fn zero() -> (r: i8) {
        0
    }

    fn one() -> (r: i8) {
        1
    }

    fn checked_add(self, rhs: i8) -> (r: Option<i8>) {
        i8::checked_add(self, rhs)
    }

    fn checked_sub(self, rhs: i8) -> (r: Option<i8>) {
        i8::checked_sub(self, rhs)
    }

    fn checked_mul(self, rhs: i8) -> (r: Option<i8>) {
        i8::checked_mul(self, rhs)
    }

    fn checked_div(self, rhs: i8) -> (r: Option<i8>) {
        i8::checked_div(self, rhs)
    }

    fn checked_rem(self, rhs: i8) -> (r: Option<i8>) {
        i8::checked_rem(self, rhs)
    }

    fn to_usize(self) -> (r: Option<usize>) {
        if self >= 0 {
            Some(self as usize)
        } else {
            None
        }
    }

    fn checked_pow(self, exp: usize) -> (r: Option<i8>) {
        checked_pow_i8(self, exp)
    }
}

impl SignedInt for i32 {
    open spec fn min_val() -> int {
        i32::MIN as int
    }

    open spec fn max_val() -> int {
        i32::MAX as int
    }

    open spec fn as_int(self) -> int {
        self as int
    }

    open spec fn from_int(v: int) -> i32 {
        v as i32
    }

    proof fn lemma_bounds(self) {
    }

    proof fn lemma_from_int_as_int(v: int) {
    }

    proof fn lemma_as_int_from_int(self) {
    }

    fn zero() -> (r: i32) {
        0
    }

    fn one() -> (r: i32) {
        1
    }

    fn checked_add(self, rhs: i32) -> (r: Option<i32>) {
        i32::checked_add(self, rhs)
    }

    fn checked_sub(self, rhs: i32) -> (r: Option<i32>) {
        i32::checked_sub(self, rhs)
    }

    fn checked_mul(self, rhs: i32) -> (r: Option<i32>) {
        i32::checked_mul(self, rhs)
    }

    fn checked_div(self, rhs: i32) -> (r: Option<i32>) {
        i32::checked_div(self, rhs)
    }

    fn checked_rem(self, rhs: i32) -> (r: Option<i32>) {
        i32::checked_rem(self, rhs)
    }

    fn to_usize(self) -> (r: Option<usize>) {
        if self >= 0 {
            Some(self as usize)
        } else {
            None
        }
    }

    fn checked_pow(self, exp: usize) -> (r: Option<i32>) {
        checked_pow_i32(self, exp)
    }
}

impl SignedInt for i64 {
    open spec fn min_val() -> int {
        i64::MIN as int
    }

    open spec fn max_val() -> int {
        i64::MAX as int
    }

    open spec fn as_int(self) -> int {
        self as int
    }

    open spec fn from_int(v: int) -> i64 {
        v as i64
    }

    proof fn lemma_bounds(self) {
    }

    proof fn lemma_from_int_as_int(v: int) {
    }

    proof fn lemma_as_int_from_int(self) {
    }

    fn zero() -> (r: i64) {
        0
    }

    fn one() -> (r: i64) {
        1
    }

    fn checked_add(self, rhs: i64) -> (r: Option<i64>) {
        i64::checked_add(self, rhs)
    }

    fn checked_sub(self, rhs: i64) -> (r: Option<i64>) {
        i64::checked_sub(self, rhs)
    }

    fn checked_mul(self, rhs: i64) -> (r: Option<i64>) {
        i64::checked_mul(self, rhs)
    }

    fn checked_div(self, rhs: i64) -> (r: Option<i64>) {
        i64::checked_div(self, rhs)
    }

    fn checked_rem(self, rhs: i64) -> (r: Option<i64>) {
        i64::checked_rem(self, rhs)
    }

    fn to_usize(self) -> (r: Option<usize>) {
        if self >= 0 && self as u64 <= usize::MAX as u64 {
            Some(self as usize)
        } else {
            None
        }
    }

    fn checked_pow(self, exp: usize) -> (r: Option<i64>) {
        checked_pow_i64(self, exp)
    }
}

/// The capability implemented by every operator: arity declaration plus the
/// execution step.
///
/// The declared arities must agree with what `evaluate` actually consumes and
/// produces; that agreement is stated by the contract of `evaluate` and by
/// the proof obligation `lemma_spec_eval_arity`, and is what lets a validated
/// expression be evaluated without ever underflowing the stack.
pub trait Evaluate<T>: Sized {
    /// The type returned in the event of an evaluation error.
    type Err;

    /// The number of operands this evaluator pops.
    spec fn spec_needed(&self) -> nat;

    /// The number of operands this evaluator pushes.
    spec fn spec_generated(&self) -> nat;

    /// What evaluation does to the popped operands: the pushed results, or a
    /// domain error. `args` lists the popped operands in stack order, the
    /// earliest-pushed first.
    spec fn spec_eval(&self, args: Seq<T>) -> Result<Seq<T>, Self::Err>;

    /// On success, evaluation pushes exactly the declared number of results.
    proof fn lemma_spec_eval_arity(&self, args: Seq<T>)
        requires
            args.len() == self.spec_needed(),
        ensures
            self.spec_eval(args) matches Ok(out) ==> out.len() == self.spec_generated(),
    ;

    /// Returns the number of operands this evaluator needs and will pop from
    /// the stack.
    fn operands_needed(&self) -> (n: usize)
        ensures
            n == self.spec_needed(),
    ;

    /// Returns the number of operands this evaluator will generate and push
    /// onto the stack.
    fn operands_generated(&self) -> (n: usize)
        ensures
            n == self.spec_generated(),
    ;

    /// Executes the evaluation on the given stack: pops the declared number
    /// of operands and pushes the results of `spec_eval`, or returns its
    /// error, leaving deeper stack entries untouched.
    fn evaluate(self, stack: &mut Stack<T>) -> (r: Result<(), Self::Err>)
        requires
            old(stack)@.len() >= self.spec_needed(),
        ensures
            ({
                let keep = old(stack)@.len() - self.spec_needed();
                match self.spec_eval(old(stack)@.skip(keep as int)) {
                    Ok(out) => r is Ok && final(stack)@ == old(stack)@.take(keep as int) + out,
                    Err(e) => r == Err::<(), Self::Err>(e),
                }
            }),
    ;
}

/// Basic signed-integer evaluator set for any operand type implementing
/// [`SignedInt`].
#[derive(Debug, Copy, Clone)]
pub enum IntEvaluator {
    /// `"+"` pops 2 operands and pushes 1.
    Add,
    /// `"-"` pops 2 operands and pushes 1.
    Sub,
    /// `"*"` pops 2 operands and pushes 1.
    Mul,
    /// `"/"` pops 2 operands and pushes 1.
    Div,
    /// `"%"` pops 2 operands and pushes 1.
    Rem,
    /// `"neg"` pops 1 operand and pushes 1.
    Neg,
    /// `"pow"` pops 2 operands and pushes 1.
    Pow,
    /// `"swap"` pops 2 operands and pushes 2.
    Swap,
    /// `"zero"` pops 0 operands and pushes 1.
    Zero,
    /// `"one"` pops 0 operands and pushes 1.
    One,
}

/// Type returned when an error occurs on a signed-integer operation.
#[derive(Debug, PartialEq)]
pub enum IntEvaluateErr<T> {
    /// The exponent cannot be turned into an unsigned machine integer.
    ConvertToU32(T),
    /// Addition overflowed.
    AddOverflow(T, T),
    /// Subtraction overflowed.
    SubUnderflow(T, T),
    /// Multiplication overflowed.
    MulOverflow(T, T),
    /// Exponentiation overflowed.
    PowOverflow(T, usize),
    /// Division by zero, or a quotient that overflows.
    InvalidDiv(T, T),
    /// Remainder by zero, or a remainder whose division overflows.
    InvalidRem(T, T),
    /// Negation overflowed.
    NegOverflow(T),
}

/// Type returned when a token denotes no evaluator.
#[derive(Debug, PartialEq)]
pub enum IntErr<'a> {
    /// The token matches no evaluator symbol.
    InvalidExpr(&'a str),
}

impl<'a> TryFromRef<&'a str> for IntEvaluator {
    type Err = IntErr<'a>;

    open spec fn spec_try_from_ref(t: &'a str) -> Result<IntEvaluator, IntErr<'a>> {
        if t@ == "+"@ {
            Ok(IntEvaluator::Add)
        } else if t@ == "-"@ {
            Ok(IntEvaluator::Sub)
        } else if t@ == "*"@ {
            Ok(IntEvaluator::Mul)
        } else if t@ == "/"@ {
            Ok(IntEvaluator::Div)
        } else if t@ == "%"@ {
            Ok(IntEvaluator::Rem)
        } else if t@ == "neg"@ {
            Ok(IntEvaluator::Neg)
        } else if t@ == "pow"@ {
            Ok(IntEvaluator::Pow)
        } else if t@ == "swap"@ {
            Ok(IntEvaluator::Swap)
        } else if t@ == "zero"@ {
            Ok(IntEvaluator::Zero)
        } else if t@ == "one"@ {
            Ok(IntEvaluator::One)
        } else {
            Err(IntErr::InvalidExpr(t))
        }
    }

    fn try_from_ref(t: &&'a str) -> (r: Result<IntEvaluator, IntErr<'a>>) {
        if str_eq(t, "+") {
            Ok(IntEvaluator::Add)
        } else if str_eq(t, "-") {
            Ok(IntEvaluator::Sub)
        } else if str_eq(t, "*") {
            Ok(IntEvaluator::Mul)
        } else if str_eq(t, "/") {
            Ok(IntEvaluator::Div)
        } else if str_eq(t, "%") {
            Ok(IntEvaluator::Rem)
        } else if str_eq(t, "neg") {
            Ok(IntEvaluator::Neg)
        } else if str_eq(t, "pow") {
            Ok(IntEvaluator::Pow)
        } else if str_eq(t, "swap") {
            Ok(IntEvaluator::Swap)
        } else if str_eq(t, "zero") {
            Ok(IntEvaluator::Zero)
        } else if str_eq(t, "one") {
            Ok(IntEvaluator::One)
        } else {
            Err(IntErr::InvalidExpr(*t))
        }
    }
}

impl Render for IntEvaluator {
    open spec fn spec_text(&self) -> Seq<char> {
        match *self {
            IntEvaluator::Add => "+"@,
            IntEvaluator::Sub => "-"@,
            IntEvaluator::Mul => "*"@,
            IntEvaluator::Div => "/"@,
            IntEvaluator::Rem => "%"@,
            IntEvaluator::Neg => "neg"@,
            IntEvaluator::Pow => "pow"@,
            IntEvaluator::Swap => "swap"@,
            IntEvaluator::Zero => "zero"@,
            IntEvaluator::One => "one"@,
        }
    }

    fn render(&self) -> (s: String) {
        match *self {
            IntEvaluator::Add => String::from_str("+"),
            IntEvaluator::Sub => String::from_str("-"),
            IntEvaluator::Mul => String::from_str("*"),
            IntEvaluator::Div => String::from_str("/"),
            IntEvaluator::Rem => String::from_str("%"),
            IntEvaluator::Neg => String::from_str("neg"),
            IntEvaluator::Pow => String::from_str("pow"),
            IntEvaluator::Swap => String::from_str("swap"),
            IntEvaluator::Zero => String::from_str("zero"),
            IntEvaluator::One => String::from_str("one"),
        }
    }
}

impl<T: SignedInt> Evaluate<T> for IntEvaluator {
    type Err = IntEvaluateErr<T>;

    open spec fn spec_needed(&self) -> nat {
        match *self {
            IntEvaluator::Add
            | IntEvaluator::Sub
            | IntEvaluator::Mul
            | IntEvaluator::Div
            | IntEvaluator::Rem
            | IntEvaluator::Pow
            | IntEvaluator::Swap => 2,
            IntEvaluator::Neg => 1,
            IntEvaluator::Zero | IntEvaluator::One => 0,
        }
    }

    open spec fn spec_generated(&self) -> nat {
        match *self {
            IntEvaluator::Swap => 2,
            _ => 1,
        }
    }

    open spec fn spec_eval(&self, args: Seq<T>) -> Result<Seq<T>, IntEvaluateErr<T>> {
        match *self {
            IntEvaluator::Add => {
                let s = args[0].as_int() + args[1].as_int();
                if T::min_val() <= s <= T::max_val() {
                    Ok(seq![T::from_int(s)])
                } else {
                    Err(IntEvaluateErr::AddOverflow(args[0], args[1]))
                }
            },
            IntEvaluator::Sub => {
                let s = args[0].as_int() - args[1].as_int();
                if T::min_val() <= s <= T::max_val() {
                    Ok(seq![T::from_int(s)])
                } else {
                    Err(IntEvaluateErr::SubUnderflow(args[0], args[1]))
                }
            },
            IntEvaluator::Mul => {
                let s = args[0].as_int() * args[1].as_int();
                if T::min_val() <= s <= T::max_val() {
                    Ok(seq![T::from_int(s)])
                } else {
                    Err(IntEvaluateErr::MulOverflow(args[0], args[1]))
                }
            },
            IntEvaluator::Div => {
                if args[1].as_int() == 0 {
                    Err(IntEvaluateErr::InvalidDiv(args[0], args[1]))
                } else {
                    let q = trunc_div(args[0].as_int(), args[1].as_int());
                    if T::min_val() <= q <= T::max_val() {
                        Ok(seq![T::from_int(q)])
                    } else {
                        Err(IntEvaluateErr::InvalidDiv(args[0], args[1]))
                    }
                }
            },
            IntEvaluator::Rem => {
                if args[1].as_int() == 0 || (args[0].as_int() == T::min_val() && args[1].as_int()
                    == -1) {
                    Err(IntEvaluateErr::InvalidRem(args[0], args[1]))
                } else {
                    Ok(seq![T::from_int(trunc_rem(args[0].as_int(), args[1].as_int()))])
                }
            },
            IntEvaluator::Neg => {
                let s = -args[0].as_int();
                if T::min_val() <= s <= T::max_val() {
                    Ok(seq![T::from_int(s)])
                } else {
                    Err(IntEvaluateErr::NegOverflow(args[0]))
                }
            },
            IntEvaluator::Pow => {
                if !(0 <= args[1].as_int() <= usize::MAX as int) {
                    Err(IntEvaluateErr::ConvertToU32(args[1]))
                } else {
                    let p = pow(args[0].as_int(), args[1].as_int() as nat);
                    if T::min_val() <= p <= T::max_val() {
                        Ok(seq![T::from_int(p)])
                    } else {
                        Err(IntEvaluateErr::PowOverflow(args[0], args[1].as_int() as usize))
                    }
                }
            },
            IntEvaluator::Swap => Ok(seq![args[1], args[0]]),
            IntEvaluator::Zero => Ok(seq![T::from_int(0)]),
            IntEvaluator::One => Ok(seq![T::from_int(1)]),
        }
    }

    proof fn lemma_spec_eval_arity(&self, args: Seq<T>) {
    }

    fn operands_needed(&self) -> (n: usize) {
        match *self {
            IntEvaluator::Add
            | IntEvaluator::Sub
            | IntEvaluator::Mul
            | IntEvaluator::Div
            | IntEvaluator::Rem
            | IntEvaluator::Pow
            | IntEvaluator::Swap => 2,
            IntEvaluator::Neg => 1,
            IntEvaluator::Zero | IntEvaluator::One => 0,
        }
    }

    fn operands_generated(&self) -> (n: usize) {
        match *self {
            IntEvaluator::Swap => 2,
            _ => 1,
        }
    }

    fn evaluate(self, stack: &mut Stack<T>) -> (r: Result<(), IntEvaluateErr<T>>) {
        let ghost keep = old(stack)@.len() - <IntEvaluator as Evaluate<T>>::spec_needed(&self);
        let ghost args = old(stack)@.skip(keep as int);
        match self {
            IntEvaluator::Add => {
                let (a, b) = crate::pop_two_operands(stack).unwrap();
                proof {
                    assert(args =~= seq![a, b]);
                }
                match a.checked_add(b) {
                    Some(c) => {
                        stack.push(c);
                        proof {
                            assert(stack@ =~= old(stack)@.take(keep as int) + seq![c]);
                        }
                        Ok(())
                    },
                    None => Err(IntEvaluateErr::AddOverflow(a, b)),
                }
            },
            IntEvaluator::Sub => {
                let (a, b) = crate::pop_two_operands(stack).unwrap();
                proof {
                    assert(args =~= seq![a, b]);
                }
                match a.checked_sub(b) {
                    Some(c) => {
                        stack.push(c);
                        proof {
                            assert(stack@ =~= old(stack)@.take(keep as int) + seq![c]);
                        }
                        Ok(())
                    },
                    None => Err(IntEvaluateErr::SubUnderflow(a, b)),
                }
            },
            IntEvaluator::Mul => {
                let (a, b) = crate::pop_two_operands(stack).unwrap();
                proof {
                    assert(args =~= seq![a, b]);
                }
                match a.checked_mul(b) {
                    Some(c) => {
                        stack.push(c);
                        proof {
                            assert(stack@ =~= old(stack)@.take(keep as int) + seq![c]);
                        }
                        Ok(())
                    },
                    None => Err(IntEvaluateErr::MulOverflow(a, b)),
                }
            },
            IntEvaluator::Div => {
                let (a, b) = crate::pop_two_operands(stack).unwrap();
                proof {
                    assert(args =~= seq![a, b]);
                }
                match a.checked_div(b) {
                    Some(c) => {
                        stack.push(c);
                        proof {
                            assert(stack@ =~= old(stack)@.take(keep as int) + seq![c]);
                        }
                        Ok(())
                    },
                    None => Err(IntEvaluateErr::InvalidDiv(a, b)),
                }
            },
            IntEvaluator::Rem => {
                let (a, b) = crate::pop_two_operands(stack).unwrap();
                proof {
                    assert(args =~= seq![a, b]);
                }
                match a.checked_rem(b) {
                    Some(c) => {
                        stack.push(c);
                        proof {
                            assert(stack@ =~= old(stack)@.take(keep as int) + seq![c]);
                        }
                        Ok(())
                    },
                    None => Err(IntEvaluateErr::InvalidRem(a, b)),
                }
            },
            IntEvaluator::Neg => {
                let a = stack.pop().unwrap();
                proof {
                    assert(args =~= seq![a]);
                    a.lemma_bounds();
                    T::lemma_from_int_as_int(0);
                }
                match T::zero().checked_sub(a) {
                    Some(c) => {
                        stack.push(c);
                        proof {
                            assert(stack@ =~= old(stack)@.take(keep as int) + seq![c]);
                        }
                        Ok(())
                    },
                    None => Err(IntEvaluateErr::NegOverflow(a)),
                }
            },
            IntEvaluator::Pow => {
                let (a, b) = crate::pop_two_operands(stack).unwrap();
                proof {
                    assert(args =~= seq![a, b]);
                }
                match b.to_usize() {
                    Some(e) => {
                        match a.checked_pow(e) {
                            Some(c) => {
                                stack.push(c);
                                proof {
                                    assert(stack@ =~= old(stack)@.take(keep as int) + seq![c]);
                                }
                                Ok(())
                            },
                            None => Err(IntEvaluateErr::PowOverflow(a, e)),
                        }
                    },
                    None => Err(IntEvaluateErr::ConvertToU32(b)),
                }
            },
            IntEvaluator::Swap => {
                let (a, b) = crate::pop_two_operands(stack).unwrap();
                proof {
                    assert(args =~= seq![a, b]);
                }
                stack.push(b);
                stack.push(a);
                proof {
                    assert(stack@ =~= old(stack)@.take(keep as int) + seq![b, a]);
                }
                Ok(())
            },
            IntEvaluator::Zero => {
                stack.push(T::zero());
                proof {
                    assert(stack@ =~= old(stack)@.take(keep as int) + seq![T::from_int(0)]);
                }
                Ok(())
            },
            IntEvaluator::One => {
                stack.push(T::one());
                proof {
                    assert(stack@ =~= old(stack)@.take(keep as int) + seq![T::from_int(1)]);
                }
                Ok(())
            },
        }
    }
}

/// Round trip: a token recognised as an evaluator renders back to that very
/// token.
pub proof fn lemma_int_evaluator_parse_renders<'a>(t: &'a str, e: IntEvaluator)
    requires
        <IntEvaluator as TryFromRef<&'a str>>::spec_try_from_ref(t) == Ok::<IntEvaluator, IntErr<'a>>(e),
    ensures
        e.spec_text() == t@,
{
}

} // verus!

verus! {

/// A helping alias to make integer expressions.
pub type IntExpr<T> = crate::expression::Expression<T, crate::variable::DummyVariable, IntEvaluator>;

/// A helping alias to make variable integer expressions.
pub type VariableIntExpr<T, V> = crate::expression::Expression<T, V, IntEvaluator>;

/// Every integer evaluator pushes at most one operand more than it pops, so
/// the running balance of an integer expression grows by at most one per
/// token.
pub proof fn lemma_int_evaluator_small_steps<T: SignedInt>(e: IntEvaluator)
    ensures
        <IntEvaluator as Evaluate<T>>::spec_generated(&e) <= <IntEvaluator as Evaluate<T>>::spec_needed(&e) + 1,
{
}

} // verus!

verus! {

/// Round trip: the canonical text of an evaluator reads back as that
/// evaluator.
pub proof fn lemma_int_evaluator_render_parses<'a>(t: &'a str, e: IntEvaluator)
    requires
        t@ == e.spec_text(),
    ensures
        <IntEvaluator as TryFromRef<&'a str>>::spec_try_from_ref(t) == Ok::<
            IntEvaluator,
            IntErr<'a>,
        >(e),
{
    reveal_strlit("+");
    reveal_strlit("-");
    reveal_strlit("*");
    reveal_strlit("/");
    reveal_strlit("%");
    reveal_strlit("neg");
    reveal_strlit("pow");
    reveal_strlit("swap");
    reveal_strlit("zero");
    reveal_strlit("one");
    assert(("+"@).len() == 1 && ("+"@)[0] == '+');
    assert(("-"@).len() == 1 && ("-"@)[0] == '-');
    assert(("*"@).len() == 1 && ("*"@)[0] == '*');
    assert(("/"@).len() == 1 && ("/"@)[0] == '/');
    assert(("%"@).len() == 1 && ("%"@)[0] == '%');
    assert(("neg"@).len() == 3 && ("neg"@)[0] == 'n');
    assert(("pow"@).len() == 3 && ("pow"@)[0] == 'p');
    assert(("swap"@).len() == 4 && ("swap"@)[0] == 's');
    assert(("zero"@).len() == 4 && ("zero"@)[0] == 'z');
    assert(("one"@).len() == 3 && ("one"@)[0] == 'o');
    match e {
        IntEvaluator::Add => assert(t@ == "+"@),
        IntEvaluator::Sub => assert(t@ == "-"@),
        IntEvaluator::Mul => assert(t@ == "*"@),
        IntEvaluator::Div => assert(t@ == "/"@),
        IntEvaluator::Rem => assert(t@ == "%"@),
        IntEvaluator::Neg => assert(t@ == "neg"@),
        IntEvaluator::Pow => assert(t@ == "pow"@),
        IntEvaluator::Swap => assert(t@ == "swap"@),
        IntEvaluator::Zero => assert(t@ == "zero"@),
        IntEvaluator::One => assert(t@ == "one"@),
    }
}

} // verus!
