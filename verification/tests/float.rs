// A floating-point evaluator set, plugged in from outside the library: the
// library core is generic, so operand and evaluator types with float
// arithmetic can be supplied by callers.

use std::str::FromStr;
use ripin::Stack;
use ripin::pop_two_operands;
use ripin::convert_ref::TryFromRef;
use ripin::evaluate::Evaluate;
use ripin::expression::Expression;
use ripin::variable::{DummyVariable, IndexVar};

#[derive(Debug, Copy, Clone, PartialEq)]
struct F32(f32);

#[derive(Debug, PartialEq)]
struct BadFloat;

impl<'a> TryFromRef<&'a str> for F32 {
    type Err = BadFloat;

    // Ghost trait item, never called at run time.
    fn spec_try_from_ref(_: &'a str) -> Result<F32, BadFloat> {
        panic!()
    }

    fn try_from_ref(t: &&'a str) -> Result<F32, BadFloat> {
        match f32::from_str(t) {
            Ok(v) => Ok(F32(v)),
            Err(_) => Err(BadFloat),
        }
    }
}

#[derive(Debug, Copy, Clone)]
enum FloatEvaluator {
    Add,
    Sub,
    Mul,
    Div,
    Rem,
    Neg,
    Sqrt,
    Pow,
    Log2,
    Exp,
    Swap,
    Zero,
    One,
    Round,
}

#[derive(Debug, PartialEq)]
enum FloatEvaluateErr {}

#[derive(Debug, PartialEq)]
enum FloatErr<'a> {
    InvalidExpr(&'a str),
}

impl<'a> TryFromRef<&'a str> for FloatEvaluator {
    type Err = FloatErr<'a>;

    // Ghost trait item, never called at run time.
    fn spec_try_from_ref(_: &'a str) -> Result<FloatEvaluator, FloatErr<'a>> {
        panic!()
    }

    fn try_from_ref(t: &&'a str) -> Result<FloatEvaluator, FloatErr<'a>> {
        match *t {
            "+" => Ok(FloatEvaluator::Add),
            "-" => Ok(FloatEvaluator::Sub),
            "*" => Ok(FloatEvaluator::Mul),
            "/" => Ok(FloatEvaluator::Div),
            "%" => Ok(FloatEvaluator::Rem),
            "neg" => Ok(FloatEvaluator::Neg),
            "sqrt" => Ok(FloatEvaluator::Sqrt),
            "pow" => Ok(FloatEvaluator::Pow),
            "log2" => Ok(FloatEvaluator::Log2),
            "exp" => Ok(FloatEvaluator::Exp),
            "swap" => Ok(FloatEvaluator::Swap),
            "zero" => Ok(FloatEvaluator::Zero),
            "one" => Ok(FloatEvaluator::One),
            "round" => Ok(FloatEvaluator::Round),
            _ => Err(FloatErr::InvalidExpr(t)),
        }
    }
}

impl Evaluate<F32> for FloatEvaluator {
    type Err = FloatEvaluateErr;

    // Ghost trait items, never called at run time.
    fn spec_needed(&self) -> vstd::prelude::nat {
        panic!()
    }

    fn spec_generated(&self) -> vstd::prelude::nat {
        panic!()
    }

    fn spec_eval(
        &self,
        _: vstd::prelude::Seq<F32>,
    ) -> Result<vstd::prelude::Seq<F32>, FloatEvaluateErr> {
        panic!()
    }

    fn lemma_spec_eval_arity(&self, _: vstd::prelude::Seq<F32>) {
    }

    fn operands_needed(&self) -> usize {
        match *self {
            FloatEvaluator::Add
            | FloatEvaluator::Sub
            | FloatEvaluator::Mul
            | FloatEvaluator::Div
            | FloatEvaluator::Pow
            | FloatEvaluator::Rem
            | FloatEvaluator::Swap => 2,
            FloatEvaluator::Neg
            | FloatEvaluator::Sqrt
            | FloatEvaluator::Log2
            | FloatEvaluator::Round
            | FloatEvaluator::Exp => 1,
            FloatEvaluator::Zero | FloatEvaluator::One => 0,
        }
    }

    fn operands_generated(&self) -> usize {
        match *self {
            FloatEvaluator::Swap => 2,
            _ => 1,
        }
    }

    fn evaluate(self, stack: &mut Stack<F32>) -> Result<(), FloatEvaluateErr> {
        match self {
            FloatEvaluator::Add => {
                let (a, b) = pop_two_operands(stack).unwrap();
                Ok(stack.push(F32(a.0 + b.0)))
            }
            FloatEvaluator::Sub => {
                let (a, b) = pop_two_operands(stack).unwrap();
                Ok(stack.push(F32(a.0 - b.0)))
            }
            FloatEvaluator::Mul => {
                let (a, b) = pop_two_operands(stack).unwrap();
                Ok(stack.push(F32(a.0 * b.0)))
            }
            FloatEvaluator::Div => {
                let (a, b) = pop_two_operands(stack).unwrap();
                Ok(stack.push(F32(a.0 / b.0)))
            }
            FloatEvaluator::Rem => {
                let (a, b) = pop_two_operands(stack).unwrap();
                Ok(stack.push(F32(a.0 % b.0)))
            }
            FloatEvaluator::Neg => {
                let a = stack.pop().unwrap();
                Ok(stack.push(F32(-a.0)))
            }
            FloatEvaluator::Sqrt => {
                let a = stack.pop().unwrap();
                Ok(stack.push(F32(a.0.sqrt())))
            }
            FloatEvaluator::Pow => {
                let (a, b) = pop_two_operands(stack).unwrap();
                Ok(stack.push(F32(a.0.powf(b.0))))
            }
            FloatEvaluator::Log2 => {
                let a = stack.pop().unwrap();
                Ok(stack.push(F32(a.0.log2())))
            }
            FloatEvaluator::Exp => {
                let a = stack.pop().unwrap();
                Ok(stack.push(F32(a.0.exp())))
            }
            FloatEvaluator::Swap => {
                let (a, b) = pop_two_operands(stack).unwrap();
                stack.push(b);
                stack.push(a);
                Ok(())
            }
            FloatEvaluator::Zero => Ok(stack.push(F32(0.0))),
            FloatEvaluator::One => Ok(stack.push(F32(1.0))),
            FloatEvaluator::Round => {
                let a = stack.pop().unwrap();
                Ok(stack.push(F32(a.0.round())))
            }
        }
    }
}

type FloatExpr = Expression<F32, DummyVariable, FloatEvaluator>;
type VariableFloatExpr = Expression<F32, IndexVar, FloatEvaluator>;

fn eval(expr_str: &str) -> Result<F32, FloatEvaluateErr> {
    let tokens: Vec<&str> = expr_str.split_whitespace().collect();
    let expr = FloatExpr::from_iter(tokens).unwrap();
    expr.evaluate()
}

#[test]
fn float_bad_operator() {
    let expr_str = "3 4 + &";
    let tokens: Vec<&str> = expr_str.split_whitespace().collect();
    let res = FloatExpr::from_iter(tokens);
    match res {
        Err(ripin::expression::ExprResult::InvalidToken {
            evaluator: FloatErr::InvalidExpr("&"),
            ..
        }) => (),
        _ => panic!("{:?}", res),
    }
}

#[test]
fn float_too_many_operands() {
    let expr_str = "3 3 4 +";
    let tokens: Vec<&str> = expr_str.split_whitespace().collect();
    let res = FloatExpr::from_iter(tokens);
    match res {
        Err(ripin::expression::ExprResult::OperandErr(
            ripin::expression::OperandErr::TooManyOperands,
        )) => (),
        _ => panic!("{:?}", res),
    }
}

#[test]
fn float_not_enough_operand() {
    let expr_str = "4 +";
    let tokens: Vec<&str> = expr_str.split_whitespace().collect();
    let res = FloatExpr::from_iter(tokens);
    match res {
        Err(ripin::expression::ExprResult::OperandErr(
            ripin::expression::OperandErr::NotEnoughOperands,
        )) => (),
        _ => panic!("{:?}", res),
    }
}

#[test]
fn float_simple_addition() {
    assert_eq!(eval("3 4 +"), Ok(F32(7.0)));
}

#[test]
fn float_simple_substraction() {
    assert_eq!(eval("4 3 -"), Ok(F32(1.0)));
}

#[test]
fn float_simple_multiplication() {
    assert_eq!(eval("3 4 *"), Ok(F32(12.0)));
}

#[test]
fn float_simple_division() {
    assert_eq!(eval("9 3 /"), Ok(F32(3.0)));
}

#[test]
fn float_simple_division_by_zero() {
    assert_eq!(eval("9 0 /"), Ok(F32(f32::INFINITY)));
}

#[test]
fn float_simple_nan() {
    assert!(eval("0 0 /").unwrap().0.is_nan());
}

#[test]
fn float_simple_remaining() {
    assert_eq!(eval("9 3 %"), Ok(F32(0.0)));
}

#[test]
fn float_simple_negation() {
    assert_eq!(eval("9 neg"), Ok(F32(-9.0)));
}

#[test]
fn float_simple_square_root() {
    assert_eq!(eval("9 sqrt"), Ok(F32(3.0)));
}

#[test]
fn float_simple_power() {
    assert_eq!(eval("3 4 pow"), Ok(F32(81.0)));
}

#[test]
fn float_simple_logarithm_2() {
    assert_eq!(eval("4 log2"), Ok(F32(2.0)));
}

#[test]
fn float_simple_exponential() {
    assert_eq!(eval("0 exp"), Ok(F32(1.0)));
}

#[test]
fn float_simple_swap() {
    assert_eq!(eval("2 4 swap /"), Ok(F32(2.0)));
}

#[test]
fn float_simple_zero() {
    assert_eq!(eval("zero"), Ok(F32(0.0)));
}

#[test]
fn float_simple_one() {
    assert_eq!(eval("one"), Ok(F32(1.0)));
}

#[test]
fn float_simple_round() {
    assert_eq!(eval("3.3 round"), Ok(F32(3.0)));
}

#[test]
fn float_simple_variable_expression() {
    let expr_str = "3 4 + $0 -";
    let variables = vec![F32(3.0), F32(500.0)];
    let tokens: Vec<&str> = expr_str.split_whitespace().collect();
    let expr = VariableFloatExpr::from_iter(tokens).unwrap();
    assert_eq!(expr.evaluate_with_variables::<usize, _>(&variables), Ok(F32(4.0)));
}
