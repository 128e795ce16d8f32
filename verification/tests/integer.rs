use ripin::evaluate::{IntErr, IntEvaluateErr, IntExpr};
use ripin::expression::{ExprResult, OperandErr};

#[test]
fn integer_bad_operator() {
    let expr_str = "3 4 + &";
    let tokens: Vec<&str> = expr_str.split_whitespace().collect();
    let res = IntExpr::<i32>::from_iter(tokens);
    match res {
        Err(ExprResult::InvalidToken { evaluator: IntErr::InvalidExpr("&"), .. }) => (),
        _ => panic!("{:?}", res),
    }
}

#[test]
fn integer_too_many_operands() {
    let expr_str = "3 3 4 +";
    let tokens: Vec<&str> = expr_str.split_whitespace().collect();
    let res = IntExpr::<i32>::from_iter(tokens);
    match res {
        Err(ExprResult::OperandErr(OperandErr::TooManyOperands)) => (),
        _ => panic!("{:?}", res),
    }
}

#[test]
fn integer_not_enough_operand() {
    let expr_str = "4 +";
    let tokens: Vec<&str> = expr_str.split_whitespace().collect();
    let res = IntExpr::<i32>::from_iter(tokens);
    match res {
        Err(ExprResult::OperandErr(OperandErr::NotEnoughOperands)) => (),
        _ => panic!("{:?}", res),
    }
}

#[test]
fn integer_simple_addition() {
    let expr_str = "3 4 +";
    let tokens: Vec<&str> = expr_str.split_whitespace().collect();
    let expr = IntExpr::<i32>::from_iter(tokens).unwrap();
    assert_eq!(expr.evaluate(), Ok(7));
}

#[test]
fn integer_overflowing_addition() {
    let expr_str = "125 20 +";
    let tokens: Vec<&str> = expr_str.split_whitespace().collect();
    let expr = IntExpr::<i8>::from_iter(tokens).unwrap();
    assert_eq!(expr.evaluate(), Err(IntEvaluateErr::AddOverflow(125, 20)));
}

#[test]
fn integer_simple_substraction() {
    let expr_str = "4 3 -";
    let tokens: Vec<&str> = expr_str.split_whitespace().collect();
    let expr = IntExpr::<i32>::from_iter(tokens).unwrap();
    assert_eq!(expr.evaluate(), Ok(1));
}

#[test]
fn integer_underflowing_substraction() {
    let expr_str = "-120 30 -";
    let tokens: Vec<&str> = expr_str.split_whitespace().collect();
    let expr = IntExpr::<i8>::from_iter(tokens).unwrap();
    assert_eq!(expr.evaluate(), Err(IntEvaluateErr::SubUnderflow(-120, 30)));
}

#[test]
fn integer_simple_multiplication() {
    let expr_str = "3 4 *";
    let tokens: Vec<&str> = expr_str.split_whitespace().collect();
    let expr = IntExpr::<i32>::from_iter(tokens).unwrap();
    assert_eq!(expr.evaluate(), Ok(12));
}

#[test]
fn integer_overflowing_multiplication() {
    let expr_str = "30 20 *";
    let tokens: Vec<&str> = expr_str.split_whitespace().collect();
    let expr = IntExpr::<i8>::from_iter(tokens).unwrap();
    assert_eq!(expr.evaluate(), Err(IntEvaluateErr::MulOverflow(30, 20)));
}

#[test]
fn integer_simple_division() {
    let expr_str = "9 3 /";
    let tokens: Vec<&str> = expr_str.split_whitespace().collect();
    let expr = IntExpr::<i32>::from_iter(tokens).unwrap();
    assert_eq!(expr.evaluate(), Ok(3));
}

#[test]
fn integer_invalid_division() {
    let expr_str = "9 0 /";
    let tokens: Vec<&str> = expr_str.split_whitespace().collect();
    let expr = IntExpr::<i8>::from_iter(tokens).unwrap();
    assert_eq!(expr.evaluate(), Err(IntEvaluateErr::InvalidDiv(9, 0)));
}

#[test]
fn integer_simple_remaining() {
    let expr_str = "9 3 %";
    let tokens: Vec<&str> = expr_str.split_whitespace().collect();
    let expr = IntExpr::<i32>::from_iter(tokens).unwrap();
    assert_eq!(expr.evaluate(), Ok(0));
}

#[test]
fn integer_invalid_remaining() {
    let expr_str = "9 0 %";
    let tokens: Vec<&str> = expr_str.split_whitespace().collect();
    let expr = IntExpr::<i32>::from_iter(tokens).unwrap();
    assert_eq!(expr.evaluate(), Err(IntEvaluateErr::InvalidRem(9, 0)));
}

#[test]
fn integer_simple_negation() {
    let expr_str = "9 neg";
    let tokens: Vec<&str> = expr_str.split_whitespace().collect();
    let expr = IntExpr::<i32>::from_iter(tokens).unwrap();
    assert_eq!(expr.evaluate(), Ok(-9));
}

#[test]
fn integer_simple_power() {
    let expr_str = "3 4 pow";
    let tokens: Vec<&str> = expr_str.split_whitespace().collect();
    let expr = IntExpr::<i32>::from_iter(tokens).unwrap();
    assert_eq!(expr.evaluate(), Ok(81));
}

#[test]
fn integer_overflowing_power() {
    let expr_str = "3 10 pow";
    let tokens: Vec<&str> = expr_str.split_whitespace().collect();
    let expr = IntExpr::<i8>::from_iter(tokens).unwrap();
    assert_eq!(expr.evaluate(), Err(IntEvaluateErr::PowOverflow(3, 10)));
}

#[test]
fn integer_invalid_exp_power() {
    let expr_str = "3 -10 pow";
    let tokens: Vec<&str> = expr_str.split_whitespace().collect();
    let expr = IntExpr::<i8>::from_iter(tokens).unwrap();
    assert_eq!(expr.evaluate(), Err(IntEvaluateErr::ConvertToU32(-10)));
}

#[test]
fn integer_simple_swap() {
    let expr_str = "2 4 swap /";
    let tokens: Vec<&str> = expr_str.split_whitespace().collect();
    let expr = IntExpr::<i32>::from_iter(tokens).unwrap();
    assert_eq!(expr.evaluate(), Ok(2));
}

#[test]
fn integer_simple_zero() {
    let expr_str = "zero";
    let tokens: Vec<&str> = expr_str.split_whitespace().collect();
    let expr = IntExpr::<i32>::from_iter(tokens).unwrap();
    assert_eq!(expr.evaluate(), Ok(0));
}

#[test]
fn integer_simple_one() {
    let expr_str = "one";
    let tokens: Vec<&str> = expr_str.split_whitespace().collect();
    let expr = IntExpr::<i32>::from_iter(tokens).unwrap();
    assert_eq!(expr.evaluate(), Ok(1));
}

#[test]
fn integer_to_string() {
    let expr_str = "3 3 + neg neg 4 +";
    let tokens: Vec<&str> = expr_str.split_whitespace().collect();
    let expr = IntExpr::<i32>::from_iter(tokens).unwrap();
    assert_eq!(expr.to_string(), expr_str);
}

#[test]
fn integer_negative_to_string() {
    let expr_str = "-128 -1 *";
    let tokens: Vec<&str> = expr_str.split_whitespace().collect();
    let expr = IntExpr::<i64>::from_iter(tokens).unwrap();
    assert_eq!(expr.to_string(), expr_str);
    assert_eq!(expr.evaluate(), Ok(128));
}

#[test]
fn integer_max_stack() {
    let expr_str = "3 4 + 2 *";
    let tokens: Vec<&str> = expr_str.split_whitespace().collect();
    let expr = IntExpr::<i32>::from_iter(tokens).unwrap();
    assert_eq!(expr.max_stack(), 2);
    assert_eq!(expr.evaluate(), Ok(14));
}

#[test]
fn integer_empty_is_not_enough() {
    let tokens: Vec<&str> = Vec::new();
    let res = IntExpr::<i32>::from_iter(tokens);
    match res {
        Err(ExprResult::OperandErr(OperandErr::NotEnoughOperands)) => (),
        _ => panic!("{:?}", res),
    }
}

#[test]
fn integer_min_value_division_overflows() {
    let expr_str = "-128 -1 /";
    let tokens: Vec<&str> = expr_str.split_whitespace().collect();
    let expr = IntExpr::<i8>::from_iter(tokens).unwrap();
    assert_eq!(expr.evaluate(), Err(IntEvaluateErr::InvalidDiv(-128, -1)));
}

#[test]
fn integer_min_value_remainder_is_invalid() {
    let expr_str = "-128 -1 %";
    let tokens: Vec<&str> = expr_str.split_whitespace().collect();
    let expr = IntExpr::<i8>::from_iter(tokens).unwrap();
    assert_eq!(expr.evaluate(), Err(IntEvaluateErr::InvalidRem(-128, -1)));
}

#[test]
fn integer_min_value_negation_overflows() {
    let expr_str = "-128 neg";
    let tokens: Vec<&str> = expr_str.split_whitespace().collect();
    let expr = IntExpr::<i8>::from_iter(tokens).unwrap();
    assert_eq!(expr.evaluate(), Err(IntEvaluateErr::NegOverflow(-128)));
}

#[test]
fn integer_operand_out_of_range_is_no_operand() {
    let expr_str = "300 4 +";
    let tokens: Vec<&str> = expr_str.split_whitespace().collect();
    let res = IntExpr::<i8>::from_iter(tokens);
    match res {
        Err(ExprResult::InvalidToken { .. }) => (),
        _ => panic!("{:?}", res),
    }
}

#[test]
fn integer_full_range_operands() {
    let expr_str = "-9223372036854775808 9223372036854775807 +";
    let tokens: Vec<&str> = expr_str.split_whitespace().collect();
    let expr = IntExpr::<i64>::from_iter(tokens).unwrap();
    assert_eq!(expr.evaluate(), Ok(-1));
    assert_eq!(expr.to_string(), expr_str);
}

#[test]
fn integer_plus_sign_parses_but_renders_canonically() {
    let expr_str = "+3 4 +";
    let tokens: Vec<&str> = expr_str.split_whitespace().collect();
    let expr = IntExpr::<i32>::from_iter(tokens).unwrap();
    assert_eq!(expr.evaluate(), Ok(7));
    assert_eq!(expr.to_string(), "3 4 +");
}

#[test]
fn integer_empty_token_is_no_operand() {
    let tokens: Vec<&str> = vec![""];
    let res = IntExpr::<i32>::from_iter(tokens);
    match res {
        Err(ExprResult::InvalidToken { .. }) => (),
        _ => panic!("{:?}", res),
    }
}

#[test]
fn integer_malformed_number_is_no_operand() {
    let tokens: Vec<&str> = vec!["3", "-3-", "+"];
    let res = IntExpr::<i32>::from_iter(tokens);
    match res {
        Err(ExprResult::InvalidToken { .. }) => (),
        _ => panic!("{:?}", res),
    }
}

#[test]
fn integer_wide_power_overflows() {
    let expr_str = "2 64 pow";
    let tokens: Vec<&str> = expr_str.split_whitespace().collect();
    let expr = IntExpr::<i64>::from_iter(tokens).unwrap();
    assert_eq!(expr.evaluate(), Err(IntEvaluateErr::PowOverflow(2, 64)));
}

#[test]
fn integer_power_of_negative_base() {
    let expr_str = "-2 63 pow";
    let tokens: Vec<&str> = expr_str.split_whitespace().collect();
    let expr = IntExpr::<i64>::from_iter(tokens).unwrap();
    assert_eq!(expr.evaluate(), Ok(i64::MIN));
}

#[test]
fn integer_power_zero_exponent() {
    let expr_str = "9 0 pow";
    let tokens: Vec<&str> = expr_str.split_whitespace().collect();
    let expr = IntExpr::<i32>::from_iter(tokens).unwrap();
    assert_eq!(expr.evaluate(), Ok(1));
}

#[test]
fn integer_leading_zeros_parse_and_render_canonically() {
    let expr_str = "007 08 +";
    let tokens: Vec<&str> = expr_str.split_whitespace().collect();
    let expr = IntExpr::<i32>::from_iter(tokens).unwrap();
    assert_eq!(expr.evaluate(), Ok(15));
    assert_eq!(expr.to_string(), "7 8 +");
}
