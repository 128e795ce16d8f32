use std::collections::{HashMap, VecDeque};

use ripin::evaluate::VariableIntExpr;
use ripin::expression::{EvalErr, ExprResult};
use ripin::variable::{IndexVar, VarIdxErr};

#[test]
fn simple_variable_expression() {
    let expr_str = "3 4 + $0 -";
    let variables = vec![3, 500];
    let tokens: Vec<&str> = expr_str.split_whitespace().collect();
    let expr = VariableIntExpr::<i32, IndexVar>::from_iter(tokens).unwrap();
    assert_eq!(expr.evaluate_with_variables::<usize, _>(&variables), Ok(4));
}

#[test]
fn variable_not_found() {
    let expr_str = "$5";
    let variables: Vec<i32> = vec![7];
    let tokens: Vec<&str> = expr_str.split_whitespace().collect();
    let expr = VariableIntExpr::<i32, IndexVar>::from_iter(tokens).unwrap();
    assert_eq!(
        expr.evaluate_with_variables::<usize, _>(&variables),
        Err(EvalErr::VariableNotFound(5)),
    );
}

#[test]
fn variable_bad_index_is_no_variable() {
    let expr_str = "$x 4 +";
    let tokens: Vec<&str> = expr_str.split_whitespace().collect();
    let res = VariableIntExpr::<i32, IndexVar>::from_iter(tokens);
    match res {
        Err(ExprResult::InvalidToken { variable: VarIdxErr::ConvertErr(_), .. }) => (),
        _ => panic!("{:?}", res),
    }
}

#[test]
fn variable_to_string() {
    let expr_str = "3 4 + $0 -";
    let tokens: Vec<&str> = expr_str.split_whitespace().collect();
    let expr = VariableIntExpr::<i32, IndexVar>::from_iter(tokens).unwrap();
    assert_eq!(expr.to_string(), expr_str);
}

#[test]
fn variable_index_value() {
    let var = IndexVar(12);
    assert_eq!(usize::from(var), 12);
}

#[test]
fn variable_bad_name_is_no_variable() {
    let expr_str = "x 4 +";
    let tokens: Vec<&str> = expr_str.split_whitespace().collect();
    let res = VariableIntExpr::<i32, IndexVar>::from_iter(tokens);
    match res {
        Err(ExprResult::InvalidToken { variable: VarIdxErr::InvalidVariableName("x"), .. }) => (),
        _ => panic!("{:?}", res),
    }
}

#[test]
fn variable_sigil_alone_is_no_variable() {
    let expr_str = "$ 4 +";
    let tokens: Vec<&str> = expr_str.split_whitespace().collect();
    let res = VariableIntExpr::<i32, IndexVar>::from_iter(tokens);
    match res {
        Err(ExprResult::InvalidToken { variable: VarIdxErr::ConvertErr(_), .. }) => (),
        _ => panic!("{:?}", res),
    }
}

#[test]
fn variable_from_deque() {
    let expr_str = "$1 $0 -";
    let mut variables: VecDeque<i32> = VecDeque::new();
    variables.push_back(3);
    variables.push_back(10);
    let tokens: Vec<&str> = expr_str.split_whitespace().collect();
    let expr = VariableIntExpr::<i32, IndexVar>::from_iter(tokens).unwrap();
    assert_eq!(expr.evaluate_with_variables::<usize, _>(&variables), Ok(7));
}

#[test]
fn variable_from_hash_map() {
    let expr_str = "$7 $7 *";
    let mut variables: HashMap<u64, i32> = HashMap::new();
    variables.insert(7, 6);
    let tokens: Vec<&str> = expr_str.split_whitespace().collect();
    let expr = VariableIntExpr::<i32, IndexVar>::from_iter(tokens).unwrap();
    assert_eq!(expr.evaluate_with_variables::<u64, _>(&variables), Ok(36));
}
