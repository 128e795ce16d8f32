//! Evaluation of Reverse Polish Notation expressions over pluggable operand,
//! variable and evaluator types.
//!
//! Raw tokens are classified into operands, variables and evaluators, the
//! resulting sequence is checked for arity balance, and a validated
//! [`expression::Expression`] can then be evaluated against a stack, resolving
//! variables through an external container.

mod stack;
pub mod text;
pub mod convert_ref;
pub mod evaluate;
pub mod variable;
pub mod expression;

pub use stack::Stack;

use vstd::prelude::*;

verus! {

/// Removes the last two elements from a stack and returns them,
/// or `None` if there are not enough elements.
///
/// The first component is the operand pushed earlier (deeper in the stack),
/// the second the operand pushed later (nearer the top).
pub fn pop_two_operands<T>(stack: &mut Stack<T>) -> (r: Option<(T, T)>)
    ensures
        old(stack)@.len() >= 2 ==> ({
            &&& r == Some((old(stack)@[old(stack)@.len() - 2], old(stack)@[old(stack)@.len() - 1]))
            &&& final(stack)@ == old(stack)@.take(old(stack)@.len() - 2)
        }),
        old(stack)@.len() < 2 ==> r is None && final(stack)@ == old(stack)@,
{
    if stack.len() >= 2 {
        let a = stack.pop().unwrap();
        let b = stack.pop().unwrap();
        assert(stack@ =~= old(stack)@.take(old(stack)@.len() - 2));
        Some((b, a))
    } else {
        None
    }
}

} // verus!
