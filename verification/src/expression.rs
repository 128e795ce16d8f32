//! Classified tokens, validated expressions, and their evaluation.
//!
//! A raw token sequence is classified into [`Arithm`] tokens, proved
//! arity-balanced, and packaged as an immutable [`Expression`] together with
//! the maximum stack depth its evaluation can reach.

use vstd::prelude::*;
use crate::stack::Stack;
use crate::evaluate::Evaluate;
use crate::variable::{GetVariable, ToIndex, DummyVariable, DummyVariables, spec_dummy_variables};
use crate::convert_ref::TryFromRef;
use crate::text::Render;
use vstd::string::StringExecFns;

verus! {

/// A classified token: an operand, a variable, or an evaluator.
#[derive(Debug, Copy, Clone)]
pub enum Arithm<T, V, E: Evaluate<T>> {
    /// A literal value, pushed directly onto the stack.
    Operand(T),
    /// A variable, resolved through an external container and then pushed.
    Variable(V),
    /// An operator, popping and pushing its declared numbers of operands.
    Evaluator(E),
}

/// Used to specify the error during construction of an expression.
#[derive(Debug, PartialEq)]
pub enum ExprResult<A, B, C> {
    /// The classified sequence is not arity-balanced.
    OperandErr(OperandErr),
    /// A token matches none of the three conversions; all three failure
    /// reasons are kept for diagnosis.
    InvalidToken {
        /// Why the token is no evaluator.
        evaluator: A,
        /// Why the token is no variable.
        variable: B,
        /// Why the token is no operand.
        operand: C,
    },
}

/// Used to specify an error related to a wrong number of operands in an
/// expression.
#[derive(Debug, PartialEq)]
pub enum OperandErr {
    /// Some evaluator is left with too few operands, or no residual value
    /// remains.
    NotEnoughOperands,
    /// More than one residual value remains.
    TooManyOperands,
}

/// Used to specify the error during evaluation of an expression.
#[derive(Debug, PartialEq)]
pub enum EvalErr<I, E> {
    /// No variable is stored in the container under the given index.
    VariableNotFound(I),
    /// An evaluator returned a domain error.
    Evaluator(E),
}

/// The number of operands a token pops.
pub open spec fn tok_needed<T, V, E: Evaluate<T>>(a: Arithm<T, V, E>) -> nat {
    match a {
        Arithm::Operand(_) => 0,
        Arithm::Variable(_) => 0,
        Arithm::Evaluator(e) => e.spec_needed(),
    }
}

/// The number of operands a token pushes.
pub open spec fn tok_generated<T, V, E: Evaluate<T>>(a: Arithm<T, V, E>) -> nat {
    match a {
        Arithm::Operand(_) => 1,
        Arithm::Variable(_) => 1,
        Arithm::Evaluator(e) => e.spec_generated(),
    }
}

/// The running operand balance after the whole token sequence, simulated
/// from an initial balance of 0, or `None` if some evaluator finds fewer
/// operands than it needs.
pub open spec fn balance<T, V, E: Evaluate<T>>(toks: Seq<Arithm<T, V, E>>) -> Option<nat>
    decreases toks.len(),
{
    if toks.len() == 0 {
        Some(0nat)
    } else {
        match balance(toks.drop_last()) {
            None => None,
            Some(b) => {
                let t = toks.last();
                if b >= tok_needed(t) {
                    Some((b - tok_needed(t) + tok_generated(t)) as nat)
                } else {
                    None
                }
            },
        }
    }
}

/// The maximum value the running operand balance reaches over all prefixes
/// of the token sequence.
pub open spec fn max_balance<T, V, E: Evaluate<T>>(toks: Seq<Arithm<T, V, E>>) -> nat
    decreases toks.len(),
{
    if toks.len() == 0 {
        0
    } else {
        let rest = max_balance(toks.drop_last());
        let here = match balance(toks) {
            Some(b) => b,
            None => 0nat,
        };
        if here > rest {
            here
        } else {
            rest
        }
    }
}

/// Whether every intermediate balance of the token sequence stays within
/// `bound`, so that a machine word can hold the running counter.
pub open spec fn balance_fits<T, V, E: Evaluate<T>>(
    toks: Seq<Arithm<T, V, E>>,
    bound: int,
) -> bool {
    forall|i: int|
        0 <= i <= toks.len() ==> match #[trigger] balance(toks.take(i)) {
            Some(b) => b <= bound,
            None => true,
        }
}

/// What classifying one raw token yields: the evaluator conversion is tried
/// first, then the variable conversion, then the operand conversion; if all
/// three fail, their three errors are reported together.
pub open spec fn classify_one<A, T, V, E>(a: A) -> Result<
    Arithm<T, V, E>,
    ExprResult<
        <E as TryFromRef<A>>::Err,
        <V as TryFromRef<A>>::Err,
        <T as TryFromRef<A>>::Err,
    >,
> where T: TryFromRef<A>, V: TryFromRef<A>, E: TryFromRef<A> + Evaluate<T> {
    match E::spec_try_from_ref(a) {
        Ok(e) => Ok(Arithm::Evaluator(e)),
        Err(eval_err) => match V::spec_try_from_ref(a) {
            Ok(v) => Ok(Arithm::Variable(v)),
            Err(var_err) => match T::spec_try_from_ref(a) {
                Ok(t) => Ok(Arithm::Operand(t)),
                Err(op_err) => Err(
                    ExprResult::InvalidToken {
                        evaluator: eval_err,
                        variable: var_err,
                        operand: op_err,
                    },
                ),
            },
        },
    }
}

/// What classifying a raw token sequence yields: the classified sequence, or
/// the error of the leftmost token that classifies to none of the three
/// roles.
pub open spec fn classify_all<A, T, V, E>(tokens: Seq<A>) -> Result<
    Seq<Arithm<T, V, E>>,
    ExprResult<
        <E as TryFromRef<A>>::Err,
        <V as TryFromRef<A>>::Err,
        <T as TryFromRef<A>>::Err,
    >,
> where T: TryFromRef<A>, V: TryFromRef<A>, E: TryFromRef<A> + Evaluate<T>
    decreases tokens.len(),
{
    if tokens.len() == 0 {
        Ok(Seq::empty())
    } else {
        match classify_all::<A, T, V, E>(tokens.drop_last()) {
            Err(e) => Err(e),
            Ok(toks) => match classify_one::<A, T, V, E>(tokens.last()) {
                Ok(t) => Ok(toks.push(t)),
                Err(e) => Err(e),
            },
        }
    }
}

/// Once a prefix of the sequence underflows, the whole sequence underflows.
proof fn lemma_balance_none_extends<T, V, E: Evaluate<T>>(toks: Seq<Arithm<T, V, E>>, i: int)
    requires
        0 <= i <= toks.len(),
        balance(toks.take(i)) is None,
    ensures
        balance(toks) is None,
    decreases toks.len() - i,
{
    if i < toks.len() {
        assert(toks.take(i + 1).drop_last() =~= toks.take(i));
        lemma_balance_none_extends(toks, i + 1);
    } else {
        assert(toks.take(i) =~= toks);
    }
}

/// If the whole sequence simulates without underflow, so does every prefix.
pub proof fn lemma_balance_prefix_some<T, V, E: Evaluate<T>>(toks: Seq<Arithm<T, V, E>>, i: int)
    requires
        0 <= i <= toks.len(),
        balance(toks) is Some,
    ensures
        balance(toks.take(i)) is Some,
{
    if balance(toks.take(i)) is None {
        lemma_balance_none_extends(toks, i);
    }
}

/// Interpret a Reverse-Polish-notated expression (cf. `3 4 +`).
///
/// An `Expression` is immutable and arity-validated by construction: its
/// token sequence, simulated from an initial balance of 0, never underflows
/// and terminates at balance exactly 1, and `max_stack` is the largest
/// intermediate balance, so a stack of that capacity suffices for
/// evaluation.
///
/// `Expression`s are constructed from raw token sequences by [`Expression::from_iter`];
/// a failed validation never produces an `Expression` value, only an error.
#[derive(Debug)]
pub struct Expression<T, V, E: Evaluate<T>> {
    max_stack: usize,
    expr: Vec<Arithm<T, V, E>>,
}

impl<T, V, E: Evaluate<T>> View for Expression<T, V, E> {
    type V = Seq<Arithm<T, V, E>>;

    closed spec fn view(&self) -> Seq<Arithm<T, V, E>> {
        self.expr@
    }
}

impl<T, V, E: Evaluate<T>> Expression<T, V, E> {
    /// The validity invariant every constructed expression carries: the
    /// balance simulation succeeds and ends at exactly 1, every intermediate
    /// balance fits in a machine word, and `max_stack` is the largest
    /// intermediate balance.
    pub open spec fn wf(&self) -> bool {
        &&& balance(self@) == Some(1nat)
        &&& balance_fits(self@, usize::MAX as int)
        &&& self.spec_max_stack() == max_balance(self@)
    }

    /// The precomputed maximum stack depth.
    pub closed spec fn spec_max_stack(&self) -> nat {
        self.max_stack as nat
    }

    /// Whether the expression holds no variable token.
    pub open spec fn has_no_variables(&self) -> bool {
        forall|i: int| 0 <= i < self@.len() ==> !(#[trigger] self@[i] is Variable)
    }

    /// Returns the maximum stack depth evaluation of this expression can
    /// reach, which is also the capacity of the stack it allocates.
    pub fn max_stack(&self) -> (n: usize)
        ensures
            n == self.spec_max_stack(),
    {
        self.max_stack
    }
}

impl<T, V, E: Evaluate<T>> Expression<T, V, E> {
    /// Checks that operand and variable pushes and evaluator pop/push pairs
    /// resolve to exactly one residual value: a single forward pass over the
    /// classified sequence maintaining the running operand balance.
    fn check_validity(expr: &Vec<Arithm<T, V, E>>) -> (r: Result<(), OperandErr>)
        requires
            balance_fits(expr@, usize::MAX as int),
        ensures
            match balance(expr@) {
                Some(b) => if b == 1 {
                    r == Ok::<(), OperandErr>(())
                } else if b == 0 {
                    r == Err::<(), OperandErr>(OperandErr::NotEnoughOperands)
                } else {
                    r == Err::<(), OperandErr>(OperandErr::TooManyOperands)
                },
                None => r == Err::<(), OperandErr>(OperandErr::NotEnoughOperands),
            },
    {
        let n = expr.len();
        let mut num_operands: usize = 0;
        let mut i: usize = 0;
        while i < n
            invariant
                n == expr@.len(),
                0 <= i <= n,
                balance_fits(expr@, usize::MAX as int),
                balance(expr@.take(i as int)) == Some(num_operands as nat),
            decreases n - i,
        {
            proof {
                assert(expr@.take(i + 1).drop_last() =~= expr@.take(i as int));
                assert(expr@.take(i + 1).last() == expr@[i as int]);
            }
            let ghost bal_next = balance(expr@.take(i + 1));
            match &expr[i] {
                Arithm::Operand(_) => {
                    num_operands = num_operands + 1;
                },
                Arithm::Variable(_) => {
                    num_operands = num_operands + 1;
                },
                Arithm::Evaluator(evaluator) => {
                    let needed = evaluator.operands_needed();
                    match num_operands.checked_sub(needed) {
                        Some(rest) => {
                            num_operands = rest + evaluator.operands_generated();
                        },
                        None => {
                            proof {
                                lemma_balance_none_extends(expr@, i + 1);
                            }
                            return Err(OperandErr::NotEnoughOperands);
                        },
                    }
                },
            }
            i += 1;
        }
        proof {
            assert(expr@.take(n as int) =~= expr@);
        }
        if num_operands == 1 {
            Ok(())
        } else if num_operands == 0 {
            Err(OperandErr::NotEnoughOperands)
        } else {
            Err(OperandErr::TooManyOperands)
        }
    }

    /// Computes the maximum simultaneous stack depth of the classified
    /// sequence: the same balance simulation, tracking the largest value the
    /// running balance reaches.
    fn compute_stack_max(expr: &Vec<Arithm<T, V, E>>) -> (m: usize)
        requires
            balance(expr@) is Some,
            balance_fits(expr@, usize::MAX as int),
        ensures
            m == max_balance(expr@),
    {
        let n = expr.len();
        let mut num_operands: usize = 0;
        let mut max: usize = 0;
        let mut i: usize = 0;
        while i < n
            invariant
                n == expr@.len(),
                0 <= i <= n,
                balance(expr@) is Some,
                balance_fits(expr@, usize::MAX as int),
                balance(expr@.take(i as int)) == Some(num_operands as nat),
                max == max_balance(expr@.take(i as int)),
            decreases n - i,
        {
            proof {
                assert(expr@.take(i + 1).drop_last() =~= expr@.take(i as int));
                assert(expr@.take(i + 1).last() == expr@[i as int]);
                lemma_balance_prefix_some(expr@, i + 1);
            }
            let ghost bal_next = balance(expr@.take(i + 1));
            match &expr[i] {
                Arithm::Operand(_) => {
                    num_operands = num_operands + 1;
                },
                Arithm::Variable(_) => {
                    num_operands = num_operands + 1;
                },
                Arithm::Evaluator(evaluator) => {
                    let needed = evaluator.operands_needed();
                    num_operands = num_operands - needed + evaluator.operands_generated();
                },
            }
            if num_operands > max {
                max = num_operands;
            }
            i += 1;
        }
        proof {
            assert(expr@.take(n as int) =~= expr@);
        }
        max
    }

    /// Classifies a raw token sequence and validates its arity balance,
    /// producing an immutable expression, or the error of the leftmost
    /// unclassifiable token, or the arity error of the classified sequence.
    ///
    /// The running balance is held in a machine word, so callers must show
    /// that no intermediate balance can exceed `usize::MAX`;
    /// [`lemma_balance_fits_small_steps`] discharges this for evaluator sets
    /// that push at most one operand more than they pop, such as
    /// [`crate::evaluate::IntEvaluator`].
    pub fn from_iter<A>(tokens: Vec<A>) -> (r: Result<
        Expression<T, V, E>,
        ExprResult<
            <E as TryFromRef<A>>::Err,
            <V as TryFromRef<A>>::Err,
            <T as TryFromRef<A>>::Err,
        >,
    >) where T: TryFromRef<A>, V: TryFromRef<A>, E: TryFromRef<A>
        requires
            match classify_all::<A, T, V, E>(tokens@) {
                Ok(toks) => balance_fits(toks, usize::MAX as int),
                Err(_) => true,
            },
        ensures
            match classify_all::<A, T, V, E>(tokens@) {
                Err(ce) => r matches Err(e) && e == ce,
                Ok(toks) => match balance(toks) {
                    Some(b) => if b == 1 {
                        r matches Ok(expr) && expr@ == toks && expr.wf()
                    } else if b == 0 {
                        r matches Err(e) && e == ExprResult::<
                            <E as TryFromRef<A>>::Err,
                            <V as TryFromRef<A>>::Err,
                            <T as TryFromRef<A>>::Err,
                        >::OperandErr(OperandErr::NotEnoughOperands)
                    } else {
                        r matches Err(e) && e == ExprResult::<
                            <E as TryFromRef<A>>::Err,
                            <V as TryFromRef<A>>::Err,
                            <T as TryFromRef<A>>::Err,
                        >::OperandErr(OperandErr::TooManyOperands)
                    },
                    None => r matches Err(e) && e == ExprResult::<
                        <E as TryFromRef<A>>::Err,
                        <V as TryFromRef<A>>::Err,
                        <T as TryFromRef<A>>::Err,
                    >::OperandErr(OperandErr::NotEnoughOperands),
                },
            },
    {
        let n = tokens.len();
        let mut final_expr: Vec<Arithm<T, V, E>> = Vec::new();
        let mut i: usize = 0;
        while i < n
            invariant
                n == tokens@.len(),
                0 <= i <= n,
                classify_all::<A, T, V, E>(tokens@.take(i as int)) == Ok::<
                    Seq<Arithm<T, V, E>>,
                    ExprResult<
                        <E as TryFromRef<A>>::Err,
                        <V as TryFromRef<A>>::Err,
                        <T as TryFromRef<A>>::Err,
                    >,
                >(final_expr@),
                match classify_all::<A, T, V, E>(tokens@) {
                    Ok(toks) => balance_fits(toks, usize::MAX as int),
                    Err(_) => true,
                },
            decreases n - i,
        {
            proof {
                assert(tokens@.take(i + 1).drop_last() =~= tokens@.take(i as int));
                assert(tokens@.take(i + 1).last() == tokens@[i as int]);
            }
            let token = &tokens[i];
            match E::try_from_ref(token) {
                Ok(eval) => {
                    final_expr.push(Arithm::Evaluator(eval));
                },
                Err(eval_err) => match V::try_from_ref(token) {
                    Ok(var) => {
                        final_expr.push(Arithm::Variable(var));
                    },
                    Err(var_err) => match T::try_from_ref(token) {
                        Ok(op) => {
                            final_expr.push(Arithm::Operand(op));
                        },
                        Err(op_err) => {
                            proof {
                                lemma_classify_err_extends::<A, T, V, E>(tokens@, i as int);
                            }
                            return Err(ExprResult::InvalidToken {
                                evaluator: eval_err,
                                variable: var_err,
                                operand: op_err,
                            });
                        },
                    },
                },
            }
            i += 1;
        }
        proof {
            assert(tokens@.take(n as int) =~= tokens@);
        }
        match Self::check_validity(&final_expr) {
            Ok(_) => {
                let max_stack = Self::compute_stack_max(&final_expr);
                Ok(Expression { max_stack, expr: final_expr })
            },
            Err(err) => Err(ExprResult::OperandErr(err)),
        }
    }
}

/// Once classification fails on a token, it fails for every extension of the
/// sequence, with the error of the leftmost failing token.
proof fn lemma_classify_err_extends<A, T, V, E>(tokens: Seq<A>, i: int) where
    T: TryFromRef<A>,
    V: TryFromRef<A>,
    E: TryFromRef<A> + Evaluate<T>,

    requires
        0 <= i < tokens.len(),
        classify_all::<A, T, V, E>(tokens.take(i)) is Ok,
        classify_one::<A, T, V, E>(tokens[i]) is Err,
    ensures
        classify_all::<A, T, V, E>(tokens) == Err::<
            Seq<Arithm<T, V, E>>,
            ExprResult<
                <E as TryFromRef<A>>::Err,
                <V as TryFromRef<A>>::Err,
                <T as TryFromRef<A>>::Err,
            >,
        >(classify_one::<A, T, V, E>(tokens[i]).get_Err_0()),
    decreases tokens.len() - i,
{
    assert(tokens.take(i + 1).drop_last() =~= tokens.take(i));
    assert(tokens.take(i + 1).last() == tokens[i]);
    if i + 1 == tokens.len() {
        assert(tokens.take(i + 1) =~= tokens);
    } else {
        lemma_classify_err_all::<A, T, V, E>(tokens, i + 1);
    }
}

/// Once classification of a prefix fails, classification of the whole
/// sequence fails with the same error.
proof fn lemma_classify_err_all<A, T, V, E>(tokens: Seq<A>, i: int) where
    T: TryFromRef<A>,
    V: TryFromRef<A>,
    E: TryFromRef<A> + Evaluate<T>,

    requires
        0 <= i <= tokens.len(),
        classify_all::<A, T, V, E>(tokens.take(i)) is Err,
    ensures
        classify_all::<A, T, V, E>(tokens) == classify_all::<A, T, V, E>(tokens.take(i)),
    decreases tokens.len() - i,
{
    if i < tokens.len() {
        assert(tokens.take(i + 1).drop_last() =~= tokens.take(i));
        lemma_classify_err_all::<A, T, V, E>(tokens, i + 1);
    } else {
        assert(tokens.take(i) =~= tokens);
    }
}

/// What replaying a classified token sequence against a variable container
/// yields: the final stack contents, or the first error raised. An operand
/// or resolved variable is pushed; an evaluator consumes its operands from
/// the top of the stack and pushes what [`Evaluate::spec_eval`] yields.
///
/// An evaluator meeting fewer operands than it needs cannot occur for a
/// validated sequence (see [`lemma_validated_no_underflow`]); in that case
/// the replay is an unspecified evaluator error.
pub open spec fn run_tokens<T, V, E, I, C>(toks: Seq<Arithm<T, V, E>>, vars: C) -> Result<
    Seq<T>,
    EvalErr<I, E::Err>,
> where E: Evaluate<T>, V: ToIndex<I>, C: GetVariable<I, Output = T>
    decreases toks.len(),
{
    if toks.len() == 0 {
        Ok(Seq::empty())
    } else {
        match run_tokens::<T, V, E, I, C>(toks.drop_last(), vars) {
            Err(e) => Err(e),
            Ok(st) => match toks.last() {
                Arithm::Operand(t) => Ok(st.push(t)),
                Arithm::Variable(v) => match vars.spec_get(v.spec_index()) {
                    Some(t) => Ok(st.push(t)),
                    None => Err(EvalErr::VariableNotFound(v.spec_index())),
                },
                Arithm::Evaluator(e) => if st.len() >= e.spec_needed() {
                    match e.spec_eval(st.skip((st.len() - e.spec_needed()) as int)) {
                        Ok(out) => Ok(st.take((st.len() - e.spec_needed()) as int) + out),
                        Err(err) => Err(EvalErr::Evaluator(err)),
                    }
                } else {
                    Err(EvalErr::Evaluator(arbitrary()))
                },
            },
        }
    }
}

/// On a sequence that simulates without underflow, a successful replay
/// leaves exactly as many values on the stack as the simulated balance.
pub proof fn lemma_run_tokens_len<T, V, E, I, C>(toks: Seq<Arithm<T, V, E>>, vars: C) where
    E: Evaluate<T>,
    V: ToIndex<I>,
    C: GetVariable<I, Output = T>,

    requires
        balance(toks) is Some,
        run_tokens::<T, V, E, I, C>(toks, vars) is Ok,
    ensures
        run_tokens::<T, V, E, I, C>(toks, vars).get_Ok_0().len() == balance(toks).get_Some_0(),
    decreases toks.len(),
{
    if toks.len() > 0 {
        lemma_run_tokens_len::<T, V, E, I, C>(toks.drop_last(), vars);
        let st = run_tokens::<T, V, E, I, C>(toks.drop_last(), vars).get_Ok_0();
        match toks.last() {
            Arithm::Operand(_) => {},
            Arithm::Variable(_) => {},
            Arithm::Evaluator(e) => {
                e.lemma_spec_eval_arity(st.skip((st.len() - e.spec_needed()) as int));
            },
        }
    }
}

/// Once the replay of a prefix raises an error, the replay of the whole
/// sequence raises that same error.
proof fn lemma_run_err_extends<T, V, E, I, C>(toks: Seq<Arithm<T, V, E>>, vars: C, i: int) where
    E: Evaluate<T>,
    V: ToIndex<I>,
    C: GetVariable<I, Output = T>,

    requires
        0 <= i <= toks.len(),
        run_tokens::<T, V, E, I, C>(toks.take(i), vars) is Err,
    ensures
        run_tokens::<T, V, E, I, C>(toks, vars) == run_tokens::<T, V, E, I, C>(toks.take(i), vars),
    decreases toks.len() - i,
{
    if i < toks.len() {
        assert(toks.take(i + 1).drop_last() =~= toks.take(i));
        lemma_run_err_extends::<T, V, E, I, C>(toks, vars, i + 1);
    } else {
        assert(toks.take(i) =~= toks);
    }
}

/// Replaying a sequence without variable tokens never reports a missing
/// variable.
pub proof fn lemma_no_variables_run<T, V, E, I, C>(toks: Seq<Arithm<T, V, E>>, vars: C) where
    E: Evaluate<T>,
    V: ToIndex<I>,
    C: GetVariable<I, Output = T>,

    requires
        forall|i: int| 0 <= i < toks.len() ==> !(#[trigger] toks[i] is Variable),
    ensures
        !(run_tokens::<T, V, E, I, C>(toks, vars) matches Err(EvalErr::VariableNotFound(_))),
    decreases toks.len(),
{
    if toks.len() > 0 {
        assert(forall|i: int|
            0 <= i < toks.len() - 1 ==> !(#[trigger] toks.drop_last()[i] is Variable));
        lemma_no_variables_run::<T, V, E, I, C>(toks.drop_last(), vars);
        assert(!(toks[toks.len() - 1] is Variable));
    }
}

/// Classification with the fake variable type never yields a variable token:
/// no raw token converts into a [`DummyVariable`].
pub proof fn lemma_dummy_classify_no_variables<A, T, E>(
    tokens: Seq<A>,
    toks: Seq<Arithm<T, DummyVariable, E>>,
) where T: TryFromRef<A>, E: TryFromRef<A> + Evaluate<T>
    requires
        classify_all::<A, T, DummyVariable, E>(tokens) == Ok::<
            Seq<Arithm<T, DummyVariable, E>>,
            ExprResult<
                <E as TryFromRef<A>>::Err,
                <DummyVariable as TryFromRef<A>>::Err,
                <T as TryFromRef<A>>::Err,
            >,
        >(toks),
    ensures
        forall|i: int| 0 <= i < toks.len() ==> !(#[trigger] toks[i] is Variable),
    decreases tokens.len(),
{
    if tokens.len() > 0 {
        let rest = classify_all::<A, T, DummyVariable, E>(tokens.drop_last()).get_Ok_0();
        lemma_dummy_classify_no_variables::<A, T, E>(tokens.drop_last(), rest);
    }
}

/// A successfully validated expression never triggers a stack underflow
/// during evaluation: whenever the replay reaches an evaluator token, the
/// stack holds at least as many operands as that evaluator needs.
pub proof fn lemma_validated_no_underflow<T, V, E, I, C>(
    toks: Seq<Arithm<T, V, E>>,
    vars: C,
    i: int,
) where E: Evaluate<T>, V: ToIndex<I>, C: GetVariable<I, Output = T>
    requires
        balance(toks) == Some(1nat),
        0 <= i < toks.len(),
        toks[i] is Evaluator,
        run_tokens::<T, V, E, I, C>(toks.take(i), vars) is Ok,
    ensures
        run_tokens::<T, V, E, I, C>(toks.take(i), vars).get_Ok_0().len() >= tok_needed(toks[i]),
{
    lemma_balance_prefix_some(toks, i);
    lemma_balance_prefix_some(toks, i + 1);
    lemma_run_tokens_len::<T, V, E, I, C>(toks.take(i), vars);
    assert(toks.take(i + 1).drop_last() =~= toks.take(i));
    assert(toks.take(i + 1).last() == toks[i]);
}

impl<T: Copy, V: Copy, E: Evaluate<T> + Copy> Expression<T, V, E> {
    /// Evaluates an expression containing variables, resolving them through
    /// the given container. Returns the single residual value, the first
    /// evaluator error, or the index of the first variable the container
    /// does not hold.
    pub fn evaluate_with_variables<I, C>(&self, variables: &C) -> (r: Result<T, EvalErr<I, E::Err>>)
        where V: ToIndex<I>, C: GetVariable<I, Output = T>
        requires
            self.wf(),
        ensures
            match run_tokens::<T, V, E, I, C>(self@, *variables) {
                Ok(st) => r matches Ok(v) && v == st.last(),
                Err(e) => r matches Err(e2) && e2 == e,
            },
    {
        let n = self.expr.len();
        let mut stack: Stack<T> = Stack::with_capacity(self.max_stack);
        let mut i: usize = 0;
        while i < n
            invariant
                self.wf(),
                n == self@.len(),
                0 <= i <= n,
                run_tokens::<T, V, E, I, C>(self@.take(i as int), *variables) matches Ok(st)
                    && st == stack@,
            decreases n - i,
        {
            proof {
                assert(self@.take(i + 1).drop_last() =~= self@.take(i as int));
                assert(self@.take(i + 1).last() == self@[i as int]);
                lemma_balance_prefix_some(self@, i as int);
                lemma_balance_prefix_some(self@, i + 1);
                lemma_run_tokens_len::<T, V, E, I, C>(self@.take(i as int), *variables);
            }
            let arithm = self.expr[i];
            match arithm {
                Arithm::Operand(operand) => {
                    stack.push(operand);
                },
                Arithm::Variable(var) => {
                    match variables.get_variable(var.to_index()) {
                        Some(value) => {
                            let resolved = *value;
                            stack.push(resolved);
                        },
                        None => {
                            proof {
                                lemma_run_err_extends::<T, V, E, I, C>(
                                    self@,
                                    *variables,
                                    i + 1,
                                );
                            }
                            return Err(EvalErr::VariableNotFound(var.to_index()));
                        },
                    }
                },
                Arithm::Evaluator(evaluator) => {
                    let ghost pre = stack@;
                    proof {
                        assert(pre.len() >= evaluator.spec_needed());
                    }
                    match evaluator.evaluate(&mut stack) {
                        Ok(_) => {
                            proof {
                                assert(run_tokens::<T, V, E, I, C>(
                                    self@.take(i + 1),
                                    *variables,
                                ) matches Ok(st) && st == stack@);
                            }
                        },
                        Err(err) => {
                            proof {
                                lemma_run_err_extends::<T, V, E, I, C>(
                                    self@,
                                    *variables,
                                    i + 1,
                                );
                            }
                            return Err(EvalErr::Evaluator(err));
                        },
                    }
                },
            }
            i += 1;
        }
        proof {
            assert(self@.take(n as int) =~= self@);
            lemma_run_tokens_len::<T, V, E, I, C>(self@, *variables);
        }
        Ok(stack.pop().unwrap())
    }

    /// Evaluates an expression without variables. Returns the single
    /// residual value or the first evaluator error.
    pub fn evaluate(&self) -> (r: Result<T, E::Err>) where V: ToIndex<()>
        requires
            self.wf(),
            self.has_no_variables(),
        ensures
            match run_tokens::<T, V, E, (), DummyVariables<T>>(self@, spec_dummy_variables()) {
                Ok(st) => r matches Ok(v) && v == st.last(),
                Err(EvalErr::Evaluator(e)) => r matches Err(e2) && e2 == e,
                Err(EvalErr::VariableNotFound(_)) => false,
            },
    {
        proof {
            lemma_no_variables_run::<T, V, E, (), DummyVariables<T>>(
                self@,
                spec_dummy_variables(),
            );
        }
        let variables: DummyVariables<T> = Default::default();
        match self.evaluate_with_variables(&variables) {
            Ok(v) => Ok(v),
            Err(EvalErr::Evaluator(e)) => Err(e),
            Err(EvalErr::VariableNotFound(_)) => unreached(),
        }
    }
}

/// The canonical text of a classified token.
pub open spec fn spec_token_text<T, V, E>(a: Arithm<T, V, E>) -> Seq<char> where
    T: Render,
    V: Render,
    E: Render + Evaluate<T>,
{
    match a {
        Arithm::Operand(t) => t.spec_text(),
        Arithm::Variable(v) => v.spec_text(),
        Arithm::Evaluator(e) => e.spec_text(),
    }
}

/// The token surface form of a classified sequence: each token's canonical
/// text, consecutive tokens separated by a single space.
pub open spec fn spec_render_tokens<T, V, E>(toks: Seq<Arithm<T, V, E>>) -> Seq<char> where
    T: Render,
    V: Render,
    E: Render + Evaluate<T>,
    decreases toks.len(),
{
    if toks.len() == 0 {
        Seq::empty()
    } else if toks.len() == 1 {
        spec_token_text(toks[0])
    } else {
        spec_render_tokens(toks.drop_last()) + seq![' '] + spec_token_text(toks.last())
    }
}

/// A sequence of texts joined by single spaces.
pub open spec fn join_spaced(texts: Seq<Seq<char>>) -> Seq<char>
    decreases texts.len(),
{
    if texts.len() == 0 {
        Seq::empty()
    } else if texts.len() == 1 {
        texts[0]
    } else {
        join_spaced(texts.drop_last()) + seq![' '] + texts.last()
    }
}

/// Round trip: rendering a classified token sequence reproduces the source
/// token texts joined by single spaces, whenever each classified token
/// renders back to the text it was read from.
pub proof fn lemma_render_round_trip<T, V, E>(
    toks: Seq<Arithm<T, V, E>>,
    texts: Seq<Seq<char>>,
) where T: Render, V: Render, E: Render + Evaluate<T>
    requires
        toks.len() == texts.len(),
        forall|i: int| 0 <= i < toks.len() ==> spec_token_text(#[trigger] toks[i]) == texts[i],
    ensures
        spec_render_tokens(toks) == join_spaced(texts),
    decreases toks.len(),
{
    if toks.len() > 1 {
        assert(forall|i: int|
            0 <= i < toks.len() - 1 ==> spec_token_text(#[trigger] toks.drop_last()[i])
                == texts.drop_last()[i]);
        lemma_render_round_trip(toks.drop_last(), texts.drop_last());
    }
}

impl<T, V, E> Expression<T, V, E> where T: Render, V: Render, E: Render + Evaluate<T> {
    /// Serializes a validated expression back to its token surface form:
    /// each token's canonical text in original order, consecutive tokens
    /// separated by a single space.
    pub fn to_string(&self) -> (s: String)
        ensures
            s@ == spec_render_tokens(self@),
    {
        let n = self.expr.len();
        let mut s = String::new();
        let mut i: usize = 0;
        while i < n
            invariant
                n == self@.len(),
                0 <= i <= n,
                s@ == spec_render_tokens(self@.take(i as int)),
            decreases n - i,
        {
            proof {
                assert(self@.take(i + 1).drop_last() =~= self@.take(i as int));
                assert(self@.take(i + 1).last() == self@[i as int]);
            }
            if i != 0 {
                s.append(" ");
            }
            let piece = match &self.expr[i] {
                Arithm::Operand(t) => t.render(),
                Arithm::Variable(v) => v.render(),
                Arithm::Evaluator(e) => e.render(),
            };
            s.append(piece.as_str());
            proof {
                reveal_strlit(" ");
                assert(s@ =~= spec_render_tokens(self@.take(i + 1)));
            }
            i += 1;
        }
        proof {
            assert(self@.take(n as int) =~= self@);
        }
        s
    }
}

/// Classification preserves length: one classified token per raw token.
pub proof fn lemma_classify_all_len<A, T, V, E>(tokens: Seq<A>) where
    T: TryFromRef<A>,
    V: TryFromRef<A>,
    E: TryFromRef<A> + Evaluate<T>,

    requires
        classify_all::<A, T, V, E>(tokens) is Ok,
    ensures
        classify_all::<A, T, V, E>(tokens).get_Ok_0().len() == tokens.len(),
    decreases tokens.len(),
{
    if tokens.len() > 0 {
        lemma_classify_all_len::<A, T, V, E>(tokens.drop_last());
    }
}

/// The running balance after `i` tokens is at most `i`.
proof fn lemma_balance_le<T, V, E: Evaluate<T>>(toks: Seq<Arithm<T, V, E>>, i: int)
    requires
        forall|j: int|
            0 <= j < toks.len() ==> tok_generated(#[trigger] toks[j]) <= tok_needed(toks[j]) + 1,
        0 <= i <= toks.len(),
    ensures
        balance(toks.take(i)) matches Some(b) ==> b <= i,
    decreases i,
{
    if i > 0 {
        lemma_balance_le(toks, i - 1);
        assert(toks.take(i).drop_last() =~= toks.take(i - 1));
        assert(toks.take(i).last() == toks[i - 1]);
    }
}

/// When no token pushes more than one operand beyond what it pops, every
/// intermediate balance is bounded by the sequence length.
pub proof fn lemma_balance_fits_small_steps<T, V, E: Evaluate<T>>(
    toks: Seq<Arithm<T, V, E>>,
    bound: int,
)
    requires
        forall|j: int|
            0 <= j < toks.len() ==> tok_generated(#[trigger] toks[j]) <= tok_needed(toks[j]) + 1,
        toks.len() <= bound,
    ensures
        balance_fits(toks, bound),
{
    assert forall|i: int| 0 <= i <= toks.len() implies match #[trigger] balance(toks.take(i)) {
        Some(b) => b <= bound,
        None => true,
    } by {
        lemma_balance_le(toks, i);
    }
}

} // verus!
