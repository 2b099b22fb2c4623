//! Running an expression: operands are pushed on a stack, operators take
//! their operands from it and push their result, and the single value
//! left at the end is the result.

use crate::compute::{
    compute_and, compute_eq, compute_greater, compute_greater_eq, compute_less, compute_less_eq,
    compute_neq, compute_not, compute_or, spec_and, spec_eq, spec_greater, spec_greater_eq,
    spec_less, spec_less_eq, spec_neq, spec_not, spec_or,
};
use crate::context::{
    compute_binary, compute_unary, resolve, scalar_of, settles, Context, Outcome, Resolution,
};
use crate::expr::{arity, operator_num_operands, Eval, Op};
use crate::json::JsonValue;
use crate::messages::{
    invalid_not_text, leftover_operands, leftover_text, too_few_operands, too_few_text,
    type_mismatch_text,
};
use crate::operand::Operand;
use vstd::prelude::*;

verus! {

/// Why an evaluation did not give a value: an error, or a name whose
/// value in the context has no operand (an array, an object or null).
#[derive(Debug)]
pub enum RunError {
    Message(String),
    NotScalar,
}

/// A value, or else the error with text `err`.
pub open spec fn from_option(o: Option<Operand>, err: Seq<char>) -> Outcome<Operand> {
    match o {
        Some(v) => Outcome::Done(v),
        None => Outcome::Failed(err),
    }
}

/// The result of a binary operator on two resolved values.
pub open spec fn binary_spec(op: Op, left: Operand, right: Operand) -> Option<Operand> {
    match op {
        Op::And => spec_and(left, right),
        Op::Or => spec_or(left, right),
        Op::Equal => spec_eq(left, right),
        Op::NotEqual => spec_neq(left, right),
        Op::Greater => spec_greater(left, right),
        Op::GreaterEq => spec_greater_eq(left, right),
        Op::Less => spec_less(left, right),
        Op::LessEq => spec_less_eq(left, right),
        _ => None,
    }
}

/// Negation of an operand in `root`.
pub open spec fn apply_unary(root: JsonValue, x: Operand) -> Outcome<Operand> {
    match resolve(root, x) {
        Outcome::Done(v) => from_option(spec_not(v), invalid_not_text(v)),
        Outcome::Failed(m) => Outcome::Failed(m),
        Outcome::Stuck => Outcome::Stuck,
    }
}

/// A binary operator on two operands in `root`; the left one is resolved
/// first.
pub open spec fn apply_binary(root: JsonValue, op: Op, left: Operand, right: Operand) -> Outcome<
    Operand,
> {
    match resolve(root, left) {
        Outcome::Done(a) => match resolve(root, right) {
            Outcome::Done(b) => from_option(binary_spec(op, a, b), type_mismatch_text(a, b)),
            Outcome::Failed(m) => Outcome::Failed(m),
            Outcome::Stuck => Outcome::Stuck,
        },
        Outcome::Failed(m) => Outcome::Failed(m),
        Outcome::Stuck => Outcome::Stuck,
    }
}

/// One element of an expression acting on the stack: an operand is
/// pushed; an operator needs as many operands as it takes, the top of the
/// stack being its last operand, and replaces them by its result.
pub open spec fn step(root: JsonValue, op: Op, stack: Seq<Operand>) -> Outcome<Seq<Operand>> {
    match op {
        Op::Operand(x) => Outcome::Done(stack.push(x)),
        Op::Not => if stack.len() < 1 {
            Outcome::Failed(too_few_text(op, 1))
        } else {
            match apply_unary(root, stack.last()) {
                Outcome::Done(v) => Outcome::Done(stack.drop_last().push(v)),
                Outcome::Failed(m) => Outcome::Failed(m),
                Outcome::Stuck => Outcome::Stuck,
            }
        },
        _ => if stack.len() < 2 {
            Outcome::Failed(too_few_text(op, 2))
        } else {
            match apply_binary(root, op, stack[stack.len() - 2], stack.last()) {
                Outcome::Done(v) => Outcome::Done(stack.drop_last().drop_last().push(v)),
                Outcome::Failed(m) => Outcome::Failed(m),
                Outcome::Stuck => Outcome::Stuck,
            }
        },
    }
}

/// The stack after the last `k` elements of `expr` have acted, from the
/// last element backwards, on the stack `init`.
pub open spec fn steps_from(root: JsonValue, expr: Seq<Op>, k: nat, init: Seq<Operand>) -> Outcome<
    Seq<Operand>,
>
    decreases k,
{
    if k == 0 {
        Outcome::Done(init)
    } else {
        match steps_from(root, expr, (k - 1) as nat, init) {
            Outcome::Done(stack) => step(root, expr[expr.len() - k], stack),
            Outcome::Failed(m) => Outcome::Failed(m),
            Outcome::Stuck => Outcome::Stuck,
        }
    }
}

/// The stack after the last `k` elements of `expr` have acted, from the
/// last element backwards, on an empty stack.
pub open spec fn eval_steps(root: JsonValue, expr: Seq<Op>, k: nat) -> Outcome<Seq<Operand>> {
    steps_from(root, expr, k, Seq::empty())
}

/// The result of an expression in `root`: after all its elements have
/// acted, exactly one operand must be left, and its value is the result.
pub open spec fn spec_run(root: JsonValue, expr: Seq<Op>) -> Outcome<Operand> {
    match eval_steps(root, expr, expr.len()) {
        Outcome::Done(stack) => if stack.len() == 1 {
            resolve(root, stack[0])
        } else {
            Outcome::Failed(leftover_text(stack))
        },
        Outcome::Failed(m) => Outcome::Failed(m),
        Outcome::Stuck => Outcome::Stuck,
    }
}

/// Once the evaluation has failed or given up, it stays so.
pub proof fn lemma_steps_settled(root: JsonValue, expr: Seq<Op>, k: nat, m: nat)
    requires
        !(eval_steps(root, expr, k) is Done),
        k <= m,
    ensures
        eval_steps(root, expr, m) == eval_steps(root, expr, k),
    decreases m - k,
{
    if k < m {
        lemma_steps_settled(root, expr, k, (m - 1) as nat);
    }
}

impl Op {
    /// Negation of `op` in the context.
    pub fn compute_unary<'a>(&self, context: &'a Context, op: Operand) -> (res: Result<
        Operand,
        String,
    >)
        requires
            *self is Not,
            !(resolve(context.json(), op) is Stuck),
        ensures
            settles(res, apply_unary(context.json(), op)),
    {
        compute_unary(context, op, compute_not)
    }

    /// This binary operator on `left` and `right` in the context.
    pub fn compute_binary<'a>(&self, context: &'a mut Context, left: Operand, right: Operand) -> (res:
        Result<Operand, String>)
        requires
            arity(*self) == 2,
            !(apply_binary(old(context).json(), *self, left, right) is Stuck),
        ensures
            *final(context) == *old(context),
            settles(res, apply_binary(old(context).json(), *self, left, right)),
    {
        let ctx: &Context = context;
        match self {
            Op::And => compute_binary(ctx, left, right, compute_and),
            Op::Or => compute_binary(ctx, left, right, compute_or),
            Op::Equal => compute_binary(ctx, left, right, compute_eq),
            Op::NotEqual => compute_binary(ctx, left, right, compute_neq),
            Op::Greater => compute_binary(ctx, left, right, compute_greater),
            Op::GreaterEq => compute_binary(ctx, left, right, compute_greater_eq),
            Op::Less => compute_binary(ctx, left, right, compute_less),
            Op::LessEq => compute_binary(ctx, left, right, compute_less_eq),
            Op::Operand(_) | Op::Not => {
                proof {
                    assert(false);
                }
                compute_binary(ctx, left, right, compute_and)
            },
        }
    }
}

impl Eval {
    /// An expression from its elements, in evaluation order.
    pub fn from_ops(expr: Vec<Op>) -> (e: Eval)
        ensures
            e.expr@ == expr@,
    {
        Eval { expr }
    }

    /// Runs the expression in the context.  Where a name stands for a
    /// value that has no operand, the result is `RunError::NotScalar`.
    pub fn evaluate(&self, context: &mut Context) -> (res: Result<Operand, RunError>)
        ensures
            *final(context) == *old(context),
            match spec_run(old(context).json(), self.expr@) {
                Outcome::Done(v) => res == Ok::<Operand, RunError>(v),
                Outcome::Failed(m) => res matches Err(RunError::Message(e)) && e@ == m,
                Outcome::Stuck => res matches Err(RunError::NotScalar),
            },
    {
        let ghost root = context.json();
        let mut operands: Vec<Operand> = Vec::new();
        let n = self.expr.len();
        let mut k: usize = 0;
        while k < n
            invariant
                k <= n,
                n == self.expr@.len(),
                context.json() == root,
                *context == *old(context),
                eval_steps(root, self.expr@, k as nat) == Outcome::<Seq<Operand>>::Done(operands@),
            decreases n - k,
        {
            let op = &self.expr[n - 1 - k];
            assert(self.expr@[self.expr@.len() - (k + 1)] == *op);
            match op {
                Op::Operand(operand) => {
                    operands.push(operand.duplicate());
                },
                optr => {
                    let num_operands = operator_num_operands(optr);
                    if operands.len() < num_operands {
                        proof {
                            lemma_steps_settled(root, self.expr@, (k + 1) as nat, n as nat);
                        }
                        return Err(RunError::Message(too_few_operands(optr, num_operands)));
                    }
                    if num_operands == 1 {
                        let x = operands.pop().unwrap();
                        match context.resolution(&x) {
                            Resolution::NotScalar => {
                                proof {
                                    lemma_steps_settled(root, self.expr@, (k + 1) as nat, n as nat);
                                }
                                return Err(RunError::NotScalar);
                            },
                            _ => {},
                        }
                        match optr.compute_unary(context, x) {
                            Ok(v) => {
                                operands.push(v);
                            },
                            Err(e) => {
                                proof {
                                    lemma_steps_settled(root, self.expr@, (k + 1) as nat, n as nat);
                                }
                                return Err(RunError::Message(e));
                            },
                        }
                    } else {
                        let right = operands.pop().unwrap();
                        let left = operands.pop().unwrap();
                        let stuck = match context.resolution(&left) {
                            Resolution::NotScalar => true,
                            Resolution::Resolved => match context.resolution(&right) {
                                Resolution::NotScalar => true,
                                _ => false,
                            },
                            Resolution::Missing => false,
                        };
                        if stuck {
                            proof {
                                lemma_steps_settled(root, self.expr@, (k + 1) as nat, n as nat);
                            }
                            return Err(RunError::NotScalar);
                        }
                        match optr.compute_binary(context, left, right) {
                            Ok(v) => {
                                operands.push(v);
                            },
                            Err(e) => {
                                proof {
                                    lemma_steps_settled(root, self.expr@, (k + 1) as nat, n as nat);
                                }
                                return Err(RunError::Message(e));
                            },
                        }
                    }
                },
            }
            k = k + 1;
        }
        if operands.len() != 1 {
            return Err(RunError::Message(leftover_operands(&operands)));
        }
        let last = operands.pop().unwrap();
        match last {
            Operand::Object(obj) => match context.get_value(obj.name.as_str()) {
                Ok(v) => match scalar_of(v) {
                    Some(x) => Ok(x),
                    None => Err(RunError::NotScalar),
                },
                Err(e) => Err(RunError::Message(e)),
            },
            operand => Ok(operand),
        }
    }
}

/// Running an expression against a context.
pub trait ComputeExpr<'a> {
    /// How running the expression in the context `root` ends.
    spec fn outcome(&self, root: JsonValue) -> Outcome<Operand>;

    /// Runs the expression; the context is left as it is.
    fn run(&self, context: &'a mut Context) -> (res: Result<Operand, String>)
        requires
            !(self.outcome(old(context).json()) is Stuck),
        ensures
            *final(context) == *old(context),
            settles(res, self.outcome(old(context).json())),
    ;
}

impl<'a> ComputeExpr<'a> for Eval {
    open spec fn outcome(&self, root: JsonValue) -> Outcome<Operand> {
        spec_run(root, self.expr@)
    }

    fn run(&self, context: &'a mut Context) -> (res: Result<Operand, String>) {
        match self.evaluate(context) {
            Ok(v) => Ok(v),
            Err(RunError::Message(m)) => Err(m),
            Err(RunError::NotScalar) => {
                proof {
                    assert(false);
                }
                Err(String::new())
            },
        }
    }
}

/// A result with its error taken as its text.
pub open spec fn result_view(r: Result<Operand, String>) -> Result<Operand, Seq<char>> {
    match r {
        Ok(v) => Ok(v),
        Err(e) => Err(e@),
    }
}

/// Running an expression twice gives the same result: `run` leaves the
/// context as it was (`after == before`), and a second run on it returns
/// the same value, or an error with the same text, as the first.  This
/// holds wherever running returns at all, that is where no name stands
/// for a value with no operand.
pub proof fn law_run_twice(
    ev: Eval,
    before: Context,
    after: Context,
    first: Result<Operand, String>,
    second: Result<Operand, String>,
)
    requires
        !(ev.outcome(before.json()) is Stuck),
        after == before,
        settles(first, ev.outcome(before.json())),
        settles(second, ev.outcome(after.json())),
    ensures
        result_view(first) == result_view(second),
{
}

} // verus!
