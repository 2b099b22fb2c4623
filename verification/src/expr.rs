//! Operators and the expressions that the evaluator runs.

use crate::operand::{Operand, OperandView};
use vstd::prelude::*;

verus! {

/// An element of an expression: an operand, or an operator.
#[derive(Clone, Debug, PartialEq)]
pub enum Op {
    Operand(Operand),
    And,
    Or,
    Not,
    Equal,
    NotEqual,
    Greater,
    GreaterEq,
    Less,
    LessEq,
}

/// An element of an expression with its strings taken as character
/// sequences.
pub enum OpView {
    Operand(OperandView),
    And,
    Or,
    Not,
    Equal,
    NotEqual,
    Greater,
    GreaterEq,
    Less,
    LessEq,
}

impl View for Op {
    type V = OpView;

    open spec fn view(&self) -> OpView {
        match self {
            Op::Operand(x) => OpView::Operand(x@),
            Op::And => OpView::And,
            Op::Or => OpView::Or,
            Op::Not => OpView::Not,
            Op::Equal => OpView::Equal,
            Op::NotEqual => OpView::NotEqual,
            Op::Greater => OpView::Greater,
            Op::GreaterEq => OpView::GreaterEq,
            Op::Less => OpView::Less,
            Op::LessEq => OpView::LessEq,
        }
    }
}

/// The views of the elements of an expression.
pub open spec fn op_views(ops: Seq<Op>) -> Seq<OpView> {
    ops.map_values(|o: Op| o@)
}

/// An expression ready to be evaluated.  Its elements are read from the
/// last to the first: an operand is pushed on a stack, an operator takes
/// its operands from the top of the stack and pushes its result.  So an
/// operator comes before its operands, its right operand before its left
/// one: `a < b` is `[Less, b, a]`.
pub struct Eval {
    pub expr: Vec<Op>,
}

/// How many operands an operator takes; an operand takes none.
pub open spec fn arity(op: Op) -> nat {
    match op {
        Op::Operand(_) => 0,
        Op::Not => 1,
        _ => 2,
    }
}

/// How many operands an operator takes.
pub fn operator_num_operands(op: &Op) -> (n: usize)
    ensures
        n == arity(*op),
{
    match op {
        Op::Operand(_) => 0,
        Op::Not => 1,
        _ => 2,
    }
}

} // verus!
