//! The values that conditions compute with, and their conversions to a
//! truth value and to text.

use crate::decimal::{is_zero, Decimal};
use crate::text::{int_text, int_to_string};
use vstd::prelude::*;

verus! {

/// A dotted name to be looked up in the context, such as `a.c.d`.
#[derive(Clone, Debug, PartialEq)]
pub struct Object {
    pub name: String,
}

/// A value: a string literal, an integer, a non-integer number, or a
/// name that stands for a value of the context.
#[derive(Clone, Debug, PartialEq)]
pub enum Operand {
    Literal(String),
    Number(i64),
    Decimal(Decimal),
    Object(Object),
}

/// An operand with its strings taken as character sequences: a decimal
/// keeps its bits, its display text and its debug text.
pub enum OperandView {
    Literal(Seq<char>),
    Number(i64),
    Decimal(u64, Seq<char>, Seq<char>),
    Object(Seq<char>),
}

impl View for Operand {
    type V = OperandView;

    open spec fn view(&self) -> OperandView {
        match self {
            Operand::Literal(l) => OperandView::Literal(l@),
            Operand::Number(n) => OperandView::Number(*n),
            Operand::Decimal(d) => OperandView::Decimal(d.bits, d.text@, d.debug@),
            Operand::Object(o) => OperandView::Object(o.name@),
        }
    }
}

impl Object {
    /// A copy of this name.
    pub fn duplicate(&self) -> (o: Object)
        ensures
            o == *self,
    {
        Object { name: self.name.clone() }
    }
}

impl Operand {
    /// A copy of this operand.
    pub fn duplicate(&self) -> (o: Operand)
        ensures
            o == *self,
    {
        match self {
            Operand::Literal(l) => Operand::Literal(l.clone()),
            Operand::Number(n) => Operand::Number(*n),
            Operand::Decimal(d) => Operand::Decimal(d.duplicate()),
            Operand::Object(o) => Operand::Object(o.duplicate()),
        }
    }
}

/// The truth of an operand that is not a name: a literal is true when it
/// is not empty, a number when it is not zero.
pub open spec fn truth(op: Operand) -> bool {
    match op {
        Operand::Literal(l) => l@.len() != 0,
        Operand::Number(n) => n != 0,
        Operand::Decimal(d) => !is_zero(d.bits),
        Operand::Object(_) => false,
    }
}

/// The text of an operand that is not a name.
pub open spec fn display_text(op: Operand) -> Seq<char> {
    match op {
        Operand::Literal(l) => l@,
        Operand::Number(n) => int_text(n as int),
        Operand::Decimal(d) => d.text@,
        Operand::Object(o) => o.name@,
    }
}

/// The number that a comparison or a boolean operator gives: 1 for
/// true, 0 for false.
pub open spec fn bool_number(b: bool) -> Operand {
    Operand::Number(if b { 1 } else { 0 })
}

/// Conversion of a value to a truth value and to text.
pub trait Convert {
    /// Whether the value can be converted (it is not an unresolved name).
    spec fn convertible(&self) -> bool;

    /// The truth of the value.
    spec fn truth_of(&self) -> bool;

    /// The text of the value.
    spec fn text_of(&self) -> Seq<char>;

    fn is_true(&self) -> (b: bool)
        requires
            self.convertible(),
        ensures
            b == self.truth_of(),
    ;

    fn to_str(&self) -> (s: String)
        requires
            self.convertible(),
        ensures
            s@ == self.text_of(),
    ;
}

impl Convert for Operand {
    open spec fn convertible(&self) -> bool {
        !(self is Object)
    }

    open spec fn truth_of(&self) -> bool {
        truth(*self)
    }

    open spec fn text_of(&self) -> Seq<char> {
        display_text(*self)
    }

    fn is_true(&self) -> (b: bool) {
        match self {
            Operand::Literal(l) => {
                proof {
                    broadcast use vstd::string::group_string_axioms;
                }
                !l.as_str().is_empty()
            },
            Operand::Number(n) => *n != 0,
            Operand::Decimal(d) => !d.is_zero(),
            Operand::Object(_) => false,
        }
    }

    fn to_str(&self) -> (s: String) {
        match self {
            Operand::Literal(l) => l.clone(),
            Operand::Number(n) => int_to_string(*n),
            Operand::Decimal(d) => d.text.clone(),
            Operand::Object(o) => o.name.clone(),
        }
    }
}

} // verus!
