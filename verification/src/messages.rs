//! The texts of evaluation errors.  They show operands and operators as
//! their `Debug` forms do; the only part left to std is the `Debug` form
//! of a string (quoted, with escapes), which is named, not stated.

use crate::expr::Op;
use crate::operand::Operand;
use crate::text::{int_text, int_to_string};
use vstd::prelude::*;

verus! {

/// The `Debug` form of a string: the string in double quotes, with the
/// characters that `str::escape_debug` would escape escaped.
pub uninterp spec fn str_debug(s: Seq<char>) -> Seq<char>;

/// `format!("{:?}", s)`: std's `Debug` form of a string, whatever it is,
/// as `str_debug` names it.
#[verifier::external_body]
fn debug_str(s: &str) -> (r: String)
    ensures
        r@ == str_debug(s@),
{
    format!("{:?}", s)
}

/// The `Debug` form of an operand.
pub open spec fn operand_debug(op: Operand) -> Seq<char> {
    match op {
        Operand::Literal(l) => "Literal("@ + str_debug(l@) + ")"@,
        Operand::Number(n) => "Number("@ + int_text(n as int) + ")"@,
        Operand::Decimal(d) => "Decimal("@ + d.debug@ + ")"@,
        Operand::Object(o) => "Object(Object { name: "@ + str_debug(o.name@) + " })"@,
    }
}

/// The `Debug` form of an element of an expression.
pub open spec fn op_debug(op: Op) -> Seq<char> {
    match op {
        Op::Operand(x) => "Operand("@ + operand_debug(x) + ")"@,
        Op::And => "And"@,
        Op::Or => "Or"@,
        Op::Not => "Not"@,
        Op::Equal => "Equal"@,
        Op::NotEqual => "NotEqual"@,
        Op::Greater => "Greater"@,
        Op::GreaterEq => "GreaterEq"@,
        Op::Less => "Less"@,
        Op::LessEq => "LessEq"@,
    }
}

/// Texts separated by `", "`.
pub open spec fn joined(items: Seq<Seq<char>>) -> Seq<char>
    decreases items.len(),
{
    if items.len() == 0 {
        Seq::empty()
    } else if items.len() == 1 {
        items[0]
    } else {
        joined(items.drop_last()) + ", "@ + items.last()
    }
}

/// The `Debug` form of a list whose entries have the given forms.
pub open spec fn debug_list(items: Seq<Seq<char>>) -> Seq<char> {
    "["@ + joined(items) + "]"@
}

/// The `Debug` form of a list of operands.
pub open spec fn operands_debug(ops: Seq<Operand>) -> Seq<char> {
    debug_list(ops.map_values(|o: Operand| operand_debug(o)))
}

/// The `Debug` form of a list of strings.
pub open spec fn strings_debug(names: Seq<Seq<char>>) -> Seq<char> {
    debug_list(names.map_values(|n: Seq<char>| str_debug(n)))
}

/// The error of an operator given operands it cannot combine.
pub open spec fn type_mismatch_text(left: Operand, right: Operand) -> Seq<char> {
    "Type mismatch : "@ + operand_debug(left) + " "@ + operand_debug(right)
}

/// The error of negation given an operand it cannot take.
pub open spec fn invalid_not_text(operand: Operand) -> Seq<char> {
    "Invalid operation NOT "@ + operand_debug(operand)
}

/// The error of an operator that finds fewer than `needed` operands.
pub open spec fn too_few_text(op: Op, needed: int) -> Seq<char> {
    "Number of operands for "@ + op_debug(op) + " is less than "@ + int_text(needed)
}

/// The error of an evaluation that does not end with exactly one operand.
pub open spec fn leftover_text(operands: Seq<Operand>) -> Seq<char> {
    "# of operands after computing is not zero. "@ + operands_debug(operands)
}

/// The error of a name whose first piece is not in the context.
pub open spec fn missing_root_text(pieces: Seq<Seq<char>>) -> Seq<char> {
    "Mapping not exist "@ + strings_debug(pieces)
}

fn operand_debug_text(op: &Operand) -> (s: String)
    ensures
        s@ == operand_debug(*op),
{
    match op {
        Operand::Literal(l) => {
            let mut s = String::from_str("Literal(");
            let d = debug_str(l.as_str());
            s.append(d.as_str());
            s.append(")");
            s
        },
        Operand::Number(n) => {
            let mut s = String::from_str("Number(");
            let d = int_to_string(*n);
            s.append(d.as_str());
            s.append(")");
            s
        },
        Operand::Decimal(d) => {
            let mut s = String::from_str("Decimal(");
            s.append(d.debug.as_str());
            s.append(")");
            s
        },
        Operand::Object(o) => {
            let mut s = String::from_str("Object(Object { name: ");
            let d = debug_str(o.name.as_str());
            s.append(d.as_str());
            s.append(" })");
            s
        },
    }
}

fn op_debug_text(op: &Op) -> (s: String)
    ensures
        s@ == op_debug(*op),
{
    match op {
        Op::Operand(x) => {
            let mut s = String::from_str("Operand(");
            let d = operand_debug_text(x);
            s.append(d.as_str());
            s.append(")");
            s
        },
        Op::And => String::from_str("And"),
        Op::Or => String::from_str("Or"),
        Op::Not => String::from_str("Not"),
        Op::Equal => String::from_str("Equal"),
        Op::NotEqual => String::from_str("NotEqual"),
        Op::Greater => String::from_str("Greater"),
        Op::GreaterEq => String::from_str("GreaterEq"),
        Op::Less => String::from_str("Less"),
        Op::LessEq => String::from_str("LessEq"),
    }
}

/// The text of a type mismatch.
pub fn type_mismatch(left: &Operand, right: &Operand) -> (s: String)
    ensures
        s@ == type_mismatch_text(*left, *right),
{
    let mut s = String::from_str("Type mismatch : ");
    let l = operand_debug_text(left);
    s.append(l.as_str());
    s.append(" ");
    let r = operand_debug_text(right);
    s.append(r.as_str());
    s
}

/// The text of a negation that cannot take its operand.
pub fn invalid_not(operand: &Operand) -> (s: String)
    ensures
        s@ == invalid_not_text(*operand),
{
    let mut s = String::from_str("Invalid operation NOT ");
    let d = operand_debug_text(operand);
    s.append(d.as_str());
    s
}

/// The text of an operator that finds too few operands.
pub fn too_few_operands(op: &Op, needed: usize) -> (s: String)
    requires
        needed <= 2,
    ensures
        s@ == too_few_text(*op, needed as int),
{
    let mut s = String::from_str("Number of operands for ");
    let d = op_debug_text(op);
    s.append(d.as_str());
    s.append(" is less than ");
    let n = int_to_string(needed as i64);
    s.append(n.as_str());
    s
}

/// The text of an evaluation left with other than one operand.
pub fn leftover_operands(operands: &Vec<Operand>) -> (s: String)
    ensures
        s@ == leftover_text(operands@),
{
    let ghost items = operands@.map_values(|o: Operand| operand_debug(o));
    let mut body = String::new();
    let mut i: usize = 0;
    while i < operands.len()
        invariant
            i <= operands.len(),
            items == operands@.map_values(|o: Operand| operand_debug(o)),
            body@ == joined(items.take(i as int)),
        decreases operands.len() - i,
    {
        let d = operand_debug_text(&operands[i]);
        if i > 0 {
            body.append(", ");
        }
        body.append(d.as_str());
        proof {
            assert(items.take(i + 1).drop_last() =~= items.take(i as int));
            if i == 0 {
                assert(body@ =~= joined(items.take(1)));
            }
        }
        i = i + 1;
    }
    assert(items.take(operands.len() as int) =~= items);
    let mut s = String::from_str("# of operands after computing is not zero. ");
    s.append("[");
    s.append(body.as_str());
    s.append("]");
    assert(s@ =~= leftover_text(operands@));
    s
}

/// The text of a name whose first piece is missing.
pub fn missing_root(pieces: &Vec<String>) -> (s: String)
    ensures
        s@ == missing_root_text(pieces@.map_values(|p: String| p@)),
{
    let ghost names = pieces@.map_values(|p: String| p@);
    let ghost items = names.map_values(|n: Seq<char>| str_debug(n));
    let mut body = String::new();
    let mut i: usize = 0;
    while i < pieces.len()
        invariant
            i <= pieces.len(),
            names == pieces@.map_values(|p: String| p@),
            items == names.map_values(|n: Seq<char>| str_debug(n)),
            body@ == joined(items.take(i as int)),
        decreases pieces.len() - i,
    {
        let d = debug_str(pieces[i].as_str());
        if i > 0 {
            body.append(", ");
        }
        body.append(d.as_str());
        proof {
            assert(items.take(i + 1).drop_last() =~= items.take(i as int));
            if i == 0 {
                assert(body@ =~= joined(items.take(1)));
            }
        }
        i = i + 1;
    }
    assert(items.take(pieces.len() as int) =~= items);
    let mut s = String::from_str("Mapping not exist ");
    s.append("[");
    s.append(body.as_str());
    s.append("]");
    assert(s@ =~= missing_root_text(names));
    s
}

} // verus!
