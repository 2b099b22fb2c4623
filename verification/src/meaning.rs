//! What conditions mean, stated over the values they are made of: the
//! comparisons of integers and strings, the truth tables of `&&`, `||`
//! and `!`, and the operands that the values of the context become.

use crate::compute::{spec_and, spec_greater, spec_less, spec_not, spec_or};
use crate::context::{resolve, scalar_operand, Outcome};
use crate::eval::{apply_binary, eval_steps, spec_run, steps_from};
use crate::expr::{arity, Op};
use crate::json::{json_get, JsonNumber, JsonValue};
use crate::laws::{law_binary_composes, law_not_composes, law_plain_name_is_member, law_single_operand};
use crate::operand::{truth, Object, Operand};
use crate::text::seq_lt;
use vstd::prelude::*;

verus! {

/// The evaluator's stack after one operand.
proof fn lemma_one_operand(root: JsonValue, x: Operand)
    ensures
        eval_steps(root, seq![Op::Operand(x)], 1) == Outcome::<Seq<Operand>>::Done(seq![x]),
{
    assert(steps_from(root, seq![Op::Operand(x)], 0, Seq::empty()) == Outcome::Done(
        Seq::<Operand>::empty(),
    ));
    assert(seq![Op::Operand(x)][0] == Op::Operand(x));
    assert(Seq::<Operand>::empty().push(x) =~= seq![x]);
}

/// `l op r` written with two operands evaluates to the operator applied
/// to them.
proof fn lemma_two_operands(root: JsonValue, op: Op, l: Operand, r: Operand)
    requires
        arity(op) == 2,
    ensures
        spec_run(root, seq![op, Op::Operand(r), Op::Operand(l)]) == apply_binary(root, op, l, r),
{
    let left_expr = seq![Op::Operand(l)];
    let right_expr = seq![Op::Operand(r)];
    lemma_one_operand(root, l);
    lemma_one_operand(root, r);
    assert(left_expr.len() == 1 && right_expr.len() == 1);
    law_binary_composes(root, op, left_expr, right_expr, l, r);
    assert(seq![op] + right_expr + left_expr =~= seq![op, Op::Operand(r), Op::Operand(l)]);
}

/// The number 1 for true, 0 for false.
pub open spec fn flag(b: bool) -> Operand {
    Operand::Number(if b { 1 } else { 0 })
}

/// On two numbers each operator is the integer comparison or the boolean
/// connective of their truths (non-zero is true): `l op r`, written
/// `[op, r, l]`, gives 1 exactly when the relation holds, else 0.
pub proof fn law_number_operators(root: JsonValue, l: i64, r: i64)
    ensures
        spec_run(root, seq![Op::Less, Op::Operand(Operand::Number(r)), Op::Operand(Operand::Number(l))])
            == Outcome::Done(flag(l < r)),
        spec_run(root, seq![Op::LessEq, Op::Operand(Operand::Number(r)), Op::Operand(Operand::Number(l))])
            == Outcome::Done(flag(l <= r)),
        spec_run(root, seq![Op::Greater, Op::Operand(Operand::Number(r)), Op::Operand(Operand::Number(l))])
            == Outcome::Done(flag(l > r)),
        spec_run(root, seq![Op::GreaterEq, Op::Operand(Operand::Number(r)), Op::Operand(Operand::Number(l))])
            == Outcome::Done(flag(l >= r)),
        spec_run(root, seq![Op::Equal, Op::Operand(Operand::Number(r)), Op::Operand(Operand::Number(l))])
            == Outcome::Done(flag(l == r)),
        spec_run(root, seq![Op::NotEqual, Op::Operand(Operand::Number(r)), Op::Operand(Operand::Number(l))])
            == Outcome::Done(flag(l != r)),
        spec_run(root, seq![Op::And, Op::Operand(Operand::Number(r)), Op::Operand(Operand::Number(l))])
            == Outcome::Done(flag(l != 0 && r != 0)),
        spec_run(root, seq![Op::Or, Op::Operand(Operand::Number(r)), Op::Operand(Operand::Number(l))])
            == Outcome::Done(flag(l != 0 || r != 0)),
{
    let (x, y) = (Operand::Number(l), Operand::Number(r));
    lemma_two_operands(root, Op::Less, x, y);
    lemma_two_operands(root, Op::LessEq, x, y);
    lemma_two_operands(root, Op::Greater, x, y);
    lemma_two_operands(root, Op::GreaterEq, x, y);
    lemma_two_operands(root, Op::Equal, x, y);
    lemma_two_operands(root, Op::NotEqual, x, y);
    lemma_two_operands(root, Op::And, x, y);
    lemma_two_operands(root, Op::Or, x, y);
}

/// Applied in any context to two numbers, which need no resolving, each
/// comparison is the integer relation between them and each connective
/// that of their truths: 1 when it holds, else 0.
pub proof fn law_apply_to_numbers(root: JsonValue, l: i64, r: i64)
    ensures
        apply_binary(root, Op::Less, Operand::Number(l), Operand::Number(r)) == Outcome::Done(flag(l < r)),
        apply_binary(root, Op::LessEq, Operand::Number(l), Operand::Number(r)) == Outcome::Done(flag(l <= r)),
        apply_binary(root, Op::Greater, Operand::Number(l), Operand::Number(r)) == Outcome::Done(flag(l > r)),
        apply_binary(root, Op::GreaterEq, Operand::Number(l), Operand::Number(r)) == Outcome::Done(flag(l >= r)),
        apply_binary(root, Op::Equal, Operand::Number(l), Operand::Number(r)) == Outcome::Done(flag(l == r)),
        apply_binary(root, Op::NotEqual, Operand::Number(l), Operand::Number(r)) == Outcome::Done(flag(l != r)),
        apply_binary(root, Op::And, Operand::Number(l), Operand::Number(r)) == Outcome::Done(
            flag(l != 0 && r != 0),
        ),
        apply_binary(root, Op::Or, Operand::Number(l), Operand::Number(r)) == Outcome::Done(
            flag(l != 0 || r != 0),
        ),
{
}

/// Negating a number gives 1 exactly when it is zero.
pub proof fn law_number_not(root: JsonValue, n: i64)
    ensures
        spec_run(root, seq![Op::Not, Op::Operand(Operand::Number(n))]) == Outcome::Done(
            flag(n == 0),
        ),
{
    lemma_one_operand(root, Operand::Number(n));
    law_not_composes(root, seq![Op::Operand(Operand::Number(n))], Operand::Number(n));
    assert(seq![Op::Not] + seq![Op::Operand(Operand::Number(n))] =~= seq![
        Op::Not,
        Op::Operand(Operand::Number(n)),
    ]);
}

/// On two literals the comparisons follow the lexicographic order of
/// their characters, and `==`, `!=` their equality.
pub proof fn law_literal_operators(root: JsonValue, a: String, b: String)
    ensures
        spec_run(root, seq![Op::Less, Op::Operand(Operand::Literal(b)), Op::Operand(Operand::Literal(a))])
            == Outcome::Done(flag(seq_lt(a@, b@))),
        spec_run(root, seq![Op::LessEq, Op::Operand(Operand::Literal(b)), Op::Operand(Operand::Literal(a))])
            == Outcome::Done(flag(seq_lt(a@, b@) || a@ == b@)),
        spec_run(root, seq![Op::Greater, Op::Operand(Operand::Literal(b)), Op::Operand(Operand::Literal(a))])
            == Outcome::Done(flag(seq_lt(b@, a@))),
        spec_run(root, seq![Op::GreaterEq, Op::Operand(Operand::Literal(b)), Op::Operand(Operand::Literal(a))])
            == Outcome::Done(flag(seq_lt(b@, a@) || a@ == b@)),
        spec_run(root, seq![Op::Equal, Op::Operand(Operand::Literal(b)), Op::Operand(Operand::Literal(a))])
            == Outcome::Done(flag(a@ == b@)),
        spec_run(root, seq![Op::NotEqual, Op::Operand(Operand::Literal(b)), Op::Operand(Operand::Literal(a))])
            == Outcome::Done(flag(a@ != b@)),
{
    let (x, y) = (Operand::Literal(a), Operand::Literal(b));
    lemma_two_operands(root, Op::Less, x, y);
    lemma_two_operands(root, Op::LessEq, x, y);
    lemma_two_operands(root, Op::Greater, x, y);
    lemma_two_operands(root, Op::GreaterEq, x, y);
    lemma_two_operands(root, Op::Equal, x, y);
    lemma_two_operands(root, Op::NotEqual, x, y);
}

/// Two operands of the same kind, neither of them a name.
pub open spec fn same_kind(x: Operand, y: Operand) -> bool {
    ||| (x is Literal && y is Literal)
    ||| (x is Number && y is Number)
    ||| (x is Decimal && y is Decimal)
}

/// `&&` is the conjunction and `||` the disjunction of the truths that
/// `Convert::is_true` gives; `!` gives 1 exactly for an untrue operand.
pub proof fn law_connectives_are_truth_tables(x: Operand, y: Operand)
    requires
        same_kind(x, y),
    ensures
        spec_and(x, y) == Some(flag(truth(x) && truth(y))),
        spec_or(x, y) == Some(flag(truth(x) || truth(y))),
        spec_not(x) == Some(flag(!truth(x))),
        spec_not(y) == Some(flag(!truth(y))),
{
}

/// De Morgan: `x || y` is `!(!x && !y)`, and `x && y` is `!(!x || !y)`.
pub proof fn law_de_morgan(x: Operand, y: Operand)
    requires
        same_kind(x, y),
    ensures
        spec_or(x, y) == spec_not(spec_and(spec_not(x)->0, spec_not(y)->0)->0),
        spec_and(x, y) == spec_not(spec_or(spec_not(x)->0, spec_not(y)->0)->0),
{
}

/// Each scalar of the context becomes the operand of the same value: an
/// integer the same integer, whatever its sign, `true` and `false` 1 and
/// 0, a string the same characters, any other number the same decimal;
/// arrays, objects and null become none.
pub proof fn law_scalars_keep_their_value(v: JsonValue)
    ensures
        v matches JsonValue::Number(JsonNumber::Integer(n)) ==> scalar_operand(v) == Some(
            Operand::Number(n),
        ),
        v matches JsonValue::Bool(b) ==> scalar_operand(v) == Some(flag(b)),
        v matches JsonValue::String(s) ==> scalar_operand(v) == Some(Operand::Literal(s)),
        v matches JsonValue::Number(JsonNumber::Other(d)) ==> scalar_operand(v) == Some(
            Operand::Decimal(d),
        ),
        (v is Null || v is Array || v is Object) ==> scalar_operand(v) is None,
{
}

/// Two integers of the context keep their order once they are operands:
/// `<` and `>` on them give the integer comparison.
pub proof fn law_scalars_keep_order(x: i64, y: i64)
    ensures
        spec_less(
            scalar_operand(JsonValue::Number(JsonNumber::Integer(x)))->0,
            scalar_operand(JsonValue::Number(JsonNumber::Integer(y)))->0,
        ) == Some(flag(x < y)),
        spec_greater(
            scalar_operand(JsonValue::Number(JsonNumber::Integer(x)))->0,
            scalar_operand(JsonValue::Number(JsonNumber::Integer(y)))->0,
        ) == Some(flag(x > y)),
{
}

/// A name without a dot that the context binds to a boolean, a number or
/// a string evaluates to that value as an operand: the integer itself,
/// 1 or 0 for `true` or `false`, the string as a literal.
pub proof fn law_context_values(root: JsonValue, o: Object, v: JsonValue)
    requires
        !o.name@.contains('.'),
        json_get(root, o.name@) == Some(v),
    ensures
        v matches JsonValue::Number(JsonNumber::Integer(n)) ==> spec_run(
            root,
            seq![Op::Operand(Operand::Object(o))],
        ) == Outcome::Done(Operand::Number(n)),
        v matches JsonValue::Bool(b) ==> spec_run(root, seq![Op::Operand(Operand::Object(o))])
            == Outcome::Done(flag(b)),
        v matches JsonValue::String(s) ==> spec_run(root, seq![Op::Operand(Operand::Object(o))])
            == Outcome::Done(Operand::Literal(s)),
        v matches JsonValue::Number(JsonNumber::Other(d)) ==> spec_run(
            root,
            seq![Op::Operand(Operand::Object(o))],
        ) == Outcome::Done(Operand::Decimal(d)),
{
    law_single_operand(root, Operand::Object(o));
    law_plain_name_is_member(root, o.name@);
}

/// Two names bound to integers compare as those integers.
pub proof fn law_context_integers_compare(
    root: JsonValue,
    a: Object,
    b: Object,
    x: i64,
    y: i64,
)
    requires
        !a.name@.contains('.'),
        !b.name@.contains('.'),
        json_get(root, a.name@) == Some(JsonValue::Number(JsonNumber::Integer(x))),
        json_get(root, b.name@) == Some(JsonValue::Number(JsonNumber::Integer(y))),
    ensures
        spec_run(root, seq![Op::Less, Op::Operand(Operand::Object(b)), Op::Operand(Operand::Object(a))])
            == Outcome::Done(flag(x < y)),
        spec_run(root, seq![Op::LessEq, Op::Operand(Operand::Object(b)), Op::Operand(Operand::Object(a))])
            == Outcome::Done(flag(x <= y)),
        spec_run(root, seq![Op::Greater, Op::Operand(Operand::Object(b)), Op::Operand(Operand::Object(a))])
            == Outcome::Done(flag(x > y)),
        spec_run(root, seq![Op::GreaterEq, Op::Operand(Operand::Object(b)), Op::Operand(Operand::Object(a))])
            == Outcome::Done(flag(x >= y)),
        spec_run(root, seq![Op::Equal, Op::Operand(Operand::Object(b)), Op::Operand(Operand::Object(a))])
            == Outcome::Done(flag(x == y)),
        spec_run(root, seq![Op::NotEqual, Op::Operand(Operand::Object(b)), Op::Operand(Operand::Object(a))])
            == Outcome::Done(flag(x != y)),
{
    law_plain_name_is_member(root, a.name@);
    law_plain_name_is_member(root, b.name@);
    assert(resolve(root, Operand::Object(a)) == Outcome::Done(Operand::Number(x)));
    assert(resolve(root, Operand::Object(b)) == Outcome::Done(Operand::Number(y)));
    let (l, r) = (Operand::Object(a), Operand::Object(b));
    lemma_two_operands(root, Op::Less, l, r);
    lemma_two_operands(root, Op::LessEq, l, r);
    lemma_two_operands(root, Op::Greater, l, r);
    lemma_two_operands(root, Op::GreaterEq, l, r);
    lemma_two_operands(root, Op::Equal, l, r);
    lemma_two_operands(root, Op::NotEqual, l, r);
}

} // verus!
