//! Laws of the operators and of evaluation.

use crate::compute::{
    spec_and, spec_eq, spec_greater, spec_greater_eq, spec_less, spec_less_eq, spec_neq,
    spec_not, spec_or,
};
use crate::decimal::{is_nan, value_eq, value_lt};
use crate::operand::{bool_number, truth, Operand};
use crate::context::{lookup, name_keys, resolve, walk, Outcome};
use crate::eval::{
    apply_binary, apply_unary, binary_spec, eval_steps, spec_run, step, steps_from,
};
use crate::json::json_get;
use crate::expr::{arity, op_views, Op};
use crate::shape::{depth_after, view_arity, well_shaped};
use crate::json::JsonValue;
use crate::text::{agree_below, lemma_split_nonempty, seq_lt, split_on};
use vstd::prelude::*;

verus! {

/// `!=` gives the opposite of `==`, and both fail on the same operands.
pub proof fn law_neq_is_not_eq(left: Operand, right: Operand)
    ensures
        spec_neq(left, right) is Some <==> spec_eq(left, right) is Some,
        spec_eq(left, right) matches Some(e) ==> spec_neq(left, right) == Some(
            bool_number(e == bool_number(false)),
        ),
{
}

/// `>` and `>=` are `<` and `<=` with the operands swapped.
pub proof fn law_greater_is_swapped_less(left: Operand, right: Operand)
    ensures
        spec_greater(left, right) == spec_less(right, left),
        spec_greater_eq(left, right) == spec_less_eq(right, left),
{
}

/// `&&`, `||`, `==` and `!=` do not depend on the order of their operands.
pub proof fn law_symmetric_operators(left: Operand, right: Operand)
    ensures
        spec_and(left, right) == spec_and(right, left),
        spec_or(left, right) == spec_or(right, left),
        spec_eq(left, right) == spec_eq(right, left),
        spec_neq(left, right) == spec_neq(right, left),
{
}

/// `<=` holds exactly where `<` or `==` holds.
pub proof fn law_less_eq_is_less_or_eq(left: Operand, right: Operand)
    ensures
        spec_less_eq(left, right) is Some <==> spec_less(left, right) is Some,
        spec_less_eq(left, right) is Some ==> (spec_less_eq(left, right) == Some(bool_number(true))
            <==> (spec_less(left, right) == Some(bool_number(true)) || spec_eq(left, right) == Some(
            bool_number(true)))),
{
}

/// Negation gives 1 exactly for the operands that are not true, and
/// fails only on names.
pub proof fn law_not_is_untruth(x: Operand)
    ensures
        spec_not(x) is Some <==> !(x is Object),
        !(x is Object) ==> spec_not(x) == Some(bool_number(!truth(x))),
{
}

/// The lexicographic order of literals is irreflexive.
pub proof fn law_literal_order_irreflexive(a: Seq<char>)
    ensures
        !seq_lt(a, a),
{
}

/// The lexicographic order of literals is total: of two literals, one
/// comes before the other or they are equal, and never both ways.
pub proof fn law_literal_order_trichotomy(a: Seq<char>, b: Seq<char>)
    ensures
        seq_lt(a, b) || seq_lt(b, a) || a == b,
        !(seq_lt(a, b) && seq_lt(b, a)),
{
    let n = if a.len() < b.len() {
        a.len()
    } else {
        b.len()
    };
    if agree_below(a, b, n as int) {
        if a.len() == b.len() {
            assert(a =~= b);
        }
    } else {
        let i = choose|i: int| 0 <= i < n && a[i] != b[i];
        lemma_first_difference(a, b, i);
    }
    if seq_lt(a, b) && seq_lt(b, a) {
        if a.len() < b.len() && agree_below(a, b, a.len() as int) {
            if b.len() < a.len() {
            } else {
                let j = choose|j: int|
                    0 <= j < b.len() && j < a.len() && agree_below(b, a, j) && #[trigger] b[j] < a[j];
            }
        } else {
            let i = choose|i: int|
                0 <= i < a.len() && i < b.len() && agree_below(a, b, i) && #[trigger] a[i] < b[i];
            if b.len() < a.len() && agree_below(b, a, b.len() as int) {
            } else {
                let j = choose|j: int|
                    0 <= j < b.len() && j < a.len() && agree_below(b, a, j) && #[trigger] b[j] < a[j];
                if i < j {
                } else if j < i {
                }
            }
        }
    }
}

proof fn lemma_first_difference(a: Seq<char>, b: Seq<char>, i: int)
    requires
        0 <= i < a.len(),
        i < b.len(),
        a[i] != b[i],
    ensures
        seq_lt(a, b) || seq_lt(b, a),
    decreases i,
{
    if agree_below(a, b, i) {
        if a[i] < b[i] {
            assert(seq_lt(a, b));
        } else {
            assert(agree_below(b, a, i));
            assert(b[i] < a[i]);
            assert(seq_lt(b, a));
        }
    } else {
        let j = choose|j: int| 0 <= j < i && a[j] != b[j];
        lemma_first_difference(a, b, j);
    }
}

/// Of two numbers that are not NaN, one is less than the other or they
/// are equal.
pub proof fn law_decimal_order_total(a: u64, b: u64)
    requires
        !is_nan(a),
        !is_nan(b),
    ensures
        value_lt(a, b) || value_lt(b, a) || value_eq(a, b),
{
}

/// A NaN is equal to nothing, not even itself.
pub proof fn law_nan_equals_nothing(a: u64, b: u64)
    requires
        is_nan(a),
    ensures
        !value_eq(a, b),
        !value_eq(b, a),
        !value_lt(a, b),
        !value_lt(b, a),
{
}

/// A step on a stack that holds the operands it takes ends in the same
/// way on the same stack with more operands under it.
proof fn lemma_step_frame(root: JsonValue, op: Op, below: Seq<Operand>, s: Seq<Operand>)
    requires
        s.len() >= arity(op),
    ensures
        step(root, op, below + s) == match step(root, op, s) {
            Outcome::Done(t) => Outcome::Done(below + t),
            other => other,
        },
{
    let full = below + s;
    match op {
        Op::Operand(x) => {
            assert(full.push(x) =~= below + s.push(x));
        },
        Op::Not => {
            assert(full.last() == s.last());
            assert(full.drop_last() =~= below + s.drop_last());
            if let Outcome::Done(v) = apply_unary(root, s.last()) {
                assert(full.drop_last().push(v) =~= below + s.drop_last().push(v));
            }
        },
        _ => {
            assert(full.last() == s.last());
            assert(full[full.len() - 2] == s[s.len() - 2]);
            assert(full.drop_last().drop_last() =~= below + s.drop_last().drop_last());
            if let Outcome::Done(v) = apply_binary(root, op, s[s.len() - 2], s.last()) {
                assert(full.drop_last().drop_last().push(v) =~= below + s.drop_last().drop_last().push(
                    v,
                ));
            }
        },
    }
}

/// An evaluation that succeeds on a stack succeeds in the same way with
/// more operands under it: it never reaches below the operands it pushed.
proof fn lemma_steps_frame(
    root: JsonValue,
    expr: Seq<Op>,
    k: nat,
    below: Seq<Operand>,
    s: Seq<Operand>,
    t: Seq<Operand>,
)
    requires
        steps_from(root, expr, k, s) == Outcome::<Seq<Operand>>::Done(t),
    ensures
        steps_from(root, expr, k, below + s) == Outcome::<Seq<Operand>>::Done(below + t),
    decreases k,
{
    if k > 0 {
        let prev = steps_from(root, expr, (k - 1) as nat, s);
        if let Outcome::Done(u) = prev {
            lemma_steps_frame(root, expr, (k - 1) as nat, below, s, u);
            lemma_step_frame(root, expr[expr.len() - k], below, u);
        }
    }
}

/// Evaluating `a + b` first evaluates all of `b`, then `a` on what `b`
/// left.
proof fn lemma_steps_concat(
    root: JsonValue,
    a: Seq<Op>,
    b: Seq<Op>,
    j: nat,
    init: Seq<Operand>,
)
    requires
        j <= a.len(),
    ensures
        steps_from(root, a + b, b.len() + j, init) == match steps_from(root, b, b.len(), init) {
            Outcome::Done(s) => steps_from(root, a, j, s),
            other => other,
        },
    decreases j,
{
    if j == 0 {
        lemma_steps_suffix(root, a, b, b.len(), init);
    } else {
        lemma_steps_concat(root, a, b, (j - 1) as nat, init);
        assert((a + b)[(a + b).len() - (b.len() + j)] == a[a.len() - j]);
    }
}

proof fn lemma_steps_suffix(root: JsonValue, a: Seq<Op>, b: Seq<Op>, k: nat, init: Seq<Operand>)
    requires
        k <= b.len(),
    ensures
        steps_from(root, a + b, k, init) == steps_from(root, b, k, init),
    decreases k,
{
    if k > 0 {
        lemma_steps_suffix(root, a, b, (k - 1) as nat, init);
        assert((a + b)[(a + b).len() - k] == b[b.len() - k]);
    }
}

/// The same outcome with `below` put under the stack it leaves.
pub open spec fn under(o: Outcome<Seq<Operand>>, below: Seq<Operand>) -> Outcome<Seq<Operand>> {
    match o {
        Outcome::Done(t) => Outcome::Done(below + t),
        other => other,
    }
}

/// From a stack of any depth, the depth of the evaluator's stack is the
/// one that `depth_after` counts.
proof fn lemma_stack_depth_from(root: JsonValue, expr: Seq<Op>, k: nat, s: Seq<Operand>)
    requires
        k <= expr.len(),
        steps_from(root, expr, k, s) is Done,
    ensures
        depth_after(op_views(expr), k, s.len() as int) == Some(
            steps_from(root, expr, k, s)->Done_0.len() as int,
        ),
    decreases k,
{
    if k > 0 {
        lemma_stack_depth_from(root, expr, (k - 1) as nat, s);
        let op = expr[expr.len() - k];
        assert(op_views(expr)[expr.len() - k] == op@);
        assert(view_arity(op@) == arity(op));
    }
}

/// An evaluation whose operators never reach below the stack it starts
/// from ends in the same way, errors included, with more operands under
/// that stack.
proof fn lemma_steps_frame_shaped(
    root: JsonValue,
    expr: Seq<Op>,
    k: nat,
    below: Seq<Operand>,
    s: Seq<Operand>,
)
    requires
        k <= expr.len(),
        depth_after(op_views(expr), k, s.len() as int) is Some,
    ensures
        steps_from(root, expr, k, below + s) == under(steps_from(root, expr, k, s), below),
    decreases k,
{
    if k > 0 {
        lemma_steps_frame_shaped(root, expr, (k - 1) as nat, below, s);
        let op = expr[expr.len() - k];
        if let Outcome::Done(u) = steps_from(root, expr, (k - 1) as nat, s) {
            lemma_stack_depth_from(root, expr, (k - 1) as nat, s);
            assert(op_views(expr)[expr.len() - k] == op@);
            assert(view_arity(op@) == arity(op));
            lemma_step_frame(root, op, below, u);
        }
    }
}

proof fn lemma_right_then_operator(root: JsonValue, op: Op, right_expr: Seq<Op>, l: Operand)
    requires
        well_shaped(op_views(right_expr)),
    ensures
        steps_from(root, seq![op] + right_expr, right_expr.len() + 1, seq![l]) == match eval_steps(
            root,
            right_expr,
            right_expr.len(),
        ) {
            Outcome::Done(sr) => steps_from(root, seq![op], 1, seq![l] + sr),
            Outcome::Failed(m) => Outcome::Failed(m),
            Outcome::Stuck => Outcome::Stuck,
        },
{
    lemma_steps_concat(root, seq![op], right_expr, 1, seq![l]);
    lemma_steps_frame_shaped(root, right_expr, right_expr.len(), seq![l], Seq::empty());
    assert(seq![l] + Seq::<Operand>::empty() =~= seq![l]);
}

proof fn lemma_operator_on_pair(root: JsonValue, op: Op, l: Operand, r: Operand)
    requires
        arity(op) == 2,
    ensures
        steps_from(root, seq![op], 1, seq![l, r]) == as_stack(apply_binary(root, op, l, r)),
{
    assert(steps_from(root, seq![op], 0, seq![l, r]) == Outcome::Done(seq![l, r]));
    assert(seq![op][0] == op);
    assert(steps_from(root, seq![op], 1, seq![l, r]) == step(root, op, seq![l, r]));
    assert(seq![l, r].drop_last().drop_last() =~= Seq::<Operand>::empty());
    assert(seq![l, r][0] == l);
    if let Outcome::Done(v) = apply_binary(root, op, l, r) {
        assert(Seq::<Operand>::empty().push(v) =~= seq![v]);
    }
}

proof fn lemma_after_left(root: JsonValue, op: Op, right_expr: Seq<Op>, l: Operand)
    requires
        arity(op) == 2,
        well_shaped(op_views(right_expr)),
    ensures
        steps_from(root, seq![op] + right_expr, right_expr.len() + 1, seq![l]) == match eval_steps(
            root,
            right_expr,
            right_expr.len(),
        ) {
            Outcome::Done(sr) => as_stack(apply_binary(root, op, l, sr[0])),
            Outcome::Failed(m) => Outcome::Failed(m),
            Outcome::Stuck => Outcome::Stuck,
        },
{
    lemma_right_then_operator(root, op, right_expr, l);
    if let Outcome::Done(sr) = eval_steps(root, right_expr, right_expr.len()) {
        lemma_stack_depth_from(root, right_expr, right_expr.len(), Seq::empty());
        let r = sr[0];
        assert(sr =~= seq![r]);
        assert(seq![l] + sr =~= seq![l, r]);
        lemma_operator_on_pair(root, op, l, r);
    }
}

/// A single result as the stack that holds just it.
spec fn as_stack(o: Outcome<Operand>) -> Outcome<Seq<Operand>> {
    match o {
        Outcome::Done(v) => Outcome::Done(seq![v]),
        Outcome::Failed(m) => Outcome::Failed(m),
        Outcome::Stuck => Outcome::Stuck,
    }
}

proof fn lemma_operator_value_resolves(root: JsonValue, op: Op, l: Operand, r: Operand)
    ensures
        apply_binary(root, op, l, r) matches Outcome::Done(v) ==> resolve(root, v)
            == Outcome::Done(v),
{
}

/// A binary operator followed by the expression of its right operand and
/// then that of its left operand, both well shaped, ends as follows: an
/// error (or giving up) of the left expression, which is evaluated first,
/// is the result; else one of the right expression; else the operator
/// applied to the two values, with its own error where it fails.
pub proof fn law_binary_composes_with_errors(
    root: JsonValue,
    op: Op,
    left_expr: Seq<Op>,
    right_expr: Seq<Op>,
)
    requires
        arity(op) == 2,
        well_shaped(op_views(left_expr)),
        well_shaped(op_views(right_expr)),
    ensures
        spec_run(root, seq![op] + right_expr + left_expr) == match eval_steps(
            root,
            left_expr,
            left_expr.len(),
        ) {
            Outcome::Done(sl) => match eval_steps(root, right_expr, right_expr.len()) {
                Outcome::Done(sr) => apply_binary(root, op, sl[0], sr[0]),
                Outcome::Failed(m) => Outcome::Failed(m),
                Outcome::Stuck => Outcome::Stuck,
            },
            Outcome::Failed(m) => Outcome::Failed(m),
            Outcome::Stuck => Outcome::Stuck,
        },
{
    let e = seq![op] + right_expr + left_expr;
    let head = seq![op] + right_expr;
    assert(e == head + left_expr);
    lemma_steps_concat(root, head, left_expr, head.len(), Seq::empty());
    if let Outcome::Done(sl) = eval_steps(root, left_expr, left_expr.len()) {
        lemma_stack_depth_from(root, left_expr, left_expr.len(), Seq::empty());
        let l = sl[0];
        assert(sl =~= seq![l]);
        lemma_after_left(root, op, right_expr, l);
        if let Outcome::Done(sr) = eval_steps(root, right_expr, right_expr.len()) {
            lemma_operator_value_resolves(root, op, l, sr[0]);
        }
    }
}

/// Negation followed by a well-shaped expression ends with the error (or
/// giving up) of that expression, else with the negation of its value.
pub proof fn law_not_composes_with_errors(root: JsonValue, operand_expr: Seq<Op>)
    requires
        well_shaped(op_views(operand_expr)),
    ensures
        spec_run(root, seq![Op::Not] + operand_expr) == match eval_steps(
            root,
            operand_expr,
            operand_expr.len(),
        ) {
            Outcome::Done(s) => apply_unary(root, s[0]),
            Outcome::Failed(m) => Outcome::Failed(m),
            Outcome::Stuck => Outcome::Stuck,
        },
{
    lemma_steps_concat(root, seq![Op::Not], operand_expr, 1, Seq::empty());
    if let Outcome::Done(s) = eval_steps(root, operand_expr, operand_expr.len()) {
        lemma_stack_depth_from(root, operand_expr, operand_expr.len(), Seq::empty());
        let x = s[0];
        assert(s =~= seq![x]);
        assert(steps_from(root, seq![Op::Not], 0, seq![x]) == Outcome::Done(seq![x]));
        assert(seq![Op::Not][0] == Op::Not);
        assert(steps_from(root, seq![Op::Not], 1, seq![x]) == step(root, Op::Not, seq![x]));
        assert(seq![x].drop_last() =~= Seq::<Operand>::empty());
        if let Outcome::Done(v) = apply_unary(root, x) {
            assert(Seq::<Operand>::empty().push(v) =~= seq![v]);
            assert(resolve(root, v) == Outcome::Done(v));
        }
    }
}

/// A binary operator followed by the expression of its right operand and
/// then that of its left operand evaluates to the operator applied to
/// the values of the two expressions: evaluation is compositional.
pub proof fn law_binary_composes(
    root: JsonValue,
    op: Op,
    left_expr: Seq<Op>,
    right_expr: Seq<Op>,
    l: Operand,
    r: Operand,
)
    requires
        arity(op) == 2,
        eval_steps(root, left_expr, left_expr.len()) == Outcome::<Seq<Operand>>::Done(seq![l]),
        eval_steps(root, right_expr, right_expr.len()) == Outcome::<Seq<Operand>>::Done(seq![r]),
    ensures
        spec_run(root, seq![op] + right_expr + left_expr) == apply_binary(root, op, l, r),
{
    let e = seq![op] + right_expr + left_expr;
    let head = seq![op] + right_expr;
    assert(e == head + left_expr);
    lemma_steps_concat(root, head, left_expr, head.len(), Seq::empty());
    lemma_steps_concat(root, seq![op], right_expr, 1, seq![l]);
    lemma_steps_frame(root, right_expr, right_expr.len(), seq![l], Seq::empty(), seq![r]);
    assert(seq![l] + Seq::<Operand>::empty() =~= seq![l]);
    assert(seq![l] + seq![r] =~= seq![l, r]);
    assert(steps_from(root, seq![op], 0, seq![l, r]) == Outcome::Done(seq![l, r]));
    assert(seq![op][0] == op);
    assert(steps_from(root, seq![op], 1, seq![l, r]) == step(root, op, seq![l, r]));
    assert(seq![l, r].drop_last().drop_last() =~= Seq::<Operand>::empty());
    if let Outcome::Done(v) = apply_binary(root, op, l, r) {
        assert(Seq::<Operand>::empty().push(v) =~= seq![v]);
        assert(resolve(root, v) == Outcome::Done(v));
    }
}

/// Negation followed by the expression of its operand evaluates to the
/// negation of the value of that expression.
pub proof fn law_not_composes(root: JsonValue, operand_expr: Seq<Op>, x: Operand)
    requires
        eval_steps(root, operand_expr, operand_expr.len()) == Outcome::<Seq<Operand>>::Done(
            seq![x],
        ),
    ensures
        spec_run(root, seq![Op::Not] + operand_expr) == apply_unary(root, x),
{
    lemma_steps_concat(root, seq![Op::Not], operand_expr, 1, Seq::empty());
    assert(steps_from(root, seq![Op::Not], 0, seq![x]) == Outcome::Done(seq![x]));
    assert(seq![Op::Not][0] == Op::Not);
    assert(steps_from(root, seq![Op::Not], 1, seq![x]) == step(root, Op::Not, seq![x]));
    assert(seq![x].drop_last() =~= Seq::<Operand>::empty());
    if let Outcome::Done(v) = apply_unary(root, x) {
        assert(Seq::<Operand>::empty().push(v) =~= seq![v]);
        assert(resolve(root, v) == Outcome::Done(v));
    }
}

/// An expression made of one operand evaluates to the value of that
/// operand.
pub proof fn law_single_operand(root: JsonValue, x: Operand)
    ensures
        spec_run(root, seq![Op::Operand(x)]) == resolve(root, x),
{
    assert(steps_from(root, seq![Op::Operand(x)], 0, Seq::empty()) == Outcome::Done(
        Seq::<Operand>::empty(),
    ));
    assert(seq![Op::Operand(x)][0] == Op::Operand(x));
    assert(steps_from(root, seq![Op::Operand(x)], 1, Seq::empty()) == step(
        root,
        Op::Operand(x),
        Seq::empty(),
    ));
    assert(Seq::<Operand>::empty().push(x) =~= seq![x]);
}

proof fn lemma_split_concat(p: Seq<char>, q: Seq<char>)
    ensures
        split_on(p + seq!['.'] + q, '.') == split_on(p, '.') + split_on(q, '.'),
    decreases q.len(),
{
    let s = p + seq!['.'] + q;
    if q.len() == 0 {
        assert(s.drop_last() =~= p);
        assert(split_on(p, '.').push(Seq::<char>::empty()) =~= split_on(p, '.') + seq![
            Seq::<char>::empty(),
        ]);
    } else {
        assert(s.drop_last() =~= p + seq!['.'] + q.drop_last());
        lemma_split_concat(p, q.drop_last());
        lemma_split_nonempty(q.drop_last(), '.');
        let left = split_on(p, '.');
        let right = split_on(q.drop_last(), '.');
        if q.last() == '.' {
            assert((left + right).push(Seq::<char>::empty()) =~= left + right.push(
                Seq::<char>::empty(),
            ));
        } else {
            assert((left + right).update(
                (left + right).len() - 1,
                (left + right).last().push(q.last()),
            ) =~= left + right.update(right.len() - 1, right.last().push(q.last())));
        }
    }
}

proof fn lemma_walk_prefix(root: JsonValue, k1: Seq<Seq<char>>, k2: Seq<Seq<char>>, k: nat)
    requires
        k <= k1.len(),
    ensures
        walk(root, k1 + k2, k) == walk(root, k1, k),
    decreases k,
{
    if k > 0 {
        lemma_walk_prefix(root, k1, k2, (k - 1) as nat);
    }
}

proof fn lemma_walk_concat(root: JsonValue, k1: Seq<Seq<char>>, k2: Seq<Seq<char>>, j: nat)
    requires
        j <= k2.len(),
    ensures
        walk(root, k1 + k2, k1.len() + j) == match walk(root, k1, k1.len()) {
            Some(v) => walk(v, k2, j),
            None => None,
        },
    decreases j,
{
    if j == 0 {
        lemma_walk_prefix(root, k1, k2, k1.len());
        if let Some(v) = walk(root, k1, k1.len()) {
            assert(walk(v, k2, 0) == Some(v));
        }
    } else {
        lemma_walk_concat(root, k1, k2, (j - 1) as nat);
        assert((k1 + k2)[k1.len() + j - 1] == k2[j - 1]);
    }
}

/// Looking up `p.q` is looking up `q` in the value that `p` stands for.
pub proof fn law_lookup_composes(root: JsonValue, p: Seq<char>, q: Seq<char>)
    ensures
        lookup(root, p + seq!['.'] + q) == match lookup(root, p) {
            Some(v) => lookup(v, q),
            None => None,
        },
{
    lemma_split_concat(p, q);
    lemma_walk_concat(root, name_keys(p), name_keys(q), name_keys(q).len());
}

/// Every operator that gives a value gives the number 0 or 1.
pub proof fn law_operators_give_zero_or_one(op: Op, left: Operand, right: Operand)
    ensures
        binary_spec(op, left, right) matches Some(v) ==> (v == Operand::Number(0) || v
            == Operand::Number(1)),
        spec_not(left) matches Some(v) ==> (v == Operand::Number(0) || v == Operand::Number(1)),
{
}

proof fn lemma_split_without_separator(s: Seq<char>)
    requires
        !s.contains('.'),
    ensures
        split_on(s, '.') == seq![s],
    decreases s.len(),
{
    if s.len() > 0 {
        assert(!s.drop_last().contains('.')) by {
            if s.drop_last().contains('.') {
                let i = choose|i: int| 0 <= i < s.drop_last().len() && s.drop_last()[i] == '.';
                assert(s[i] == '.');
            }
        }
        lemma_split_without_separator(s.drop_last());
        assert(s.last() != '.') by {
            assert(s[s.len() - 1] == s.last());
        }
        assert(s.drop_last().push(s.last()) =~= s);
        assert(seq![s.drop_last()].update(0, s) =~= seq![s]);
    } else {
        assert(s =~= Seq::<char>::empty());
    }
}

/// A name without a dot stands for the member of the context with that
/// key.
pub proof fn law_plain_name_is_member(root: JsonValue, name: Seq<char>)
    requires
        !name.contains('.'),
    ensures
        lookup(root, name) == json_get(root, name),
{
    lemma_split_without_separator(name);
    assert(name_keys(name) == seq![name]);
    assert(walk(root, seq![name], 0) == Some(root));
}

/// `a` comes before `b` and first differs from it at position `i`
/// (where `a` may end).
spec fn before_at(a: Seq<char>, b: Seq<char>, i: int) -> bool {
    &&& agree_below(a, b, i)
    &&& 0 <= i <= a.len()
    &&& i < b.len()
    &&& (i == a.len() || a[i] < b[i])
}

proof fn lemma_before_witness(a: Seq<char>, b: Seq<char>) -> (i: int)
    requires
        seq_lt(a, b),
    ensures
        before_at(a, b, i),
{
    if a.len() < b.len() && agree_below(a, b, a.len() as int) {
        a.len() as int
    } else {
        choose|i: int| 0 <= i < a.len() && i < b.len() && agree_below(a, b, i) && #[trigger] a[i] < b[i]
    }
}

/// The lexicographic order of literals is transitive.
pub proof fn law_literal_order_transitive(a: Seq<char>, b: Seq<char>, c: Seq<char>)
    requires
        seq_lt(a, b),
        seq_lt(b, c),
    ensures
        seq_lt(a, c),
{
    let i = lemma_before_witness(a, b);
    let j = lemma_before_witness(b, c);
    let k = if i < j {
        i
    } else {
        j
    };
    assert(agree_below(a, c, k)) by {
        assert forall|m: int| 0 <= m < k implies a[m] == c[m] by {
            assert(a[m] == b[m]);
            assert(b[m] == c[m]);
        }
    }
    if i < j {
        if i == a.len() {
            assert(seq_lt(a, c));
        } else {
            assert(b[i] == c[i]);
            assert(a[i] < c[i]);
            assert(seq_lt(a, c));
        }
    } else if j < i {
        assert(a[j] == b[j]);
        assert(a[j] < c[j]);
        assert(seq_lt(a, c));
    } else {
        if i == a.len() {
            assert(seq_lt(a, c));
        } else {
            assert(a[i] < c[i]);
            assert(seq_lt(a, c));
        }
    }
}

} // verus!
