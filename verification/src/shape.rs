//! The stack discipline of expressions: how deep the evaluator's stack
//! is after each element, and the laws that parsed conditions keep it.

use crate::eval::eval_steps;
use crate::expr::{arity, op_views, Op, OpView};
use crate::json::JsonValue;
use crate::lex::TokenView;
use crate::parse::{binary_level, parse_at, parse_expr, parse_tail};
use vstd::prelude::*;

verus! {

/// How many operands an element takes.
pub open spec fn view_arity(op: OpView) -> nat {
    match op {
        OpView::Operand(_) => 0,
        OpView::Not => 1,
        _ => 2,
    }
}

/// The depth of the stack after the last `k` elements of `ops` have
/// acted on a stack of depth `d`; `None` where an operator finds fewer
/// operands than it takes.
pub open spec fn depth_after(ops: Seq<OpView>, k: nat, d: int) -> Option<int>
    decreases k,
{
    if k == 0 {
        Some(d)
    } else {
        match depth_after(ops, (k - 1) as nat, d) {
            Some(x) => {
                let op = ops[ops.len() - k];
                if x < view_arity(op) {
                    None
                } else {
                    Some(x - view_arity(op) + 1)
                }
            },
            None => None,
        }
    }
}

/// Every operator finds its operands and exactly one value is left.
pub open spec fn well_shaped(ops: Seq<OpView>) -> bool {
    depth_after(ops, ops.len(), 0) == Some(1int)
}

proof fn lemma_depth_frame(ops: Seq<OpView>, k: nat, d: int, c: int)
    requires
        depth_after(ops, k, d) is Some,
        c >= 0,
    ensures
        depth_after(ops, k, d + c) == Some(depth_after(ops, k, d)->0 + c),
    decreases k,
{
    if k > 0 {
        lemma_depth_frame(ops, (k - 1) as nat, d, c);
    }
}

proof fn lemma_depth_suffix(a: Seq<OpView>, b: Seq<OpView>, k: nat, d: int)
    requires
        k <= b.len(),
    ensures
        depth_after(a + b, k, d) == depth_after(b, k, d),
    decreases k,
{
    if k > 0 {
        lemma_depth_suffix(a, b, (k - 1) as nat, d);
        assert((a + b)[(a + b).len() - k] == b[b.len() - k]);
    }
}

proof fn lemma_depth_concat(a: Seq<OpView>, b: Seq<OpView>, j: nat, d: int)
    requires
        j <= a.len(),
    ensures
        depth_after(a + b, b.len() + j, d) == match depth_after(b, b.len(), d) {
            Some(x) => depth_after(a, j, x),
            None => None,
        },
    decreases j,
{
    if j == 0 {
        lemma_depth_suffix(a, b, b.len(), d);
    } else {
        lemma_depth_concat(a, b, (j - 1) as nat, d);
        assert((a + b)[(a + b).len() - (b.len() + j)] == a[a.len() - j]);
    }
}

proof fn lemma_one_element(op: OpView, d: int)
    ensures
        depth_after(seq![op], 1, d) == if d < view_arity(op) {
            None::<int>
        } else {
            Some(d - view_arity(op) + 1)
        },
{
    assert(seq![op][0] == op);
    assert(depth_after(seq![op], 0, d) == Some(d));
}

proof fn lemma_not_shaped(e: Seq<OpView>)
    requires
        well_shaped(e),
    ensures
        well_shaped(seq![OpView::Not] + e),
{
    lemma_depth_concat(seq![OpView::Not], e, 1, 0);
    lemma_one_element(OpView::Not, 1);
}

proof fn lemma_binary_shaped(op: OpView, r: Seq<OpView>, acc: Seq<OpView>)
    requires
        well_shaped(r),
        well_shaped(acc),
        view_arity(op) == 2,
    ensures
        well_shaped(seq![op] + r + acc),
{
    let head = seq![op] + r;
    lemma_depth_concat(head, acc, head.len(), 0);
    lemma_depth_concat(seq![op], r, 1, 1);
    lemma_depth_frame(r, r.len(), 0, 1);
    lemma_one_element(op, 2);
}

proof fn lemma_parse_at_shaped(toks: Seq<TokenView>, level: nat, pos: int)
    requires
        parse_at(toks, level, pos) is Some,
    ensures
        well_shaped((parse_at(toks, level, pos)->0).0),
    decreases toks.len() - pos, 4 - level, 1nat,
{
    if level == 3 {
        match toks[pos] {
            TokenView::Operator(OpView::Not) => {
                lemma_parse_at_shaped(toks, 3, pos + 1);
                lemma_not_shaped((parse_at(toks, 3, pos + 1)->0).0);
            },
            TokenView::Operand(x) => {
                lemma_one_element(OpView::Operand(x), 0);
            },
            TokenView::Open => {
                lemma_parse_at_shaped(toks, 0, pos + 1);
            },
            _ => {},
        }
    } else {
        lemma_parse_at_shaped(toks, level + 1, pos);
        let (e, p) = parse_at(toks, level + 1, pos)->0;
        lemma_parse_tail_shaped(toks, level, e, p);
    }
}

proof fn lemma_parse_tail_shaped(toks: Seq<TokenView>, level: nat, acc: Seq<OpView>, p: int)
    requires
        parse_tail(toks, level, acc, p) is Some,
        well_shaped(acc),
    ensures
        well_shaped((parse_tail(toks, level, acc, p)->0).0),
    decreases toks.len() - p, 4 - level, 0nat,
{
    if 0 <= p < toks.len() && level < 3 {
        if let Some((l, op)) = binary_level(toks[p]) {
            if l == level {
                lemma_parse_at_shaped(toks, level + 1, p + 1);
                let (r, q) = parse_at(toks, level + 1, p + 1)->0;
                lemma_binary_shaped(op, r, acc);
                lemma_parse_tail_shaped(toks, level, seq![op] + r + acc, q);
            }
        }
    }
}

/// A parsed condition is well shaped: the evaluator finds the operands
/// of every operator and is left with exactly one value.
pub proof fn law_parsed_is_well_shaped(toks: Seq<TokenView>)
    requires
        parse_expr(toks) is Some,
    ensures
        well_shaped(parse_expr(toks)->0),
{
    lemma_parse_at_shaped(toks, 0, 0);
}

proof fn lemma_stack_tracks_depth(root: JsonValue, ops: Seq<Op>, k: nat)
    requires
        k <= ops.len(),
        eval_steps(root, ops, k) is Done,
    ensures
        depth_after(op_views(ops), k, 0) == Some(eval_steps(root, ops, k)->Done_0.len() as int),
    decreases k,
{
    if k > 0 {
        lemma_stack_tracks_depth(root, ops, (k - 1) as nat);
        let op = ops[ops.len() - k];
        assert(op_views(ops)[ops.len() - k] == op@);
        assert(view_arity(op@) == arity(op));
    }
}

proof fn lemma_depth_stays_missing(ops: Seq<OpView>, k: nat, m: nat)
    requires
        depth_after(ops, k, 0) is None,
        k <= m,
    ensures
        depth_after(ops, m, 0) is None,
    decreases m - k,
{
    if k < m {
        lemma_depth_stays_missing(ops, k, (m - 1) as nat);
    }
}

/// On a well-shaped expression, every operator that the evaluator
/// reaches finds as many operands as it takes, and an evaluation that
/// gets through every element is left with exactly one value.
pub proof fn law_well_shaped_runs_clean(root: JsonValue, ops: Seq<Op>)
    requires
        well_shaped(op_views(ops)),
    ensures
        forall|k: nat|
            k < ops.len() && #[trigger] eval_steps(root, ops, k) is Done ==> eval_steps(
                root,
                ops,
                k,
            )->Done_0.len() >= arity(ops[ops.len() - 1 - k]),
        eval_steps(root, ops, ops.len()) is Done ==> eval_steps(root, ops, ops.len())->Done_0.len()
            == 1,
{
    let v = op_views(ops);
    assert forall|k: nat|
        k < ops.len() && #[trigger] eval_steps(root, ops, k) is Done implies eval_steps(
            root,
            ops,
            k,
        )->Done_0.len() >= arity(ops[ops.len() - 1 - k]) by {
        lemma_stack_tracks_depth(root, ops, k);
        if depth_after(v, (k + 1) as nat, 0) is None {
            lemma_depth_stays_missing(v, (k + 1) as nat, ops.len());
        }
        assert(v[v.len() - (k + 1)] == ops[ops.len() - 1 - k]@);
    }
    if eval_steps(root, ops, ops.len()) is Done {
        lemma_stack_tracks_depth(root, ops, ops.len());
    }
}

/// The tokens `toks` inside a pair of parentheses.
pub open spec fn parenthesized(toks: Seq<TokenView>) -> Seq<TokenView> {
    seq![TokenView::Open] + toks + seq![TokenView::Close]
}

proof fn lemma_parse_at_inside(toks: Seq<TokenView>, level: nat, pos: int)
    requires
        parse_at(toks, level, pos) is Some,
    ensures
        parse_at(parenthesized(toks), level, pos + 1) == match parse_at(toks, level, pos) {
            Some((e, p)) => Some((e, p + 1)),
            None => None,
        },
    decreases toks.len() - pos, 4 - level, 1nat,
{
    let ext = parenthesized(toks);
    assert(ext[pos + 1] == toks[pos]);
    if level == 3 {
        match toks[pos] {
            TokenView::Operator(OpView::Not) => {
                lemma_parse_at_inside(toks, 3, pos + 1);
            },
            TokenView::Operand(x) => {},
            TokenView::Open => {
                lemma_parse_at_inside(toks, 0, pos + 1);
                let p = (parse_at(toks, 0, pos + 1)->0).1;
                assert(ext[p + 1] == toks[p]);
            },
            _ => {},
        }
    } else {
        lemma_parse_at_inside(toks, level + 1, pos);
        let (e, p) = parse_at(toks, level + 1, pos)->0;
        lemma_parse_tail_inside(toks, level, e, p);
    }
}

proof fn lemma_parse_tail_inside(toks: Seq<TokenView>, level: nat, acc: Seq<OpView>, p: int)
    requires
        parse_tail(toks, level, acc, p) is Some,
        0 <= p <= toks.len(),
    ensures
        parse_tail(parenthesized(toks), level, acc, p + 1) == match parse_tail(
            toks,
            level,
            acc,
            p,
        ) {
            Some((e, q)) => Some((e, q + 1)),
            None => None,
        },
    decreases toks.len() - p, 4 - level, 0nat,
{
    let ext = parenthesized(toks);
    if p == toks.len() {
        assert(ext[p + 1] == TokenView::Close);
    } else if level < 3 {
        assert(ext[p + 1] == toks[p]);
        if let Some((l, op)) = binary_level(toks[p]) {
            if l == level {
                lemma_parse_at_inside(toks, level + 1, p + 1);
                let (r, q) = parse_at(toks, level + 1, p + 1)->0;
                lemma_parse_tail_inside(toks, level, seq![op] + r + acc, q);
            }
        }
    }
}

/// Putting a whole condition in parentheses does not change how it is
/// evaluated.
pub proof fn law_parentheses_keep_meaning(toks: Seq<TokenView>)
    requires
        parse_expr(toks) is Some,
    ensures
        parse_expr(parenthesized(toks)) == parse_expr(toks),
{
    let ext = parenthesized(toks);
    lemma_parse_at_inside(toks, 0, 0);
    let (e, p) = parse_at(toks, 0, 0)->0;
    assert(ext[0] == TokenView::Open);
    assert(ext[p + 1] == TokenView::Close);
    assert(parse_at(ext, 3, 0) == Some((e, p + 2)));
    assert(parse_tail(ext, 2, e, p + 2) == Some((e, p + 2)));
    assert(parse_at(ext, 2, 0) == Some((e, p + 2)));
    assert(parse_tail(ext, 1, e, p + 2) == Some((e, p + 2)));
    assert(parse_at(ext, 1, 0) == Some((e, p + 2)));
    assert(parse_tail(ext, 0, e, p + 2) == Some((e, p + 2)));
    assert(parse_at(ext, 0, 0) == Some((e, p + 2)));
}

} // verus!
