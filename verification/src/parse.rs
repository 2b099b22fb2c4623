//! From the tokens of a condition, as written, to the order in which the
//! evaluator takes them.  `||` binds loosest, then `&&`, then the
//! comparisons, then `!`; binary operators group to the left, and
//! parentheses group explicitly.

use crate::expr::{op_views, Op, OpView};
use crate::lex::{token_views, Token, TokenView};
use vstd::prelude::*;

verus! {

/// The precedence level of a binary operator token and its operator:
/// `||` is 0, `&&` is 1, the comparisons are 2.
pub open spec fn binary_level(t: TokenView) -> Option<(nat, OpView)> {
    match t {
        TokenView::Operator(op) => match op {
            OpView::Or => Some((0nat, op)),
            OpView::And => Some((1nat, op)),
            OpView::Equal | OpView::NotEqual | OpView::Less | OpView::LessEq | OpView::Greater
            | OpView::GreaterEq => Some((2nat, op)),
            _ => None,
        },
        _ => None,
    }
}

/// The expression of precedence `level` that starts at token `pos`, in
/// evaluation order, and the position after it; `None` where no such
/// expression starts there.  Level 3 is a negation, an operand or a
/// parenthesized expression.
pub open spec fn parse_at(toks: Seq<TokenView>, level: nat, pos: int) -> Option<(Seq<OpView>, int)>
    decreases toks.len() - pos, 4 - level, 1nat,
{
    if pos < 0 || pos >= toks.len() || level > 3 {
        None
    } else if level == 3 {
        match toks[pos] {
            TokenView::Operator(OpView::Not) => match parse_at(toks, 3, pos + 1) {
                Some((e, p)) => Some((seq![OpView::Not] + e, p)),
                None => None,
            },
            TokenView::Operand(x) => Some((seq![OpView::Operand(x)], pos + 1)),
            TokenView::Open => match parse_at(toks, 0, pos + 1) {
                Some((e, p)) => if 0 <= p < toks.len() && toks[p] is Close {
                    Some((e, p + 1))
                } else {
                    None
                },
                None => None,
            },
            _ => None,
        }
    } else {
        match parse_at(toks, level + 1, pos) {
            Some((e, p)) => if pos < p <= toks.len() {
                parse_tail(toks, level, e, p)
            } else {
                None
            },
            None => None,
        }
    }
}

/// After an expression `acc` of precedence `level` that ends before token
/// `p`: each further operator of that level and the operand after it
/// extend `acc` to the left-grouped combination.
pub open spec fn parse_tail(toks: Seq<TokenView>, level: nat, acc: Seq<OpView>, p: int) -> Option<
    (Seq<OpView>, int),
>
    decreases toks.len() - p, 4 - level, 0nat,
{
    if 0 <= p < toks.len() && level < 3 {
        match binary_level(toks[p]) {
            Some((l, op)) => if l == level {
                match parse_at(toks, level + 1, p + 1) {
                    Some((r, q)) => if p < q <= toks.len() {
                        parse_tail(toks, level, seq![op] + r + acc, q)
                    } else {
                        None
                    },
                    None => None,
                }
            } else {
                Some((acc, p))
            },
            None => Some((acc, p)),
        }
    } else {
        Some((acc, p))
    }
}

/// The whole token sequence as one expression, in evaluation order.
pub open spec fn parse_expr(toks: Seq<TokenView>) -> Option<Seq<OpView>> {
    match parse_at(toks, 0, 0) {
        Some((e, p)) => if p == toks.len() {
            Some(e)
        } else {
            None
        },
        None => None,
    }
}

fn binary_level_exec(t: &Token) -> (r: Option<(usize, Op)>)
    ensures
        match binary_level(t@) {
            Some((l, op)) => r matches Some((m, o)) && m == l && o@ == op,
            None => r is None,
        },
{
    match t {
        Token::Operator(op) => match op {
            Op::Or => Some((0, Op::Or)),
            Op::And => Some((1, Op::And)),
            Op::Equal => Some((2, Op::Equal)),
            Op::NotEqual => Some((2, Op::NotEqual)),
            Op::Less => Some((2, Op::Less)),
            Op::LessEq => Some((2, Op::LessEq)),
            Op::Greater => Some((2, Op::Greater)),
            Op::GreaterEq => Some((2, Op::GreaterEq)),
            _ => None,
        },
        _ => None,
    }
}

/// `[op] + right + left`.
fn combine(op: Op, right: Vec<Op>, left: Vec<Op>) -> (e: Vec<Op>)
    ensures
        op_views(e@) == seq![op@] + op_views(right@) + op_views(left@),
{
    let mut e = Vec::new();
    e.push(op);
    let mut r = right;
    let mut l = left;
    let ghost rv = r@;
    let ghost lv = l@;
    e.append(&mut r);
    e.append(&mut l);
    assert(op_views(e@) =~= seq![op@] + op_views(rv) + op_views(lv));
    e
}

/// Parses the expression of precedence `level` at position `pos`.
fn parse_at_exec(toks: &Vec<Token>, level: usize, pos: usize) -> (r: Option<(Vec<Op>, usize)>)
    requires
        level <= 3,
    ensures
        match parse_at(token_views(toks@), level as nat, pos as int) {
            Some((e, p)) => r matches Some((ops, q)) && op_views(ops@) == e && q == p,
            None => r is None,
        },
    decreases toks@.len() - pos, 4 - level, 1nat,
{
    let ghost tv = token_views(toks@);
    if pos >= toks.len() {
        return None;
    }
    assert(tv[pos as int] == toks@[pos as int]@);
    if level == 3 {
        match &toks[pos] {
            Token::Operator(Op::Not) => match parse_at_exec(toks, 3, pos + 1) {
                Some((e, p)) => {
                    let mut out = Vec::new();
                    out.push(Op::Not);
                    let mut rest = e;
                    let ghost ev = rest@;
                    out.append(&mut rest);
                    assert(op_views(out@) =~= seq![OpView::Not] + op_views(ev));
                    Some((out, p))
                },
                None => None,
            },
            Token::Operand(x) => {
                let mut out = Vec::new();
                out.push(Op::Operand(x.duplicate()));
                assert(op_views(out@) =~= seq![OpView::Operand(x@)]);
                Some((out, pos + 1))
            },
            Token::Open => match parse_at_exec(toks, 0, pos + 1) {
                Some((e, p)) => {
                    if p < toks.len() {
                        assert(tv[p as int] == toks@[p as int]@);
                        match &toks[p] {
                            Token::Close => Some((e, p + 1)),
                            _ => None,
                        }
                    } else {
                        None
                    }
                },
                None => None,
            },
            _ => None,
        }
    } else {
        match parse_at_exec(toks, level + 1, pos) {
            Some((e, p)) => {
                if pos < p && p <= toks.len() {
                    parse_tail_exec(toks, level, e, p)
                } else {
                    None
                }
            },
            None => None,
        }
    }
}

/// Extends `acc` by the operators of precedence `level` from position `p`.
fn parse_tail_exec(toks: &Vec<Token>, level: usize, acc: Vec<Op>, p: usize) -> (r: Option<
    (Vec<Op>, usize),
>)
    requires
        level < 3,
        p <= toks@.len(),
    ensures
        match parse_tail(token_views(toks@), level as nat, op_views(acc@), p as int) {
            Some((e, q)) => r matches Some((ops, m)) && op_views(ops@) == e && m == q,
            None => r is None,
        },
    decreases toks@.len() - p, 4 - level, 0nat,
{
    let ghost tv = token_views(toks@);
    if p >= toks.len() {
        return Some((acc, p));
    }
    assert(tv[p as int] == toks@[p as int]@);
    match binary_level_exec(&toks[p]) {
        Some((l, op)) => {
            if l == level {
                match parse_at_exec(toks, level + 1, p + 1) {
                    Some((r, q)) => {
                        if p < q && q <= toks.len() {
                            let e = combine(op, r, acc);
                            parse_tail_exec(toks, level, e, q)
                        } else {
                            None
                        }
                    },
                    None => None,
                }
            } else {
                Some((acc, p))
            }
        },
        None => Some((acc, p)),
    }
}

/// The error of a token sequence that is not one expression: none starts
/// at its first token, or tokens are left after it.
pub open spec fn parse_error_text(toks: Seq<TokenView>) -> Seq<char> {
    if parse_at(toks, 0, 0) is None {
        "incomplete expression"@
    } else {
        "unexpected token"@
    }
}

/// The whole token sequence as one expression, in evaluation order; an
/// error where the tokens do not form exactly one expression.
pub fn parse_tokens(toks: &Vec<Token>) -> (r: Result<Vec<Op>, String>)
    ensures
        match parse_expr(token_views(toks@)) {
            Some(e) => r matches Ok(ops) && op_views(ops@) == e,
            None => r matches Err(m) && m@ == parse_error_text(token_views(toks@)),
        },
{
    match parse_at_exec(toks, 0, 0) {
        Some((e, p)) => {
            if p == toks.len() {
                Ok(e)
            } else {
                Err(String::from_str("unexpected token"))
            }
        },
        None => Err(String::from_str("incomplete expression")),
    }
}

} // verus!
