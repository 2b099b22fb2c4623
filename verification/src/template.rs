//! Conditions written in a template as `<% ... %>`.

use crate::expr::{op_views, Eval};
use crate::lex::{lex, string_of, token_views, tokenize, Token, TokenView};
use crate::parse::{parse_error_text, parse_expr, parse_tokens};
use crate::text::chars_of;
use vstd::prelude::*;

verus! {

/// A condition as written: its tokens in order.
#[derive(Clone, Debug, PartialEq)]
pub struct Expr {
    pub tokens: Vec<Token>,
}

/// The text between `<%` and `%>` of a template that is exactly one
/// such block.
pub open spec fn template_body(s: Seq<char>) -> Option<Seq<char>> {
    if s.len() >= 4 && s[0] == '<' && s[1] == '%' && s[s.len() - 2] == '%' && s[s.len() - 1]
        == '>' {
        Some(s.subrange(2, s.len() - 2))
    } else {
        None
    }
}

/// The tokens of the block of a template.
pub open spec fn template_tokens(s: Seq<char>) -> Option<Seq<TokenView>> {
    match template_body(s) {
        Some(body) => lex(body),
        None => None,
    }
}

/// The condition of a template `<% ... %>`; an error where the template
/// is not one such block, or its text is not made of tokens.
pub fn parse_template(s: &str) -> (r: Result<Expr, String>)
    ensures
        match template_tokens(s@) {
            Some(ts) => r matches Ok(e) && token_views(e.tokens@) == ts,
            None => r matches Err(m) && m@ == if template_body(s@) is None {
                "not a template block"@
            } else {
                "unknown token"@
            },
        },
{
    let chars = chars_of(s);
    let n = chars.len();
    if n >= 4 && chars[0] == '<' && chars[1] == '%' && chars[n - 2] == '%' && chars[n - 1] == '>' {
        let body = string_of(&chars, 2, n - 2);
        match tokenize(body.as_str()) {
            Ok(tokens) => Ok(Expr { tokens }),
            Err(e) => Err(e),
        }
    } else {
        Err(String::from_str("not a template block"))
    }
}

/// The condition of a template `<% ... %>`.
pub fn get_expr<'a>(s: &'a str) -> (e: Expr)
    requires
        template_tokens(s@) is Some,
    ensures
        Some(token_views(e.tokens@)) == template_tokens(s@),
{
    match parse_template(s) {
        Ok(e) => e,
        Err(_) => {
            proof {
                assert(false);
            }
            Expr { tokens: Vec::new() }
        },
    }
}

impl Eval {
    /// The evaluator of a condition; an error where its tokens do not
    /// form exactly one expression.
    pub fn new(expr: Expr) -> (r: Result<Eval, String>)
        ensures
            match parse_expr(token_views(expr.tokens@)) {
                Some(e) => r matches Ok(ev) && op_views(ev.expr@) == e,
                None => r matches Err(m) && m@ == parse_error_text(token_views(expr.tokens@)),
            },
    {
        match parse_tokens(&expr.tokens) {
            Ok(ops) => Ok(Eval { expr: ops }),
            Err(e) => Err(e),
        }
    }
}

} // verus!
