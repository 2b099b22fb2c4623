//! The tokens of a condition: operators, parentheses, string literals in
//! double quotes, decimal integers and dotted names, with blanks between
//! them.

use crate::expr::{Op, OpView};
use crate::operand::{Object, Operand, OperandView};
use crate::text::{chars_of, push_char};
use vstd::prelude::*;

verus! {

/// A token of a condition.
#[derive(Clone, Debug, PartialEq)]
pub enum Token {
    Operand(Operand),
    Operator(Op),
    Open,
    Close,
}

/// A token with its strings taken as character sequences.
pub enum TokenView {
    Operand(OperandView),
    Operator(OpView),
    Open,
    Close,
}

impl View for Token {
    type V = TokenView;

    open spec fn view(&self) -> TokenView {
        match self {
            Token::Operand(x) => TokenView::Operand(x@),
            Token::Operator(o) => TokenView::Operator(o@),
            Token::Open => TokenView::Open,
            Token::Close => TokenView::Close,
        }
    }
}

/// The views of a sequence of tokens.
pub open spec fn token_views(tokens: Seq<Token>) -> Seq<TokenView> {
    tokens.map_values(|t: Token| t@)
}

/// A blank between tokens.
pub open spec fn is_space(c: char) -> bool {
    c == ' ' || c == '\t' || c == '\n' || c == '\r'
}

/// The kinds of characters that make up longer tokens.
pub enum CharClass {
    /// A decimal digit.
    Digit,
    /// A letter, digit, `_` or `.`: the characters of a name after its first.
    NameChar,
    /// Any character but `"`: the characters inside a literal.
    TextChar,
}

/// The value of a decimal digit.
pub open spec fn digit_value(c: char) -> int {
    if c == '1' {
        1
    } else if c == '2' {
        2
    } else if c == '3' {
        3
    } else if c == '4' {
        4
    } else if c == '5' {
        5
    } else if c == '6' {
        6
    } else if c == '7' {
        7
    } else if c == '8' {
        8
    } else if c == '9' {
        9
    } else {
        0
    }
}

/// A decimal digit.
pub open spec fn is_digit(c: char) -> bool {
    '0' <= c && c <= '9'
}

/// A character that can start a name.
pub open spec fn is_name_start(c: char) -> bool {
    ('a' <= c && c <= 'z') || ('A' <= c && c <= 'Z') || c == '_'
}

/// Whether `c` is of the class.
pub open spec fn in_class(class: CharClass, c: char) -> bool {
    match class {
        CharClass::Digit => is_digit(c),
        CharClass::NameChar => is_name_start(c) || is_digit(c) || c == '.',
        CharClass::TextChar => c != '"',
    }
}

/// How many characters at the start of `s` are of the class.
pub open spec fn class_run(class: CharClass, s: Seq<char>) -> nat
    decreases s.len(),
{
    if s.len() > 0 && in_class(class, s[0]) {
        1 + class_run(class, s.drop_first())
    } else {
        0
    }
}

/// The number that a sequence of decimal digits writes.
pub open spec fn digits_value(s: Seq<char>) -> int
    decreases s.len(),
{
    if s.len() == 0 {
        0
    } else {
        10 * digits_value(s.drop_last()) + digit_value(s.last())
    }
}

/// The token at the start of `s` and its length, where `s` does not start
/// with a blank: the two-character operators are taken before the
/// one-character ones, a number or a name runs as far as it can, a
/// literal up to the next `"`.  `None` where no token starts.
pub open spec fn first_token(s: Seq<char>) -> Option<(TokenView, nat)> {
    let c = s[0];
    let second = |d: char| s.len() >= 2 && s[1] == d;
    if c == '&' {
        if second('&') {
            Some((TokenView::Operator(OpView::And), 2))
        } else {
            None
        }
    } else if c == '|' {
        if second('|') {
            Some((TokenView::Operator(OpView::Or), 2))
        } else {
            None
        }
    } else if c == '=' {
        if second('=') {
            Some((TokenView::Operator(OpView::Equal), 2))
        } else {
            None
        }
    } else if c == '!' {
        if second('=') {
            Some((TokenView::Operator(OpView::NotEqual), 2))
        } else {
            Some((TokenView::Operator(OpView::Not), 1))
        }
    } else if c == '<' {
        if second('=') {
            Some((TokenView::Operator(OpView::LessEq), 2))
        } else {
            Some((TokenView::Operator(OpView::Less), 1))
        }
    } else if c == '>' {
        if second('=') {
            Some((TokenView::Operator(OpView::GreaterEq), 2))
        } else {
            Some((TokenView::Operator(OpView::Greater), 1))
        }
    } else if c == '(' {
        Some((TokenView::Open, 1))
    } else if c == ')' {
        Some((TokenView::Close, 1))
    } else if c == '"' {
        let m = class_run(CharClass::TextChar, s.drop_first());
        if m + 1 < s.len() {
            Some(
                (
                    TokenView::Operand(OperandView::Literal(s.subrange(1, (m + 1) as int))),
                    (m + 2) as nat,
                ),
            )
        } else {
            None
        }
    } else if is_digit(c) {
        let m = class_run(CharClass::Digit, s);
        let v = digits_value(s.take(m as int));
        if v <= i64::MAX {
            Some((TokenView::Operand(OperandView::Number(v as i64)), m))
        } else {
            None
        }
    } else if is_name_start(c) {
        let m = class_run(CharClass::NameChar, s);
        Some((TokenView::Operand(OperandView::Object(s.take(m as int))), m))
    } else {
        None
    }
}

/// The tokens of `s`, or `None` where some part of it is no token.
pub open spec fn lex(s: Seq<char>) -> Option<Seq<TokenView>>
    decreases s.len(),
{
    if s.len() == 0 {
        Some(Seq::empty())
    } else if is_space(s[0]) {
        lex(s.drop_first())
    } else {
        match first_token(s) {
            Some((t, n)) => if 0 < n <= s.len() {
                match lex(s.skip(n as int)) {
                    Some(rest) => Some(seq![t] + rest),
                    None => None,
                }
            } else {
                None
            },
            None => None,
        }
    }
}

fn in_class_exec(class: &CharClass, c: char) -> (r: bool)
    ensures
        r == in_class(*class, c),
{
    match class {
        CharClass::Digit => '0' <= c && c <= '9',
        CharClass::NameChar => ('a' <= c && c <= 'z') || ('A' <= c && c <= 'Z') || c == '_' || (
        '0' <= c && c <= '9') || c == '.',
        CharClass::TextChar => c != '"',
    }
}

/// How many characters from position `i` on are of the class.
fn class_run_at(class: CharClass, chars: &Vec<char>, i: usize) -> (n: usize)
    requires
        i <= chars.len(),
    ensures
        n == class_run(class, chars@.skip(i as int)),
        i + n <= chars.len(),
{
    let mut j = i;
    while j < chars.len() && in_class_exec(&class, chars[j])
        invariant
            i <= j <= chars.len(),
            class_run(class, chars@.skip(i as int)) == (j - i) + class_run(
                class,
                chars@.skip(j as int),
            ),
        decreases chars.len() - j,
    {
        assert(chars@.skip(j as int).drop_first() =~= chars@.skip(j + 1));
        j = j + 1;
    }
    j - i
}

proof fn lemma_run_bound(class: CharClass, s: Seq<char>)
    ensures
        class_run(class, s) <= s.len(),
        forall|k: int| 0 <= k < class_run(class, s) ==> in_class(class, #[trigger] s[k]),
    decreases s.len(),
{
    if s.len() > 0 && in_class(class, s[0]) {
        lemma_run_bound(class, s.drop_first());
        assert forall|k: int| 0 <= k < class_run(class, s) implies in_class(class, #[trigger] s[k]) by {
            if k > 0 {
                assert(s[k] == s.drop_first()[k - 1]);
            }
        }
    }
}

proof fn lemma_digits_grow(s: Seq<char>, k: int)
    requires
        0 <= k <= s.len(),
    ensures
        digits_value(s.take(k)) <= digits_value(s),
        digits_value(s) >= 0,
    decreases s.len(),
{
    if s.len() > 0 {
        if k == s.len() {
            assert(s.take(k) =~= s);
            lemma_digits_grow(s.drop_last(), 0);
        } else {
            lemma_digits_grow(s.drop_last(), k);
            assert(s.drop_last().take(k) =~= s.take(k));
        }
    } else {
        assert(s.take(k) =~= s);
    }
}

fn digit_value_exec(c: char) -> (v: i64)
    ensures
        v == digit_value(c),
{
    if c == '1' {
        1
    } else if c == '2' {
        2
    } else if c == '3' {
        3
    } else if c == '4' {
        4
    } else if c == '5' {
        5
    } else if c == '6' {
        6
    } else if c == '7' {
        7
    } else if c == '8' {
        8
    } else if c == '9' {
        9
    } else {
        0
    }
}

/// The value of the `m` digits from position `i`, if it fits in an `i64`.
fn digits_value_at(chars: &Vec<char>, i: usize, m: usize) -> (r: Option<i64>)
    requires
        i + m <= chars.len(),
    ensures
        match r {
            Some(v) => v == digits_value(chars@.subrange(i as int, i + m)),
            None => digits_value(chars@.subrange(i as int, i + m)) > i64::MAX,
        },
{
    let ghost whole = chars@.subrange(i as int, i + m);
    let mut v: i64 = 0;
    let mut j: usize = 0;
    while j < m
        invariant
            i + m <= chars.len(),
            whole == chars@.subrange(i as int, i + m),
            j <= m,
            v == digits_value(whole.take(j as int)),
            0 <= v,
        decreases m - j,
    {
        let d = digit_value_exec(chars[i + j]);
        proof {
            assert(whole.take(j + 1).drop_last() =~= whole.take(j as int));
            assert(whole.take(j + 1).last() == chars@[i + j]);
        }
        if v > (i64::MAX - d) / 10 {
            proof {
                assert(digits_value(whole.take(j + 1)) > i64::MAX);
                lemma_digits_grow(whole, j + 1);
            }
            return None;
        }
        v = v * 10 + d;
        j = j + 1;
    }
    assert(whole.take(m as int) =~= whole);
    Some(v)
}

/// The string of the characters from position `i` up to `j`.
pub(crate) fn string_of(chars: &Vec<char>, i: usize, j: usize) -> (s: String)
    requires
        i <= j <= chars.len(),
    ensures
        s@ == chars@.subrange(i as int, j as int),
{
    let mut s = String::new();
    let mut k = i;
    while k < j
        invariant
            i <= k <= j <= chars.len(),
            s@ == chars@.subrange(i as int, k as int),
        decreases j - k,
    {
        push_char(&mut s, chars[k]);
        assert(chars@.subrange(i as int, k + 1) =~= chars@.subrange(i as int, k as int).push(
            chars@[k as int],
        ));
        k = k + 1;
    }
    s
}

/// The token at position `i`, which holds no blank, and its length.
fn token_at(chars: &Vec<char>, i: usize) -> (r: Option<(Token, usize)>)
    requires
        i < chars.len(),
        !is_space(chars@[i as int]),
    ensures
        match first_token(chars@.skip(i as int)) {
            Some((t, n)) => r matches Some((tok, len)) && tok@ == t && len == n,
            None => r is None,
        },
{
    let ghost s = chars@.skip(i as int);
    let c = chars[i];
    let two = i + 1 < chars.len();
    assert(s[0] == c);
    assert(two ==> s[1] == chars@[i + 1]);
    if c == '&' {
        if two && chars[i + 1] == '&' {
            Some((Token::Operator(Op::And), 2))
        } else {
            None
        }
    } else if c == '|' {
        if two && chars[i + 1] == '|' {
            Some((Token::Operator(Op::Or), 2))
        } else {
            None
        }
    } else if c == '=' {
        if two && chars[i + 1] == '=' {
            Some((Token::Operator(Op::Equal), 2))
        } else {
            None
        }
    } else if c == '!' {
        if two && chars[i + 1] == '=' {
            Some((Token::Operator(Op::NotEqual), 2))
        } else {
            Some((Token::Operator(Op::Not), 1))
        }
    } else if c == '<' {
        if two && chars[i + 1] == '=' {
            Some((Token::Operator(Op::LessEq), 2))
        } else {
            Some((Token::Operator(Op::Less), 1))
        }
    } else if c == '>' {
        if two && chars[i + 1] == '=' {
            Some((Token::Operator(Op::GreaterEq), 2))
        } else {
            Some((Token::Operator(Op::Greater), 1))
        }
    } else if c == '(' {
        Some((Token::Open, 1))
    } else if c == ')' {
        Some((Token::Close, 1))
    } else if c == '"' {
        let m = class_run_at(CharClass::TextChar, chars, i + 1);
        assert(chars@.skip(i + 1) =~= s.drop_first());
        if i + 1 + m < chars.len() {
            let text = string_of(chars, i + 1, i + 1 + m);
            assert(chars@.subrange(i + 1, i + 1 + m) =~= s.subrange(1, m + 1));
            Some((Token::Operand(Operand::Literal(text)), m + 2))
        } else {
            None
        }
    } else if '0' <= c && c <= '9' {
        let m = class_run_at(CharClass::Digit, chars, i);
        assert(chars@.subrange(i as int, i + m) =~= s.take(m as int));
        match digits_value_at(chars, i, m) {
            Some(v) => Some((Token::Operand(Operand::Number(v)), m)),
            None => None,
        }
    } else if ('a' <= c && c <= 'z') || ('A' <= c && c <= 'Z') || c == '_' {
        let m = class_run_at(CharClass::NameChar, chars, i);
        let name = string_of(chars, i, i + m);
        assert(chars@.subrange(i as int, i + m) =~= s.take(m as int));
        Some((Token::Operand(Operand::Object(Object { name })), m))
    } else {
        None
    }
}

proof fn lemma_first_token_len(s: Seq<char>)
    requires
        s.len() > 0,
        first_token(s) is Some,
    ensures
        match first_token(s) {
            Some((_, n)) => 0 < n <= s.len(),
            None => true,
        },
{
    let c = s[0];
    if c == '"' {
        lemma_run_bound(CharClass::TextChar, s.drop_first());
    } else if is_digit(c) {
        lemma_run_bound(CharClass::Digit, s);
    } else if is_name_start(c) {
        lemma_run_bound(CharClass::NameChar, s);
    }
}

fn is_space_exec(c: char) -> (r: bool)
    ensures
        r == is_space(c),
{
    c == ' ' || c == '\t' || c == '\n' || c == '\r'
}

/// The tokens of `text`; an error where some part of it is no token.
pub fn tokenize(text: &str) -> (r: Result<Vec<Token>, String>)
    ensures
        match lex(text@) {
            Some(ts) => r matches Ok(tokens) && token_views(tokens@) == ts,
            None => r matches Err(m) && m@ == "unknown token"@,
        },
{
    let chars = chars_of(text);
    let mut tokens: Vec<Token> = Vec::new();
    let mut i: usize = 0;
    assert(chars@.skip(0) =~= chars@);
    while i < chars.len()
        invariant
            chars@ == text@,
            i <= chars.len(),
            lex(chars@) == match lex(chars@.skip(i as int)) {
                Some(rest) => Some(token_views(tokens@) + rest),
                None => None::<Seq<TokenView>>,
            },
        decreases chars.len() - i,
    {
        let ghost s = chars@.skip(i as int);
        if is_space_exec(chars[i]) {
            assert(s.drop_first() =~= chars@.skip(i + 1));
            i = i + 1;
        } else {
            match token_at(&chars, i) {
                Some((tok, n)) => {
                    proof {
                        lemma_first_token_len(s);
                        assert(s.skip(n as int) =~= chars@.skip(i + n));
                    }
                    let ghost before = tokens@;
                    tokens.push(tok);
                    proof {
                        assert(token_views(tokens@) =~= token_views(before).push(tok@));
                        if let Some(rest) = lex(chars@.skip(i + n)) {
                            assert(token_views(before) + (seq![tok@] + rest) =~= token_views(
                                tokens@,
                            ) + rest);
                        }
                    }
                    i = i + n;
                },
                None => {
                    return Err(String::from_str("unknown token"));
                },
            }
        }
    }
    assert(chars@.skip(i as int) =~= Seq::<char>::empty());
    assert(token_views(tokens@) + Seq::<TokenView>::empty() =~= token_views(tokens@));
    Ok(tokens)
}

} // verus!
