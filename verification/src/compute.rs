//! The operators on resolved values.  Each takes two operands (negation
//! one) of the same kind and gives the number 1 or 0; operands of
//! different kinds, or names, are an error.

use crate::decimal::{is_zero, value_eq, value_le, value_lt};
use crate::messages::{invalid_not, invalid_not_text, type_mismatch, type_mismatch_text};
use crate::operand::{bool_number, Operand};
use crate::text::{seq_le, seq_lt, str_eq, str_lt};
use vstd::prelude::*;

verus! {

/// The result of an operator: the value `o` holds, or else the error
/// with text `err`.
pub open spec fn outcome_is(r: Result<Operand, String>, o: Option<Operand>, err: Seq<char>) -> bool {
    match o {
        Some(v) => r == Ok::<Operand, String>(v),
        None => r matches Err(m) && m@ == err,
    }
}

/// The truths of two operands of the same kind, for `&&` and `||`.
pub open spec fn paired_truths(left: Operand, right: Operand) -> Option<(bool, bool)> {
    match (left, right) {
        (Operand::Literal(l), Operand::Literal(r)) => Some((l@.len() != 0, r@.len() != 0)),
        (Operand::Number(l), Operand::Number(r)) => Some((l != 0, r != 0)),
        (Operand::Decimal(l), Operand::Decimal(r)) => Some((!is_zero(l.bits), !is_zero(r.bits))),
        _ => None,
    }
}

/// `left && right`.
pub open spec fn spec_and(left: Operand, right: Operand) -> Option<Operand> {
    match paired_truths(left, right) {
        Some((a, b)) => Some(bool_number(a && b)),
        None => None,
    }
}

/// `left || right`.
pub open spec fn spec_or(left: Operand, right: Operand) -> Option<Operand> {
    match paired_truths(left, right) {
        Some((a, b)) => Some(bool_number(a || b)),
        None => None,
    }
}

/// `left == right`: strings by their characters, numbers by value.
pub open spec fn spec_eq(left: Operand, right: Operand) -> Option<Operand> {
    match (left, right) {
        (Operand::Literal(l), Operand::Literal(r)) => Some(bool_number(l@ == r@)),
        (Operand::Number(l), Operand::Number(r)) => Some(bool_number(l == r)),
        (Operand::Decimal(l), Operand::Decimal(r)) => Some(bool_number(value_eq(l.bits, r.bits))),
        _ => None,
    }
}

/// `left != right`.
pub open spec fn spec_neq(left: Operand, right: Operand) -> Option<Operand> {
    match (left, right) {
        (Operand::Literal(l), Operand::Literal(r)) => Some(bool_number(l@ != r@)),
        (Operand::Number(l), Operand::Number(r)) => Some(bool_number(l != r)),
        (Operand::Decimal(l), Operand::Decimal(r)) => Some(bool_number(!value_eq(l.bits, r.bits))),
        _ => None,
    }
}

/// `left < right`: strings in lexicographic order, numbers by value.
pub open spec fn spec_less(left: Operand, right: Operand) -> Option<Operand> {
    match (left, right) {
        (Operand::Literal(l), Operand::Literal(r)) => Some(bool_number(seq_lt(l@, r@))),
        (Operand::Number(l), Operand::Number(r)) => Some(bool_number(l < r)),
        (Operand::Decimal(l), Operand::Decimal(r)) => Some(bool_number(value_lt(l.bits, r.bits))),
        _ => None,
    }
}

/// `left <= right`.
pub open spec fn spec_less_eq(left: Operand, right: Operand) -> Option<Operand> {
    match (left, right) {
        (Operand::Literal(l), Operand::Literal(r)) => Some(bool_number(seq_le(l@, r@))),
        (Operand::Number(l), Operand::Number(r)) => Some(bool_number(l <= r)),
        (Operand::Decimal(l), Operand::Decimal(r)) => Some(bool_number(value_le(l.bits, r.bits))),
        _ => None,
    }
}

/// `left > right`.
pub open spec fn spec_greater(left: Operand, right: Operand) -> Option<Operand> {
    match (left, right) {
        (Operand::Literal(l), Operand::Literal(r)) => Some(bool_number(seq_lt(r@, l@))),
        (Operand::Number(l), Operand::Number(r)) => Some(bool_number(l > r)),
        (Operand::Decimal(l), Operand::Decimal(r)) => Some(bool_number(value_lt(r.bits, l.bits))),
        _ => None,
    }
}

/// `left >= right`.
pub open spec fn spec_greater_eq(left: Operand, right: Operand) -> Option<Operand> {
    match (left, right) {
        (Operand::Literal(l), Operand::Literal(r)) => Some(bool_number(seq_le(r@, l@))),
        (Operand::Number(l), Operand::Number(r)) => Some(bool_number(l >= r)),
        (Operand::Decimal(l), Operand::Decimal(r)) => Some(bool_number(value_le(r.bits, l.bits))),
        _ => None,
    }
}

/// `!operand`: 1 for an empty literal or a zero number, else 0.
pub open spec fn spec_not(operand: Operand) -> Option<Operand> {
    match operand {
        Operand::Literal(s) => Some(bool_number(s@.len() == 0)),
        Operand::Number(n) => Some(bool_number(n == 0)),
        Operand::Decimal(d) => Some(bool_number(is_zero(d.bits))),
        Operand::Object(_) => None,
    }
}

fn number_of(b: bool) -> (o: Operand)
    ensures
        o == bool_number(b),
{
    Operand::Number(if b { 1 } else { 0 })
}

fn non_empty(s: &String) -> (b: bool)
    ensures
        b == (s@.len() != 0),
{
    proof {
        broadcast use vstd::string::group_string_axioms;
    }
    !s.as_str().is_empty()
}

fn le_text(a: &String, b: &String) -> (r: bool)
    ensures
        r == seq_le(a@, b@),
{
    str_lt(a.as_str(), b.as_str()) || str_eq(a.as_str(), b.as_str())
}

/// `left && right`.
pub fn compute_and<'a>(left: Operand, right: Operand) -> (res: Result<Operand, String>)
    ensures
        outcome_is(res, spec_and(left, right), type_mismatch_text(left, right)),
{
    match (&left, &right) {
        (Operand::Literal(l), Operand::Literal(r)) => Ok(number_of(non_empty(l) && non_empty(r))),
        (Operand::Number(l), Operand::Number(r)) => Ok(number_of(*l != 0 && *r != 0)),
        (Operand::Decimal(l), Operand::Decimal(r)) => Ok(number_of(!l.is_zero() && !r.is_zero())),
        _ => Err(type_mismatch(&left, &right)),
    }
}

/// `left || right`.
pub fn compute_or<'a>(left: Operand, right: Operand) -> (res: Result<Operand, String>)
    ensures
        outcome_is(res, spec_or(left, right), type_mismatch_text(left, right)),
{
    match (&left, &right) {
        (Operand::Literal(l), Operand::Literal(r)) => Ok(number_of(non_empty(l) || non_empty(r))),
        (Operand::Number(l), Operand::Number(r)) => Ok(number_of(*l != 0 || *r != 0)),
        (Operand::Decimal(l), Operand::Decimal(r)) => Ok(number_of(!l.is_zero() || !r.is_zero())),
        _ => Err(type_mismatch(&left, &right)),
    }
}

/// `left > right`.
pub fn compute_greater<'a>(left: Operand, right: Operand) -> (res: Result<Operand, String>)
    ensures
        outcome_is(res, spec_greater(left, right), type_mismatch_text(left, right)),
{
    match (&left, &right) {
        (Operand::Literal(l), Operand::Literal(r)) => Ok(
            number_of(str_lt(r.as_str(), l.as_str())),
        ),
        (Operand::Number(l), Operand::Number(r)) => Ok(number_of(*l > *r)),
        (Operand::Decimal(l), Operand::Decimal(r)) => Ok(number_of(r.value_lt(l))),
        _ => Err(type_mismatch(&left, &right)),
    }
}

/// `left >= right`.
pub fn compute_greater_eq<'a>(left: Operand, right: Operand) -> (res: Result<Operand, String>)
    ensures
        outcome_is(res, spec_greater_eq(left, right), type_mismatch_text(left, right)),
{
    match (&left, &right) {
        (Operand::Literal(l), Operand::Literal(r)) => Ok(number_of(le_text(r, l))),
        (Operand::Number(l), Operand::Number(r)) => Ok(number_of(*l >= *r)),
        (Operand::Decimal(l), Operand::Decimal(r)) => Ok(number_of(r.value_le(l))),
        _ => Err(type_mismatch(&left, &right)),
    }
}

/// `left < right`.
pub fn compute_less<'a>(left: Operand, right: Operand) -> (res: Result<Operand, String>)
    ensures
        outcome_is(res, spec_less(left, right), type_mismatch_text(left, right)),
{
    match (&left, &right) {
        (Operand::Literal(l), Operand::Literal(r)) => Ok(
            number_of(str_lt(l.as_str(), r.as_str())),
        ),
        (Operand::Number(l), Operand::Number(r)) => Ok(number_of(*l < *r)),
        (Operand::Decimal(l), Operand::Decimal(r)) => Ok(number_of(l.value_lt(r))),
        _ => Err(type_mismatch(&left, &right)),
    }
}

/// `left <= right`.
pub fn compute_less_eq<'a>(left: Operand, right: Operand) -> (res: Result<Operand, String>)
    ensures
        outcome_is(res, spec_less_eq(left, right), type_mismatch_text(left, right)),
{
    match (&left, &right) {
        (Operand::Literal(l), Operand::Literal(r)) => Ok(number_of(le_text(l, r))),
        (Operand::Number(l), Operand::Number(r)) => Ok(number_of(*l <= *r)),
        (Operand::Decimal(l), Operand::Decimal(r)) => Ok(number_of(l.value_le(r))),
        _ => Err(type_mismatch(&left, &right)),
    }
}

/// `left == right`.
pub fn compute_eq<'a>(left: Operand, right: Operand) -> (res: Result<Operand, String>)
    ensures
        outcome_is(res, spec_eq(left, right), type_mismatch_text(left, right)),
{
    match (&left, &right) {
        (Operand::Literal(l), Operand::Literal(r)) => Ok(
            number_of(str_eq(l.as_str(), r.as_str())),
        ),
        (Operand::Number(l), Operand::Number(r)) => Ok(number_of(*l == *r)),
        (Operand::Decimal(l), Operand::Decimal(r)) => Ok(number_of(l.value_eq(r))),
        _ => Err(type_mismatch(&left, &right)),
    }
}

/// `left != right`.
pub fn compute_neq<'a>(left: Operand, right: Operand) -> (res: Result<Operand, String>)
    ensures
        outcome_is(res, spec_neq(left, right), type_mismatch_text(left, right)),
{
    match (&left, &right) {
        (Operand::Literal(l), Operand::Literal(r)) => Ok(
            number_of(!str_eq(l.as_str(), r.as_str())),
        ),
        (Operand::Number(l), Operand::Number(r)) => Ok(number_of(*l != *r)),
        (Operand::Decimal(l), Operand::Decimal(r)) => Ok(number_of(!l.value_eq(r))),
        _ => Err(type_mismatch(&left, &right)),
    }
}

/// `!operand`.
pub fn compute_not<'a>(operand: Operand) -> (res: Result<Operand, String>)
    ensures
        outcome_is(res, spec_not(operand), invalid_not_text(operand)),
{
    match &operand {
        Operand::Literal(s) => Ok(number_of(!non_empty(s))),
        Operand::Number(n) => Ok(number_of(*n == 0)),
        Operand::Decimal(d) => Ok(number_of(d.is_zero())),
        _ => Err(invalid_not(&operand)),
    }
}

} // verus!
