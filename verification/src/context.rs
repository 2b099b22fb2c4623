//! The context of an evaluation, the lookup of dotted names in it, and
//! the resolution of operands and of operator arguments against it.

use crate::json::{json_get, JsonNumber, JsonValue};
use crate::messages::{missing_root, missing_root_text};
use crate::operand::Operand;
use crate::text::{lemma_split_nonempty, split_on, split_str, string_views};
use vstd::prelude::*;

verus! {

broadcast use vstd::string::group_string_axioms;

/// The JSON value that names are looked up in.
pub struct Context {
    context: JsonValue,
}

/// The value reached from `root` by looking up the first `k` keys of
/// `keys` one after the other, if each is there.
pub open spec fn walk(root: JsonValue, keys: Seq<Seq<char>>, k: nat) -> Option<JsonValue>
    decreases k,
{
    if k == 0 {
        Some(root)
    } else {
        match walk(root, keys, (k - 1) as nat) {
            Some(v) => json_get(v, keys[k - 1]),
            None => None,
        }
    }
}

/// The pieces of a dotted name.
pub open spec fn name_keys(name: Seq<char>) -> Seq<Seq<char>> {
    split_on(name, '.')
}

/// The value that a dotted name stands for in `root`: each piece of the
/// name is a key in the value that the pieces before it reached.
pub open spec fn lookup(root: JsonValue, name: Seq<char>) -> Option<JsonValue> {
    walk(root, name_keys(name), name_keys(name).len())
}

/// The operand that a JSON value converts to: `true` and `false` are 1
/// and 0, numbers stay numbers, strings become literals; other values
/// have no operand.
pub open spec fn scalar_operand(value: JsonValue) -> Option<Operand> {
    match value {
        JsonValue::Bool(b) => Some(Operand::Number(if b { 1 } else { 0 })),
        JsonValue::Number(JsonNumber::Integer(n)) => Some(Operand::Number(n)),
        JsonValue::Number(JsonNumber::Other(d)) => Some(Operand::Decimal(d)),
        JsonValue::String(s) => Some(Operand::Literal(s)),
        _ => None,
    }
}

/// How a computation ends: with a value, with an error, or on a value of
/// the context that has no operand (where the evaluator gives up).
pub enum Outcome<T> {
    Done(T),
    Failed(Seq<char>),
    Stuck,
}

/// The value of an operand in `root`: a name stands for the operand of
/// the value it looks up, any other operand for itself.
pub open spec fn resolve(root: JsonValue, op: Operand) -> Outcome<Operand> {
    match op {
        Operand::Object(o) => match lookup(root, o.name@) {
            Some(v) => match scalar_operand(v) {
                Some(x) => Outcome::Done(x),
                None => Outcome::Stuck,
            },
            None => Outcome::Failed(lookup_error(root, o.name@)),
        },
        _ => Outcome::Done(op),
    }
}

impl Context {
    /// The JSON value of this context.
    pub closed spec fn json(&self) -> JsonValue {
        self.context
    }

    /// A context over `value`.
    pub fn new(value: JsonValue) -> (c: Context)
        ensures
            c.json() == value,
    {
        Context { context: value }
    }

    /// The JSON value of this context.
    pub fn value(&self) -> (v: &JsonValue)
        ensures
            *v == self.json(),
    {
        &self.context
    }

    /// The value that the dotted name `name` stands for.  An error names
    /// the first piece that is missing.
    pub fn get_value(&self, name: &str) -> (res: Result<&JsonValue, String>)
        ensures
            match res {
                Ok(v) => lookup(self.json(), name@) == Some(*v),
                Err(msg) => lookup(self.json(), name@) is None && msg@ == lookup_error(
                    self.json(),
                    name@,
                ),
            },
    {
        let names = split_str(name, '.');
        let ghost keys = name_keys(name@);
        proof {
            lemma_split_nonempty(name@, '.');
            assert(names@[0]@ == keys[0]);
            assert(walk(self.json(), keys, 0) == Some(self.json()));
        }
        let mut value: &JsonValue;
        match self.context.get(names[0].as_str()) {
            Some(v) => {
                value = v;
            },
            _ => {
                proof {
                    lemma_walk_stays_missing(self.json(), keys, 1, keys.len());
                }
                return Err(missing_root(&names));
            },
        }
        let mut i: usize = 1;
        while i < names.len()
            invariant
                1 <= i <= names.len(),
                string_views(names@) == keys,
                keys == name_keys(name@),
                walk(self.json(), keys, i as nat) == Some(*value),
            decreases names.len() - i,
        {
            assert(names@[i as int]@ == keys[i as int]);
            match value.get(names[i].as_str()) {
                Some(v) => {
                    value = v;
                },
                _ => {
                    proof {
                        lemma_walk_stays_missing(self.json(), keys, (i + 1) as nat, keys.len());
                        assert forall|k: int|
                            1 <= k < keys.len() && #[trigger] walk(
                                self.json(),
                                keys,
                                k as nat,
                            ) is Some && walk(self.json(), keys, (k + 1) as nat) is None implies k
                            == i by {
                            if k < i {
                                lemma_walk_stays_missing(self.json(), keys, (k + 1) as nat, i as nat);
                            } else if k > i {
                                lemma_walk_stays_missing(self.json(), keys, (i + 1) as nat, k as nat);
                            }
                        }
                        assert(walk(self.json(), keys, i as nat) is Some && walk(
                            self.json(),
                            keys,
                            (i + 1) as nat,
                        ) is None);
                        assert(first_gap(self.json(), keys) == i);
                        if walk(self.json(), keys, 1) is None {
                            lemma_walk_stays_missing(self.json(), keys, 1, i as nat);
                        }
                        assert(lookup_error(self.json(), name@) == missing_piece_text(
                            name@,
                            keys[i as int],
                        ));
                    }
                    return Err(missing_piece(name, names[i].as_str()));
                },
            }
            i = i + 1;
        }
        Ok(value)
    }
}

/// The position of the first piece of `keys` that is missing, where the
/// first one is there: the walk reaches a value up to it and none after.
pub open spec fn first_gap(root: JsonValue, keys: Seq<Seq<char>>) -> int {
    choose|k: int|
        1 <= k < keys.len() && #[trigger] walk(root, keys, k as nat) is Some && walk(
            root,
            keys,
            (k + 1) as nat,
        ) is None
}

/// The error of a name that stands for nothing: the list of its pieces
/// where the first one is missing, else the name and the first missing
/// piece.
pub open spec fn lookup_error(root: JsonValue, name: Seq<char>) -> Seq<char> {
    let keys = name_keys(name);
    if walk(root, keys, 1) is None {
        missing_root_text(keys)
    } else {
        missing_piece_text(name, keys[first_gap(root, keys)])
    }
}

/// The text of the error for a piece `piece` of `name` that is missing.
pub open spec fn missing_piece_text(name: Seq<char>, piece: Seq<char>) -> Seq<char> {
    "Mapping not exist : "@ + name + " at "@ + piece
}

fn missing_piece(name: &str, piece: &str) -> (msg: String)
    ensures
        msg@ == missing_piece_text(name@, piece@),
{
    let mut msg = String::from_str("Mapping not exist : ");
    msg.append(name);
    msg.append(" at ");
    msg.append(piece);
    msg
}

/// Once a key is missing, every longer walk misses too.
pub proof fn lemma_walk_stays_missing(root: JsonValue, keys: Seq<Seq<char>>, k: nat, m: nat)
    requires
        walk(root, keys, k) is None,
        k <= m,
    ensures
        walk(root, keys, m) is None,
    decreases m - k,
{
    if k < m {
        lemma_walk_stays_missing(root, keys, k, (m - 1) as nat);
    }
}

/// The operand of a JSON value, if it has one.
pub fn scalar_of(value: &JsonValue) -> (op: Option<Operand>)
    ensures
        op == scalar_operand(*value),
{
    match value {
        JsonValue::Bool(b) => Some(Operand::Number(if *b { 1 } else { 0 })),
        JsonValue::Number(JsonNumber::Integer(n)) => Some(Operand::Number(*n)),
        JsonValue::Number(JsonNumber::Other(d)) => Some(Operand::Decimal(d.duplicate())),
        JsonValue::String(s) => Some(Operand::Literal(s.clone())),
        _ => None,
    }
}

/// The operand of a JSON value that has one.
pub fn convert_value_to_operand(value: &JsonValue) -> (op: Operand)
    requires
        scalar_operand(*value) is Some,
    ensures
        Some(op) == scalar_operand(*value),
{
    scalar_of(value).unwrap()
}

/// `res` is what a computation that ends as `o` returns: its value, or
/// an error.
pub open spec fn settles(res: Result<Operand, String>, o: Outcome<Operand>) -> bool {
    match o {
        Outcome::Done(v) => res == Ok::<Operand, String>(v),
        Outcome::Failed(m) => res matches Err(e) && e@ == m,
        Outcome::Stuck => true,
    }
}

/// Applies `compute_func` to the value of `op` in the context: a name is
/// first replaced by the operand of the value it stands for, and an error
/// of that lookup is returned as it is.
pub fn compute_unary<'a, ComputeFunc>(
    context: &'a Context,
    op: Operand,
    compute_func: ComputeFunc,
) -> (res: Result<Operand, String>) where ComputeFunc: Fn(Operand) -> Result<Operand, String>
    requires
        forall|x: Operand| compute_func.requires((x,)),
        !(resolve(context.json(), op) is Stuck),
    ensures
        match resolve(context.json(), op) {
            Outcome::Done(x) => compute_func.ensures((x,), res),
            Outcome::Failed(m) => res matches Err(e) && e@ == m,
            Outcome::Stuck => true,
        },
    decreases
            (if op is Object {
                1nat
            } else {
                0nat
            }),
{
    if let Operand::Object(obj) = op {
        match context.get_value(obj.name.as_str()) {
            Ok(v) => {
                return compute_unary(context, convert_value_to_operand(v), compute_func);
            },
            Err(e) => {
                return Err(e);
            },
        }
    }
    compute_func(op)
}

/// Applies `compute_func` to the values of `left` and `right` in the
/// context, resolving the left operand first.
pub fn compute_binary<'a, ComputeFunc>(
    context: &'a Context,
    left: Operand,
    right: Operand,
    compute_func: ComputeFunc,
) -> (res: Result<Operand, String>) where
    ComputeFunc: Fn(Operand, Operand) -> Result<Operand, String>,

    requires
        forall|x: Operand, y: Operand| compute_func.requires((x, y)),
        !(resolve(context.json(), left) is Stuck),
        resolve(context.json(), left) is Done ==> !(resolve(context.json(), right) is Stuck),
    ensures
        match resolve(context.json(), left) {
            Outcome::Done(x) => match resolve(context.json(), right) {
                Outcome::Done(y) => compute_func.ensures((x, y), res),
                Outcome::Failed(m) => res matches Err(e) && e@ == m,
                Outcome::Stuck => true,
            },
            Outcome::Failed(m) => res matches Err(e) && e@ == m,
            Outcome::Stuck => true,
        },
    decreases
            (if left is Object {
                1nat
            } else {
                0nat
            }),
{
    if let Operand::Object(l) = left {
        match context.get_value(l.name.as_str()) {
            Ok(v) => {
                return compute_binary(context, convert_value_to_operand(v), right, compute_func);
            },
            Err(e) => {
                return Err(e);
            },
        }
    }
    if let Operand::Object(r) = right {
        match context.get_value(r.name.as_str()) {
            Ok(v) => {
                return compute_func(left, convert_value_to_operand(v));
            },
            Err(e) => {
                return Err(e);
            },
        }
    }
    compute_func(left, right)
}

/// How resolving an operand ends, without its value or error.
pub enum Resolution {
    Resolved,
    Missing,
    NotScalar,
}

impl Context {
    /// How resolving `op` in this context ends, as `resolve` states it.
    pub fn resolution(&self, op: &Operand) -> (r: Resolution)
        ensures
            (r is Resolved) == (resolve(self.json(), *op) is Done),
            (r is Missing) == (resolve(self.json(), *op) is Failed),
            (r is NotScalar) == (resolve(self.json(), *op) is Stuck),
    {
        match op {
            Operand::Object(obj) => match self.get_value(obj.name.as_str()) {
                Ok(v) => match scalar_of(v) {
                    Some(_) => Resolution::Resolved,
                    None => Resolution::NotScalar,
                },
                Err(_) => Resolution::Missing,
            },
            _ => Resolution::Resolved,
        }
    }
}

} // verus!
