//! JSON values as the context of an evaluation holds them, and the
//! lookup of a member of an object.

use crate::decimal::Decimal;
use crate::text::str_eq;
use vstd::prelude::*;

verus! {

/// A JSON number: an integer that fits in an `i64`, or any other number.
#[derive(Clone, Debug, PartialEq)]
pub enum JsonNumber {
    Integer(i64),
    Other(Decimal),
}

/// A JSON value.  The members of an object are kept in order; a key
/// stands for the first member that has it.  Objects read from JSON text
/// have distinct keys (`keys_distinct`), and on those the member found
/// does not depend on the order (`law_distinct_keys_lookup`).
#[derive(Debug)]
pub enum JsonValue {
    Null,
    Bool(bool),
    Number(JsonNumber),
    String(String),
    Array(Vec<JsonValue>),
    Object(Vec<(String, JsonValue)>),
}

/// The value of the first member with key `key`.
pub open spec fn member_value(members: Seq<(String, JsonValue)>, key: Seq<char>) -> Option<
    JsonValue,
>
    decreases members.len(),
{
    if members.len() == 0 {
        None
    } else if members[0].0@ == key {
        Some(members[0].1)
    } else {
        member_value(members.drop_first(), key)
    }
}

/// The member of `value` with key `key`: only an object has members.
pub open spec fn json_get(value: JsonValue, key: Seq<char>) -> Option<JsonValue> {
    match value {
        JsonValue::Object(members) => member_value(members@, key),
        _ => None,
    }
}

/// No two members have the same key.
pub open spec fn keys_distinct(members: Seq<(String, JsonValue)>) -> bool {
    forall|i: int, j: int|
        0 <= i < members.len() && 0 <= j < members.len() && i != j ==> #[trigger] members[i].0@
            != #[trigger] members[j].0@
}

/// In an object whose keys are distinct, a key stands for the value of
/// the one member that has it, wherever that member stands.
pub proof fn law_distinct_keys_lookup(members: Seq<(String, JsonValue)>, i: int)
    requires
        keys_distinct(members),
        0 <= i < members.len(),
    ensures
        member_value(members, members[i].0@) == Some(members[i].1),
    decreases members.len(),
{
    if i > 0 {
        let rest = members.drop_first();
        assert(keys_distinct(rest)) by {
            assert forall|a: int, b: int|
                0 <= a < rest.len() && 0 <= b < rest.len() && a != b implies #[trigger] rest[a].0@
                != #[trigger] rest[b].0@ by {
                assert(rest[a] == members[a + 1]);
                assert(rest[b] == members[b + 1]);
            }
        }
        assert(members[0].0@ != members[i].0@);
        assert(rest[i - 1] == members[i]);
        law_distinct_keys_lookup(rest, i - 1);
    }
}

impl JsonValue {
    /// The member of this value with key `key`, if it is an object that
    /// has one.
    pub fn get(&self, key: &str) -> (r: Option<&JsonValue>)
        ensures
            match r {
                Some(v) => json_get(*self, key@) == Some(*v),
                None => json_get(*self, key@) is None,
            },
    {
        match self {
            JsonValue::Object(members) => {
                let mut i: usize = 0;
                assert(members@.skip(0) =~= members@);
                while i < members.len()
                    invariant
                        i <= members.len(),
                        json_get(*self, key@) == member_value(members@, key@),
                        member_value(members@, key@) == member_value(members@.skip(i as int), key@),
                    decreases members.len() - i,
                {
                    assert(members@.skip(i as int).drop_first() =~= members@.skip(i + 1));
                    if str_eq(members[i].0.as_str(), key) {
                        assert(members@.skip(i as int)[0] == members@[i as int]);
                        return Some(&members[i].1);
                    }
                    i = i + 1;
                }
                assert(members@.skip(i as int) =~= Seq::<(String, JsonValue)>::empty());
                None
            },
            _ => None,
        }
    }
}

} // verus!
