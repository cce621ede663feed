//! A strict model of the loosely-shaped JSON the upstream API returns.
//!
//! Fields are optional, inconsistently typed and scattered; every
//! accessor is therefore total and defensive: a missing or mismatched
//! field reads as absent, never as an error. Numbers carry the integer
//! readings the pipeline needs; a non-integral number is held in fixed
//! point, as millionths.

use vstd::prelude::*;

verus! {

/// A node of an upstream JSON document.
pub enum JsonValue {
    Null,
    Bool(bool),
    /// A number that fits a signed 64-bit integer.
    IntNum(i64),
    /// A number that fits an unsigned 64-bit integer only.
    UIntNum(u64),
    /// Any other number, in millionths.
    FloatNum(i128),
    Str(String),
    Arr(Vec<JsonValue>),
    Obj(Vec<(String, JsonValue)>),
}

/// Value of the first pair named `key` at or after `i`.
pub open spec fn obj_lookup(
    pairs: Seq<(String, JsonValue)>,
    key: Seq<char>,
    i: int,
) -> Option<JsonValue>
    decreases pairs.len() - i,
{
    if 0 <= i < pairs.len() {
        if pairs[i].0@ == key {
            Some(pairs[i].1)
        } else {
            obj_lookup(pairs, key, i + 1)
        }
    } else {
        None
    }
}

/// Member of an object by name; absent for non-objects.
pub open spec fn spec_get(v: JsonValue, key: Seq<char>) -> Option<JsonValue> {
    match v {
        JsonValue::Obj(pairs) => obj_lookup(pairs@, key, 0),
        _ => None,
    }
}

/// Element of an array by position; absent for non-arrays.
pub open spec fn spec_idx(v: JsonValue, i: int) -> Option<JsonValue> {
    match v {
        JsonValue::Arr(items) => if 0 <= i < items@.len() {
            Some(items@[i])
        } else {
            None
        },
        _ => None,
    }
}

/// Member of an optional value: chains lookups defensively.
pub open spec fn jsub(v: Option<JsonValue>, key: Seq<char>) -> Option<JsonValue> {
    match v {
        Option::Some(x) => spec_get(x, key),
        Option::None => None,
    }
}

/// Element of an optional value by position.
pub open spec fn jat(v: Option<JsonValue>, i: int) -> Option<JsonValue> {
    match v {
        Option::Some(x) => spec_idx(x, i),
        Option::None => None,
    }
}

/// String reading of an optional value.
pub open spec fn jstr(v: Option<JsonValue>) -> Option<Seq<char>> {
    match v {
        Option::Some(JsonValue::Str(s)) => Some(s@),
        _ => None,
    }
}

/// String reading, defaulting to empty.
pub open spec fn jstr_or_empty(v: Option<JsonValue>) -> Seq<char> {
    match jstr(v) {
        Option::Some(s) => s,
        Option::None => Seq::<char>::empty(),
    }
}

/// Boolean reading of an optional value.
pub open spec fn jbool(v: Option<JsonValue>) -> Option<bool> {
    match v {
        Option::Some(JsonValue::Bool(b)) => Some(b),
        _ => None,
    }
}

/// Boolean reading, defaulting to false.
pub open spec fn jbool_or_false(v: Option<JsonValue>) -> bool {
    jbool(v) == Option::Some(true)
}

/// Signed reading of an optional value: a signed number, or an
/// unsigned one small enough.
pub open spec fn ji64(v: Option<JsonValue>) -> Option<i64> {
    match v {
        Option::Some(JsonValue::IntNum(n)) => Some(n),
        Option::Some(JsonValue::UIntNum(n)) => if n <= i64::MAX as u64 {
            Some(n as i64)
        } else {
            None
        },
        _ => None,
    }
}

/// Signed reading, defaulting to zero.
pub open spec fn ji64_or_zero(v: Option<JsonValue>) -> i64 {
    match ji64(v) {
        Option::Some(n) => n,
        Option::None => 0,
    }
}

/// Unsigned reading of an optional value: an unsigned number, or a
/// non-negative signed one.
pub open spec fn ju64(v: Option<JsonValue>) -> Option<u64> {
    match v {
        Option::Some(JsonValue::UIntNum(n)) => Some(n),
        Option::Some(JsonValue::IntNum(n)) => if n >= 0 {
            Some(n as u64)
        } else {
            None
        },
        _ => None,
    }
}

/// Numeric reading of an optional value, in millionths: every number
/// has one.
pub open spec fn jmicros(v: Option<JsonValue>) -> Option<int> {
    match v {
        Option::Some(JsonValue::IntNum(n)) => Some(n * 1000000),
        Option::Some(JsonValue::UIntNum(n)) => Some(n * 1000000),
        Option::Some(JsonValue::FloatNum(m)) => Some(m as int),
        _ => None,
    }
}

/// Unsigned reading, defaulting to zero.
pub open spec fn ju64_or_zero(v: Option<JsonValue>) -> u64 {
    match ju64(v) {
        Option::Some(n) => n,
        Option::None => 0,
    }
}

/// Array reading of an optional value.
pub open spec fn jarr(v: Option<JsonValue>) -> Option<Seq<JsonValue>> {
    match v {
        Option::Some(JsonValue::Arr(items)) => Some(items@),
        _ => None,
    }
}

/// The value is a string.
pub open spec fn jis_string(v: Option<JsonValue>) -> bool {
    v matches Option::Some(JsonValue::Str(_))
}

/// The value is an object.
pub open spec fn jis_object(v: Option<JsonValue>) -> bool {
    v matches Option::Some(JsonValue::Obj(_))
}

/// The value is the given string.
pub open spec fn jeq_str(v: Option<JsonValue>, s: Seq<char>) -> bool {
    jstr(v) == Option::Some(s)
}

impl JsonValue {
    /// Member of an object by name; absent for non-objects.
    pub fn get(&self, key: &str) -> (r: Option<&JsonValue>)
        ensures
            match r {
                Option::Some(x) => spec_get(*self, key@) == Option::Some(*x),
                Option::None => spec_get(*self, key@) is None,
            },
    {
        match self {
            JsonValue::Obj(pairs) => {
                let n = pairs.len();
                let mut i: usize = 0;
                while i < n
                    invariant
                        n == pairs@.len(),
                        i <= n,
                        obj_lookup(pairs@, key@, 0) == obj_lookup(pairs@, key@, i as int),
                        spec_get(*self, key@) == obj_lookup(pairs@, key@, 0),
                    decreases n - i,
                {
                    if crate::strutil::str_eq(pairs[i].0.as_str(), key) {
                        return Some(&pairs[i].1);
                    }
                    i += 1;
                }
                None
            },
            _ => None,
        }
    }

    /// Element of an array by position; absent for non-arrays.
    pub fn idx(&self, i: usize) -> (r: Option<&JsonValue>)
        ensures
            match r {
                Option::Some(x) => spec_idx(*self, i as int) == Option::Some(*x),
                Option::None => spec_idx(*self, i as int) is None,
            },
    {
        match self {
            JsonValue::Arr(items) => if i < items.len() {
                Some(&items[i])
            } else {
                None
            },
            _ => None,
        }
    }

    /// String reading.
    pub fn as_str(&self) -> (r: Option<&str>)
        ensures
            match r {
                Option::Some(s) => jstr(Some(*self)) == Option::Some(s@),
                Option::None => jstr(Some(*self)) is None,
            },
    {
        match self {
            JsonValue::Str(s) => Some(s.as_str()),
            _ => None,
        }
    }

    /// Boolean reading.
    pub fn as_bool(&self) -> (r: Option<bool>)
        ensures
            r == jbool(Some(*self)),
    {
        match self {
            JsonValue::Bool(b) => Some(*b),
            _ => None,
        }
    }

    /// Signed reading.
    pub fn as_i64(&self) -> (r: Option<i64>)
        ensures
            r == ji64(Some(*self)),
    {
        match self {
            JsonValue::IntNum(n) => Some(*n),
            JsonValue::UIntNum(n) => if *n <= 0x7fffffffffffffff {
                Some(*n as i64)
            } else {
                None
            },
            _ => None,
        }
    }

    /// Unsigned reading.
    pub fn as_u64(&self) -> (r: Option<u64>)
        ensures
            r == ju64(Some(*self)),
    {
        match self {
            JsonValue::UIntNum(n) => Some(*n),
            JsonValue::IntNum(n) => if *n >= 0 {
                Some(*n as u64)
            } else {
                None
            },
            _ => None,
        }
    }

    /// Numeric reading, in millionths.
    pub fn as_micros(&self) -> (r: Option<i128>)
        ensures
            match r {
                Option::Some(m) => jmicros(Some(*self)) == Option::Some(m as int),
                Option::None => jmicros(Some(*self)) is None,
            },
    {
        match self {
            JsonValue::IntNum(n) => Some((*n as i128) * 1000000),
            JsonValue::UIntNum(n) => Some((*n as i128) * 1000000),
            JsonValue::FloatNum(m) => Some(*m),
            _ => None,
        }
    }

    /// The value is a string.
    pub fn is_string(&self) -> (r: bool)
        ensures
            r == jis_string(Some(*self)),
    {
        match self {
            JsonValue::Str(_) => true,
            _ => false,
        }
    }

    /// The value is an object.
    pub fn is_object(&self) -> (r: bool)
        ensures
            r == jis_object(Some(*self)),
    {
        match self {
            JsonValue::Obj(_) => true,
            _ => false,
        }
    }

    /// The value is the given string.
    pub fn eq_str(&self, s: &str) -> (r: bool)
        ensures
            r == jeq_str(Some(*self), s@),
    {
        match self {
            JsonValue::Str(v) => crate::strutil::str_eq(v.as_str(), s),
            _ => false,
        }
    }
}

/// Member of an optional node, executable counterpart of `jsub`.
pub fn member<'a>(v: Option<&'a JsonValue>, key: &str) -> (r: Option<&'a JsonValue>)
    ensures
        match r {
            Option::Some(x) => jsub(deref_opt(v), key@) == Option::Some(*x),
            Option::None => jsub(deref_opt(v), key@) is None,
        },
{
    match v {
        Option::Some(x) => x.get(key),
        Option::None => None,
    }
}

/// Element of an optional node, executable counterpart of `jat`.
pub fn element<'a>(v: Option<&'a JsonValue>, i: usize) -> (r: Option<&'a JsonValue>)
    ensures
        match r {
            Option::Some(x) => jat(deref_opt(v), i as int) == Option::Some(*x),
            Option::None => jat(deref_opt(v), i as int) is None,
        },
{
    match v {
        Option::Some(x) => x.idx(i),
        Option::None => None,
    }
}

/// The value behind an optional reference.
pub open spec fn deref_opt(v: Option<&JsonValue>) -> Option<JsonValue> {
    match v {
        Option::Some(x) => Some(*x),
        Option::None => None,
    }
}

/// String reading of an optional node, defaulting to empty.
pub fn str_or_empty(v: Option<&JsonValue>) -> (r: String)
    ensures
        r@ == jstr_or_empty(deref_opt(v)),
{
    match v {
        Option::Some(x) => match x.as_str() {
            Option::Some(s) => s.to_owned(),
            Option::None => String::new(),
        },
        Option::None => String::new(),
    }
}

/// Boolean reading of an optional node, defaulting to false.
pub fn bool_or_false(v: Option<&JsonValue>) -> (r: bool)
    ensures
        r == jbool_or_false(deref_opt(v)),
{
    match v {
        Option::Some(x) => match x.as_bool() {
            Option::Some(b) => b,
            Option::None => false,
        },
        Option::None => false,
    }
}

/// The optional node is the given string.
pub fn bool_eq_str(v: Option<&JsonValue>, s: &str) -> (r: bool)
    ensures
        r == jeq_str(deref_opt(v), s@),
{
    match v {
        Option::Some(x) => x.eq_str(s),
        Option::None => false,
    }
}

/// The optional node is an object.
pub fn is_object_opt(v: Option<&JsonValue>) -> (r: bool)
    ensures
        r == jis_object(deref_opt(v)),
{
    match v {
        Option::Some(x) => x.is_object(),
        Option::None => false,
    }
}

/// Unsigned reading of an optional node, defaulting to zero.
pub fn u64_or_zero(v: Option<&JsonValue>) -> (r: u64)
    ensures
        r == ju64_or_zero(deref_opt(v)),
{
    match v {
        Option::Some(x) => match x.as_u64() {
            Option::Some(n) => n,
            Option::None => 0,
        },
        Option::None => 0,
    }
}

/// Array reading of an optional node.
pub fn arr_opt<'a>(v: Option<&'a JsonValue>) -> (r: Option<&'a Vec<JsonValue>>)
    ensures
        match r {
            Option::Some(a) => jarr(deref_opt(v)) == Option::Some(a@),
            Option::None => jarr(deref_opt(v)) is None,
        },
{
    match v {
        Option::Some(JsonValue::Arr(items)) => Some(items),
        _ => None,
    }
}

/// String reading of an optional node.
pub fn str_opt<'a>(v: Option<&'a JsonValue>) -> (r: Option<&'a str>)
    ensures
        match r {
            Option::Some(s) => jstr(deref_opt(v)) == Option::Some(s@),
            Option::None => jstr(deref_opt(v)) is None,
        },
{
    match v {
        Option::Some(JsonValue::Str(s)) => Some(s.as_str()),
        _ => None,
    }
}

/// Signed reading of an optional node, defaulting to zero.
pub fn i64_or_zero(v: Option<&JsonValue>) -> (r: i64)
    ensures
        r == ji64_or_zero(deref_opt(v)),
{
    match v {
        Option::Some(x) => match x.as_i64() {
            Option::Some(n) => n,
            Option::None => 0,
        },
        Option::None => 0,
    }
}

} // verus!
