//! A plain JSON value, the form in which the parser's syntax tree (ESTree)
//! reaches the passes, and typed access to it.

use vstd::prelude::*;

use crate::text::str_eq;
#[allow(unused_imports)]
use serde::Deserialize;

verus! {

/// A JSON value. Numbers keep their decimal text; objects keep their fields
/// in document order.
pub enum Json {
    Null,
    Bool(bool),
    Num(Vec<u8>),
    Str(String),
    Arr(Vec<Json>),
    Obj(Vec<(String, Json)>),
}

#[verifier::external_type_specification]
#[verifier::external_body]
pub struct ExJsonValue(serde_json::Value);

/// The first field named `key` among `fields`.
pub open spec fn lookup(fields: Seq<(String, Json)>, key: Seq<char>) -> Option<Json>
    decreases fields.len(),
{
    if fields.len() == 0 {
        None
    } else if fields[0].0@ == key {
        Some(fields[0].1)
    } else {
        lookup(fields.drop_first(), key)
    }
}

/// The field `key` of an object; `None` for a non-object or a missing field.
pub open spec fn field(j: Json, key: Seq<char>) -> Option<Json> {
    match j {
        Json::Obj(f) => lookup(f@, key),
        _ => None,
    }
}

/// The string held by `j`, if it is a string.
pub open spec fn as_str(j: Option<Json>) -> Option<Seq<char>> {
    match j {
        Some(Json::Str(s)) => Some(s@),
        _ => None,
    }
}

/// The elements of `j`, if it is an array.
pub open spec fn as_arr(j: Option<Json>) -> Option<Seq<Json>> {
    match j {
        Some(Json::Arr(v)) => Some(v@),
        _ => None,
    }
}

/// The string field `key` of `j`.
pub open spec fn str_field(j: Json, key: Seq<char>) -> Option<Seq<char>> {
    as_str(field(j, key))
}

/// The ESTree node type of `j` (its `type` field).
pub open spec fn node_type(j: Json) -> Option<Seq<char>> {
    str_field(j, "type"@)
}

/// Whether `j` is a node of type `t`.
pub open spec fn is_type(j: Json, t: Seq<char>) -> bool {
    node_type(j) == Some(t)
}

/// Whether `b` is a nonempty run of ASCII digits.
pub open spec fn is_digits(b: Seq<u8>) -> bool {
    b.len() > 0 && forall|i: int| 0 <= i < b.len() ==> 48 <= #[trigger] b[i] <= 57
}

/// The value of a run of decimal digits.
pub open spec fn digits_value(b: Seq<u8>) -> nat
    decreases b.len(),
{
    if b.len() == 0 {
        0
    } else {
        digits_value(b.drop_last()) * 10 + (b.last() - 48) as nat
    }
}

/// The natural number held by the numeric field `key` of `j`.
pub open spec fn nat_field(j: Json, key: Seq<char>) -> Option<nat> {
    match field(j, key) {
        Some(Json::Num(b)) => if is_digits(b@) {
            Some(digits_value(b@))
        } else {
            None
        },
        _ => None,
    }
}

/// Start byte offset of a node.
pub open spec fn start_of(j: Json) -> Option<nat> {
    nat_field(j, "start"@)
}

/// End byte offset of a node.
pub open spec fn end_of(j: Json) -> Option<nat> {
    nat_field(j, "end"@)
}

/// The position of the field `lookup` finds.
proof fn lemma_lookup_index(fields: Seq<(String, Json)>, key: Seq<char>) -> (i: int)
    requires
        lookup(fields, key) is Some,
    ensures
        0 <= i < fields.len(),
        fields[i].1 == lookup(fields, key)->0,
    decreases fields.len(),
{
    if fields[0].0@ == key {
        0
    } else {
        let k = lemma_lookup_index(fields.drop_first(), key);
        k + 1
    }
}

/// A field's value is smaller than the node holding it.
pub proof fn lemma_field_decreases(j: Json, key: Seq<char>)
    requires
        field(j, key) is Some,
    ensures
        decreases_to!(j => field(j, key)->0),
{
    if let Json::Obj(f) = j {
        let i = lemma_lookup_index(f@, key);
        assert(decreases_to!(j => f));
        assert(decreases_to!(f => f@));
        assert(decreases_to!(f@ => f@[i]));
        assert(decreases_to!(f@[i] => f@[i].1));
    }
}

/// An element of an array field is smaller than the node holding it.
pub proof fn lemma_elem_decreases(j: Json, key: Seq<char>, idx: int)
    requires
        as_arr(field(j, key)) is Some,
        0 <= idx < as_arr(field(j, key))->0.len(),
    ensures
        decreases_to!(j => as_arr(field(j, key))->0[idx]),
{
    lemma_field_decreases(j, key);
    if let Some(Json::Arr(v)) = field(j, key) {
        assert(decreases_to!(Json::Arr(v) => v));
        assert(decreases_to!(v => v@));
        assert(decreases_to!(v@ => v@[idx]));
    }
}

/// The field `key` of `j`.
pub fn get<'a>(j: &'a Json, key: &str) -> (r: Option<&'a Json>)
    ensures
        match r {
            Some(x) => field(*j, key@) == Some(*x),
            None => field(*j, key@) is None,
        },
{
    match j {
        Json::Obj(fields) => {
            let mut i: usize = 0;
            assert(fields@.skip(0) =~= fields@);
            while i < fields.len()
                invariant
                    i <= fields@.len(),
                    field(*j, key@) == lookup(fields@, key@),
                    lookup(fields@, key@) == lookup(fields@.skip(i as int), key@),
                decreases fields@.len() - i,
            {
                assert(fields@.skip(i as int).drop_first() =~= fields@.skip(i + 1 as int));
                assert(fields@.skip(i as int)[0] == fields@[i as int]);
                if str_eq(fields[i].0.as_str(), key) {
                    assert(fields@.skip(i as int).len() > 0);
                    assert(fields@.skip(i as int)[0].0@ == key@);
                    assert(lookup(fields@.skip(i as int), key@) == Some(fields@[i as int].1));
                    let r = &fields[i].1;
                    assert(*r == fields@[i as int].1);
                    return Some(r);
                }
                i = i + 1;
            }
            assert(fields@.skip(i as int).len() == 0);
            None
        },
        _ => None,
    }
}

/// The string field `key` of `j`.
pub fn get_str<'a>(j: &'a Json, key: &str) -> (r: Option<&'a String>)
    ensures
        match r {
            Some(s) => str_field(*j, key@) == Some(s@),
            None => str_field(*j, key@) is None,
        },
{
    match get(j, key) {
        Some(Json::Str(s)) => Some(s),
        _ => None,
    }
}

/// The array field `key` of `j`.
pub fn get_arr<'a>(j: &'a Json, key: &str) -> (r: Option<&'a Vec<Json>>)
    ensures
        match r {
            Some(v) => as_arr(field(*j, key@)) == Some(v@),
            None => as_arr(field(*j, key@)) is None,
        },
{
    match get(j, key) {
        Some(Json::Arr(v)) => Some(v),
        _ => None,
    }
}

/// Whether `j` is a node of type `t`.
pub fn has_type(j: &Json, t: &str) -> (r: bool)
    ensures
        r == is_type(*j, t@),
{
    match get_str(j, "type") {
        Some(s) => str_eq(s.as_str(), t),
        None => false,
    }
}

/// The value of a run of decimal digits, if it fits in a `usize`.
pub fn parse_digits(b: &[u8]) -> (r: Option<usize>)
    ensures
        r matches Some(n) ==> is_digits(b@) && n == digits_value(b@),
        is_digits(b@) && digits_value(b@) <= usize::MAX ==> r is Some,
{
    if b.len() == 0 {
        return None;
    }
    let mut n: usize = 0;
    let mut i: usize = 0;
    while i < b.len()
        invariant
            i <= b@.len(),
            forall|k: int| 0 <= k < i ==> 48 <= #[trigger] b@[k] <= 57,
            n == digits_value(b@.subrange(0, i as int)),
        decreases b@.len() - i,
    {
        let d = b[i];
        assert(b@.subrange(0, i + 1 as int).drop_last() =~= b@.subrange(0, i as int));
        if d < 48 || d > 57 {
            assert(!is_digits(b@));
            return None;
        }
        let dv = (d - 48) as usize;
        if n > (usize::MAX - dv) / 10 {
            proof {
                if is_digits(b@) {
                    lemma_digits_value_prefix(b@, i + 1);
                }
                assert(n * 10 + dv > usize::MAX) by (nonlinear_arith)
                    requires
                        n > (usize::MAX - dv) / 10,
                        dv <= 9,
                ;
            }
            return None;
        }
        assert(n * 10 + dv <= usize::MAX) by (nonlinear_arith)
            requires
                n <= (usize::MAX - dv) / 10,
                dv <= 9,
        ;
        n = n * 10 + dv;
        i = i + 1;
    }
    assert(b@.subrange(0, b@.len() as int) =~= b@);
    Some(n)
}

/// A digit string is worth at least any of its prefixes.
proof fn lemma_digits_value_prefix(b: Seq<u8>, k: int)
    requires
        0 <= k <= b.len(),
        is_digits(b),
    ensures
        digits_value(b.subrange(0, k)) <= digits_value(b),
    decreases b.len() - k,
{
    if k < b.len() {
        lemma_digits_value_prefix(b, k + 1);
        assert(b.subrange(0, k + 1).drop_last() =~= b.subrange(0, k));
        assert(b.subrange(0, k + 1).last() == b[k]);
    } else {
        assert(b.subrange(0, k) =~= b);
    }
}

/// The natural number held by the numeric field `key` of `j`.
pub fn get_nat(j: &Json, key: &str) -> (r: Option<usize>)
    ensures
        r matches Some(n) ==> nat_field(*j, key@) == Some(n as nat),
        nat_field(*j, key@) matches Some(n) && n <= usize::MAX ==> r is Some,
{
    match get(j, key) {
        Some(Json::Num(b)) => parse_digits(b.as_slice()),
        _ => None,
    }
}

/// Convert a `serde_json` value into a [`Json`], one for one.
#[verifier::external_body]
pub(crate) fn json_from_value(v: &serde_json::Value) -> Json {
    match v {
        serde_json::Value::Null => Json::Null,
        serde_json::Value::Bool(b) => Json::Bool(*b),
        serde_json::Value::Number(n) => Json::Num(n.to_string().into_bytes()),
        serde_json::Value::String(s) => Json::Str(s.clone()),
        serde_json::Value::Array(a) => Json::Arr(a.iter().map(json_from_value).collect()),
        serde_json::Value::Object(o) => Json::Obj(
            o.iter().map(|(k, x)| (k.clone(), json_from_value(x))).collect(),
        ),
    }
}

/// What `serde_json` parses `text` into (objects in document order).
pub uninterp spec fn json_parse(text: Seq<char>) -> Option<Json>;

/// Parse JSON text with `serde_json` (no nesting limit); `None` when the text
/// is not JSON.
#[verifier::external_body]
pub(crate) fn parse_json(text: &str) -> (r: Option<Json>)
    ensures
        r == json_parse(text@),
{
    let mut de = serde_json::Deserializer::from_str(text);
    de.disable_recursion_limit();
    let value = serde_json::Value::deserialize(&mut de).ok()?;
    de.end().ok()?;
    Some(json_from_value(&value))
}

/// Convert a [`Json`] into a `serde_json` value, one for one (numbers are
/// read back from their decimal text).
#[verifier::external_body]
pub(crate) fn value_from_json(j: &Json) -> serde_json::Value {
    match j {
        Json::Null => serde_json::Value::Null,
        Json::Bool(b) => serde_json::Value::Bool(*b),
        Json::Num(t) => serde_json::from_slice(t).unwrap_or(serde_json::Value::Null),
        Json::Str(s) => serde_json::Value::String(s.clone()),
        Json::Arr(a) => serde_json::Value::Array(a.iter().map(value_from_json).collect()),
        Json::Obj(o) => serde_json::Value::Object(
            o.iter().map(|(k, x)| (k.clone(), value_from_json(x))).collect(),
        ),
    }
}

/// What `serde_json` writes for the value `j` (compact, fields in order).
pub uninterp spec fn json_text(j: Json) -> Seq<char>;

/// `serde_json::Value::to_string`: compact JSON text of `j`.
#[verifier::external_body]
pub(crate) fn json_to_string(j: &Json) -> (r: String)
    ensures
        r@ == json_text(*j),
{
    value_from_json(j).to_string()
}

} // verus!
