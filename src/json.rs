//! A model of JSON documents, and the parser and accessors of `serde_json`
//! stated over it.
use vstd::prelude::*;

verus! {

/// A JSON document as a value.
pub enum JsonValue {
    Null,
    Bool(bool),
    /// An integer number, as the parser holds it (from `i64::MIN` to `u64::MAX`).
    Int(int),
    /// A number with a fraction or an exponent, or one out of integer range.
    Fraction,
    Str(Seq<char>),
    Array(Seq<JsonValue>),
    Object(Map<Seq<char>, JsonValue>),
}

#[verifier::external_type_specification]
#[verifier::external_body]
pub struct ExValue(serde_json::Value);

/// The document that a `serde_json::Value` holds.
pub uninterp spec fn json_view(v: serde_json::Value) -> JsonValue;

/// The document that `serde_json::from_slice` reads from some bytes, if
/// they are one JSON text.
pub uninterp spec fn json_parse(b: Seq<u8>) -> Option<JsonValue>;

/// The message of the error that `serde_json::from_slice` reports on bytes
/// that are not one JSON text.
pub uninterp spec fn json_error_text(b: Seq<u8>) -> Seq<char>;

/// Relies on `serde_json::from_slice::<Value>`, and on the `Display` of its
/// error: reads one JSON text (surrounding whitespace allowed), or reports
/// why the bytes are not one.
#[verifier::external_body]
pub(crate) fn parse_json(b: &[u8]) -> (r: Result<serde_json::Value, String>)
    ensures
        match r {
            Ok(v) => json_parse(b@) == Some(json_view(v)),
            Err(m) => json_parse(b@) is None && m@ == json_error_text(b@),
        },
{
    match serde_json::from_slice::<serde_json::Value>(b) {
        Ok(v) => Ok(v),
        Err(e) => Err(e.to_string()),
    }
}

/// Relies on `serde_json::Value::get` with a string key: the member of that
/// name of an object, nothing for any other value.
#[verifier::external_body]
pub(crate) fn member<'a>(v: &'a serde_json::Value, key: &str) -> (r: Option<&'a serde_json::Value>)
    ensures
        match json_view(*v) {
            JsonValue::Object(m) => match r {
                Some(x) => m.contains_key(key@) && json_view(*x) == m[key@],
                None => !m.contains_key(key@),
            },
            _ => r is None,
        },
{
    v.get(key)
}

/// Relies on `Clone` of `serde_json::Value` (derived): a copy holds the
/// same document.
pub assume_specification[ <serde_json::Value as Clone>::clone ](v: &serde_json::Value) -> (r:
    serde_json::Value)
    ensures
        json_view(r) == json_view(*v),
;

/// Relies on `serde_json::Value::as_str`: the text of a string.
pub assume_specification[ serde_json::Value::as_str ](v: &serde_json::Value) -> (r: Option<&str>)
    ensures
        match json_view(*v) {
            JsonValue::Str(t) => r is Some && r->Some_0@ == t,
            _ => r is None,
        },
;

/// Relies on `serde_json::Value::as_bool`: the value of a boolean.
pub assume_specification[ serde_json::Value::as_bool ](v: &serde_json::Value) -> (r: Option<bool>)
    ensures
        match json_view(*v) {
            JsonValue::Bool(b) => r == Some(b),
            _ => r is None,
        },
;

/// Relies on `serde_json::Value::as_u64`: an integer that fits in `u64`.
pub assume_specification[ serde_json::Value::as_u64 ](v: &serde_json::Value) -> (r: Option<u64>)
    ensures
        match json_view(*v) {
            JsonValue::Int(i) => if 0 <= i <= u64::MAX {
                r == Some(i as u64)
            } else {
                r is None
            },
            _ => r is None,
        },
;

/// Relies on `serde_json::Value::as_i64`: an integer that fits in `i64`.
pub assume_specification[ serde_json::Value::as_i64 ](v: &serde_json::Value) -> (r: Option<i64>)
    ensures
        match json_view(*v) {
            JsonValue::Int(i) => if i64::MIN <= i <= i64::MAX {
                r == Some(i as i64)
            } else {
                r is None
            },
            _ => r is None,
        },
;

/// Relies on `serde_json::Value::is_null`.
pub assume_specification[ serde_json::Value::is_null ](v: &serde_json::Value) -> (r: bool)
    ensures
        r == (json_view(*v) is Null),
;

/// Relies on `serde_json::Value::as_array`: the elements of an array, in order.
pub assume_specification[ serde_json::Value::as_array ](v: &serde_json::Value) -> (r: Option<
    &Vec<serde_json::Value>,
>)
    ensures
        match json_view(*v) {
            JsonValue::Array(items) => r is Some && r->Some_0@.len() == items.len() && forall|
                i: int,
            |
                0 <= i < items.len() ==> json_view(#[trigger] r->Some_0@[i]) == items[i],
            _ => r is None,
        },
;

/// The member `k` of an object, if it has one.
pub open spec fn field(j: JsonValue, k: Seq<char>) -> Option<JsonValue> {
    match j {
        JsonValue::Object(m) => if m.contains_key(k) {
            Some(m[k])
        } else {
            None
        },
        _ => None,
    }
}

/// The member `k` of an object where it is there and not `null`.
pub open spec fn present(j: JsonValue, k: Seq<char>) -> Option<JsonValue> {
    match field(j, k) {
        Some(JsonValue::Null) => None,
        other => other,
    }
}

/// The message for a member that is missing where it is required, or has
/// the wrong type.
pub open spec fn field_error(k: Seq<char>) -> Seq<char> {
    "invalid or missing field `"@ + k + "`"@
}

pub open spec fn str_of(j: JsonValue) -> Option<Seq<char>> {
    match j {
        JsonValue::Str(t) => Some(t),
        _ => None,
    }
}

pub open spec fn int_of(j: JsonValue, lo: int, hi: int) -> Option<int> {
    match j {
        JsonValue::Int(i) => if lo <= i <= hi {
            Some(i)
        } else {
            None
        },
        _ => None,
    }
}

/// A required string member.
pub open spec fn req_str_spec(j: JsonValue, k: Seq<char>) -> Result<Seq<char>, Seq<char>> {
    match field(j, k) {
        Some(JsonValue::Str(t)) => Ok(t),
        _ => Err(field_error(k)),
    }
}

/// An optional string member: absent and `null` both give nothing.
pub open spec fn opt_str_spec(j: JsonValue, k: Seq<char>) -> Result<Option<Seq<char>>, Seq<char>> {
    match present(j, k) {
        None => Ok(None),
        Some(JsonValue::Str(t)) => Ok(Some(t)),
        _ => Err(field_error(k)),
    }
}

/// A required boolean member.
pub open spec fn req_bool_spec(j: JsonValue, k: Seq<char>) -> Result<bool, Seq<char>> {
    match field(j, k) {
        Some(JsonValue::Bool(b)) => Ok(b),
        _ => Err(field_error(k)),
    }
}

/// A required integer member within `lo..=hi`.
pub open spec fn req_int_spec(j: JsonValue, k: Seq<char>, lo: int, hi: int) -> Result<int, Seq<char>> {
    match field(j, k) {
        Some(x) => match int_of(x, lo, hi) {
            Some(i) => Ok(i),
            None => Err(field_error(k)),
        },
        None => Err(field_error(k)),
    }
}

/// An optional integer member within `lo..=hi`.
pub open spec fn opt_int_spec(j: JsonValue, k: Seq<char>, lo: int, hi: int) -> Result<
    Option<int>,
    Seq<char>,
> {
    match present(j, k) {
        None => Ok(None),
        Some(x) => match int_of(x, lo, hi) {
            Some(i) => Ok(Some(i)),
            None => Err(field_error(k)),
        },
    }
}

/// Each element of `items` read by `f`, or the first element's error.
pub open spec fn decode_seq<V>(items: Seq<JsonValue>, f: spec_fn(JsonValue) -> Option<V>) -> Option<
    Seq<V>,
>
    decreases items.len(),
{
    if items.len() == 0 {
        Some(Seq::empty())
    } else {
        match decode_seq(items.drop_last(), f) {
            Some(vs) => match f(items.last()) {
                Some(v) => Some(vs.push(v)),
                None => None,
            },
            None => None,
        }
    }
}

/// Reads one element that must be a string.
pub open spec fn str_elem() -> spec_fn(JsonValue) -> Option<Seq<char>> {
    |x: JsonValue| str_of(x)
}

/// Reads one element that must be an integer within `lo..=hi`.
pub open spec fn int_elem(lo: int, hi: int) -> spec_fn(JsonValue) -> Option<int> {
    |x: JsonValue| int_of(x, lo, hi)
}

/// An optional member that is an array of strings.
pub open spec fn opt_str_list_spec(j: JsonValue, k: Seq<char>) -> Result<
    Option<Seq<Seq<char>>>,
    Seq<char>,
> {
    match present(j, k) {
        None => Ok(None),
        Some(JsonValue::Array(items)) => match decode_seq(items, str_elem()) {
            Some(vs) => Ok(Some(vs)),
            None => Err(field_error(k)),
        },
        _ => Err(field_error(k)),
    }
}

/// An optional member that is an array of integers within `lo..=hi`.
pub open spec fn opt_int_list_spec(j: JsonValue, k: Seq<char>, lo: int, hi: int) -> Result<
    Option<Seq<int>>,
    Seq<char>,
> {
    match present(j, k) {
        None => Ok(None),
        Some(JsonValue::Array(items)) => match decode_seq(items, int_elem(lo, hi)) {
            Some(vs) => Ok(Some(vs)),
            None => Err(field_error(k)),
        },
        _ => Err(field_error(k)),
    }
}

pub open spec fn opt_str_view(o: Option<String>) -> Option<Seq<char>> {
    match o {
        Some(s) => Some(s@),
        None => None,
    }
}

pub(crate) fn field_error_message(key: &str) -> (r: String)
    ensures
        r@ == field_error(key@),
{
    let m = String::from_str("invalid or missing field `");
    let m = m.concat(key);
    m.concat("`")
}

/// Reads a required string member.
pub fn req_str(j: &serde_json::Value, key: &str) -> (r: Result<String, String>)
    ensures
        match r {
            Ok(s) => req_str_spec(json_view(*j), key@) == Ok::<Seq<char>, Seq<char>>(s@),
            Err(m) => req_str_spec(json_view(*j), key@) == Err::<Seq<char>, Seq<char>>(m@),
        },
{
    match member(j, key) {
        Some(x) => match x.as_str() {
            Some(t) => Ok(t.to_owned()),
            None => Err(field_error_message(key)),
        },
        None => Err(field_error_message(key)),
    }
}

/// Reads an optional string member.
pub fn opt_str(j: &serde_json::Value, key: &str) -> (r: Result<Option<String>, String>)
    ensures
        match r {
            Ok(s) => opt_str_spec(json_view(*j), key@) == Ok::<Option<Seq<char>>, Seq<char>>(
                opt_str_view(s),
            ),
            Err(m) => opt_str_spec(json_view(*j), key@) == Err::<Option<Seq<char>>, Seq<char>>(m@),
        },
{
    match member(j, key) {
        Some(x) => {
            if x.is_null() {
                Ok(None)
            } else {
                match x.as_str() {
                    Some(t) => Ok(Some(t.to_owned())),
                    None => Err(field_error_message(key)),
                }
            }
        },
        None => Ok(None),
    }
}

/// Reads a required boolean member.
pub fn req_bool(j: &serde_json::Value, key: &str) -> (r: Result<bool, String>)
    ensures
        match r {
            Ok(b) => req_bool_spec(json_view(*j), key@) == Ok::<bool, Seq<char>>(b),
            Err(m) => req_bool_spec(json_view(*j), key@) == Err::<bool, Seq<char>>(m@),
        },
{
    match member(j, key) {
        Some(x) => match x.as_bool() {
            Some(b) => Ok(b),
            None => Err(field_error_message(key)),
        },
        None => Err(field_error_message(key)),
    }
}

fn u64_of(x: &serde_json::Value) -> (r: Option<u64>)
    ensures
        match int_of(json_view(*x), 0, u64::MAX as int) {
            Some(i) => r == Some(i as u64),
            None => r is None,
        },
{
    x.as_u64()
}

fn u32_of(x: &serde_json::Value) -> (r: Option<u32>)
    ensures
        match int_of(json_view(*x), 0, u32::MAX as int) {
            Some(i) => r == Some(i as u32),
            None => r is None,
        },
{
    match x.as_u64() {
        Some(n) => if n <= u32::MAX as u64 {
            Some(n as u32)
        } else {
            None
        },
        None => None,
    }
}

fn i32_of(x: &serde_json::Value) -> (r: Option<i32>)
    ensures
        match int_of(json_view(*x), i32::MIN as int, i32::MAX as int) {
            Some(i) => r == Some(i as i32),
            None => r is None,
        },
{
    match x.as_i64() {
        Some(n) => if i32::MIN as i64 <= n && n <= i32::MAX as i64 {
            Some(n as i32)
        } else {
            None
        },
        None => None,
    }
}

/// Reads an optional member that is an integer fitting in `u64`.
pub fn opt_u64(j: &serde_json::Value, key: &str) -> (r: Result<Option<u64>, String>)
    ensures
        match r {
            Ok(Some(n)) => opt_int_spec(json_view(*j), key@, 0, u64::MAX as int) == Ok::<
                Option<int>,
                Seq<char>,
            >(Some(n as int)),
            Ok(None) => opt_int_spec(json_view(*j), key@, 0, u64::MAX as int) == Ok::<
                Option<int>,
                Seq<char>,
            >(None),
            Err(m) => opt_int_spec(json_view(*j), key@, 0, u64::MAX as int) == Err::<
                Option<int>,
                Seq<char>,
            >(m@),
        },
{
    match member(j, key) {
        Some(x) => {
            if x.is_null() {
                Ok(None)
            } else {
                match u64_of(x) {
                    Some(n) => Ok(Some(n)),
                    None => Err(field_error_message(key)),
                }
            }
        },
        None => Ok(None),
    }
}

/// Reads an optional member that is an integer fitting in `u32`.
pub fn opt_u32(j: &serde_json::Value, key: &str) -> (r: Result<Option<u32>, String>)
    ensures
        match r {
            Ok(Some(n)) => opt_int_spec(json_view(*j), key@, 0, u32::MAX as int) == Ok::<
                Option<int>,
                Seq<char>,
            >(Some(n as int)),
            Ok(None) => opt_int_spec(json_view(*j), key@, 0, u32::MAX as int) == Ok::<
                Option<int>,
                Seq<char>,
            >(None),
            Err(m) => opt_int_spec(json_view(*j), key@, 0, u32::MAX as int) == Err::<
                Option<int>,
                Seq<char>,
            >(m@),
        },
{
    match member(j, key) {
        Some(x) => {
            if x.is_null() {
                Ok(None)
            } else {
                match u32_of(x) {
                    Some(n) => Ok(Some(n)),
                    None => Err(field_error_message(key)),
                }
            }
        },
        None => Ok(None),
    }
}

/// Reads a required member that is an integer fitting in `u64`.
pub fn req_u64(j: &serde_json::Value, key: &str) -> (r: Result<u64, String>)
    ensures
        match r {
            Ok(n) => req_int_spec(json_view(*j), key@, 0, u64::MAX as int) == Ok::<int, Seq<char>>(
                n as int,
            ),
            Err(m) => req_int_spec(json_view(*j), key@, 0, u64::MAX as int) == Err::<
                int,
                Seq<char>,
            >(m@),
        },
{
    match member(j, key) {
        Some(x) => match u64_of(x) {
            Some(n) => Ok(n),
            None => Err(field_error_message(key)),
        },
        None => Err(field_error_message(key)),
    }
}

/// Reads a required member that is an integer fitting in `i32`.
pub fn req_i32(j: &serde_json::Value, key: &str) -> (r: Result<i32, String>)
    ensures
        match r {
            Ok(n) => req_int_spec(json_view(*j), key@, i32::MIN as int, i32::MAX as int) == Ok::<
                int,
                Seq<char>,
            >(n as int),
            Err(m) => req_int_spec(json_view(*j), key@, i32::MIN as int, i32::MAX as int) == Err::<
                int,
                Seq<char>,
            >(m@),
        },
{
    match member(j, key) {
        Some(x) => match i32_of(x) {
            Some(n) => Ok(n),
            None => Err(field_error_message(key)),
        },
        None => Err(field_error_message(key)),
    }
}

pub open spec fn ints_view(v: Seq<i32>) -> Seq<int> {
    v.map_values(|x: i32| x as int)
}

pub open spec fn strs_view(v: Seq<String>) -> Seq<Seq<char>> {
    v.map_values(|x: String| x@)
}

/// Reads an optional member that is an array of integers fitting in `i32`.
pub fn opt_i32_list(j: &serde_json::Value, key: &str) -> (r: Result<Option<Vec<i32>>, String>)
    ensures
        match r {
            Ok(Some(v)) => opt_int_list_spec(json_view(*j), key@, i32::MIN as int, i32::MAX as int)
                == Ok::<Option<Seq<int>>, Seq<char>>(Some(ints_view(v@))),
            Ok(None) => opt_int_list_spec(json_view(*j), key@, i32::MIN as int, i32::MAX as int)
                == Ok::<Option<Seq<int>>, Seq<char>>(None),
            Err(m) => opt_int_list_spec(json_view(*j), key@, i32::MIN as int, i32::MAX as int)
                == Err::<Option<Seq<int>>, Seq<char>>(m@),
        },
{
    let x = match member(j, key) {
        Some(x) => x,
        None => {
            return Ok(None);
        },
    };
    if x.is_null() {
        return Ok(None);
    }
    let items = match x.as_array() {
        Some(items) => items,
        None => {
            return Err(field_error_message(key));
        },
    };
    let ghost model = match json_view(*x) {
        JsonValue::Array(m) => m,
        _ => Seq::empty(),
    };
    let mut out: Vec<i32> = Vec::new();
    let mut i: usize = 0;
    assert(model.take(0) =~= Seq::<JsonValue>::empty());
    assert(ints_view(out@) =~= Seq::<int>::empty());
    while i < items.len()
        invariant
            0 <= i <= items@.len(),
            json_view(*x) == JsonValue::Array(model),
            present(json_view(*j), key@) == Some(JsonValue::Array(model)),
            items@.len() == model.len(),
            forall|k: int| 0 <= k < model.len() ==> json_view(#[trigger] items@[k]) == model[k],
            decode_seq(model.take(i as int), int_elem(i32::MIN as int, i32::MAX as int)) == Some(ints_view(out@)),
        decreases items@.len() - i,
    {
        assert(model.take(i + 1).drop_last() =~= model.take(i as int));
        assert(model.take(i + 1).last() == model[i as int]);
        assert(json_view(items@[i as int]) == model[i as int]);
        let got = i32_of(&items[i]);
        assert(int_elem(i32::MIN as int, i32::MAX as int)(model[i as int]) == int_of(model[i as int], i32::MIN as int, i32::MAX as int));
        match got {
            Some(n) => {
                let ghost before = out@;
                out.push(n);
                assert(ints_view(out@) =~= ints_view(before).push(n as int));
            },
            None => {
                proof {
                    lemma_decode_seq_prefix_fails(
                        model,
                        int_elem(i32::MIN as int, i32::MAX as int),
                        i as int + 1,
                    );
                }
                return Err(field_error_message(key));
            },
        }
        i = i + 1;
    }
    assert(model.take(model.len() as int) =~= model);
    Ok(Some(out))
}

/// Reads an optional member that is an array of strings.
pub fn opt_str_list(j: &serde_json::Value, key: &str) -> (r: Result<Option<Vec<String>>, String>)
    ensures
        match r {
            Ok(Some(v)) => opt_str_list_spec(json_view(*j), key@) == Ok::<
                Option<Seq<Seq<char>>>,
                Seq<char>,
            >(Some(strs_view(v@))),
            Ok(None) => opt_str_list_spec(json_view(*j), key@) == Ok::<
                Option<Seq<Seq<char>>>,
                Seq<char>,
            >(None),
            Err(m) => opt_str_list_spec(json_view(*j), key@) == Err::<
                Option<Seq<Seq<char>>>,
                Seq<char>,
            >(m@),
        },
{
    let x = match member(j, key) {
        Some(x) => x,
        None => {
            return Ok(None);
        },
    };
    if x.is_null() {
        return Ok(None);
    }
    let items = match x.as_array() {
        Some(items) => items,
        None => {
            return Err(field_error_message(key));
        },
    };
    let ghost model = match json_view(*x) {
        JsonValue::Array(m) => m,
        _ => Seq::empty(),
    };
    let mut out: Vec<String> = Vec::new();
    let mut i: usize = 0;
    assert(model.take(0) =~= Seq::<JsonValue>::empty());
    assert(strs_view(out@) =~= Seq::<Seq<char>>::empty());
    while i < items.len()
        invariant
            0 <= i <= items@.len(),
            json_view(*x) == JsonValue::Array(model),
            present(json_view(*j), key@) == Some(JsonValue::Array(model)),
            items@.len() == model.len(),
            forall|k: int| 0 <= k < model.len() ==> json_view(#[trigger] items@[k]) == model[k],
            decode_seq(model.take(i as int), str_elem()) == Some(strs_view(out@)),
        decreases items@.len() - i,
    {
        assert(model.take(i + 1).drop_last() =~= model.take(i as int));
        assert(model.take(i + 1).last() == model[i as int]);
        assert(json_view(items@[i as int]) == model[i as int]);
        assert(str_elem()(model[i as int]) == str_of(model[i as int]));
        match items[i].as_str() {
            Some(t) => {
                let ghost before = out@;
                let s = t.to_owned();
                out.push(s);
                assert(strs_view(out@) =~= strs_view(before).push(s@));
            },
            None => {
                proof {
                    lemma_decode_seq_prefix_fails(model, str_elem(), i as int + 1);
                }
                return Err(field_error_message(key));
            },
        }
        i = i + 1;
    }
    assert(model.take(model.len() as int) =~= model);
    Ok(Some(out))
}

/// Once a prefix fails to decode, so does the whole sequence.
pub proof fn lemma_decode_seq_prefix_fails<V>(
    items: Seq<JsonValue>,
    f: spec_fn(JsonValue) -> Option<V>,
    n: int,
)
    requires
        0 <= n <= items.len(),
        decode_seq(items.take(n), f) is None,
    ensures
        decode_seq(items, f) is None,
    decreases items.len() - n,
{
    if n < items.len() {
        assert(items.take(n + 1).drop_last() =~= items.take(n));
        lemma_decode_seq_prefix_fails(items, f, n + 1);
    } else {
        assert(items.take(n) =~= items);
    }
}

/// Each element of `items` read by `f`, or the error of the first element
/// that `f` refuses.
pub open spec fn decode_all<V>(
    items: Seq<JsonValue>,
    f: spec_fn(JsonValue) -> Result<V, Seq<char>>,
) -> Result<Seq<V>, Seq<char>>
    decreases items.len(),
{
    if items.len() == 0 {
        Ok(Seq::empty())
    } else {
        match decode_all(items.drop_last(), f) {
            Ok(vs) => match f(items.last()) {
                Ok(v) => Ok(vs.push(v)),
                Err(e) => Err(e),
            },
            Err(e) => Err(e),
        }
    }
}

/// Once a prefix fails to decode, the whole sequence fails with its error.
pub proof fn lemma_decode_all_prefix_fails<V>(
    items: Seq<JsonValue>,
    f: spec_fn(JsonValue) -> Result<V, Seq<char>>,
    n: int,
)
    requires
        0 <= n <= items.len(),
        decode_all(items.take(n), f) is Err,
    ensures
        decode_all(items, f) == decode_all(items.take(n), f),
    decreases items.len() - n,
{
    if n < items.len() {
        assert(items.take(n + 1).drop_last() =~= items.take(n));
        lemma_decode_all_prefix_fails(items, f, n + 1);
    } else {
        assert(items.take(n) =~= items);
    }
}

/// A required member that is an array whose elements `f` reads.
pub open spec fn req_list_spec<V>(
    j: JsonValue,
    k: Seq<char>,
    f: spec_fn(JsonValue) -> Result<V, Seq<char>>,
) -> Result<Seq<V>, Seq<char>> {
    match field(j, k) {
        Some(JsonValue::Array(items)) => decode_all(items, f),
        _ => Err(field_error(k)),
    }
}

/// An optional member that is an array whose elements `f` reads.
pub open spec fn opt_list_spec<V>(
    j: JsonValue,
    k: Seq<char>,
    f: spec_fn(JsonValue) -> Result<V, Seq<char>>,
) -> Result<Option<Seq<V>>, Seq<char>> {
    match present(j, k) {
        None => Ok(None),
        Some(JsonValue::Array(items)) => match decode_all(items, f) {
            Ok(vs) => Ok(Some(vs)),
            Err(e) => Err(e),
        },
        _ => Err(field_error(k)),
    }
}

/// A required member that `f` reads.
pub open spec fn req_obj_spec<V>(
    j: JsonValue,
    k: Seq<char>,
    f: spec_fn(JsonValue) -> Result<V, Seq<char>>,
) -> Result<V, Seq<char>> {
    match field(j, k) {
        Some(x) => f(x),
        None => Err(field_error(k)),
    }
}

/// An optional member that `f` reads.
pub open spec fn opt_obj_spec<V>(
    j: JsonValue,
    k: Seq<char>,
    f: spec_fn(JsonValue) -> Result<V, Seq<char>>,
) -> Result<Option<V>, Seq<char>> {
    match present(j, k) {
        None => Ok(None),
        Some(x) => match f(x) {
            Ok(v) => Ok(Some(v)),
            Err(e) => Err(e),
        },
    }
}

/// The member `key` where it is there and not `null`.
pub fn present_member<'a>(j: &'a serde_json::Value, key: &str) -> (r: Option<&'a serde_json::Value>)
    ensures
        match present(json_view(*j), key@) {
            Some(x) => r is Some && json_view(*r->Some_0) == x,
            None => r is None,
        },
{
    match member(j, key) {
        Some(x) => {
            if x.is_null() {
                None
            } else {
                Some(x)
            }
        },
        None => None,
    }
}

/// The member `key`, if there is one.
pub fn get_member<'a>(j: &'a serde_json::Value, key: &str) -> (r: Option<&'a serde_json::Value>)
    ensures
        match field(json_view(*j), key@) {
            Some(x) => r is Some && json_view(*r->Some_0) == x,
            None => r is None,
        },
{
    member(j, key)
}

} // verus!
