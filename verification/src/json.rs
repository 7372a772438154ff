//! The library's own model of a parsed JSON document.  The feed's frames are
//! JSON texts; parsing is delegated to an outside crate behind one trusted
//! wrapper, and everything downstream of the parse works on this plain-value
//! model and is verified.

use vstd::prelude::*;

verus! {

/// A parsed JSON document, as plain values.  A number is carried as the
/// decimal text it renders to: an integer in its plain decimal form, any
/// other number in Rust's display form, which is also the form the record
/// store writes.  An object's fields keep the order the parser returned.
#[derive(Debug, PartialEq)]
pub enum Json {
    Null,
    Bool(bool),
    Num(String),
    Str(String),
    Arr(Vec<Json>),
    Obj(Vec<(String, Json)>),
}

#[verifier::external_type_specification]
#[verifier::external_body]
pub struct ExValue(serde_json::Value);

/// The document that parsing a given text yields, if the text is valid JSON.
/// The parse depends on the text alone; this names its result.
pub uninterp spec fn json_of(s: Seq<char>) -> Option<Json>;

#[verifier::external_type_specification]
#[verifier::external_body]
pub struct ExNumber(serde_json::Number);

/// Relies on serde_json::Number's accessors: an integer renders through its
/// to_string, any other number through Rust's plain display form.
#[verifier::external_body]
fn num_text(n: &serde_json::Number) -> String {
    if let Some(u) = n.as_u64() {
        u.to_string()
    } else if let Some(i) = n.as_i64() {
        i.to_string()
    } else {
        match n.as_f64() {
            Some(x) => format!("{}", x),
            None => n.to_string(),
        }
    }
}

/// Relies on serde_json::Value: its six variants are carried over one for
/// one, numbers through `num_text`.
#[verifier::external_body]
fn json_from_value(v: &serde_json::Value) -> Json {
    match v {
        serde_json::Value::Null => Json::Null,
        serde_json::Value::Bool(b) => Json::Bool(*b),
        serde_json::Value::Number(n) => Json::Num(num_text(n)),
        serde_json::Value::String(s) => Json::Str(s.clone()),
        serde_json::Value::Array(a) => Json::Arr(a.iter().map(json_from_value).collect()),
        serde_json::Value::Object(o) => Json::Obj(
            o.iter().map(|(k, x)| (k.clone(), json_from_value(x))).collect(),
        ),
    }
}

/// Relies on serde_json::from_str::<serde_json::Value>: returns the parsed
/// document exactly when the text is one valid JSON value, and an error
/// otherwise.  `json_of` names the result, which depends on the text alone.
#[verifier::external_body]
pub(crate) fn parse_json(s: &str) -> (r: Option<Json>)
    ensures
        r == json_of(s@),
{
    match serde_json::from_str::<serde_json::Value>(s) {
        Ok(v) => Some(json_from_value(&v)),
        Err(_) => None,
    }
}

/// The value of the first field with the given key, if any.  The parser
/// returns objects with distinct keys, so the first match is the match.
pub open spec fn obj_first(fs: Seq<(String, Json)>, key: Seq<char>) -> Option<Json>
    decreases fs.len(),
{
    if fs.len() == 0 {
        None
    } else if fs[0].0@ == key {
        Some(fs[0].1)
    } else {
        obj_first(fs.drop_first(), key)
    }
}

/// Looks a key up among an object's fields, exactly as `obj_first` says.
pub fn obj_get<'a>(fs: &'a Vec<(String, Json)>, key: &String) -> (r: Option<&'a Json>)
    ensures
        match r {
            Some(j) => obj_first(fs@, key@) == Some(*j),
            None => obj_first(fs@, key@) is None,
        },
{
    let mut i: usize = 0;
    assert(fs@.skip(0) =~= fs@);
    while i < fs.len()
        invariant
            i <= fs@.len(),
            obj_first(fs@, key@) == obj_first(fs@.skip(i as int), key@),
        decreases fs@.len() - i,
    {
        assert(fs@.skip(i as int)[0] == fs@[i as int]);
        let entry: &(String, Json) = &fs[i];
        if entry.0.eq(key) {
            return Some(&entry.1);
        }
        assert(fs@.skip(i as int).drop_first() =~= fs@.skip(i as int + 1));
        i = i + 1;
    }
    None
}

} // verus!
