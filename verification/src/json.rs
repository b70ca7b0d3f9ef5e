//! A model of parsed JSON documents.
//!
//! The wire envelope is JSON, parsed by `rustc_serialize`.  Since the
//! parser's output type is opaque to the verifier, every parsed document
//! is converted, one variant at a time, into the crate's own `JsonVal`,
//! over which the envelope classification and the payload decoders are
//! then verified.  Object fields arrive key-sorted and without duplicate
//! keys, as the parser's `BTreeMap` holds them.

use vstd::prelude::*;
use rustc_serialize::json::Json;

verus! {

/// One parsed JSON value, held as plain data.
///
/// Numbers are split three ways: `Int` for negative integers, `UInt` for
/// non-negative ones (as the parser reports them), and `Float` for
/// non-integral numbers, whose value no part of the protocol reads.
#[derive(Debug)]
pub enum JsonVal {
    Null,
    Bool(bool),
    Int(i64),
    UInt(u64),
    Float,
    Str(String),
    Arr(Vec<JsonVal>),
    Obj(Vec<(String, JsonVal)>),
}

/// The value under `key` in an object's field list: the first pair with
/// that name (the parser yields each key at most once).
pub open spec fn obj_lookup(fields: Seq<(String, JsonVal)>, key: Seq<char>) -> Option<JsonVal>
    decreases fields.len(),
{
    if fields.len() == 0 {
        None
    } else if fields[0].0@ == key {
        Some(fields[0].1)
    } else {
        obj_lookup(fields.drop_first(), key)
    }
}

/// What `parse_json` yields on the given text: the parsed document, or
/// nothing when the text is not valid JSON.
pub uninterp spec fn json_of(s: Seq<char>) -> Option<JsonVal>;

#[verifier::external_type_specification]
#[verifier::external_body]
pub struct ExJson(Json);

/// Relies on the variants of `rustc_serialize::json::Json`: each is moved
/// into the matching `JsonVal` variant, fields converted one for one.
#[verifier::external_body]
fn json_val_of(j: Json) -> JsonVal {
    match j {
        Json::Null => JsonVal::Null,
        Json::Boolean(b) => JsonVal::Bool(b),
        Json::I64(n) => JsonVal::Int(n),
        Json::U64(n) => JsonVal::UInt(n),
        Json::F64(_) => JsonVal::Float,
        Json::String(s) => JsonVal::Str(s),
        Json::Array(a) => JsonVal::Arr(a.into_iter().map(json_val_of).collect()),
        Json::Object(o) => JsonVal::Obj(o.into_iter().map(|(k, v)| (k, json_val_of(v))).collect()),
    }
}

/// Relies on `rustc_serialize::json::Json::from_str`: it parses the text
/// as one JSON document, deterministically, and fails exactly on text
/// that is not valid JSON; the error's rendering is the parse diagnostic.
#[verifier::external_body]
pub fn parse_json(s: &str) -> (r: Result<JsonVal, String>)
    ensures
        r matches Ok(v) ==> json_of(s@) == Some(v),
        r matches Err(_) ==> json_of(s@) is None,
{
    match Json::from_str(s) {
        Ok(j) => Ok(json_val_of(j)),
        Err(e) => Err(format!("{}", e)),
    }
}

/// Looks `key` up in an object's field list.
pub fn obj_get<'a>(fields: &'a Vec<(String, JsonVal)>, key: &str) -> (r: Option<&'a JsonVal>)
    ensures
        match r {
            Some(v) => obj_lookup(fields@, key@) == Some(*v),
            None => obj_lookup(fields@, key@) is None,
        },
{
    let needle = key.to_owned();
    proof {
        assert(fields@.skip(0) =~= fields@);
    }
    let mut i: usize = 0;
    while i < fields.len()
        invariant
            i <= fields.len(),
            needle@ == key@,
            obj_lookup(fields@, key@) == obj_lookup(fields@.skip(i as int), key@),
        decreases fields.len() - i,
    {
        proof {
            assert(fields@.skip(i as int)[0] == fields@[i as int]);
            assert(fields@.skip(i as int).drop_first() =~= fields@.skip(i as int + 1));
        }
        if fields[i].0 == needle {
            return Some(&fields[i].1);
        }
        i = i + 1;
    }
    proof {
        assert(fields@.skip(fields@.len() as int).len() == 0);
    }
    None
}

} // verus!
