//! Response envelope decoding and error classification.
//!
//! Every response body is decoded as the uniform envelope
//! `{ok, result?, description?}` and classified into exactly one of four
//! outcomes: a typed payload, an API-level error, a decode error, or an
//! invalid-state error for an envelope that violates its own contract.
//! Payloads are decoded per method through an explicit schema, with
//! field-presence checks spelled out.

use vstd::prelude::*;
use crate::json::{obj_get, obj_lookup, json_of, parse_json, JsonVal};

verus! {

/// Everything that a client operation can fail with.
///
/// `Http` and `Io` are transport failures, raised by whatever performs
/// the request; `Json` is a decode failure; `Api` carries the server's
/// own description of a reported failure; `InvalidState` marks an
/// envelope that violates the protocol contract; `Config` reports a
/// credential token that cannot form a valid endpoint.
#[derive(Debug)]
pub enum Error {
    Http(String),
    Io(String),
    Json(String),
    Api(String),
    InvalidState(String),
    Config(String),
}

impl Error {
    /// The human-readable text carried by the error.
    pub open spec fn spec_description(&self) -> Seq<char> {
        match self {
            Error::Http(s) => s@,
            Error::Io(s) => s@,
            Error::Json(s) => s@,
            Error::Api(s) => s@,
            Error::InvalidState(s) => s@,
            Error::Config(s) => s@,
        }
    }

    /// The human-readable text carried by the error.
    pub fn description(&self) -> (r: &str)
        ensures
            r@ == self.spec_description(),
    {
        match self {
            Error::Http(s) => s.as_str(),
            Error::Io(s) => s.as_str(),
            Error::Json(s) => s.as_str(),
            Error::Api(s) => s.as_str(),
            Error::InvalidState(s) => s.as_str(),
            Error::Config(s) => s.as_str(),
        }
    }
}

/// A user record, as the `getMe` method returns it.
#[derive(Debug)]
pub struct User {
    pub id: i64,
    pub first_name: Option<String>,
}

/// One server-pushed event.  `update_id` is its server-assigned
/// identifier; `payload` is the record as it was received.
#[derive(Debug)]
pub struct Update {
    pub update_id: i64,
    pub payload: JsonVal,
}

/// The methods whose payload schema the crate knows.
pub enum Method {
    GetMe,
    GetUpdates,
}

/// A decoded method payload, keyed by the method it answers.
pub enum Payload {
    User(User),
    Updates(Vec<Update>),
}

/// How one envelope classifies, before the payload is interpreted.
pub enum Classified {
    /// `ok == true` with a result present: the payload, still raw.
    Payload(JsonVal),
    /// `ok == false` with a description present: the server's text.
    ApiErr(String),
    /// `ok == false` without description, or `ok == true` without
    /// result: the envelope violates its own contract.
    StateErr,
    /// Not an object, or `ok` missing or not a boolean, or a
    /// description that is not a string: not an envelope at all.
    ShapeErr,
}

/// The four-way classification of a parsed envelope.
pub open spec fn spec_classify(v: JsonVal) -> Classified {
    match v {
        JsonVal::Obj(fields) => match obj_lookup(fields@, "ok"@) {
            Some(JsonVal::Bool(true)) => match obj_lookup(fields@, "result"@) {
                Some(p) => Classified::Payload(p),
                None => Classified::StateErr,
            },
            Some(JsonVal::Bool(false)) => match obj_lookup(fields@, "description"@) {
                Some(JsonVal::Str(d)) => Classified::ApiErr(d),
                Some(_) => Classified::ShapeErr,
                None => Classified::StateErr,
            },
            _ => Classified::ShapeErr,
        },
        _ => Classified::ShapeErr,
    }
}

/// Classifies one parsed envelope, yielding the raw payload or the
/// matching error.
pub fn classify(v: JsonVal) -> (r: Result<JsonVal, Error>)
    ensures
        match spec_classify(v) {
            Classified::Payload(p) => r matches Ok(q) && q == p,
            Classified::ApiErr(d) => r matches Err(e) && e matches Error::Api(s) && s == d,
            Classified::StateErr => r matches Err(e) && (e matches Error::InvalidState(s)
                && s@ == "Invalid server response"@),
            Classified::ShapeErr => r matches Err(e) && e matches Error::Json(_),
        },
{
    match v {
        JsonVal::Obj(mut fields) => {
            let flag: Option<bool> = match obj_get(&fields, "ok") {
                Some(JsonVal::Bool(b)) => Some(*b),
                _ => None,
            };
            match flag {
                Some(true) => match obj_take(&mut fields, "result") {
                    Some(p) => Ok(p),
                    None => Err(Error::InvalidState("Invalid server response".to_owned())),
                },
                Some(false) => match obj_take(&mut fields, "description") {
                    Some(JsonVal::Str(d)) => Err(Error::Api(d)),
                    Some(_) => Err(Error::Json("envelope description is not a string".to_owned())),
                    None => Err(Error::InvalidState("Invalid server response".to_owned())),
                },
                None => Err(Error::Json("envelope has no boolean ok field".to_owned())),
            }
        },
        _ => Err(Error::Json("envelope is not an object".to_owned())),
    }
}

/// Removes `key`'s pair from an object's field list and yields its value.
fn obj_take(fields: &mut Vec<(String, JsonVal)>, key: &str) -> (r: Option<JsonVal>)
    ensures
        match r {
            Some(x) => obj_lookup(old(fields)@, key@) == Some(x),
            None => obj_lookup(old(fields)@, key@) is None,
        },
{
    let needle = key.to_owned();
    proof {
        assert(fields@.skip(0) =~= fields@);
    }
    let mut i: usize = 0;
    while i < fields.len()
        invariant
            i <= fields.len(),
            needle@ == key@,
            fields@ == old(fields)@,
            obj_lookup(fields@, key@) == obj_lookup(fields@.skip(i as int), key@),
        decreases fields.len() - i,
    {
        proof {
            assert(fields@.skip(i as int)[0] == fields@[i as int]);
            assert(fields@.skip(i as int).drop_first() =~= fields@.skip(i as int + 1));
        }
        if fields[i].0 == needle {
            let pair = fields.remove(i);
            return Some(pair.1);
        }
        i = i + 1;
    }
    proof {
        assert(fields@.skip(fields@.len() as int).len() == 0);
    }
    None
}

/// The update record decoded from one element of a `getUpdates` result:
/// an object whose `update_id` is an integer identifier below the
/// largest one the offset cursor can move past.
pub open spec fn spec_update_of(v: JsonVal) -> Option<Update> {
    match v {
        JsonVal::Obj(fields) => match obj_lookup(fields@, "update_id"@) {
            Some(JsonVal::Int(n)) => if n < 0x7fff_ffff_ffff_ffff {
                Some(Update { update_id: n, payload: v })
            } else {
                None
            },
            Some(JsonVal::UInt(n)) => if n < 0x7fff_ffff_ffff_ffff {
                Some(Update { update_id: n as i64, payload: v })
            } else {
                None
            },
            _ => None,
        },
        _ => None,
    }
}

/// The update sequence decoded from a whole `getUpdates` result array;
/// nothing when any element fails to decode.
pub open spec fn spec_updates_of(elems: Seq<JsonVal>) -> Option<Seq<Update>>
    decreases elems.len(),
{
    if elems.len() == 0 {
        Some(Seq::empty())
    } else {
        match (spec_update_of(elems[0]), spec_updates_of(elems.drop_first())) {
            (Some(u), Some(rest)) => Some(seq![u] + rest),
            _ => None,
        }
    }
}

/// Every identifier in a decoded update batch lies below the largest
/// value the offset cursor can move past.
pub proof fn lemma_updates_ids_bounded(elems: Seq<JsonVal>)
    ensures
        spec_updates_of(elems) matches Some(us) ==> forall|i: int|
            0 <= i < us.len() ==> (#[trigger] us[i]).update_id < 0x7fff_ffff_ffff_ffff,
    decreases elems.len(),
{
    if elems.len() > 0 {
        lemma_updates_ids_bounded(elems.drop_first());
        match spec_updates_of(elems) {
            Some(us) => {
                assert(forall|i: int| 1 <= i < us.len() ==> us[i] == spec_updates_of(
                    elems.drop_first(),
                ).unwrap()[i - 1]);
            },
            None => {},
        }
    }
}

/// Decodes one update record.
pub fn decode_update(v: JsonVal) -> (r: Result<Update, Error>)
    ensures
        match spec_update_of(v) {
            Some(u) => r matches Ok(got) && got == u,
            None => r matches Err(e) && e matches Error::Json(_),
        },
{
    let id: Option<i64> = match &v {
        JsonVal::Obj(fields) => match obj_get(fields, "update_id") {
            Some(JsonVal::Int(n)) => if *n < 0x7fff_ffff_ffff_ffff {
                Some(*n)
            } else {
                None
            },
            Some(JsonVal::UInt(n)) => if *n < 0x7fff_ffff_ffff_ffff {
                Some(*n as i64)
            } else {
                None
            },
            _ => None,
        },
        _ => None,
    };
    match id {
        Some(update_id) => Ok(Update { update_id, payload: v }),
        None => Err(Error::Json("update record has no integer update_id".to_owned())),
    }
}

/// Decodes a whole result array of update records.
pub fn decode_updates(mut elems: Vec<JsonVal>) -> (r: Result<Vec<Update>, Error>)
    ensures
        match spec_updates_of(elems@) {
            Some(us) => r matches Ok(out) && out@ == us,
            None => r matches Err(e) && e matches Error::Json(_),
        },
    decreases elems@.len(),
{
    if elems.len() == 0 {
        let out: Vec<Update> = Vec::new();
        proof {
            assert(out@ =~= Seq::<Update>::empty());
        }
        return Ok(out);
    }
    let ghost orig = elems@;
    let first = elems.remove(0);
    proof {
        assert(orig.drop_first() =~= elems@);
    }
    match decode_update(first) {
        Err(e) => Err(e),
        Ok(u) => match decode_updates(elems) {
            Err(e) => Err(e),
            Ok(mut rest) => {
                let ghost rest_before = rest@;
                rest.insert(0, u);
                proof {
                    assert(rest@ =~= seq![u] + rest_before);
                }
                Ok(rest)
            },
        },
    }
}

/// The first name carried by a user object, when one is present.
pub open spec fn spec_first_name(fields: Seq<(String, JsonVal)>) -> Option<String> {
    match obj_lookup(fields, "first_name"@) {
        Some(JsonVal::Str(s)) => Some(s),
        _ => None,
    }
}

/// The user record decoded from a `getMe` result: an object whose `id`
/// is an integer, with an optional `first_name` string.
pub open spec fn spec_user_of(v: JsonVal) -> Option<User> {
    match v {
        JsonVal::Obj(fields) => match obj_lookup(fields@, "id"@) {
            Some(JsonVal::Int(n)) => Some(User { id: n, first_name: spec_first_name(fields@) }),
            Some(JsonVal::UInt(n)) => if n < 0x7fff_ffff_ffff_ffff {
                Some(User { id: n as i64, first_name: spec_first_name(fields@) })
            } else {
                None
            },
            _ => None,
        },
        _ => None,
    }
}

/// Decodes a user record.
pub fn decode_user(v: &JsonVal) -> (r: Result<User, Error>)
    ensures
        match spec_user_of(*v) {
            Some(u) => r matches Ok(got) && got == u,
            None => r matches Err(e) && e matches Error::Json(_),
        },
{
    match v {
        JsonVal::Obj(fields) => {
            let id: Option<i64> = match obj_get(fields, "id") {
                Some(JsonVal::Int(n)) => Some(*n),
                Some(JsonVal::UInt(n)) => if *n < 0x7fff_ffff_ffff_ffff {
                    Some(*n as i64)
                } else {
                    None
                },
                _ => None,
            };
            match id {
                Some(id) => {
                    let first_name: Option<String> = match obj_get(fields, "first_name") {
                        Some(JsonVal::Str(s)) => Some(s.clone()),
                        _ => None,
                    };
                    Ok(User { id, first_name })
                },
                None => Err(Error::Json("user record has no integer id".to_owned())),
            }
        },
        _ => Err(Error::Json("user record is not an object".to_owned())),
    }
}

/// What a response-level decode yields, at the specification level.
pub enum Decoded<T> {
    /// Success: the typed payload.
    Payload(T),
    /// The server reported failure, with its description.
    Api(String),
    /// The envelope violated its own contract.
    State,
    /// The body, envelope or payload was malformed.
    Shape,
}

/// The decode of a `getUpdates` response body, from its parse result.
pub open spec fn spec_updates_response(parsed: Option<JsonVal>) -> Decoded<Seq<Update>> {
    match parsed {
        None => Decoded::Shape,
        Some(v) => match spec_classify(v) {
            Classified::Payload(JsonVal::Arr(elems)) => match spec_updates_of(elems@) {
                Some(us) => Decoded::Payload(us),
                None => Decoded::Shape,
            },
            Classified::Payload(_) => Decoded::Shape,
            Classified::ApiErr(d) => Decoded::Api(d),
            Classified::StateErr => Decoded::State,
            Classified::ShapeErr => Decoded::Shape,
        },
    }
}

/// The decode of a `getMe` response body, from its parse result.
pub open spec fn spec_user_response(parsed: Option<JsonVal>) -> Decoded<User> {
    match parsed {
        None => Decoded::Shape,
        Some(v) => match spec_classify(v) {
            Classified::Payload(p) => match spec_user_of(p) {
                Some(u) => Decoded::Payload(u),
                None => Decoded::Shape,
            },
            Classified::ApiErr(d) => Decoded::Api(d),
            Classified::StateErr => Decoded::State,
            Classified::ShapeErr => Decoded::Shape,
        },
    }
}

/// Decodes a `getUpdates` response body into its update batch.
pub fn decode_updates_response(body: &str) -> (r: Result<Vec<Update>, Error>)
    ensures
        match spec_updates_response(json_of(body@)) {
            Decoded::Payload(us) => r matches Ok(out) && out@ == us,
            Decoded::Api(d) => r matches Err(e) && e matches Error::Api(s) && s == d,
            Decoded::State => r matches Err(e) && (e matches Error::InvalidState(s) && s@
                == "Invalid server response"@),
            Decoded::Shape => r matches Err(e) && e matches Error::Json(_),
        },
{
    let v = match parse_json(body) {
        Ok(v) => v,
        Err(diag) => {
            return Err(Error::Json(diag));
        },
    };
    let p = match classify(v) {
        Ok(p) => p,
        Err(e) => {
            return Err(e);
        },
    };
    match p {
        JsonVal::Arr(elems) => decode_updates(elems),
        _ => Err(Error::Json("getUpdates result is not an array".to_owned())),
    }
}

/// Decodes a `getMe` response body into its user record.
pub fn decode_user_response(body: &str) -> (r: Result<User, Error>)
    ensures
        match spec_user_response(json_of(body@)) {
            Decoded::Payload(u) => r matches Ok(got) && got == u,
            Decoded::Api(d) => r matches Err(e) && e matches Error::Api(s) && s == d,
            Decoded::State => r matches Err(e) && (e matches Error::InvalidState(s) && s@
                == "Invalid server response"@),
            Decoded::Shape => r matches Err(e) && e matches Error::Json(_),
        },
{
    let v = match parse_json(body) {
        Ok(v) => v,
        Err(diag) => {
            return Err(Error::Json(diag));
        },
    };
    let p = match classify(v) {
        Ok(p) => p,
        Err(e) => {
            return Err(e);
        },
    };
    decode_user(&p)
}

/// Decodes a response body against the schema of the method that was
/// called, as a tagged payload.
pub fn decode_response(method: Method, body: &str) -> (r: Result<Payload, Error>)
    ensures
        method is GetMe ==> match spec_user_response(json_of(body@)) {
            Decoded::Payload(u) => r matches Ok(p) && p matches Payload::User(got) && got == u,
            Decoded::Api(d) => r matches Err(e) && e matches Error::Api(s) && s == d,
            Decoded::State => r matches Err(e) && (e matches Error::InvalidState(s) && s@
                == "Invalid server response"@),
            Decoded::Shape => r matches Err(e) && e matches Error::Json(_),
        },
        method is GetUpdates ==> match spec_updates_response(json_of(body@)) {
            Decoded::Payload(us) => r matches Ok(p) && p matches Payload::Updates(out) && out@
                == us,
            Decoded::Api(d) => r matches Err(e) && e matches Error::Api(s) && s == d,
            Decoded::State => r matches Err(e) && (e matches Error::InvalidState(s) && s@
                == "Invalid server response"@),
            Decoded::Shape => r matches Err(e) && e matches Error::Json(_),
        },
{
    match method {
        Method::GetMe => match decode_user_response(body) {
            Ok(u) => Ok(Payload::User(u)),
            Err(e) => Err(e),
        },
        Method::GetUpdates => match decode_updates_response(body) {
            Ok(us) => Ok(Payload::Updates(us)),
            Err(e) => Err(e),
        },
    }
}

} // verus!
