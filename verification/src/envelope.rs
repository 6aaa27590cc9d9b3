//! The response envelope: every worker answers with a JSON object
//! `{ "success": bool, "data": any, "error": string }`, where `data` is
//! meaningful only on success and `error` only on failure. This module
//! validates that shape on a decoded value and selects the authoritative
//! half.

use vstd::prelude::*;
use vstd::string::StringSliceAdditionalSpecFns;

use crate::value::{str_bytes, views_of_pairs, wf, Json, Jv};
use crate::BridgeError;

verus! {

/// The value under the first occurrence of `key` in a member list.
pub open spec fn obj_lookup(ps: Seq<(Seq<u8>, Jv)>, key: Seq<u8>) -> Option<Jv>
    decreases ps.len(),
{
    if ps.len() == 0 {
        None
    } else if ps[0].0 == key {
        Some(ps[0].1)
    } else {
        obj_lookup(ps.skip(1), key)
    }
}

pub open spec fn success_key() -> Seq<u8> {
    "success".spec_bytes()
}

pub open spec fn data_key() -> Seq<u8> {
    "data".spec_bytes()
}

pub open spec fn error_key() -> Seq<u8> {
    "error".spec_bytes()
}

/// The message reported when a worker declares failure without saying why.
pub open spec fn default_error_message() -> Seq<u8> {
    "Unknown error".spec_bytes()
}

/// A decoded value has the envelope shape: an object whose `success` member
/// is a boolean and whose `error` member, if present, is a string or null.
/// `data` may hold anything.
pub open spec fn envelope_shape_ok(v: Jv) -> bool {
    &&& v is Obj
    &&& (obj_lookup(v->Obj_0, success_key()) matches Some(s) && s is Bool)
    &&& match obj_lookup(v->Obj_0, error_key()) {
        Option::None => true,
        Option::Some(e) => e is Null || e is Str,
    }
}

/// The worker's own verdict.
pub open spec fn envelope_success(v: Jv) -> bool {
    obj_lookup(v->Obj_0, success_key()) == Some(Jv::Bool(true))
}

/// The payload of a successful envelope; an absent or null `data` member
/// means a null payload, never an error.
pub open spec fn envelope_data(v: Jv) -> Jv {
    match obj_lookup(v->Obj_0, data_key()) {
        Option::Some(d) => d,
        Option::None => Jv::Null,
    }
}

/// The message of a failed envelope; a fixed placeholder when absent.
pub open spec fn envelope_error_message(v: Jv) -> Seq<u8> {
    match obj_lookup(v->Obj_0, error_key()) {
        Option::Some(Jv::Str(m)) => m,
        _ => default_error_message(),
    }
}

/// Byte-wise equality of two byte vectors.
fn bytes_eq(a: &Vec<u8>, b: &Vec<u8>) -> (r: bool)
    ensures
        r == (a@ == b@),
{
    if a.len() != b.len() {
        proof {
            assert(a@ != b@);
        }
        return false;
    }
    let n = a.len();
    let mut i: usize = 0;
    while i < n
        invariant
            i <= n,
            n == a@.len() == b@.len(),
            forall|j: int| 0 <= j < i ==> a@[j] == #[trigger] b@[j],
        decreases n - i,
    {
        if a[i] != b[i] {
            proof {
                assert(a@ != b@);
            }
            return false;
        }
        i = i + 1;
    }
    proof {
        assert(a@ =~= b@);
    }
    true
}

proof fn obj_lookup_after_miss(ps: Seq<(Seq<u8>, Jv)>, key: Seq<u8>, k: int)
    requires
        0 <= k <= ps.len(),
        forall|m: int| 0 <= m < k ==> (#[trigger] ps[m].0) != key,
    ensures
        obj_lookup(ps, key) == obj_lookup(ps.skip(k), key),
    decreases k,
{
    if k > 0 {
        assert(ps[0].0 != key);
        assert forall|m: int| 0 <= m < k - 1 implies (#[trigger] ps.skip(1)[m].0) != key by {
            assert(ps.skip(1)[m] == ps[m + 1]);
        }
        obj_lookup_after_miss(ps.skip(1), key, k - 1);
        assert(ps.skip(1).skip(k - 1) =~= ps.skip(k));
    } else {
        assert(ps.skip(0) =~= ps);
    }
}

/// A member found in a well-formed object is itself well formed.
proof fn obj_lookup_wf(ps: Seq<(Seq<u8>, Jv)>, key: Seq<u8>)
    requires
        forall|i: int| 0 <= i < ps.len() ==> wf(#[trigger] ps[i].1),
        obj_lookup(ps, key) is Some,
    ensures
        wf(obj_lookup(ps, key)->Some_0),
    decreases ps.len(),
{
    if ps.len() > 0 && ps[0].0 != key {
        assert forall|i: int| 0 <= i < ps.skip(1).len() implies wf(#[trigger] ps.skip(1)[i].1) by {
            assert(ps.skip(1)[i] == ps[i + 1]);
        }
        obj_lookup_wf(ps.skip(1), key);
    }
}

/// Find the first member with the given key.
fn obj_get<'a>(ps: &'a Vec<(Vec<u8>, Json)>, key: &Vec<u8>) -> (r: Option<&'a Json>)
    ensures
        r is None ==> obj_lookup(views_of_pairs(ps@), key@) is None,
        r matches Some(v) ==> obj_lookup(views_of_pairs(ps@), key@) == Some(v@),
{
    let ghost vps = views_of_pairs(ps@);
    proof {
        crate::value::views_of_pairs_props(ps@);
    }
    let n = ps.len();
    let mut i: usize = 0;
    while i < n
        invariant
            i <= n,
            n == ps@.len(),
            vps == views_of_pairs(ps@),
            vps.len() == n,
            forall|m: int| 0 <= m < n ==> vps[m] == (#[trigger] ps@[m].0@, ps@[m].1@),
            forall|m: int| 0 <= m < i ==> (#[trigger] vps[m].0) != key@,
        decreases n - i,
    {
        if bytes_eq(&ps[i].0, key) {
            proof {
                obj_lookup_after_miss(vps, key@, i as int);
                assert(vps.skip(i as int)[0] == vps[i as int]);
                assert(vps.skip(i as int).len() > 0);
            }
            return Some(&ps[i].1);
        }
        i = i + 1;
    }
    proof {
        obj_lookup_after_miss(vps, key@, n as int);
        assert(vps.skip(n as int).len() == 0);
    }
    None
}

/// Interpret a decoded worker answer against the envelope contract: a
/// failed decode is a malformed response carrying the raw output; a value
/// without the envelope shape likewise; a well-shaped envelope yields its
/// `data` on success and an `Application` failure with its message
/// otherwise.
pub fn envelope_result(parsed: Result<Json, ()>, raw: Vec<u8>) -> (r: Result<Json, BridgeError>)
    requires
        parsed matches Ok(j) ==> wf(j@),
    ensures
        parsed is Err ==> r == Err::<Json, BridgeError>(BridgeError::MalformedResponse(raw)),
        parsed matches Ok(j) ==> (!envelope_shape_ok(j@) ==> r == Err::<Json, BridgeError>(
            BridgeError::MalformedResponse(raw),
        )),
        parsed matches Ok(j) ==> (envelope_shape_ok(j@) && envelope_success(j@) ==> (r matches Ok(
            d,
        ) && d@ == envelope_data(j@) && wf(d@))),
        parsed matches Ok(j) ==> (envelope_shape_ok(j@) && !envelope_success(j@) ==> (r matches Err(
            e,
        ) && e matches BridgeError::Application(m) && m@ == envelope_error_message(j@))),
{
    let j = match parsed {
        Result::Err(()) => {
            return Err(BridgeError::MalformedResponse(raw));
        },
        Result::Ok(j) => j,
    };
    let ps = match j {
        Json::Obj(ps) => ps,
        _ => {
            return Err(BridgeError::MalformedResponse(raw));
        },
    };
    let ghost jv = Jv::Obj(views_of_pairs(ps@));
    proof {
        assert(parsed->Ok_0@ == jv);
        crate::value::views_of_pairs_props(ps@);
    }
    let skey = str_bytes("success");
    let success: bool = match obj_get(&ps, &skey) {
        Option::Some(Json::Bool(b)) => *b,
        _ => {
            proof {
                assert(!envelope_shape_ok(jv));
            }
            return Err(BridgeError::MalformedResponse(raw));
        },
    };
    proof {
        assert(obj_lookup(jv->Obj_0, success_key()) == Some(Jv::Bool(success)));
    }
    let ekey = str_bytes("error");
    let error_entry = obj_get(&ps, &ekey);
    let error_ok: bool = match error_entry {
        Option::None => true,
        Option::Some(Json::Null) => true,
        Option::Some(Json::Str(_)) => true,
        Option::Some(_) => false,
    };
    if !error_ok {
        proof {
            assert(!envelope_shape_ok(jv));
        }
        return Err(BridgeError::MalformedResponse(raw));
    }
    proof {
        assert(envelope_shape_ok(jv));
    }
    if success {
        let dkey = str_bytes("data");
        match obj_get(&ps, &dkey) {
            Option::None => {
                proof {
                    assert(envelope_data(jv) == Jv::Null);
                }
                Ok(Json::Null)
            },
            Option::Some(d) => {
                let copied = crate::value::clone_json(d);
                proof {
                    assert(wf(jv));
                    assert forall|i: int| 0 <= i < jv->Obj_0.len() implies wf(
                        #[trigger] jv->Obj_0[i].1,
                    ) by {}
                    obj_lookup_wf(jv->Obj_0, data_key());
                    assert(envelope_data(jv) == d@);
                }
                Ok(copied)
            },
        }
    } else {
        match error_entry {
            Option::Some(Json::Str(m)) => {
                let copied = crate::value::clone_bytes(m);
                proof {
                    assert(envelope_error_message(jv) == m@);
                }
                Err(BridgeError::Application(copied))
            },
            _ => {
                let msg = str_bytes("Unknown error");
                proof {
                    assert(envelope_error_message(jv) == default_error_message());
                }
                Err(BridgeError::Application(msg))
            },
        }
    }
}

} // verus!
