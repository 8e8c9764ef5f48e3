use vstd::prelude::*;
use vstd::string::StringExecFns;
use crate::codec::dec_val;
use crate::codec::format_u128;
use crate::codec::is_dec_seq;
use crate::codec::json_encode_str;
use crate::codec::json_str_of;
use crate::codec::parse_u32;
use crate::codec::spec_dec;
use crate::registry::RoomRegistry;
use crate::registry::spec_id;
use crate::registry::spec_lookup;
use crate::registry::spec_register;

verus! {

/// The tagged success/error contract shared by the plain request/response
/// endpoints: a success carries the payload, a failure a fixed error text.
pub enum ApiResult {
    Value(String),
    Error(String),
}

/// The serialized envelope: `{"status":"ok","value":<payload>}` on
/// success, `{"status":"err","msg":<error text>}` on failure, the carried
/// string JSON-encoded.
pub open spec fn spec_envelope_json(r: ApiResult) -> Seq<char> {
    match r {
        ApiResult::Value(v) => "{\"status\":\"ok\",\"value\":"@ + json_str_of(v@) + "}"@,
        ApiResult::Error(m) => "{\"status\":\"err\",\"msg\":"@ + json_str_of(m@) + "}"@,
    }
}

impl ApiResult {
    /// Serializes the envelope to its JSON response body.
    pub fn to_json(&self) -> (r: String)
        ensures
            r@ == spec_envelope_json(*self),
    {
        match self {
            ApiResult::Value(v) => {
                let mut s = String::from_str("{\"status\":\"ok\",\"value\":");
                let enc = json_encode_str(v.as_str());
                s.append(enc.as_str());
                s.append("}");
                proof {
                    assert(s@ =~= spec_envelope_json(*self));
                }
                s
            },
            ApiResult::Error(m) => {
                let mut s = String::from_str("{\"status\":\"err\",\"msg\":");
                let enc = json_encode_str(m.as_str());
                s.append(enc.as_str());
                s.append("}");
                proof {
                    assert(s@ =~= spec_envelope_json(*self));
                }
                s
            },
        }
    }
}

/// Body of the key-to-id endpoint: resolves the room key (registering it
/// if new) and renders the id in decimal. Always succeeds, so the result
/// goes out unwrapped.
pub fn room_id_response(reg: &mut RoomRegistry, key: String) -> (r: String)
    requires
        old(reg).wf(),
        old(reg)@.len() < 0xffff_ffff,
    ensures
        final(reg).wf(),
        final(reg)@ == spec_register(old(reg)@, key@),
        r@ == spec_dec(spec_id(old(reg)@, key@) as nat),
{
    let id = reg.resolve_or_create(key);
    format_u128(id as u128)
}

/// Body of the id-to-key lookup endpoint: parses the body as a decimal
/// room id and looks it up. Fails with "room parameter is not a number"
/// when the body is not a decimal numeral a `u32` can hold, and with
/// "unknown room id" when the id was never allocated; exactly otherwise it
/// succeeds with the room's key.
pub fn lookup_response(reg: &RoomRegistry, body: &str) -> (r: ApiResult)
    ensures
        (is_dec_seq(body@) && dec_val(body@) <= u32::MAX) ==> (match spec_lookup(
            reg@,
            dec_val(body@) as int,
        ) {
            Some(k) => r matches ApiResult::Value(v) && v@ == k,
            None => r matches ApiResult::Error(m) && m@ == "unknown room id"@,
        }),
        !(is_dec_seq(body@) && dec_val(body@) <= u32::MAX) ==> (r matches ApiResult::Error(m)
            && m@ == "room parameter is not a number"@),
{
    match parse_u32(body) {
        None => ApiResult::Error(String::from_str("room parameter is not a number")),
        Some(id) => match reg.lookup(id) {
            Some(k) => ApiResult::Value(k.clone()),
            None => ApiResult::Error(String::from_str("unknown room id")),
        },
    }
}

} // verus!
