//! The wire envelope: every outbound request is one JSON object holding
//! `Action`, `RequestId` and the request's own fields; every inbound frame is
//! one JSON object holding `Action`, `RequestId`, `StatusCode`, `ErrorMessage`
//! and the payload fields beside them.

use vstd::prelude::*;

pub use crate::json::members_view;
use crate::json::{int_text_val, json_view, ser_json, spec_get, spec_obj_get, Json, JsonV};
use crate::json::{int_from_text, lemma_members_view, parse_json, to_text};

verus! {

/// An outbound request frame before serialization.
pub struct RequestMessage {
    pub action: String,
    pub request_id: String,
    /// The request's own fields, flattened into the envelope object.
    pub content: Vec<(String, Json)>,
}

pub struct RequestMessageV {
    pub action: Seq<char>,
    pub request_id: Seq<char>,
    pub content: Seq<(Seq<char>, JsonV)>,
}

impl View for RequestMessage {
    type V = RequestMessageV;

    open spec fn view(&self) -> RequestMessageV {
        RequestMessageV {
            action: self.action@,
            request_id: self.request_id@,
            content: members_view(self.content@),
        }
    }
}

/// The envelope object: the action and the correlation id first, then the
/// request's fields.
pub open spec fn envelope_obj(m: RequestMessageV) -> JsonV {
    JsonV::Obj(
        seq![("Action"@, JsonV::Str(m.action)), ("RequestId"@, JsonV::Str(m.request_id))]
            + m.content,
    )
}

proof fn lemma_members_view_concat(a: Seq<(String, Json)>, b: Seq<(String, Json)>)
    ensures
        members_view(a + b) == members_view(a) + members_view(b),
{
    lemma_members_view(a);
    lemma_members_view(b);
    lemma_members_view(a + b);
    assert forall|i: int| 0 <= i < a.len() + b.len() implies members_view(a + b)[i] == (
    members_view(a) + members_view(b))[i] by {
        if i < a.len() {
            assert((a + b)[i] == a[i]);
        } else {
            assert((a + b)[i] == b[i - a.len()]);
        }
    }
    assert(members_view(a + b) =~= members_view(a) + members_view(b));
}

proof fn lemma_members_view_push(s: Seq<(String, Json)>, x: (String, Json))
    ensures
        members_view(s.push(x)) == members_view(s) + seq![(x.0@, json_view(x.1))],
{
    lemma_members_view(s);
    lemma_members_view(s.push(x));
    assert forall|i: int| 0 <= i < s.len() + 1 implies members_view(s.push(x))[i] == (members_view(
        s,
    ) + seq![(x.0@, json_view(x.1))])[i] by {
        if i < s.len() {
            assert(s.push(x)[i] == s[i]);
        } else {
            assert(s.push(x)[i] == x);
        }
    }
    assert(members_view(s.push(x)) =~= members_view(s) + seq![(x.0@, json_view(x.1))]);
}

/// Appends one string-valued field to a content object.
pub fn push_str_field(ms: &mut Vec<(String, Json)>, key: &str, val: String)
    ensures
        members_view(final(ms)@) == members_view(old(ms)@) + seq![(key@, JsonV::Str(val@))],
{
    let ghost s0 = ms@;
    let ghost x = (key@, JsonV::Str(val@));
    let pair = (String::from_str(key), Json::Str(val));
    proof {
        lemma_members_view_push(s0, pair);
    }
    ms.push(pair);
}

/// Appends one integer-valued field to a content object.
pub fn push_int_field(ms: &mut Vec<(String, Json)>, key: &str, val: i64)
    ensures
        members_view(final(ms)@) == members_view(old(ms)@) + seq![
            (key@, JsonV::Num(crate::json::dec_i(val as int))),
        ],
{
    let ghost s0 = ms@;
    let v = crate::json::json_int(val);
    let pair = (String::from_str(key), v);
    proof {
        lemma_members_view_push(s0, pair);
    }
    ms.push(pair);
}

/// Appends one boolean-valued field to a content object.
pub fn push_bool_field(ms: &mut Vec<(String, Json)>, key: &str, val: bool)
    ensures
        members_view(final(ms)@) == members_view(old(ms)@) + seq![(key@, JsonV::Bool(val))],
{
    let ghost s0 = ms@;
    let pair = (String::from_str(key), Json::Bool(val));
    proof {
        lemma_members_view_push(s0, pair);
    }
    ms.push(pair);
}

/// Appends a field holding an arbitrary document to a content object.
pub fn push_json_field(ms: &mut Vec<(String, Json)>, key: &str, val: Json)
    ensures
        members_view(final(ms)@) == members_view(old(ms)@) + seq![(key@, val@)],
{
    let ghost s0 = ms@;
    let ghost xv = val@;
    let pair = (String::from_str(key), val);
    proof {
        lemma_members_view_push(s0, pair);
    }
    ms.push(pair);
}

/// The array document a list of strings becomes.
pub open spec fn str_items(s: Seq<Seq<char>>) -> Seq<JsonV> {
    Seq::new(s.len(), |i: int| JsonV::Str(s[i]))
}

/// Builds the array document holding the given strings.
pub fn json_str_arr(vals: &Vec<String>) -> (r: Json)
    ensures
        r@ == JsonV::Arr(str_items(vals.deep_view())),
{
    let mut items: Vec<Json> = Vec::new();
    let mut i: usize = 0;
    while i < vals.len()
        invariant
            0 <= i <= vals@.len(),
            items@.len() == i,
            forall|k: int| 0 <= k < i ==> #[trigger] items@[k] == Json::Str(vals@[k]),
        decreases vals@.len() - i,
    {
        items.push(Json::Str(vals[i].clone()));
        i = i + 1;
    }
    proof {
        crate::json::lemma_elems_view(items@);
        assert forall|k: int| 0 <= k < items@.len() implies crate::json::elems_view(items@)[k]
            == str_items(vals.deep_view())[k] by {
            assert(items@[k] == Json::Str(vals@[k]));
            assert(vals.deep_view()[k] == vals@[k]@);
        }
        assert(crate::json::elems_view(items@) =~= str_items(vals.deep_view()));
    }
    Json::Arr(items)
}

impl RequestMessage {
    /// The envelope as one JSON document; consumes the message.
    pub fn into_json(self) -> (r: Json)
        ensures
            r@ == envelope_obj(self@),
    {
        let ghost m = self@;
        let mut ms: Vec<(String, Json)> = Vec::new();
        ms.push((String::from_str("Action"), Json::Str(self.action)));
        ms.push((String::from_str("RequestId"), Json::Str(self.request_id)));
        let ghost head = ms@;
        let mut content = self.content;
        ms.append(&mut content);
        proof {
            lemma_members_view_concat(head, self.content@);
            lemma_members_view(head);
            assert(head.len() == 2);
            assert(members_view(head)[0] == (head[0].0@, json_view(head[0].1)));
            assert(members_view(head)[1] == (head[1].0@, json_view(head[1].1)));
            assert(head[0].0@ == "Action"@);
            assert(head[1].0@ == "RequestId"@);
            assert(json_view(head[0].1) == JsonV::Str(m.action));
            assert(json_view(head[1].1) == JsonV::Str(m.request_id));
            assert(members_view(head) =~= seq![
                ("Action"@, JsonV::Str(m.action)),
                ("RequestId"@, JsonV::Str(m.request_id)),
            ]);
        }
        Json::Obj(ms)
    }

    /// Serializes the envelope to its canonical frame text.
    pub fn encode(self) -> (r: String)
        ensures
            r@ == ser_json(envelope_obj(self@)),
    {
        let j = self.into_json();
        to_text(&j)
    }
}

/// An inbound frame after decoding. Payload fields stay in `rest_data`
/// beside the envelope fields, exactly as they arrived.
pub struct ResponceMessage {
    pub action: String,
    pub request_id: String,
    pub status_code: u16,
    pub error_message: String,
    pub rest_data: Json,
}

pub struct ResponceMessageV {
    pub action: Seq<char>,
    pub request_id: Seq<char>,
    pub status_code: u16,
    pub error_message: Seq<char>,
    pub rest_data: JsonV,
}

impl View for ResponceMessage {
    type V = ResponceMessageV;

    open spec fn view(&self) -> ResponceMessageV {
        ResponceMessageV {
            action: self.action@,
            request_id: self.request_id@,
            status_code: self.status_code,
            error_message: self.error_message@,
            rest_data: self.rest_data@,
        }
    }
}

/// A missing field falls back to its default; a present field must have the
/// right shape.
pub open spec fn str_field_ok(o: Option<JsonV>) -> bool {
    match o {
        None => true,
        Some(f) => f is Str,
    }
}

pub open spec fn str_field(o: Option<JsonV>) -> Seq<char> {
    match o {
        Some(JsonV::Str(s)) => s,
        _ => Seq::empty(),
    }
}

pub open spec fn u16_field_ok(o: Option<JsonV>) -> bool {
    match o {
        None => true,
        Some(JsonV::Num(t)) => match int_text_val(t) {
            Some(n) => 0 <= n <= 65535,
            None => false,
        },
        Some(_) => false,
    }
}

pub open spec fn u16_field(o: Option<JsonV>) -> u16 {
    match o {
        Some(JsonV::Num(t)) => match int_text_val(t) {
            Some(n) => if 0 <= n <= 65535 {
                n as u16
            } else {
                0
            },
            None => 0,
        },
        _ => 0,
    }
}

/// How an inbound frame decodes: the document must be an object; the four
/// envelope fields must be absent or of the right shape; the whole object is
/// kept as the payload.
pub open spec fn spec_decode_response(v: JsonV) -> Option<ResponceMessageV> {
    match v {
        JsonV::Obj(ms) => if str_field_ok(spec_obj_get(ms, "Action"@)) && str_field_ok(
            spec_obj_get(ms, "RequestId"@),
        ) && u16_field_ok(spec_obj_get(ms, "StatusCode"@)) && str_field_ok(
            spec_obj_get(ms, "ErrorMessage"@),
        ) {
            Some(
                ResponceMessageV {
                    action: str_field(spec_obj_get(ms, "Action"@)),
                    request_id: str_field(spec_obj_get(ms, "RequestId"@)),
                    status_code: u16_field(spec_obj_get(ms, "StatusCode"@)),
                    error_message: str_field(spec_obj_get(ms, "ErrorMessage"@)),
                    rest_data: v,
                },
            )
        } else {
            None
        },
        _ => None,
    }
}

/// Reads one string envelope field out of a frame object.
pub fn take_str_field(v: &Json, key: &str) -> (r: Option<String>)
    ensures
        match r {
            Some(s) => str_field_ok(spec_get(v@, key@)) && s@ == str_field(spec_get(v@, key@)),
            None => !str_field_ok(spec_get(v@, key@)),
        },
{
    let k = String::from_str(key);
    match v.get(&k) {
        None => Some(String::new()),
        Some(f) => match f {
            Json::Str(s) => Some(s.clone()),
            _ => None,
        },
    }
}

pub open spec fn i64_field_ok(o: Option<JsonV>) -> bool {
    match o {
        None => true,
        Some(JsonV::Num(t)) => int_text_val(t) is Some,
        Some(_) => false,
    }
}

pub open spec fn i64_field(o: Option<JsonV>) -> int {
    match o {
        Some(JsonV::Num(t)) => match int_text_val(t) {
            Some(n) => n,
            None => 0,
        },
        _ => 0,
    }
}

/// Reads one integer field out of a payload object; missing means zero.
pub fn take_i64_field(v: &Json, key: &str) -> (r: Option<i64>)
    ensures
        match r {
            Some(n) => i64_field_ok(spec_get(v@, key@)) && n as int == i64_field(
                spec_get(v@, key@),
            ),
            None => !i64_field_ok(spec_get(v@, key@)),
        },
{
    let k = String::from_str(key);
    match v.get(&k) {
        None => Some(0i64),
        Some(f) => match f {
            Json::Num(t) => int_from_text(t),
            _ => None,
        },
    }
}

/// Reads one sixteen-bit field out of a payload object; missing means zero.
pub fn take_u16_field(v: &Json, key: &str) -> (r: Option<u16>)
    ensures
        match r {
            Some(n) => u16_field_ok(spec_get(v@, key@)) && n == u16_field(spec_get(v@, key@)),
            None => !u16_field_ok(spec_get(v@, key@)),
        },
{
    let k = String::from_str(key);
    match v.get(&k) {
        None => Some(0u16),
        Some(f) => match f {
            Json::Num(t) => match int_from_text(t) {
                Some(n) => {
                    if 0 <= n && n <= 65535 {
                        Some(n as u16)
                    } else {
                        None
                    }
                },
                None => None,
            },
            _ => None,
        },
    }
}

impl ResponceMessage {
    /// Decodes an inbound frame document.
    pub fn from_json(v: Json) -> (r: Option<ResponceMessage>)
        ensures
            match r {
                Some(m) => spec_decode_response(v@) == Some(m@),
                None => spec_decode_response(v@) is None,
            },
    {
        match &v {
            Json::Obj(_) => {},
            _ => {
                return None;
            },
        }
        let action = match take_str_field(&v, "Action") {
            Some(s) => s,
            None => {
                return None;
            },
        };
        let request_id = match take_str_field(&v, "RequestId") {
            Some(s) => s,
            None => {
                return None;
            },
        };
        let error_message = match take_str_field(&v, "ErrorMessage") {
            Some(s) => s,
            None => {
                return None;
            },
        };
        let status_key = String::from_str("StatusCode");
        let status_code: u16 = match v.get(&status_key) {
            None => 0u16,
            Some(f) => match f {
                Json::Num(t) => match int_from_text(t) {
                    Some(n) => {
                        if 0 <= n && n <= 65535 {
                            n as u16
                        } else {
                            return None;
                        }
                    },
                    None => {
                        return None;
                    },
                },
                _ => {
                    return None;
                },
            },
        };
        Some(ResponceMessage { action, request_id, status_code, error_message, rest_data: v })
    }

    /// The reply the connection driver synthesizes when the gateway
    /// acknowledges a terminate request by closing the stream.
    pub fn new_fake_success(action: String, request_id: String) -> (r: ResponceMessage)
        ensures
            r@.action == action@,
            r@.request_id == request_id@,
            r@.status_code == 200,
            r@.error_message == Seq::<char>::empty(),
            r@.rest_data is Null,
    {
        ResponceMessage {
            action,
            request_id,
            status_code: 200,
            error_message: String::new(),
            rest_data: Json::Null,
        }
    }
}

/// Whether a payload is the empty object, which unit responses accept
/// (the envelope fields do not count as payload).
pub open spec fn payload_empty(v: JsonV) -> bool {
    ||| v is Null
    ||| (v is Obj && forall|i: int|
        0 <= i < v->Obj_0.len() ==> reserved_key((#[trigger] v->Obj_0[i]).0))
}

/// The envelope's own field names.
pub open spec fn reserved_key(k: Seq<char>) -> bool {
    k == "Action"@ || k == "RequestId"@ || k == "StatusCode"@ || k == "ErrorMessage"@
}

fn key_is_reserved(k: &String) -> (r: bool)
    ensures
        r == reserved_key(k@),
{
    *k == String::from_str("Action") || *k == String::from_str("RequestId") || *k
        == String::from_str("StatusCode") || *k == String::from_str("ErrorMessage")
}

/// Whether a decoded payload is empty, as unit responses require.
pub fn payload_is_empty(v: &Json) -> (r: bool)
    ensures
        r == payload_empty(v@),
{
    match v {
        Json::Null => true,
        Json::Obj(ms) => {
            proof {
                lemma_members_view(ms@);
            }
            let mut i: usize = 0;
            while i < ms.len()
                invariant
                    0 <= i <= ms@.len(),
                    v@ == JsonV::Obj(members_view(ms@)),
                    members_view(ms@).len() == ms@.len(),
                    forall|k: int|
                        0 <= k < ms@.len() ==> members_view(ms@)[k] == ((#[trigger] ms@[k]).0@,
                        json_view(ms@[k].1)),
                    forall|k: int|
                        0 <= k < i ==> reserved_key((#[trigger] members_view(ms@)[k]).0),
                decreases ms@.len() - i,
            {
                if !key_is_reserved(&ms[i].0) {
                    proof {
                        assert(v@->Obj_0 == members_view(ms@));
                        assert(!reserved_key(v@->Obj_0[i as int].0));
                        assert(!payload_empty(v@));
                    }
                    return false;
                }
                i = i + 1;
            }
            proof {
                assert(v@->Obj_0 == members_view(ms@));
            }
            true
        },
        _ => false,
    }
}

// ---------------------------------------------------------------------------
// A serialized envelope decodes back to the same action, id and payload
// ---------------------------------------------------------------------------
/// An envelope whose field values the serializer can emit canonically.
pub open spec fn request_content_wf(m: RequestMessageV) -> bool {
    forall|k: int| 0 <= k < m.content.len() ==> crate::json::json_wf((#[trigger] m.content[k]).1)
}

/// Serializing an envelope and parsing the text back yields the identical
/// document, whose action, correlation id and payload fields are those of the
/// envelope.
pub proof fn lemma_request_round_trip(m: RequestMessageV)
    requires
        request_content_wf(m),
    ensures
        parse_json(ser_json(envelope_obj(m))) == Some(envelope_obj(m)),
        spec_get(envelope_obj(m), "Action"@) == Some(JsonV::Str(m.action)),
        spec_get(envelope_obj(m), "RequestId"@) == Some(JsonV::Str(m.request_id)),
        envelope_obj(m)->Obj_0.skip(2) == m.content,
{
    let ms = envelope_obj(m)->Obj_0;
    assert forall|i: int| 0 <= i < ms.len() implies crate::json::json_wf((#[trigger] ms[i]).1) by {
        if i >= 2 {
            assert(ms[i] == m.content[i - 2]);
        }
    }
    crate::json::lemma_json_round_trip(envelope_obj(m));
    reveal_strlit("Action");
    reveal_strlit("RequestId");
    assert("Action"@.len() == 6 && "RequestId"@.len() == 9);
    assert(ms[0].0 == "Action"@);
    assert(ms[1].0 == "RequestId"@);
    assert(spec_obj_get(ms, "Action"@) == Some(JsonV::Str(m.action)));
    assert(ms.drop_first()[0] == ms[1]);
    assert(spec_obj_get(ms.drop_first(), "RequestId"@) == Some(JsonV::Str(m.request_id)));
    assert(envelope_obj(m)->Obj_0.skip(2) =~= m.content);
}

} // verus!
