//! Error responses of the Orcestr API, reduced to the bounded, localizable
//! shape that may cross to the renderer.
use vstd::prelude::*;
use crate::json::{Json, JsonNumber};
use crate::text::{
    str_byte_len, byte_len, has_control, contains_control, has_control_except_layout,
    contains_control_except_layout, is_blank_seq, str_eq, is_blank, ByteClass, all_bytes_in, bytes_in_class,
};

verus! {

pub const MAX_ERROR_CODE_LENGTH: usize = 128;
pub const MAX_ERROR_MESSAGE_LENGTH: usize = 2048;
pub const MAX_ERROR_REQUEST_ID_LENGTH: usize = 256;
pub const MAX_ERROR_FIELDS: usize = 64;
pub const MAX_ERROR_PATH_PARTS: usize = 16;
pub const MAX_ERROR_PATH_STRING_LENGTH: usize = 128;
pub const MAX_ERROR_PARAMS: usize = 32;
pub const MAX_ERROR_PARAM_KEY_LENGTH: usize = 128;
pub const MAX_ERROR_PARAM_STRING_LENGTH: usize = 512;
pub const MAX_ERROR_DETAILS_DEPTH: usize = 4;
pub const MAX_ERROR_DETAILS_NODES: usize = 256;
/// The largest integer that a JavaScript number holds exactly.
pub const MAX_SAFE_JS_INTEGER: u64 = 9_007_199_254_740_991;

/// A JSON number whose magnitude is at most `MAX_SAFE_JS_INTEGER`.
pub open spec fn safe_number(n: JsonNumber) -> bool {
    match n {
        JsonNumber::PosInt(u) => u <= MAX_SAFE_JS_INTEGER,
        JsonNumber::NegInt(i) => i >= -(MAX_SAFE_JS_INTEGER as int),
        JsonNumber::Float { within_safe_range, .. } => within_safe_range,
    }
}

/// A key of a parameter map: present, bounded and free of control characters.
pub open spec fn valid_param_key(k: Seq<char>) -> bool {
    k.len() > 0 && byte_len(k) <= MAX_ERROR_PARAM_KEY_LENGTH && !has_control(k)
}

/// A string parameter value: bounded and free of control characters.
pub open spec fn valid_param_string(s: Seq<char>) -> bool {
    byte_len(s) <= MAX_ERROR_PARAM_STRING_LENGTH && !has_control(s)
}

/// The structural rules on error details at nesting `depth`; the node budget
/// is stated apart, by `node_count`.
pub open spec fn valid_json_at(v: Json, depth: int) -> bool
    decreases v,
{
    depth <= MAX_ERROR_DETAILS_DEPTH && match v {
        Json::Null => true,
        Json::Bool(_) => true,
        Json::String(s) => valid_param_string(s@),
        Json::Number(n) => safe_number(n),
        Json::Array(items) => items@.len() <= MAX_ERROR_PARAMS && forall|i: int|
            0 <= i < items@.len() ==> valid_json_at(#[trigger] items@[i], depth + 1),
        Json::Object(entries) => entries@.len() <= MAX_ERROR_PARAMS && forall|i: int|
            0 <= i < entries@.len() ==> valid_param_key((#[trigger] entries@[i]).0@)
                && valid_json_at(entries@[i].1, depth + 1),
    }
}

pub proof fn lemma_items_count_prefix(s: Seq<Json>, k: int)
    requires
        0 <= k <= s.len(),
    ensures
        crate::json::items_count(s.take(k)) <= crate::json::items_count(s),
    decreases s.len(),
{
    if k < s.len() {
        lemma_items_count_prefix(s.drop_last(), k);
        assert(s.drop_last().take(k) == s.take(k));
    } else {
        assert(s.take(k) == s);
    }
}

pub proof fn lemma_entries_count_prefix(s: Seq<(String, Json)>, k: int)
    requires
        0 <= k <= s.len(),
    ensures
        crate::json::entries_count(s.take(k)) <= crate::json::entries_count(s),
    decreases s.len(),
{
    if k < s.len() {
        lemma_entries_count_prefix(s.drop_last(), k);
        assert(s.drop_last().take(k) == s.take(k));
    } else {
        assert(s.take(k) == s);
    }
}

pub fn is_safe_number(n: &JsonNumber) -> (r: bool)
    ensures
        r == safe_number(*n),
{
    match n {
        JsonNumber::PosInt(u) => *u <= MAX_SAFE_JS_INTEGER,
        JsonNumber::NegInt(i) => *i >= -9_007_199_254_740_991i64,
        JsonNumber::Float { within_safe_range, .. } => *within_safe_range,
    }
}

pub fn valid_param_key_str(k: &str) -> (r: bool)
    ensures
        r == valid_param_key(k@),
{
    !k.is_empty() && str_byte_len(k) <= MAX_ERROR_PARAM_KEY_LENGTH && !contains_control(k)
}

pub fn valid_param_string_str(s: &str) -> (r: bool)
    ensures
        r == valid_param_string(s@),
{
    str_byte_len(s) <= MAX_ERROR_PARAM_STRING_LENGTH && !contains_control(s)
}

/// Walks `value` at nesting `depth`, counting every visited node in `nodes`.
/// It accepts exactly the documents that keep the structural rules and fit,
/// with the nodes already counted, in `MAX_ERROR_DETAILS_NODES`.
pub fn valid_bounded_json(value: &Json, depth: usize, nodes: &mut usize) -> (r: bool)
    requires
        *old(nodes) <= MAX_ERROR_DETAILS_NODES,
        depth <= MAX_ERROR_DETAILS_DEPTH + 1,
    ensures
        r == (valid_json_at(*value, depth as int) && *old(nodes) + crate::json::node_count(*value)
            <= MAX_ERROR_DETAILS_NODES),
        r ==> *final(nodes) == *old(nodes) + crate::json::node_count(*value),
    decreases value,
{
    *nodes = *nodes + 1;
    if *nodes > MAX_ERROR_DETAILS_NODES || depth > MAX_ERROR_DETAILS_DEPTH {
        return false;
    }
    match value {
        Json::Null => true,
        Json::Bool(_) => true,
        Json::String(s) => valid_param_string_str(s.as_str()),
        Json::Number(n) => is_safe_number(n),
        Json::Array(items) => {
            if items.len() > MAX_ERROR_PARAMS {
                return false;
            }
            let ghost start: int = *old(nodes) + 1;
            let mut i: usize = 0;
            while i < items.len()
                invariant
                    *value == Json::Array(*items),
                    start == *old(nodes) + 1,
                    i <= items@.len(),
                    items@.len() <= MAX_ERROR_PARAMS,
                    depth <= MAX_ERROR_DETAILS_DEPTH,
                    *nodes == start + crate::json::items_count(items@.take(i as int)),
                    *nodes <= MAX_ERROR_DETAILS_NODES,
                    forall|j: int| 0 <= j < i ==> valid_json_at(#[trigger] items@[j], depth + 1),
                decreases items@.len() - i,
            {
                proof {
                    assert(decreases_to!(*value => value->Array_0));
                    assert(decreases_to!(*items => items@));
                    assert(decreases_to!(items@ => items@[i as int]));
                }
                let ok = valid_bounded_json(&items[i], depth + 1, nodes);
                proof {
                    assert(items@.take(i + 1).drop_last() == items@.take(i as int));
                    assert(crate::json::items_count(items@.take(i + 1)) == crate::json::items_count(
                        items@.take(i as int),
                    ) + crate::json::node_count(items@[i as int]));
                    lemma_items_count_prefix(items@, i + 1);
                }
                if !ok {
                    return false;
                }
                i = i + 1;
            }
            proof {
                assert(items@.take(i as int) == items@);
            }
            true
        },
        Json::Object(entries) => {
            if entries.len() > MAX_ERROR_PARAMS {
                return false;
            }
            let ghost start: int = *old(nodes) + 1;
            let mut i: usize = 0;
            while i < entries.len()
                invariant
                    *value == Json::Object(*entries),
                    start == *old(nodes) + 1,
                    i <= entries@.len(),
                    entries@.len() <= MAX_ERROR_PARAMS,
                    depth <= MAX_ERROR_DETAILS_DEPTH,
                    *nodes == start + crate::json::entries_count(entries@.take(i as int)),
                    *nodes <= MAX_ERROR_DETAILS_NODES,
                    forall|j: int|
                        0 <= j < i ==> valid_param_key((#[trigger] entries@[j]).0@)
                            && valid_json_at(entries@[j].1, depth + 1),
                decreases entries@.len() - i,
            {
                proof {
                    assert(decreases_to!(*value => value->Object_0));
                    assert(decreases_to!(*entries => entries@));
                    assert(decreases_to!(entries@ => entries@[i as int]));
                    assert(decreases_to!(entries@[i as int] => entries@[i as int].1));
                }
                let key_ok = valid_param_key_str(entries[i].0.as_str());
                if !key_ok {
                    return false;
                }
                let ok = valid_bounded_json(&entries[i].1, depth + 1, nodes);
                proof {
                    assert(entries@.take(i + 1).drop_last() == entries@.take(i as int));
                    assert(crate::json::entries_count(entries@.take(i + 1))
                        == crate::json::entries_count(entries@.take(i as int))
                        + crate::json::node_count(entries@[i as int].1));
                    lemma_entries_count_prefix(entries@, i + 1);
                }
                if !ok {
                    return false;
                }
                i = i + 1;
            }
            proof {
                assert(entries@.take(i as int) == entries@);
            }
            true
        },
    }
}

/// Error details: an object that keeps the structural rules within the
/// node budget.
pub open spec fn valid_error_details_spec(v: Json) -> bool {
    v is Object && valid_json_at(v, 0) && crate::json::node_count(v) <= MAX_ERROR_DETAILS_NODES
}

pub fn valid_error_details(value: &Json) -> (r: bool)
    ensures
        r == valid_error_details_spec(*value),
{
    match value {
        Json::Object(_) => {},
        _ => return false,
    }
    let mut nodes: usize = 0;
    valid_bounded_json(value, 0, &mut nodes)
}


/// One part of the path of a field error: an object key or an array index.
#[derive(Debug)]
pub enum ApiFieldPathPart {
    String(String),
    Number(i64),
}

/// A parameter value that the renderer can use to localize a message. A
/// float is carried as its raw bits.
#[derive(Debug)]
pub enum ApiParamValue {
    String(String),
    Integer(i64),
    Float(u64),
    Boolean(bool),
    Null,
}

/// A field error that may cross to the renderer.
#[derive(Debug)]
pub struct ApiFieldError {
    pub path: Vec<ApiFieldPathPart>,
    pub code: String,
    pub message: Option<String>,
    pub params: Option<Vec<(String, ApiParamValue)>>,
}

/// An error that may cross to the renderer.
#[derive(Debug)]
pub struct ApiError {
    pub status: u16,
    pub code: String,
    pub message: String,
    pub fields: Vec<ApiFieldError>,
    pub params: Option<Vec<(String, ApiParamValue)>>,
    pub request_id: Option<String>,
}

/// The `error` member of an error envelope as the API sends it.
#[derive(Debug)]
pub struct ApiErrorPayload {
    pub code: String,
    pub message: String,
    pub params: Option<Vec<(String, Json)>>,
    pub fields: Vec<ApiFieldErrorWire>,
    pub details: Option<Json>,
    pub request_id: Option<String>,
}

/// A field error as the API sends it.
#[derive(Debug)]
pub struct ApiFieldErrorWire {
    pub path: Vec<Json>,
    pub code: String,
    pub message: Option<String>,
    pub params: Option<Vec<(String, Json)>>,
}

pub open spec fn valid_error_code_spec(s: Seq<char>) -> bool {
    s.len() > 0 && byte_len(s) <= MAX_ERROR_CODE_LENGTH && all_bytes_in(
        vstd::utf8::encode_utf8(s),
        ByteClass::ErrorCode,
    )
}

pub open spec fn valid_error_text_spec(s: Seq<char>, max_length: nat) -> bool {
    !is_blank_seq(s) && byte_len(s) <= max_length && !has_control_except_layout(s)
}

pub open spec fn valid_request_id_spec(s: Seq<char>) -> bool {
    s.len() > 0 && byte_len(s) <= MAX_ERROR_REQUEST_ID_LENGTH && !has_control(s)
}

pub fn valid_error_code(value: &str) -> (r: bool)
    ensures
        r == valid_error_code_spec(value@),
{
    !value.is_empty() && str_byte_len(value) <= MAX_ERROR_CODE_LENGTH && bytes_in_class(
        value,
        ByteClass::ErrorCode,
    )
}

pub fn valid_error_text(value: &str, max_length: usize) -> (r: bool)
    ensures
        r == valid_error_text_spec(value@, max_length as nat),
{
    !is_blank(value) && str_byte_len(value) <= max_length && !contains_control_except_layout(value)
}

pub fn valid_request_id(value: &str) -> (r: bool)
    ensures
        r == valid_request_id_spec(value@),
{
    !value.is_empty() && str_byte_len(value) <= MAX_ERROR_REQUEST_ID_LENGTH && !contains_control(
        value,
    )
}

/// The renderer's value of one parameter, if it may cross.
pub open spec fn param_value(v: Json) -> Option<ApiParamValue> {
    match v {
        Json::String(s) => if valid_param_string(s@) {
            Some(ApiParamValue::String(s))
        } else {
            None
        },
        Json::Number(JsonNumber::PosInt(u)) => if u <= MAX_SAFE_JS_INTEGER {
            Some(ApiParamValue::Integer(u as i64))
        } else {
            None
        },
        Json::Number(JsonNumber::NegInt(i)) => if i >= -(MAX_SAFE_JS_INTEGER as int) {
            Some(ApiParamValue::Integer(i))
        } else {
            None
        },
        Json::Number(JsonNumber::Float { within_safe_range, bits }) => if within_safe_range {
            Some(ApiParamValue::Float(bits))
        } else {
            None
        },
        Json::Bool(b) => Some(ApiParamValue::Boolean(b)),
        Json::Null => Some(ApiParamValue::Null),
        _ => None,
    }
}

/// A parameter map that may cross: bounded, with valid keys and values.
pub open spec fn params_accepted(ps: Seq<(String, Json)>) -> bool {
    ps.len() <= MAX_ERROR_PARAMS && forall|i: int|
        0 <= i < ps.len() ==> valid_param_key((#[trigger] ps[i]).0@) && param_value(ps[i].1) is Some
}

pub open spec fn normalized_params(ps: Seq<(String, Json)>) -> Seq<(String, ApiParamValue)> {
    ps.map_values(|e: (String, Json)| (e.0, param_value(e.1)->0))
}

/// `out` is what a parameter map `inp` becomes once normalized.
pub open spec fn params_normalized_from(
    out: Option<Vec<(String, ApiParamValue)>>,
    inp: Option<Vec<(String, Json)>>,
) -> bool {
    match inp {
        None => out is None,
        Some(ps) => out matches Some(o) && o@ == normalized_params(ps@),
    }
}

fn param_value_exec(v: Json) -> (r: Option<ApiParamValue>)
    ensures
        r == param_value(v),
{
    match v {
        Json::String(s) => if valid_param_string_str(s.as_str()) {
            Some(ApiParamValue::String(s))
        } else {
            None
        },
        Json::Number(JsonNumber::PosInt(u)) => if u <= MAX_SAFE_JS_INTEGER {
            Some(ApiParamValue::Integer(u as i64))
        } else {
            None
        },
        Json::Number(JsonNumber::NegInt(i)) => if i >= -9_007_199_254_740_991i64 {
            Some(ApiParamValue::Integer(i))
        } else {
            None
        },
        Json::Number(JsonNumber::Float { within_safe_range, bits }) => if within_safe_range {
            Some(ApiParamValue::Float(bits))
        } else {
            None
        },
        Json::Bool(b) => Some(ApiParamValue::Boolean(b)),
        Json::Null => Some(ApiParamValue::Null),
        _ => None,
    }
}

/// `a` comes before `b` in the order of `String`: character by character,
/// a proper prefix first. On UTF-8 this is the order of the bytes.
pub open spec fn text_lt(a: Seq<char>, b: Seq<char>) -> bool
    decreases a.len(),
{
    if b.len() == 0 {
        false
    } else if a.len() == 0 {
        true
    } else if a[0] != b[0] {
        (a[0] as u32) < (b[0] as u32)
    } else {
        text_lt(a.drop_first(), b.drop_first())
    }
}

/// The keys of `entries` strictly increase, as those of a map keyed by
/// `String` do when it is walked in order: each key occurs once.
pub open spec fn keys_ascending<V>(entries: Seq<(String, V)>) -> bool {
    forall|i: int, j: int|
        0 <= i < j < entries.len() ==> text_lt(
            (#[trigger] entries[i]).0@,
            (#[trigger] entries[j]).0@,
        )
}

/// Each parameter map of a payload as the API sends it is a map.
pub open spec fn payload_keys_ascending(p: ApiErrorPayload) -> bool {
    &&& p.params matches Some(ps) ==> keys_ascending(ps@)
    &&& forall|i: int|
        0 <= i < p.fields@.len() ==> ((#[trigger] p.fields@[i]).params matches Some(ps)
            ==> keys_ascending(ps@))
}

/// Each parameter map of an error for the renderer is a map.
pub open spec fn error_keys_ascending(e: ApiError) -> bool {
    &&& e.params matches Some(ps) ==> keys_ascending(ps@)
    &&& forall|i: int|
        0 <= i < e.fields@.len() ==> ((#[trigger] e.fields@[i]).params matches Some(ps)
            ==> keys_ascending(ps@))
}

/// A normalized parameter map keeps the keys of the map it came from.
proof fn lemma_normalized_keys(ps: Seq<(String, Json)>)
    requires
        keys_ascending(ps),
    ensures
        keys_ascending(normalized_params(ps)),
{
    let o = normalized_params(ps);
    assert forall|i: int, j: int| 0 <= i < j < o.len() implies text_lt(
        (#[trigger] o[i]).0@,
        (#[trigger] o[j]).0@,
    ) by {
        assert(o[i].0 == ps[i].0);
        assert(o[j].0 == ps[j].0);
        assert(text_lt(ps[i].0@, ps[j].0@));
    }
}

/// Normalizes a parameter map: `Some(None)` without one, `None` where it may
/// not cross, the normalized map otherwise.
pub fn normalize_error_params(params: Option<Vec<(String, Json)>>) -> (r: Option<
    Option<Vec<(String, ApiParamValue)>>,
>)
    requires
        params matches Some(ps) ==> keys_ascending(ps@),
    ensures
        (r is Some) == (params matches Some(ps) ==> params_accepted(ps@)),
        r matches Some(out) ==> params_normalized_from(out, params),
        r matches Some(Some(o)) ==> keys_ascending(o@),
{
    let list = match params {
        None => return Some(None),
        Some(list) => list,
    };
    if list.len() > MAX_ERROR_PARAMS {
        return None;
    }
    let ghost input = list@;
    let mut out: Vec<(String, ApiParamValue)> = Vec::new();
    for entry in it: list.into_iter()
        invariant
            it.seq() == input,
            params matches Some(ps) && ps@ == input,
            input.len() <= MAX_ERROR_PARAMS,
            out@ == normalized_params(input.take(it.index())),
            forall|j: int|
                0 <= j < it.index() ==> valid_param_key((#[trigger] input[j]).0@) && param_value(
                    input[j].1,
                ) is Some,
    {
        assert(entry == input[it.index() as int]);
        let (key, value) = entry;
        if !valid_param_key_str(key.as_str()) {
            return None;
        }
        let normalized = match param_value_exec(value) {
            Some(v) => v,
            None => return None,
        };
        proof {
            assert(input.take(it.index() + 1) == input.take(it.index() as int).push(
                input[it.index() as int],
            ));
        }
        out.push((key, normalized));
    }
    proof {
        assert(input.take(input.len() as int) == input);
        lemma_normalized_keys(input);
    }
    Some(Some(out))
}


/// One part of a field path, if it may cross: a non-empty bounded key free
/// of control characters, or an exactly representable array index.
pub open spec fn path_part(v: Json) -> Option<ApiFieldPathPart> {
    match v {
        Json::String(s) => if s@.len() > 0 && byte_len(s@) <= MAX_ERROR_PATH_STRING_LENGTH
            && !has_control(s@) {
            Some(ApiFieldPathPart::String(s))
        } else {
            None
        },
        Json::Number(JsonNumber::PosInt(u)) => if u <= MAX_SAFE_JS_INTEGER {
            Some(ApiFieldPathPart::Number(u as i64))
        } else {
            None
        },
        Json::Number(JsonNumber::NegInt(i)) => if i >= -(MAX_SAFE_JS_INTEGER as int) {
            Some(ApiFieldPathPart::Number(i))
        } else {
            None
        },
        _ => None,
    }
}

/// A field error that may cross to the renderer.
pub open spec fn field_accepted(f: ApiFieldErrorWire) -> bool {
    &&& f.path@.len() <= MAX_ERROR_PATH_PARTS
    &&& valid_error_code_spec(f.code@)
    &&& f.message matches Some(m) ==> valid_error_text_spec(m@, MAX_ERROR_MESSAGE_LENGTH as nat)
    &&& forall|i: int| 0 <= i < f.path@.len() ==> (#[trigger] path_part(f.path@[i])) is Some
    &&& f.params matches Some(ps) ==> params_accepted(ps@)
}

/// `e` is what the field error `f` becomes once normalized.
pub open spec fn field_normalized_from(e: ApiFieldError, f: ApiFieldErrorWire) -> bool {
    &&& e.path@ == f.path@.map_values(|v: Json| path_part(v)->0)
    &&& e.code == f.code
    &&& e.message == f.message
    &&& params_normalized_from(e.params, f.params)
}

fn path_part_exec(v: Json) -> (r: Option<ApiFieldPathPart>)
    ensures
        r == path_part(v),
{
    match v {
        Json::String(s) => if !s.as_str().is_empty() && str_byte_len(s.as_str())
            <= MAX_ERROR_PATH_STRING_LENGTH && !contains_control(s.as_str()) {
            Some(ApiFieldPathPart::String(s))
        } else {
            None
        },
        Json::Number(JsonNumber::PosInt(u)) => if u <= MAX_SAFE_JS_INTEGER {
            Some(ApiFieldPathPart::Number(u as i64))
        } else {
            None
        },
        Json::Number(JsonNumber::NegInt(i)) => if i >= -9_007_199_254_740_991i64 {
            Some(ApiFieldPathPart::Number(i))
        } else {
            None
        },
        _ => None,
    }
}

pub fn normalize_api_field_error(field: ApiFieldErrorWire) -> (r: Option<ApiFieldError>)
    requires
        field.params matches Some(ps) ==> keys_ascending(ps@),
    ensures
        (r is Some) == field_accepted(field),
        r matches Some(e) ==> field_normalized_from(e, field),
        r matches Some(e) ==> (e.params matches Some(ps) ==> keys_ascending(ps@)),
{
    let ApiFieldErrorWire { path, code, message, params } = field;
    if path.len() > MAX_ERROR_PATH_PARTS || !valid_error_code(code.as_str()) {
        return None;
    }
    match &message {
        Some(m) => {
            if !valid_error_text(m.as_str(), MAX_ERROR_MESSAGE_LENGTH) {
                return None;
            }
        },
        None => {},
    }
    let ghost input = path@;
    let mut parts: Vec<ApiFieldPathPart> = Vec::new();
    for part in it: path.into_iter()
        invariant
            it.seq() == input,
            field.path@ == input,
            parts@ == input.take(it.index()).map_values(|v: Json| path_part(v)->0),
            forall|j: int| 0 <= j < it.index() ==> (#[trigger] path_part(input[j])) is Some,
    {
        assert(part == input[it.index() as int]);
        let normalized = match path_part_exec(part) {
            Some(p) => p,
            None => return None,
        };
        proof {
            assert(input.take(it.index() + 1) == input.take(it.index() as int).push(
                input[it.index() as int],
            ));
        }
        parts.push(normalized);
    }
    proof {
        assert(input.take(input.len() as int) == input);
    }
    let params = match normalize_error_params(params) {
        Some(p) => p,
        None => return None,
    };
    Some(ApiFieldError { path: parts, code, message, params })
}

/// `e` is an error built from a status, a code and a message alone.
pub open spec fn is_plain_error(e: ApiError, status: u16, code: Seq<char>, message: Seq<char>) -> bool {
    &&& e.status == status
    &&& e.code@ == code
    &&& e.message@ == message
    &&& e.fields@.len() == 0
    &&& e.params is None
    &&& e.request_id is None
}

/// The error reported for a response that breaks the API's contract.
pub open spec fn is_invalid_response(e: ApiError) -> bool {
    is_plain_error(
        e,
        502,
        "invalid_error_response"@,
        "Orcestr returned an invalid authentication response."@,
    )
}

/// An error payload whose every part may cross to the renderer.
pub open spec fn payload_accepted(p: ApiErrorPayload) -> bool {
    &&& valid_error_code_spec(p.code@)
    &&& valid_error_text_spec(p.message@, MAX_ERROR_MESSAGE_LENGTH as nat)
    &&& p.fields@.len() <= MAX_ERROR_FIELDS
    &&& p.request_id matches Some(id) ==> valid_request_id_spec(id@)
    &&& p.details matches Some(d) ==> valid_error_details_spec(d)
    &&& p.params matches Some(ps) ==> params_accepted(ps@)
    &&& forall|i: int| 0 <= i < p.fields@.len() ==> field_accepted(#[trigger] p.fields@[i])
}

/// `e` is the error that the accepted payload `p` becomes under `status`.
pub open spec fn error_from_payload(e: ApiError, status: u16, p: ApiErrorPayload) -> bool {
    &&& e.status == status
    &&& e.code == p.code
    &&& e.message == p.message
    &&& e.request_id == p.request_id
    &&& params_normalized_from(e.params, p.params)
    &&& e.fields@.len() == p.fields@.len()
    &&& forall|i: int|
        0 <= i < p.fields@.len() ==> field_normalized_from(#[trigger] e.fields@[i], p.fields@[i])
}

impl ApiError {
    pub fn new(status: u16, code: &str, message: &str) -> (r: ApiError)
        ensures
            is_plain_error(r, status, code@, message@),
    {
        ApiError {
            status,
            code: code.to_owned(),
            message: message.to_owned(),
            fields: Vec::new(),
            params: None,
            request_id: None,
        }
    }

    /// A request of the renderer that the native side refuses.
    pub fn command(message: &str) -> (r: ApiError)
        ensures
            is_plain_error(r, 400, "invalid_native_request"@, message@),
    {
        Self::new(400, "invalid_native_request", message)
    }

    pub fn network() -> (r: ApiError)
        ensures
            is_plain_error(
                r,
                0,
                "network_error"@,
                "Could not reach Orcestr. Check your connection and try again."@,
            ),
    {
        Self::new(0, "network_error", "Could not reach Orcestr. Check your connection and try again.")
    }

    pub fn invalid_response() -> (r: ApiError)
        ensures
            is_invalid_response(r),
    {
        Self::new(502, "invalid_error_response", "Orcestr returned an invalid authentication response.")
    }

    pub fn not_authenticated() -> (r: ApiError)
        ensures
            is_plain_error(r, 401, "not_authenticated"@, "Sign in to continue."@),
    {
        Self::new(401, "not_authenticated", "Sign in to continue.")
    }

    pub fn credential_store(message: &str) -> (r: ApiError)
        ensures
            is_plain_error(r, 500, "credential_store_unavailable"@, message@),
    {
        Self::new(500, "credential_store_unavailable", message)
    }

    /// A refresh that failed so will never succeed with the same token.
    pub open spec fn invalidates_refresh_token_spec(&self) -> bool {
        ||| self.status == 401
        ||| self.code@ == "invalid_grant"@
        ||| self.code@ == "invalid_token"@
        ||| self.code@ == "refresh_token_invalid"@
        ||| self.code@ == "refresh_token_reused"@
        ||| self.code@ == "refresh_token_expired"@
    }

    pub fn invalidates_refresh_token(&self) -> (r: bool)
        ensures
            r == self.invalidates_refresh_token_spec(),
    {
        self.status == 401 || str_eq(self.code.as_str(), "invalid_grant") || str_eq(
            self.code.as_str(),
            "invalid_token",
        ) || str_eq(self.code.as_str(), "refresh_token_invalid") || str_eq(
            self.code.as_str(),
            "refresh_token_reused",
        ) || str_eq(self.code.as_str(), "refresh_token_expired")
    }
}

/// Turns the body of a failed response into the error that crosses to the
/// renderer. `envelope` is the body read as an error envelope, `None` where
/// it is not one.
pub fn parse_api_error(status: u16, envelope: Option<ApiErrorPayload>) -> (r: ApiError)
    requires
        envelope matches Some(p) ==> payload_keys_ascending(p),
    ensures
        error_keys_ascending(r),
        envelope is None ==> is_plain_error(
            r,
            status,
            "http_error"@,
            "Orcestr rejected the authentication request."@,
        ),
        envelope matches Some(p) && !payload_accepted(p) ==> is_invalid_response(r),
        envelope matches Some(p) ==> (payload_accepted(p) ==> error_from_payload(r, status, p)),
{
    let payload = match envelope {
        None => return ApiError::new(
            status,
            "http_error",
            "Orcestr rejected the authentication request.",
        ),
        Some(payload) => payload,
    };
    let ApiErrorPayload { code, message, params, fields, details, request_id } = payload;
    if !valid_error_code(code.as_str()) || !valid_error_text(
        message.as_str(),
        MAX_ERROR_MESSAGE_LENGTH,
    ) || fields.len() > MAX_ERROR_FIELDS {
        return ApiError::invalid_response();
    }
    match &request_id {
        Some(id) => if !valid_request_id(id.as_str()) {
            return ApiError::invalid_response();
        },
        None => {},
    }
    match &details {
        Some(d) => if !valid_error_details(d) {
            return ApiError::invalid_response();
        },
        None => {},
    }
    let params = match normalize_error_params(params) {
        Some(p) => p,
        None => return ApiError::invalid_response(),
    };
    let ghost input = fields@;
    let mut normalized: Vec<ApiFieldError> = Vec::new();
    for field in it: fields.into_iter()
        invariant
            it.seq() == input,
            envelope matches Some(p) && p.fields@ == input,
            normalized@.len() == it.index(),
            forall|j: int|
                0 <= j < it.index() ==> field_accepted(#[trigger] input[j])
                    && field_normalized_from(normalized@[j], input[j]),
            forall|j: int|
                0 <= j < input.len() ==> ((#[trigger] input[j]).params matches Some(ps)
                    ==> keys_ascending(ps@)),
            forall|j: int|
                0 <= j < it.index() ==> ((#[trigger] normalized@[j]).params matches Some(ps)
                    ==> keys_ascending(ps@)),
            params matches Some(o) ==> keys_ascending(o@),
    {
        assert(field == input[it.index() as int]);
        match normalize_api_field_error(field) {
            Some(f) => normalized.push(f),
            None => return ApiError::invalid_response(),
        }
    }
    ApiError { status, code, message, fields: normalized, params, request_id }
}

} // verus!
