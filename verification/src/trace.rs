//! Tracing of tool calls: one JSON line per request and per response, on the
//! error stream, when tracing is on. Here stand the switch and the lines;
//! the clock and the stream are the caller's.
use vstd::prelude::*;
use crate::commands::compound::{jstr, str_array};
use crate::json::{Json, JsonV, keys_of, entries_view, push_entry, object_of, exec_keys, lemma_object_keys};
use crate::text::{decimal, extend_str, push_decimal, string_of, string_views};

verus! {

/// Whether tracing is on.
pub struct TraceSettings {
    pub enabled: bool,
}

impl TraceSettings {
    /// Tracing off.
    pub fn new() -> (r: TraceSettings)
        ensures
            !r.enabled,
    {
        TraceSettings { enabled: false }
    }

    pub fn set_trace(&mut self, enabled: bool)
        ensures
            final(self).enabled == enabled,
    {
        self.enabled = enabled;
    }

    pub fn is_enabled(&self) -> (r: bool)
        ensures
            r == self.enabled,
    {
        self.enabled
    }
}

/// The keys of a payload; none when it is not an object.
pub open spec fn payload_keys(payload: JsonV) -> Seq<Seq<char>> {
    match payload {
        JsonV::Object(es) => keys_of(es),
        _ => Seq::empty(),
    }
}

/// The trace line of a request.
pub open spec fn request_event_spec(tool: Seq<char>, payload: JsonV, timestamp: Seq<char>) -> JsonV {
    JsonV::Object(seq![
        ("event"@, jstr("request"@)),
        ("payload_keys"@, str_array(payload_keys(payload))),
        ("timestamp"@, jstr(timestamp)),
        ("tool"@, jstr(tool)),
    ])
}

/// The shape of a result as a trace shows it.
pub open spec fn result_type(result: JsonV) -> Seq<char> {
    match result {
        JsonV::Object(es) => "object("@ + decimal(es.len()) + ")"@,
        JsonV::Array(a) => "array("@ + decimal(a.len()) + ")"@,
        JsonV::Null => "null"@,
        _ => "scalar"@,
    }
}

/// The trace line of a response.
pub open spec fn response_event_spec(tool: Seq<char>, result: JsonV, timestamp: Seq<char>, duration_ms: nat, is_error: bool) -> JsonV {
    JsonV::Object(seq![
        ("duration_ms"@, JsonV::Number(decimal(duration_ms))),
        ("event"@, jstr("response"@)),
        ("is_error"@, JsonV::Bool(is_error)),
        ("result_type"@, jstr(result_type(result))),
        ("timestamp"@, jstr(timestamp)),
        ("tool"@, jstr(tool)),
    ])
}

/// The trace line of a request: the tool, the payload's keys and the time.
pub fn request_event(tool_name: &str, payload: &Json, timestamp: &str) -> (r: Json)
    ensures
        r@ == request_event_spec(tool_name@, payload@, timestamp@),
{
    let mut keys: Vec<String> = Vec::new();
    match payload {
        Json::Object(entries) => {
            proof { lemma_object_keys(*entries); }
            let mut i: usize = 0;
            while i < entries.len()
                invariant
                    i <= entries.len(),
                    string_views(keys@) == exec_keys(entries@).take(i as int),
                decreases entries.len() - i,
            {
                let k = entries[i].0.clone();
                let ghost before = keys@;
                keys.push(k);
                assert(string_views(keys@) =~= string_views(before).push(k@));
                i = i + 1;
                assert(exec_keys(entries@).take(i as int) =~= exec_keys(entries@).take(i - 1).push(k@));
            }
            assert(exec_keys(entries@).take(i as int) =~= exec_keys(entries@));
        },
        _ => {
            assert(string_views(keys@) =~= Seq::<Seq<char>>::empty());
        },
    }
    let mut es: Vec<(String, Json)> = Vec::new();
    push_entry(&mut es, "event", Json::str("request"));
    push_entry(&mut es, "payload_keys", crate::commands::compound::string_array(&keys));
    push_entry(&mut es, "timestamp", Json::str(timestamp));
    push_entry(&mut es, "tool", Json::str(tool_name));
    assert(entries_view(es@) =~= request_event_spec(tool_name@, payload@, timestamp@)->Object_0);
    object_of(es)
}

fn result_type_exec(result: &Json) -> (r: String)
    ensures
        r@ == result_type(result@),
{
    let mut v: Vec<char> = Vec::new();
    match result {
        Json::Object(es) => {
            extend_str(&mut v, "object(");
            push_decimal(&mut v, es.len() as u64);
            extend_str(&mut v, ")");
        },
        Json::Array(a) => {
            extend_str(&mut v, "array(");
            push_decimal(&mut v, a.len() as u64);
            extend_str(&mut v, ")");
        },
        Json::Null => extend_str(&mut v, "null"),
        _ => extend_str(&mut v, "scalar"),
    }
    assert(v@ =~= result_type(result@));
    string_of(v.as_slice())
}

/// The trace line of a response: the tool, how long it took, whether it
/// failed, the shape of its result and the time.
pub fn response_event(tool_name: &str, result: &Json, timestamp: &str, duration_ms: u64, is_error: bool) -> (r: Json)
    ensures
        r@ == response_event_spec(tool_name@, result@, timestamp@, duration_ms as nat, is_error),
{
    let mut es: Vec<(String, Json)> = Vec::new();
    push_entry(&mut es, "duration_ms", Json::number(duration_ms));
    push_entry(&mut es, "event", Json::str("response"));
    push_entry(&mut es, "is_error", Json::Bool(is_error));
    push_entry(&mut es, "result_type", Json::Str(result_type_exec(result)));
    push_entry(&mut es, "timestamp", Json::str(timestamp));
    push_entry(&mut es, "tool", Json::str(tool_name));
    assert(entries_view(es@) =~= response_event_spec(tool_name@, result@, timestamp@, duration_ms as nat, is_error)->Object_0);
    object_of(es)
}

/// A request's trace line tells nothing of the payload's values: two payloads
/// with the same keys give the same line.
pub proof fn law_request_trace_keys_only(tool: Seq<char>, p1: JsonV, p2: JsonV, timestamp: Seq<char>)
    requires
        payload_keys(p1) == payload_keys(p2),
    ensures
        request_event_spec(tool, p1, timestamp) == request_event_spec(tool, p2, timestamp),
{
}

/// A response's trace line tells nothing of the result's values: two results
/// of the same shape give the same line.
pub proof fn law_response_trace_shape_only(tool: Seq<char>, r1: JsonV, r2: JsonV, timestamp: Seq<char>, duration_ms: nat, is_error: bool)
    requires
        result_type(r1) == result_type(r2),
    ensures
        response_event_spec(tool, r1, timestamp, duration_ms, is_error)
            == response_event_spec(tool, r2, timestamp, duration_ms, is_error),
{
}

} // verus!
