//! What Trae's events come to: what is answered, thought and called reaches the
//! client as it was told, in a stream as in one piece.
use super::stream;
use super::stream::{
    after_events, call_at, fragment_out, fragments_in, fragments_out, index_in, text_or_empty,
    with_call, with_fragment, with_fragments, AnswerV, EventV, ParserV,
};
use crate::errors::ErrorV;
use crate::json;
use crate::json::JsonV;
use crate::order;
use crate::text;
use vstd::prelude::*;
use vstd::string::*;

verus! {

/// The words tell one another apart.
proof fn lemma_words()
    ensures
        "id"@.len() == 2,
        "code"@.len() == 4,
        "done"@.len() == 4,
        "name"@.len() == 4,
        "role"@.len() == 4,
        "stop"@.len() == 4,
        "type"@.len() == 4,
        "code"@[0] == 'c',
        "done"@[0] == 'd',
        "name"@[0] == 'n',
        "role"@[0] == 'r',
        "stop"@[0] == 's',
        "type"@[0] == 't',
        "data:"@.len() == 5,
        "delta"@.len() == 5,
        "error"@.len() == 5,
        "index"@.len() == 5,
        "model"@.len() == 5,
        "usage"@.len() == 5,
        "data:"@[0] == 'd',
        "data:"@[1] == 'a',
        "delta"@[0] == 'd',
        "delta"@[1] == 'e',
        "error"@[0] == 'e',
        "error"@[1] == 'r',
        "index"@[0] == 'i',
        "index"@[1] == 'n',
        "model"@[0] == 'm',
        "model"@[1] == 'o',
        "usage"@[0] == 'u',
        "usage"@[1] == 's',
        "event:"@.len() == 6,
        "object"@.len() == 6,
        "output"@.len() == 6,
        "event:"@[0] == 'e',
        "event:"@[1] == 'v',
        "object"@[0] == 'o',
        "object"@[1] == 'b',
        "output"@[0] == 'o',
        "output"@[1] == 'u',
        "choices"@.len() == 7,
        "content"@.len() == 7,
        "created"@.len() == 7,
        "message"@.len() == 7,
        "choices"@[0] == 'c',
        "choices"@[1] == 'h',
        "content"@[0] == 'c',
        "content"@[1] == 'o',
        "created"@[0] == 'c',
        "created"@[1] == 'r',
        "message"@[0] == 'm',
        "message"@[1] == 'e',
        "function"@.len() == 8,
        "response"@.len() == 8,
        "function"@[0] == 'f',
        "response"@[0] == 'r',
        "arguments"@.len() == 9,
        "namespace"@.len() == 9,
        "arguments"@[0] == 'a',
        "namespace"@[0] == 'n',
        "tool_calls"@.len() == 10,
        "token_usage"@.len() == 11,
        "finish_reason"@.len() == 13,
        "function_call"@.len() == 13,
        "finish_reason"@[1] == 'i',
        "function_call"@[1] == 'u',
        "partial_arguments"@.len() == 17,
        "reasoning_content"@.len() == 17,
        "partial_arguments"@[0] == 'p',
        "reasoning_content"@[0] == 'r',
{
    reveal_strlit("id");
    reveal_strlit("code");
    reveal_strlit("done");
    reveal_strlit("name");
    reveal_strlit("role");
    reveal_strlit("stop");
    reveal_strlit("type");
    reveal_strlit("data:");
    reveal_strlit("delta");
    reveal_strlit("error");
    reveal_strlit("index");
    reveal_strlit("model");
    reveal_strlit("usage");
    reveal_strlit("event:");
    reveal_strlit("object");
    reveal_strlit("output");
    reveal_strlit("choices");
    reveal_strlit("content");
    reveal_strlit("created");
    reveal_strlit("message");
    reveal_strlit("function");
    reveal_strlit("response");
    reveal_strlit("arguments");
    reveal_strlit("namespace");
    reveal_strlit("tool_calls");
    reveal_strlit("token_usage");
    reveal_strlit("finish_reason");
    reveal_strlit("function_call");
    reveal_strlit("partial_arguments");
    reveal_strlit("reasoning_content");
}

/// Every part of a tool call is streamed, behind those before it, with what was
/// called under the name that clients know and with all else as it came, but for
/// two entries that are not theirs.
pub proof fn parts_of_calls_are_streamed(
    before: Seq<JsonV>,
    fragment: JsonV,
    value: JsonV,
    key: Seq<char>,
)
    requires
        fragment is Obj,
        key != "function"@ && key != "function_call"@,
        key != "namespace"@ && key != "partial_arguments"@,
    ensures
        ({
            let sent = fragments_out(before.push(fragment));
            &&& sent.len() == fragments_out(before).len() + 1
            &&& sent.drop_last() == fragments_out(before)
            &&& fragment.get("function_call"@) == Some(value) ==> sent.last().get("function"@)
                == Some(value)
            &&& fragment.get("function_call"@) is None ==> sent.last().get("function"@)
                == fragment.get("function"@)
            &&& sent.last().get("function_call"@) is None
            &&& sent.last().get("namespace"@) is None
            &&& sent.last().get("partial_arguments"@) is None
            &&& sent.last().get(key) == fragment.get(key)
        }),
{
    lemma_words();
    assert(before.push(fragment).drop_last() =~= before);
    let sent = fragments_out(before.push(fragment));
    assert(sent.drop_last() =~= fragments_out(before));
}

/// What an output adds goes out in one chunk: the answer as content, the thinking
/// as thinking, the parts of tool calls as such; and the answer that is gathered
/// grows by the same.
pub proof fn outputs_are_told(state: AnswerV, payload: JsonV, s: Seq<char>, parts: Seq<JsonV>)
    requires
        s.len() > 0,
        parts.len() > 0,
    ensures
        ({
            let (next, steps) = state.after_output(payload);
            let adds = payload.get("response"@) == Some(JsonV::Str(s)) || payload.get(
                "reasoning_content"@,
            ) == Some(JsonV::Str(s)) || payload.get("tool_calls"@) == Some(JsonV::Arr(parts));
            &&& adds ==> steps.len() == if state.role_sent {
                1int
            } else {
                2
            }
            &&& adds ==> next.role_sent
            &&& adds ==> {
                &&& steps.last().get("choices"@) matches Some(JsonV::Arr(choices))
                &&& choices.len() == 1
                &&& choices[0].get("index"@) == Some(JsonV::Int(0))
                &&& choices[0].get("delta"@) matches Some(delta)
                &&& payload.get("response"@) == Some(JsonV::Str(s)) ==> delta.get("content"@)
                    == Some(JsonV::Str(s)) && next.content == state.content + s
                &&& payload.get("response"@) is None ==> delta.get("content"@) is None
                    && next.content == state.content
                &&& payload.get("reasoning_content"@) == Some(JsonV::Str(s)) ==> delta.get(
                    "reasoning_content"@,
                ) == Some(JsonV::Str(s)) && next.reasoning == state.reasoning + s
                &&& payload.get("reasoning_content"@) is None ==> delta.get("reasoning_content"@)
                    is None && next.reasoning == state.reasoning
                &&& payload.get("tool_calls"@) == Some(JsonV::Arr(parts)) ==> delta.get(
                    "tool_calls"@,
                ) == Some(JsonV::Arr(fragments_out(parts))) && next.calls == with_fragments(
                    state.calls,
                    parts,
                )
                &&& payload.get("tool_calls"@) is None ==> delta.get("tool_calls"@) is None
                    && next.calls == state.calls
            }
            &&& payload.get("response"@) is None && payload.get("reasoning_content"@) is None
                && payload.get("tool_calls"@) is None ==> steps.len() == 0
        }),
{
    lemma_words();
    reveal(stream::chunk_of);
    assert(state.content + Seq::<char>::empty() =~= state.content);
    assert(state.reasoning + Seq::<char>::empty() =~= state.reasoning);
    let (next, steps) = state.after_output(payload);
    if steps.len() > 0 {
        assert(steps.last() == stream::chunk_of(state, stream::delta_of(payload), None));
    }
}

/// Every chunk bears the id, the time and the model of its answer, and the first
/// one says who speaks.
pub proof fn chunks_bear_the_answer(state: AnswerV, payload: JsonV, i: int)
    requires
        0 <= i < state.after_output(payload).1.len(),
    ensures
        ({
            let steps = state.after_output(payload).1;
            &&& steps[i].get("id"@) == Some(JsonV::Str(state.id))
            &&& steps[i].get("created"@) == Some(JsonV::Int(state.created))
            &&& steps[i].get("model"@) == Some(JsonV::Str(state.model))
            &&& steps[i].get("object"@) == Some(JsonV::Str("chat.completion.chunk"@))
            &&& !state.role_sent ==> {
                &&& steps[0].get("choices"@) matches Some(JsonV::Arr(choices))
                &&& choices.len() == 1
                &&& choices[0].at("delta"@, "role"@) == Some(JsonV::Str("assistant"@))
            }
        }),
{
    lemma_words();
    reveal(stream::chunk_of);
}

/// What the other events are for: the tokens that the answer took, why it ended,
/// and that it failed.
pub proof fn events_are_heeded(state: AnswerV, event: EventV, s: Seq<char>, code: int)
    requires
        i64::MIN <= code <= i64::MAX,
    ensures
        event.kind == "output"@ ==> state.after(event) == Ok::<_, ErrorV>(
            state.after_output(event.payload),
        ),
        event.kind == "token_usage"@ ==> {
            &&& state.after(event) matches Ok(step)
            &&& step.0.usage == Some(event.payload) && step.1.len() == 0
            &&& step.0 == AnswerV { usage: step.0.usage, ..state }
        },
        event.kind == "done"@ ==> {
            &&& state.after(event) matches Ok(step)
            &&& event.payload.get("finish_reason"@) == Some(JsonV::Str(s)) ==> step.0.finish
                == Some(s)
            &&& event.payload.get("finish_reason"@) is None ==> step.0.finish == Some("stop"@)
            &&& step.0 == AnswerV { finish: step.0.finish, ..state } && step.1.len() == 0
        },
        event.kind == "error"@ ==> {
            &&& state.after(event) matches Err(error)
            &&& event.payload.get("message"@) == Some(JsonV::Str(s)) ==> text::has_part(
                error.message,
                s,
            )
            &&& event.payload.get("code"@) == Some(JsonV::Int(code)) ==> {
                &&& error.code == Some(text::decimal_int(code))
                &&& code == 1005 || code == 4008 || code == 4010 ==> error.status == 429
                &&& code == 1001 ==> error.status == 401
                &&& code != 1005 && code != 4008 && code != 4010 && code != 1001 ==> error.status
                    == 502
            }
        },
{
    lemma_words();
    if event.kind == "error"@ {
        let told = match event.payload.field("code"@).as_int() {
            Some(n) => n,
            None => 0,
        };
        text::lemma_has_part("Trae 上游错误 "@ + text::decimal_int(told) + ": "@, s, Seq::empty());
    }
}

/// The whole answer holds what was gathered: what was said, thought and called,
/// why it ended and what it took.
pub proof fn the_answer_is_whole(state: AnswerV, usage: JsonV, reason: Seq<char>, i: int)
    ensures
        ({
            let body = state.whole();
            &&& body.get("id"@) == Some(JsonV::Str(state.id))
            &&& body.get("object"@) == Some(JsonV::Str("chat.completion"@))
            &&& body.get("created"@) == Some(JsonV::Int(state.created))
            &&& body.get("model"@) == Some(JsonV::Str(state.model))
            &&& state.usage == Some(usage) ==> body.get("usage"@) == Some(usage)
            &&& state.usage is None ==> body.get("usage"@) == Some(JsonV::Null)
            &&& body.get("choices"@) matches Some(JsonV::Arr(choices))
            &&& choices.len() == 1
            &&& choices[0].get("index"@) == Some(JsonV::Int(0))
            &&& state.finish == Some(reason) ==> choices[0].get("finish_reason"@) == Some(
                JsonV::Str(reason),
            )
            &&& state.finish is None ==> choices[0].get("finish_reason"@) == Some(
                JsonV::Str("stop"@),
            )
            &&& choices[0].at("message"@, "role"@) == Some(JsonV::Str("assistant"@))
            &&& choices[0].at("message"@, "content"@) == Some(JsonV::Str(state.content))
            &&& state.reasoning.len() > 0 ==> choices[0].at("message"@, "reasoning_content"@)
                == Some(JsonV::Str(state.reasoning))
            &&& state.reasoning.len() == 0 ==> choices[0].at("message"@, "reasoning_content"@)
                is None
            &&& state.calls.len() == 0 ==> choices[0].at("message"@, "tool_calls"@) is None
            &&& state.calls.len() > 0 ==> {
                &&& choices[0].at("message"@, "tool_calls"@) matches Some(JsonV::Arr(calls))
                &&& calls.len() == state.calls.len()
                &&& 0 <= i < calls.len() ==> calls[i] == state.calls[i].1
            }
        }),
{
    lemma_words();
}

/// A stream is closed by a chunk that says why the answer ended, and by one with
/// the tokens that it took where they are known.
pub proof fn streams_are_closed(state: AnswerV, usage: JsonV)
    ensures
        ({
            let steps = state.closing();
            let opening = if state.role_sent {
                0int
            } else {
                1
            };
            &&& steps.len() == opening + 1 + if state.usage is Some {
                1int
            } else {
                0
            }
            &&& steps[opening].get("choices"@) matches Some(JsonV::Arr(choices))
            &&& choices.len() == 1
            &&& choices[0].get("finish_reason"@) == Some(JsonV::Str(state.ending()))
            &&& state.usage == Some(usage) ==> steps.last().get("usage"@) == Some(usage)
            &&& state.usage is None ==> steps.last().get("usage"@) is None
        }),
{
    lemma_words();
    reveal(stream::chunk_of);
}

/// The lines of an event: one names it, those with data are joined, and a blank
/// one hands it out and begins the next.
pub proof fn lines_make_events(parser: ParserV, s: Seq<char>)
    requires
        s.len() > 0 && s.last() != '\r' && s.last() != '\n',
    ensures
        ({
            let (next, event) = parser.after_line("event:"@ + s);
            &&& event is None
            &&& next == (ParserV { event: text::trimmed(s), ..parser })
        }),
        ({
            let (next, event) = parser.after_line("data:"@ + s);
            &&& event is None
            &&& next == (ParserV { data: parser.data + text::trimmed(s), ..parser })
        }),
        ({
            let (next, event) = parser.after_line(Seq::empty());
            &&& next.event.len() == 0 && next.data.len() == 0
            &&& parser.event.len() == 0 ==> event is None
            &&& parser.event.len() > 0 ==> {
                &&& event matches Some(e)
                &&& e.kind == parser.event
                &&& parser.data.len() == 0 ==> e.payload == JsonV::Null
                &&& parser.data.len() > 0 ==> match json::parsed_json(parser.data) {
                    Some(v) => e.payload == v,
                    None => e.payload == JsonV::Null,
                }
            }
        }),
{
    lemma_words();
    let named = "event:"@ + s;
    assert(named.last() == s.last());
    assert("event:"@.is_prefix_of(named));
    assert(named.skip(6) =~= s);
    let data = "data:"@ + s;
    assert(data.last() == s.last());
    assert("data:"@.is_prefix_of(data));
    assert(data.skip(5) =~= s);
    assert(data[0] == 'd' && named[0] == 'e') by {
        assert("data:"@[0] == 'd') by {
            reveal_strlit("data:");
        }
        assert("event:"@[0] == 'e') by {
            reveal_strlit("event:");
        }
    }
    if "event:"@.is_prefix_of(data) {
        assert("event:"@[0] == data[0]);
    }
}

// The tool calls of the whole answer are those that were streamed.

/// What is known of the arguments of the tool call of an index.
pub open spec fn arguments_in(calls: Seq<(int, JsonV)>, n: int) -> Seq<char> {
    match call_at(calls, n) {
        Some(call) => text_or_empty(call.field("function"@).field("arguments"@)),
        None => Seq::empty(),
    }
}

/// What is known of the name of the tool call of an index.
pub open spec fn name_in(calls: Seq<(int, JsonV)>, n: int) -> Option<JsonV> {
    match call_at(calls, n) {
        Some(call) => call.field("function"@).get("name"@),
        None => None,
    }
}

/// Whether every tool call is an object, and what it calls as well.
pub open spec fn well_joined(calls: Seq<(int, JsonV)>) -> bool {
    forall|n: int| (#[trigger] call_at(calls, n)) matches Some(call) ==> is_call(call)
}

/// Whether a tool call is an object, and what it calls as well.
pub open spec fn is_call(call: JsonV) -> bool {
    call is Obj && (call.get("function"@) matches Some(f) ==> f is Obj)
}

/// Whether a part of a tool call says only once what it calls, with finitely many
/// entries.
pub open spec fn is_part(fragment: JsonV) -> bool {
    &&& fragment matches JsonV::Obj(m) ==> m.dom().finite()
    &&& fragment.get("function"@) is None || fragment.get("function_call"@) is None
    &&& fragment.field("function"@) matches JsonV::Obj(m) ==> m.dom().finite()
    &&& fragment.field("function_call"@) matches JsonV::Obj(m) ==> m.dom().finite()
}

proof fn lemma_with_call(calls: Seq<(int, JsonV)>, index: int, call: JsonV, n: int)
    ensures
        call_at(with_call(calls, index, call), n) == if n == index {
            Some(call)
        } else {
            call_at(calls, n)
        },
    decreases calls.len(),
{
    let all = with_call(calls, index, call);
    if calls.len() == 0 {
        assert(all.skip(1) =~= calls);
    } else if calls[0].0 == index {
        assert(all.skip(1) =~= calls.skip(1));
    } else if calls[0].0 > index {
        assert(all.skip(1) =~= calls);
    } else {
        lemma_with_call(calls.skip(1), index, call, n);
        assert(all.skip(1) =~= with_call(calls.skip(1), index, call));
    }
}

/// Whether no text stands twice in a list.
spec fn once_each(keys: Seq<Seq<char>>) -> bool {
    forall|i: int, j: int| 0 <= i < j < keys.len() ==> #[trigger] keys[i] != #[trigger] keys[j]
}

proof fn lemma_keys(value: JsonV, key: Seq<char>)
    requires
        value matches JsonV::Obj(m) && m.dom().finite(),
    ensures
        once_each(value.keys()),
        value.keys().contains(key) <==> value.get(key) is Some,
{
    let dom = value->Obj_0.dom();
    order::lemma_listed(dom);
    let keys = value.keys();
    assert forall|i: int, j: int| 0 <= i < j < keys.len() implies #[trigger] keys[i]
        != #[trigger] keys[j] by {
        assert(order::before(keys[i], keys[j]));
        order::lemma_strict(keys[i], keys[j]);
    }
    assert(dom.contains(key) <==> keys.contains(key));
}

proof fn lemma_last_key(keys: Seq<Seq<char>>, key: Seq<char>)
    requires
        once_each(keys),
        keys.len() > 0,
    ensures
        once_each(keys.drop_last()),
        !keys.drop_last().contains(keys.last()),
        keys.contains(key) <==> keys.drop_last().contains(key) || key == keys.last(),
{
    let head = keys.drop_last();
    assert forall|i: int, j: int| 0 <= i < j < head.len() implies #[trigger] head[i]
        != #[trigger] head[j] by {
        assert(keys[i] != keys[j]);
    }
    if head.contains(keys.last()) {
        let k = choose|k: int| 0 <= k < head.len() && head[k] == keys.last();
        assert(keys[k] != keys[keys.len() - 1]);
    }
    if keys.contains(key) {
        let k = choose|k: int| 0 <= k < keys.len() && keys[k] == key;
        if k < head.len() {
            assert(head[k] == key);
        }
    }
    if head.contains(key) {
        let k = choose|k: int| 0 <= k < head.len() && head[k] == key;
        assert(keys[k] == key);
    }
    assert(keys[keys.len() - 1] == keys.last());
}

proof fn lemma_parts(target: JsonV, fragment: JsonV, keys: Seq<Seq<char>>)
    requires
        target is Obj,
        once_each(keys),
    ensures
        ({
            let all = stream::with_parts(target, fragment, keys);
            &&& all is Obj
            &&& text_or_empty(all.field("arguments"@)) == text_or_empty(target.field("arguments"@))
                + (if keys.contains("arguments"@) {
                text_or_empty(fragment.field("arguments"@))
            } else {
                Seq::empty()
            })
            &&& all.get("name"@) == if keys.contains("name"@) && !stream::is_blank(
                fragment.field("name"@),
            ) {
                Some(fragment.field("name"@))
            } else {
                target.get("name"@)
            }
        }),
    decreases keys.len(),
{
    lemma_words();
    let had = text_or_empty(target.field("arguments"@));
    if keys.len() == 0 {
        assert(had + Seq::<char>::empty() =~= had);
    } else {
        lemma_last_key(keys, "arguments"@);
        lemma_last_key(keys, "name"@);
        lemma_parts(target, fragment, keys.drop_last());
        assert(had + Seq::<char>::empty() =~= had);
    }
}

proof fn lemma_joined(known: Option<JsonV>, fragment: JsonV)
    requires
        known matches Some(v) ==> v is Obj,
        fragment matches JsonV::Obj(m) && m.dom().finite(),
    ensures
        ({
            let all = stream::joined_function(known, fragment);
            let before = match known {
                Some(v) => v,
                None => JsonV::object(),
            };
            &&& all is Obj
            &&& text_or_empty(all.field("arguments"@)) == text_or_empty(before.field("arguments"@))
                + text_or_empty(fragment.field("arguments"@))
            &&& all.get("name"@) == if stream::is_blank(fragment.field("name"@)) {
                before.get("name"@)
            } else {
                Some(fragment.field("name"@))
            }
        }),
{
    lemma_keys(fragment, "arguments"@);
    lemma_keys(fragment, "name"@);
    let before = match known {
        Some(v) => v,
        None => JsonV::object(),
    };
    lemma_parts(before, fragment, fragment.keys());
}

/// What a part of a tool call calls, by either of its names.
pub open spec fn called(fragment: JsonV) -> Option<JsonV> {
    match fragment.get("function_call"@) {
        Some(v) => Some(v),
        None => fragment.get("function"@),
    }
}

proof fn lemma_entries(call: JsonV, fragment: JsonV, keys: Seq<Seq<char>>)
    requires
        is_call(call),
        is_part(fragment),
        once_each(keys),
        forall|i: int| 0 <= i < keys.len() ==> fragment.get(#[trigger] keys[i]) is Some,
    ensures
        ({
            let all = stream::with_entries(call, fragment, keys);
            let met = keys.contains("function"@) || keys.contains("function_call"@);
            &&& is_call(all)
            &&& all.get("function"@) == if met && called(fragment).unwrap() is Obj {
                Some(stream::joined_function(call.get("function"@), called(fragment).unwrap()))
            } else {
                call.get("function"@)
            }
            &&& all.get("id"@) == if keys.contains("id"@) && !stream::is_blank(
                fragment.field("id"@),
            ) {
                fragment.get("id"@)
            } else {
                call.get("id"@)
            }
        }),
    decreases keys.len(),
{
    lemma_words();
    if keys.len() > 0 {
        lemma_last_key(keys, "function"@);
        lemma_last_key(keys, "function_call"@);
        lemma_last_key(keys, "id"@);
        let head = keys.drop_last();
        assert forall|i: int| 0 <= i < head.len() implies fragment.get(#[trigger] head[i]) is Some by {
            assert(fragment.get(keys[i]) is Some);
        }
        lemma_entries(call, fragment, head);
        let last = keys.last();
        assert(fragment.get(keys[keys.len() - 1]) is Some);
        if head.contains("function"@) {
            let k = choose|k: int| 0 <= k < head.len() && head[k] == "function"@;
            assert(fragment.get(head[k]) is Some);
        }
        if head.contains("function_call"@) {
            let k = choose|k: int| 0 <= k < head.len() && head[k] == "function_call"@;
            assert(fragment.get(head[k]) is Some);
        }
        if (last == "function"@ || last == "function_call"@) && called(fragment).unwrap() is Obj {
            let known = stream::with_entries(call, fragment, head);
            assert(known.get("function"@) == call.get("function"@));
            lemma_joined(call.get("function"@), called(fragment).unwrap());
        }
    }
}

proof fn lemma_fragment(calls: Seq<(int, JsonV)>, fragment: JsonV, n: int)
    requires
        well_joined(calls),
        fragment is Obj,
        is_part(fragment),
    ensures
        ({
            let all = with_fragment(calls, fragment);
            let mine = index_in(fragment) == n;
            &&& well_joined(all)
            &&& mine ==> call_at(all, n) is Some
            &&& arguments_in(all, n) == arguments_in(calls, n) + (if mine {
                text_or_empty(fragment_out(fragment).field("function"@).field("arguments"@))
            } else {
                Seq::empty()
            })
            &&& name_in(all, n) == if mine && !stream::is_blank(
                fragment_out(fragment).field("function"@).field("name"@),
            ) {
                fragment_out(fragment).field("function"@).get("name"@)
            } else {
                name_in(calls, n)
            }
            &&& mine && !stream::is_blank(fragment.field("id"@)) ==> call_at(all, n).unwrap().get(
                "id"@,
            ) == fragment.get("id"@)
            &&& !mine ==> call_at(all, n) == call_at(calls, n)
        }),
{
    lemma_words();
    let index = index_in(fragment);
    let known = match call_at(calls, index) {
        Some(call) => call,
        None => JsonV::object().put("index"@, JsonV::Int(index)),
    };
    assert(is_call(known));
    let keys = fragment.keys();
    lemma_keys(fragment, "function"@);
    lemma_keys(fragment, "function_call"@);
    lemma_keys(fragment, "id"@);
    assert forall|i: int| 0 <= i < keys.len() implies fragment.get(#[trigger] keys[i]) is Some by {
        lemma_keys(fragment, keys[i]);
        assert(keys.contains(keys[i]));
    }
    lemma_entries(known, fragment, keys);
    let call = stream::with_entries(known, fragment, keys);
    let all = with_fragment(calls, fragment);
    assert forall|m: int| (#[trigger] call_at(all, m)) matches Some(c) ==> is_call(c) by {
        lemma_with_call(calls, index, call, m);
        assert(call_at(calls, m) matches Some(c) ==> is_call(c));
    }
    lemma_with_call(calls, index, call, n);
    let had = arguments_in(calls, n);
    assert(had + Seq::<char>::empty() =~= had);
    if index == n {
        let told = fragment_out(fragment).field("function"@);
        match called(fragment) {
            Some(v) => {
                assert(told == v);
                if v is Obj {
                    lemma_joined(known.get("function"@), v);
                }
            },
            None => {},
        }
    }
}

/// One more part of a tool call: the call of its index then has the name and the
/// id that came with it, its arguments grew by those that came, and the other
/// calls stay as they were.
pub proof fn calls_grow_by_their_parts(
    calls: Seq<(int, JsonV)>,
    fragment: JsonV,
    n: int,
    other: int,
    function: JsonV,
    word: Seq<char>,
)
    requires
        well_joined(calls),
        fragment is Obj,
        is_part(fragment),
        fragment.get("index"@) == Some(JsonV::Int(n)),
        i64::MIN <= n <= i64::MAX,
        fragment.get("function"@) == Some(function) || fragment.get("function_call"@) == Some(
            function,
        ),
        word.len() > 0,
        other != n,
    ensures
        ({
            let all = with_fragment(calls, fragment);
            &&& well_joined(all)
            &&& call_at(all, n) is Some
            &&& function.get("arguments"@) == Some(JsonV::Str(word)) ==> arguments_in(all, n)
                == arguments_in(calls, n) + word
            &&& function.get("arguments"@) is None ==> arguments_in(all, n) == arguments_in(
                calls,
                n,
            )
            &&& function.get("name"@) == Some(JsonV::Str(word)) ==> name_in(all, n) == Some(
                JsonV::Str(word),
            )
            &&& function.get("name"@) is None ==> name_in(all, n) == name_in(calls, n)
            &&& fragment.get("id"@) == Some(JsonV::Str(word)) ==> call_at(all, n).unwrap().get(
                "id"@,
            ) == Some(JsonV::Str(word))
            &&& call_at(all, other) == call_at(calls, other)
        }),
{
    lemma_words();
    lemma_fragment(calls, fragment, n);
    lemma_fragment(calls, fragment, other);
    let had = arguments_in(calls, n);
    assert(had + Seq::<char>::empty() =~= had);
}

/// What streamed parts of tool calls say in all of the arguments of one call.
pub open spec fn arguments_told(parts: Seq<JsonV>, n: int) -> Seq<char>
    decreases parts.len(),
{
    if parts.len() == 0 {
        Seq::empty()
    } else {
        arguments_told(parts.drop_last(), n) + if index_in(parts.last()) == n {
            text_or_empty(parts.last().field("function"@).field("arguments"@))
        } else {
            Seq::empty()
        }
    }
}

/// The name that streamed parts of tool calls give one call in the end.
pub open spec fn name_told(known: Option<JsonV>, parts: Seq<JsonV>, n: int) -> Option<JsonV>
    decreases parts.len(),
{
    if parts.len() == 0 {
        known
    } else if index_in(parts.last()) == n && !stream::is_blank(
        parts.last().field("function"@).field("name"@),
    ) {
        parts.last().field("function"@).get("name"@)
    } else {
        name_told(known, parts.drop_last(), n)
    }
}

proof fn lemma_fragments(calls: Seq<(int, JsonV)>, fragments: Seq<JsonV>, n: int)
    requires
        well_joined(calls),
        forall|i: int| 0 <= i < fragments.len() ==> is_part(#[trigger] fragments[i]),
    ensures
        well_joined(with_fragments(calls, fragments)),
        arguments_in(with_fragments(calls, fragments), n) == arguments_in(calls, n)
            + arguments_told(fragments_out(fragments), n),
        name_in(with_fragments(calls, fragments), n) == name_told(
            name_in(calls, n),
            fragments_out(fragments),
            n,
        ),
    decreases fragments.len(),
{
    lemma_words();
    let had = arguments_in(calls, n);
    if fragments.len() == 0 {
        assert(had + Seq::<char>::empty() =~= had);
    } else {
        let head = fragments.drop_last();
        let last = fragments.last();
        assert forall|i: int| 0 <= i < head.len() implies is_part(#[trigger] head[i]) by {
            assert(is_part(fragments[i]));
        }
        assert(is_part(fragments[fragments.len() - 1]));
        lemma_fragments(calls, head, n);
        if last is Obj {
            lemma_fragment(with_fragments(calls, head), last, n);
            let sent = fragments_out(fragments);
            assert(sent.drop_last() =~= fragments_out(head));
            assert(index_in(fragment_out(last)) == index_in(last));
            assert(arguments_in(with_fragments(calls, fragments), n) =~= had + arguments_told(
                sent,
                n,
            ));
        }
    }
}

/// The parts of tool calls that a chunk holds.
pub open spec fn parts_in(step: JsonV) -> Seq<JsonV> {
    match step.field("choices"@) {
        JsonV::Arr(choices) => if choices.len() > 0 {
            match choices[0].field("delta"@).field("tool_calls"@) {
                JsonV::Arr(parts) => parts,
                _ => Seq::empty(),
            }
        } else {
            Seq::empty()
        },
        _ => Seq::empty(),
    }
}

/// The parts of tool calls that chunks hold.
pub open spec fn all_parts(steps: Seq<JsonV>) -> Seq<JsonV>
    decreases steps.len(),
{
    if steps.len() == 0 {
        Seq::empty()
    } else {
        all_parts(steps.drop_last()) + parts_in(steps.last())
    }
}

proof fn lemma_parts_joined(one: Seq<JsonV>, two: Seq<JsonV>)
    ensures
        all_parts(one + two) == all_parts(one) + all_parts(two),
    decreases two.len(),
{
    if two.len() == 0 {
        assert(one + two =~= one);
        assert(all_parts(one) + all_parts(two) =~= all_parts(one));
    } else {
        lemma_parts_joined(one, two.drop_last());
        assert((one + two).drop_last() =~= one + two.drop_last());
        assert(all_parts(one + two) =~= all_parts(one) + all_parts(two));
    }
}

proof fn lemma_told_joined(known: Option<JsonV>, one: Seq<JsonV>, two: Seq<JsonV>, n: int)
    ensures
        arguments_told(one + two, n) == arguments_told(one, n) + arguments_told(two, n),
        name_told(known, one + two, n) == name_told(name_told(known, one, n), two, n),
    decreases two.len(),
{
    if two.len() == 0 {
        assert(one + two =~= one);
        assert(arguments_told(one, n) + arguments_told(two, n) =~= arguments_told(one, n));
    } else {
        lemma_told_joined(known, one, two.drop_last(), n);
        assert((one + two).drop_last() =~= one + two.drop_last());
        assert(arguments_told(one + two, n) =~= arguments_told(one, n) + arguments_told(two, n));
    }
}

/// Whether the parts of tool calls in all outputs say only once what they call.
pub open spec fn are_parts(events: Seq<EventV>) -> bool {
    forall|i: int, k: int|
        0 <= i < events.len() && 0 <= k < fragments_in(events[i].payload).len() ==> is_part(
            #[trigger] fragments_in(events[i].payload)[k],
        )
}

/// Joined by their index, the parts of tool calls that a client was streamed make
/// up the tool calls of the whole answer: the same arguments and the same name.
pub proof fn streamed_calls_are_the_whole_calls(state: AnswerV, events: Seq<EventV>, n: int)
    requires
        well_joined(state.calls),
        are_parts(events),
        after_events(state, events) is Ok,
    ensures
        ({
            let (next, steps) = after_events(state, events)->Ok_0;
            &&& well_joined(next.calls)
            &&& arguments_in(next.calls, n) == arguments_in(state.calls, n) + arguments_told(
                all_parts(steps),
                n,
            )
            &&& name_in(next.calls, n) == name_told(name_in(state.calls, n), all_parts(steps), n)
        }),
    decreases events.len(),
{
    let had = arguments_in(state.calls, n);
    if events.len() == 0 {
        assert(had + Seq::<char>::empty() =~= had);
    } else {
        let head = events.drop_last();
        assert(are_parts(head)) by {
            assert forall|i: int, k: int|
                0 <= i < head.len() && 0 <= k < fragments_in(head[i].payload).len() implies is_part(
                #[trigger] fragments_in(head[i].payload)[k],
            ) by {
                assert(is_part(fragments_in(events[i].payload)[k]));
            }
        }
        streamed_calls_are_the_whole_calls(state, head, n);
        let (known, before) = after_events(state, head)->Ok_0;
        let (next, more) = known.after(events.last())->Ok_0;
        lemma_parts_joined(before, more);
        lemma_told_joined(name_in(state.calls, n), all_parts(before), all_parts(more), n);
        let payload = events.last().payload;
        assert forall|k: int| 0 <= k < fragments_in(payload).len() implies is_part(
            #[trigger] fragments_in(payload)[k],
        ) by {
            assert(is_part(fragments_in(events[events.len() - 1].payload)[k]));
        }
        lemma_step_parts(known, events.last());
        lemma_fragments(known.calls, fragments_in(payload), n);
        assert(had + Seq::<char>::empty() =~= had);
        let middle = arguments_in(known.calls, n);
        assert(middle + Seq::<char>::empty() =~= middle);
        assert(arguments_in(next.calls, n) =~= had + arguments_told(
            all_parts(before) + all_parts(more),
            n,
        ));
    }
}

proof fn lemma_step_parts(state: AnswerV, event: EventV)
    requires
        state.after(event) is Ok,
    ensures
        ({
            let (next, steps) = state.after(event)->Ok_0;
            if event.kind == "output"@ {
                all_parts(steps) == fragments_out(fragments_in(event.payload)) && next.calls
                    == with_fragments(state.calls, fragments_in(event.payload))
            } else {
                all_parts(steps) == Seq::<JsonV>::empty() && next.calls == state.calls
            }
        }),
{
    lemma_words();
    reveal(stream::chunk_of);
    let (next, steps) = state.after(event)->Ok_0;
    if event.kind == "output"@ {
        let payload = event.payload;
        let opened = state.opened();
        lemma_opened(state);
        if stream::adds(payload) {
            let last = stream::chunk_of(state, stream::delta_of(payload), None);
            assert(steps.drop_last() =~= opened);
            assert(parts_in(last) =~= fragments_out(fragments_in(payload)));
            assert(all_parts(steps) =~= fragments_out(fragments_in(payload)));
        }
    }
}

proof fn lemma_opened(state: AnswerV)
    ensures
        all_parts(state.opened()) == Seq::<JsonV>::empty(),
{
    lemma_words();
    reveal(stream::chunk_of);
    let opened = state.opened();
    if opened.len() > 0 {
        assert(opened.drop_last() =~= Seq::empty());
        assert(all_parts(opened.drop_last()) =~= Seq::empty());
        assert(parts_in(opened.last()) =~= Seq::empty());
        assert(all_parts(opened) =~= Seq::empty());
    }
}

} // verus!
