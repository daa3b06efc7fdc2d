//! What a stream of events comes to on its way to the client: nothing that is said is
//! held back or changed, and thinking is only joined.
use super::cancellation;
use super::cancellation::CancellableStep;
use super::sse;
use super::sse::{
    frame_text, joined_text, line_kind, noted, passed, pure_thinking, step_of, usage_after,
    CoalesceV, LineV, MetaV, OutV, REASONING_COALESCE_CHARS,
};
use super::stall;
use super::stall::{GuardV, InnerPoll};
use crate::json;
use crate::json::JsonV;
use crate::text;
use vstd::prelude::*;
use vstd::string::*;

verus! {

/// The words tell one another apart.
proof fn lemma_words()
    ensures
        "id"@.len() == 2,
        "data:"@.len() == 5,
        "delta"@.len() == 5,
        "model"@.len() == 5,
        "usage"@.len() == 5,
        "data:"@[0] == 'd',
        "data:"@[1] == 'a',
        "delta"@[0] == 'd',
        "delta"@[1] == 'e',
        "model"@[0] == 'm',
        "model"@[1] == 'o',
        "usage"@[0] == 'u',
        "usage"@[1] == 's',
        "[DONE]"@.len() == 6,
        "choices"@.len() == 7,
        "content"@.len() == 7,
        "created"@.len() == 7,
        "choices"@[1] == 'h',
        "content"@[1] == 'o',
        "created"@[1] == 'r',
        "tool_calls"@.len() == 10,
        "function_call"@.len() == 13,
        "reasoning_content"@.len() == 17,
{
    reveal_strlit("id");
    reveal_strlit("data:");
    reveal_strlit("delta");
    reveal_strlit("model");
    reveal_strlit("usage");
    reveal_strlit("[DONE]");
    reveal_strlit("choices");
    reveal_strlit("content");
    reveal_strlit("created");
    reveal_strlit("tool_calls");
    reveal_strlit("function_call");
    reveal_strlit("reasoning_content");
}

/// What an event says beside thinking is never held back: with a word of the answer
/// or a tool call in it the event goes out at once, behind the thinking before it.
pub proof fn answers_are_not_held_back(
    state: CoalesceV,
    line: Seq<char>,
    event: JsonV,
    choices: Seq<JsonV>,
    s: Seq<char>,
    calls: Seq<JsonV>,
)
    requires
        event.get("choices"@) == Some(JsonV::Arr(choices)),
        choices.len() > 0,
        choices[0].at("delta"@, "content"@) == Some(JsonV::Str(s)) && s.len() > 0 || choices[0].at(
            "delta"@,
            "tool_calls"@,
        ) == Some(JsonV::Arr(calls)) && calls.len() > 0,
    ensures
        ({
            let (next, out) = state.after_event(line, event);
            &&& pure_thinking(event) is None
            &&& next.acc.len() == 0
            &&& out.len() > 0 && out.last() == passed(state.requested, line, event)
            &&& state.acc.len() > 0 ==> out.len() == 2 && (out[0] matches OutV::Joined {
                text,
                ..
            } && text == state.acc)
            &&& state.acc.len() == 0 ==> out.len() == 1
        }),
{
    lemma_words();
}

/// An event that is only thinking adds its thinking to what is held, which goes out
/// once it is long enough.
pub proof fn thinking_is_gathered(
    state: CoalesceV,
    line: Seq<char>,
    event: JsonV,
    choices: Seq<JsonV>,
    s: Seq<char>,
)
    requires
        event.get("choices"@) == Some(JsonV::Arr(choices)),
        choices.len() > 0,
        choices[0].at("delta"@, "reasoning_content"@) == Some(JsonV::Str(s)),
        choices[0].at("delta"@, "content"@) is None,
        choices[0].at("delta"@, "tool_calls"@) is None,
        choices[0].at("delta"@, "function_call"@) is None,
    ensures
        ({
            let (next, out) = state.after_event(line, event);
            &&& pure_thinking(event) == Some(s)
            &&& (state.acc + s).len() < REASONING_COALESCE_CHARS ==> out.len() == 0 && next.acc
                == state.acc + s
            &&& (state.acc + s).len() >= REASONING_COALESCE_CHARS ==> next.acc.len() == 0
                && out.len() == 1 && (out[0] matches OutV::Joined { text, .. } && text == state.acc
                + s)
        }),
{
    lemma_words();
}

/// An event goes out as the line that it came as; where the client asked for another
/// model by name only that name is changed.
pub proof fn events_go_out_as_they_came(
    requested: Option<Seq<char>>,
    line: Seq<char>,
    event: JsonV,
    key: Seq<char>,
    now_ms: int,
)
    requires
        key != "model"@,
    ensures
        requested is None ==> passed(requested, line, event) == OutV::Line(line),
        event.get("model"@) is None ==> passed(requested, line, event) == OutV::Line(line),
        requested matches Some(name) ==> {
            &&& event.get("model"@) == Some(JsonV::Str(name)) ==> passed(requested, line, event)
                == OutV::Line(line)
            &&& event is Obj && event.get("model"@) is Some && event.get("model"@) != Some(
                JsonV::Str(name),
            ) && name.len() > 0 ==> {
                &&& passed(requested, line, event) matches OutV::Renamed(told)
                &&& told.get("model"@) == Some(JsonV::Str(name))
                &&& told.get(key) == event.get(key)
            }
        },
        frame_text(OutV::Line(line), now_ms) == line + "\n\n"@,
        frame_text(OutV::Renamed(event), now_ms) == "data: "@ + json::json_text(event) + "\n\n"@,
        frame_text(OutV::Done, now_ms) == "data: [DONE]\n\n"@,
{
    lemma_words();
}

/// Joined thinking is told whole, under the id, the time and the model of the events
/// that it came with, where they had any; the model is the one that was asked for,
/// where one was.
pub proof fn joined_thinking_is_told(
    meta: MetaV,
    requested: Option<Seq<char>>,
    thought: Seq<char>,
    now_ms: int,
)
    ensures
        ({
            let frame = joined_text(meta, requested, thought, now_ms);
            &&& "data: {"@.is_prefix_of(frame)
            &&& "\n\n"@.is_suffix_of(frame)
            &&& text::has_part(frame, "\"reasoning_content\":"@ + json::json_text(JsonV::Str(thought)))
            &&& text::has_part(frame, json::json_text(sse::joined_id(meta, now_ms)))
            &&& text::has_part(frame, json::json_text(sse::joined_model(meta, requested)))
            &&& text::has_part(frame, json::json_text(sse::joined_created(meta, now_ms)))
        }),
        meta.id matches Some(id) ==> id.truthy() ==> sse::joined_id(meta, now_ms) == id,
        meta.created matches Some(at) ==> at.truthy() ==> sse::joined_created(meta, now_ms) == at,
        requested matches Some(name) ==> sse::joined_model(meta, requested) == JsonV::Str(name),
        requested is None ==> (meta.model matches Some(model) ==> model.truthy()
            ==> sse::joined_model(meta, requested) == model),
        meta.created is None ==> sse::joined_created(meta, now_ms) == JsonV::Int(now_ms / 1000),
{
    let frame = joined_text(meta, requested, thought, now_ms);
    let id = json::json_text(sse::joined_id(meta, now_ms));
    let at = json::json_text(sse::joined_created(meta, now_ms));
    let model = json::json_text(sse::joined_model(meta, requested));
    let said = json::json_text(JsonV::Str(thought));
    let (a, b) = ("data: {\"id\":"@, ",\"object\":\"chat.completion.chunk\",\"created\":"@);
    let c = ",\"model\":"@;
    let d = ",\"choices\":[{\"index\":0,\"delta\":{\"reasoning_content\":"@;
    let e = "},\"finish_reason\":null}]}\n\n"@;
    let last = d + said + e;
    assert(frame =~= a + id + (b + at + c + model + last));
    text::lemma_has_part(a, id, b + at + c + model + last);
    assert(frame =~= (a + id + b) + at + (c + model + last));
    text::lemma_has_part(a + id + b, at, c + model + last);
    assert(frame =~= (a + id + b + at + c) + model + last);
    text::lemma_has_part(a + id + b + at + c, model, last);
    reveal_strlit("data: {");
    reveal_strlit("data: {\"id\":");
    assert(frame.subrange(0, 7) =~= "data: {"@);
    reveal_strlit("\n\n");
    reveal_strlit("},\"finish_reason\":null}]}\n\n");
    assert(frame.subrange(frame.len() - 2, frame.len() as int) =~= "\n\n"@);
    reveal_strlit(",\"choices\":[{\"index\":0,\"delta\":{\"reasoning_content\":");
    reveal_strlit("\"reasoning_content\":");
    let name = "\"reasoning_content\":"@;
    let lead = d.take(d.len() - name.len());
    assert(d =~= lead + name);
    let head = a + id + b + at + c + model + lead;
    assert(frame =~= head + (name + said) + e);
    text::lemma_has_part(head, name + said, e);
}

/// What an event says of its id, its model and its time is remembered; an event that
/// does not say leaves what is known.
pub proof fn events_are_noted(meta: MetaV, event: JsonV, value: JsonV)
    requires
        value.truthy(),
    ensures
        event.get("id"@) == Some(value) ==> noted(meta, event).id == Some(value),
        event.get("model"@) == Some(value) ==> noted(meta, event).model == Some(value),
        event.get("created"@) == Some(value) ==> noted(meta, event).created == Some(value),
        event.get("id"@) is None ==> noted(meta, event).id == meta.id,
        event.get("model"@) is None ==> noted(meta, event).model == meta.model,
        event.get("created"@) is None ==> noted(meta, event).created == meta.created,
{
}

/// The last tokens that the events state are those that are told.
pub proof fn usage_is_told(known: Option<JsonV>, line: Seq<char>, event: JsonV, usage: JsonV)
    ensures
        event.get("usage"@) == Some(usage) ==> usage_after(known, LineV::Event(line, event))
            == Some(usage),
        event.get("usage"@) is None ==> usage_after(known, LineV::Event(line, event)) == known,
        usage_after(known, LineV::Done) == known,
        usage_after(known, LineV::Blank) == known,
{
}

/// A line with data is the event that it writes, the mark of the end is the end, and
/// any other line goes on as it is.
pub proof fn lines_are_read(rest: Seq<char>, event: JsonV)
    requires
        rest.len() > 0 && rest.last() != '\r',
        text::trimmed("data:"@ + rest).len() > 0,
    ensures
        text::trimmed(rest) == "[DONE]"@ ==> line_kind("data:"@ + rest) == LineV::Done,
        text::trimmed(rest) != "[DONE]"@ && json::parsed_json(text::trimmed(rest)) == Some(event)
            ==> line_kind("data:"@ + rest) == LineV::Event("data:"@ + rest, event),
        text::trimmed(rest) != "[DONE]"@ && json::parsed_json(text::trimmed(rest)) is None
            ==> line_kind("data:"@ + rest) == LineV::Other("data:"@ + rest),
        line_kind(("data:"@ + rest).push('\r')) == line_kind("data:"@ + rest),
        line_kind(Seq::empty()) == LineV::Blank,
{
    lemma_words();
    let line = "data:"@ + rest;
    assert(line.last() == rest.last());
    assert("data:"@ =~= line.subrange(0, 5));
    assert("data:"@.is_prefix_of(line));
    assert(line.skip(5) =~= rest);
    assert(line.push('\r').drop_last() =~= line);
    text::lemma_trimmed(Seq::empty());
}

/// At the end of a stream all thinking that is held goes out.
pub proof fn nothing_is_left_behind(state: CoalesceV)
    ensures
        state.acc.len() > 0 ==> state.held().len() == 1 && (state.held()[0] matches OutV::Joined {
            text,
            ..
        } && text == state.acc),
        state.acc.len() == 0 ==> state.held().len() == 0,
        state.emptied().acc.len() == 0,
        state.emptied().requested == state.requested && state.emptied().meta == state.meta,
        state.after(LineV::Done).1.last() == OutV::Done,
        state.after(LineV::Done).0.acc.len() == 0,
{
}

/// A stream is handed on while it gives something; silence that lasts too long ends
/// it with how long it lasted, and one ended by hand is told so.
pub proof fn streams_are_watched(over: bool, elapsed: bool, cancelled: bool, seconds: nat)
    ensures
        !over ==> stall::step_of(over, InnerPoll::Item, elapsed, seconds) == GuardV::Pass,
        !over ==> stall::step_of(over, InnerPoll::End, elapsed, seconds) == GuardV::End,
        !over && !elapsed ==> stall::step_of(over, InnerPoll::Pending, elapsed, seconds)
            == GuardV::Wait,
        !over && elapsed ==> (stall::step_of(
            over,
            InnerPoll::Pending,
            elapsed,
            seconds,
        ) matches GuardV::TimedOut(message) && text::has_part(message, text::decimal(seconds))),
        over ==> stall::step_of(over, InnerPoll::Item, elapsed, seconds) == GuardV::End,
        !over && cancelled ==> cancellation::step_of(over, cancelled, InnerPoll::Item)
            == CancellableStep::Cancelled,
        !over && !cancelled ==> {
            &&& cancellation::step_of(over, cancelled, InnerPoll::Item) == CancellableStep::Pass
            &&& cancellation::step_of(over, cancelled, InnerPoll::End) == CancellableStep::End
            &&& cancellation::step_of(over, cancelled, InnerPoll::Pending) == CancellableStep::Wait
        },
        over ==> cancellation::step_of(over, cancelled, InnerPoll::Item) == CancellableStep::End,
{
    text::lemma_has_part(stall::IDLE_TIMEOUT_PREFIX@ + "("@, text::decimal(seconds), "秒)"@);
}

/// A reason for a break that does not say by itself that the stream was silent is told
/// behind what was tried.
pub proof fn breaks_are_told(lead: Seq<char>, reason: Seq<char>)
    ensures
        reason.is_suffix_of(stall::broken_text(lead, reason)),
        !stall::IDLE_TIMEOUT_PREFIX@.is_prefix_of(reason) ==> lead.is_prefix_of(
            stall::broken_text(lead, reason),
        ),
{
    let whole = lead + reason;
    assert(whole.subrange(whole.len() - reason.len(), whole.len() as int) =~= reason);
    assert(whole.subrange(0, lead.len() as int) =~= lead);
    assert(reason.subrange(0, reason.len() as int) =~= reason);
}

/// Over a whole stream the last tokens that were stated are those that are told.
pub proof fn the_last_usage_is_told(
    known: Option<JsonV>,
    lines: Seq<LineV>,
    line: Seq<char>,
    event: JsonV,
    usage: JsonV,
)
    requires
        event.get("usage"@) == Some(usage),
    ensures
        sse::usage_after_all(known, lines.push(LineV::Event(line, event))) == Some(usage),
        sse::usage_after_all(known, lines.push(LineV::Done)) == sse::usage_after_all(known, lines),
        sse::usage_after_all(known, Seq::empty()) == known,
{
    assert(lines.push(LineV::Event(line, event)).drop_last() =~= lines);
    assert(lines.push(LineV::Done).drop_last() =~= lines);
}

} // verus!
