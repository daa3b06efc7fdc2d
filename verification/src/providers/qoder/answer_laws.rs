//! What an answer of the upstream comes to: every word, every thought and every
//! tool call of it reaches the client, in a stream as in one piece.
use super::chat;
use super::chat::{DeltaV, Progress, ToolV, TranslatorV};
use super::chat_laws;
use super::chat_laws::{after_chunks, answer_said, in_index_order, thinking_said};
use super::models::CatalogV;
use super::piping;
use super::piping::{DriveV, LimitedV};
use super::protocol;
use super::protocol::UpstreamKind;
use super::stream;
use super::stream::{EventV, PieceV};
use crate::json;
use crate::json::JsonV;
use crate::text;
use vstd::prelude::*;
use vstd::string::*;

verus! {

/// The words tell one another apart.
proof fn lemma_words()
    ensures
        "id"@.len() == 2,
        "name"@.len() == 4,
        "role"@.len() == 4,
        "stop"@.len() == 4,
        "type"@.len() == 4,
        "name"@[0] == 'n',
        "role"@[0] == 'r',
        "stop"@[0] == 's',
        "type"@[0] == 't',
        "delta"@.len() == 5,
        "error"@.len() == 5,
        "index"@.len() == 5,
        "model"@.len() == 5,
        "usage"@.len() == 5,
        "delta"@[0] == 'd',
        "error"@[0] == 'e',
        "index"@[0] == 'i',
        "model"@[0] == 'm',
        "usage"@[0] == 'u',
        "object"@.len() == 6,
        "choices"@.len() == 7,
        "content"@.len() == 7,
        "created"@.len() == 7,
        "message"@.len() == 7,
        "choices"@[0] == 'c',
        "choices"@[1] == 'h',
        "content"@[0] == 'c',
        "content"@[1] == 'o',
        "created"@[0] == 'c',
        "created"@[1] == 'r',
        "message"@[0] == 'm',
        "message"@[1] == 'e',
        "function"@.len() == 8,
        "arguments"@.len() == 9,
        "assistant"@.len() == 9,
        "arguments"@[1] == 'r',
        "assistant"@[1] == 's',
        "tool_calls"@.len() == 10,
        "total_tokens"@.len() == 12,
        "finish_reason"@.len() == 13,
        "prompt_tokens"@.len() == 13,
        "finish_reason"@[0] == 'f',
        "prompt_tokens"@[0] == 'p',
        "completion_tokens"@.len() == 17,
        "reasoning_content"@.len() == 17,
        "completion_tokens"@[0] == 'c',
        "reasoning_content"@[0] == 'r',
{
    reveal_strlit("id");
    reveal_strlit("name");
    reveal_strlit("role");
    reveal_strlit("stop");
    reveal_strlit("type");
    reveal_strlit("delta");
    reveal_strlit("error");
    reveal_strlit("index");
    reveal_strlit("model");
    reveal_strlit("usage");
    reveal_strlit("object");
    reveal_strlit("choices");
    reveal_strlit("content");
    reveal_strlit("created");
    reveal_strlit("message");
    reveal_strlit("function");
    reveal_strlit("arguments");
    reveal_strlit("assistant");
    reveal_strlit("tool_calls");
    reveal_strlit("total_tokens");
    reveal_strlit("finish_reason");
    reveal_strlit("prompt_tokens");
    reveal_strlit("completion_tokens");
    reveal_strlit("reasoning_content");
}

/// The steps that add to a tool call.
pub open spec fn calls_said(steps: Seq<DeltaV>) -> Seq<DeltaV>
    decreases steps.len(),
{
    if steps.len() == 0 {
        Seq::empty()
    } else if steps.last() is ToolCall {
        calls_said(steps.drop_last()).push(steps.last())
    } else {
        calls_said(steps.drop_last())
    }
}

/// What the steps say in all of the arguments of one tool call.
pub open spec fn arguments_said(steps: Seq<DeltaV>, n: int) -> Seq<char>
    decreases steps.len(),
{
    if steps.len() == 0 {
        Seq::empty()
    } else {
        arguments_said(steps.drop_last(), n) + match steps.last() {
            DeltaV::ToolCall { index, arguments: Some(s), .. } => if index == n {
                s
            } else {
                Seq::empty()
            },
            _ => Seq::empty(),
        }
    }
}

/// The name that the steps give one tool call in the end.
pub open spec fn name_said(known: Seq<char>, steps: Seq<DeltaV>, n: int) -> Seq<char>
    decreases steps.len(),
{
    if steps.len() == 0 {
        known
    } else {
        match steps.last() {
            DeltaV::ToolCall { index, name: Some(s), .. } => if index == n && s.len() > 0 {
                s
            } else {
                name_said(known, steps.drop_last(), n)
            },
            _ => name_said(known, steps.drop_last(), n),
        }
    }
}

/// The id that the steps give one tool call in the end.
pub open spec fn id_said(known: Seq<char>, steps: Seq<DeltaV>, n: int) -> Seq<char>
    decreases steps.len(),
{
    if steps.len() == 0 {
        known
    } else {
        match steps.last() {
            DeltaV::ToolCall { index, id: Some(s), .. } => if index == n && s.len() > 0 {
                s
            } else {
                id_said(known, steps.drop_last(), n)
            },
            _ => id_said(known, steps.drop_last(), n),
        }
    }
}

/// What is known of the tool call of an index: nothing where there is none.
pub open spec fn call_in(tools: Seq<ToolV>, n: int) -> ToolV
    decreases tools.len(),
{
    if tools.len() == 0 {
        ToolV { index: n, id: Seq::empty(), name: Seq::empty(), arguments: Seq::empty() }
    } else if tools.last().index == n {
        tools.last()
    } else {
        call_in(tools.drop_last(), n)
    }
}

proof fn lemma_no_call(tools: Seq<ToolV>, n: int)
    requires
        in_index_order(tools),
        tools.len() > 0 ==> tools.last().index < n,
    ensures
        call_in(tools, n) == chat::blank_tool(n),
    decreases tools.len(),
{
    if tools.len() > 0 {
        let before = tools.drop_last();
        if before.len() > 0 {
            assert(tools[before.len() - 1].index < tools[tools.len() - 1].index);
            assert(before.last() == tools[before.len() - 1]);
        }
        lemma_no_call(before, n);
    }
}

proof fn lemma_fragment(tools: Seq<ToolV>, piece: DeltaV, n: int)
    requires
        in_index_order(tools),
        piece is ToolCall,
    ensures
        call_in(chat::with_fragment(tools, piece), n) == if piece->ToolCall_index == n {
            chat::grown(call_in(tools, n), piece)
        } else {
            call_in(tools, n)
        },
    decreases tools.len(),
{
    let index = piece->ToolCall_index;
    let all = chat::with_fragment(tools, piece);
    if tools.len() == 0 || tools.last().index < index {
        lemma_no_call(tools, index);
        assert(all.drop_last() =~= tools);
    } else if tools.last().index == index {
        assert(all.drop_last() =~= tools.drop_last());
    } else {
        lemma_fragment(tools.drop_last(), piece, n);
        assert(all.drop_last() =~= chat::with_fragment(tools.drop_last(), piece));
    }
}

/// Whether the tool calls of an answer grew by what the steps say of them.
pub open spec fn calls_in_step(before: TranslatorV, progress: Progress) -> bool {
    &&& in_index_order(progress.state.tools)
    &&& forall|n: int|
        {
            let (old_call, new_call) = (call_in(before.tools, n), #[trigger] call_in(
                progress.state.tools,
                n,
            ));
            &&& new_call.arguments == old_call.arguments + arguments_said(progress.out, n)
            &&& new_call.name == name_said(old_call.name, progress.out, n)
            &&& new_call.id == id_said(old_call.id, progress.out, n)
        }
}

/// One more step that is not about a tool call.
proof fn lemma_other_step(before: TranslatorV, progress: Progress, step: DeltaV, next: Progress)
    requires
        calls_in_step(before, progress),
        !(step is ToolCall),
        next.out == progress.out.push(step),
        next.state.tools == progress.state.tools,
    ensures
        calls_in_step(before, next),
        calls_said(next.out) == calls_said(progress.out),
{
    assert(next.out.drop_last() =~= progress.out);
    assert forall|n: int|
        {
            let (old_call, new_call) = (call_in(before.tools, n), #[trigger] call_in(
                next.state.tools,
                n,
            ));
            &&& new_call.arguments == old_call.arguments + arguments_said(next.out, n)
            &&& new_call.name == name_said(old_call.name, next.out, n)
            &&& new_call.id == id_said(old_call.id, next.out, n)
        } by {
        assert(call_in(progress.state.tools, n) == call_in(next.state.tools, n));
        assert(arguments_said(next.out, n) =~= arguments_said(progress.out, n));
    }
}

proof fn lemma_pieces(before: TranslatorV, progress: Progress, pieces: Seq<PieceV>)
    requires
        calls_in_step(before, progress),
    ensures
        calls_in_step(before, progress.pieces(pieces)),
        calls_said(progress.pieces(pieces).out) == calls_said(progress.out),
        same_but_for_text(progress.pieces(pieces).state, progress.state),
        progress.pieces(pieces).state.tools == progress.state.tools,
    decreases pieces.len(),
{
    if pieces.len() > 0 {
        lemma_pieces(before, progress, pieces.drop_last());
        let known = progress.pieces(pieces.drop_last());
        let next = progress.pieces(pieces);
        lemma_other_step(before, known, next.out.last(), next);
    }
}

/// Whether two states differ at most in what was said and called, and in the
/// thinking that is being told apart.
pub open spec fn same_but_for_text(one: TranslatorV, two: TranslatorV) -> bool {
    &&& one.response_id == two.response_id && one.created == two.created
    &&& one.model_name == two.model_name && one.model_reported == two.model_reported
    &&& one.role_sent == two.role_sent && one.usage == two.usage
    &&& one.finish_reason == two.finish_reason && one.chunk_count == two.chunk_count
}

proof fn lemma_calls(before: TranslatorV, progress: Progress, calls: Seq<JsonV>)
    requires
        calls_in_step(before, progress),
    ensures
        calls_in_step(before, progress.calls(calls)),
        calls_said(progress.calls(calls).out) == calls_said(progress.out) + calls.map_values(
            |call: JsonV| chat::fragment(call),
        ),
        answer_said(progress.calls(calls).out) == answer_said(progress.out),
        thinking_said(progress.calls(calls).out) == thinking_said(progress.out),
        same_but_for_text(progress.calls(calls).state, progress.state),
    decreases calls.len(),
{
    let heard = calls.map_values(|call: JsonV| chat::fragment(call));
    if calls.len() == 0 {
        assert(calls_said(progress.out) + heard =~= calls_said(progress.out));
    } else {
        let known = progress.calls(calls.drop_last());
        let next = progress.calls(calls);
        let piece = chat::fragment(calls.last());
        lemma_calls(before, progress, calls.drop_last());
        assert(next.out.drop_last() =~= known.out);
        assert(calls_said(next.out) =~= calls_said(progress.out) + heard) by {
            let some = calls.drop_last().map_values(|call: JsonV| chat::fragment(call));
            assert(heard =~= some.push(piece));
        }
        assert(answer_said(next.out) =~= answer_said(known.out));
        assert(thinking_said(next.out) =~= thinking_said(known.out));
        chat_laws::fragments_keep_the_order(known.state.tools, piece);
        assert forall|n: int|
            {
                let (old_call, new_call) = (call_in(before.tools, n), #[trigger] call_in(
                    next.state.tools,
                    n,
                ));
                &&& new_call.arguments == old_call.arguments + arguments_said(next.out, n)
                &&& new_call.name == name_said(old_call.name, next.out, n)
                &&& new_call.id == id_said(old_call.id, next.out, n)
            } by {
            lemma_fragment(known.state.tools, piece, n);
            let old_call = call_in(before.tools, n);
            let some = call_in(known.state.tools, n);
            assert(arguments_said(next.out, n) =~= arguments_said(known.out, n) + (
            if piece->ToolCall_index == n && piece->ToolCall_arguments is Some {
                piece->ToolCall_arguments.unwrap()
            } else {
                Seq::empty()
            }));
            assert(call_in(next.state.tools, n).arguments =~= old_call.arguments + arguments_said(
                next.out,
                n,
            ));
        }
    }
}

proof fn lemma_start(state: TranslatorV, known: TranslatorV)
    requires
        in_index_order(state.tools),
        known.tools == state.tools,
    ensures
        calls_in_step(state, Progress { state: known, out: Seq::empty() }),
{
    let start = Progress { state: known, out: Seq::empty() };
    assert forall|n: int|
        {
            let (old_call, new_call) = (call_in(state.tools, n), #[trigger] call_in(
                start.state.tools,
                n,
            ));
            &&& new_call.arguments == old_call.arguments + arguments_said(start.out, n)
            &&& new_call.name == name_said(old_call.name, start.out, n)
            &&& new_call.id == id_said(old_call.id, start.out, n)
        } by {
        assert(arguments_said(start.out, n) =~= Seq::empty());
        let call = call_in(state.tools, n);
        assert(call.arguments + Seq::<char>::empty() =~= call.arguments);
    }
}

proof fn lemma_reasoning(before: TranslatorV, progress: Progress, delta: JsonV)
    requires
        calls_in_step(before, progress),
        calls_said(progress.out).len() == 0,
        progress.out.len() == 0,
    ensures
        calls_in_step(before, progress.reasoning_of(delta)),
        calls_said(progress.reasoning_of(delta).out).len() == 0,
        same_but_for_text(progress.reasoning_of(delta).state, progress.state),
        progress.reasoning_of(delta).state.parser == progress.state.parser,
        answer_said(progress.reasoning_of(delta).out) == Seq::<char>::empty(),
        thinking_said(progress.reasoning_of(delta).out) == (match delta.text_at(
            "reasoning_content"@,
        ) {
            Some(s) => stream::without_tags(s, 4),
            None => Seq::empty(),
        }),
{
    let next = progress.reasoning_of(delta);
    if next.out.len() > 0 {
        lemma_other_step(before, progress, next.out.last(), next);
        assert(next.out.drop_last() =~= progress.out);
        assert(thinking_said(next.out) =~= thinking_said(progress.out) + stream::without_tags(
            delta.text_at("reasoning_content"@).unwrap(),
            4,
        ));
        assert(answer_said(next.out) =~= answer_said(progress.out));
    }
    assert(answer_said(progress.out) =~= Seq::empty());
    assert(thinking_said(progress.out) =~= Seq::empty());
    if delta.text_at("reasoning_content"@) is Some {
        let left = stream::without_tags(delta.text_at("reasoning_content"@).unwrap(), 4);
        if left.len() == 0 {
            assert(left =~= Seq::empty());
        } else {
            assert(Seq::<char>::empty() + left =~= left);
        }
    }
}

proof fn lemma_content(before: TranslatorV, progress: Progress, delta: JsonV)
    requires
        calls_in_step(before, progress),
    ensures
        calls_in_step(before, progress.content_of(delta)),
        calls_said(progress.content_of(delta).out) == calls_said(progress.out),
        same_but_for_text(progress.content_of(delta).state, progress.state),
        progress.state.parser is None ==> {
            &&& thinking_said(progress.content_of(delta).out) == thinking_said(progress.out)
            &&& answer_said(progress.content_of(delta).out) == answer_said(progress.out) + (
            match delta.text_at("content"@) {
                Some(s) => s,
                None => Seq::empty(),
            })
        },
{
    let next = progress.content_of(delta);
    assert(answer_said(progress.out) + Seq::<char>::empty() =~= answer_said(progress.out));
    match delta.text_at("content"@) {
        Some(s) => {
            if s.len() == 0 {
                assert(s =~= Seq::empty());
            } else {
                match progress.state.parser {
                    Some(parser) => {
                        let fed = parser.pushed(s);
                        let start = Progress {
                            state: TranslatorV {
                                parser: Some(stream::ThinkingV { out: Seq::empty(), ..fed }),
                                ..progress.state
                            },
                            ..progress
                        };
                        assert forall|n: int|
                            {
                                let (old_call, new_call) = (
                                    call_in(before.tools, n),
                                    #[trigger] call_in(start.state.tools, n),
                                );
                                &&& new_call.arguments == old_call.arguments + arguments_said(
                                    start.out,
                                    n,
                                )
                                &&& new_call.name == name_said(old_call.name, start.out, n)
                                &&& new_call.id == id_said(old_call.id, start.out, n)
                            } by {
                            assert(call_in(progress.state.tools, n) == call_in(
                                start.state.tools,
                                n,
                            ));
                        }
                        lemma_pieces(before, start, fed.out);
                    },
                    None => {
                        lemma_other_step(before, progress, next.out.last(), next);
                        assert(next.out.drop_last() =~= progress.out);
                        assert(thinking_said(next.out) =~= thinking_said(progress.out));
                    },
                }
            }
        },
        None => {},
    }
}

/// Whether a step is the part of a tool call that a chunk holds: of the same
/// index, with its id, its name and its arguments.
pub open spec fn tells(step: DeltaV, call: JsonV) -> bool {
    &&& step is ToolCall
    &&& step->ToolCall_index == match call.field("index"@) {
        JsonV::Int(n) => if i64::MIN <= n <= i64::MAX {
            n
        } else {
            0
        },
        _ => 0,
    }
    &&& step->ToolCall_id == call.text_at("id"@)
    &&& step->ToolCall_name == call.field("function"@).text_at("name"@)
    &&& step->ToolCall_arguments == call.field("function"@).text_at("arguments"@)
}

/// Every part of a tool call that a chunk holds becomes a step of its own, in
/// order, with the index, the id, the name and the arguments that it came with;
/// and the tool calls of the answer grow by just what the steps say.
pub proof fn calls_are_told(
    state: TranslatorV,
    chunk: JsonV,
    catalog: CatalogV,
    choices: Seq<JsonV>,
    calls: Seq<JsonV>,
    i: int,
)
    requires
        in_index_order(state.tools),
        chunk.get("choices"@) == Some(JsonV::Arr(choices)),
        choices.len() > 0,
        choices[0].at("delta"@, "tool_calls"@) == Some(JsonV::Arr(calls)),
        0 <= i < calls.len(),
    ensures
        ({
            let progress = state.consumed(chunk, catalog);
            let said = calls_said(progress.out);
            &&& said.len() == calls.len()
            &&& tells(said[i], calls[i])
            &&& calls_in_step(state, progress)
        }),
{
    lemma_words();
    let known = state.counted().with_model(chunk, catalog).with_usage(chunk).with_finish(choices[0]);
    let delta = choices[0].get("delta"@).unwrap();
    let start = Progress { state: known, out: Seq::empty() };
    lemma_start(state, known);
    lemma_reasoning(state, start, delta);
    let thought = start.reasoning_of(delta);
    lemma_content(state, thought, delta);
    let said = thought.content_of(delta);
    lemma_calls(state, said, calls);
    assert(state.consumed(chunk, catalog) == said.calls(calls));
    let heard = calls.map_values(|call: JsonV| chat::fragment(call));
    assert(calls_said(said.out) + heard =~= heard);
    assert(heard[i] == chat::fragment(calls[i]));
}

/// A chunk with one part of a tool call: the call of its index then has the name
/// and the id that came with it, and its arguments grew by those that came; the
/// other calls stay as they were.
pub proof fn one_call_grows(
    state: TranslatorV,
    chunk: JsonV,
    catalog: CatalogV,
    choices: Seq<JsonV>,
    call: JsonV,
    n: int,
    other: int,
    word: Seq<char>,
)
    requires
        in_index_order(state.tools),
        chunk.get("choices"@) == Some(JsonV::Arr(choices)),
        choices.len() > 0,
        choices[0].at("delta"@, "tool_calls"@) == Some(JsonV::Arr(seq![call])),
        call.get("index"@) == Some(JsonV::Int(n)),
        i64::MIN <= n <= i64::MAX,
        word.len() > 0,
        other != n,
    ensures
        ({
            let before = call_in(state.tools, n);
            let after = call_in(state.consumed(chunk, catalog).state.tools, n);
            &&& call.at("function"@, "name"@) == Some(JsonV::Str(word)) ==> after.name == word
            &&& call.get("id"@) == Some(JsonV::Str(word)) ==> after.id == word
            &&& call.at("function"@, "arguments"@) == Some(JsonV::Str(word)) ==> after.arguments
                == before.arguments + word
            &&& call.at("function"@, "name"@) is None ==> after.name == before.name
            &&& call.get("id"@) is None ==> after.id == before.id
            &&& call.at("function"@, "arguments"@) is None ==> after.arguments == before.arguments
            &&& call_in(state.consumed(chunk, catalog).state.tools, other) == call_in(
                state.tools,
                other,
            )
        }),
{
    lemma_words();
    let calls = seq![call];
    let known = state.counted().with_model(chunk, catalog).with_usage(chunk).with_finish(choices[0]);
    let delta = choices[0].get("delta"@).unwrap();
    let start = Progress { state: known, out: Seq::empty() };
    lemma_start(state, known);
    lemma_reasoning(state, start, delta);
    let thought = start.reasoning_of(delta);
    lemma_tools_stay(thought, delta);
    let said = thought.content_of(delta);
    assert(said.state.tools == state.tools);
    assert(calls.drop_last() =~= Seq::empty());
    assert(calls.last() == call);
    assert(said.calls(calls.drop_last()) == said);
    let piece = chat::fragment(call);
    assert(state.consumed(chunk, catalog).state.tools == chat::with_fragment(state.tools, piece));
    lemma_fragment(state.tools, piece, n);
    lemma_fragment(state.tools, piece, other);
    let before = call_in(state.tools, n);
    assert(before.arguments + Seq::<char>::empty() =~= before.arguments);
}

proof fn lemma_tools_stay(progress: Progress, delta: JsonV)
    ensures
        progress.content_of(delta).state.tools == progress.state.tools,
{
    match delta.text_at("content"@) {
        Some(s) => {
            match progress.state.parser {
                Some(parser) => {
                    let fed = parser.pushed(s);
                    lemma_pieces_keep_tools(
                        Progress {
                            state: TranslatorV {
                                parser: Some(stream::ThinkingV { out: Seq::empty(), ..fed }),
                                ..progress.state
                            },
                            ..progress
                        },
                        fed.out,
                    );
                },
                None => {},
            }
        },
        None => {},
    }
}

proof fn lemma_pieces_keep_tools(progress: Progress, pieces: Seq<PieceV>)
    ensures
        progress.pieces(pieces).state.tools == progress.state.tools,
        same_but_for_text(progress.pieces(pieces).state, progress.state),
    decreases pieces.len(),
{
    if pieces.len() > 0 {
        lemma_pieces_keep_tools(progress, pieces.drop_last());
    }
}

/// Whether a chunk speaks of tool calls or not, what it says of why the answer
/// ends, of the tokens that it took and of the model is kept, and so is what the
/// client is answered under.
pub proof fn chunks_are_noted(
    state: TranslatorV,
    chunk: JsonV,
    catalog: CatalogV,
    choices: Seq<JsonV>,
    word: Seq<char>,
    usage: Map<Seq<char>, JsonV>,
)
    requires
        in_index_order(state.tools),
        word.len() > 0,
        choices.len() > 0,
    ensures
        ({
            let next = state.consumed(chunk, catalog).state;
            &&& next.response_id == state.response_id && next.created == state.created
            &&& next.model_name == state.model_name
            &&& chunk.get("usage"@) == Some(JsonV::Obj(usage)) ==> next.usage == Some(
                JsonV::Obj(usage),
            )
            &&& !(chunk.field("usage"@) is Obj) ==> next.usage == state.usage
            &&& chunk.get("choices"@) == Some(JsonV::Arr(choices)) && choices[0].get(
                "finish_reason"@,
            ) == Some(JsonV::Str(word)) ==> next.finish_reason == Some(word)
            &&& chunk.get("choices"@) == Some(JsonV::Arr(choices)) && choices[0].get(
                "finish_reason"@,
            ) is None ==> next.finish_reason == state.finish_reason
            &&& chunk.get("choices"@) is None ==> next.finish_reason == state.finish_reason
            &&& chunk.get("model"@) == Some(JsonV::Str(word)) ==> next.model_reported
                == protocol::model_back(catalog, word)
            &&& chunk.get("model"@) is None ==> next.model_reported == state.model_reported
        }),
{
    lemma_words();
    let plain = state.counted().with_model(chunk, catalog).with_usage(chunk);
    match chat::first_choice(chunk) {
        None => {},
        Some(choice) => {
            let known = plain.with_finish(choice);
            match choice.get("delta"@) {
                None => {},
                Some(delta) => {
                    let start = Progress { state: known, out: Seq::empty() };
                    lemma_start(state, known);
                    lemma_reasoning(state, start, delta);
                    let thought = start.reasoning_of(delta);
                    lemma_content(state, thought, delta);
                    let said = thought.content_of(delta);
                    match delta.field("tool_calls"@).as_list() {
                        Some(calls) => lemma_calls(state, said, calls),
                        None => {},
                    }
                },
            }
        },
    }
}

/// Where thinking need not be told from the answer, a chunk adds to the answer
/// just the content that it holds, and to the thinking just its own, less the
/// tags; one without either adds nothing.
pub proof fn words_are_told(
    state: TranslatorV,
    chunk: JsonV,
    catalog: CatalogV,
    choices: Seq<JsonV>,
    delta: JsonV,
    s: Seq<char>,
)
    requires
        in_index_order(state.tools),
        state.parser is None,
        chunk.get("choices"@) == Some(JsonV::Arr(choices)),
        choices.len() > 0,
        choices[0].get("delta"@) == Some(delta),
    ensures
        ({
            let progress = state.consumed(chunk, catalog);
            &&& delta.get("content"@) == Some(JsonV::Str(s)) ==> answer_said(progress.out) == s
                && progress.state.content == state.content + s
            &&& delta.get("content"@) is None ==> answer_said(progress.out) == Seq::<char>::empty()
            &&& delta.get("reasoning_content"@) == Some(JsonV::Str(s)) ==> thinking_said(
                progress.out,
            ) == stream::without_tags(s, 4)
            &&& delta.get("reasoning_content"@) is None ==> thinking_said(progress.out) == Seq::<
                char,
            >::empty()
        }),
{
    lemma_words();
    let known = state.counted().with_model(chunk, catalog).with_usage(chunk).with_finish(choices[0]);
    let start = Progress { state: known, out: Seq::empty() };
    lemma_start(state, known);
    lemma_reasoning(state, start, delta);
    let thought = start.reasoning_of(delta);
    lemma_content(state, thought, delta);
    let said = thought.content_of(delta);
    match delta.field("tool_calls"@).as_list() {
        Some(calls) => lemma_calls(state, said, calls),
        None => {},
    }
    let progress = state.consumed(chunk, catalog);
    assert(answer_said(progress.out) == answer_said(said.out));
    assert(Seq::<char>::empty() + s =~= s);
    assert(Seq::<char>::empty() + Seq::<char>::empty() =~= Seq::<char>::empty());
    chat_laws::steps_carry_the_answer(state, chunk, catalog);
}

/// However many chunks come, every tool call ends with the name, the id and the
/// arguments that the steps told of it.
pub proof fn streamed_calls_are_the_whole_calls(
    state: TranslatorV,
    chunks: Seq<(JsonV, CatalogV)>,
)
    requires
        in_index_order(state.tools),
    ensures
        calls_in_step(state, after_chunks(state, chunks)),
    decreases chunks.len(),
{
    if chunks.len() == 0 {
        lemma_start(state, state);
    } else {
        streamed_calls_are_the_whole_calls(state, chunks.drop_last());
        let known = after_chunks(state, chunks.drop_last());
        let next = known.state.consumed(chunks.last().0, chunks.last().1);
        lemma_consumed(known.state, chunks.last().0, chunks.last().1);
        let all = after_chunks(state, chunks);
        assert forall|n: int|
            {
                let (old_call, new_call) = (call_in(state.tools, n), #[trigger] call_in(
                    all.state.tools,
                    n,
                ));
                &&& new_call.arguments == old_call.arguments + arguments_said(all.out, n)
                &&& new_call.name == name_said(old_call.name, all.out, n)
                &&& new_call.id == id_said(old_call.id, all.out, n)
            } by {
            lemma_said_joined(call_in(state.tools, n), known.out, next.out, n);
            assert(call_in(next.state.tools, n) == call_in(all.state.tools, n));
            let middle = call_in(known.state.tools, n);
            let first = call_in(state.tools, n);
            assert(first.arguments + arguments_said(known.out, n) + arguments_said(next.out, n)
                =~= first.arguments + (arguments_said(known.out, n) + arguments_said(
                next.out,
                n,
            )));
        }
    }
}

proof fn lemma_consumed(state: TranslatorV, chunk: JsonV, catalog: CatalogV)
    requires
        in_index_order(state.tools),
    ensures
        calls_in_step(state, state.consumed(chunk, catalog)),
{
    let plain = state.counted().with_model(chunk, catalog).with_usage(chunk);
    match chat::first_choice(chunk) {
        None => lemma_start(state, plain),
        Some(choice) => {
            let known = plain.with_finish(choice);
            lemma_start(state, known);
            match choice.get("delta"@) {
                None => {},
                Some(delta) => {
                    let start = Progress { state: known, out: Seq::empty() };
                    lemma_reasoning(state, start, delta);
                    let thought = start.reasoning_of(delta);
                    lemma_content(state, thought, delta);
                    let said = thought.content_of(delta);
                    match delta.field("tool_calls"@).as_list() {
                        Some(calls) => lemma_calls(state, said, calls),
                        None => {},
                    }
                },
            }
        },
    }
}

proof fn lemma_said_joined(known: ToolV, one: Seq<DeltaV>, two: Seq<DeltaV>, n: int)
    ensures
        arguments_said(one + two, n) == arguments_said(one, n) + arguments_said(two, n),
        name_said(known.name, one + two, n) == name_said(name_said(known.name, one, n), two, n),
        id_said(known.id, one + two, n) == id_said(id_said(known.id, one, n), two, n),
    decreases two.len(),
{
    let all = one + two;
    if two.len() == 0 {
        assert(all =~= one);
        assert(arguments_said(two, n) =~= Seq::empty());
        assert(arguments_said(one, n) + arguments_said(two, n) =~= arguments_said(one, n));
    } else {
        lemma_said_joined(known, one, two.drop_last(), n);
        assert(all.drop_last() =~= one + two.drop_last());
        assert(all.last() == two.last());
        assert(arguments_said(all, n) =~= arguments_said(one, n) + arguments_said(two, n));
    }
}

/// A finished tool call has the name, the id and the arguments that were
/// gathered; only what is missing is made up: an id by the place of the call,
/// and empty arguments.
pub proof fn gathered_calls_are_handed_out(state: TranslatorV, i: int)
    requires
        0 <= i < state.tools.len(),
    ensures
        ({
            let tool = state.tools[i];
            let calls = state.final_calls();
            &&& calls.len() == state.tools.len()
            &&& calls[i].get("type"@) == Some(JsonV::Str("function"@))
            &&& calls[i].at("function"@, "name"@) == Some(JsonV::Str(tool.name))
            &&& tool.id.len() > 0 ==> calls[i].get("id"@) == Some(JsonV::Str(tool.id))
            &&& tool.id.len() == 0 ==> calls[i].get("id"@) == Some(
                JsonV::Str("call_"@ + text::decimal_int(tool.index)),
            )
            &&& json::parsed_json(tool.arguments) is None && tool.arguments.len() > 0
                ==> calls[i].at("function"@, "arguments"@) == Some(JsonV::Str(tool.arguments))
            &&& json::parsed_json(tool.arguments) is None && tool.arguments.len() == 0
                ==> calls[i].at("function"@, "arguments"@) == Some(JsonV::Str("{}"@))
            &&& json::parsed_json(tool.arguments) matches Some(v) ==> calls[i].at(
                "function"@,
                "arguments"@,
            ) == Some(JsonV::Str(json::json_text(v)))
        }),
{
    lemma_words();
}

/// The whole answer holds what was said, thought and called, says why it ended
/// and what it took, and bears the id, the time and the model that it is
/// answered under.
pub proof fn the_answer_is_whole(state: TranslatorV, usage: JsonV, reason: Seq<char>)
    ensures
        ({
            let body = state.completion();
            &&& body.get("id"@) == Some(JsonV::Str(state.response_id))
            &&& body.get("object"@) == Some(JsonV::Str("chat.completion"@))
            &&& body.get("created"@) == Some(JsonV::Int(state.created))
            &&& state.model_reported is None ==> body.get("model"@) == Some(
                JsonV::Str(state.model_name),
            )
            &&& state.model_reported matches Some(name) ==> body.get("model"@) == Some(
                JsonV::Str(name),
            )
            &&& body.get("choices"@) matches Some(JsonV::Arr(choices))
            &&& choices.len() == 1
            &&& choices[0].get("index"@) == Some(JsonV::Int(0))
            &&& choices[0].at("message"@, "role"@) == Some(JsonV::Str("assistant"@))
            &&& state.content.len() > 0 ==> choices[0].at("message"@, "content"@) == Some(
                JsonV::Str(state.content),
            )
            &&& state.content.len() == 0 ==> choices[0].at("message"@, "content"@) == Some(
                JsonV::Null,
            )
            &&& state.reasoning.len() > 0 ==> choices[0].at("message"@, "reasoning_content"@)
                == Some(JsonV::Str(state.reasoning))
            &&& state.reasoning.len() == 0 ==> choices[0].at("message"@, "reasoning_content"@)
                is None
            &&& state.tools.len() > 0 ==> choices[0].at("message"@, "tool_calls"@) == Some(
                JsonV::Arr(state.final_calls()),
            )
            &&& state.tools.len() == 0 ==> choices[0].at("message"@, "tool_calls"@) is None
            &&& state.tools.len() > 0 ==> choices[0].get("finish_reason"@) == Some(
                JsonV::Str("tool_calls"@),
            )
            &&& state.tools.len() == 0 && state.finish_reason == Some(reason) ==> choices[0].get(
                "finish_reason"@,
            ) == Some(JsonV::Str(reason))
            &&& state.tools.len() == 0 && state.finish_reason is None ==> choices[0].get(
                "finish_reason"@,
            ) == Some(JsonV::Str("stop"@))
            &&& state.usage == Some(usage) ==> body.get("usage"@) == Some(usage)
            &&& state.usage is None ==> {
                &&& body.at("usage"@, "prompt_tokens"@) == Some(JsonV::Int(0))
                &&& body.at("usage"@, "completion_tokens"@) == Some(JsonV::Int(0))
                &&& body.at("usage"@, "total_tokens"@) == Some(JsonV::Int(0))
            }
        }),
{
    lemma_words();
    assert(state.final_calls().len() == state.tools.len());
}

/// The chunk that a step goes out as: it bears the id, the time and the model
/// that the answer is given under, and one choice with just what the step adds.
pub proof fn steps_go_out_as_they_are(state: TranslatorV, step: DeltaV, finish: Seq<char>)
    ensures
        ({
            let frame = state.chunk(chat::delta_value(step), None);
            &&& frame.get("id"@) == Some(JsonV::Str(state.response_id))
            &&& frame.get("object"@) == Some(JsonV::Str("chat.completion.chunk"@))
            &&& frame.get("created"@) == Some(JsonV::Int(state.created))
            &&& frame.get("model"@) == Some(JsonV::Str(state.model()))
            &&& frame.get("choices"@) matches Some(JsonV::Arr(choices))
            &&& choices.len() == 1
            &&& choices[0].get("index"@) == Some(JsonV::Int(0))
            &&& choices[0].get("finish_reason"@) == Some(JsonV::Null)
            &&& step matches DeltaV::Content(s) ==> choices[0].at("delta"@, "content"@) == Some(
                JsonV::Str(s),
            ) && choices[0].at("delta"@, "reasoning_content"@) is None
            &&& step matches DeltaV::Reasoning(s) ==> choices[0].at("delta"@, "reasoning_content"@)
                == Some(JsonV::Str(s)) && choices[0].at("delta"@, "content"@) is None
            &&& step matches DeltaV::ToolCall { index, id, name, arguments } ==> {
                &&& choices[0].at("delta"@, "tool_calls"@) matches Some(JsonV::Arr(calls))
                &&& calls.len() == 1
                &&& calls[0].get("index"@) == Some(JsonV::Int(index))
                &&& calls[0].get("type"@) == Some(JsonV::Str("function"@))
                &&& calls[0].text_at("id"@) == id && (id is None ==> calls[0].get("id"@) is None)
                &&& calls[0].field("function"@).text_at("name"@) == name
                &&& calls[0].field("function"@).text_at("arguments"@) == arguments
            }
        }),
        ({
            let frame = state.chunk(JsonV::object(), Some(finish));
            &&& frame.get("choices"@) matches Some(JsonV::Arr(choices))
            &&& choices.len() == 1
            &&& choices[0].get("finish_reason"@) == Some(JsonV::Str(finish))
        }),
        state.usage matches Some(usage) ==> state.usage_chunk().get("usage"@) == Some(usage)
            && state.usage_chunk().get("choices"@) == Some(JsonV::Arr(Seq::empty())),
{
    lemma_words();
}

/// A client that is streamed to gets every step of a chunk as a frame of its
/// own, in order, behind one frame that opens the answer if none was sent yet.
pub proof fn every_step_is_streamed(drive: DriveV, chunk: JsonV, catalog: CatalogV, i: int)
    requires
        0 <= i < drive.translator.consumed(chunk, catalog).out.len(),
    ensures
        ({
            let progress = drive.translator.consumed(chunk, catalog);
            let after = drive.emitted(chunk, catalog);
            let lead = drive.frames.len() + if progress.state.role_sent {
                0int
            } else {
                1
            };
            &&& after.frames.len() == lead + progress.out.len()
            &&& after.frames.take(drive.frames.len() as int) == drive.frames
            &&& after.frames[lead + i] == "data: "@ + json::json_text(
                after.translator.chunk(chat::delta_value(progress.out[i]), None),
            ) + "\n\n"@
            &&& after.translator.role_sent
        }),
{
    let after = drive.emitted(chunk, catalog);
    assert(after.frames.take(drive.frames.len() as int) =~= drive.frames);
}

/// A streamed answer ends as it should: with why it ended, with the tokens that
/// it took where they are known, and with the mark of the end, each once.
pub proof fn streams_are_closed(drive: DriveV)
    ensures
        ({
            let last = drive.translator.finished();
            let end = drive.closed();
            let n = end.frames.len() as int;
            &&& n == drive.frames.len() + last.out.len() + 2 + if last.state.usage is Some {
                1int
            } else {
                0
            }
            &&& end.frames[n - 1] == "data: [DONE]\n\n"@
            &&& last.state.usage is Some ==> end.frames[n - 2] == "data: "@ + json::json_text(
                last.state.usage_chunk(),
            ) + "\n\n"@
            &&& end.frames[(drive.frames.len() + last.out.len()) as int] == "data: "@ + json::json_text(
                last.state.chunk(JsonV::object(), Some(last.state.ending())),
            ) + "\n\n"@
            &&& end.frames.take(drive.frames.len() as int) == drive.frames
        }),
{
    let end = drive.closed();
    assert(end.frames.take(drive.frames.len() as int) =~= drive.frames);
}

/// An answer that fails on the way tells the client why, and ends.
pub proof fn failures_are_streamed(drive: DriveV, message: Seq<char>)
    ensures
        ({
            let end = drive.broken(message);
            let n = end.frames.len() as int;
            &&& n >= drive.frames.len() + 2
            &&& end.frames[n - 1] == "data: [DONE]\n\n"@
            &&& end.frames[n - 2] == "data: "@ + json::json_text(piping::error_value(message))
                + "\n\n"@
            &&& end.frames.take(drive.frames.len() as int) == drive.frames
            &&& piping::error_value(message).at("error"@, "message"@) == Some(JsonV::Str(message))
        }),
{
    lemma_words();
    reveal_strlit("proxy_error");
    let end = drive.broken(message);
    assert(end.frames.take(drive.frames.len() as int) =~= drive.frames);
}

/// Only a spent quota or too many requests count as a limit of the account, and
/// they are recorded with the status and the words of the upstream.
pub proof fn limits_are_recorded(status: int, kind: UpstreamKind, message: Seq<char>)
    ensures
        kind == UpstreamKind::Quota || kind == UpstreamKind::Rate ==> piping::limit_of(
            status,
            kind,
            message,
        ) == Some(LimitedV { status, message }),
        kind != UpstreamKind::Quota && kind != UpstreamKind::Rate ==> piping::limit_of(
            status,
            kind,
            message,
        ) is None,
{
}

/// What an envelope holds is read as it is: a value as a chunk, a text as the
/// value that it writes, the mark of the end as the end, and a status other than
/// success as an error with what the upstream wrote.
pub proof fn envelopes_are_opened(envelope: JsonV, body: JsonV, s: Seq<char>, status: int)
    requires
        envelope.get("body"@) == Some(body),
    ensures
        ({
            let event = stream::envelope_event(envelope);
            let good = envelope.get("statusCodeValue"@) is None || envelope.get(
                "statusCodeValue"@,
            ) == Some(JsonV::Int(200));
            &&& good && body is Obj ==> event == EventV::Chunk(body)
            &&& good && body == JsonV::Str("[DONE]"@) ==> event == EventV::Done
            &&& good && body == JsonV::Str(s) && s != "[DONE]"@ ==> match json::parsed_json(s) {
                Some(chunk) => event == EventV::Chunk(chunk),
                None => event == EventV::Skip,
            }
            &&& envelope.get("statusCodeValue"@) == Some(JsonV::Int(status)) && 0 <= status < 65536
                && status != 200 ==> {
                &&& event matches EventV::Error { status: told, raw, error }
                &&& told == status
                &&& body == JsonV::Str(s) ==> error == protocol::classified(status, s)
                &&& body == JsonV::Str(s) && s.len() <= 500 ==> raw == s
                &&& body == JsonV::Str(s) && s.len() > 500 ==> raw == s.take(500)
            }
        }),
{
}

/// A line with data is read as the envelope that it writes; blanks around it do
/// not matter, and a blank line says nothing.
pub proof fn lines_are_read(data: Seq<char>, envelope: JsonV)
    ensures
        text::trimmed(data) == "[DONE]"@ ==> stream::line_event(data) == EventV::Done,
        text::trimmed(data).len() == 0 ==> stream::line_event(data) == EventV::Skip,
        text::trimmed(data).len() > 0 && text::trimmed(data) != "[DONE]"@ && json::parsed_json(
            text::trimmed(data),
        ) == Some(envelope) ==> stream::line_event(data) == stream::envelope_event(envelope),
        stream::line_event(text::trimmed(data)) == stream::line_event(data),
{
    reveal_strlit("[DONE]");
    text::lemma_trimmed(data);
}

/// A chunk in a line reaches the answer, streamed or whole, unless it has ended.
pub proof fn chunks_reach_the_answer(
    drive: DriveV,
    data: Seq<Seq<char>>,
    line: Seq<char>,
    catalog: CatalogV,
    chunk: JsonV,
)
    requires
        drive.after_lines(data, catalog).ending is Open,
        stream::line_event(line) == EventV::Chunk(chunk),
    ensures
        ({
            let before = drive.after_lines(data, catalog);
            let after = drive.after_lines(data.push(line), catalog);
            &&& after.ending is Open
            &&& TranslatorV { role_sent: true, ..after.translator } == (TranslatorV {
                role_sent: true,
                ..before.translator.consumed(chunk, catalog).state
            })
            &&& after.frames.len() >= before.frames.len() + before.translator.consumed(
                chunk,
                catalog,
            ).out.len()
        }),
{
    assert(data.push(line).drop_last() =~= data);
}

} // verus!
