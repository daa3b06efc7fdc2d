//! What holds of the translation of an answer, whatever the upstream sends.
use super::chat::{DeltaV, Progress, ToolV, TranslatorV};
use super::models::CatalogV;
use super::piping::{DriveV, WholeV};
use super::stream::{PieceV, ThinkingV};
use super::thinking_laws;
use crate::json::JsonV;
use crate::providers::qoder::chat;
use crate::providers::qoder::stream;
use vstd::prelude::*;

verus! {

/// The answer that steps carry.
pub open spec fn answer_said(steps: Seq<DeltaV>) -> Seq<char>
    decreases steps.len(),
{
    if steps.len() == 0 {
        Seq::empty()
    } else {
        answer_said(steps.drop_last()) + match steps.last() {
            DeltaV::Content(s) => s,
            _ => Seq::empty(),
        }
    }
}

/// The thinking that steps carry.
pub open spec fn thinking_said(steps: Seq<DeltaV>) -> Seq<char>
    decreases steps.len(),
{
    if steps.len() == 0 {
        Seq::empty()
    } else {
        thinking_said(steps.drop_last()) + match steps.last() {
            DeltaV::Reasoning(s) => s,
            _ => Seq::empty(),
        }
    }
}

/// Whether what has been put together since `before` is what the steps carry.
pub open spec fn in_step(before: TranslatorV, progress: Progress) -> bool {
    &&& progress.state.content == before.content + answer_said(progress.out)
    &&& progress.state.reasoning == before.reasoning + thinking_said(progress.out)
}

proof fn lemma_step(before: TranslatorV, progress: Progress, step: DeltaV, next: Progress)
    requires
        in_step(before, progress),
        next.out == progress.out.push(step),
        next.state.content == progress.state.content + (match step {
            DeltaV::Content(s) => s,
            _ => Seq::empty(),
        }),
        next.state.reasoning == progress.state.reasoning + (match step {
            DeltaV::Reasoning(s) => s,
            _ => Seq::empty(),
        }),
    ensures
        in_step(before, next),
{
    assert(next.out.drop_last() =~= progress.out);
    assert(next.state.content =~= before.content + answer_said(next.out));
    assert(next.state.reasoning =~= before.reasoning + thinking_said(next.out));
}

proof fn lemma_pieces(before: TranslatorV, progress: Progress, pieces: Seq<PieceV>)
    requires
        in_step(before, progress),
    ensures
        in_step(before, progress.pieces(pieces)),
    decreases pieces.len(),
{
    if pieces.len() > 0 {
        lemma_pieces(before, progress, pieces.drop_last());
        let known = progress.pieces(pieces.drop_last());
        let piece = pieces.last();
        let next = progress.pieces(pieces);
        assert(known.state.content + Seq::<char>::empty() =~= known.state.content);
        assert(known.state.reasoning + Seq::<char>::empty() =~= known.state.reasoning);
        if piece.is_thinking {
            lemma_step(before, known, DeltaV::Reasoning(piece.text), next);
        } else {
            lemma_step(before, known, DeltaV::Content(piece.text), next);
        }
    }
}

proof fn lemma_calls(before: TranslatorV, progress: Progress, calls: Seq<JsonV>)
    requires
        in_step(before, progress),
    ensures
        in_step(before, progress.calls(calls)),
    decreases calls.len(),
{
    if calls.len() > 0 {
        lemma_calls(before, progress, calls.drop_last());
        let known = progress.calls(calls.drop_last());
        assert(known.state.content + Seq::<char>::empty() =~= known.state.content);
        assert(known.state.reasoning + Seq::<char>::empty() =~= known.state.reasoning);
        lemma_step(before, known, chat::fragment(calls.last()), progress.calls(calls));
    }
}

/// A stream and an answer at once tell the same: what is put together grows by
/// exactly what the steps carry.
pub proof fn steps_carry_the_answer(state: TranslatorV, chunk: JsonV, catalog: CatalogV)
    ensures
        in_step(state, state.consumed(chunk, catalog)),
{
    let known = state.counted().with_model(chunk, catalog).with_usage(chunk);
    assert(state.content + Seq::<char>::empty() =~= state.content);
    assert(state.reasoning + Seq::<char>::empty() =~= state.reasoning);
    if chat::first_choice(chunk) is Some {
        let choice = chat::first_choice(chunk).unwrap();
        let start = Progress { state: known.with_finish(choice), out: Seq::empty() };
        assert(in_step(state, start));
        if choice.get("delta"@) is Some {
            let delta = choice.get("delta"@).unwrap();
            let thought = start.reasoning_of(delta);
            assert(in_step(state, thought)) by {
                if delta.text_at("reasoning_content"@) is Some {
                    let s = stream::without_tags(
                        delta.text_at("reasoning_content"@).unwrap(),
                        4,
                    );
                    if s.len() > 0 {
                        lemma_step(state, start, DeltaV::Reasoning(s), thought);
                    }
                }
            }
            let said = thought.content_of(delta);
            assert(in_step(state, said)) by {
                if delta.text_at("content"@) is Some {
                    let s = delta.text_at("content"@).unwrap();
                    assert(thought.state.reasoning + Seq::<char>::empty()
                        =~= thought.state.reasoning);
                    if s.len() > 0 {
                        match thought.state.parser {
                            Some(parser) => {
                                let fed = parser.pushed(s);
                                let ready = Progress {
                                    state: TranslatorV {
                                        parser: Some(ThinkingV { out: Seq::empty(), ..fed }),
                                        ..thought.state
                                    },
                                    ..thought
                                };
                                lemma_pieces(state, ready, fed.out);
                            },
                            None => {
                                lemma_step(state, thought, DeltaV::Content(s), said);
                            },
                        }
                    }
                }
            }
            if delta.field("tool_calls"@).as_list() is Some {
                lemma_calls(state, said, delta.field("tool_calls"@).as_list().unwrap());
            }
        }
    }
}

/// The same holds of what comes out at the end.
pub proof fn the_end_carries_the_rest(state: TranslatorV)
    ensures
        in_step(state, state.finished()),
{
    assert(state.content + Seq::<char>::empty() =~= state.content);
    assert(state.reasoning + Seq::<char>::empty() =~= state.reasoning);
    match state.parser {
        None => {},
        Some(parser) => {
            let last = parser.ended();
            let ready = Progress {
                state: TranslatorV {
                    parser: Some(ThinkingV { out: Seq::empty(), ..last }),
                    ..state
                },
                out: Seq::empty(),
            };
            lemma_pieces(state, ready, last.out);
        },
    }
}

/// Whether no step carries an empty text.
pub open spec fn nothing_empty(steps: Seq<DeltaV>) -> bool {
    forall|i: int| 0 <= i < steps.len() ==> match #[trigger] steps[i] {
        DeltaV::Content(s) => s.len() > 0,
        DeltaV::Reasoning(s) => s.len() > 0,
        _ => true,
    }
}

/// Whether the parser, where there is one, holds no empty piece.
pub open spec fn holds_nothing_empty(state: TranslatorV) -> bool {
    state.parser matches Some(parser) ==> thinking_laws::none_empty(parser.out)
}

/// What an answer is after chunks, each read with the catalog of its time, and the
/// steps that all of them make.
pub open spec fn after_chunks(state: TranslatorV, chunks: Seq<(JsonV, CatalogV)>) -> Progress
    decreases chunks.len(),
{
    if chunks.len() == 0 {
        Progress { state, out: Seq::empty() }
    } else {
        let known = after_chunks(state, chunks.drop_last());
        let next = known.state.consumed(chunks.last().0, chunks.last().1);
        Progress { state: next.state, out: known.out + next.out }
    }
}

/// The last usage that chunks state, or what was known before.
pub open spec fn last_usage(before: Option<JsonV>, chunks: Seq<(JsonV, CatalogV)>) -> Option<JsonV>
    decreases chunks.len(),
{
    if chunks.len() == 0 {
        before
    } else {
        match chat::usage_in(chunks.last().0) {
            Some(usage) => Some(usage),
            None => last_usage(before, chunks.drop_last()),
        }
    }
}

proof fn lemma_said_joined(one: Seq<DeltaV>, two: Seq<DeltaV>)
    ensures
        answer_said(one + two) == answer_said(one) + answer_said(two),
        thinking_said(one + two) == thinking_said(one) + thinking_said(two),
    decreases two.len(),
{
    if two.len() == 0 {
        assert(one + two =~= one);
        assert(answer_said(one) + Seq::<char>::empty() =~= answer_said(one));
        assert(thinking_said(one) + Seq::<char>::empty() =~= thinking_said(one));
    } else {
        lemma_said_joined(one, two.drop_last());
        assert((one + two).drop_last() =~= one + two.drop_last());
        assert(answer_said(one + two) =~= answer_said(one) + answer_said(two));
        assert(thinking_said(one + two) =~= thinking_said(one) + thinking_said(two));
    }
}

/// Whether progress keeps the count and the usage, and carries nothing empty.
spec fn in_order(start: TranslatorV, progress: Progress) -> bool {
    &&& nothing_empty(progress.out)
    &&& progress.state.chunk_count == start.chunk_count
    &&& progress.state.usage == start.usage
    &&& holds_nothing_empty(progress.state)
}

proof fn lemma_pieces_in_order(start: TranslatorV, progress: Progress, pieces: Seq<PieceV>)
    requires
        in_order(start, progress),
        thinking_laws::none_empty(pieces),
    ensures
        in_order(start, progress.pieces(pieces)),
    decreases pieces.len(),
{
    if pieces.len() > 0 {
        assert(thinking_laws::none_empty(pieces.drop_last())) by {
            assert forall|i: int| 0 <= i < pieces.len() - 1 implies (
            #[trigger] pieces.drop_last()[i]).text.len() > 0 by {
                assert(pieces.drop_last()[i] == pieces[i]);
            }
        }
        lemma_pieces_in_order(start, progress, pieces.drop_last());
    }
}

proof fn lemma_calls_in_order(start: TranslatorV, progress: Progress, calls: Seq<JsonV>)
    requires
        in_order(start, progress),
    ensures
        in_order(start, progress.calls(calls)),
    decreases calls.len(),
{
    if calls.len() > 0 {
        lemma_calls_in_order(start, progress, calls.drop_last());
    }
}

/// One chunk is counted, states the usage or leaves it, and makes no empty step.
proof fn lemma_consumed_in_order(state: TranslatorV, chunk: JsonV, catalog: CatalogV)
    requires
        holds_nothing_empty(state),
    ensures
        in_order(state.counted().with_usage(chunk), state.consumed(chunk, catalog)),
{
    let base = state.counted().with_usage(chunk);
    let known = state.counted().with_model(chunk, catalog).with_usage(chunk);
    if chat::first_choice(chunk) is Some {
        let choice = chat::first_choice(chunk).unwrap();
        let start = Progress { state: known.with_finish(choice), out: Seq::empty() };
        assert(in_order(base, start));
        if choice.get("delta"@) is Some {
            let delta = choice.get("delta"@).unwrap();
            let thought = start.reasoning_of(delta);
            assert(in_order(base, thought));
            let said = thought.content_of(delta);
            assert(in_order(base, said)) by {
                if delta.text_at("content"@) is Some {
                    let s = delta.text_at("content"@).unwrap();
                    match thought.state.parser {
                        Some(parser) => {
                            if s.len() > 0 {
                                thinking_laws::pieces_are_not_empty(parser, s);
                                let fed = parser.pushed(s);
                                let ready = Progress {
                                    state: TranslatorV {
                                        parser: Some(ThinkingV { out: Seq::empty(), ..fed }),
                                        ..thought.state
                                    },
                                    ..thought
                                };
                                lemma_pieces_in_order(base, ready, fed.out);
                            }
                        },
                        None => {},
                    }
                }
            }
            if delta.field("tool_calls"@).as_list() is Some {
                lemma_calls_in_order(base, said, delta.field("tool_calls"@).as_list().unwrap());
            }
        }
    }
}

/// Over any run of chunks, what is put together grows by exactly what the steps
/// carry, no step carries an empty text, every chunk is counted as far as the
/// count reaches, and the usage is the last one stated.
pub proof fn runs_carry_the_answer(state: TranslatorV, chunks: Seq<(JsonV, CatalogV)>)
    requires
        holds_nothing_empty(state),
    ensures
        in_step(state, after_chunks(state, chunks)),
        nothing_empty(after_chunks(state, chunks).out),
        holds_nothing_empty(after_chunks(state, chunks).state),
        after_chunks(state, chunks).state.chunk_count == if state.chunk_count + chunks.len()
            <= usize::MAX {
            state.chunk_count + chunks.len()
        } else {
            usize::MAX as int
        },
        after_chunks(state, chunks).state.usage == last_usage(state.usage, chunks),
    decreases chunks.len(),
{
    let now = after_chunks(state, chunks);
    if chunks.len() == 0 {
        assert(state.content + Seq::<char>::empty() =~= state.content);
        assert(state.reasoning + Seq::<char>::empty() =~= state.reasoning);
    } else {
        runs_carry_the_answer(state, chunks.drop_last());
        let known = after_chunks(state, chunks.drop_last());
        let (chunk, catalog) = chunks.last();
        let next = known.state.consumed(chunk, catalog);
        steps_carry_the_answer(known.state, chunk, catalog);
        lemma_consumed_in_order(known.state, chunk, catalog);
        lemma_said_joined(known.out, next.out);
        assert(now.state.content =~= state.content + answer_said(now.out));
        assert(now.state.reasoning =~= state.reasoning + thinking_said(now.out));
        assert forall|i: int| 0 <= i < now.out.len() implies match #[trigger] now.out[i] {
            DeltaV::Content(s) => s.len() > 0,
            DeltaV::Reasoning(s) => s.len() > 0,
            _ => true,
        } by {
            if i < known.out.len() {
                assert(now.out[i] == known.out[i]);
            } else {
                assert(now.out[i] == next.out[i - known.out.len()]);
            }
        }
    }
}

proof fn lemma_pieces_keep(progress: Progress, pieces: Seq<PieceV>)
    ensures
        progress.pieces(pieces).state.parser == progress.state.parser,
    decreases pieces.len(),
{
    if pieces.len() > 0 {
        lemma_pieces_keep(progress, pieces.drop_last());
    }
}

/// Ending an answer twice is ending it once: the second time nothing comes out.
pub proof fn finishing_twice_is_finishing_once(state: TranslatorV)
    requires
        state.parser is Some ==> 0 <= state.parser.unwrap().kind < 4,
    ensures
        state.finished().state.finished() == (Progress {
            state: state.finished().state,
            out: Seq::empty(),
        }),
{
    match state.parser {
        None => {},
        Some(parser) => {
            thinking_laws::ending_twice_is_ending_once(parser);
            let last = parser.ended();
            let ready = Progress {
                state: TranslatorV {
                    parser: Some(ThinkingV { out: Seq::empty(), ..last }),
                    ..state
                },
                out: Seq::empty(),
            };
            lemma_pieces_keep(ready, last.out);
            let done = state.finished().state;
            assert(done.parser == Some(ThinkingV { out: Seq::empty(), ..last }));
            assert(done.finished().state =~= done);
        },
    }
}

/// Whether tool calls stand in the order of their index, each index once.
pub open spec fn in_index_order(tools: Seq<ToolV>) -> bool {
    forall|i: int, j: int|
        0 <= i < j < tools.len() ==> (#[trigger] tools[i]).index < (#[trigger] tools[j]).index
}

/// A fragment goes to the one call of its index, and the calls stay in order.
pub proof fn fragments_keep_the_order(tools: Seq<ToolV>, piece: DeltaV)
    requires
        in_index_order(tools),
        piece is ToolCall,
    ensures
        in_index_order(chat::with_fragment(tools, piece)),
        forall|i: int|
            0 <= i < chat::with_fragment(tools, piece).len() ==> (#[trigger] chat::with_fragment(
                tools,
                piece,
            )[i]).index == piece->ToolCall_index || exists|j: int|
                0 <= j < tools.len() && #[trigger] tools[j] == chat::with_fragment(tools, piece)[i],
    decreases tools.len(),
{
    let index = piece->ToolCall_index;
    let now = chat::with_fragment(tools, piece);
    if tools.len() == 0 || tools.last().index < index {
        assert forall|i: int| 0 <= i < now.len() implies (#[trigger] now[i]).index == index
            || exists|j: int| 0 <= j < tools.len() && #[trigger] tools[j] == now[i] by {
            if i < tools.len() {
                assert(tools[i] == now[i]);
            }
        }
    } else if tools.last().index == index {
        assert forall|i: int| 0 <= i < now.len() implies (#[trigger] now[i]).index == index
            || exists|j: int| 0 <= j < tools.len() && #[trigger] tools[j] == now[i] by {
            if i < tools.len() - 1 {
                assert(tools[i] == now[i]);
            }
        }
    } else {
        let front = tools.drop_last();
        fragments_keep_the_order(front, piece);
        let less = chat::with_fragment(front, piece);
        assert forall|i: int| 0 <= i < now.len() implies (#[trigger] now[i]).index == index
            || exists|j: int| 0 <= j < tools.len() && #[trigger] tools[j] == now[i] by {
            if i < less.len() {
                assert(now[i] == less[i]);
                if less[i].index != index {
                    let j = choose|j: int| 0 <= j < front.len() && #[trigger] front[j] == less[i];
                    assert(tools[j] == now[i]);
                }
            } else {
                assert(tools[tools.len() - 1] == now[i]);
            }
        }
        assert forall|i: int, j: int| 0 <= i < j < now.len() implies (#[trigger] now[i]).index < (
        #[trigger] now[j]).index by {
            if j == less.len() {
                assert(now[i] == less[i]);
                if less[i].index != index {
                    let k = choose|k: int| 0 <= k < front.len() && #[trigger] front[k] == less[i];
                    assert(tools[k].index < tools[tools.len() - 1].index);
                }
            } else {
                assert(now[i] == less[i] && now[j] == less[j]);
            }
        }
    }
}

/// The same answer, whether or not its role has been sent.
pub open spec fn but_for_role(state: TranslatorV) -> TranslatorV {
    TranslatorV { role_sent: false, ..state }
}

proof fn lemma_pieces_role(progress: Progress, pieces: Seq<PieceV>)
    ensures
        ({
            let plain = Progress { state: but_for_role(progress.state), ..progress };
            &&& plain.pieces(pieces).out == progress.pieces(pieces).out
            &&& plain.pieces(pieces).state == but_for_role(progress.pieces(pieces).state)
        }),
    decreases pieces.len(),
{
    if pieces.len() > 0 {
        lemma_pieces_role(progress, pieces.drop_last());
    }
}

proof fn lemma_calls_role(progress: Progress, calls: Seq<JsonV>)
    ensures
        ({
            let plain = Progress { state: but_for_role(progress.state), ..progress };
            &&& plain.calls(calls).out == progress.calls(calls).out
            &&& plain.calls(calls).state == but_for_role(progress.calls(calls).state)
        }),
    decreases calls.len(),
{
    if calls.len() > 0 {
        lemma_calls_role(progress, calls.drop_last());
    }
}

proof fn lemma_consumed_role(state: TranslatorV, chunk: JsonV, catalog: CatalogV)
    ensures
        but_for_role(state).consumed(chunk, catalog).state == but_for_role(
            state.consumed(chunk, catalog).state,
        ),
{
    if chat::first_choice(chunk) is Some {
        let choice = chat::first_choice(chunk).unwrap();
        if choice.get("delta"@) is Some {
            let delta = choice.get("delta"@).unwrap();
            let start = Progress {
                state: state.counted().with_model(chunk, catalog).with_usage(chunk).with_finish(
                    choice,
                ),
                out: Seq::empty(),
            };
            let thought = start.reasoning_of(delta);
            let plain = Progress { state: but_for_role(start.state), ..start };
            assert(plain.reasoning_of(delta) == (Progress {
                state: but_for_role(thought.state),
                ..thought
            }));
            let said = thought.content_of(delta);
            if delta.text_at("content"@) is Some && delta.text_at("content"@).unwrap().len() > 0 {
                match thought.state.parser {
                    Some(parser) => {
                        let fed = parser.pushed(delta.text_at("content"@).unwrap());
                        let ready = Progress {
                            state: TranslatorV {
                                parser: Some(ThinkingV { out: Seq::empty(), ..fed }),
                                ..thought.state
                            },
                            ..thought
                        };
                        lemma_pieces_role(ready, fed.out);
                    },
                    None => {},
                }
            }
            assert(plain.reasoning_of(delta).content_of(delta) == (Progress {
                state: but_for_role(said.state),
                ..said
            }));
            if delta.field("tool_calls"@).as_list() is Some {
                lemma_calls_role(said, delta.field("tool_calls"@).as_list().unwrap());
            }
        }
    }
}

/// A client that wants the answer at once gets what a client of the stream gets:
/// the same lines leave the same answer and the same ending behind.
pub proof fn stream_and_whole_agree(
    drive: DriveV,
    whole: WholeV,
    data: Seq<Seq<char>>,
    catalog: CatalogV,
)
    requires
        but_for_role(drive.translator) == but_for_role(whole.translator),
        drive.ending == whole.ending,
    ensures
        ({
            let streamed = drive.after_lines(data, catalog);
            let joined = whole.after_lines(data, catalog);
            &&& but_for_role(streamed.translator) == but_for_role(joined.translator)
            &&& streamed.ending == joined.ending
        }),
    decreases data.len(),
{
    if data.len() > 0 {
        stream_and_whole_agree(drive, whole, data.drop_last(), catalog);
        let streamed = drive.after_lines(data.drop_last(), catalog);
        let joined = whole.after_lines(data.drop_last(), catalog);
        let event = stream::line_event(data.last());
        if let stream::EventV::Chunk(chunk) = event {
            lemma_consumed_role(streamed.translator, chunk, catalog);
            lemma_consumed_role(joined.translator, chunk, catalog);
            assert(but_for_role(streamed.emitted(chunk, catalog).translator) == but_for_role(
                streamed.translator.consumed(chunk, catalog).state,
            ));
        }
    }
}

} // verus!
