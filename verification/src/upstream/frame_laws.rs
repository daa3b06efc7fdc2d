//! What holds of the frames of a stream, over all of its chunks and its end.
use super::sse;
use super::sse::{CoalesceV, LineV, MetaV, OutV};
use crate::lines;
use vstd::prelude::*;
use vstd::string::*;

verus! {

/// A chunk of a stream and when it came.
pub ghost struct ChunkV {
    pub bytes: Seq<u8>,
    pub now_ms: int,
}

/// A stream between its chunks, and the frames that have gone out.
pub ghost struct StreamV {
    pub state: CoalesceV,
    pub held: Seq<u8>,
    pub frames: Seq<Seq<char>>,
}

/// What is known of a stream that has not begun.
pub open spec fn begun(requested: Option<Seq<char>>) -> CoalesceV {
    CoalesceV {
        acc: Seq::empty(),
        meta: MetaV { id: None, model: None, created: None },
        requested,
    }
}

/// A stream after chunks.
pub open spec fn after_chunks(requested: Option<Seq<char>>, chunks: Seq<ChunkV>) -> StreamV
    decreases chunks.len(),
{
    if chunks.len() == 0 {
        StreamV { state: begun(requested), held: Seq::empty(), frames: Seq::empty() }
    } else {
        let known = after_chunks(requested, chunks.drop_last());
        let bytes = known.held + chunks.last().bytes;
        let (state, more) = known.state.after_all(sse::lines_in(lines::lines(bytes)));
        StreamV {
            state,
            held: lines::rest(bytes),
            frames: known.frames + sse::frame_texts(more, chunks.last().now_ms),
        }
    }
}

/// All frames of a stream that ends after its chunks.
pub open spec fn all_frames(
    requested: Option<Seq<char>>,
    chunks: Seq<ChunkV>,
    end_ms: int,
) -> Seq<Seq<char>> {
    let last = after_chunks(requested, chunks);
    last.frames + sse::frame_texts(last.state.held(), end_ms)
}

/// The bytes of chunks.
pub open spec fn bytes_of(chunks: Seq<ChunkV>) -> Seq<u8>
    decreases chunks.len(),
{
    if chunks.len() == 0 {
        Seq::empty()
    } else {
        bytes_of(chunks.drop_last()) + chunks.last().bytes
    }
}

/// The lines of chunks.
pub open spec fn lines_of(chunks: Seq<ChunkV>) -> Seq<LineV> {
    sse::lines_in(lines::lines(bytes_of(chunks)))
}

/// What goes out of lines and the end behind them.
pub open spec fn all_out(requested: Option<Seq<char>>, lines: Seq<LineV>) -> Seq<OutV> {
    let (last, out) = begun(requested).after_all(lines);
    out + last.held()
}

/// Whether an upstream says of itself what a frame has to name.
pub open spec fn is_settled(meta: MetaV) -> bool {
    sse::if_true(meta.id) is Some && sse::if_true(meta.created) is Some
}

/// Whether every event of lines names itself and its time.
pub open spec fn all_named(lines: Seq<LineV>) -> bool {
    forall|i: int| 0 <= i < lines.len() ==> match #[trigger] lines[i] {
        LineV::Event(_, event) => sse::if_true(event.get("id"@)) is Some && sse::if_true(
            event.get("created"@),
        ) is Some,
        _ => true,
    }
}

/// Whether no frame takes anything from the time.
spec fn timeless(out: Seq<OutV>) -> bool {
    forall|i: int| 0 <= i < out.len() ==> match #[trigger] out[i] {
        OutV::Joined { meta, .. } => is_settled(meta),
        _ => true,
    }
}

/// Whether the thinking that is held has a name.
spec fn holds_named(state: CoalesceV) -> bool {
    state.acc.len() > 0 ==> is_settled(state.meta)
}

proof fn lemma_timeless(out: Seq<OutV>, one: int, two: int)
    requires
        timeless(out),
    ensures
        sse::frame_texts(out, one) == sse::frame_texts(out, two),
{
    assert forall|i: int| 0 <= i < out.len() implies #[trigger] sse::frame_text(out[i], one)
        == sse::frame_text(out[i], two) by {}
    assert(sse::frame_texts(out, one) =~= sse::frame_texts(out, two));
}

proof fn lemma_all_timeless(state: CoalesceV, lines: Seq<LineV>)
    requires
        holds_named(state),
        all_named(lines),
    ensures
        timeless(state.after_all(lines).1),
        holds_named(state.after_all(lines).0),
    decreases lines.len(),
{
    if lines.len() > 0 {
        let front = lines.drop_last();
        assert(all_named(front)) by {
            assert forall|i: int| 0 <= i < front.len() implies match #[trigger] front[i] {
                LineV::Event(_, event) => sse::if_true(event.get("id"@)) is Some && sse::if_true(
                    event.get("created"@),
                ) is Some,
                _ => true,
            } by {
                assert(front[i] == lines[i]);
            }
        }
        lemma_all_timeless(state, front);
        let (known, out) = state.after_all(front);
        let (next, more) = known.after(lines.last());
        assert(lines[lines.len() - 1] == lines.last());
        assert(timeless(more));
        let both = out + more;
        assert forall|i: int| 0 <= i < both.len() implies match #[trigger] both[i] {
            OutV::Joined { meta, .. } => is_settled(meta),
            _ => true,
        } by {
            if i < out.len() {
                assert(both[i] == out[i]);
            } else {
                assert(both[i] == more[i - out.len()]);
            }
        }
    }
}

/// Fewer lines are named where all are.
proof fn lemma_named_parts(first: Seq<LineV>, second: Seq<LineV>)
    requires
        all_named(first + second),
    ensures
        all_named(first),
        all_named(second),
{
    let both = first + second;
    assert forall|i: int| 0 <= i < first.len() implies first[i] == #[trigger] both[i] by {}
    assert forall|i: int| 0 <= i < second.len() implies second[i] == #[trigger] both[
    first.len() + i] by {}
    assert forall|i: int| 0 <= i < first.len() implies match #[trigger] first[i] {
        LineV::Event(_, event) => sse::if_true(event.get("id"@)) is Some && sse::if_true(
            event.get("created"@),
        ) is Some,
        _ => true,
    } by {
        assert(both[i] == first[i]);
    }
    assert forall|i: int| 0 <= i < second.len() implies match #[trigger] second[i] {
        LineV::Event(_, event) => sse::if_true(event.get("id"@)) is Some && sse::if_true(
            event.get("created"@),
        ) is Some,
        _ => true,
    } by {
        assert(both[first.len() + i] == second[i]);
    }
}

/// A stream after chunks is the stream after all of their lines at once.
proof fn lemma_chunks(requested: Option<Seq<char>>, chunks: Seq<ChunkV>, time: int)
    requires
        all_named(lines_of(chunks)),
    ensures
        ({
            let last = after_chunks(requested, chunks);
            let (state, out) = begun(requested).after_all(lines_of(chunks));
            &&& last.state == state
            &&& last.held == lines::rest(bytes_of(chunks))
            &&& last.frames == sse::frame_texts(out, time)
        }),
    decreases chunks.len(),
{
    let start = begun(requested);
    let last = after_chunks(requested, chunks);
    if chunks.len() == 0 {
        assert(lines_of(chunks) =~= Seq::empty());
        assert(last.frames =~= sse::frame_texts(Seq::empty(), time));
    } else {
        let front = chunks.drop_last();
        let chunk = chunks.last();
        let before = bytes_of(front);
        let held = lines::rest(before);
        lines::chunks_do_not_matter(before, chunk.bytes);
        let one = lines_of(front);
        let two = sse::lines_in(lines::lines(held + chunk.bytes));
        assert(lines_of(chunks) =~= one + two);
        lemma_named_parts(one, two);
        lemma_chunks(requested, front, time);
        sse::lemma_after_join(start, one, two);
        let (known, out) = start.after_all(one);
        let (state, more) = known.after_all(two);
        lemma_all_timeless(start, one);
        lemma_all_timeless(known, two);
        lemma_timeless(more, chunk.now_ms, time);
        assert(sse::frame_texts(out + more, time) =~= sse::frame_texts(out, time)
            + sse::frame_texts(more, time));
    }
}

/// The frames of a stream do not depend on how it was cut into chunks, nor on
/// when they came, where the upstream says of itself what a frame has to name:
/// they are those of all its lines at once.
pub proof fn frames_depend_on_the_bytes_alone(
    requested: Option<Seq<char>>,
    chunks: Seq<ChunkV>,
    end_ms: int,
    time: int,
)
    requires
        all_named(lines_of(chunks)),
    ensures
        all_frames(requested, chunks, end_ms) == sse::frame_texts(
            all_out(requested, lines_of(chunks)),
            time,
        ),
{
    lemma_chunks(requested, chunks, time);
    let start = begun(requested);
    let (state, out) = start.after_all(lines_of(chunks));
    lemma_all_timeless(start, lines_of(chunks));
    assert(timeless(state.held()));
    lemma_timeless(state.held(), end_ms, time);
    assert(sse::frame_texts(out + state.held(), time) =~= sse::frame_texts(out, time)
        + sse::frame_texts(state.held(), time));
}

/// The frames that lines make which hold anything but thinking, each line as it
/// came.
pub open spec fn line_frames(lines: Seq<LineV>) -> Seq<Seq<char>>
    decreases lines.len(),
{
    if lines.len() == 0 {
        Seq::empty()
    } else {
        let known = line_frames(lines.drop_last());
        match lines.last() {
            LineV::Blank => known,
            LineV::Other(content) => known.push(content + "\n\n"@),
            LineV::Done => known.push("data: [DONE]\n\n"@),
            LineV::Event(content, event) => if sse::pure_thinking(event) is Some {
                known
            } else {
                known.push(content + "\n\n"@)
            },
        }
    }
}

proof fn lemma_line_frames(lines: Seq<LineV>, time: int)
    ensures
        sse::frame_texts(sse::others_in(lines, None), time) == line_frames(lines),
    decreases lines.len(),
{
    if lines.len() == 0 {
        assert(sse::frame_texts(sse::others_in(lines, None), time) =~= Seq::empty());
    } else {
        lemma_line_frames(lines.drop_last(), time);
        let known = sse::others_in(lines.drop_last(), None);
        match sse::other_of(lines.last(), None) {
            Some(other) => {
                assert(sse::frame_texts(known.push(other), time) =~= sse::frame_texts(
                    known,
                    time,
                ).push(sse::frame_text(other, time)));
            },
            None => {},
        }
    }
}

/// Over all chunks and the end of a stream, nothing is lost or changed, in
/// whatever chunks it came: the thinking that the frames write down, joined, is the
/// thinking of the lines, and every other line goes out once, in order, as it came.
pub proof fn frames_keep_everything(chunks: Seq<ChunkV>, end_ms: int)
    requires
        all_named(lines_of(chunks)),
    ensures
        ({
            let out = all_out(None, lines_of(chunks));
            &&& all_frames(None, chunks, end_ms) == sse::frame_texts(out, end_ms)
            &&& sse::thinking_out(out) == sse::thinking_in(lines_of(chunks))
            &&& sse::frame_texts(sse::others_out(out), end_ms) == line_frames(lines_of(chunks))
        }),
{
    frames_depend_on_the_bytes_alone(None, chunks, end_ms, end_ms);
    let all = lines_of(chunks);
    let start = begun(None);
    sse::joining_keeps_everything(start, all);
    let (state, out) = start.after_all(all);
    let held = state.held();
    sse::lemma_projections_join(out, held);
    reveal_with_fuel(sse::thinking_out, 2);
    reveal_with_fuel(sse::others_out, 2);
    if state.acc.len() > 0 {
        assert(held.drop_last() =~= Seq::empty());
    }
    assert(sse::thinking_out(held) =~= state.acc);
    assert(sse::others_out(held) =~= Seq::empty());
    assert(start.acc + sse::thinking_in(all) =~= sse::thinking_in(all));
    assert(sse::others_out(out) + Seq::<OutV>::empty() =~= sse::others_out(out));
    lemma_line_frames(all, end_ms);
}

} // verus!
