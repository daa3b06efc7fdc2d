//! What holds of the thinking parser whatever it is fed.
use super::stream::{PieceV, ThinkingV, DRAIN_STEPS, LONGEST_TAG_START};
use crate::providers::qoder::stream;
use crate::text;
use vstd::prelude::*;

verus! {

/// Everything that pieces say, in order.
pub open spec fn said(pieces: Seq<PieceV>) -> Seq<char>
    decreases pieces.len(),
{
    if pieces.len() == 0 {
        Seq::empty()
    } else {
        said(pieces.drop_last()) + pieces.last().text
    }
}

/// Whether `short` is `long` with some of its characters left out.
pub open spec fn thinned(short: Seq<char>, long: Seq<char>) -> bool
    decreases long.len(),
{
    if short.len() == 0 {
        true
    } else if long.len() == 0 {
        false
    } else {
        ||| short[0] == long[0] && thinned(short.skip(1), long.skip(1))
        ||| thinned(short, long.skip(1))
    }
}

proof fn lemma_thinned_same(s: Seq<char>)
    ensures
        thinned(s, s),
    decreases s.len(),
{
    if s.len() > 0 {
        lemma_thinned_same(s.skip(1));
    }
}

proof fn lemma_thinned_chain(a: Seq<char>, b: Seq<char>, c: Seq<char>)
    requires
        thinned(a, b),
        thinned(b, c),
    ensures
        thinned(a, c),
    decreases c.len(), b.len(),
{
    if a.len() > 0 && b.len() > 0 && c.len() > 0 {
        if b[0] == c[0] && thinned(b.skip(1), c.skip(1)) {
            if a[0] == b[0] && thinned(a.skip(1), b.skip(1)) {
                lemma_thinned_chain(a.skip(1), b.skip(1), c.skip(1));
            } else {
                lemma_thinned_chain(a, b.skip(1), c.skip(1));
            }
        } else {
            lemma_thinned_chain(a, b, c.skip(1));
        }
    }
}

proof fn lemma_thinned_under(front: Seq<char>, short: Seq<char>, long: Seq<char>)
    requires
        thinned(short, long),
    ensures
        thinned(front + short, front + long),
    decreases front.len(),
{
    if front.len() == 0 {
        assert(front + short =~= short);
        assert(front + long =~= long);
    } else {
        lemma_thinned_under(front.skip(1), short, long);
        assert((front + short).skip(1) =~= front.skip(1) + short);
        assert((front + long).skip(1) =~= front.skip(1) + long);
    }
}

proof fn lemma_thinned_skip(s: Seq<char>, n: int)
    requires
        0 <= n <= s.len(),
    ensures
        thinned(s.skip(n), s),
    decreases n,
{
    if n == 0 {
        assert(s.skip(0) =~= s);
        lemma_thinned_same(s);
    } else {
        lemma_thinned_skip(s.skip(1), n - 1);
        assert(s.skip(1).skip(n - 1) =~= s.skip(n));
    }
}

proof fn lemma_break_is_skip(rest: Seq<char>)
    ensures
        exists|n: int| 0 <= n <= rest.len() && stream::after_break(rest) == #[trigger] rest.skip(n),
{
    reveal_strlit("\n\n");
    reveal_strlit("\r\n");
    reveal_strlit("\n");
    assert(rest.skip(0) =~= rest);
    assert(stream::after_break(rest) == rest.skip(0) || stream::after_break(rest) == rest.skip(1)
        || stream::after_break(rest) == rest.skip(2));
}

/// The pieces and the buffer of a state, one after the other.
pub open spec fn all_of(state: ThinkingV) -> Seq<char> {
    said(state.out) + state.buffer
}

/// Handing out the front of the buffer and dropping more of it thins the whole.
proof fn lemma_cut(state: ThinkingV, said_to: int, from: int, is_thinking: bool, next: ThinkingV)
    requires
        0 <= said_to <= from <= state.buffer.len(),
        next.out == state.emit(state.buffer.take(said_to), is_thinking).out,
        next.buffer == state.buffer.skip(from),
    ensures
        thinned(all_of(next), all_of(state)),
{
    let head = state.buffer.take(said_to);
    if head.len() > 0 {
        assert(next.out.drop_last() =~= state.out);
        assert(said(next.out) == said(state.out) + head);
    } else {
        assert(said(next.out) =~= said(state.out) + head);
    }
    let tail = state.buffer.skip(said_to);
    lemma_thinned_skip(tail, from - said_to);
    assert(tail.skip(from - said_to) =~= state.buffer.skip(from));
    lemma_thinned_under(said(state.out) + head, state.buffer.skip(from), tail);
    assert(said(state.out) + head + tail =~= all_of(state));
    assert(said(state.out) + head + state.buffer.skip(from) =~= all_of(next));
}

/// The earliest opening tag stands where it is said to, and none before it.
pub proof fn lemma_first_open(buffer: Seq<char>, kinds: int)
    requires
        0 <= kinds <= 4,
    ensures
        match stream::first_open(buffer, kinds) {
            Some(p) => 0 <= p.0 && 0 <= p.1 < kinds && text::stands_at(
                buffer,
                stream::open_tag(p.1),
                p.0,
            ) && forall|k: int, kind: int|
                0 <= k < p.0 && 0 <= kind < kinds ==> !#[trigger] text::stands_at(
                    buffer,
                    stream::open_tag(kind),
                    k,
                ),
            None => forall|k: int, kind: int|
                0 <= k && 0 <= kind < kinds ==> !#[trigger] text::stands_at(
                    buffer,
                    stream::open_tag(kind),
                    k,
                ),
        },
    decreases kinds,
{
    if kinds > 0 {
        lemma_first_open(buffer, kinds - 1);
        text::lemma_first_at(buffer, stream::open_tag(kinds - 1), 0);
    }
}

/// The earliest closing tag stands where it is said to, and none before it.
pub proof fn lemma_first_close(buffer: Seq<char>, kinds: int)
    requires
        0 <= kinds <= 4,
    ensures
        match stream::first_close(buffer, kinds) {
            Some(p) => 0 <= p.0 && 0 <= p.1 < kinds && text::stands_at(
                buffer,
                stream::close_tag(p.1),
                p.0,
            ) && forall|k: int, kind: int|
                0 <= k < p.0 && 0 <= kind < kinds ==> !#[trigger] text::stands_at(
                    buffer,
                    stream::close_tag(kind),
                    k,
                ),
            None => forall|k: int, kind: int|
                0 <= k && 0 <= kind < kinds ==> !#[trigger] text::stands_at(
                    buffer,
                    stream::close_tag(kind),
                    k,
                ),
        },
    decreases kinds,
{
    if kinds > 0 {
        lemma_first_close(buffer, kinds - 1);
        text::lemma_first_at(buffer, stream::close_tag(kinds - 1), 0);
    }
}

pub proof fn lemma_kept(buffer: Seq<char>, n: int)
    requires
        0 <= n,
    ensures
        0 <= stream::held_back(buffer, n) <= buffer.len(),
    decreases n,
{
    if n > 0 && !stream::may_start_tag(buffer, n) {
        lemma_kept(buffer, n - 1);
    }
}

proof fn lemma_step_thins(state: ThinkingV)
    requires
        0 <= state.kind < 4,
    ensures
        match state.next_tag() {
            Some(next) => thinned(all_of(next), all_of(state)) && 0 <= next.kind < 4
                && next.finished == state.finished,
            None => true,
        },
{
    let buffer = state.buffer;
    if state.next_tag() is Some {
        let next = state.next_tag()->0;
        if state.in_thinking {
            let tag = stream::close_tag(state.kind);
            text::lemma_first_at(buffer, tag, 0);
            let p = text::first_at(buffer, tag, 0)->0;
            let rest = buffer.skip(p + tag.len());
            lemma_break_is_skip(rest);
            let n = choose|n: int|
                0 <= n <= rest.len() && stream::after_break(rest) == #[trigger] rest.skip(n);
            assert(rest.skip(n) =~= buffer.skip(p + tag.len() + n));
            lemma_cut(state, p, p + tag.len() + n, true, next);
        } else {
            lemma_first_open(buffer, 4);
            lemma_first_close(buffer, 4);
            let open = stream::first_open(buffer, 4);
            let close = stream::first_close(buffer, 4);
            if open is Some && (close is None || open.unwrap().0 < close.unwrap().0) {
                lemma_cut(
                    state,
                    open.unwrap().0,
                    open.unwrap().0 + stream::open_tag(open.unwrap().1).len(),
                    false,
                    next,
                );
            } else {
                let p = close.unwrap().0;
                let tag = stream::close_tag(close.unwrap().1);
                let rest = buffer.skip(p + tag.len());
                lemma_break_is_skip(rest);
                let n = choose|n: int|
                    0 <= n <= rest.len() && stream::after_break(rest) == #[trigger] rest.skip(n);
                assert(rest.skip(n) =~= buffer.skip(p + tag.len() + n));
                lemma_cut(state, p, p + tag.len() + n, false, next);
            }
        }
    }
}

proof fn lemma_flush_thins(state: ThinkingV, is_final: bool)
    ensures
        thinned(all_of(state.flush(is_final)), all_of(state)),
{
    lemma_kept(state.buffer, LONGEST_TAG_START as int);
    let sure = if is_final {
        state.buffer.len() as int
    } else {
        state.buffer.len() - stream::kept(state.buffer)
    };
    lemma_cut(state, sure, sure, state.in_thinking, state.flush(is_final));
}

proof fn lemma_drained_thins(state: ThinkingV, is_final: bool, budget: int)
    requires
        0 <= state.kind < 4,
    ensures
        thinned(all_of(state.drained(is_final, budget)), all_of(state)),
        state.drained(is_final, budget).finished == state.finished,
    decreases budget,
{
    if state.buffer.len() == 0 || budget <= 0 {
        lemma_thinned_same(all_of(state));
    } else {
        match state.next_tag() {
            Some(next) => {
                lemma_step_thins(state);
                lemma_drained_thins(next, is_final, budget - 1);
                lemma_thinned_chain(
                    all_of(state.drained(is_final, budget)),
                    all_of(next),
                    all_of(state),
                );
            },
            None => {
                lemma_flush_thins(state, is_final);
            },
        }
    }
}

/// Nothing is invented and nothing changes places: what has been handed out,
/// followed by what is still held, is what came in with some characters left
/// out.
pub proof fn pushing_invents_nothing(state: ThinkingV, chunk: Seq<char>)
    requires
        0 <= state.kind < 4,
    ensures
        thinned(all_of(state.pushed(chunk)), all_of(state) + chunk),
{
    if chunk.len() == 0 {
        assert(all_of(state) + chunk =~= all_of(state));
        lemma_thinned_same(all_of(state));
    } else {
        let fed = ThinkingV { buffer: state.buffer + chunk, ..state };
        lemma_drained_thins(fed, false, DRAIN_STEPS as int);
        assert(all_of(fed) =~= all_of(state) + chunk);
    }
}

/// At the end nothing is held any more, and what has been handed out is still
/// what came in with some characters left out.
pub proof fn ending_invents_nothing(state: ThinkingV)
    requires
        0 <= state.kind < 4,
        !state.finished,
    ensures
        state.ended().buffer.len() == 0,
        thinned(said(state.ended().out), all_of(state)),
{
    let open = ThinkingV { finished: true, ..state };
    let last = open.drained(true, DRAIN_STEPS as int);
    lemma_drained_thins(open, true, DRAIN_STEPS as int);
    if last.buffer.len() > 0 {
        assert(state.ended().out.drop_last() =~= last.out);
        assert(said(state.ended().out) =~= all_of(last));
    } else {
        assert(said(state.ended().out) =~= all_of(last));
    }
}

/// Ending twice is ending once.
pub proof fn ending_twice_is_ending_once(state: ThinkingV)
    requires
        0 <= state.kind < 4,
    ensures
        state.ended().finished,
        state.ended().ended() == state.ended(),
{
    lemma_drained_thins(ThinkingV { finished: true, ..state }, true, DRAIN_STEPS as int);
}

/// Every tag begins with `<`.
proof fn lemma_tags_begin(kind: int)
    requires
        0 <= kind < 4,
    ensures
        stream::open_tag(kind).len() > 0,
        stream::close_tag(kind).len() > 0,
        stream::open_tag(kind)[0] == '<',
        stream::close_tag(kind)[0] == '<',
{
    reveal_strlit("<thinking>");
    reveal_strlit("</thinking>");
    reveal_strlit("<think>");
    reveal_strlit("</think>");
    reveal_strlit("<reasoning>");
    reveal_strlit("</reasoning>");
    reveal_strlit("<thought>");
    reveal_strlit("</thought>");
    assert(kind == 0 || kind == 1 || kind == 2 || kind == 3);
}

proof fn lemma_plain_has_no_tag(plain: Seq<char>, tag: Seq<char>)
    requires
        !plain.contains('<'),
        tag.len() > 0,
        tag[0] == '<',
    ensures
        text::first_at(plain, tag, 0) is None,
        forall|n: int| 0 < n ==> !#[trigger] stream::starts_tag(plain, tag, n),
{
    text::lemma_first_at(plain, tag, 0);
    if text::first_at(plain, tag, 0) is Some {
        let at = text::first_at(plain, tag, 0)->0;
        assert(plain.subrange(at, at + tag.len())[0] == '<');
        assert(plain[at] == '<');
    }
    assert forall|n: int| 0 < n implies !#[trigger] stream::starts_tag(plain, tag, n) by {
        if stream::starts_tag(plain, tag, n) {
            let at = plain.len() - n;
            assert(tag.take(n)[0] == '<');
            assert(plain.subrange(at, plain.len() as int)[0] == '<');
            assert(plain[at] == '<');
        }
    }
}

proof fn lemma_plain_holds_nothing(plain: Seq<char>, n: int)
    requires
        !plain.contains('<'),
        0 <= n,
    ensures
        stream::held_back(plain, n) == 0,
    decreases n,
{
    if n > 0 {
        if stream::may_start_tag(plain, n) {
            let kind = choose|kind: int|
                0 <= kind < 4 && #[trigger] stream::may_start_kind(plain, kind, n);
            lemma_tags_begin(kind);
            lemma_plain_has_no_tag(plain, stream::open_tag(kind));
            lemma_plain_has_no_tag(plain, stream::close_tag(kind));
        }
        lemma_plain_holds_nothing(plain, n - 1);
    }
}

/// Text in which no tag can begin passes at once and unchanged, as answer or as
/// thinking, whichever is going on.
pub proof fn plain_text_passes(state: ThinkingV, chunk: Seq<char>)
    requires
        0 <= state.kind < 4,
        chunk.len() > 0,
        !(state.buffer + chunk).contains('<'),
    ensures
        state.pushed(chunk).out == state.out.push(
            PieceV { text: state.buffer + chunk, is_thinking: state.in_thinking },
        ),
        state.pushed(chunk).buffer.len() == 0,
        state.pushed(chunk).in_thinking == state.in_thinking,
{
    let plain = state.buffer + chunk;
    let fed = ThinkingV { buffer: plain, ..state };
    assert forall|kind: int| 0 <= kind < 4 implies text::first_at(
        plain,
        #[trigger] stream::open_tag(kind),
        0,
    ) is None && text::first_at(plain, stream::close_tag(kind), 0) is None by {
        lemma_tags_begin(kind);
        lemma_plain_has_no_tag(plain, stream::open_tag(kind));
        lemma_plain_has_no_tag(plain, stream::close_tag(kind));
    }
    assert(stream::open_tag(state.kind).len() >= 0);
    lemma_first_open(plain, 4);
    lemma_first_close(plain, 4);
    if stream::first_open(plain, 4) is Some {
        let p = stream::first_open(plain, 4)->0;
        text::lemma_first_at(plain, stream::open_tag(p.1), 0);
    }
    if stream::first_close(plain, 4) is Some {
        let p = stream::first_close(plain, 4)->0;
        assert(stream::open_tag(p.1).len() >= 0);
        text::lemma_first_at(plain, stream::close_tag(p.1), 0);
    }
    lemma_plain_holds_nothing(plain, LONGEST_TAG_START as int);
    assert(plain.take(plain.len() as int) =~= plain);
    assert(fed.next_tag() is None);
}

/// Whether no piece is empty.
pub open spec fn none_empty(pieces: Seq<PieceV>) -> bool {
    forall|i: int| 0 <= i < pieces.len() ==> (#[trigger] pieces[i]).text.len() > 0
}

proof fn lemma_drained_none_empty(state: ThinkingV, is_final: bool, budget: int)
    requires
        none_empty(state.out),
    ensures
        none_empty(state.drained(is_final, budget).out),
    decreases budget,
{
    if state.buffer.len() > 0 && budget > 0 {
        match state.next_tag() {
            Some(next) => {
                lemma_drained_none_empty(next, is_final, budget - 1);
            },
            None => {},
        }
    }
}

/// No empty piece is handed out, neither of more text nor at the end.
pub proof fn pieces_are_not_empty(state: ThinkingV, chunk: Seq<char>)
    requires
        none_empty(state.out),
    ensures
        none_empty(state.pushed(chunk).out),
        none_empty(state.ended().out),
{
    lemma_drained_none_empty(
        ThinkingV { buffer: state.buffer + chunk, ..state },
        false,
        DRAIN_STEPS as int,
    );
    lemma_drained_none_empty(ThinkingV { finished: true, ..state }, true, DRAIN_STEPS as int);
}

/// Whether a text holds no tag.
pub open spec fn tagless(s: Seq<char>) -> bool {
    &&& forall|k: int, kind: int|
        0 <= kind < 4 ==> !#[trigger] text::stands_at(s, stream::open_tag(kind), k)
    &&& forall|k: int, kind: int|
        0 <= kind < 4 ==> !#[trigger] text::stands_at(s, stream::close_tag(kind), k)
}

/// Whether no piece of answer holds a tag.
pub open spec fn answers_tagless(pieces: Seq<PieceV>) -> bool {
    forall|i: int|
        0 <= i < pieces.len() && !(#[trigger] pieces[i]).is_thinking ==> tagless(pieces[i].text)
}

proof fn lemma_front_tagless(buffer: Seq<char>, to: int)
    requires
        0 <= to <= buffer.len(),
        forall|k: int, kind: int|
            0 <= k < to && 0 <= kind < 4 ==> !#[trigger] text::stands_at(
                buffer,
                stream::open_tag(kind),
                k,
            ),
        forall|k: int, kind: int|
            0 <= k < to && 0 <= kind < 4 ==> !#[trigger] text::stands_at(
                buffer,
                stream::close_tag(kind),
                k,
            ),
    ensures
        tagless(buffer.take(to)),
{
    let front = buffer.take(to);
    assert forall|k: int, kind: int| 0 <= kind < 4 implies !(#[trigger] text::stands_at(
        front,
        stream::open_tag(kind),
        k,
    )) by {
        lemma_tags_begin(kind);
        if text::stands_at(front, stream::open_tag(kind), k) {
            assert(front.subrange(k, k + stream::open_tag(kind).len()) =~= buffer.subrange(
                k,
                k + stream::open_tag(kind).len(),
            ));
            assert(text::stands_at(buffer, stream::open_tag(kind), k));
        }
    }
    assert forall|k: int, kind: int| 0 <= kind < 4 implies !(#[trigger] text::stands_at(
        front,
        stream::close_tag(kind),
        k,
    )) by {
        lemma_tags_begin(kind);
        if text::stands_at(front, stream::close_tag(kind), k) {
            assert(front.subrange(k, k + stream::close_tag(kind).len()) =~= buffer.subrange(
                k,
                k + stream::close_tag(kind).len(),
            ));
            assert(text::stands_at(buffer, stream::close_tag(kind), k));
        }
    }
}

proof fn lemma_emit_tagless(state: ThinkingV, piece: Seq<char>, is_thinking: bool)
    requires
        answers_tagless(state.out),
        is_thinking || tagless(piece),
    ensures
        answers_tagless(state.emit(piece, is_thinking).out),
{
    let out = state.emit(piece, is_thinking).out;
    assert forall|i: int| 0 <= i < out.len() && !(#[trigger] out[i]).is_thinking implies tagless(
        out[i].text,
    ) by {
        if i < state.out.len() {
            assert(out[i] == state.out[i]);
        }
    }
}

proof fn lemma_drained_tagless(state: ThinkingV, is_final: bool, budget: int)
    requires
        0 <= state.kind < 4,
        answers_tagless(state.out),
    ensures
        answers_tagless(state.drained(is_final, budget).out),
    decreases budget,
{
    if state.buffer.len() > 0 && budget > 0 {
        let buffer = state.buffer;
        lemma_step_thins(state);
        lemma_first_open(buffer, 4);
        lemma_first_close(buffer, 4);
        let open = stream::first_open(buffer, 4);
        let close = stream::first_close(buffer, 4);
        match state.next_tag() {
            Some(next) => {
                if state.in_thinking {
                    let p = text::first_at(buffer, stream::close_tag(state.kind), 0)->0;
                    lemma_emit_tagless(state, buffer.take(p), true);
                } else if open is Some && (close is None || open.unwrap().0 < close.unwrap().0) {
                    lemma_front_tagless(buffer, open.unwrap().0);
                    lemma_emit_tagless(state, buffer.take(open.unwrap().0), false);
                } else {
                    lemma_front_tagless(buffer, close.unwrap().0);
                    lemma_emit_tagless(state, buffer.take(close.unwrap().0), false);
                }
                lemma_drained_tagless(next, is_final, budget - 1);
            },
            None => {
                lemma_kept(buffer, LONGEST_TAG_START as int);
                let sure = if is_final {
                    buffer.len() as int
                } else {
                    buffer.len() - stream::kept(buffer)
                };
                if !state.in_thinking {
                    lemma_front_tagless(buffer, sure);
                }
                lemma_emit_tagless(state, buffer.take(sure), state.in_thinking);
            },
        }
    }
}

/// No tag leaks into the answer, however the stream is cut.
pub proof fn answers_stay_tagless(state: ThinkingV, chunk: Seq<char>)
    requires
        0 <= state.kind < 4,
        answers_tagless(state.out),
    ensures
        answers_tagless(state.pushed(chunk).out),
{
    if chunk.len() > 0 {
        lemma_drained_tagless(
            ThinkingV { buffer: state.buffer + chunk, ..state },
            false,
            DRAIN_STEPS as int,
        );
    }
}

/// No tag leaks into the answer at the end either, where the steps of one call
/// are enough to work off what is left.
pub proof fn answers_end_tagless(state: ThinkingV)
    requires
        0 <= state.kind < 4,
        answers_tagless(state.out),
        (ThinkingV { finished: true, ..state }).drained(true, DRAIN_STEPS as int).buffer.len() == 0,
    ensures
        answers_tagless(state.ended().out),
{
    lemma_drained_tagless(ThinkingV { finished: true, ..state }, true, DRAIN_STEPS as int);
}

} // verus!
