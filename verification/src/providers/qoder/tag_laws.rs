//! Where a stream is cut does not matter to the thinking parser.
use super::stream;
use super::stream::{PieceV, ThinkingV, DRAIN_STEPS, LONGEST_TAG_START};
use super::thinking_laws;
use crate::text;
use vstd::prelude::*;

verus! {

/// A text, each character marked as thinking or as answer.
pub open spec fn marked(s: Seq<char>, is_thinking: bool) -> Seq<(char, bool)> {
    s.map_values(|c: char| (c, is_thinking))
}

/// Everything that pieces say, in order, each character marked as thinking or as
/// answer.
pub open spec fn told(pieces: Seq<PieceV>) -> Seq<(char, bool)>
    decreases pieces.len(),
{
    if pieces.len() == 0 {
        Seq::empty()
    } else {
        told(pieces.drop_last()) + marked(pieces.last().text, pieces.last().is_thinking)
    }
}

/// A state with more text to work off.
pub open spec fn with_more(state: ThinkingV, more: Seq<char>) -> ThinkingV {
    ThinkingV { buffer: state.buffer + more, ..state }
}

/// All tags: the opening ones, then the closing ones.
spec fn tag(code: int) -> Seq<char> {
    if code < 4 {
        stream::open_tag(code)
    } else {
        stream::close_tag(code - 4)
    }
}

/// A place where two tags differ.
spec fn differing(one: int, two: int) -> int {
    if (one < 4) != (two < 4) {
        1
    } else {
        let shift: int = if one < 4 {
            0
        } else {
            1
        };
        let a = one % 4;
        let b = two % 4;
        shift + if a == 2 || b == 2 {
            1int
        } else if a == 3 || b == 3 {
            3
        } else {
            6
        }
    }
}

proof fn lemma_tag_form(code: int)
    requires
        0 <= code < 8,
    ensures
        0 < tag(code).len() <= LONGEST_TAG_START + 1,
        tag(code)[0] == '<',
        forall|i: int| 0 < i < tag(code).len() ==> #[trigger] tag(code)[i] != '<',
{
    reveal_strlit("<thinking>");
    reveal_strlit("</thinking>");
    reveal_strlit("<think>");
    reveal_strlit("</think>");
    reveal_strlit("<reasoning>");
    reveal_strlit("</reasoning>");
    reveal_strlit("<thought>");
    reveal_strlit("</thought>");
    assert(code == 0 || code == 1 || code == 2 || code == 3 || code == 4 || code == 5 || code == 6
        || code == 7);
}

proof fn lemma_tags_differ(one: int, two: int)
    requires
        0 <= one < 8,
        0 <= two < 8,
        one != two,
    ensures
        0 <= differing(one, two) < tag(one).len(),
        differing(one, two) < tag(two).len(),
        tag(one)[differing(one, two)] != tag(two)[differing(one, two)],
{
    reveal_strlit("<thinking>");
    reveal_strlit("</thinking>");
    reveal_strlit("<think>");
    reveal_strlit("</think>");
    reveal_strlit("<reasoning>");
    reveal_strlit("</reasoning>");
    reveal_strlit("<thought>");
    reveal_strlit("</thought>");
    assert(one == 0 || one == 1 || one == 2 || one == 3 || one == 4 || one == 5 || one == 6 || one
        == 7);
    assert(two == 0 || two == 1 || two == 2 || two == 3 || two == 4 || two == 5 || two == 6 || two
        == 7);
}

/// What stands in a text stands there whatever follows.
proof fn lemma_stands_longer(s: Seq<char>, more: Seq<char>, part: Seq<char>, at: int)
    requires
        at + part.len() <= s.len(),
    ensures
        text::stands_at(s + more, part, at) == text::stands_at(s, part, at),
{
    if 0 <= at {
        assert((s + more).subrange(at, at + part.len()) =~= s.subrange(at, at + part.len()));
    }
}

/// A tag that begins no later than another one ends with it, whatever follows.
proof fn lemma_no_tag_before(s: Seq<char>, more: Seq<char>, one: int, at: int, two: int, other: int)
    requires
        0 <= one < 8,
        0 <= two < 8,
        text::stands_at(s, tag(one), at),
        text::stands_at(s + more, tag(two), other),
        other <= at,
    ensures
        text::stands_at(s, tag(two), other),
        other == at ==> one == two,
{
    lemma_tag_form(one);
    lemma_tag_form(two);
    let all = s + more;
    lemma_stands_longer(s, more, tag(one), at);
    if other < at && other + tag(two).len() > s.len() {
        assert(all.subrange(at, at + tag(one).len())[0] == all[at]);
        assert(all.subrange(other, other + tag(two).len())[at - other] == all[at]);
        assert(tag(two)[at - other] == '<');
    }
    if other == at && one != two {
        lemma_tags_differ(one, two);
        let i = differing(one, two);
        assert(all.subrange(at, at + tag(one).len())[i] == all[at + i]);
        assert(all.subrange(at, at + tag(two).len())[i] == all[at + i]);
    }
    lemma_stands_longer(s, more, tag(two), other);
}

/// The tag that comes next: where it stands and which it is.
spec fn is_next(state: ThinkingV, at: int, code: int) -> bool {
    &&& 0 <= code < 8
    &&& text::stands_at(state.buffer, tag(code), at)
    &&& counts(state, code)
    &&& forall|k: int, other: int|
        #![trigger text::stands_at(state.buffer, tag(other), k)]
        0 <= k < at && 0 <= other < 8 && counts(state, other) ==> !text::stands_at(
            state.buffer,
            tag(other),
            k,
        )
}

/// Whether a tag means anything now: while thinking only the one that ends it.
spec fn counts(state: ThinkingV, code: int) -> bool {
    state.in_thinking ==> code == state.kind + 4
}

/// The state after a tag.
spec fn after_tag(state: ThinkingV, at: int, code: int) -> ThinkingV {
    let rest = state.buffer.skip(at + tag(code).len());
    ThinkingV {
        buffer: if code < 4 {
            rest
        } else {
            stream::after_break(rest)
        },
        in_thinking: code < 4,
        kind: if code < 4 {
            code
        } else {
            state.kind
        },
        ..state.emit(state.buffer.take(at), state.in_thinking)
    }
}

/// What the parser takes for the next tag is the next tag.
proof fn lemma_next_is(state: ThinkingV)
    requires
        0 <= state.kind < 4,
    ensures
        match state.next_tag() {
            Some(next) => exists|at: int, code: int| #[trigger]
                is_next(state, at, code) && next == after_tag(state, at, code),
            None => forall|k: int, code: int|
                0 <= k && 0 <= code < 8 && counts(state, code) ==> !#[trigger] text::stands_at(
                    state.buffer,
                    tag(code),
                    k,
                ),
        },
{
    let buffer = state.buffer;
    if state.in_thinking {
        let close = stream::close_tag(state.kind);
        text::lemma_first_at(buffer, close, 0);
        assert(tag(state.kind + 4) == close);
        match text::first_at(buffer, close, 0) {
            Some(p) => {
                assert(is_next(state, p, state.kind + 4));
                assert(state.next_tag()->0 =~= after_tag(state, p, state.kind + 4));
            },
            None => {},
        }
    } else {
        thinking_laws::lemma_first_open(buffer, 4);
        thinking_laws::lemma_first_close(buffer, 4);
        let open = stream::first_open(buffer, 4);
        let close = stream::first_close(buffer, 4);
        assert forall|k: int, code: int| 0 <= code < 8 implies #[trigger] text::stands_at(
            buffer,
            tag(code),
            k,
        ) == (if code < 4 {
            text::stands_at(buffer, stream::open_tag(code), k)
        } else {
            text::stands_at(buffer, stream::close_tag(code - 4), k)
        }) by {}
        match state.next_tag() {
            Some(next) => {
                if open is Some && (close is None || open.unwrap().0 < close.unwrap().0) {
                    assert(tag(open.unwrap().1) == stream::open_tag(open.unwrap().1));
                    assert(is_next(state, open.unwrap().0, open.unwrap().1));
                    assert(next =~= after_tag(state, open.unwrap().0, open.unwrap().1));
                } else {
                    let code = close.unwrap().1 + 4;
                    assert(tag(code) == stream::close_tag(close.unwrap().1));
                    if open is Some && open.unwrap().0 == close.unwrap().0 {
                        assert(text::stands_at(buffer, tag(open.unwrap().1), open.unwrap().0));
                    }
                    assert(is_next(state, close.unwrap().0, code));
                    assert(next =~= after_tag(state, close.unwrap().0, code));
                }
            },
            None => {},
        }
    }
}

/// There is one next tag.
proof fn lemma_next_is_one(state: ThinkingV, at: int, code: int, p: int, other: int)
    requires
        is_next(state, at, code),
        is_next(state, p, other),
    ensures
        at == p,
        code == other,
{
    lemma_tag_form(code);
    lemma_tag_form(other);
    if at == p && code != other {
        lemma_tags_differ(code, other);
        let i = differing(code, other);
        assert(state.buffer.subrange(at, at + tag(code).len())[i] == state.buffer[at + i]);
        assert(state.buffer.subrange(at, at + tag(other).len())[i] == state.buffer[at + i]);
    }
}

/// A next tag is what the parser takes for it.
proof fn lemma_is_next(state: ThinkingV, at: int, code: int)
    requires
        0 <= state.kind < 4,
        is_next(state, at, code),
    ensures
        state.next_tag() == Some(after_tag(state, at, code)),
        after_tag(state, at, code).buffer.len() < state.buffer.len(),
        0 <= after_tag(state, at, code).kind < 4,
{
    lemma_next_is(state);
    lemma_tag_form(code);
    reveal_strlit("\n\n");
    reveal_strlit("\r\n");
    reveal_strlit("\n");
    let (p, other) = choose|p: int, other: int| #[trigger]
        is_next(state, p, other) && state.next_tag()->0 == after_tag(state, p, other);
    lemma_next_is_one(state, at, code, p, other);
}

/// Everything that a state comes to say if nothing follows.
spec fn whole(state: ThinkingV) -> Seq<(char, bool)>
    decreases state.buffer.len(),
{
    match state.next_tag() {
        Some(next) => if next.buffer.len() < state.buffer.len() {
            whole(next)
        } else {
            Seq::empty()
        },
        None => told(state.out) + marked(state.buffer, state.in_thinking),
    }
}

proof fn lemma_told_emit(state: ThinkingV, said: Seq<char>, is_thinking: bool)
    ensures
        told(state.emit(said, is_thinking).out) == told(state.out) + marked(said, is_thinking),
{
    let out = state.emit(said, is_thinking).out;
    if said.len() == 0 {
        assert(told(state.out) + marked(said, is_thinking) =~= told(state.out));
    } else {
        assert(out.drop_last() =~= state.out);
    }
}

/// What a state comes to say depends on what it has said, not on how it was cut.
proof fn lemma_whole_same(one: ThinkingV, two: ThinkingV)
    requires
        0 <= one.kind < 4,
        told(one.out) == told(two.out),
        one.buffer == two.buffer,
        one.in_thinking == two.in_thinking,
        one.kind == two.kind,
    ensures
        whole(one) == whole(two),
    decreases one.buffer.len(),
{
    lemma_next_is(one);
    lemma_next_is(two);
    if one.next_tag() is Some {
        let (at, code) = choose|at: int, code: int| #[trigger]
            is_next(one, at, code) && one.next_tag()->0 == after_tag(one, at, code);
        assert(is_next(two, at, code)) by {
            assert forall|k: int, other: int|
                #![trigger text::stands_at(two.buffer, tag(other), k)]
                0 <= k < at && 0 <= other < 8 && counts(two, other) implies !text::stands_at(
                two.buffer,
                tag(other),
                k,
            ) by {
                assert(counts(one, other));
            }
        }
        lemma_is_next(one, at, code);
        lemma_is_next(two, at, code);
        lemma_told_emit(one, one.buffer.take(at), one.in_thinking);
        lemma_told_emit(two, two.buffer.take(at), two.in_thinking);
        lemma_whole_same(after_tag(one, at, code), after_tag(two, at, code));
    } else if two.next_tag() is Some {
        let (at, code) = choose|at: int, code: int| #[trigger]
            is_next(two, at, code) && two.next_tag()->0 == after_tag(two, at, code);
        assert(counts(one, code));
    }
}

proof fn lemma_next_shrinks(state: ThinkingV)
    requires
        0 <= state.kind < 4,
        state.next_tag() is Some,
    ensures
        state.next_tag()->0.buffer.len() < state.buffer.len(),
        0 <= state.next_tag()->0.kind < 4,
        whole(state) == whole(state.next_tag()->0),
{
    lemma_next_is(state);
    let (at, code) = choose|at: int, code: int| #[trigger]
        is_next(state, at, code) && state.next_tag()->0 == after_tag(state, at, code);
    lemma_is_next(state, at, code);
}

/// Nothing more to work off says nothing more.
proof fn lemma_whole_empty(state: ThinkingV)
    requires
        0 <= state.kind < 4,
        state.buffer.len() == 0,
    ensures
        whole(state) == told(state.out),
{
    if state.next_tag() is Some {
        lemma_next_shrinks(state);
    }
    assert(told(state.out) + marked(state.buffer, state.in_thinking) =~= told(state.out));
}

/// Working off the end of a text does not change what it comes to.
proof fn lemma_last_drain(state: ThinkingV, budget: int)
    requires
        0 <= state.kind < 4,
    ensures
        whole(state.drained(true, budget)) == whole(state),
        0 <= state.drained(true, budget).kind < 4,
    decreases budget,
{
    if state.buffer.len() > 0 && budget > 0 {
        match state.next_tag() {
            Some(next) => {
                lemma_next_shrinks(state);
                lemma_last_drain(next, budget - 1);
            },
            None => {
                let last = state.flush(true);
                let all = state.buffer.take(state.buffer.len() as int);
                assert(all =~= state.buffer);
                lemma_told_emit(state, all, state.in_thinking);
                lemma_whole_empty(last);
            },
        }
    }
}

/// Whether the steps of one call are enough to work off what is left at the end.
pub open spec fn settles(state: ThinkingV) -> bool {
    (ThinkingV { finished: true, ..state }).drained(true, DRAIN_STEPS as int).buffer.len() == 0
}

/// At the end a parser has said what its state comes to.
proof fn lemma_ended(state: ThinkingV)
    requires
        0 <= state.kind < 4,
        !state.finished,
        settles(state),
    ensures
        told(state.ended().out) == whole(state),
{
    let closed = ThinkingV { finished: true, ..state };
    let last = closed.drained(true, DRAIN_STEPS as int);
    lemma_last_drain(closed, DRAIN_STEPS as int);
    lemma_whole_empty(last);
    lemma_whole_same(closed, state);
    assert(last.emit(last.buffer, last.in_thinking) == last);
}

/// What follows the closing tag that comes next; nothing where an opening tag
/// comes next, or none.
pub open spec fn behind_close(state: ThinkingV) -> Option<Seq<char>> {
    if state.in_thinking {
        match text::first_at(state.buffer, stream::close_tag(state.kind), 0) {
            Some(p) => Some(state.buffer.skip(p + stream::close_tag(state.kind).len())),
            None => None,
        }
    } else {
        match (stream::first_open(state.buffer, 4), stream::first_close(state.buffer, 4)) {
            (Some(open), Some(close)) => if open.0 < close.0 {
                None
            } else {
                Some(state.buffer.skip(close.0 + stream::close_tag(close.1).len()))
            },
            (None, Some(close)) => Some(
                state.buffer.skip(close.0 + stream::close_tag(close.1).len()),
            ),
            _ => None,
        }
    }
}

/// Whether no closing tag that is worked off loses the line break behind it to
/// the text that follows.
pub open spec fn keeps_breaks(state: ThinkingV, budget: int, more: Seq<char>) -> bool
    decreases budget,
{
    if state.buffer.len() == 0 || budget <= 0 {
        true
    } else {
        match state.next_tag() {
            Some(next) => {
                &&& behind_close(state) matches Some(rest) ==> stream::after_break(rest + more)
                    == stream::after_break(rest) + more
                &&& keeps_breaks(next, budget - 1, more)
            },
            None => true,
        }
    }
}

/// A tag is worked off in the same way whatever follows.
proof fn lemma_step_with_more(state: ThinkingV, more: Seq<char>)
    requires
        0 <= state.kind < 4,
        state.next_tag() is Some,
        behind_close(state) matches Some(rest) ==> stream::after_break(rest + more)
            == stream::after_break(rest) + more,
    ensures
        with_more(state, more).next_tag() == Some(with_more(state.next_tag()->0, more)),
{
    lemma_next_is(state);
    let (at, code) = choose|at: int, code: int| #[trigger]
        is_next(state, at, code) && state.next_tag()->0 == after_tag(state, at, code);
    let longer = with_more(state, more);
    lemma_tag_form(code);
    lemma_stands_longer(state.buffer, more, tag(code), at);
    assert(is_next(longer, at, code)) by {
        assert forall|k: int, other: int|
            #![trigger text::stands_at(longer.buffer, tag(other), k)]
            0 <= k < at && 0 <= other < 8 && counts(longer, other) implies !text::stands_at(
            longer.buffer,
            tag(other),
            k,
        ) by {
            if text::stands_at(longer.buffer, tag(other), k) {
                lemma_no_tag_before(state.buffer, more, code, at, other, k);
                assert(counts(state, other));
            }
        }
    }
    lemma_is_next(longer, at, code);
    let n = at + tag(code).len();
    let rest = state.buffer.skip(n);
    assert(longer.buffer.skip(n) =~= rest + more);
    assert(longer.buffer.take(at) =~= state.buffer.take(at));
    if code >= 4 {
        assert(behind_close(state) == Some(rest)) by {
            lemma_behind(state, at, code);
        }
    }
    assert(after_tag(longer, at, code) =~= with_more(after_tag(state, at, code), more));
}

/// What stands behind the next tag, where it closes.
proof fn lemma_behind(state: ThinkingV, at: int, code: int)
    requires
        0 <= state.kind < 4,
        is_next(state, at, code),
        code >= 4,
    ensures
        behind_close(state) == Some(state.buffer.skip(at + tag(code).len())),
{
    let buffer = state.buffer;
    lemma_tag_form(code);
    if state.in_thinking {
        text::lemma_first_at(buffer, stream::close_tag(state.kind), 0);
        let p = text::first_at(buffer, stream::close_tag(state.kind), 0)->0;
        assert(text::stands_at(buffer, tag(code), p));
    } else {
        thinking_laws::lemma_first_open(buffer, 4);
        thinking_laws::lemma_first_close(buffer, 4);
        let open = stream::first_open(buffer, 4);
        let close = stream::first_close(buffer, 4);
        assert(text::stands_at(buffer, stream::close_tag(code - 4), at));
        assert(close is Some);
        assert(text::stands_at(buffer, tag(close.unwrap().1 + 4), close.unwrap().0));
        if open is Some {
            assert(text::stands_at(buffer, tag(open.unwrap().1), open.unwrap().0));
        }
        assert(close.unwrap().0 == at);
        assert(is_next(state, close.unwrap().0, close.unwrap().1 + 4));
        lemma_next_is_one(state, at, code, close.unwrap().0, close.unwrap().1 + 4);
    }
}

/// All that may begin a tag is kept.
proof fn lemma_held(buffer: Seq<char>, n: int, limit: int)
    requires
        0 < n <= limit,
        stream::may_start_tag(buffer, n),
    ensures
        n <= stream::held_back(buffer, limit),
    decreases limit,
{
    if n < limit && !stream::may_start_tag(buffer, limit) {
        lemma_held(buffer, n, limit - 1);
    }
}

/// Where no tag stands in a text, none begins in the part of it that is sure,
/// whatever follows.
proof fn lemma_sure_part(buffer: Seq<char>, more: Seq<char>, code: int, at: int)
    requires
        0 <= code < 8,
        text::stands_at(buffer + more, tag(code), at),
        forall|k: int| 0 <= k ==> !text::stands_at(buffer, tag(code), k),
    ensures
        at >= buffer.len() - stream::kept(buffer),
{
    lemma_tag_form(code);
    let all = buffer + more;
    thinking_laws::lemma_kept(buffer, LONGEST_TAG_START as int);
    if at < buffer.len() {
        if at + tag(code).len() <= buffer.len() {
            lemma_stands_longer(buffer, more, tag(code), at);
            assert(false);
        }
        let n = buffer.len() - at;
        assert(n < tag(code).len());
        let start = tag(code).take(n);
        assert(buffer.subrange(at, buffer.len() as int) =~= start) by {
            assert forall|i: int| 0 <= i < n implies buffer.subrange(
                at,
                buffer.len() as int,
            )[i] == start[i] by {
                assert(all.subrange(at, at + tag(code).len())[i] == all[at + i]);
            }
        }
        assert(start.is_suffix_of(buffer));
        assert(stream::starts_tag(buffer, tag(code), n));
        let kind = if code < 4 {
            code
        } else {
            code - 4
        };
        assert(stream::may_start_kind(buffer, kind, n));
        assert(stream::may_start_tag(buffer, n));
        lemma_held(buffer, n, LONGEST_TAG_START as int);
    }
}

/// Handing out early what is sure does not change what a text comes to.
proof fn lemma_flush_with_more(state: ThinkingV, more: Seq<char>)
    requires
        0 <= state.kind < 4,
        state.next_tag() is None,
    ensures
        whole(with_more(state.flush(false), more)) == whole(with_more(state, more)),
{
    let buffer = state.buffer;
    let longer = with_more(state, more);
    let sure = buffer.len() - stream::kept(buffer);
    thinking_laws::lemma_kept(buffer, LONGEST_TAG_START as int);
    lemma_next_is(state);
    lemma_next_is(longer);
    let early = with_more(state.flush(false), more);
    assert(early.buffer =~= longer.buffer.skip(sure));
    lemma_told_emit(state, buffer.take(sure), state.in_thinking);
    lemma_next_is(early);
    // A tag stands in the shorter text where it stands in the longer one.
    assert forall|k: int, code: int|
        0 <= k && 0 <= code < 8 && counts(state, code) implies #[trigger] text::stands_at(
        early.buffer,
        tag(code),
        k,
    ) == text::stands_at(longer.buffer, tag(code), k + sure) by {
        lemma_tag_form(code);
        if k + sure + tag(code).len() <= longer.buffer.len() {
            assert(early.buffer.subrange(k, k + tag(code).len()) =~= longer.buffer.subrange(
                k + sure,
                k + sure + tag(code).len(),
            ));
        }
    }
    match longer.next_tag() {
        Some(next) => {
            let (at, code) = choose|at: int, code: int| #[trigger]
                is_next(longer, at, code) && next == after_tag(longer, at, code);
            assert(counts(state, code));
            assert forall|k: int| 0 <= k implies !text::stands_at(buffer, tag(code), k) by {}
            lemma_sure_part(buffer, more, code, at);
            assert(text::stands_at(early.buffer, tag(code), at - sure));
            assert(is_next(early, at - sure, code)) by {
                assert forall|k: int, other: int|
                    #![trigger text::stands_at(early.buffer, tag(other), k)]
                    0 <= k < at - sure && 0 <= other < 8 && counts(early, other) implies
                    !text::stands_at(early.buffer, tag(other), k) by {
                    assert(counts(longer, other));
                    assert(!text::stands_at(longer.buffer, tag(other), k + sure));
                }
            }
            lemma_is_next(longer, at, code);
            lemma_is_next(early, at - sure, code);
            let one = after_tag(early, at - sure, code);
            let n = at + tag(code).len();
            assert(early.buffer.skip(n - sure) =~= longer.buffer.skip(n));
            lemma_told_emit(early, early.buffer.take(at - sure), early.in_thinking);
            lemma_told_emit(longer, longer.buffer.take(at), longer.in_thinking);
            assert(marked(longer.buffer.take(at), state.in_thinking) =~= marked(
                buffer.take(sure),
                state.in_thinking,
            ) + marked(early.buffer.take(at - sure), state.in_thinking));
            assert(told(one.out) =~= told(next.out));
            lemma_whole_same(one, next);
        },
        None => {
            if early.next_tag() is Some {
                let (at, code) = choose|at: int, code: int| #[trigger]
                    is_next(early, at, code) && early.next_tag()->0 == after_tag(early, at, code);
                assert(counts(longer, code));
                assert(text::stands_at(longer.buffer, tag(code), at + sure));
            }
            assert(marked(longer.buffer, state.in_thinking) =~= marked(
                buffer.take(sure),
                state.in_thinking,
            ) + marked(early.buffer, state.in_thinking));
            assert(whole(early) =~= whole(longer));
        },
    }
}

/// Working off a text early does not change what it comes to with the rest.
proof fn lemma_drain_with_more(state: ThinkingV, budget: int, more: Seq<char>)
    requires
        0 <= state.kind < 4,
        keeps_breaks(state, budget, more),
    ensures
        whole(with_more(state.drained(false, budget), more)) == whole(with_more(state, more)),
        0 <= state.drained(false, budget).kind < 4,
        state.drained(false, budget).finished == state.finished,
    decreases budget,
{
    if state.buffer.len() > 0 && budget > 0 {
        match state.next_tag() {
            Some(next) => {
                lemma_next_shrinks(state);
                lemma_step_with_more(state, more);
                lemma_next_shrinks(with_more(state, more));
                lemma_drain_with_more(next, budget - 1, more);
                lemma_next_is(state);
            },
            None => {
                lemma_flush_with_more(state, more);
            },
        }
    }
}

/// Where nothing follows, nothing is lost to it.
proof fn lemma_nothing_breaks(state: ThinkingV, budget: int)
    ensures
        keeps_breaks(state, budget, Seq::empty()),
    decreases budget,
{
    if state.buffer.len() > 0 && budget > 0 {
        match state.next_tag() {
            Some(next) => {
                match behind_close(state) {
                    Some(rest) => {
                        assert(rest + Seq::<char>::empty() =~= rest);
                        assert(stream::after_break(rest) + Seq::<char>::empty()
                            =~= stream::after_break(rest));
                    },
                    None => {},
                }
                lemma_nothing_breaks(next, budget - 1);
            },
            None => {},
        }
    }
}

/// Feeding a text does not change what it comes to.
proof fn lemma_pushed(state: ThinkingV, chunk: Seq<char>)
    requires
        0 <= state.kind < 4,
    ensures
        whole(state.pushed(chunk)) == whole(with_more(state, chunk)),
        0 <= state.pushed(chunk).kind < 4,
        state.pushed(chunk).finished == state.finished,
{
    let nothing = Seq::<char>::empty();
    let fed = with_more(state, chunk);
    if chunk.len() == 0 {
        assert(fed =~= state);
    } else {
        lemma_nothing_breaks(fed, DRAIN_STEPS as int);
        lemma_drain_with_more(fed, DRAIN_STEPS as int, nothing);
        assert(with_more(fed, nothing) =~= fed);
        assert(with_more(state.pushed(chunk), nothing) =~= state.pushed(chunk));
    }
}

/// Where a text is cut does not matter: fed in two chunks or in one, it comes to
/// the same answer and the same thinking, in the same order. The cut must not part
/// a closing tag from the line break behind it, and the steps of one call must be
/// enough for what is left at the end.
pub proof fn tag_chunks_do_not_matter(state: ThinkingV, first: Seq<char>, second: Seq<char>)
    requires
        0 <= state.kind < 4,
        !state.finished,
        first.len() > 0 ==> keeps_breaks(with_more(state, first), DRAIN_STEPS as int, second),
        settles(state.pushed(first).pushed(second)),
        settles(state.pushed(first + second)),
    ensures
        told(state.pushed(first).pushed(second).ended().out) == told(
            state.pushed(first + second).ended().out,
        ),
{
    let half = state.pushed(first);
    lemma_pushed(state, first);
    lemma_pushed(half, second);
    lemma_pushed(state, first + second);
    assert(with_more(with_more(state, first), second) =~= with_more(state, first + second));
    if first.len() > 0 {
        lemma_drain_with_more(with_more(state, first), DRAIN_STEPS as int, second);
    } else {
        assert(with_more(state, first) =~= state);
    }
    lemma_ended(half.pushed(second));
    lemma_ended(state.pushed(first + second));
}

/// Whether a tag stands at the beginning of a text.
pub open spec fn begins_with_tag(s: Seq<char>) -> bool {
    exists|kind: int|
        0 <= kind < 4 && (text::stands_at(s, #[trigger] stream::open_tag(kind), 0)
            || text::stands_at(s, stream::close_tag(kind), 0))
}

/// How many tags a text holds.
pub open spec fn tags_in(s: Seq<char>) -> nat
    decreases s.len(),
{
    if s.len() == 0 {
        0
    } else {
        tags_in(s.skip(1)) + if begins_with_tag(s) {
            1nat
        } else {
            0
        }
    }
}

/// Whether a text holds no line break.
pub open spec fn no_breaks(s: Seq<char>) -> bool {
    !s.contains('\n') && !s.contains('\r')
}

/// Chunks, one after the other.
pub open spec fn joined(chunks: Seq<Seq<char>>) -> Seq<char>
    decreases chunks.len(),
{
    if chunks.len() == 0 {
        Seq::empty()
    } else {
        joined(chunks.drop_last()) + chunks.last()
    }
}

/// The state after chunks.
pub open spec fn fed(state: ThinkingV, chunks: Seq<Seq<char>>) -> ThinkingV
    decreases chunks.len(),
{
    if chunks.len() == 0 {
        state
    } else {
        fed(state, chunks.drop_last()).pushed(chunks.last())
    }
}

/// The state of a parser that has been fed nothing.
pub open spec fn fresh() -> ThinkingV {
    ThinkingV {
        out: Seq::empty(),
        buffer: Seq::empty(),
        in_thinking: false,
        kind: 0,
        finished: false,
    }
}

/// What pieces say of thinking, or of the answer.
pub open spec fn spoken(pieces: Seq<PieceV>, thinking: bool) -> Seq<char>
    decreases pieces.len(),
{
    if pieces.len() == 0 {
        Seq::empty()
    } else {
        spoken(pieces.drop_last(), thinking) + if pieces.last().is_thinking == thinking {
            pieces.last().text
        } else {
            Seq::empty()
        }
    }
}

/// The characters of one mark.
spec fn with_mark(marks: Seq<(char, bool)>, thinking: bool) -> Seq<char>
    decreases marks.len(),
{
    if marks.len() == 0 {
        Seq::empty()
    } else {
        with_mark(marks.drop_last(), thinking) + if marks.last().1 == thinking {
            seq![marks.last().0]
        } else {
            Seq::empty()
        }
    }
}

proof fn lemma_mark_more(marks: Seq<(char, bool)>, s: Seq<char>, is_thinking: bool, thinking: bool)
    ensures
        with_mark(marks + marked(s, is_thinking), thinking) == with_mark(marks, thinking) + (
        if is_thinking == thinking {
            s
        } else {
            Seq::empty()
        }),
    decreases s.len(),
{
    let all = marks + marked(s, is_thinking);
    if s.len() == 0 {
        assert(all =~= marks);
    } else {
        lemma_mark_more(marks, s.drop_last(), is_thinking, thinking);
        assert(all.drop_last() =~= marks + marked(s.drop_last(), is_thinking));
        assert(s.drop_last() + seq![s.last()] =~= s);
    }
    assert(with_mark(all, thinking) =~= with_mark(marks, thinking) + (if is_thinking == thinking {
        s
    } else {
        Seq::empty()
    }));
}

proof fn lemma_spoken(pieces: Seq<PieceV>, thinking: bool)
    ensures
        spoken(pieces, thinking) == with_mark(told(pieces), thinking),
    decreases pieces.len(),
{
    if pieces.len() > 0 {
        lemma_spoken(pieces.drop_last(), thinking);
        lemma_mark_more(
            told(pieces.drop_last()),
            pieces.last().text,
            pieces.last().is_thinking,
            thinking,
        );
    }
}

/// A later part of a text holds no more tags, and fewer where one is left behind.
proof fn lemma_fewer_tags(s: Seq<char>, n: int, code: int, at: int)
    requires
        0 <= n <= s.len(),
        0 <= code < 8,
    ensures
        tags_in(s.skip(n)) <= tags_in(s),
        0 <= at < n && text::stands_at(s, tag(code), at) ==> tags_in(s.skip(n)) < tags_in(s),
    decreases n,
{
    if n == 0 {
        assert(s.skip(0) =~= s);
    } else {
        let rest = s.skip(1);
        lemma_fewer_tags(rest, n - 1, code, at - 1);
        assert(rest.skip(n - 1) =~= s.skip(n));
        if 0 <= at < n && text::stands_at(s, tag(code), at) {
            lemma_tag_form(code);
            if at == 0 {
                if code < 4 {
                    assert(text::stands_at(s, stream::open_tag(code), 0));
                } else {
                    let kind = code - 4;
                    assert(stream::open_tag(kind) == tag(kind));
                    assert(text::stands_at(s, stream::close_tag(kind), 0));
                }
                assert(begins_with_tag(s));
            } else {
                assert(rest.subrange(at - 1, at - 1 + tag(code).len()) =~= s.subrange(
                    at,
                    at + tag(code).len(),
                ));
                assert(text::stands_at(rest, tag(code), at - 1));
            }
        }
    }
}

/// In a text without tags no tag stands anywhere.
proof fn lemma_no_tags(s: Seq<char>, code: int, at: int)
    requires
        tags_in(s) == 0,
        0 <= code < 8,
        0 <= at,
    ensures
        !text::stands_at(s, tag(code), at),
{
    lemma_tag_form(code);
    if text::stands_at(s, tag(code), at) {
        lemma_fewer_tags(s, at + 1, code, at);
    }
}

/// Whether one text is the end of another.
spec fn ends(short: Seq<char>, long: Seq<char>) -> bool {
    short.len() <= long.len() && short == long.skip(long.len() - short.len())
}

proof fn lemma_ends_more(one: Seq<char>, two: Seq<char>, more: Seq<char>)
    requires
        ends(one, two),
    ensures
        ends(one + more, two + more),
{
    assert(one + more =~= (two + more).skip((two + more).len() - (one + more).len()));
}

proof fn lemma_ends_chain(one: Seq<char>, two: Seq<char>, three: Seq<char>)
    requires
        ends(one, two),
        ends(two, three),
    ensures
        ends(one, three),
{
    assert(one =~= three.skip(three.len() - one.len()));
}

/// The buffer after a tag is the end of the buffer before it, and holds fewer
/// tags.
proof fn lemma_next_ends(state: ThinkingV)
    requires
        0 <= state.kind < 4,
        state.next_tag() is Some,
    ensures
        ends(state.next_tag()->0.buffer, state.buffer),
        tags_in(state.next_tag()->0.buffer) < tags_in(state.buffer),
{
    let buffer = state.buffer;
    lemma_next_is(state);
    let (at, code) = choose|at: int, code: int| #[trigger]
        is_next(state, at, code) && state.next_tag()->0 == after_tag(state, at, code);
    lemma_tag_form(code);
    let rest = buffer.skip(at + tag(code).len());
    reveal_strlit("\n\n");
    reveal_strlit("\r\n");
    reveal_strlit("\n");
    let next = after_tag(state, at, code).buffer;
    let n = buffer.len() - next.len();
    assert(next =~= buffer.skip(n));
    lemma_fewer_tags(buffer, n, code, at);
}

/// What is left after working a text off is its end.
proof fn lemma_drained_ends(state: ThinkingV, is_final: bool, budget: int)
    requires
        0 <= state.kind < 4,
    ensures
        ends(state.drained(is_final, budget).buffer, state.buffer),
        0 <= state.drained(is_final, budget).kind < 4,
        state.drained(is_final, budget).finished == state.finished,
    decreases budget,
{
    assert(state.buffer.skip(0) =~= state.buffer);
    if state.buffer.len() > 0 && budget > 0 {
        match state.next_tag() {
            Some(next) => {
                lemma_next_ends(state);
                lemma_next_shrinks(state);
                lemma_next_is(state);
                lemma_drained_ends(next, is_final, budget - 1);
                lemma_ends_chain(
                    state.drained(is_final, budget).buffer,
                    next.buffer,
                    state.buffer,
                );
            },
            None => {
                thinking_laws::lemma_kept(state.buffer, LONGEST_TAG_START as int);
            },
        }
    }
}

/// Where there are more steps than tags, everything is worked off at the end.
proof fn lemma_steps_suffice(state: ThinkingV, budget: int)
    requires
        0 <= state.kind < 4,
        tags_in(state.buffer) < budget,
    ensures
        state.drained(true, budget).buffer.len() == 0,
    decreases budget,
{
    if state.buffer.len() > 0 {
        match state.next_tag() {
            Some(next) => {
                lemma_next_ends(state);
                lemma_next_shrinks(state);
                lemma_steps_suffice(next, budget - 1);
            },
            None => {},
        }
    }
}

/// Whether cutting a text can part no closing tag from a line break behind it.
spec fn safe(s: Seq<char>) -> bool {
    no_breaks(s) || tags_in(s) == 0
}

proof fn lemma_safe_end(short: Seq<char>, long: Seq<char>)
    requires
        ends(short, long),
        safe(long),
    ensures
        safe(short),
{
    let n = long.len() - short.len();
    lemma_fewer_tags(long, n, 0, 0);
    if no_breaks(long) {
        lemma_no_breaks_end(short, long);
    }
}

proof fn lemma_no_breaks_end(short: Seq<char>, long: Seq<char>)
    requires
        ends(short, long),
        no_breaks(long),
    ensures
        no_breaks(short),
{
    let n = long.len() - short.len();
    assert forall|i: int| 0 <= i < short.len() implies short[i] == #[trigger] long[n + i] by {}
    if short.contains('\n') {
        let i = choose|i: int| 0 <= i < short.len() && short[i] == '\n';
        assert(long[n + i] == '\n');
    }
    if short.contains('\r') {
        let i = choose|i: int| 0 <= i < short.len() && short[i] == '\r';
        assert(long[n + i] == '\r');
    }
}

/// Nothing is stripped of a text without line breaks.
proof fn lemma_no_break_stays(s: Seq<char>)
    requires
        no_breaks(s),
    ensures
        stream::after_break(s) == s,
{
    reveal_strlit("\n\n");
    reveal_strlit("\r\n");
    reveal_strlit("\n");
    if s.len() > 0 {
        assert(s.contains(s[0]));
        assert(s.subrange(0, 1)[0] == s[0]);
        if s.len() > 1 {
            assert(s.subrange(0, 2)[0] == s[0]);
        }
    }
}

/// In a safe text no line break is lost.
proof fn lemma_safe_keeps(state: ThinkingV, budget: int, more: Seq<char>)
    requires
        0 <= state.kind < 4,
        safe(state.buffer + more),
    ensures
        keeps_breaks(state, budget, more),
    decreases budget,
{
    if state.buffer.len() > 0 && budget > 0 && state.next_tag() is Some {
        let next = state.next_tag()->0;
        lemma_next_is(state);
        let (at, code) = choose|at: int, code: int| #[trigger]
            is_next(state, at, code) && next == after_tag(state, at, code);
        lemma_tag_form(code);
        lemma_stands_longer(state.buffer, more, tag(code), at);
        if tags_in(state.buffer + more) == 0 {
            lemma_no_tags(state.buffer + more, code, at);
        }
        if code >= 4 {
            lemma_behind(state, at, code);
            let rest = state.buffer.skip(at + tag(code).len());
            let all = state.buffer + more;
            assert(ends(rest + more, all)) by {
                assert(rest + more =~= all.skip(at + tag(code).len()));
            }
            lemma_no_breaks_end(rest + more, all);
            assert(no_breaks(rest)) by {
                assert forall|i: int| 0 <= i < rest.len() implies rest[i] == #[trigger] (rest
                    + more)[i] by {}
                if rest.contains('\n') {
                    let i = choose|i: int| 0 <= i < rest.len() && rest[i] == '\n';
                    assert((rest + more)[i] == '\n');
                }
                if rest.contains('\r') {
                    let i = choose|i: int| 0 <= i < rest.len() && rest[i] == '\r';
                    assert((rest + more)[i] == '\r');
                }
            }
            lemma_no_break_stays(rest + more);
            lemma_no_break_stays(rest);
        } else {
            lemma_open_has_no_close(state, at, code);
        }
        lemma_next_ends(state);
        lemma_next_shrinks(state);
        lemma_ends_more(next.buffer, state.buffer, more);
        lemma_safe_end(next.buffer + more, state.buffer + more);
        lemma_safe_keeps(next, budget - 1, more);
    }
}

/// Where an opening tag comes next, no closing one does.
proof fn lemma_open_has_no_close(state: ThinkingV, at: int, code: int)
    requires
        0 <= state.kind < 4,
        is_next(state, at, code),
        code < 4,
    ensures
        behind_close(state) is None,
{
    let buffer = state.buffer;
    thinking_laws::lemma_first_open(buffer, 4);
    thinking_laws::lemma_first_close(buffer, 4);
    let open = stream::first_open(buffer, 4);
    let close = stream::first_close(buffer, 4);
    assert(text::stands_at(buffer, stream::open_tag(code), at));
    if close is Some && (open is None || open.unwrap().0 >= close.unwrap().0) {
        let other = close.unwrap().1 + 4;
        assert(text::stands_at(buffer, tag(other), close.unwrap().0));
        if close.unwrap().0 == at {
            lemma_tag_form(code);
            lemma_tag_form(other);
            lemma_no_tag_before(buffer, Seq::empty(), code, at, other, at);
        }
    }
}

/// However a safe text is cut, what it comes to is the same, whatever follows.
proof fn lemma_fed_with_more(state: ThinkingV, chunks: Seq<Seq<char>>, more: Seq<char>)
    requires
        0 <= state.kind < 4,
        safe(state.buffer + (joined(chunks) + more)),
    ensures
        whole(with_more(fed(state, chunks), more)) == whole(
            with_more(state, joined(chunks) + more),
        ),
        ends(fed(state, chunks).buffer, state.buffer + joined(chunks)),
        0 <= fed(state, chunks).kind < 4,
        fed(state, chunks).finished == state.finished,
    decreases chunks.len(),
{
    let all = state.buffer + joined(chunks);
    if chunks.len() == 0 {
        assert(joined(chunks) + more =~= more);
        assert(all =~= state.buffer);
        assert(state.buffer.skip(0) =~= state.buffer);
    } else {
        let front = chunks.drop_last();
        let chunk = chunks.last();
        let known = fed(state, front);
        assert(joined(front) + (chunk + more) =~= joined(chunks) + more);
        lemma_fed_with_more(state, front, chunk + more);
        let longer = with_more(known, chunk);
        assert(with_more(longer, more) =~= with_more(known, chunk + more));
        lemma_ends_more(known.buffer, state.buffer + joined(front), chunk);
        assert(state.buffer + joined(front) + chunk =~= all);
        if chunk.len() == 0 {
            assert(longer =~= known);
        } else {
            lemma_ends_more(longer.buffer, all, more);
            assert(all + more =~= state.buffer + (joined(chunks) + more));
            lemma_safe_end(longer.buffer + more, all + more);
            lemma_safe_keeps(longer, DRAIN_STEPS as int, more);
            lemma_drain_with_more(longer, DRAIN_STEPS as int, more);
            lemma_drained_ends(longer, false, DRAIN_STEPS as int);
            lemma_ends_chain(fed(state, chunks).buffer, longer.buffer, all);
        }
    }
}

/// At the end a safe text of few tags has come to what it comes to whole.
proof fn lemma_fed_ended(chunks: Seq<Seq<char>>)
    requires
        safe(joined(chunks)),
        tags_in(joined(chunks)) < DRAIN_STEPS,
    ensures
        told(fed(fresh(), chunks).ended().out) == whole(with_more(fresh(), joined(chunks))),
{
    let s = joined(chunks);
    let nothing = Seq::<char>::empty();
    let last = fed(fresh(), chunks);
    assert(fresh().buffer + (s + nothing) =~= s);
    assert(fresh().buffer + s =~= s);
    assert(s + nothing =~= s);
    lemma_fed_with_more(fresh(), chunks, nothing);
    assert(with_more(last, nothing) =~= last);
    lemma_fewer_tags(s, s.len() - last.buffer.len(), 0, 0);
    lemma_steps_suffice(ThinkingV { finished: true, ..last }, DRAIN_STEPS as int);
    lemma_ended(last);
}

/// However a text without line breaks is cut, in any number of chunks, it comes to
/// the same answer and the same thinking, in the same order, as the text at once.
/// The text has to hold fewer tags than one call takes steps.
pub proof fn cuts_do_not_matter(chunks: Seq<Seq<char>>)
    requires
        no_breaks(joined(chunks)),
        tags_in(joined(chunks)) < DRAIN_STEPS,
    ensures
        ({
            let cut = fed(fresh(), chunks).ended().out;
            let at_once = fresh().pushed(joined(chunks)).ended().out;
            &&& told(cut) == told(at_once)
            &&& spoken(cut, true) == spoken(at_once, true)
            &&& spoken(cut, false) == spoken(at_once, false)
        }),
{
    let s = joined(chunks);
    let one = Seq::<Seq<char>>::empty().push(s);
    assert(one.drop_last() =~= Seq::empty());
    assert(joined(one.drop_last()) =~= Seq::empty());
    assert(joined(one) =~= s);
    assert(fed(fresh(), one.drop_last()) == fresh());
    assert(fed(fresh(), one) == fresh().pushed(s));
    lemma_fed_ended(chunks);
    lemma_fed_ended(one);
    let cut = fed(fresh(), chunks).ended().out;
    let at_once = fresh().pushed(s).ended().out;
    lemma_spoken(cut, true);
    lemma_spoken(cut, false);
    lemma_spoken(at_once, true);
    lemma_spoken(at_once, false);
}

/// A text that holds no whole tag comes out whole, as answer, in however many
/// chunks it came, even where it ends in the start of a tag. After that nothing
/// more comes out.
pub proof fn tagless_text_comes_out_whole(chunks: Seq<Seq<char>>)
    requires
        tags_in(joined(chunks)) == 0,
    ensures
        ({
            let last = fed(fresh(), chunks).ended();
            &&& told(last.out) == marked(joined(chunks), false)
            &&& spoken(last.out, false) == joined(chunks)
            &&& spoken(last.out, true) == Seq::<char>::empty()
            &&& (ThinkingV { out: Seq::empty(), ..last }).ended() == (ThinkingV {
                out: Seq::empty(),
                ..last
            })
        }),
{
    let s = joined(chunks);
    let last = fed(fresh(), chunks).ended();
    let full = with_more(fresh(), s);
    lemma_fed_ended(chunks);
    lemma_next_is(full);
    assert(full.buffer =~= s);
    if full.next_tag() is Some {
        let (at, code) = choose|at: int, code: int| #[trigger]
            is_next(full, at, code) && full.next_tag()->0 == after_tag(full, at, code);
        lemma_tag_form(code);
        lemma_no_tags(s, code, at);
    }
    assert(told(fresh().out) + marked(s, false) =~= marked(s, false));
    lemma_spoken(last.out, true);
    lemma_spoken(last.out, false);
    let none = Seq::<(char, bool)>::empty();
    lemma_mark_more(none, s, false, true);
    lemma_mark_more(none, s, false, false);
    assert(none + marked(s, false) =~= marked(s, false));
    assert(with_mark(none, false) + s =~= s);
    assert(with_mark(none, true) + Seq::<char>::empty() =~= Seq::<char>::empty());
    lemma_fed_kind(chunks);
    thinking_laws::ending_twice_is_ending_once(fed(fresh(), chunks));
}

proof fn lemma_fed_kind(chunks: Seq<Seq<char>>)
    ensures
        0 <= fed(fresh(), chunks).kind < 4,
    decreases chunks.len(),
{
    if chunks.len() > 0 {
        lemma_fed_kind(chunks.drop_last());
        lemma_drained_ends(
            with_more(fed(fresh(), chunks.drop_last()), chunks.last()),
            false,
            DRAIN_STEPS as int,
        );
    }
}

/// A state whose pieces have not been fetched, and those already fetched before
/// them.
pub open spec fn after_pieces(earlier: Seq<PieceV>, state: ThinkingV) -> ThinkingV {
    ThinkingV { out: earlier + state.out, ..state }
}

proof fn lemma_drained_after(earlier: Seq<PieceV>, state: ThinkingV, is_final: bool, budget: int)
    ensures
        after_pieces(earlier, state).drained(is_final, budget) == after_pieces(
            earlier,
            state.drained(is_final, budget),
        ),
    decreases budget,
{
    let both = after_pieces(earlier, state);
    assert forall|s: Seq<char>, t: bool| #[trigger] both.emit(s, t) == after_pieces(
        earlier,
        state.emit(s, t),
    ) by {
        if s.len() > 0 {
            assert(both.emit(s, t).out =~= earlier + state.emit(s, t).out);
        }
    }
    if state.buffer.len() > 0 && budget > 0 {
        match state.next_tag() {
            Some(next) => {
                assert(both.next_tag() == Some(after_pieces(earlier, next)));
                lemma_drained_after(earlier, next, is_final, budget - 1);
            },
            None => {
                assert(both.next_tag() is None);
            },
        }
    }
}

/// When pieces are fetched does not matter: they and what comes later are what
/// would have come together.
pub proof fn fetching_changes_nothing(earlier: Seq<PieceV>, state: ThinkingV, chunk: Seq<char>)
    ensures
        after_pieces(earlier, state).pushed(chunk) == after_pieces(earlier, state.pushed(chunk)),
        after_pieces(earlier, state).ended() == after_pieces(earlier, state.ended()),
{
    let longer = with_more(state, chunk);
    lemma_drained_after(earlier, longer, false, DRAIN_STEPS as int);
    assert(with_more(after_pieces(earlier, state), chunk) == after_pieces(earlier, longer));
    let closed = ThinkingV { finished: true, ..state };
    lemma_drained_after(earlier, closed, true, DRAIN_STEPS as int);
    let last = closed.drained(true, DRAIN_STEPS as int);
    let said = last.emit(last.buffer, last.in_thinking);
    if last.buffer.len() > 0 {
        assert(after_pieces(earlier, last).emit(last.buffer, last.in_thinking).out =~= earlier
            + said.out);
    }
    assert(after_pieces(earlier, state).ended() =~= after_pieces(earlier, state.ended()));
}

} // verus!
