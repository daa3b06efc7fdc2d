//! Cutting a byte stream into lines.
//!
//! Bytes are cut, not text: a chunk of the stream may end in the middle of a
//! character, and only a complete line is decoded.
use vstd::prelude::*;

verus! {

/// The position of the first line feed, or the length where there is none.
pub open spec fn line_end(bytes: Seq<u8>) -> int
    decreases bytes.len(),
{
    if bytes.len() == 0 || bytes[0] == 10 {
        0
    } else {
        1 + line_end(bytes.skip(1))
    }
}

/// The complete lines, each without its line feed.
pub open spec fn lines(bytes: Seq<u8>) -> Seq<Seq<u8>>
    decreases bytes.len(),
{
    let end = line_end(bytes);
    if 0 <= end < bytes.len() {
        seq![bytes.take(end)] + lines(bytes.skip(end + 1))
    } else {
        Seq::empty()
    }
}

/// What follows the last line feed.
pub open spec fn rest(bytes: Seq<u8>) -> Seq<u8>
    decreases bytes.len(),
{
    let end = line_end(bytes);
    if 0 <= end < bytes.len() {
        rest(bytes.skip(end + 1))
    } else {
        bytes
    }
}

/// `line_end` is the first line feed.
pub proof fn lemma_line_end(bytes: Seq<u8>)
    ensures
        0 <= line_end(bytes) <= bytes.len(),
        line_end(bytes) < bytes.len() ==> bytes[line_end(bytes)] == 10,
        forall|k: int| 0 <= k < line_end(bytes) ==> bytes[k] != 10,
    decreases bytes.len(),
{
    if bytes.len() > 0 && bytes[0] != 10 {
        lemma_line_end(bytes.skip(1));
        assert forall|k: int| 0 <= k < line_end(bytes) implies bytes[k] != 10 by {
            if k > 0 {
                assert(bytes.skip(1)[k - 1] == bytes[k]);
            }
        }
    }
}

/// A position is `line_end` if it is the first line feed, or the length where
/// there is none.
pub proof fn lemma_line_end_is(bytes: Seq<u8>, end: int)
    requires
        0 <= end <= bytes.len(),
        end < bytes.len() ==> bytes[end] == 10,
        forall|k: int| 0 <= k < end ==> bytes[k] != 10,
    ensures
        line_end(bytes) == end,
{
    lemma_line_end(bytes);
    if line_end(bytes) < end {
        assert(bytes[line_end(bytes)] != 10);
    } else if end < line_end(bytes) {
        assert(bytes[end] != 10);
    }
}

/// Where a stream is cut into chunks makes no difference: the lines of a first
/// chunk, followed by those of its rest joined to the second, are the lines of
/// both together, and the same rest remains.
pub proof fn chunks_do_not_matter(first: Seq<u8>, second: Seq<u8>)
    ensures
        lines(first + second) == lines(first) + lines(rest(first) + second),
        rest(first + second) == rest(rest(first) + second),
    decreases first.len(),
{
    lemma_line_end(first);
    let end = line_end(first);
    if end < first.len() {
        assert((first + second)[end] == 10);
        lemma_line_end_is(first + second, end);
        assert((first + second).take(end) =~= first.take(end));
        assert((first + second).skip(end + 1) =~= first.skip(end + 1) + second);
        chunks_do_not_matter(first.skip(end + 1), second);
        assert(lines(first + second) =~= lines(first) + lines(rest(first) + second));
    } else {
        assert(lines(first) + lines(first + second) =~= lines(first + second));
    }
}

/// Nothing of a stream is lost or invented when it is cut: the lines with their
/// line feeds, and the rest, are the stream.
pub open spec fn joined(parts: Seq<Seq<u8>>) -> Seq<u8>
    decreases parts.len(),
{
    if parts.len() == 0 {
        Seq::empty()
    } else {
        parts[0].push(10) + joined(parts.skip(1))
    }
}

/// The lines with their line feeds, and the rest, are the stream.
pub proof fn lines_keep_everything(bytes: Seq<u8>)
    ensures
        joined(lines(bytes)) + rest(bytes) == bytes,
    decreases bytes.len(),
{
    lemma_line_end(bytes);
    let end = line_end(bytes);
    if end < bytes.len() {
        let tail = bytes.skip(end + 1);
        lines_keep_everything(tail);
        assert(lines(bytes).skip(1) =~= lines(tail));
        assert(bytes =~= bytes.take(end).push(10) + tail);
        assert(joined(lines(bytes)) + rest(bytes) =~= bytes.take(end).push(10) + (joined(lines(tail))
            + rest(tail)));
    } else {
        assert(joined(lines(bytes)) + rest(bytes) =~= bytes);
    }
}

/// What a list of byte lines means.
pub open spec fn views(parts: Seq<Vec<u8>>) -> Seq<Seq<u8>> {
    parts.map_values(|part: Vec<u8>| part@)
}

/// A copy of the bytes from `from` up to `to`.
pub fn slice(bytes: &[u8], from: usize, to: usize) -> (part: Vec<u8>)
    requires
        from <= to <= bytes@.len(),
    ensures
        part@ == bytes@.subrange(from as int, to as int),
{
    let mut part: Vec<u8> = Vec::new();
    let mut i: usize = from;
    while i < to
        invariant
            from <= i <= to <= bytes@.len(),
            part@ == bytes@.subrange(from as int, i as int),
        decreases to - i,
    {
        part.push(bytes[i]);
        i += 1;
        assert(part@ =~= bytes@.subrange(from as int, i as int));
    }
    part
}

/// Cuts bytes into their complete lines and what follows the last of them.
pub fn cut(bytes: &[u8]) -> (parts: (Vec<Vec<u8>>, Vec<u8>))
    ensures
        views(parts.0@) == lines(bytes@),
        parts.1@ == rest(bytes@),
{
    let mut out: Vec<Vec<u8>> = Vec::new();
    let mut start: usize = 0;
    let mut i: usize = 0;
    assert(bytes@.skip(0) =~= bytes@);
    assert(views(out@) + lines(bytes@) =~= lines(bytes@));
    while i < bytes.len()
        invariant
            start <= i <= bytes@.len(),
            forall|k: int| start <= k < i ==> bytes@[k] != 10,
            views(out@) + lines(bytes@.skip(start as int)) == lines(bytes@),
            rest(bytes@.skip(start as int)) == rest(bytes@),
        decreases bytes.len() - i,
    {
        if bytes[i] == 10 {
            let ghost tail = bytes@.skip(start as int);
            let ghost before = out@;
            proof {
                lemma_line_end_is(tail, i - start);
            }
            let line = slice(bytes, start, i);
            assert(line@ =~= tail.take(i - start));
            out.push(line);
            assert(tail.skip(i - start + 1) =~= bytes@.skip(i as int + 1));
            assert(views(out@) =~= views(before).push(line@));
            assert(views(out@) + lines(bytes@.skip(i as int + 1)) =~= views(before) + lines(tail));
            start = i + 1;
        }
        i += 1;
    }
    let ghost tail = bytes@.skip(start as int);
    proof {
        lemma_line_end_is(tail, tail.len() as int);
    }
    let left = slice(bytes, start, bytes.len());
    assert(left@ =~= tail);
    assert(views(out@) + lines(tail) =~= views(out@));
    (out, left)
}

} // verus!
