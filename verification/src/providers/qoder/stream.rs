//! Reading Qoder's event stream.
//!
//! The upstream wraps each chunk once more: the line holds an envelope with a
//! business status and a body, and the body is the chunk, as JSON text. It may
//! also mix thinking into the answer, between tags, and cut its stream
//! anywhere, in the middle of a tag or of a character too.
use super::protocol;
use super::protocol::{UpstreamKind, THINK_TAGS};
use crate::json;
use crate::json::{Json, JsonV};
use crate::lines;
use crate::text;
use vstd::prelude::*;
use vstd::string::*;

verus! {

/// What a line of the stream says.
#[derive(Debug)]
pub enum SseEvent {
    /// Nothing.
    Skip,
    /// The stream is over.
    Done,
    /// A chunk of the answer.
    Chunk(Json),
    /// The upstream failed; the business status stands in the envelope.
    Error {
        status: u16,
        kind: UpstreamKind,
        /// What the upstream wrote, cut short.
        raw: String,
        message: String,
        pricing_url: Option<String>,
    },
}

/// What an event means.
#[verifier::ext_equal]
pub ghost enum EventV {
    Skip,
    Done,
    Chunk(JsonV),
    Error { status: u16, raw: Seq<char>, error: protocol::ClassifiedV },
}

impl View for SseEvent {
    type V = EventV;

    open spec fn view(&self) -> EventV {
        match self {
            SseEvent::Skip => EventV::Skip,
            SseEvent::Done => EventV::Done,
            SseEvent::Chunk(chunk) => EventV::Chunk(chunk@),
            SseEvent::Error { status, kind, raw, message, pricing_url } => EventV::Error {
                status: *status,
                raw: raw@,
                error: protocol::ClassifiedV {
                    kind: *kind,
                    message: message@,
                    pricing_url: json::owned_text(*pricing_url),
                },
            },
        }
    }
}

/// What an envelope says: an error where its business status is not 200, else
/// its body, which is the chunk or the JSON text of the chunk.
pub open spec fn envelope_event(envelope: JsonV) -> EventV {
    let status = envelope.field("statusCodeValue"@).as_int();
    if status is Some && status != Some(200int) {
        let raw = match envelope.get("body"@) {
            Some(body) => protocol::text_or_json(body),
            None => Seq::empty(),
        };
        let short = status.unwrap() as u16;
        EventV::Error {
            status: short,
            raw: text::first_chars(raw, 500),
            error: protocol::classified(short as int, raw),
        }
    } else {
        match envelope.get("body"@) {
            None => EventV::Skip,
            Some(JsonV::Null) => EventV::Skip,
            Some(JsonV::Str(s)) => if s == "[DONE]"@ {
                EventV::Done
            } else {
                match json::parsed_json(s) {
                    Some(chunk) => EventV::Chunk(chunk),
                    None => EventV::Skip,
                }
            },
            Some(chunk) => EventV::Chunk(chunk),
        }
    }
}

/// What a line says, its `data:` taken off.
pub open spec fn line_event(data: Seq<char>) -> EventV {
    let inner = text::trimmed(data);
    if inner.len() == 0 {
        EventV::Skip
    } else if inner == "[DONE]"@ {
        EventV::Done
    } else {
        match json::parsed_json(inner) {
            Some(envelope) => envelope_event(envelope),
            None => EventV::Skip,
        }
    }
}

/// What an envelope says.
pub fn read_envelope(envelope: &Json) -> (event: SseEvent)
    ensures
        event@ == envelope_event(envelope@),
{
    let status = match envelope.get("statusCodeValue") {
        Some(value) => value.as_int(),
        None => None,
    };
    if let Some(status) = status {
        if status != 200 {
            let raw = match envelope.get("body") {
                Some(body) => protocol::text_or_write(body),
                None => String::new(),
            };
            let short: u16 = #[verifier::truncate] (status as u16);
            let classified = protocol::classify_upstream_error(short, raw.as_str());
            return SseEvent::Error {
                status: short,
                kind: classified.kind,
                raw: text::owned(text::take_chars(raw.as_str(), 500)),
                message: classified.message,
                pricing_url: classified.pricing_url,
            };
        }
    }
    match envelope.get("body") {
        None => SseEvent::Skip,
        Some(body) => match body {
            Json::Null => SseEvent::Skip,
            Json::Text(s) => if text::same(s.as_str(), "[DONE]") {
                SseEvent::Done
            } else {
                match json::parse_json(s.as_str()) {
                    Some(chunk) => SseEvent::Chunk(chunk),
                    None => SseEvent::Skip,
                }
            },
            _ => SseEvent::Chunk(body.clone()),
        },
    }
}

/// What a line says, its `data:` taken off.
pub fn parse_sse_line(data: &str) -> (event: SseEvent)
    ensures
        event@ == line_event(data@),
{
    let inner = text::trim(data);
    if inner.is_empty() {
        return SseEvent::Skip;
    }
    if text::same(inner, "[DONE]") {
        return SseEvent::Done;
    }
    match json::parse_json(inner) {
        Some(envelope) => read_envelope(&envelope),
        None => SseEvent::Skip,
    }
}

/// A frame of a stream of events.
pub open spec fn frame(value: JsonV) -> Seq<char> {
    "data: "@ + json::json_text(value) + "\n\n"@
}

/// A frame of a stream of events.
pub fn sse_frame(value: &Json) -> (framed: String)
    ensures
        framed@ == frame(value@),
{
    let mut framed = text::owned("data: ");
    let body = json::write_json(value);
    framed.append(body.as_str());
    framed.append("\n\n");
    framed
}

/// The frame that ends a stream of events.
pub fn sse_done() -> (framed: String)
    ensures
        framed@ == "data: [DONE]\n\n"@,
{
    text::owned("data: [DONE]\n\n")
}

/// The text of a line, decoded, without a carriage return at its end.
pub open spec fn line_text(line: Seq<u8>) -> Seq<char> {
    let decoded = text::lossy_text(line);
    if decoded.len() > 0 && decoded.last() == '\r' {
        decoded.drop_last()
    } else {
        decoded
    }
}

/// What the lines say that begin with `data:`, in order.
pub open spec fn data_lines(parts: Seq<Seq<u8>>) -> Seq<Seq<char>>
    decreases parts.len(),
{
    if parts.len() == 0 {
        Seq::empty()
    } else {
        match text::after_prefix(line_text(parts.last()), "data:"@) {
            Some(data) => data_lines(parts.drop_last()).push(data),
            None => data_lines(parts.drop_last()),
        }
    }
}

/// What is left at the end of the stream, where it is a line with data.
pub open spec fn last_data(tail: Seq<u8>) -> Seq<Seq<char>> {
    match text::after_prefix(line_text(tail), "data:"@) {
        Some(data) => if text::trimmed(data).len() > 0 {
            seq![data]
        } else {
            Seq::empty()
        },
        None => Seq::empty(),
    }
}

/// Cuts a byte stream into lines and keeps those with data. Bytes are held, not
/// text: a chunk may end in the middle of a character.
pub struct LineBuffer {
    tail: Vec<u8>,
}

impl View for LineBuffer {
    type V = Seq<u8>;

    closed spec fn view(&self) -> Seq<u8> {
        self.tail@
    }
}

/// The text of a line, decoded, without a carriage return at its end.
fn decode_line(line: &[u8]) -> (decoded: String)
    ensures
        decoded@ == line_text(line@),
{
    let decoded = text::from_utf8_lossy(line);
    if text::ends_with(decoded.as_str(), "\r") {
        proof {
            reveal_strlit("\r");
            assert("\r"@[0] == decoded@.subrange(decoded@.len() - 1, decoded@.len() as int)[0]);
        }
        let count: usize = decoded.as_str().unicode_len();
        let shorter = decoded.as_str().substring_char(0, count - 1);
        assert(shorter@ =~= decoded@.drop_last());
        text::owned(shorter)
    } else {
        proof {
            reveal_strlit("\r");
            if decoded@.len() > 0 && decoded@.last() == '\r' {
                assert("\r"@ =~= decoded@.subrange(decoded@.len() - 1, decoded@.len() as int));
            }
        }
        decoded
    }
}

impl LineBuffer {
    /// A buffer at the start of a stream.
    pub fn new() -> (buffer: Self)
        ensures
            buffer@ == Seq::<u8>::empty(),
    {
        LineBuffer { tail: Vec::new() }
    }

    /// Takes in a chunk and hands out the data of the lines it completes.
    pub fn push(&mut self, chunk: &[u8]) -> (out: Vec<String>)
        ensures
            text::views(out@) == data_lines(lines::lines(old(self)@ + chunk@)),
            final(self)@ == lines::rest(old(self)@ + chunk@),
    {
        crate::digest::push_bytes(&mut self.tail, chunk);
        let (complete, left) = lines::cut(&self.tail);
        let mut out: Vec<String> = Vec::new();
        let ghost all = lines::views(complete@);
        let mut i: usize = 0;
        assert(text::views(out@) =~= Seq::empty());
        assert(all.take(0) =~= Seq::empty());
        while i < complete.len()
            invariant
                all == lines::views(complete@),
                i <= complete.len(),
                text::views(out@) == data_lines(all.take(i as int)),
            decreases complete.len() - i,
        {
            assert(all.take(i as int + 1).drop_last() =~= all.take(i as int));
            assert(all.take(i as int + 1).last() == complete@[i as int]@);
            let line = decode_line(&complete[i]);
            let ghost before = out@;
            match text::strip_prefix(line.as_str(), "data:") {
                Some(data) => {
                    let own = text::owned(data);
                    out.push(own);
                    assert(text::views(out@) =~= text::views(before).push(own@));
                },
                None => {},
            }
            i += 1;
        }
        assert(all.take(all.len() as int) =~= all);
        self.tail = left;
        out
    }

    /// Ends the stream: a last line without a line feed counts too.
    pub fn finish(&mut self) -> (out: Vec<String>)
        ensures
            text::views(out@) == last_data(old(self)@),
            final(self)@ == Seq::<u8>::empty(),
    {
        let line = decode_line(&self.tail);
        self.tail = Vec::new();
        let mut out: Vec<String> = Vec::new();
        match text::strip_prefix(line.as_str(), "data:") {
            Some(data) => {
                if !text::trim(data).is_empty() {
                    out.push(text::owned(data));
                }
            },
            None => {},
        }
        assert(text::views(out@) =~= last_data(old(self)@));
        out
    }

    /// Gives up what is left and not yet a line.
    pub fn take_tail(&mut self) -> (left: Vec<u8>)
        ensures
            left@ == old(self)@,
            final(self)@ == Seq::<u8>::empty(),
    {
        let mut left: Vec<u8> = Vec::new();
        std::mem::swap(&mut left, &mut self.tail);
        left
    }
}

impl Default for LineBuffer {
    fn default() -> (buffer: Self)
        ensures
            buffer@ == Seq::<u8>::empty(),
    {
        Self::new()
    }
}

proof fn lemma_data_lines_join(first: Seq<Seq<u8>>, second: Seq<Seq<u8>>)
    ensures
        data_lines(first + second) == data_lines(first) + data_lines(second),
    decreases second.len(),
{
    if second.len() == 0 {
        assert(first + second =~= first);
        assert(data_lines(first) + data_lines(second) =~= data_lines(first));
    } else {
        lemma_data_lines_join(first, second.drop_last());
        assert((first + second).drop_last() =~= first + second.drop_last());
        assert(data_lines(first + second) =~= data_lines(first) + data_lines(second));
    }
}

/// Where the stream is cut into chunks makes no difference to the data that
/// comes out nor to what is left.
pub proof fn line_chunks_do_not_matter(held: Seq<u8>, first: Seq<u8>, second: Seq<u8>)
    ensures
        data_lines(lines::lines(held + first)) + data_lines(
            lines::lines(lines::rest(held + first) + second),
        ) == data_lines(lines::lines(held + (first + second))),
        lines::rest(lines::rest(held + first) + second) == lines::rest(held + (first + second)),
{
    lines::chunks_do_not_matter(held + first, second);
    assert(held + (first + second) =~= (held + first) + second);
    lemma_data_lines_join(
        lines::lines(held + first),
        lines::lines(lines::rest(held + first) + second),
    );
}

/// The text with every occurrence of `part` left out, from the left.
pub open spec fn without_part(s: Seq<char>, part: Seq<char>) -> Seq<char>
    decreases s.len(),
{
    if s.len() == 0 || part.len() == 0 {
        s
    } else if text::stands_at(s, part, 0) {
        without_part(s.skip(part.len() as int), part)
    } else {
        seq![s[0]] + without_part(s.skip(1), part)
    }
}

/// The text without the tags of the first `kinds` kinds.
pub open spec fn without_tags(s: Seq<char>, kinds: int) -> Seq<char>
    decreases kinds,
{
    if kinds <= 0 {
        s
    } else {
        without_part(
            without_part(without_tags(s, kinds - 1), open_tag(kinds - 1)),
            close_tag(kinds - 1),
        )
    }
}

/// The text with every occurrence of `part` left out, from the left.
fn remove_part(content: &str, part: &str) -> (shorter: String)
    requires
        part@.len() > 0,
    ensures
        shorter@ == without_part(content@, part@),
{
    let chars = text::chars_of(content);
    let piece = text::chars_of(part);
    let mut out = String::new();
    let mut i: usize = 0;
    assert(content@.skip(0) =~= content@);
    assert(out@ + without_part(content@, part@) =~= without_part(content@, part@));
    while i < chars.len()
        invariant
            chars@ == content@,
            piece@ == part@,
            part@.len() > 0,
            i <= chars.len(),
            out@ + without_part(content@.skip(i as int), part@) == without_part(content@, part@),
        decreases chars.len() - i,
    {
        let ghost left = content@.skip(i as int);
        let stands = text::matches_at(&chars, &piece, i);
        assert(stands == text::stands_at(left, part@, 0)) by {
            if i + part@.len() <= content@.len() {
                assert(left.subrange(0, part@.len() as int) =~= content@.subrange(
                    i as int,
                    i + part@.len(),
                ));
            }
        }
        if stands {
            assert(left.skip(part@.len() as int) =~= content@.skip(i + part@.len()));
            i += piece.len();
        } else {
            let ghost before = out@;
            out.push(chars[i]);
            assert(left.skip(1) =~= content@.skip(i as int + 1));
            assert(out@ + without_part(content@.skip(i as int + 1), part@) =~= before + (seq![left[0]]
                + without_part(left.skip(1), part@)));
            i += 1;
        }
    }
    assert(content@.skip(i as int) =~= Seq::empty());
    assert(out@ + Seq::<char>::empty() =~= out@);
    out
}

/// The text without the tags that enclose thinking.
pub fn strip_thinking_tags(content: &str) -> (shorter: String)
    ensures
        shorter@ == without_tags(content@, 4),
{
    let mut shorter = text::owned(content);
    let mut kind: usize = 0;
    while kind < 4
        invariant
            kind <= 4,
            shorter@ == without_tags(content@, kind as int),
        decreases 4 - kind,
    {
        proof {
            lemma_tags_not_empty(kind as int);
        }
        let opened = remove_part(shorter.as_str(), THINK_TAGS[kind].0);
        shorter = remove_part(opened.as_str(), THINK_TAGS[kind].1);
        kind += 1;
    }
    shorter
}

/// No tag is empty.
pub proof fn lemma_tags_not_empty(kind: int)
    requires
        0 <= kind < 4,
    ensures
        open_tag(kind).len() > 0,
        close_tag(kind).len() > 0,
{
    reveal_strlit("<thinking>");
    reveal_strlit("</thinking>");
    reveal_strlit("<think>");
    reveal_strlit("</think>");
    reveal_strlit("<reasoning>");
    reveal_strlit("</reasoning>");
    reveal_strlit("<thought>");
    reveal_strlit("</thought>");
    assert(kind == 0 || kind == 1 || kind == 2 || kind == 3);
}

/// A piece of what the upstream said.
#[derive(Debug, Clone, PartialEq, Eq)]
pub struct ThinkingPiece {
    pub text: String,
    /// Thinking, not answer.
    pub is_thinking: bool,
}

/// What a piece means.
pub ghost struct PieceV {
    pub text: Seq<char>,
    pub is_thinking: bool,
}

impl View for ThinkingPiece {
    type V = PieceV;

    open spec fn view(&self) -> PieceV {
        PieceV { text: self.text@, is_thinking: self.is_thinking }
    }
}

/// What a list of pieces means.
pub open spec fn piece_views(pieces: Seq<ThinkingPiece>) -> Seq<PieceV> {
    pieces.map_values(|piece: ThinkingPiece| piece@)
}

/// The opening tag of a kind.
pub open spec fn open_tag(kind: int) -> Seq<char> {
    THINK_TAGS[kind].0@
}

/// The closing tag of a kind.
pub open spec fn close_tag(kind: int) -> Seq<char> {
    THINK_TAGS[kind].1@
}

/// The earliest place where an opening tag of one of the first `kinds` kinds
/// stands, with its kind.
pub open spec fn first_open(buffer: Seq<char>, kinds: int) -> Option<(int, int)>
    decreases kinds,
{
    if kinds <= 0 {
        None
    } else {
        earlier(
            first_open(buffer, kinds - 1),
            text::first_at(buffer, open_tag(kinds - 1), 0),
            kinds - 1,
        )
    }
}

/// The earliest place where a closing tag of one of the first `kinds` kinds
/// stands, with its kind.
pub open spec fn first_close(buffer: Seq<char>, kinds: int) -> Option<(int, int)>
    decreases kinds,
{
    if kinds <= 0 {
        None
    } else {
        earlier(
            first_close(buffer, kinds - 1),
            text::first_at(buffer, close_tag(kinds - 1), 0),
            kinds - 1,
        )
    }
}

/// The earlier of a place known so far and a place of one more kind.
pub open spec fn earlier(known: Option<(int, int)>, place: Option<int>, kind: int) -> Option<
    (int, int),
> {
    match (known, place) {
        (Some(k), Some(p)) => if p < k.0 {
            Some((p, kind))
        } else {
            Some(k)
        },
        (None, Some(p)) => Some((p, kind)),
        (_, None) => known,
    }
}

/// Whether the last `n` characters could be the start of a tag that is not
/// complete yet.
pub open spec fn may_start_tag(buffer: Seq<char>, n: int) -> bool {
    exists|kind: int| 0 <= kind < 4 && #[trigger] may_start_kind(buffer, kind, n)
}

/// Whether the last `n` characters could be the start of a tag of one kind.
pub open spec fn may_start_kind(buffer: Seq<char>, kind: int, n: int) -> bool {
    starts_tag(buffer, open_tag(kind), n) || starts_tag(buffer, close_tag(kind), n)
}

/// Whether the last `n` characters are the start of `tag`, and not all of it.
pub open spec fn starts_tag(buffer: Seq<char>, tag: Seq<char>, n: int) -> bool {
    n < tag.len() && tag.take(n).is_suffix_of(buffer)
}

/// The greatest number of characters, up to `n`, at the end that may be the
/// start of a tag.
pub open spec fn held_back(buffer: Seq<char>, n: int) -> int
    decreases n,
{
    if n <= 0 {
        0
    } else if may_start_tag(buffer, n) {
        n
    } else {
        held_back(buffer, n - 1)
    }
}

/// One character less than the longest tag has.
pub const LONGEST_TAG_START: usize = 11;

/// How many characters at the end have to wait for what follows.
pub open spec fn kept(buffer: Seq<char>) -> int {
    held_back(buffer, LONGEST_TAG_START as int)
}

/// The text without the line break that follows a closing tag: an empty line,
/// else one break of either form.
pub open spec fn after_break(rest: Seq<char>) -> Seq<char> {
    if "\n\n"@.is_prefix_of(rest) {
        rest.skip(2)
    } else if "\r\n"@.is_prefix_of(rest) {
        rest.skip(2)
    } else if "\n"@.is_prefix_of(rest) {
        rest.skip(1)
    } else {
        rest
    }
}

/// The state of the parser.
#[verifier::ext_equal]
pub ghost struct ThinkingV {
    /// The pieces not fetched yet.
    pub out: Seq<PieceV>,
    /// The text not decided on yet.
    pub buffer: Seq<char>,
    pub in_thinking: bool,
    /// The kind of the tag that will end the thinking.
    pub kind: int,
    pub finished: bool,
}

impl ThinkingV {
    /// The state with a piece handed out; an empty one is not.
    pub open spec fn emit(self, said: Seq<char>, is_thinking: bool) -> ThinkingV {
        if said.len() == 0 {
            self
        } else {
            ThinkingV { out: self.out.push(PieceV { text: said, is_thinking }), ..self }
        }
    }

    /// Hands out what is sure, or everything where nothing will follow.
    pub open spec fn flush(self, is_final: bool) -> ThinkingV {
        let sure = if is_final {
            self.buffer.len() as int
        } else {
            self.buffer.len() - kept(self.buffer)
        };
        let said = self.emit(self.buffer.take(sure), self.in_thinking);
        ThinkingV { buffer: self.buffer.skip(sure), ..said }
    }

    /// The state after the next tag in the buffer, or nothing where there is
    /// none.
    pub open spec fn next_tag(self) -> Option<ThinkingV> {
        if self.in_thinking {
            match text::first_at(self.buffer, close_tag(self.kind), 0) {
                Some(p) => Some(
                    ThinkingV {
                        buffer: after_break(self.buffer.skip(p + close_tag(self.kind).len())),
                        in_thinking: false,
                        ..self.emit(self.buffer.take(p), true)
                    },
                ),
                None => None,
            }
        } else {
            match (first_open(self.buffer, 4), first_close(self.buffer, 4)) {
                (Some(open), None) => Some(self.enter(open)),
                (Some(open), Some(close)) => if open.0 < close.0 {
                    Some(self.enter(open))
                } else {
                    Some(self.skip_close(close))
                },
                (None, Some(close)) => Some(self.skip_close(close)),
                (None, None) => None,
            }
        }
    }

    /// The state after an opening tag: what precedes it is answer.
    pub open spec fn enter(self, open: (int, int)) -> ThinkingV {
        ThinkingV {
            buffer: self.buffer.skip(open.0 + open_tag(open.1).len()),
            in_thinking: true,
            kind: open.1,
            ..self.emit(self.buffer.take(open.0), false)
        }
    }

    /// The state after a closing tag that nothing opened: it is dropped.
    pub open spec fn skip_close(self, close: (int, int)) -> ThinkingV {
        ThinkingV {
            buffer: after_break(self.buffer.skip(close.0 + close_tag(close.1).len())),
            ..self.emit(self.buffer.take(close.0), false)
        }
    }

    /// The state once the buffer has been worked off: tag by tag, at most
    /// `budget` steps, then what is sure of the rest.
    pub open spec fn drained(self, is_final: bool, budget: int) -> ThinkingV
        decreases budget,
    {
        if self.buffer.len() == 0 || budget <= 0 {
            self
        } else {
            match self.next_tag() {
                Some(next) => next.drained(is_final, budget - 1),
                None => self.flush(is_final),
            }
        }
    }

    /// The state after more text.
    pub open spec fn pushed(self, chunk: Seq<char>) -> ThinkingV {
        if chunk.len() == 0 {
            self
        } else {
            (ThinkingV { buffer: self.buffer + chunk, ..self }).drained(false, DRAIN_STEPS as int)
        }
    }

    /// The state after the end of the text: whatever is left is handed out.
    pub open spec fn ended(self) -> ThinkingV {
        if self.finished {
            self
        } else {
            let last = (ThinkingV { finished: true, ..self }).drained(true, DRAIN_STEPS as int);
            ThinkingV { buffer: Seq::empty(), ..last.emit(last.buffer, last.in_thinking) }
        }
    }
}

/// How many steps one call may take.
pub const DRAIN_STEPS: usize = 1000;

/// Tells thinking from answer. `finish` has to be called at the end: an end that
/// may be the start of a tag is held back until then.
pub struct ThinkingParser {
    out: Vec<ThinkingPiece>,
    buffer: Vec<char>,
    in_thinking: bool,
    kind: usize,
    finished: bool,
}

impl View for ThinkingParser {
    type V = ThinkingV;

    closed spec fn view(&self) -> ThinkingV {
        ThinkingV {
            out: piece_views(self.out@),
            buffer: self.buffer@,
            in_thinking: self.in_thinking,
            kind: self.kind as int,
            finished: self.finished,
        }
    }
}

/// The characters from `from` on.
fn tail_of(chars: &Vec<char>, from: usize) -> (tail: Vec<char>)
    requires
        from <= chars@.len(),
    ensures
        tail@ == chars@.skip(from as int),
{
    let mut tail: Vec<char> = Vec::new();
    let mut i: usize = from;
    while i < chars.len()
        invariant
            from <= i <= chars.len(),
            tail@ == chars@.subrange(from as int, i as int),
        decreases chars.len() - i,
    {
        tail.push(chars[i]);
        i += 1;
        assert(tail@ =~= chars@.subrange(from as int, i as int));
    }
    assert(tail@ =~= chars@.skip(from as int));
    tail
}

/// The text of the characters before `to`.
fn head_text(chars: &Vec<char>, to: usize) -> (head: String)
    requires
        to <= chars@.len(),
    ensures
        head@ == chars@.take(to as int),
{
    let mut head = String::new();
    let mut i: usize = 0;
    while i < to
        invariant
            i <= to <= chars.len(),
            head@ == chars@.take(i as int),
        decreases to - i,
    {
        head.push(chars[i]);
        i += 1;
        assert(head@ =~= chars@.take(i as int));
    }
    head
}

/// The text without the line break that follows a closing tag.
fn strip_leading_newline(rest: &Vec<char>) -> (shorter: Vec<char>)
    ensures
        shorter@ == after_break(rest@),
{
    let empty_line = text::chars_of("\n\n");
    let carriage = text::chars_of("\r\n");
    let feed = text::chars_of("\n");
    proof {
        reveal_strlit("\n\n");
        reveal_strlit("\r\n");
        reveal_strlit("\n");
    }
    if text::matches_at(rest, &empty_line, 0) {
        tail_of(rest, 2)
    } else if text::matches_at(rest, &carriage, 0) {
        tail_of(rest, 2)
    } else if text::matches_at(rest, &feed, 0) {
        tail_of(rest, 1)
    } else {
        let same = tail_of(rest, 0);
        assert(same@ =~= rest@);
        same
    }
}

/// Whether the last `n` characters are the start of `tag`, and not all of it.
fn ends_in_start_of(buffer: &Vec<char>, tag: &str, n: usize) -> (yes: bool)
    ensures
        yes == starts_tag(buffer@, tag@, n as int),
{
    let chars = text::chars_of(tag);
    if n >= chars.len() || n > buffer.len() {
        return false;
    }
    let start: usize = buffer.len() - n;
    let mut i: usize = 0;
    while i < n
        invariant
            chars@ == tag@,
            n < chars.len(),
            n <= buffer.len(),
            start == buffer.len() - n,
            i <= n,
            forall|k: int| 0 <= k < i ==> buffer@[start + k] == tag@[k],
        decreases n - i,
    {
        if buffer[start + i] != chars[i] {
            assert(tag@.take(n as int)[i as int] != buffer@.subrange(
                start as int,
                buffer@.len() as int,
            )[i as int]);
            return false;
        }
        i += 1;
    }
    assert(tag@.take(n as int) =~= buffer@.subrange(start as int, buffer@.len() as int));
    true
}

/// How many characters at the end may be the start of a tag.
fn trailing_prefix_len(buffer: &Vec<char>) -> (keep: usize)
    ensures
        keep == kept(buffer@),
        keep <= buffer@.len(),
{
    let mut n: usize = LONGEST_TAG_START;
    while n > 0
        invariant
            n <= LONGEST_TAG_START,
            kept(buffer@) == held_back(buffer@, n as int),
        decreases n,
    {
        let mut kind: usize = 0;
        while kind < 4
            invariant
                kind <= 4,
                0 < n <= LONGEST_TAG_START,
                kept(buffer@) == held_back(buffer@, n as int),
                forall|k: int| 0 <= k < kind ==> !#[trigger] may_start_kind(buffer@, k, n as int),
            decreases 4 - kind,
        {
            let opens = ends_in_start_of(buffer, THINK_TAGS[kind].0, n);
            let closes = ends_in_start_of(buffer, THINK_TAGS[kind].1, n);
            assert(may_start_kind(buffer@, kind as int, n as int) == (opens || closes));
            if opens || closes {
                return n;
            }
            kind += 1;
        }
        assert(!may_start_tag(buffer@, n as int));
        n -= 1;
    }
    0
}

/// The earlier of a place known so far and a place of one more kind.
fn pick(known: Option<(usize, usize)>, place: Option<usize>, kind: usize) -> (best: Option<
    (usize, usize),
>)
    ensures
        places(best) == earlier(
            places(known),
            match place {
                Some(p) => Some(p as int),
                None => None,
            },
            kind as int,
        ),
{
    match (known, place) {
        (Some(k), Some(p)) => if p < k.0 {
            Some((p, kind))
        } else {
            Some(k)
        },
        (None, Some(p)) => Some((p, kind)),
        (_, None) => known,
    }
}

/// What a place means.
pub open spec fn places(place: Option<(usize, usize)>) -> Option<(int, int)> {
    match place {
        Some(p) => Some((p.0 as int, p.1 as int)),
        None => None,
    }
}

/// The earliest opening tag, with its kind.
fn find_open(buffer: &Vec<char>) -> (best: Option<(usize, usize)>)
    ensures
        places(best) == first_open(buffer@, 4),
        match best {
            Some(p) => p.1 < 4 && p.0 + open_tag(p.1 as int).len() <= buffer@.len(),
            None => true,
        },
{
    let mut best: Option<(usize, usize)> = None;
    let mut kind: usize = 0;
    while kind < 4
        invariant
            kind <= 4,
            places(best) == first_open(buffer@, kind as int),
            match best {
                Some(p) => p.1 < kind && p.0 + open_tag(p.1 as int).len() <= buffer@.len(),
                None => true,
            },
        decreases 4 - kind,
    {
        let tag = text::chars_of(THINK_TAGS[kind].0);
        assert(tag@ == open_tag(kind as int));
        proof {
            text::lemma_first_at(buffer@, tag@, 0);
        }
        best = pick(best, text::find(buffer, &tag, 0), kind);
        kind += 1;
    }
    best
}

/// The earliest closing tag, with its kind.
fn find_close(buffer: &Vec<char>) -> (best: Option<(usize, usize)>)
    ensures
        places(best) == first_close(buffer@, 4),
        match best {
            Some(p) => p.1 < 4 && p.0 + close_tag(p.1 as int).len() <= buffer@.len(),
            None => true,
        },
{
    let mut best: Option<(usize, usize)> = None;
    let mut kind: usize = 0;
    while kind < 4
        invariant
            kind <= 4,
            places(best) == first_close(buffer@, kind as int),
            match best {
                Some(p) => p.1 < kind && p.0 + close_tag(p.1 as int).len() <= buffer@.len(),
                None => true,
            },
        decreases 4 - kind,
    {
        let tag = text::chars_of(THINK_TAGS[kind].1);
        assert(tag@ == close_tag(kind as int));
        proof {
            text::lemma_first_at(buffer@, tag@, 0);
        }
        best = pick(best, text::find(buffer, &tag, 0), kind);
        kind += 1;
    }
    best
}

impl ThinkingParser {
    /// The kind of the tag that will end the thinking is one of the four.
    pub open spec fn wf(&self) -> bool {
        0 <= self@.kind < 4
    }

    /// A parser at the start of a text.
    pub fn new() -> (parser: Self)
        ensures
            parser.wf(),
            parser@ == (ThinkingV {
                out: Seq::empty(),
                buffer: Seq::empty(),
                in_thinking: false,
                kind: 0,
                finished: false,
            }),
    {
        let parser = ThinkingParser {
            out: Vec::new(),
            buffer: Vec::new(),
            in_thinking: false,
            kind: 0,
            finished: false,
        };
        assert(piece_views(parser.out@) =~= Seq::empty());
        parser
    }

    /// Takes in more text.
    pub fn push(&mut self, chunk: &str)
        requires
            old(self).wf(),
        ensures
            final(self).wf(),
            final(self)@ == old(self)@.pushed(chunk@),
    {
        if chunk.is_empty() {
            return;
        }
        let mut more = text::chars_of(chunk);
        self.buffer.append(&mut more);
        self.drain(false);
    }

    /// Ends the text: whatever is left is handed out. Ending it again does
    /// nothing.
    pub fn finish(&mut self)
        requires
            old(self).wf(),
        ensures
            final(self).wf(),
            final(self)@ == old(self)@.ended(),
    {
        if self.finished {
            return;
        }
        self.finished = true;
        self.drain(true);
        let ghost last = self@;
        let left = text::text_of(&self.buffer);
        let is_thinking = self.in_thinking;
        self.emit(left, is_thinking);
        self.buffer = Vec::new();
        assert(self@ =~= (ThinkingV {
            buffer: Seq::empty(),
            ..last.emit(last.buffer, last.in_thinking)
        }));
    }

    /// Fetches the pieces handed out so far.
    pub fn take(&mut self) -> (pieces: Vec<ThinkingPiece>)
        requires
            old(self).wf(),
        ensures
            final(self).wf(),
            piece_views(pieces@) == old(self)@.out,
            final(self)@ == (ThinkingV { out: Seq::empty(), ..old(self)@ }),
    {
        let mut pieces: Vec<ThinkingPiece> = Vec::new();
        std::mem::swap(&mut pieces, &mut self.out);
        assert(piece_views(self.out@) =~= Seq::empty());
        pieces
    }

    /// Hands out a piece; an empty one is not.
    fn emit(&mut self, said: String, is_thinking: bool)
        ensures
            final(self)@ == old(self)@.emit(said@, is_thinking),
    {
        if said.as_str().is_empty() {
            return;
        }
        let ghost before = self.out@;
        let piece = ThinkingPiece { text: said, is_thinking };
        self.out.push(piece);
        assert(piece_views(self.out@) =~= piece_views(before).push(piece@));
    }

    /// Hands out what is sure, or everything where nothing will follow.
    fn flush(&mut self, is_final: bool)
        requires
            old(self).wf(),
        ensures
            final(self).wf(),
            final(self)@ == old(self)@.flush(is_final),
    {
        let keep: usize = if is_final {
            0
        } else {
            trailing_prefix_len(&self.buffer)
        };
        let sure: usize = self.buffer.len() - keep;
        let said = head_text(&self.buffer, sure);
        let is_thinking = self.in_thinking;
        self.emit(said, is_thinking);
        self.buffer = tail_of(&self.buffer, sure);
    }

    /// Works off the buffer.
    fn drain(&mut self, is_final: bool)
        requires
            old(self).wf(),
        ensures
            final(self).wf(),
            final(self)@ == old(self)@.drained(is_final, DRAIN_STEPS as int),
    {
        let ghost start = self@;
        let mut steps: usize = 0;
        while self.buffer.len() > 0 && steps < DRAIN_STEPS
            invariant
                self.wf(),
                steps <= DRAIN_STEPS,
                start == old(self)@,
                start.drained(is_final, DRAIN_STEPS as int) == self@.drained(
                    is_final,
                    DRAIN_STEPS - steps,
                ),
            decreases DRAIN_STEPS - steps,
        {
            let ghost before = self@;
            steps += 1;
            if self.in_thinking {
                let tag = text::chars_of(THINK_TAGS[self.kind].1);
                assert(tag@ == close_tag(self@.kind));
                proof {
                    text::lemma_first_at(self.buffer@, tag@, 0);
                }
                match text::find(&self.buffer, &tag, 0) {
                    Some(p) => {
                        let said = head_text(&self.buffer, p);
                        let left = tail_of(&self.buffer, p + tag.len());
                        self.emit(said, true);
                        self.buffer = strip_leading_newline(&left);
                        self.in_thinking = false;
                        assert(before.next_tag() == Some(self@));
                    },
                    None => {
                        self.flush(is_final);
                        return;
                    },
                }
            } else {
                let open = find_open(&self.buffer);
                let close = find_close(&self.buffer);
                let enters = match (open, close) {
                    (Some(o), Some(c)) => o.0 < c.0,
                    (Some(_), None) => true,
                    _ => false,
                };
                if enters {
                    let place = open.unwrap();
                    let said = head_text(&self.buffer, place.0);
                    let tag = text::chars_of(THINK_TAGS[place.1].0);
                    assert(tag@ == open_tag(place.1 as int));
                    let left = tail_of(&self.buffer, place.0 + tag.len());
                    self.emit(said, false);
                    self.buffer = left;
                    self.kind = place.1;
                    self.in_thinking = true;
                    assert(before.next_tag() == Some(self@));
                } else {
                    match close {
                        Some(place) => {
                            let said = head_text(&self.buffer, place.0);
                            let tag = text::chars_of(THINK_TAGS[place.1].1);
                            assert(tag@ == close_tag(place.1 as int));
                            let left = tail_of(&self.buffer, place.0 + tag.len());
                            self.emit(said, false);
                            self.buffer = strip_leading_newline(&left);
                            assert(before.next_tag() == Some(self@));
                        },
                        None => {
                            self.flush(is_final);
                            return;
                        },
                    }
                }
            }
        }
    }
}

impl Default for ThinkingParser {
    fn default() -> (parser: Self)
        ensures
            parser.wf(),
            parser@.out.len() == 0,
            parser@.buffer.len() == 0,
            !parser@.in_thinking,
            !parser@.finished,
    {
        Self::new()
    }
}

} // verus!
