//! Joining the crumbs of thinking in a stream of events.
//!
//! Some upstreams send thinking a word at a time, and some clients show every
//! frame as a block of its own. Neighbouring frames that hold nothing but
//! thinking are joined here. Only the size of the frames changes: everything
//! else passes as it came.
use crate::digest;
use crate::json;
use crate::json::{Json, JsonV};
use crate::lines;
use crate::providers::qoder::stream as framing;
use crate::text;
use vstd::prelude::*;
use vstd::string::*;

verus! {

/// How many characters of thinking make a frame.
pub const REASONING_COALESCE_CHARS: usize = 60;

/// A frame of the stream, as it is sent.
pub type Frame = String;

/// The model to name to the client in place of the upstream's.
#[derive(Debug)]
pub struct ModelRewrite {
    pub requested: String,
}

/// What the latest events said of themselves.
pub ghost struct MetaV {
    pub id: Option<JsonV>,
    pub model: Option<JsonV>,
    pub created: Option<JsonV>,
}

/// What is known of a stream between its lines.
pub ghost struct CoalesceV {
    /// The thinking not sent yet.
    pub acc: Seq<char>,
    pub meta: MetaV,
    /// The model to name to the client.
    pub requested: Option<Seq<char>>,
}

/// What goes to the client.
pub ghost enum OutV {
    /// A line as it came.
    Line(Seq<char>),
    /// The end of the stream.
    Done,
    /// An event with another model.
    Renamed(JsonV),
    /// Thinking, joined.
    Joined { meta: MetaV, requested: Option<Seq<char>>, text: Seq<char> },
}

/// The value, where it is there and true.
pub open spec fn if_true(value: Option<JsonV>) -> Option<JsonV> {
    match value {
        Some(v) => if v.truthy() {
            Some(v)
        } else {
            None
        },
        None => None,
    }
}

/// What is known after what an event says of itself: what is there and true.
pub open spec fn noted(meta: MetaV, event: JsonV) -> MetaV {
    MetaV {
        id: if if_true(event.get("id"@)) is Some {
            event.get("id"@)
        } else {
            meta.id
        },
        model: if if_true(event.get("model"@)) is Some {
            event.get("model"@)
        } else {
            meta.model
        },
        created: if if_true(event.get("created"@)) is Some {
            event.get("created"@)
        } else {
            meta.created
        },
    }
}

/// The step in the first choice of an event.
pub open spec fn step_of(event: JsonV) -> JsonV {
    match event.field("choices"@).as_list() {
        Some(choices) => if choices.len() > 0 {
            choices[0].field("delta"@)
        } else {
            JsonV::Null
        },
        None => JsonV::Null,
    }
}

/// Whether a step holds an answer or a call.
pub open spec fn says_more(step: JsonV) -> bool {
    ||| (step.text_at("content"@) is Some && step.text_at("content"@).unwrap().len() > 0)
    ||| (step.field("tool_calls"@).as_list() is Some && step.field(
        "tool_calls"@,
    ).as_list().unwrap().len() > 0)
    ||| step.field("function_call"@).truthy()
}

/// The thinking of an event that holds nothing else.
pub open spec fn pure_thinking(event: JsonV) -> Option<Seq<char>> {
    if says_more(step_of(event)) {
        None
    } else {
        step_of(event).text_at("reasoning_content"@)
    }
}

/// An event as it passes: with the model that the client asked for, where one is
/// to be named and the event names another.
pub open spec fn passed(requested: Option<Seq<char>>, line: Seq<char>, event: JsonV) -> OutV {
    if requested is Some && event.get("model"@) is Some && or_blank(event.text_at("model"@))
        != requested.unwrap() {
        OutV::Renamed(event.put("model"@, JsonV::Str(requested.unwrap())))
    } else {
        OutV::Line(line)
    }
}

/// The text, or the empty text where there is none.
pub open spec fn or_blank(content: Option<Seq<char>>) -> Seq<char> {
    match content {
        Some(s) => s,
        None => Seq::empty(),
    }
}

/// What a line is.
pub ghost enum LineV {
    Blank,
    /// Not an event, or not one that can be read.
    Other(Seq<char>),
    Done,
    Event(Seq<char>, JsonV),
}

/// What a line is.
pub open spec fn line_kind(raw: Seq<char>) -> LineV {
    let line = without_return(raw);
    if text::trimmed(line).len() == 0 {
        LineV::Blank
    } else {
        match text::after_prefix(line, "data:"@) {
            None => LineV::Other(line),
            Some(rest) => if text::trimmed(rest) == "[DONE]"@ {
                LineV::Done
            } else {
                match json::parsed_json(text::trimmed(rest)) {
                    Some(event) => LineV::Event(line, event),
                    None => LineV::Other(line),
                }
            },
        }
    }
}

/// A line without a carriage return at its end.
pub open spec fn without_return(raw: Seq<char>) -> Seq<char> {
    if raw.len() > 0 && raw.last() == '\r' {
        raw.drop_last()
    } else {
        raw
    }
}

impl CoalesceV {
    /// The frame with the thinking not sent yet, where there is some.
    pub open spec fn held(self) -> Seq<OutV> {
        if self.acc.len() == 0 {
            Seq::empty()
        } else {
            seq![OutV::Joined { meta: self.meta, requested: self.requested, text: self.acc }]
        }
    }

    /// With nothing left to send.
    pub open spec fn emptied(self) -> CoalesceV {
        CoalesceV { acc: Seq::empty(), ..self }
    }

    /// After an event, and what goes out.
    pub open spec fn after_event(self, line: Seq<char>, event: JsonV) -> (CoalesceV, Seq<OutV>) {
        let known = CoalesceV { meta: noted(self.meta, event), ..self };
        match pure_thinking(event) {
            Some(thought) => {
                let more = CoalesceV { acc: self.acc + thought, ..known };
                if more.acc.len() >= REASONING_COALESCE_CHARS {
                    (more.emptied(), more.held())
                } else {
                    (more, Seq::empty())
                }
            },
            None => (known.emptied(), known.held().push(passed(self.requested, line, event))),
        }
    }

    /// After a line, and what goes out.
    pub open spec fn after(self, line: LineV) -> (CoalesceV, Seq<OutV>) {
        match line {
            LineV::Blank => (self, Seq::empty()),
            LineV::Other(content) => (self, seq![OutV::Line(content)]),
            LineV::Done => (self.emptied(), self.held().push(OutV::Done)),
            LineV::Event(content, event) => self.after_event(content, event),
        }
    }

    /// After lines, and what goes out.
    pub open spec fn after_all(self, lines: Seq<LineV>) -> (CoalesceV, Seq<OutV>)
        decreases lines.len(),
    {
        if lines.len() == 0 {
            (self, Seq::empty())
        } else {
            let (known, out) = self.after_all(lines.drop_last());
            let (next, more) = known.after(lines.last());
            (next, out + more)
        }
    }
}

/// The lines of bytes.
pub open spec fn lines_in(parts: Seq<Seq<u8>>) -> Seq<LineV> {
    parts.map_values(|part: Seq<u8>| line_kind(text::lossy_text(part)))
}

/// The id of a frame of joined thinking. What the upstream has not said of itself
/// is made up from the time.
pub open spec fn joined_id(meta: MetaV, now_ms: int) -> JsonV {
    match if_true(meta.id) {
        Some(v) => v,
        None => JsonV::Str("wb-coalesce-"@ + text::decimal_int(now_ms)),
    }
}

/// The time of a frame of joined thinking.
pub open spec fn joined_created(meta: MetaV, now_ms: int) -> JsonV {
    match if_true(meta.created) {
        Some(v) => v,
        None => JsonV::Int(now_ms / 1000),
    }
}

/// The model of a frame of joined thinking.
pub open spec fn joined_model(meta: MetaV, requested: Option<Seq<char>>) -> JsonV {
    match requested {
        Some(name) => JsonV::Str(name),
        None => match if_true(meta.model) {
            Some(v) => v,
            None => JsonV::Str(Seq::empty()),
        },
    }
}

/// The thinking, joined, as it is sent.
pub open spec fn joined_text(
    meta: MetaV,
    requested: Option<Seq<char>>,
    thought: Seq<char>,
    now_ms: int,
) -> Seq<char> {
    "data: {\"id\":"@ + json::json_text(joined_id(meta, now_ms))
        + ",\"object\":\"chat.completion.chunk\",\"created\":"@ + json::json_text(
        joined_created(meta, now_ms),
    ) + ",\"model\":"@ + json::json_text(joined_model(meta, requested))
        + ",\"choices\":[{\"index\":0,\"delta\":{\"reasoning_content\":"@ + json::json_text(
        JsonV::Str(thought),
    ) + "},\"finish_reason\":null}]}\n\n"@
}

/// What goes to the client, as it is sent.
pub open spec fn frame_text(out: OutV, now_ms: int) -> Seq<char> {
    match out {
        OutV::Line(line) => line + "\n\n"@,
        OutV::Done => "data: [DONE]\n\n"@,
        OutV::Renamed(event) => framing::frame(event),
        OutV::Joined { meta, requested, text } => joined_text(meta, requested, text, now_ms),
    }
}

/// Frames, as they are sent.
pub open spec fn frame_texts(out: Seq<OutV>, now_ms: int) -> Seq<Seq<char>> {
    out.map_values(|o: OutV| frame_text(o, now_ms))
}

/// Joins the crumbs of thinking in a stream of events.
pub struct ReasoningCoalescer {
    acc: String,
    id: Option<Json>,
    model: Option<Json>,
    created: Option<Json>,
    tail: Vec<u8>,
    rewrite: Option<ModelRewrite>,
    usage: Option<Json>,
}

/// The usage that the last event with one states; null counts too.
pub open spec fn usage_after(known: Option<JsonV>, line: LineV) -> Option<JsonV> {
    match line {
        LineV::Event(_, event) => match event.get("usage"@) {
            Some(usage) => Some(usage),
            None => known,
        },
        _ => known,
    }
}

/// The usage after lines.
pub open spec fn usage_after_all(known: Option<JsonV>, lines: Seq<LineV>) -> Option<JsonV>
    decreases lines.len(),
{
    if lines.len() == 0 {
        known
    } else {
        usage_after(usage_after_all(known, lines.drop_last()), lines.last())
    }
}

impl ReasoningCoalescer {
    /// What is known of the stream.
    pub closed spec fn state(&self) -> CoalesceV {
        CoalesceV {
            acc: self.acc@,
            meta: MetaV {
                id: json::owned_view(self.id),
                model: json::owned_view(self.model),
                created: json::owned_view(self.created),
            },
            requested: match self.rewrite {
                Some(r) => Some(r.requested@),
                None => None,
            },
        }
    }

    /// The bytes that are not a line yet.
    pub closed spec fn held_bytes(&self) -> Seq<u8> {
        self.tail@
    }

    /// The usage stated last and not fetched yet.
    pub closed spec fn stated_usage(&self) -> Option<JsonV> {
        json::owned_view(self.usage)
    }

    /// A stream that has not begun; its events keep their model.
    pub fn new() -> (coalescer: Self)
        ensures
            coalescer.state() == (CoalesceV {
                acc: Seq::empty(),
                meta: MetaV { id: None, model: None, created: None },
                requested: None,
            }),
            coalescer.held_bytes() == Seq::<u8>::empty(),
            coalescer.stated_usage() is None,
    {
        ReasoningCoalescer {
            acc: String::new(),
            id: None,
            model: None,
            created: None,
            tail: Vec::new(),
            rewrite: None,
            usage: None,
        }
    }

    /// The stream with another model named to the client.
    pub fn with_model_rewrite(self, rewrite: Option<ModelRewrite>) -> (coalescer: Self)
        ensures
            coalescer.state() == (CoalesceV {
                requested: match rewrite {
                    Some(r) => Some(r.requested@),
                    None => None,
                },
                ..self.state()
            }),
            coalescer.held_bytes() == self.held_bytes(),
            coalescer.stated_usage() == self.stated_usage(),
    {
        let mut own = self;
        own.rewrite = rewrite;
        own
    }

    /// Fetches the usage stated last.
    pub fn take_usage(&mut self) -> (usage: Option<Json>)
        ensures
            json::owned_view(usage) == old(self).stated_usage(),
            final(self).stated_usage() is None,
            final(self).state() == old(self).state(),
            final(self).held_bytes() == old(self).held_bytes(),
    {
        let mut usage: Option<Json> = None;
        std::mem::swap(&mut usage, &mut self.usage);
        usage
    }

    /// The thinking not sent yet, as it is sent.
    fn coalesced_frame(&self, now_ms: i64) -> (frame: Frame)
        requires
            now_ms >= 0,
        ensures
            frame@ == joined_text(
                self.state().meta,
                self.state().requested,
                self.state().acc,
                now_ms as int,
            ),
    {
        let id = match true_value(&self.id) {
            Some(value) => value,
            None => {
                let mut made = text::owned("wb-coalesce-");
                made.append(text::signed_text(now_ms).as_str());
                Json::Text(made)
            },
        };
        let created = match true_value(&self.created) {
            Some(value) => value,
            None => Json::number(now_ms / 1000),
        };
        let model = match &self.rewrite {
            Some(rewrite) => Json::text(rewrite.requested.as_str()),
            None => match true_value(&self.model) {
                Some(value) => value,
                None => Json::Text(String::new()),
            },
        };
        let mut frame = text::owned("data: {\"id\":");
        frame.append(json::write_json(&id).as_str());
        frame.append(",\"object\":\"chat.completion.chunk\",\"created\":");
        frame.append(json::write_json(&created).as_str());
        frame.append(",\"model\":");
        frame.append(json::write_json(&model).as_str());
        frame.append(",\"choices\":[{\"index\":0,\"delta\":{\"reasoning_content\":");
        frame.append(json::write_json(&Json::text(self.acc.as_str())).as_str());
        frame.append("},\"finish_reason\":null}]}\n\n");
        frame
    }

    /// Sends the thinking not sent yet, where there is some.
    fn flush(&mut self, now_ms: i64, out: &mut Vec<Frame>)
        requires
            now_ms >= 0,
        ensures
            final(self).state() == old(self).state().emptied(),
            final(self).held_bytes() == old(self).held_bytes(),
            final(self).stated_usage() == old(self).stated_usage(),
            text::views(final(out)@) == text::views(old(out)@) + frame_texts(
                old(self).state().held(),
                now_ms as int,
            ),
    {
        let ghost before = out@;
        let ghost held = self.state().held();
        if self.acc.as_str().is_empty() {
            assert(text::views(out@) =~= text::views(before) + frame_texts(held, now_ms as int));
            assert(self.acc@ =~= Seq::empty());
            return;
        }
        let frame = self.coalesced_frame(now_ms);
        out.push(frame);
        assert(frame_texts(held, now_ms as int) =~= seq![frame@]);
        assert(text::views(out@) =~= text::views(before) + frame_texts(held, now_ms as int));
        self.acc = String::new();
    }

    /// Takes note of what an event says of itself.
    fn note(&mut self, event: &Json)
        ensures
            final(self).state() == (CoalesceV {
                meta: noted(old(self).state().meta, event@),
                ..old(self).state()
            }),
            final(self).held_bytes() == old(self).held_bytes(),
            final(self).stated_usage() == match event@.get("usage"@) {
                Some(usage) => Some(usage),
                None => old(self).stated_usage(),
            },
    {
        if let Some(usage) = event.get("usage") {
            self.usage = Some(usage.clone());
        }
        if let Some(id) = event.get("id") {
            if id.truthy() {
                self.id = Some(id.clone());
            }
        }
        if let Some(model) = event.get("model") {
            if model.truthy() {
                self.model = Some(model.clone());
            }
        }
        if let Some(created) = event.get("created") {
            if created.truthy() {
                self.created = Some(created.clone());
            }
        }
    }

    /// An event as it passes, as it is sent.
    fn rewritten_frame(&self, line: &str, event: &Json) -> (frame: Frame)
        ensures
            forall|now_ms: int|
                frame@ == #[trigger] frame_text(
                    passed(self.state().requested, line@, event@),
                    now_ms,
                ),
    {
        if let Some(rewrite) = &self.rewrite {
            if event.get("model").is_some() {
                let current = match event.text_at("model") {
                    Some(s) => text::owned(s),
                    None => String::new(),
                };
                if !text::same(current.as_str(), rewrite.requested.as_str()) {
                    let mut next = event.clone();
                    next.put("model", Json::text(rewrite.requested.as_str()));
                    return framing::sse_frame(&next);
                }
            }
        }
        plain_frame(line)
    }

    /// Takes in a line.
    fn handle_line(&mut self, raw: &str, now_ms: i64, out: &mut Vec<Frame>)
        requires
            now_ms >= 0,
        ensures
            ({
                let (next, more) = old(self).state().after(line_kind(raw@));
                &&& final(self).state() == next
                &&& text::views(final(out)@) == text::views(old(out)@) + frame_texts(
                    more,
                    now_ms as int,
                )
            }),
            final(self).held_bytes() == old(self).held_bytes(),
            final(self).stated_usage() == usage_after(old(self).stated_usage(), line_kind(raw@)),
    {
        let ghost before = out@;
        let ghost now = now_ms as int;
        let line = strip_return(raw);
        if text::trim(line).is_empty() {
            assert(frame_texts(Seq::empty(), now) =~= Seq::empty());
            assert(text::views(out@) =~= text::views(before) + frame_texts(Seq::empty(), now));
            return;
        }
        let data = match text::strip_prefix(line, "data:") {
            Some(rest) => text::trim(rest),
            None => {
                let frame = plain_frame(line);
                out.push(frame);
                assert(frame_texts(seq![OutV::Line(line@)], now) =~= seq![frame@]);
                assert(text::views(out@) =~= text::views(before) + seq![frame@]);
                return;
            },
        };
        if text::same(data, "[DONE]") {
            let ghost held = self.state().held();
            self.flush(now_ms, out);
            let ghost flushed = out@;
            let frame = text::owned("data: [DONE]\n\n");
            out.push(frame);
            assert(frame_texts(held.push(OutV::Done), now) =~= frame_texts(held, now).push(frame@));
            assert(text::views(out@) =~= text::views(flushed).push(frame@));
            assert(text::views(out@) =~= text::views(before) + frame_texts(
                held.push(OutV::Done),
                now,
            ));
            return;
        }
        let event = match json::parse_json(data) {
            Some(event) => event,
            None => {
                let frame = plain_frame(line);
                out.push(frame);
                assert(frame_texts(seq![OutV::Line(line@)], now) =~= seq![frame@]);
                assert(text::views(out@) =~= text::views(before) + seq![frame@]);
                return;
            },
        };
        assert(line_kind(raw@) == LineV::Event(line@, event@));
        self.note(&event);
        let step = read_step(&event);
        let more = speaks_more(&step);
        let thought = step.text_at("reasoning_content");
        if !more {
            if let Some(thought) = thought {
                self.acc.append(thought);
                assert(pure_thinking(event@) == Some(thought@));
                if self.acc.as_str().unicode_len() >= REASONING_COALESCE_CHARS {
                    self.flush(now_ms, out);
                } else {
                    assert(frame_texts(Seq::empty(), now) =~= Seq::empty());
                    assert(text::views(out@) =~= text::views(before) + frame_texts(
                        Seq::empty(),
                        now,
                    ));
                }
                return;
            }
        }
        assert(pure_thinking(event@) is None);
        let ghost known = self.state();
        self.flush(now_ms, out);
        let ghost flushed = out@;
        let frame = self.rewritten_frame(line, &event);
        out.push(frame);
        proof {
            let pass = passed(known.requested, line@, event@);
            assert(frame@ == frame_text(pass, now));
            assert(frame_texts(known.held().push(pass), now) =~= frame_texts(known.held(), now).push(
                frame@,
            ));
            assert(text::views(out@) =~= text::views(flushed).push(frame@));
            assert(text::views(out@) =~= text::views(before) + frame_texts(
                known.held().push(pass),
                now,
            ));
        }
    }

    /// Takes in a chunk of the stream and says what goes to the client.
    pub fn push(&mut self, chunk: &[u8], now_ms: i64) -> (out: Vec<Frame>)
        requires
            now_ms >= 0,
        ensures
            ({
                let parts = lines_in(lines::lines(old(self).held_bytes() + chunk@));
                let (next, more) = old(self).state().after_all(parts);
                &&& final(self).state() == next
                &&& text::views(out@) == frame_texts(more, now_ms as int)
                &&& final(self).stated_usage() == usage_after_all(old(self).stated_usage(), parts)
            }),
            final(self).held_bytes() == lines::rest(old(self).held_bytes() + chunk@),
    {
        let ghost start = self.state();
        let ghost known_usage = self.stated_usage();
        let ghost now = now_ms as int;
        digest::push_bytes(&mut self.tail, chunk);
        let (complete, left) = lines::cut(&self.tail);
        let ghost all = lines_in(lines::lines(self.tail@));
        self.tail = left;
        let mut out: Vec<Frame> = Vec::new();
        let mut i: usize = 0;
        assert(all.take(0) =~= Seq::empty());
        assert(text::views(out@) =~= frame_texts(Seq::empty(), now));
        while i < complete.len()
            invariant
                now_ms >= 0,
                now == now_ms,
                all == lines_in(lines::views(complete@)),
                self.held_bytes() == left@,
                i <= complete.len(),
                self.state() == start.after_all(all.take(i as int)).0,
                text::views(out@) == frame_texts(start.after_all(all.take(i as int)).1, now),
                self.stated_usage() == usage_after_all(known_usage, all.take(i as int)),
            decreases complete.len() - i,
        {
            let ghost upto = all.take(i as int + 1);
            assert(upto.drop_last() =~= all.take(i as int));
            assert(upto.last() == line_kind(text::lossy_text(complete@[i as int]@)));
            let ghost known = start.after_all(all.take(i as int));
            let line = text::from_utf8_lossy(&complete[i]);
            self.handle_line(line.as_str(), now_ms, &mut out);
            proof {
                let more = known.0.after(upto.last()).1;
                assert(frame_texts(known.1 + more, now) =~= frame_texts(known.1, now) + frame_texts(
                    more,
                    now,
                ));
            }
            i += 1;
        }
        assert(all.take(all.len() as int) =~= all);
        out
    }

    /// Ends the stream: thinking not sent yet goes out. A last line without a
    /// line feed may be cut short, and does not.
    pub fn finish(&mut self, now_ms: i64) -> (out: Vec<Frame>)
        requires
            now_ms >= 0,
        ensures
            final(self).state() == old(self).state().emptied(),
            final(self).held_bytes() == old(self).held_bytes(),
            final(self).stated_usage() == old(self).stated_usage(),
            text::views(out@) == frame_texts(old(self).state().held(), now_ms as int),
    {
        let mut out: Vec<Frame> = Vec::new();
        self.flush(now_ms, &mut out);
        assert(text::views(out@) =~= frame_texts(old(self).state().held(), now_ms as int));
        out
    }
}

impl Default for ReasoningCoalescer {
    fn default() -> (coalescer: Self)
        ensures
            coalescer.state() == (CoalesceV {
                acc: Seq::empty(),
                meta: MetaV { id: None, model: None, created: None },
                requested: None,
            }),
            coalescer.held_bytes() == Seq::<u8>::empty(),
            coalescer.stated_usage() is None,
    {
        Self::new()
    }
}

/// A copy of a value that is there and true.
fn true_value(value: &Option<Json>) -> (copy: Option<Json>)
    ensures
        json::owned_view(copy) == if_true(json::owned_view(*value)),
{
    match value {
        Some(v) => if v.truthy() {
            Some(v.clone())
        } else {
            None
        },
        None => None,
    }
}

/// The step in the first choice of an event.
fn read_step(event: &Json) -> (step: Json)
    ensures
        step@ == step_of(event@),
{
    match event.list_at("choices") {
        Some(choices) => if choices.len() > 0 {
            choices[0].field("delta")
        } else {
            Json::Null
        },
        None => Json::Null,
    }
}

/// Whether a step holds an answer or a call.
fn speaks_more(step: &Json) -> (yes: bool)
    ensures
        yes == says_more(step@),
{
    let content = match step.text_at("content") {
        Some(s) => !s.is_empty(),
        None => false,
    };
    let calls = match step.list_at("tool_calls") {
        Some(items) => items.len() > 0,
        None => false,
    };
    content || calls || step.truthy_at("function_call")
}

/// A line without a carriage return at its end.
fn strip_return(raw: &str) -> (line: &str)
    ensures
        line@ == without_return(raw@),
{
    let count: usize = raw.unicode_len();
    if count > 0 && raw.get_char(count - 1) == '\r' {
        let line = raw.substring_char(0, count - 1);
        assert(line@ =~= raw@.drop_last());
        line
    } else {
        raw
    }
}

/// A frame of a stream of events.
pub fn sse_frame(value: &Json) -> (frame: Frame)
    ensures
        frame@ == framing::frame(value@),
{
    framing::sse_frame(value)
}

/// A line as it passes.
fn plain_frame(line: &str) -> (frame: Frame)
    ensures
        frame@ == line@ + "\n\n"@,
{
    let mut frame = text::owned(line);
    frame.append("\n\n");
    frame
}

/// What a stream carries, whatever the size of its frames: characters of
/// thinking and everything else.
pub ghost enum Atom {
    /// The code point of a character.
    Thought(int),
    Other(OutV),
}

/// The characters of thinking.
pub open spec fn thoughts(s: Seq<char>) -> Seq<Atom> {
    s.map_values(|c: char| Atom::Thought(c as int))
}

/// What goes out, whatever the size of the frames.
pub open spec fn atoms(out: Seq<OutV>) -> Seq<Atom>
    decreases out.len(),
{
    if out.len() == 0 {
        Seq::empty()
    } else {
        atoms(out.drop_last()) + match out.last() {
            OutV::Joined { text, .. } => thoughts(text),
            other => seq![Atom::Other(other)],
        }
    }
}

/// What comes in with a line, whatever the size of the frames.
pub open spec fn atoms_of(line: LineV, requested: Option<Seq<char>>) -> Seq<Atom> {
    match line {
        LineV::Blank => Seq::empty(),
        LineV::Other(content) => seq![Atom::Other(OutV::Line(content))],
        LineV::Done => seq![Atom::Other(OutV::Done)],
        LineV::Event(content, event) => match pure_thinking(event) {
            Some(thought) => thoughts(thought),
            None => seq![Atom::Other(passed(requested, content, event))],
        },
    }
}

/// What comes in with lines, whatever the size of the frames.
pub open spec fn atoms_in(lines: Seq<LineV>, requested: Option<Seq<char>>) -> Seq<Atom>
    decreases lines.len(),
{
    if lines.len() == 0 {
        Seq::empty()
    } else {
        atoms_in(lines.drop_last(), requested) + atoms_of(lines.last(), requested)
    }
}

proof fn lemma_atoms_join(first: Seq<OutV>, second: Seq<OutV>)
    ensures
        atoms(first + second) == atoms(first) + atoms(second),
    decreases second.len(),
{
    if second.len() == 0 {
        assert(first + second =~= first);
        assert(atoms(first) + atoms(second) =~= atoms(first));
    } else {
        lemma_atoms_join(first, second.drop_last());
        assert((first + second).drop_last() =~= first + second.drop_last());
        assert((first + second).last() == second.last());
        assert(atoms(first + second) =~= atoms(first) + atoms(second));
    }
}

proof fn lemma_held_atoms(state: CoalesceV)
    ensures
        atoms(state.held()) == thoughts(state.acc),
{
    reveal_with_fuel(atoms, 2);
    if state.acc.len() == 0 {
        assert(atoms(state.held()) =~= thoughts(state.acc));
    } else {
        assert(state.held().drop_last() =~= Seq::empty());
        assert(atoms(state.held()) =~= thoughts(state.acc));
    }
}

proof fn lemma_line_atoms(state: CoalesceV, line: LineV)
    ensures
        ({
            let (next, out) = state.after(line);
            &&& atoms(out) + thoughts(next.acc) == thoughts(state.acc) + atoms_of(
                line,
                state.requested,
            ) || line is Other
            &&& next.requested == state.requested
            &&& line is Other ==> next == state && atoms(out) == atoms_of(line, state.requested)
        }),
{
    reveal_with_fuel(atoms, 2);
    let (next, out) = state.after(line);
    lemma_held_atoms(state);
    match line {
        LineV::Blank => {
            assert(atoms(out) + thoughts(next.acc) =~= thoughts(state.acc) + Seq::<Atom>::empty());
        },
        LineV::Other(content) => {
            assert(out.drop_last() =~= Seq::empty());
            assert(atoms(out) =~= atoms_of(line, state.requested));
        },
        LineV::Done => {
            assert(out.drop_last() =~= state.held());
            assert(thoughts(next.acc) =~= Seq::<Atom>::empty());
            assert(atoms(out) + thoughts(next.acc) =~= thoughts(state.acc) + atoms_of(
                line,
                state.requested,
            ));
        },
        LineV::Event(content, event) => {
            let known = CoalesceV { meta: noted(state.meta, event), ..state };
            match pure_thinking(event) {
                Some(thought) => {
                    let more = CoalesceV { acc: state.acc + thought, ..known };
                    lemma_held_atoms(more);
                    assert(thoughts(more.acc) =~= thoughts(state.acc) + thoughts(thought));
                    assert(atoms(out) + thoughts(next.acc) =~= thoughts(more.acc));
                },
                None => {
                    lemma_held_atoms(known);
                    assert(out.drop_last() =~= known.held());
                    assert(thoughts(next.acc) =~= Seq::empty());
                    assert(atoms(out) + thoughts(next.acc) =~= thoughts(state.acc) + atoms_of(
                        line,
                        state.requested,
                    ));
                },
            }
        },
    }
}

/// Only the size of the frames changes: for a stream of events, what has gone
/// out, followed by what is still held, is what came in, in the same order. A
/// line that is not an event overtakes the thinking still held, so it is left
/// out here.
pub proof fn joining_keeps_content_and_order(state: CoalesceV, lines: Seq<LineV>)
    requires
        forall|i: int| 0 <= i < lines.len() ==> !(#[trigger] lines[i] is Other),
    ensures
        ({
            let (next, out) = state.after_all(lines);
            &&& atoms(out) + thoughts(next.acc) == thoughts(state.acc) + atoms_in(
                lines,
                state.requested,
            )
            &&& next.requested == state.requested
        }),
    decreases lines.len(),
{
    if lines.len() == 0 {
        assert(atoms(Seq::empty()) + thoughts(state.acc) =~= thoughts(state.acc) + Seq::<
            Atom,
        >::empty());
    } else {
        let front = lines.drop_last();
        assert forall|i: int| 0 <= i < front.len() implies !(#[trigger] front[i] is Other) by {
            assert(!(lines[i] is Other));
        }
        joining_keeps_content_and_order(state, front);
        let (known, out) = state.after_all(front);
        let line = lines.last();
        assert(!(lines[lines.len() - 1] is Other));
        lemma_line_atoms(known, line);
        let (next, more) = known.after(line);
        lemma_atoms_join(out, more);
        assert(atoms(out + more) + thoughts(next.acc) =~= atoms(out) + (atoms(more) + thoughts(
            next.acc,
        )));
        assert(atoms(out) + (thoughts(known.acc) + atoms_of(line, state.requested)) =~= (atoms(out)
            + thoughts(known.acc)) + atoms_of(line, state.requested));
        assert((thoughts(state.acc) + atoms_in(front, state.requested)) + atoms_of(
            line,
            state.requested,
        ) =~= thoughts(state.acc) + atoms_in(lines, state.requested));
    }
}

/// The thinking that goes out, joined.
pub open spec fn thinking_out(out: Seq<OutV>) -> Seq<char>
    decreases out.len(),
{
    if out.len() == 0 {
        Seq::empty()
    } else {
        thinking_out(out.drop_last()) + match out.last() {
            OutV::Joined { text, .. } => text,
            _ => Seq::empty(),
        }
    }
}

/// Everything else that goes out.
pub open spec fn others_out(out: Seq<OutV>) -> Seq<OutV>
    decreases out.len(),
{
    if out.len() == 0 {
        Seq::empty()
    } else {
        match out.last() {
            OutV::Joined { .. } => others_out(out.drop_last()),
            other => others_out(out.drop_last()).push(other),
        }
    }
}

/// The thinking that a line brings.
pub open spec fn thinking_of(line: LineV) -> Seq<char> {
    match line {
        LineV::Event(_, event) => or_blank(pure_thinking(event)),
        _ => Seq::empty(),
    }
}

/// What else a line brings.
pub open spec fn other_of(line: LineV, requested: Option<Seq<char>>) -> Option<OutV> {
    match line {
        LineV::Blank => None,
        LineV::Other(content) => Some(OutV::Line(content)),
        LineV::Done => Some(OutV::Done),
        LineV::Event(content, event) => match pure_thinking(event) {
            Some(_) => None,
            None => Some(passed(requested, content, event)),
        },
    }
}

/// The thinking that lines bring.
pub open spec fn thinking_in(lines: Seq<LineV>) -> Seq<char>
    decreases lines.len(),
{
    if lines.len() == 0 {
        Seq::empty()
    } else {
        thinking_in(lines.drop_last()) + thinking_of(lines.last())
    }
}

/// What else lines bring.
pub open spec fn others_in(lines: Seq<LineV>, requested: Option<Seq<char>>) -> Seq<OutV>
    decreases lines.len(),
{
    if lines.len() == 0 {
        Seq::empty()
    } else {
        match other_of(lines.last(), requested) {
            Some(other) => others_in(lines.drop_last(), requested).push(other),
            None => others_in(lines.drop_last(), requested),
        }
    }
}

/// What goes out in two parts goes out together.
pub proof fn lemma_projections_join(first: Seq<OutV>, second: Seq<OutV>)
    ensures
        thinking_out(first + second) == thinking_out(first) + thinking_out(second),
        others_out(first + second) == others_out(first) + others_out(second),
    decreases second.len(),
{
    if second.len() == 0 {
        assert(first + second =~= first);
        assert(thinking_out(first) + thinking_out(second) =~= thinking_out(first));
        assert(others_out(first) + others_out(second) =~= others_out(first));
    } else {
        lemma_projections_join(first, second.drop_last());
        assert((first + second).drop_last() =~= first + second.drop_last());
        assert((first + second).last() == second.last());
        assert(thinking_out(first + second) =~= thinking_out(first) + thinking_out(second));
        assert(others_out(first + second) =~= others_out(first) + others_out(second));
    }
}

proof fn lemma_line_projections(state: CoalesceV, line: LineV)
    ensures
        ({
            let (next, out) = state.after(line);
            &&& thinking_out(out) + next.acc == state.acc + thinking_of(line)
            &&& others_out(out) == match other_of(line, state.requested) {
                Some(other) => seq![other],
                None => Seq::empty(),
            }
            &&& next.requested == state.requested
        }),
{
    reveal_with_fuel(thinking_out, 3);
    reveal_with_fuel(others_out, 3);
    let (next, out) = state.after(line);
    if out.len() == 2 {
        assert(out.drop_last().drop_last() =~= Seq::empty());
    } else if out.len() == 1 {
        assert(out.drop_last() =~= Seq::empty());
    }
    assert(thinking_out(out) + next.acc =~= state.acc + thinking_of(line));
    assert(others_out(out) =~= match other_of(line, state.requested) {
        Some(other) => seq![other],
        None => Seq::empty(),
    });
}

/// Nothing is lost or changed, whatever the lines: the thinking that has gone
/// out, followed by what is still held, is the thinking that came in, and
/// everything else goes out as it came in, in the same order.
pub proof fn joining_keeps_everything(state: CoalesceV, lines: Seq<LineV>)
    ensures
        ({
            let (next, out) = state.after_all(lines);
            &&& thinking_out(out) + next.acc == state.acc + thinking_in(lines)
            &&& others_out(out) == others_in(lines, state.requested)
            &&& next.requested == state.requested
        }),
    decreases lines.len(),
{
    if lines.len() == 0 {
        assert(Seq::<char>::empty() + state.acc =~= state.acc + Seq::<char>::empty());
    } else {
        joining_keeps_everything(state, lines.drop_last());
        let (known, out) = state.after_all(lines.drop_last());
        let line = lines.last();
        lemma_line_projections(known, line);
        let (next, more) = known.after(line);
        lemma_projections_join(out, more);
        assert(thinking_out(out + more) + next.acc =~= thinking_out(out) + (thinking_out(more)
            + next.acc));
        assert(thinking_out(out) + (known.acc + thinking_of(line)) =~= (thinking_out(out)
            + known.acc) + thinking_of(line));
        assert((state.acc + thinking_in(lines.drop_last())) + thinking_of(line) =~= state.acc
            + thinking_in(lines));
        assert(others_out(out + more) =~= others_in(lines, state.requested));
    }
}

/// Lines in two parts are lines together.
pub proof fn lemma_after_join(state: CoalesceV, first: Seq<LineV>, second: Seq<LineV>)
    ensures
        ({
            let (known, out) = state.after_all(first);
            let (next, more) = known.after_all(second);
            state.after_all(first + second) == (next, out + more)
        }),
    decreases second.len(),
{
    let (known, out) = state.after_all(first);
    if second.len() == 0 {
        assert(first + second =~= first);
        assert(out + Seq::<OutV>::empty() =~= out);
    } else {
        lemma_after_join(state, first, second.drop_last());
        assert((first + second).drop_last() =~= first + second.drop_last());
        let (middle, some) = known.after_all(second.drop_last());
        let (next, last) = middle.after(second.last());
        assert(out + some + last =~= out + (some + last));
    }
}

/// Where the stream is cut into chunks makes no difference to what goes out nor
/// to what is held.
pub proof fn event_chunks_do_not_matter(
    state: CoalesceV,
    held: Seq<u8>,
    first: Seq<u8>,
    second: Seq<u8>,
)
    ensures
        ({
            let (known, out) = state.after_all(lines_in(lines::lines(held + first)));
            let (next, more) = known.after_all(
                lines_in(lines::lines(lines::rest(held + first) + second)),
            );
            &&& state.after_all(lines_in(lines::lines(held + (first + second)))) == (
                next,
                out + more,
            )
            &&& lines::rest(lines::rest(held + first) + second) == lines::rest(
                held + (first + second),
            )
        }),
{
    lines::chunks_do_not_matter(held + first, second);
    assert(held + (first + second) =~= (held + first) + second);
    let a = lines::lines(held + first);
    let b = lines::lines(lines::rest(held + first) + second);
    assert(lines_in(a + b) =~= lines_in(a) + lines_in(b));
    lemma_after_join(state, lines_in(a), lines_in(b));
}

} // verus!
