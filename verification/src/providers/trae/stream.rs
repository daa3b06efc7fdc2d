//! The events of Trae's stream, and what a client of chat completions gets of
//! them, in a stream or at once.
use crate::errors::{ErrorV, GatewayError};
use crate::json;
use crate::json::{Json, JsonV};
use crate::order;
use crate::text;
use vstd::prelude::*;
use vstd::string::*;

verus! {

/// An event of the stream.
#[derive(Debug)]
pub struct SoloEvent {
    pub kind: String,
    pub payload: Json,
}

/// What an event means.
#[verifier::ext_equal]
pub ghost struct EventV {
    pub kind: Seq<char>,
    pub payload: JsonV,
}

impl View for SoloEvent {
    type V = EventV;

    open spec fn view(&self) -> EventV {
        EventV { kind: self.kind@, payload: self.payload@ }
    }
}

/// What events mean.
pub open spec fn events_view(events: Seq<SoloEvent>) -> Seq<EventV> {
    events.map_values(|e: SoloEvent| e@)
}

/// An error that the stream reports.
#[derive(Debug)]
pub struct SoloError {
    pub code: i64,
    pub message: String,
}

/// The error of the gateway for an error of the stream.
pub open spec fn error_of(code: int, message: Seq<char>) -> ErrorV {
    ErrorV::plain(
        if code == 1005 || code == 4008 || code == 4010 {
            429
        } else if code == 1001 {
            401
        } else {
            502
        },
        "Trae 上游错误 "@ + text::decimal_int(code) + ": "@ + message,
    ).coded(text::decimal_int(code))
}

impl SoloError {
    /// The error of the gateway for an error of the stream: a used-up quota, a
    /// refused login, or a failure of the upstream.
    pub fn gateway_error(&self) -> (error: GatewayError)
        ensures
            error@ == error_of(self.code as int, self.message@),
    {
        let status: i32 = if self.code == 1005 || self.code == 4008 || self.code == 4010 {
            429
        } else if self.code == 1001 {
            401
        } else {
            502
        };
        let shown = text::signed_text(self.code);
        let mut message = text::owned("Trae 上游错误 ");
        message.append(shown.as_str());
        message.append(": ");
        message.append(self.message.as_str());
        GatewayError::with_status(status, message.as_str()).with_code(shown.as_str())
    }
}

/// A line without the returns at its end.
pub open spec fn without_returns(s: Seq<char>) -> Seq<char>
    decreases s.len(),
{
    if s.len() > 0 && (s.last() == '\r' || s.last() == '\n') {
        without_returns(s.drop_last())
    } else {
        s
    }
}

/// A line without the returns at its end.
fn trim_returns(line: &[char]) -> (out: String)
    ensures
        out@ == without_returns(line@),
{
    let mut count: usize = line.len();
    assert(line@.take(line@.len() as int) =~= line@);
    while count > 0 && (line[count - 1] == '\r' || line[count - 1] == '\n')
        invariant
            count <= line@.len(),
            without_returns(line@) == without_returns(line@.take(count as int)),
        decreases count,
    {
        assert(line@.take(count as int).drop_last() =~= line@.take(count as int - 1));
        count -= 1;
    }
    let mut kept: Vec<char> = Vec::new();
    let mut i: usize = 0;
    while i < count
        invariant
            i <= count <= line@.len(),
            kept@ == line@.take(i as int),
        decreases count - i,
    {
        kept.push(line[i]);
        i += 1;
        assert(kept@ =~= line@.take(i as int));
    }
    text::text_of(&kept)
}

/// What has been read of the stream and makes no whole event yet.
#[verifier::ext_equal]
pub ghost struct ParserV {
    pub event: Seq<char>,
    pub data: Seq<char>,
    pub line: Seq<char>,
}

/// The event that its two parts make; none without a kind.
pub open spec fn event_of(kind: Seq<char>, data: Seq<char>) -> Option<EventV> {
    if kind.len() == 0 {
        None
    } else {
        Some(
            EventV {
                kind,
                payload: if data.len() == 0 {
                    JsonV::Null
                } else {
                    match json::parsed_json(data) {
                        Some(v) => v,
                        None => JsonV::Null,
                    }
                },
            },
        )
    }
}

/// A list with one more event, where there is one.
pub open spec fn and_event(events: Seq<EventV>, event: Option<EventV>) -> Seq<EventV> {
    match event {
        Some(e) => events.push(e),
        None => events,
    }
}

impl ParserV {
    /// What a whole line makes of the state: a blank one ends an event.
    pub open spec fn after_line(self, raw: Seq<char>) -> (ParserV, Option<EventV>) {
        let line = without_returns(raw);
        match text::after_prefix(line, "event:"@) {
            Some(rest) => (ParserV { event: text::trimmed(rest), ..self }, None),
            None => match text::after_prefix(line, "data:"@) {
                Some(rest) => (ParserV { data: self.data + text::trimmed(rest), ..self }, None),
                None => if line.len() == 0 {
                    (
                        ParserV { event: Seq::empty(), data: Seq::empty(), ..self },
                        event_of(self.event, self.data),
                    )
                } else {
                    (self, None)
                },
            },
        }
    }

    /// What more text makes of the state, and the events that it ends.
    pub open spec fn fed(self, more: Seq<char>) -> (ParserV, Seq<EventV>)
        decreases more.len(),
    {
        let at = text::place_of(more, '\n');
        if 0 <= at < more.len() {
            let line = self.line + more.take(at);
            let (next, event) = (ParserV { line: Seq::empty(), ..self }).after_line(line);
            let (end, events) = next.fed(more.skip(at + 1));
            (end, and_event(Seq::empty(), event) + events)
        } else {
            (ParserV { line: self.line + more, ..self }, Seq::empty())
        }
    }

    /// What the end of the stream makes of the state.
    pub open spec fn ended(self) -> (ParserV, Seq<EventV>) {
        let data = match text::after_prefix(without_returns(self.line), "data:"@) {
            Some(rest) => self.data + text::trimmed(rest),
            None => self.data,
        };
        (
            ParserV { event: Seq::empty(), data: Seq::empty(), line: Seq::empty() },
            and_event(Seq::empty(), event_of(self.event, data)),
        )
    }
}

/// Reads the events of the stream.
#[derive(Debug)]
pub struct SoloSseParser {
    pending_event: String,
    pending_data: String,
    pending_line: String,
}

impl View for SoloSseParser {
    type V = ParserV;

    closed spec fn view(&self) -> ParserV {
        ParserV {
            event: self.pending_event@,
            data: self.pending_data@,
            line: self.pending_line@,
        }
    }
}

impl Default for SoloSseParser {
    fn default() -> (parser: Self)
        ensures
            parser@ == (ParserV {
                event: Seq::empty(),
                data: Seq::empty(),
                line: Seq::empty(),
            }),
    {
        SoloSseParser {
            pending_event: String::new(),
            pending_data: String::new(),
            pending_line: String::new(),
        }
    }
}

/// What an optional event means.
pub open spec fn event_view(event: Option<SoloEvent>) -> Option<EventV> {
    match event {
        Some(e) => Some(e@),
        None => None,
    }
}

impl SoloSseParser {
    /// Takes the event that has been read out.
    fn take_event(&mut self) -> (event: Option<SoloEvent>)
        ensures
            event_view(event) == event_of(old(self)@.event, old(self)@.data),
            final(self)@ == (ParserV {
                event: Seq::empty(),
                data: Seq::empty(),
                ..old(self)@
            }),
    {
        let kind = text::owned(self.pending_event.as_str());
        let data = text::owned(self.pending_data.as_str());
        self.pending_event = String::new();
        self.pending_data = String::new();
        if kind.as_str().is_empty() {
            return None;
        }
        let payload = if data.as_str().is_empty() {
            Json::Null
        } else {
            match json::parse_json(data.as_str()) {
                Some(value) => value,
                None => Json::Null,
            }
        };
        Some(SoloEvent { kind, payload })
    }

    /// Takes a whole line in.
    fn take_line(&mut self, raw: &[char]) -> (event: Option<SoloEvent>)
        ensures
            (final(self)@, event_view(event)) == old(self)@.after_line(raw@),
    {
        let line = trim_returns(raw);
        if let Some(rest) = text::strip_prefix(line.as_str(), "event:") {
            self.pending_event = text::owned(text::trim(rest));
            return None;
        }
        if let Some(rest) = text::strip_prefix(line.as_str(), "data:") {
            let mut data = text::owned(self.pending_data.as_str());
            data.append(text::trim(rest));
            self.pending_data = data;
            return None;
        }
        if line.as_str().is_empty() {
            return self.take_event();
        }
        None
    }

    /// Takes more of the stream in, and gives the events that it ends.
    pub fn push(&mut self, chunk: &[u8]) -> (events: Vec<SoloEvent>)
        ensures
            (final(self)@, events_view(events@)) == old(self)@.fed(text::lossy_text(chunk@)),
    {
        let more = text::from_utf8_lossy(chunk);
        let ghost all = more@;
        let ghost start = self@;
        let chars = text::chars_of(more.as_str());
        let mut events: Vec<SoloEvent> = Vec::new();
        let mut line: Vec<char> = text::chars_of(self.pending_line.as_str());
        self.pending_line = String::new();
        assert(events_view(events@) =~= Seq::empty());
        assert(all.skip(0) =~= all);
        let mut i: usize = 0;
        let mut from: usize = 0;
        proof {
            assert((start.line + all.subrange(0, 0)) =~= line@);
            assert((ParserV { line: start.line, ..self@ }) == start);
            let (end, rest) = start.fed(all);
            assert(events_view(events@) + rest =~= rest);
        }
        while i < chars.len()
            invariant
                chars@ == all,
                from <= i <= chars.len(),
                self@.line == Seq::<char>::empty(),
                forall|k: int| from <= k < i ==> all[k] != '\n',
                exists|head: Seq<char>| #[trigger]
                    (head + all.subrange(from as int, i as int)) == line@ && start.fed(all) == ({
                        let (end, rest) = (ParserV { line: head, ..self@ }).fed(
                            all.skip(from as int),
                        );
                        (end, events_view(events@) + rest)
                    }),
            decreases chars.len() - i,
        {
            let ghost head = choose|head: Seq<char>| #[trigger]
                (head + all.subrange(from as int, i as int)) == line@ && start.fed(all) == ({
                    let (end, rest) = (ParserV { line: head, ..self@ }).fed(all.skip(from as int));
                    (end, events_view(events@) + rest)
                });
            let ghost more = all.skip(from as int);
            let c = chars[i];
            if c == '\n' {
                proof {
                    assert(more[i - from] == '\n');
                    assert forall|k: int| 0 <= k < i - from implies more[k] != '\n' by {
                        assert(more[k] == all[from + k]);
                    }
                    text::lemma_place_is(more, '\n', i - from);
                    assert(more.take(i - from) =~= all.subrange(from as int, i as int));
                    assert(more.skip(i - from + 1) =~= all.skip(i as int + 1));
                }
                let ghost known = events_view(events@);
                let ghost before = self@;
                let event = self.take_line(&line);
                proof {
                    assert(before == (ParserV { line: Seq::empty(), ..before }));
                    assert((ParserV { line: Seq::empty(), ..(ParserV { line: head, ..before }) })
                        == before);
                    let (end, rest) = self@.fed(all.skip(i as int + 1));
                    assert(known + (and_event(Seq::empty(), event_view(event)) + rest) =~= (known
                        + and_event(Seq::empty(), event_view(event))) + rest);
                }
                if let Some(event) = event {
                    let ghost listed = events@;
                    let ghost own = event@;
                    events.push(event);
                    assert(events_view(events@) =~= events_view(listed).push(own));
                    assert(known + Seq::empty().push(own) =~= known.push(own));
                } else {
                    assert(known + Seq::<EventV>::empty() =~= known);
                }
                line = Vec::new();
                from = i + 1;
                i += 1;
                proof {
                    let none = Seq::<char>::empty();
                    assert(none + all.subrange(from as int, i as int) =~= line@);
                    assert((ParserV { line: none, ..self@ }) == self@);
                }
            } else {
                line.push(c);
                i += 1;
                assert(head + all.subrange(from as int, i as int) =~= line@);
            }
        }
        proof {
            let head = choose|head: Seq<char>| #[trigger]
                (head + all.subrange(from as int, i as int)) == line@ && start.fed(all) == ({
                    let (end, rest) = (ParserV { line: head, ..self@ }).fed(all.skip(from as int));
                    (end, events_view(events@) + rest)
                });
            let more = all.skip(from as int);
            assert(more =~= all.subrange(from as int, i as int));
            text::lemma_place_of(more, '\n');
            assert(events_view(events@) + Seq::<EventV>::empty() =~= events_view(events@));
        }
        self.pending_line = text::text_of(&line);
        events
    }

    /// Takes the end of the stream in. What is left is an event where a kind has
    /// been read.
    pub fn finish(&mut self) -> (events: Vec<SoloEvent>)
        ensures
            (final(self)@, events_view(events@)) == old(self)@.ended(),
    {
        let chars = text::chars_of(self.pending_line.as_str());
        self.pending_line = String::new();
        let line = trim_returns(&chars);
        if let Some(rest) = text::strip_prefix(line.as_str(), "data:") {
            let mut data = text::owned(self.pending_data.as_str());
            data.append(text::trim(rest));
            self.pending_data = data;
        }
        let mut events: Vec<SoloEvent> = Vec::new();
        assert(events_view(events@) =~= Seq::empty());
        if let Some(event) = self.take_event() {
            let ghost own = event@;
            events.push(event);
            assert(events_view(events@) =~= Seq::empty().push(own));
        }
        events
    }
}

/// However a text is cut into chunks, the same events come of it.
pub proof fn chunks_do_not_matter(state: ParserV, first: Seq<char>, second: Seq<char>)
    ensures
        state.fed(first + second) == ({
            let (middle, events) = state.fed(first);
            let (end, more) = middle.fed(second);
            (end, events + more)
        }),
    decreases first.len(),
{
    let whole = first + second;
    let at = text::place_of(first, '\n');
    text::lemma_place_of(first, '\n');
    if 0 <= at < first.len() {
        assert(whole[at] == '\n');
        assert forall|k: int| 0 <= k < at implies whole[k] != '\n' by {
            assert(whole[k] == first[k]);
        }
        text::lemma_place_is(whole, '\n', at);
        assert(whole.take(at) =~= first.take(at));
        assert(whole.skip(at + 1) =~= first.skip(at + 1) + second);
        let (next, event) = (ParserV { line: Seq::empty(), ..state }).after_line(
            state.line + first.take(at),
        );
        chunks_do_not_matter(next, first.skip(at + 1), second);
        let (middle, events) = next.fed(first.skip(at + 1));
        let (end, more) = middle.fed(second);
        let lead = and_event(Seq::empty(), event);
        assert(lead + (events + more) =~= (lead + events) + more);
    } else {
        let middle = ParserV { line: state.line + first, ..state };
        text::lemma_place_of(second, '\n');
        let next = text::place_of(second, '\n');
        if 0 <= next < second.len() {
            assert(whole[first.len() + next] == '\n');
            assert forall|k: int| 0 <= k < first.len() + next implies whole[k] != '\n' by {
                if k < first.len() {
                    assert(whole[k] == first[k]);
                } else {
                    assert(whole[k] == second[k - first.len()]);
                }
            }
            text::lemma_place_is(whole, '\n', first.len() + next);
            assert(state.line + whole.take(first.len() + next) =~= middle.line + second.take(
                next,
            ));
            assert(whole.skip(first.len() + next + 1) =~= second.skip(next + 1));
        } else {
            assert forall|k: int| 0 <= k < whole.len() implies whole[k] != '\n' by {
                if k < first.len() {
                    assert(whole[k] == first[k]);
                } else {
                    assert(whole[k] == second[k - first.len()]);
                }
            }
            text::lemma_place_of(whole, '\n');
            assert(state.line + whole =~= middle.line + second);
        }
        let (end, more) = middle.fed(second);
        assert(Seq::<EventV>::empty() + more =~= more);
    }
}

/// Whether a value says nothing: null or an empty text.
pub open spec fn is_blank(value: JsonV) -> bool {
    value == JsonV::Null || value == JsonV::Str(Seq::empty())
}

/// Whether a value says nothing: null or an empty text.
fn blank(value: &Json) -> (yes: bool)
    ensures
        yes == is_blank(value@),
{
    match value {
        Json::Null => true,
        Json::Text(s) => {
            proof {
                if s@.len() == 0 {
                    assert(s@ =~= Seq::empty());
                }
            }
            s.as_str().is_empty()
        },
        _ => false,
    }
}

/// A text, empty for any other value.
pub open spec fn text_or_empty(value: JsonV) -> Seq<char> {
    match value {
        JsonV::Str(s) => s,
        _ => Seq::empty(),
    }
}

/// The text of an entry, empty where there is none.
fn entry_text(value: &Json, key: &str) -> (content: String)
    ensures
        content@ == text_or_empty(value@.field(key@)),
{
    match value.text_at(key) {
        Some(s) => text::owned(s),
        None => String::new(),
    }
}

/// The function of a call with one more entry of a fragment: arguments are joined,
/// and what says nothing changes nothing.
pub open spec fn with_part(target: JsonV, key: Seq<char>, value: JsonV) -> JsonV {
    if key == "namespace"@ || key == "partial_arguments"@ {
        target
    } else if key == "arguments"@ {
        target.put(
            key,
            JsonV::Str(text_or_empty(target.field("arguments"@)) + text_or_empty(value)),
        )
    } else if is_blank(value) {
        target
    } else {
        target.put(key, value)
    }
}

/// The function of a call with the entries of a fragment under some keys.
pub open spec fn with_parts(target: JsonV, fragment: JsonV, keys: Seq<Seq<char>>) -> JsonV
    decreases keys.len(),
{
    if keys.len() == 0 {
        target
    } else {
        with_part(
            with_parts(target, fragment, keys.drop_last()),
            keys.last(),
            fragment.field(keys.last()),
        )
    }
}

/// The function of a call with a fragment of it.
pub open spec fn joined_function(known: Option<JsonV>, fragment: JsonV) -> JsonV {
    let target = match known {
        Some(v) => v,
        None => JsonV::object(),
    };
    with_parts(target, fragment, fragment.keys())
}

/// A call with one more entry of a fragment.
pub open spec fn with_entry(call: JsonV, key: Seq<char>, value: JsonV) -> JsonV {
    if key == "function_call"@ || key == "function"@ {
        if value is Obj {
            call.put("function"@, joined_function(call.get("function"@), value))
        } else {
            call
        }
    } else if key == "partial_arguments"@ || key == "namespace"@ || is_blank(value) {
        call
    } else {
        call.put(key, value)
    }
}

/// A call with the entries of a fragment under some keys.
pub open spec fn with_entries(call: JsonV, fragment: JsonV, keys: Seq<Seq<char>>) -> JsonV
    decreases keys.len(),
{
    if keys.len() == 0 {
        call
    } else {
        with_entry(
            with_entries(call, fragment, keys.drop_last()),
            keys.last(),
            fragment.field(keys.last()),
        )
    }
}

/// The place of a fragment's call.
pub open spec fn index_in(fragment: JsonV) -> int {
    match fragment.field("index"@).as_int() {
        Some(n) => n,
        None => 0,
    }
}

/// The call of a place, as far as it is known.
pub open spec fn call_at(calls: Seq<(int, JsonV)>, index: int) -> Option<JsonV>
    decreases calls.len(),
{
    if calls.len() == 0 {
        None
    } else if calls[0].0 == index {
        Some(calls[0].1)
    } else {
        call_at(calls.skip(1), index)
    }
}

/// The calls with the one of a place set, in the order of their places.
pub open spec fn with_call(calls: Seq<(int, JsonV)>, index: int, call: JsonV) -> Seq<(int, JsonV)>
    decreases calls.len(),
{
    if calls.len() == 0 {
        seq![(index, call)]
    } else if calls[0].0 == index {
        seq![(index, call)] + calls.skip(1)
    } else if calls[0].0 > index {
        seq![(index, call)] + calls
    } else {
        seq![calls[0]] + with_call(calls.skip(1), index, call)
    }
}

/// The calls with a fragment of one joined to it.
pub open spec fn with_fragment(calls: Seq<(int, JsonV)>, fragment: JsonV) -> Seq<(int, JsonV)> {
    if fragment is Obj {
        let index = index_in(fragment);
        let known = match call_at(calls, index) {
            Some(call) => call,
            None => JsonV::object().put("index"@, JsonV::Int(index)),
        };
        with_call(calls, index, with_entries(known, fragment, fragment.keys()))
    } else {
        calls
    }
}

/// The calls with fragments joined to them.
pub open spec fn with_fragments(calls: Seq<(int, JsonV)>, fragments: Seq<JsonV>) -> Seq<
    (int, JsonV),
>
    decreases fragments.len(),
{
    if fragments.len() == 0 {
        calls
    } else {
        with_fragment(with_fragments(calls, fragments.drop_last()), fragments.last())
    }
}

/// The fragments of calls in an event.
pub open spec fn fragments_in(payload: JsonV) -> Seq<JsonV> {
    match payload.field("tool_calls"@).as_list() {
        Some(items) => items,
        None => Seq::empty(),
    }
}

/// A fragment as a client gets it.
pub open spec fn fragment_out(fragment: JsonV) -> JsonV {
    let plain = fragment.without("namespace"@).without("partial_arguments"@);
    match fragment.get("function_call"@) {
        Some(v) => plain.without("function_call"@).put("function"@, v),
        None => plain,
    }
}

/// The fragments as a client gets them.
pub open spec fn fragments_out(fragments: Seq<JsonV>) -> Seq<JsonV>
    decreases fragments.len(),
{
    if fragments.len() == 0 {
        Seq::empty()
    } else if fragments.last() is Obj {
        fragments_out(fragments.drop_last()).push(fragment_out(fragments.last()))
    } else {
        fragments_out(fragments.drop_last())
    }
}

/// The state of an answer that is being read.
#[verifier::ext_equal]
pub ghost struct AnswerV {
    pub id: Seq<char>,
    pub created: int,
    pub model: Seq<char>,
    pub role_sent: bool,
    pub usage: Option<JsonV>,
    pub finish: Option<Seq<char>>,
    pub content: Seq<char>,
    pub reasoning: Seq<char>,
    pub calls: Seq<(int, JsonV)>,
}

/// Whether calls stand in the order of their places, each place once.
pub open spec fn in_places(calls: Seq<(int, JsonV)>) -> bool {
    forall|i: int, j: int|
        0 <= i < j < calls.len() ==> (#[trigger] calls[i]).0 < (#[trigger] calls[j]).0
}

/// A step of the answer, as a client gets it.
#[verifier::opaque]
pub open spec fn chunk_of(state: AnswerV, delta: JsonV, finish: Option<Seq<char>>) -> JsonV {
    let choice = JsonV::object().put("index"@, JsonV::Int(0)).put("delta"@, delta);
    JsonV::object().put("id"@, JsonV::Str(state.id)).put(
        "object"@,
        JsonV::Str("chat.completion.chunk"@),
    ).put("created"@, JsonV::Int(state.created)).put("model"@, JsonV::Str(state.model)).put(
        "choices"@,
        JsonV::Arr(
            seq![
                match finish {
                    Some(f) => choice.put("finish_reason"@, JsonV::Str(f)),
                    None => choice,
                },
            ],
        ),
    )
}

/// The first step of an answer.
pub open spec fn role_delta() -> JsonV {
    JsonV::object().put("role"@, JsonV::Str("assistant"@)).put("content"@, JsonV::Str(Seq::empty()))
}

/// What an event of output adds to the answer.
pub open spec fn delta_of(payload: JsonV) -> JsonV {
    let response = text_or_empty(payload.field("response"@));
    let reasoning = text_or_empty(payload.field("reasoning_content"@));
    let first = if response.len() > 0 {
        JsonV::object().put("content"@, JsonV::Str(response))
    } else {
        JsonV::object()
    };
    let second = if reasoning.len() > 0 {
        first.put("reasoning_content"@, JsonV::Str(reasoning))
    } else {
        first
    };
    if fragments_in(payload).len() > 0 {
        second.put("tool_calls"@, JsonV::Arr(fragments_out(fragments_in(payload))))
    } else {
        second
    }
}

/// Whether an event of output adds anything to the answer.
pub open spec fn adds(payload: JsonV) -> bool {
    text_or_empty(payload.field("response"@)).len() > 0 || text_or_empty(
        payload.field("reasoning_content"@),
    ).len() > 0 || fragments_in(payload).len() > 0
}

impl AnswerV {
    /// Steps with the first one before them, where it is still due.
    pub open spec fn opened(self) -> Seq<JsonV> {
        if self.role_sent {
            Seq::empty()
        } else {
            seq![chunk_of(self, role_delta(), None)]
        }
    }

    /// What an event of output makes of the state, and the steps that it gives.
    pub open spec fn after_output(self, payload: JsonV) -> (AnswerV, Seq<JsonV>) {
        let next = AnswerV {
            content: self.content + text_or_empty(payload.field("response"@)),
            reasoning: self.reasoning + text_or_empty(payload.field("reasoning_content"@)),
            calls: with_fragments(self.calls, fragments_in(payload)),
            ..self
        };
        if adds(payload) {
            (
                AnswerV { role_sent: true, ..next },
                self.opened().push(chunk_of(self, delta_of(payload), None)),
            )
        } else {
            (next, Seq::empty())
        }
    }

    /// What an event makes of the state, and the steps that it gives, or the error
    /// that it reports.
    pub open spec fn after(self, event: EventV) -> Result<(AnswerV, Seq<JsonV>), ErrorV> {
        if event.kind == "output"@ {
            Ok(self.after_output(event.payload))
        } else if event.kind == "token_usage"@ {
            Ok((AnswerV { usage: Some(event.payload), ..self }, Seq::empty()))
        } else if event.kind == "done"@ {
            Ok(
                (
                    AnswerV {
                        finish: Some(
                            match event.payload.text_at("finish_reason"@) {
                                Some(s) => s,
                                None => "stop"@,
                            },
                        ),
                        ..self
                    },
                    Seq::empty(),
                ),
            )
        } else if event.kind == "error"@ {
            Err(
                error_of(
                    match event.payload.field("code"@).as_int() {
                        Some(n) => n,
                        None => 0,
                    },
                    match event.payload.text_at("message"@) {
                        Some(s) => s,
                        None => "未知错误"@,
                    },
                ),
            )
        } else {
            Ok((self, Seq::empty()))
        }
    }

    /// How the answer ended.
    pub open spec fn ending(self) -> Seq<char> {
        match self.finish {
            Some(f) => f,
            None => "stop"@,
        }
    }

    /// The last steps of the answer.
    pub open spec fn closing(self) -> Seq<JsonV> {
        let last = self.opened().push(chunk_of(self, JsonV::object(), Some(self.ending())));
        match self.usage {
            Some(u) => last.push(chunk_of(self, JsonV::object(), None).put("usage"@, u)),
            None => last,
        }
    }

    /// The message of the whole answer.
    pub open spec fn message(self) -> JsonV {
        let plain = JsonV::object().put("role"@, JsonV::Str("assistant"@)).put(
            "content"@,
            JsonV::Str(self.content),
        );
        let thought = if self.reasoning.len() > 0 {
            plain.put("reasoning_content"@, JsonV::Str(self.reasoning))
        } else {
            plain
        };
        if self.calls.len() > 0 {
            thought.put(
                "tool_calls"@,
                JsonV::Arr(self.calls.map_values(|c: (int, JsonV)| c.1)),
            )
        } else {
            thought
        }
    }

    /// The whole answer.
    pub open spec fn whole(self) -> JsonV {
        JsonV::object().put("id"@, JsonV::Str(self.id)).put(
            "object"@,
            JsonV::Str("chat.completion"@),
        ).put("created"@, JsonV::Int(self.created)).put("model"@, JsonV::Str(self.model)).put(
            "choices"@,
            JsonV::Arr(
                seq![
                    JsonV::object().put("index"@, JsonV::Int(0)).put("message"@, self.message()).put(
                        "finish_reason"@,
                        JsonV::Str(self.ending()),
                    ),
                ],
            ),
        ).put(
            "usage"@,
            match self.usage {
                Some(u) => u,
                None => JsonV::Null,
            },
        )
    }
}

/// Turns the events of the stream into an answer.
#[derive(Debug)]
pub struct Translator {
    id: String,
    created: i64,
    model: String,
    role_sent: bool,
    usage: Option<Json>,
    finish_reason: Option<String>,
    content: String,
    reasoning: String,
    tool_calls: Vec<(i64, Json)>,
}

/// What calls mean.
pub open spec fn calls_view(calls: Seq<(i64, Json)>) -> Seq<(int, JsonV)> {
    calls.map_values(|c: (i64, Json)| (c.0 as int, c.1@))
}

impl View for Translator {
    type V = AnswerV;

    closed spec fn view(&self) -> AnswerV {
        AnswerV {
            id: self.id@,
            created: self.created as int,
            model: self.model@,
            role_sent: self.role_sent,
            usage: json::owned_view(self.usage),
            finish: json::owned_text(self.finish_reason),
            content: self.content@,
            reasoning: self.reasoning@,
            calls: calls_view(self.tool_calls@),
        }
    }
}

/// Joins a fragment to the function of a call.
fn join_function(known: Option<&Json>, fragment: &Json) -> (out: Json)
    ensures
        out@ == joined_function(json::opt_view(known), fragment@),
{
    let mut target = match known {
        Some(value) => value.clone(),
        None => Json::object(),
    };
    let ghost start = target@;
    let keys = fragment.keys();
    let ghost all = fragment@.keys();
    assert(all.take(0) =~= Seq::empty());
    let mut i: usize = 0;
    while i < keys.len()
        invariant
            all == order::texts(keys@),
            i <= keys.len(),
            target@ == with_parts(start, fragment@, all.take(i as int)),
        decreases keys.len() - i,
    {
        let ghost upto = all.take(i as int + 1);
        assert(upto.drop_last() =~= all.take(i as int));
        let key = keys[i].as_str();
        assert(upto.last() == key@);
        if text::same(key, "namespace") || text::same(key, "partial_arguments") {
        } else if text::same(key, "arguments") {
            let mut joined = entry_text(&target, "arguments");
            joined.append(entry_text(fragment, key).as_str());
            target.put("arguments", Json::Text(joined));
        } else {
            let value = fragment.field(key);
            if !blank(&value) {
                target.put(key, value);
            }
        }
        i += 1;
    }
    assert(all.take(all.len() as int) =~= all);
    target
}

/// Joins a fragment to a call.
fn join_call(known: Json, fragment: &Json) -> (out: Json)
    ensures
        out@ == with_entries(known@, fragment@, fragment@.keys()),
{
    let ghost start = known@;
    let mut call = known;
    let keys = fragment.keys();
    let ghost all = fragment@.keys();
    assert(all.take(0) =~= Seq::empty());
    let mut i: usize = 0;
    while i < keys.len()
        invariant
            all == order::texts(keys@),
            i <= keys.len(),
            call@ == with_entries(start, fragment@, all.take(i as int)),
        decreases keys.len() - i,
    {
        let ghost upto = all.take(i as int + 1);
        assert(upto.drop_last() =~= all.take(i as int));
        let key = keys[i].as_str();
        assert(upto.last() == key@);
        let value = fragment.field(key);
        if text::same(key, "function_call") || text::same(key, "function") {
            if value.is_object() {
                let joined = join_function(call.get("function"), &value);
                call.put("function", joined);
            }
        } else if !text::same(key, "partial_arguments") && !text::same(key, "namespace") && !blank(
            &value,
        ) {
            call.put(key, value);
        }
        i += 1;
    }
    assert(all.take(all.len() as int) =~= all);
    call
}

proof fn lemma_call_at(calls: Seq<(int, JsonV)>, index: int, i: int)
    requires
        in_places(calls),
        0 <= i < calls.len(),
        calls[i].0 == index,
    ensures
        call_at(calls, index) == Some(calls[i].1),
        forall|call: JsonV| #[trigger] with_call(calls, index, call) == calls.update(i, (index, call)),
    decreases calls.len(),
{
    if i == 0 {
        assert forall|call: JsonV| #[trigger]
            with_call(calls, index, call) == calls.update(0, (index, call)) by {
            assert(seq![(index, call)] + calls.skip(1) =~= calls.update(0, (index, call)));
        }
    } else {
        assert(calls[0].0 < calls[i].0);
        lemma_call_at(calls.skip(1), index, i - 1);
        assert forall|call: JsonV| #[trigger]
            with_call(calls, index, call) == calls.update(i, (index, call)) by {
            assert(with_call(calls.skip(1), index, call) == calls.skip(1).update(
                i - 1,
                (index, call),
            ));
            assert(seq![calls[0]] + calls.skip(1).update(i - 1, (index, call)) =~= calls.update(
                i,
                (index, call),
            ));
        }
    }
}

proof fn lemma_no_call(calls: Seq<(int, JsonV)>, index: int, i: int)
    requires
        in_places(calls),
        0 <= i <= calls.len(),
        forall|k: int| 0 <= k < i ==> (#[trigger] calls[k]).0 < index,
        i < calls.len() ==> calls[i].0 > index,
    ensures
        call_at(calls, index) is None,
        forall|call: JsonV| #[trigger]
            with_call(calls, index, call) == calls.insert(i, (index, call)),
    decreases calls.len(),
{
    if i == 0 {
        lemma_none_above(calls, index);
        assert forall|call: JsonV| #[trigger]
            with_call(calls, index, call) == calls.insert(0, (index, call)) by {
            if calls.len() == 0 {
                assert(seq![(index, call)] =~= calls.insert(0, (index, call)));
            } else {
                assert(seq![(index, call)] + calls =~= calls.insert(0, (index, call)));
            }
        }
    } else {
        assert(calls[0].0 < index);
        let rest = calls.skip(1);
        assert forall|k: int| 0 <= k < i - 1 implies (#[trigger] rest[k]).0 < index by {
            assert(rest[k] == calls[k + 1]);
        }
        lemma_no_call(rest, index, i - 1);
        assert forall|call: JsonV| #[trigger]
            with_call(calls, index, call) == calls.insert(i, (index, call)) by {
            assert(with_call(rest, index, call) == rest.insert(i - 1, (index, call)));
            assert(seq![calls[0]] + rest.insert(i - 1, (index, call)) =~= calls.insert(
                i,
                (index, call),
            ));
        }
    }
}

proof fn lemma_none_above(calls: Seq<(int, JsonV)>, index: int)
    requires
        in_places(calls),
        calls.len() > 0 ==> calls[0].0 > index,
    ensures
        call_at(calls, index) is None,
    decreases calls.len(),
{
    if calls.len() > 0 {
        let rest = calls.skip(1);
        if rest.len() > 0 {
            assert(calls[0].0 < calls[1].0);
            assert(rest[0] == calls[1]);
        }
        lemma_none_above(rest, index);
    }
}

impl Translator {
    /// Whether the calls stand in the order of their places.
    pub open spec fn wf(&self) -> bool {
        in_places(self@.calls)
    }

    /// An answer of a model that begins now.
    pub fn new(model: &str, now_ms: u64) -> (translator: Self)
        requires
            now_ms <= i64::MAX,
        ensures
            translator.wf(),
            translator@ == (AnswerV {
                id: "chatcmpl-"@ + text::decimal(now_ms as nat),
                created: now_ms as int / 1000,
                model: model@,
                role_sent: false,
                usage: None,
                finish: None,
                content: Seq::empty(),
                reasoning: Seq::empty(),
                calls: Seq::empty(),
            }),
    {
        let mut id = text::owned("chatcmpl-");
        id.append(text::decimal_text(now_ms).as_str());
        let tool_calls: Vec<(i64, Json)> = Vec::new();
        assert(calls_view(tool_calls@) =~= Seq::empty());
        Translator {
            id,
            created: (now_ms / 1000) as i64,
            model: text::owned(model),
            role_sent: false,
            usage: None,
            finish_reason: None,
            content: String::new(),
            reasoning: String::new(),
            tool_calls,
        }
    }

    /// A step of the answer, as a client gets it.
    fn chunk(&self, delta: Json, finish: Option<&str>) -> (frame: Json)
        ensures
            frame@ == chunk_of(self@, delta@, json::opt_text(finish)),
    {
        reveal(chunk_of);
        let mut choice = Json::object();
        choice.put("index", Json::number(0));
        choice.put("delta", delta);
        if let Some(finish) = finish {
            choice.put("finish_reason", Json::text(finish));
        }
        let mut choices: Vec<Json> = Vec::new();
        proof {
            json::lemma_list_empty(choices@);
            json::lemma_list_push(choices@, choice);
            assert(Seq::<JsonV>::empty().push(choice@) =~= seq![choice@]);
        }
        choices.push(choice);
        let mut frame = Json::object();
        frame.put("id", Json::text(self.id.as_str()));
        frame.put("object", Json::text("chat.completion.chunk"));
        frame.put("created", Json::number(self.created));
        frame.put("model", Json::text(self.model.as_str()));
        frame.put("choices", Json::list(choices));
        frame
    }

    /// Appends the first step of the answer, where it is still due.
    fn ensure_role(&mut self, frames: &mut Vec<Json>)
        ensures
            final(self)@ == (AnswerV { role_sent: true, ..old(self)@ }),
            json::list_view(final(frames)@) == json::list_view(old(frames)@)
                + old(self)@.opened(),
    {
        if self.role_sent {
            assert(json::list_view(frames@) + Seq::<JsonV>::empty() =~= json::list_view(frames@));
            return;
        }
        let mut delta = Json::object();
        delta.put("role", Json::text("assistant"));
        delta.put("content", Json::Text(String::new()));
        assert(delta@ == role_delta());
        let frame = self.chunk(delta, None);
        self.role_sent = true;
        proof {
            json::lemma_list_push(frames@, frame);
            assert(json::list_view(frames@) + seq![frame@] =~= json::list_view(frames@).push(
                frame@,
            ));
        }
        frames.push(frame);
    }

    /// Joins a fragment to its call.
    fn merge_fragment(&mut self, fragment: &Json)
        requires
            old(self).wf(),
        ensures
            final(self).wf(),
            final(self)@ == (AnswerV {
                calls: with_fragment(old(self)@.calls, fragment@),
                ..old(self)@
            }),
    {
        if !fragment.is_object() {
            return;
        }
        let index: i64 = match fragment.get("index") {
            Some(value) => match value.as_int() {
                Some(n) => n,
                None => 0,
            },
            None => 0,
        };
        let ghost calls = self@.calls;
        let mut i: usize = 0;
        while i < self.tool_calls.len() && self.tool_calls[i].0 < index
            invariant
                calls == self@.calls,
                in_places(calls),
                i <= self.tool_calls.len(),
                forall|k: int| 0 <= k < i ==> (#[trigger] calls[k]).0 < index,
            decreases self.tool_calls.len() - i,
        {
            assert(calls[i as int].0 == self.tool_calls@[i as int].0);
            i += 1;
        }
        if i < self.tool_calls.len() && self.tool_calls[i].0 == index {
            let known = self.tool_calls[i].1.clone();
            assert(calls[i as int] == (index as int, known@));
            let call = join_call(known, fragment);
            proof {
                lemma_call_at(calls, index as int, i as int);
            }
            let ghost joined = call@;
            self.tool_calls.set(i, (index, call));
            assert(self@.calls =~= calls.update(i as int, (index as int, joined)));
        } else {
            let mut first = Json::object();
            first.put("index", Json::number(index));
            let call = join_call(first, fragment);
            proof {
                if i < self.tool_calls@.len() {
                    assert(calls[i as int].0 == self.tool_calls@[i as int].0);
                }
                lemma_no_call(calls, index as int, i as int);
            }
            let ghost joined = call@;
            self.tool_calls.insert(i, (index, call));
            assert(self@.calls =~= calls.insert(i as int, (index as int, joined)));
            proof {
                let now = self@.calls;
                assert forall|a: int, b: int| 0 <= a < b < now.len() implies (#[trigger] now[a]).0
                    < (#[trigger] now[b]).0 by {
                    if b < i {
                        assert(now[a] == calls[a] && now[b] == calls[b]);
                    } else if b == i {
                        assert(now[a] == calls[a]);
                    } else if a < i {
                        assert(now[a] == calls[a] && now[b] == calls[b - 1]);
                        assert(calls[a].0 < index);
                        if b - 1 > i {
                            assert(calls[i as int].0 < calls[b - 1].0);
                        }
                    } else if a == i {
                        assert(now[b] == calls[b - 1]);
                        if b - 1 > i {
                            assert(calls[i as int].0 < calls[b - 1].0);
                        }
                    } else {
                        assert(now[a] == calls[a - 1] && now[b] == calls[b - 1]);
                    }
                }
            }
        }
    }

    /// Joins fragments to their calls.
    fn merge_tool_calls(&mut self, payload: &Json)
        requires
            old(self).wf(),
        ensures
            final(self).wf(),
            final(self)@ == (AnswerV {
                calls: with_fragments(old(self)@.calls, fragments_in(payload@)),
                ..old(self)@
            }),
    {
        let items = match payload.list_at("tool_calls") {
            Some(items) => items,
            None => return,
        };
        let ghost start = self@;
        let ghost all = json::list_view(items@);
        assert(all.take(0) =~= Seq::empty());
        let mut i: usize = 0;
        while i < items.len()
            invariant
                all == json::list_view(items@),
                i <= items.len(),
                self.wf(),
                self@ == (AnswerV {
                    calls: with_fragments(start.calls, all.take(i as int)),
                    ..start
                }),
            decreases items.len() - i,
        {
            assert(all.take(i as int + 1).drop_last() =~= all.take(i as int));
            assert(all.take(i as int + 1).last() == items@[i as int]@);
            self.merge_fragment(&items[i]);
            i += 1;
        }
        assert(all.take(all.len() as int) =~= all);
    }

    /// Takes an event in: the steps that it gives, or the error that it reports.
    pub fn consume(&mut self, event: SoloEvent) -> (outcome: Result<Vec<Json>, GatewayError>)
        requires
            old(self).wf(),
        ensures
            final(self).wf(),
            match old(self)@.after(event@) {
                Ok(step) => outcome is Ok && final(self)@ == step.0 && json::list_view(
                    outcome->Ok_0@,
                ) == step.1,
                Err(e) => outcome is Err && outcome->Err_0@ == e && final(self)@ == old(self)@,
            },
    {
        let mut frames: Vec<Json> = Vec::new();
        proof {
            json::lemma_list_empty(frames@);
        }
        let kind = event.kind.as_str();
        if text::same(kind, "output") {
            let ghost start = self@;
            let response = entry_text(&event.payload, "response");
            let reasoning = entry_text(&event.payload, "reasoning_content");
            self.content.append(response.as_str());
            self.reasoning.append(reasoning.as_str());
            self.merge_tool_calls(&event.payload);
            let (delta, more) = make_delta(&event.payload, response, reasoning);
            if more {
                proof {
                    reveal(chunk_of);
                }
                self.ensure_role(&mut frames);
                let frame = self.chunk(delta, None);
                proof {
                    json::lemma_list_push(frames@, frame);
                    assert(Seq::<JsonV>::empty() + start.opened() =~= start.opened());
                }
                frames.push(frame);
            }
        } else if text::same(kind, "token_usage") {
            self.usage = Some(event.payload.clone());
        } else if text::same(kind, "done") {
            let finish = match event.payload.text_at("finish_reason") {
                Some(s) => text::owned(s),
                None => text::owned("stop"),
            };
            self.finish_reason = Some(finish);
        } else if text::same(kind, "error") {
            let code: i64 = match event.payload.get("code") {
                Some(value) => match value.as_int() {
                    Some(n) => n,
                    None => 0,
                },
                None => 0,
            };
            let message = match event.payload.text_at("message") {
                Some(s) => text::owned(s),
                None => text::owned("未知错误"),
            };
            return Err((SoloError { code, message }).gateway_error());
        }
        Ok(frames)
    }

    /// How the answer ended.
    fn ending(&self) -> (finish: String)
        ensures
            finish@ == self@.ending(),
    {
        match &self.finish_reason {
            Some(finish) => text::owned(finish.as_str()),
            None => text::owned("stop"),
        }
    }

    /// The last steps of the answer.
    pub fn finish_frames(&mut self) -> (frames: Vec<Json>)
        requires
            old(self).wf(),
        ensures
            final(self).wf(),
            final(self)@ == (AnswerV { role_sent: true, ..old(self)@ }),
            json::list_view(frames@) == old(self)@.closing(),
    {
        let mut frames: Vec<Json> = Vec::new();
        let ghost start = self@;
        proof {
            json::lemma_list_empty(frames@);
            reveal(chunk_of);
        }
        self.ensure_role(&mut frames);
        assert(Seq::<JsonV>::empty() + start.opened() =~= start.opened());
        let finish = self.ending();
        let last = self.chunk(Json::object(), Some(finish.as_str()));
        proof {
            json::lemma_list_push(frames@, last);
        }
        frames.push(last);
        if let Some(usage) = &self.usage {
            let mut frame = self.chunk(Json::object(), None);
            frame.put("usage", usage.clone());
            proof {
                json::lemma_list_push(frames@, frame);
            }
            frames.push(frame);
        }
        frames
    }

    /// The calls of the whole answer.
    fn calls(&self) -> (calls: Vec<Json>)
        ensures
            json::list_view(calls@) == self@.calls.map_values(|c: (int, JsonV)| c.1),
    {
        let ghost wanted = self@.calls.map_values(|c: (int, JsonV)| c.1);
        let mut calls: Vec<Json> = Vec::new();
        proof {
            json::lemma_list_empty(calls@);
            assert(wanted.take(0) =~= Seq::empty());
        }
        let mut i: usize = 0;
        while i < self.tool_calls.len()
            invariant
                wanted == self@.calls.map_values(|c: (int, JsonV)| c.1),
                i <= self.tool_calls.len(),
                json::list_view(calls@) == wanted.take(i as int),
            decreases self.tool_calls.len() - i,
        {
            let copy = self.tool_calls[i].1.clone();
            proof {
                json::lemma_list_push(calls@, copy);
                assert(wanted.take(i as int + 1) =~= wanted.take(i as int).push(
                    wanted[i as int],
                ));
            }
            calls.push(copy);
            i += 1;
        }
        assert(wanted.take(wanted.len() as int) =~= wanted);
        calls
    }

    /// The whole answer.
    pub fn completion(&self) -> (value: Json)
        ensures
            value@ == self@.whole(),
    {
        let mut message = Json::object();
        message.put("role", Json::text("assistant"));
        message.put("content", Json::text(self.content.as_str()));
        if !self.reasoning.as_str().is_empty() {
            message.put("reasoning_content", Json::text(self.reasoning.as_str()));
        }
        if self.tool_calls.len() > 0 {
            message.put("tool_calls", Json::list(self.calls()));
        }
        let mut choice = Json::object();
        choice.put("index", Json::number(0));
        choice.put("message", message);
        choice.put("finish_reason", Json::Text(self.ending()));
        let mut choices: Vec<Json> = Vec::new();
        proof {
            json::lemma_list_empty(choices@);
            json::lemma_list_push(choices@, choice);
            assert(Seq::<JsonV>::empty().push(choice@) =~= seq![choice@]);
        }
        choices.push(choice);
        let mut value = Json::object();
        value.put("id", Json::text(self.id.as_str()));
        value.put("object", Json::text("chat.completion"));
        value.put("created", Json::number(self.created));
        value.put("model", Json::text(self.model.as_str()));
        value.put("choices", Json::list(choices));
        value.put(
            "usage",
            match &self.usage {
                Some(usage) => usage.clone(),
                None => Json::Null,
            },
        );
        value
    }
}

/// The fragments of an event as a client gets them; nothing where it has none.
fn tool_call_delta(payload: &Json) -> (value: Option<Json>)
    ensures
        match value {
            Some(v) => fragments_in(payload@).len() > 0 && v@ == JsonV::Arr(
                fragments_out(fragments_in(payload@)),
            ),
            None => fragments_in(payload@).len() == 0,
        },
{
    let items = match payload.list_at("tool_calls") {
        Some(items) => items,
        None => return None,
    };
    if items.len() == 0 {
        return None;
    }
    let ghost all = json::list_view(items@);
    assert(all == fragments_in(payload@));
    let mut out: Vec<Json> = Vec::new();
    proof {
        json::lemma_list_empty(out@);
        assert(all.take(0) =~= Seq::empty());
    }
    let mut i: usize = 0;
    while i < items.len()
        invariant
            all == json::list_view(items@),
            i <= items.len(),
            json::list_view(out@) == fragments_out(all.take(i as int)),
        decreases items.len() - i,
    {
        let ghost upto = all.take(i as int + 1);
        assert(upto.drop_last() =~= all.take(i as int));
        assert(upto.last() == items@[i as int]@);
        let item = &items[i];
        if item.is_object() {
            let plain = item.without("namespace").without("partial_arguments");
            let fragment = match item.get("function_call") {
                Some(value) => {
                    let mut renamed = plain.without("function_call");
                    renamed.put("function", value.clone());
                    renamed
                },
                None => plain,
            };
            proof {
                json::lemma_list_push(out@, fragment);
            }
            out.push(fragment);
        }
        i += 1;
    }
    assert(all.take(all.len() as int) =~= all);
    Some(Json::list(out))
}

/// What an event of output adds to the answer, and whether that is anything.
fn make_delta(payload: &Json, response: String, reasoning: String) -> (outcome: (Json, bool))
    requires
        response@ == text_or_empty(payload@.field("response"@)),
        reasoning@ == text_or_empty(payload@.field("reasoning_content"@)),
    ensures
        outcome.0@ == delta_of(payload@),
        outcome.1 == adds(payload@),
{
    let mut more = false;
    let mut delta = Json::object();
    if !response.as_str().is_empty() {
        delta.put("content", Json::Text(response));
        more = true;
    }
    if !reasoning.as_str().is_empty() {
        delta.put("reasoning_content", Json::Text(reasoning));
        more = true;
    }
    if let Some(tools) = tool_call_delta(payload) {
        delta.put("tool_calls", tools);
        more = true;
    }
    (delta, more)
}

/// A step of an answer as the text of an event.
pub open spec fn frame(value: JsonV) -> Seq<char> {
    "data: "@ + json::json_text(value) + "\n\n"@
}

/// A step of an answer as the text of an event.
pub fn sse_frame(value: &Json) -> (content: String)
    ensures
        content@ == frame(value@),
{
    let mut content = text::owned("data: ");
    content.append(json::write_json(value).as_str());
    content.append("\n\n");
    content
}

/// The text of the event that ends an answer.
pub fn sse_done() -> (content: String)
    ensures
        content@ == "data: [DONE]\n\n"@,
{
    text::owned("data: [DONE]\n\n")
}

/// An answer that is being read from its upstream: the steps so far.
#[derive(Debug)]
pub struct Conversation {
    parser: SoloSseParser,
    translator: Translator,
    frames: Vec<Json>,
}

/// What such an answer means.
#[verifier::ext_equal]
pub ghost struct ConversationV {
    pub parser: ParserV,
    pub answer: AnswerV,
    pub frames: Seq<JsonV>,
}

/// What events make of an answer, or the first error that one reports.
pub open spec fn after_events(answer: AnswerV, events: Seq<EventV>) -> Result<
    (AnswerV, Seq<JsonV>),
    ErrorV,
>
    decreases events.len(),
{
    if events.len() == 0 {
        Ok((answer, Seq::empty()))
    } else {
        match after_events(answer, events.drop_last()) {
            Err(e) => Err(e),
            Ok(step) => match step.0.after(events.last()) {
                Err(e) => Err(e),
                Ok(more) => Ok((more.0, step.1 + more.1)),
            },
        }
    }
}

impl View for Conversation {
    type V = ConversationV;

    closed spec fn view(&self) -> ConversationV {
        ConversationV {
            parser: self.parser@,
            answer: self.translator@,
            frames: json::list_view(self.frames@),
        }
    }
}

proof fn lemma_first_error(answer: AnswerV, events: Seq<EventV>, i: int)
    requires
        0 <= i <= events.len(),
        after_events(answer, events.take(i)) is Err,
    ensures
        after_events(answer, events) == after_events(answer, events.take(i)),
    decreases events.len(),
{
    if i == events.len() {
        assert(events.take(i) =~= events);
    } else {
        assert(events.drop_last().take(i) =~= events.take(i));
        lemma_first_error(answer, events.drop_last(), i);
    }
}

impl Conversation {
    /// Whether the answer is in order.
    pub open spec fn wf(&self) -> bool {
        in_places(self@.answer.calls)
    }

    /// An answer of a model that begins now.
    pub fn new(model: &str, now_ms: u64) -> (conversation: Self)
        requires
            now_ms <= i64::MAX,
        ensures
            conversation.wf(),
            conversation@.frames == Seq::<JsonV>::empty(),
            conversation@.parser == (ParserV {
                event: Seq::empty(),
                data: Seq::empty(),
                line: Seq::empty(),
            }),
            conversation@.answer == (AnswerV {
                id: "chatcmpl-"@ + text::decimal(now_ms as nat),
                created: now_ms as int / 1000,
                model: model@,
                role_sent: false,
                usage: None,
                finish: None,
                content: Seq::empty(),
                reasoning: Seq::empty(),
                calls: Seq::empty(),
            }),
    {
        let frames: Vec<Json> = Vec::new();
        proof {
            json::lemma_list_empty(frames@);
        }
        Conversation {
            parser: SoloSseParser::default(),
            translator: Translator::new(model, now_ms),
            frames,
        }
    }

    /// Takes events in.
    fn take(&mut self, events: Vec<SoloEvent>) -> (outcome: Result<(), GatewayError>)
        requires
            old(self).wf(),
        ensures
            final(self).wf(),
            final(self)@.parser == old(self)@.parser,
            match after_events(old(self)@.answer, events_view(events@)) {
                Ok(step) => outcome is Ok && final(self)@.answer == step.0 && final(self)@.frames
                    == old(self)@.frames + step.1,
                Err(e) => outcome is Err && outcome->Err_0@ == e,
            },
    {
        let ghost all = events_view(events@);
        let ghost start = self@;
        assert(all.take(0) =~= Seq::empty());
        assert(start.frames + Seq::<JsonV>::empty() =~= start.frames);
        let mut i: usize = 0;
        while i < events.len()
            invariant
                all == events_view(events@),
                start == old(self)@,
                i <= events.len(),
                self.wf(),
                self@.parser == start.parser,
                after_events(start.answer, all.take(i as int)) is Ok,
                self@.answer == after_events(start.answer, all.take(i as int))->Ok_0.0,
                self@.frames == start.frames + after_events(
                    start.answer,
                    all.take(i as int),
                )->Ok_0.1,
            decreases events.len() - i,
        {
            let ghost upto = all.take(i as int + 1);
            assert(upto.drop_last() =~= all.take(i as int));
            assert(upto.last() == events@[i as int]@);
            let event = SoloEvent {
                kind: text::owned(events[i].kind.as_str()),
                payload: events[i].payload.clone(),
            };
            let ghost known = after_events(start.answer, all.take(i as int))->Ok_0.1;
            let steps = match self.translator.consume(event) {
                Ok(steps) => steps,
                Err(error) => {
                    proof {
                        lemma_first_error(start.answer, all, i as int + 1);
                    }
                    return Err(error);
                },
            };
            let ghost own = json::list_view(steps@);
            let ghost before = json::list_view(self.frames@);
            let mut k: usize = 0;
            assert(before + own.take(0) =~= before);
            while k < steps.len()
                invariant
                    own == json::list_view(steps@),
                    k <= steps.len(),
                    self.parser@ == start.parser,
                    self.translator@ == after_events(start.answer, upto)->Ok_0.0,
                    in_places(self.translator@.calls),
                    json::list_view(self.frames@) == before + own.take(k as int),
                decreases steps.len() - k,
            {
                let copy = steps[k].clone();
                proof {
                    json::lemma_list_push(self.frames@, copy);
                    assert(before + own.take(k as int + 1) =~= (before + own.take(k as int)).push(
                        own[k as int],
                    ));
                }
                self.frames.push(copy);
                k += 1;
            }
            assert(own.take(own.len() as int) =~= own);
            assert((start.frames + known) + own =~= start.frames + (known + own));
            i += 1;
        }
        assert(all.take(all.len() as int) =~= all);
        Ok(())
    }

    /// Takes more of the stream in.
    pub fn push(&mut self, chunk: &[u8]) -> (outcome: Result<(), GatewayError>)
        requires
            old(self).wf(),
        ensures
            final(self).wf(),
            ({
                let (parser, events) = old(self)@.parser.fed(text::lossy_text(chunk@));
                &&& final(self)@.parser == parser
                &&& match after_events(old(self)@.answer, events) {
                    Ok(step) => outcome is Ok && final(self)@.answer == step.0
                        && final(self)@.frames == old(self)@.frames + step.1,
                    Err(e) => outcome is Err && outcome->Err_0@ == e,
                }
            }),
    {
        let events = self.parser.push(chunk);
        self.take(events)
    }

    /// Takes the end of the stream in: all the steps are there now.
    pub fn finish(&mut self) -> (outcome: Result<(), GatewayError>)
        requires
            old(self).wf(),
        ensures
            final(self).wf(),
            ({
                let (parser, events) = old(self)@.parser.ended();
                match after_events(old(self)@.answer, events) {
                    Ok(step) => outcome is Ok && final(self)@ == (ConversationV {
                        parser,
                        answer: AnswerV { role_sent: true, ..step.0 },
                        frames: old(self)@.frames + step.1 + step.0.closing(),
                    }),
                    Err(e) => outcome is Err && outcome->Err_0@ == e,
                }
            }),
    {
        let events = self.parser.finish();
        if let Err(error) = self.take(events) {
            return Err(error);
        }
        let ghost before = self@;
        let last = self.translator.finish_frames();
        let ghost own = json::list_view(last@);
        assert(before.frames + own.take(0) =~= before.frames);
        let mut k: usize = 0;
        while k < last.len()
            invariant
                own == json::list_view(last@),
                k <= last.len(),
                self.parser@ == before.parser,
                self.translator@ == (AnswerV { role_sent: true, ..before.answer }),
                in_places(self.translator@.calls),
                json::list_view(self.frames@) == before.frames + own.take(k as int),
            decreases last.len() - k,
        {
            let copy = last[k].clone();
            proof {
                json::lemma_list_push(self.frames@, copy);
                assert(before.frames + own.take(k as int + 1) =~= (before.frames + own.take(
                    k as int,
                )).push(own[k as int]));
            }
            self.frames.push(copy);
            k += 1;
        }
        assert(own.take(own.len() as int) =~= own);
        Ok(())
    }

    /// The steps of the answer.
    pub fn frames(&self) -> (frames: &Vec<Json>)
        ensures
            json::list_view(frames@) == self@.frames,
    {
        &self.frames
    }

    /// The whole answer.
    pub fn completion(&self) -> (value: Json)
        ensures
            value@ == self@.answer.whole(),
    {
        self.translator.completion()
    }
}

/// What a step adds to a part of the answer.
pub open spec fn added(step: JsonV, key: Seq<char>) -> Seq<char> {
    match step.field("choices"@).as_list() {
        Some(choices) => if choices.len() > 0 {
            text_or_empty(choices[0].field("delta"@).field(key))
        } else {
            Seq::empty()
        },
        None => Seq::empty(),
    }
}

/// What steps add to a part of the answer.
pub open spec fn all_added(steps: Seq<JsonV>, key: Seq<char>) -> Seq<char>
    decreases steps.len(),
{
    if steps.len() == 0 {
        Seq::empty()
    } else {
        all_added(steps.drop_last(), key) + added(steps.last(), key)
    }
}

proof fn lemma_frame_keys()
    ensures
        "choices"@ != "usage"@,
        "delta"@ != "index"@ && "delta"@ != "finish_reason"@,
        "content"@ != "role"@ && "content"@ != "reasoning_content"@ && "content"@ != "tool_calls"@,
        "reasoning_content"@ != "role"@ && "reasoning_content"@ != "tool_calls"@,
{
    reveal_strlit("choices");
    reveal_strlit("usage");
    reveal_strlit("delta");
    reveal_strlit("index");
    reveal_strlit("finish_reason");
    reveal_strlit("content");
    reveal_strlit("role");
    reveal_strlit("reasoning_content");
    reveal_strlit("tool_calls");
    assert("choices"@.len() == 7 && "usage"@.len() == 5);
    assert("delta"@.len() == 5 && "index"@.len() == 5 && "finish_reason"@.len() == 13);
    assert("delta"@[0] == 'd' && "index"@[0] == 'i');
    assert("content"@.len() == 7 && "role"@.len() == 4 && "reasoning_content"@.len() == 17);
    assert("tool_calls"@.len() == 10);
}

proof fn lemma_added(state: AnswerV, delta: JsonV, finish: Option<Seq<char>>, key: Seq<char>)
    ensures
        added(chunk_of(state, delta, finish), key) == text_or_empty(delta.field(key)),
{
    reveal(chunk_of);
    lemma_frame_keys();
}

proof fn lemma_added_push(steps: Seq<JsonV>, step: JsonV, key: Seq<char>)
    ensures
        all_added(steps.push(step), key) == all_added(steps, key) + added(step, key),
{
    assert(steps.push(step).drop_last() =~= steps);
}

proof fn lemma_added_join(first: Seq<JsonV>, second: Seq<JsonV>, key: Seq<char>)
    ensures
        all_added(first + second, key) == all_added(first, key) + all_added(second, key),
    decreases second.len(),
{
    if second.len() == 0 {
        assert(first + second =~= first);
        assert(all_added(first, key) + Seq::<char>::empty() =~= all_added(first, key));
    } else {
        lemma_added_join(first, second.drop_last(), key);
        assert((first + second).drop_last() =~= first + second.drop_last());
        assert(all_added(first, key) + (all_added(second.drop_last(), key) + added(
            second.last(),
            key,
        )) =~= (all_added(first, key) + all_added(second.drop_last(), key)) + added(
            second.last(),
            key,
        ));
    }
}

proof fn lemma_opened_adds_nothing(state: AnswerV)
    ensures
        all_added(state.opened(), "content"@) == Seq::<char>::empty(),
        all_added(state.opened(), "reasoning_content"@) == Seq::<char>::empty(),
{
    if !state.role_sent {
        lemma_frame_keys();
        lemma_added(state, role_delta(), None, "content"@);
        lemma_added(state, role_delta(), None, "reasoning_content"@);
        let step = chunk_of(state, role_delta(), None);
        assert(state.opened() =~= Seq::empty().push(step));
        lemma_added_push(Seq::empty(), step, "content"@);
        lemma_added_push(Seq::empty(), step, "reasoning_content"@);
        assert(Seq::<char>::empty() + Seq::<char>::empty() =~= Seq::empty());
    }
}

/// What one event adds to the whole answer, its steps add to the streamed one.
proof fn lemma_step_agrees(state: AnswerV, event: EventV)
    requires
        state.after(event) is Ok,
    ensures
        ({
            let (next, steps) = state.after(event)->Ok_0;
            &&& next.content == state.content + all_added(steps, "content"@)
            &&& next.reasoning == state.reasoning + all_added(steps, "reasoning_content"@)
        }),
{
    let (next, steps) = state.after(event)->Ok_0;
    assert(state.content + Seq::<char>::empty() =~= state.content);
    assert(state.reasoning + Seq::<char>::empty() =~= state.reasoning);
    if event.kind == "output"@ && adds(event.payload) {
        lemma_frame_keys();
        lemma_opened_adds_nothing(state);
        let delta = delta_of(event.payload);
        let step = chunk_of(state, delta, None);
        lemma_added(state, delta, None, "content"@);
        lemma_added(state, delta, None, "reasoning_content"@);
        lemma_added_push(state.opened(), step, "content"@);
        lemma_added_push(state.opened(), step, "reasoning_content"@);
        let response = text_or_empty(event.payload.field("response"@));
        let reasoning = text_or_empty(event.payload.field("reasoning_content"@));
        assert(text_or_empty(delta.field("content"@)) =~= response);
        assert(text_or_empty(delta.field("reasoning_content"@)) =~= reasoning);
        assert(Seq::<char>::empty() + response =~= response);
        assert(Seq::<char>::empty() + reasoning =~= reasoning);
    } else if event.kind == "output"@ {
        let response = text_or_empty(event.payload.field("response"@));
        let reasoning = text_or_empty(event.payload.field("reasoning_content"@));
        assert(response =~= Seq::empty());
        assert(reasoning =~= Seq::empty());
    }
}

/// The streamed answer and the whole one say the same: what the steps of any
/// events add up to, the whole answer has gained by them.
pub proof fn stream_and_whole_agree(state: AnswerV, events: Seq<EventV>)
    requires
        after_events(state, events) is Ok,
    ensures
        ({
            let (next, steps) = after_events(state, events)->Ok_0;
            &&& next.content == state.content + all_added(steps, "content"@)
            &&& next.reasoning == state.reasoning + all_added(steps, "reasoning_content"@)
        }),
    decreases events.len(),
{
    if events.len() == 0 {
        assert(state.content + Seq::<char>::empty() =~= state.content);
        assert(state.reasoning + Seq::<char>::empty() =~= state.reasoning);
    } else {
        stream_and_whole_agree(state, events.drop_last());
        let (middle, known) = after_events(state, events.drop_last())->Ok_0;
        lemma_step_agrees(middle, events.last());
        let (next, more) = middle.after(events.last())->Ok_0;
        lemma_added_join(known, more, "content"@);
        lemma_added_join(known, more, "reasoning_content"@);
        assert((state.content + all_added(known, "content"@)) + all_added(more, "content"@)
            =~= state.content + (all_added(known, "content"@) + all_added(more, "content"@)));
        assert((state.reasoning + all_added(known, "reasoning_content"@)) + all_added(
            more,
            "reasoning_content"@,
        ) =~= state.reasoning + (all_added(known, "reasoning_content"@) + all_added(
            more,
            "reasoning_content"@,
        )));
    }
}

/// The last steps of an answer add nothing to what it says.
pub proof fn closing_adds_nothing(state: AnswerV)
    ensures
        all_added(state.closing(), "content"@) == Seq::<char>::empty(),
        all_added(state.closing(), "reasoning_content"@) == Seq::<char>::empty(),
{
    lemma_frame_keys();
    lemma_opened_adds_nothing(state);
    let last = chunk_of(state, JsonV::object(), Some(state.ending()));
    lemma_added(state, JsonV::object(), Some(state.ending()), "content"@);
    lemma_added(state, JsonV::object(), Some(state.ending()), "reasoning_content"@);
    lemma_added_push(state.opened(), last, "content"@);
    lemma_added_push(state.opened(), last, "reasoning_content"@);
    assert(Seq::<char>::empty() + Seq::<char>::empty() =~= Seq::empty());
    if let Some(usage) = state.usage {
        let plain = chunk_of(state, JsonV::object(), None);
        let frame = plain.put("usage"@, usage);
        lemma_added(state, JsonV::object(), None, "content"@);
        lemma_added(state, JsonV::object(), None, "reasoning_content"@);
        assert(frame.field("choices"@) == plain.field("choices"@)) by {
            reveal(chunk_of);
        }
        lemma_added_push(state.opened().push(last), frame, "content"@);
        lemma_added_push(state.opened().push(last), frame, "reasoning_content"@);
    }
}

} // verus!
