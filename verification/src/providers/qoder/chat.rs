//! A chat with Qoder: the request, and the answer turned into what a client of
//! chat completions expects, in a stream or at once.
use super::auth;
use super::cosy;
use super::cosy::CosyIdentity;
use super::credentials::{Credentials, CredentialsV};
use super::models;
use super::models::{CatalogState, CatalogV};
use super::protocol;
use super::protocol::{AskV, FreshIdsV, ThinkingChoice, UpstreamAsk, UpstreamKind};
use super::stream;
use super::stream::{PieceV, ThinkingParser, ThinkingPiece, ThinkingV};
use crate::digest;
use crate::errors::{ErrorV, GatewayError};
use crate::json;
use crate::json::{Json, JsonV};
use crate::proxies;
use crate::proxies::{ClashSnapshot, ResolutionV, ResolvedProxy};
use crate::text;
use crate::upstream::request;
use crate::urls;
use vstd::prelude::*;
use vstd::string::*;
use vstd::utf8::*;

verus! {

/// A step of the answer.
#[derive(Debug)]
pub enum TranslatedDelta {
    Content(String),
    Reasoning(String),
    ToolCall {
        index: i64,
        id: Option<String>,
        name: Option<String>,
        arguments: Option<String>,
    },
}

/// What a step means.
#[verifier::ext_equal]
pub ghost enum DeltaV {
    Content(Seq<char>),
    Reasoning(Seq<char>),
    ToolCall {
        index: int,
        id: Option<Seq<char>>,
        name: Option<Seq<char>>,
        arguments: Option<Seq<char>>,
    },
}

impl View for TranslatedDelta {
    type V = DeltaV;

    open spec fn view(&self) -> DeltaV {
        match self {
            TranslatedDelta::Content(s) => DeltaV::Content(s@),
            TranslatedDelta::Reasoning(s) => DeltaV::Reasoning(s@),
            TranslatedDelta::ToolCall { index, id, name, arguments } => DeltaV::ToolCall {
                index: *index as int,
                id: json::owned_text(*id),
                name: json::owned_text(*name),
                arguments: json::owned_text(*arguments),
            },
        }
    }
}

/// What a list of steps means.
pub open spec fn delta_views(deltas: Seq<TranslatedDelta>) -> Seq<DeltaV> {
    deltas.map_values(|delta: TranslatedDelta| delta@)
}

/// What a list of steps means after one more.
proof fn lemma_delta_push(deltas: Seq<TranslatedDelta>, delta: TranslatedDelta)
    ensures
        delta_views(deltas.push(delta)) == delta_views(deltas).push(delta@),
{
    assert(delta_views(deltas.push(delta)) =~= delta_views(deltas).push(delta@));
}

/// A tool call put together from its fragments.
#[derive(Debug)]
pub struct ToolCallState {
    pub index: i64,
    pub id: String,
    pub name: String,
    pub arguments: String,
}

/// What a tool call means.
#[verifier::ext_equal]
pub ghost struct ToolV {
    pub index: int,
    pub id: Seq<char>,
    pub name: Seq<char>,
    pub arguments: Seq<char>,
}

impl View for ToolCallState {
    type V = ToolV;

    open spec fn view(&self) -> ToolV {
        ToolV {
            index: self.index as int,
            id: self.id@,
            name: self.name@,
            arguments: self.arguments@,
        }
    }
}

/// What a list of tool calls means.
pub open spec fn tool_views(tools: Seq<ToolCallState>) -> Seq<ToolV> {
    tools.map_values(|tool: ToolCallState| tool@)
}

/// A fragment of a tool call.
pub open spec fn fragment(call: JsonV) -> DeltaV {
    DeltaV::ToolCall {
        index: match call.field("index"@).as_int() {
            Some(n) => n,
            None => 0,
        },
        id: call.text_at("id"@),
        name: text_in(call.at("function"@, "name"@)),
        arguments: text_in(call.at("function"@, "arguments"@)),
    }
}

/// The text of an optional value.
pub open spec fn text_in(value: Option<JsonV>) -> Option<Seq<char>> {
    match value {
        Some(v) => v.as_text(),
        None => None,
    }
}

/// A text, replaced by another that is there and not empty.
pub open spec fn replaced(known: Seq<char>, by: Option<Seq<char>>) -> Seq<char> {
    match by {
        Some(s) => if s.len() > 0 {
            s
        } else {
            known
        },
        None => known,
    }
}

/// A tool call after one more fragment: id and name replace, arguments append.
pub open spec fn grown(tool: ToolV, piece: DeltaV) -> ToolV {
    match piece {
        DeltaV::ToolCall { index, id, name, arguments } => ToolV {
            index: tool.index,
            id: replaced(tool.id, id),
            name: replaced(tool.name, name),
            arguments: tool.arguments + protocol::or_empty(arguments),
        },
        _ => tool,
    }
}

/// A tool call of which nothing is known yet.
pub open spec fn blank_tool(index: int) -> ToolV {
    ToolV { index, id: Seq::empty(), name: Seq::empty(), arguments: Seq::empty() }
}

/// Tool calls, in the order of their index, after one more fragment.
pub open spec fn with_fragment(tools: Seq<ToolV>, piece: DeltaV) -> Seq<ToolV>
    decreases tools.len(),
{
    let index = match piece {
        DeltaV::ToolCall { index, .. } => index,
        _ => 0,
    };
    if tools.len() == 0 || tools.last().index < index {
        tools.push(grown(blank_tool(index), piece))
    } else if tools.last().index == index {
        tools.drop_last().push(grown(tools.last(), piece))
    } else {
        with_fragment(tools.drop_last(), piece).push(tools.last())
    }
}

/// The answer so far.
#[verifier::ext_equal]
pub ghost struct TranslatorV {
    pub response_id: Seq<char>,
    pub created: int,
    pub model_name: Seq<char>,
    pub model_reported: Option<Seq<char>>,
    pub tools: Seq<ToolV>,
    pub role_sent: bool,
    pub parser: Option<ThinkingV>,
    pub usage: Option<JsonV>,
    pub finish_reason: Option<Seq<char>>,
    pub content: Seq<char>,
    pub reasoning: Seq<char>,
    pub chunk_count: usize,
}

/// The answer so far and the steps that led here.
pub ghost struct Progress {
    pub state: TranslatorV,
    pub out: Seq<DeltaV>,
}

impl Progress {
    /// After a piece of answer.
    pub open spec fn answered(self, said: Seq<char>) -> Progress {
        Progress {
            state: TranslatorV { content: self.state.content + said, ..self.state },
            out: self.out.push(DeltaV::Content(said)),
        }
    }

    /// After a piece of thinking.
    pub open spec fn thought(self, said: Seq<char>) -> Progress {
        Progress {
            state: TranslatorV { reasoning: self.state.reasoning + said, ..self.state },
            out: self.out.push(DeltaV::Reasoning(said)),
        }
    }

    /// After pieces of either.
    pub open spec fn pieces(self, pieces: Seq<PieceV>) -> Progress
        decreases pieces.len(),
    {
        if pieces.len() == 0 {
            self
        } else {
            let known = self.pieces(pieces.drop_last());
            if pieces.last().is_thinking {
                known.thought(pieces.last().text)
            } else {
                known.answered(pieces.last().text)
            }
        }
    }

    /// After fragments of tool calls.
    pub open spec fn calls(self, calls: Seq<JsonV>) -> Progress
        decreases calls.len(),
    {
        if calls.len() == 0 {
            self
        } else {
            let known = self.calls(calls.drop_last());
            let piece = fragment(calls.last());
            Progress {
                state: TranslatorV {
                    tools: with_fragment(known.state.tools, piece),
                    ..known.state
                },
                out: known.out.push(piece),
            }
        }
    }

    /// After what a step says of its thinking, tags taken off.
    pub open spec fn reasoning_of(self, delta: JsonV) -> Progress {
        match delta.text_at("reasoning_content"@) {
            Some(s) => if stream::without_tags(s, 4).len() > 0 {
                self.thought(stream::without_tags(s, 4))
            } else {
                self
            },
            None => self,
        }
    }

    /// After what a step says of its answer, thinking told apart where the model
    /// thinks.
    pub open spec fn content_of(self, delta: JsonV) -> Progress {
        match delta.text_at("content"@) {
            Some(s) => if s.len() == 0 {
                self
            } else {
                match self.state.parser {
                    Some(parser) => {
                        let fed = parser.pushed(s);
                        (Progress {
                            state: TranslatorV {
                                parser: Some(ThinkingV { out: Seq::empty(), ..fed }),
                                ..self.state
                            },
                            ..self
                        }).pieces(fed.out)
                    },
                    None => self.answered(s),
                }
            },
            None => self,
        }
    }

    /// After what a step says of tool calls.
    pub open spec fn calls_of(self, delta: JsonV) -> Progress {
        match delta.field("tool_calls"@).as_list() {
            Some(calls) => self.calls(calls),
            None => self,
        }
    }
}

/// The first choice of a chunk.
pub open spec fn first_choice(chunk: JsonV) -> Option<JsonV> {
    match chunk.field("choices"@).as_list() {
        Some(choices) => if choices.len() > 0 {
            Some(choices[0])
        } else {
            None
        },
        None => None,
    }
}

/// The usage that a chunk states.
pub open spec fn usage_in(chunk: JsonV) -> Option<JsonV> {
    match chunk.get("usage"@) {
        Some(JsonV::Obj(map)) => Some(JsonV::Obj(map)),
        _ => None,
    }
}

impl TranslatorV {
    /// With one more chunk counted. The count stops at what its type can hold.
    pub open spec fn counted(self) -> TranslatorV {
        TranslatorV {
            chunk_count: if self.chunk_count < usize::MAX {
                (self.chunk_count + 1) as usize
            } else {
                self.chunk_count
            },
            ..self
        }
    }

    /// With the model that a chunk names.
    pub open spec fn with_model(self, chunk: JsonV, catalog: CatalogV) -> TranslatorV {
        match chunk.text_at("model"@) {
            Some(name) => if name.len() > 0 {
                TranslatorV { model_reported: protocol::model_back(catalog, name), ..self }
            } else {
                self
            },
            None => self,
        }
    }

    /// With the usage that a chunk states; the last one counts.
    pub open spec fn with_usage(self, chunk: JsonV) -> TranslatorV {
        match usage_in(chunk) {
            Some(usage) => TranslatorV { usage: Some(usage), ..self },
            None => self,
        }
    }

    /// With the reason to end that a choice gives; the last one counts.
    pub open spec fn with_finish(self, choice: JsonV) -> TranslatorV {
        match choice.text_at("finish_reason"@) {
            Some(reason) => if reason.len() > 0 {
                TranslatorV { finish_reason: Some(reason), ..self }
            } else {
                self
            },
            None => self,
        }
    }

    /// After a chunk of the upstream.
    pub open spec fn consumed(self, chunk: JsonV, catalog: CatalogV) -> Progress {
        let known = self.counted().with_model(chunk, catalog).with_usage(chunk);
        match first_choice(chunk) {
            None => Progress { state: known, out: Seq::empty() },
            Some(choice) => {
                let start = Progress { state: known.with_finish(choice), out: Seq::empty() };
                match choice.get("delta"@) {
                    None => start,
                    Some(delta) => start.reasoning_of(delta).content_of(delta).calls_of(delta),
                }
            },
        }
    }

    /// After the end of the upstream's answer.
    pub open spec fn finished(self) -> Progress {
        match self.parser {
            None => Progress { state: self, out: Seq::empty() },
            Some(parser) => {
                let last = parser.ended();
                (Progress {
                    state: TranslatorV {
                        parser: Some(ThinkingV { out: Seq::empty(), ..last }),
                        ..self
                    },
                    out: Seq::empty(),
                }).pieces(last.out)
            },
        }
    }

    /// The model to name to the client.
    pub open spec fn model(self) -> Seq<char> {
        match self.model_reported {
            Some(name) => name,
            None => self.model_name,
        }
    }
}

/// Turns the upstream's answer into steps for the client, and keeps the whole of
/// it for a client that wants it at once.
pub struct Translator {
    pub response_id: String,
    created: i64,
    model_name: String,
    model_reported: Option<String>,
    tool_state: Vec<ToolCallState>,
    role_sent: bool,
    parser: Option<ThinkingParser>,
    pub usage: Option<Json>,
    pub finish_reason: Option<String>,
    pub content: String,
    pub reasoning: String,
    /// How many chunks have been taken in.
    pub chunk_count: usize,
}

/// What an optional parser means.
pub open spec fn parser_view(parser: Option<ThinkingParser>) -> Option<ThinkingV> {
    match parser {
        Some(p) => Some(p@),
        None => None,
    }
}

impl View for Translator {
    type V = TranslatorV;

    closed spec fn view(&self) -> TranslatorV {
        TranslatorV {
            response_id: self.response_id@,
            created: self.created as int,
            model_name: self.model_name@,
            model_reported: json::owned_text(self.model_reported),
            tools: tool_views(self.tool_state@),
            role_sent: self.role_sent,
            parser: parser_view(self.parser),
            usage: json::owned_view(self.usage),
            finish_reason: json::owned_text(self.finish_reason),
            content: self.content@,
            reasoning: self.reasoning@,
            chunk_count: self.chunk_count,
        }
    }
}

/// The fragment of a tool call.
fn read_fragment(call: &Json) -> (piece: TranslatedDelta)
    ensures
        piece@ == fragment(call@),
        piece is ToolCall,
{
    let index: i64 = match call.get("index") {
        Some(value) => match value.as_int() {
            Some(n) => n,
            None => 0,
        },
        None => 0,
    };
    TranslatedDelta::ToolCall {
        index,
        id: own_text(call.text_at("id")),
        name: own_text(text_of(call.at("function", "name"))),
        arguments: own_text(text_of(call.at("function", "arguments"))),
    }
}

/// A copy of an optional text.
pub fn own_text(content: Option<&str>) -> (copy: Option<String>)
    ensures
        json::owned_text(copy) == json::opt_text(content),
{
    match content {
        Some(s) => Some(text::owned(s)),
        None => None,
    }
}

/// The text of an optional value.
pub fn text_of(value: Option<&Json>) -> (content: Option<&str>)
    ensures
        json::opt_text(content) == text_in(json::opt_view(value)),
{
    match value {
        Some(v) => v.as_text(),
        None => None,
    }
}

/// A text, replaced by another that is there and not empty.
fn replace(known: &String, by: &Option<String>) -> (now: String)
    ensures
        now@ == replaced(known@, json::owned_text(*by)),
{
    match by {
        Some(s) => if s.as_str().is_empty() {
            text::owned(known.as_str())
        } else {
            text::owned(s.as_str())
        },
        None => text::owned(known.as_str()),
    }
}

/// A tool call after one more fragment.
fn grow(tool: &ToolCallState, piece: &TranslatedDelta) -> (now: ToolCallState)
    requires
        piece is ToolCall,
    ensures
        now@ == grown(tool@, piece@),
{
    match piece {
        TranslatedDelta::ToolCall { index, id, name, arguments } => {
            let mut all = text::owned(tool.arguments.as_str());
            match arguments {
                Some(more) => all.append(more.as_str()),
                None => {
                    assert(all@ + Seq::<char>::empty() =~= all@);
                },
            }
            ToolCallState {
                index: tool.index,
                id: replace(&tool.id, id),
                name: replace(&tool.name, name),
                arguments: all,
            }
        },
        _ => ToolCallState {
            index: tool.index,
            id: text::owned(tool.id.as_str()),
            name: text::owned(tool.name.as_str()),
            arguments: text::owned(tool.arguments.as_str()),
        },
    }
}

/// Takes a fragment into the tool calls.
fn add_fragment(tools: &mut Vec<ToolCallState>, piece: &TranslatedDelta)
    requires
        piece is ToolCall,
    ensures
        tool_views(final(tools)@) == with_fragment(tool_views(old(tools)@), piece@),
{
    let index: i64 = match piece {
        TranslatedDelta::ToolCall { index, .. } => *index,
        _ => 0,
    };
    let ghost known = tool_views(tools@);
    let ghost before = tools@;
    let mut at: usize = tools.len();
    assert(known.take(at as int) =~= known);
    assert(known.subrange(at as int, known.len() as int) =~= Seq::empty());
    assert(with_fragment(known, piece@) =~= with_fragment(known.take(at as int), piece@)
        + known.subrange(at as int, known.len() as int));
    while at > 0 && tools[at - 1].index > index
        invariant
            tools@ == before,
            known == tool_views(before),
            at <= tools.len(),
            piece is ToolCall,
            piece@ matches DeltaV::ToolCall { index: i, .. } && i == index,
            with_fragment(known, piece@) == with_fragment(known.take(at as int), piece@)
                + known.subrange(at as int, known.len() as int),
        decreases at,
    {
        assert(known[at as int - 1] == tools@[at as int - 1]@);
        assert(known.take(at as int).drop_last() =~= known.take(at as int - 1));
        assert(known.subrange(at as int - 1, known.len() as int) =~= seq![known[at as int - 1]]
            + known.subrange(at as int, known.len() as int));
        at -= 1;
        assert(with_fragment(known.take(at as int + 1), piece@) + known.subrange(
            at as int + 1,
            known.len() as int,
        ) =~= with_fragment(known.take(at as int), piece@) + known.subrange(
            at as int,
            known.len() as int,
        ));
    }
    if at > 0 && tools[at - 1].index == index {
        let now = grow(&tools[at - 1], piece);
        assert(known[at as int - 1] == tools@[at as int - 1]@);
        tools.set(at - 1, now);
        assert(tool_views(tools@) =~= with_fragment(known.take(at as int), piece@)
            + known.subrange(at as int, known.len() as int)) by {
            assert(known.take(at as int).drop_last() =~= known.take(at as int - 1));
        }
    } else {
        let blank = ToolCallState {
            index,
            id: String::new(),
            name: String::new(),
            arguments: String::new(),
        };
        let now = grow(&blank, piece);
        assert(blank@ == blank_tool(index as int));
        if at > 0 {
            assert(known[at as int - 1] == tools@[at as int - 1]@);
        }
        tools.insert(at, now);
        assert(tool_views(tools@) =~= with_fragment(known.take(at as int), piece@)
            + known.subrange(at as int, known.len() as int));
    }
}

impl Translator {
    /// The parser, where there is one, is in order.
    pub closed spec fn wf(&self) -> bool {
        match self.parser {
            Some(p) => p.wf(),
            None => true,
        }
    }

    /// An answer that has not begun.
    pub fn new(
        response_id: String,
        model_name: String,
        thinking_enabled: bool,
        now_ms: u64,
    ) -> (translator: Self)
        ensures
            translator.wf(),
            translator@ == (TranslatorV {
                response_id: response_id@,
                created: now_ms as int / 1000,
                model_name: model_name@,
                model_reported: None,
                tools: Seq::empty(),
                role_sent: false,
                parser: if thinking_enabled {
                    Some(
                        ThinkingV {
                            out: Seq::empty(),
                            buffer: Seq::empty(),
                            in_thinking: false,
                            kind: 0,
                            finished: false,
                        },
                    )
                } else {
                    None
                },
                usage: None,
                finish_reason: None,
                content: Seq::empty(),
                reasoning: Seq::empty(),
                chunk_count: 0,
            }),
    {
        let tools: Vec<ToolCallState> = Vec::new();
        assert(tool_views(tools@) =~= Seq::empty());
        Translator {
            response_id,
            created: (now_ms / 1000) as i64,
            model_name,
            model_reported: None,
            tool_state: tools,
            role_sent: false,
            parser: if thinking_enabled {
                Some(ThinkingParser::new())
            } else {
                None
            },
            usage: None,
            finish_reason: None,
            content: String::new(),
            reasoning: String::new(),
            chunk_count: 0,
        }
    }

    /// Takes in a piece of answer.
    fn answer(&mut self, said: String, out: &mut Vec<TranslatedDelta>)
        requires
            old(self).wf(),
        ensures
            final(self).wf(),
            (Progress { state: final(self)@, out: delta_views(final(out)@) }) == (Progress {
                state: old(self)@,
                out: delta_views(old(out)@),
            }).answered(said@),
    {
        self.content.append(said.as_str());
        let delta = TranslatedDelta::Content(said);
        proof {
            lemma_delta_push(out@, delta);
        }
        out.push(delta);
    }

    /// Takes in a piece of thinking.
    fn think(&mut self, said: String, out: &mut Vec<TranslatedDelta>)
        requires
            old(self).wf(),
        ensures
            final(self).wf(),
            (Progress { state: final(self)@, out: delta_views(final(out)@) }) == (Progress {
                state: old(self)@,
                out: delta_views(old(out)@),
            }).thought(said@),
    {
        self.reasoning.append(said.as_str());
        let delta = TranslatedDelta::Reasoning(said);
        proof {
            lemma_delta_push(out@, delta);
        }
        out.push(delta);
    }

    /// Takes in pieces of answer and thinking.
    fn take_pieces(&mut self, pieces: Vec<ThinkingPiece>, out: &mut Vec<TranslatedDelta>)
        requires
            old(self).wf(),
        ensures
            final(self).wf(),
            (Progress { state: final(self)@, out: delta_views(final(out)@) }) == (Progress {
                state: old(self)@,
                out: delta_views(old(out)@),
            }).pieces(stream::piece_views(pieces@)),
    {
        let ghost start = Progress { state: self@, out: delta_views(out@) };
        let ghost all = stream::piece_views(pieces@);
        let mut i: usize = 0;
        assert(all.take(0) =~= Seq::empty());
        while i < pieces.len()
            invariant
                self.wf(),
                all == stream::piece_views(pieces@),
                i <= pieces.len(),
                (Progress { state: self@, out: delta_views(out@) }) == start.pieces(
                    all.take(i as int),
                ),
            decreases pieces.len() - i,
        {
            assert(all.take(i as int + 1).drop_last() =~= all.take(i as int));
            assert(all.take(i as int + 1).last() == pieces@[i as int]@);
            let said = text::owned(pieces[i].text.as_str());
            if pieces[i].is_thinking {
                self.think(said, out);
            } else {
                self.answer(said, out);
            }
            i += 1;
        }
        assert(all.take(all.len() as int) =~= all);
    }

    /// Takes in what a step says of its answer.
    fn take_content(&mut self, delta: &Json, out: &mut Vec<TranslatedDelta>)
        requires
            old(self).wf(),
        ensures
            final(self).wf(),
            (Progress { state: final(self)@, out: delta_views(final(out)@) }) == (Progress {
                state: old(self)@,
                out: delta_views(old(out)@),
            }).content_of(delta@),
    {
        let content = match delta.text_at("content") {
            Some(s) => s,
            None => return,
        };
        if content.is_empty() {
            return;
        }
        let mut held: Option<ThinkingParser> = None;
        std::mem::swap(&mut held, &mut self.parser);
        match held {
            Some(mut parser) => {
                parser.push(content);
                let pieces = parser.take();
                self.parser = Some(parser);
                self.take_pieces(pieces, out);
            },
            None => {
                self.parser = None;
                self.answer(text::owned(content), out);
            },
        }
    }

    /// Takes in fragments of tool calls.
    fn take_calls(&mut self, delta: &Json, out: &mut Vec<TranslatedDelta>)
        requires
            old(self).wf(),
        ensures
            final(self).wf(),
            (Progress { state: final(self)@, out: delta_views(final(out)@) }) == (Progress {
                state: old(self)@,
                out: delta_views(old(out)@),
            }).calls_of(delta@),
    {
        let calls = match delta.list_at("tool_calls") {
            Some(calls) => calls,
            None => return,
        };
        let ghost start = Progress { state: self@, out: delta_views(out@) };
        let ghost all = json::list_view(calls@);
        let mut i: usize = 0;
        assert(all.take(0) =~= Seq::empty());
        while i < calls.len()
            invariant
                self.wf(),
                all == json::list_view(calls@),
                i <= calls.len(),
                (Progress { state: self@, out: delta_views(out@) }) == start.calls(
                    all.take(i as int),
                ),
            decreases calls.len() - i,
        {
            assert(all.take(i as int + 1).drop_last() =~= all.take(i as int));
            assert(all.take(i as int + 1).last() == calls@[i as int]@);
            let piece = read_fragment(&calls[i]);
            add_fragment(&mut self.tool_state, &piece);
            proof {
                lemma_delta_push(out@, piece);
            }
            out.push(piece);
            i += 1;
        }
        assert(all.take(all.len() as int) =~= all);
    }

    /// Takes in a chunk of the upstream and says what steps it makes.
    pub fn consume(&mut self, chunk: &Json, catalog: &CatalogState) -> (out: Vec<TranslatedDelta>)
        requires
            old(self).wf(),
        ensures
            final(self).wf(),
            final(self)@ == old(self)@.consumed(chunk@, catalog@).state,
            delta_views(out@) == old(self)@.consumed(chunk@, catalog@).out,
    {
        if self.chunk_count < usize::MAX {
            self.chunk_count += 1;
        }
        if let Some(name) = chunk.text_at("model") {
            if !name.is_empty() {
                self.model_reported = protocol::map_model_back(catalog, name);
            }
        }
        if let Some(usage) = reported_usage(chunk) {
            self.usage = Some(usage);
        }
        let mut out: Vec<TranslatedDelta> = Vec::new();
        assert(delta_views(out@) =~= Seq::empty());
        let choices = match chunk.list_at("choices") {
            Some(choices) => choices,
            None => return out,
        };
        if choices.len() == 0 {
            return out;
        }
        let choice = &choices[0];
        assert(first_choice(chunk@) == Some(choice@));
        if let Some(reason) = choice.text_at("finish_reason") {
            if !reason.is_empty() {
                self.finish_reason = Some(text::owned(reason));
            }
        }
        let delta = match choice.get("delta") {
            Some(delta) => delta,
            None => return out,
        };
        if let Some(reasoning) = delta.text_at("reasoning_content") {
            let cleaned = stream::strip_thinking_tags(reasoning);
            if !cleaned.as_str().is_empty() {
                self.think(cleaned, &mut out);
            }
        }
        self.take_content(delta, &mut out);
        self.take_calls(delta, &mut out);
        out
    }

    /// Ends the answer: what the parser still holds comes out. Ending it again
    /// does nothing.
    pub fn finish(&mut self) -> (out: Vec<TranslatedDelta>)
        requires
            old(self).wf(),
        ensures
            final(self).wf(),
            final(self)@ == old(self)@.finished().state,
            delta_views(out@) == old(self)@.finished().out,
    {
        let mut out: Vec<TranslatedDelta> = Vec::new();
        assert(delta_views(out@) =~= Seq::empty());
        let mut held: Option<ThinkingParser> = None;
        std::mem::swap(&mut held, &mut self.parser);
        match held {
            Some(mut parser) => {
                parser.finish();
                let pieces = parser.take();
                self.parser = Some(parser);
                self.take_pieces(pieces, &mut out);
            },
            None => {
                self.parser = None;
            },
        }
        out
    }

    /// The model to name to the client.
    pub fn model_out(&self) -> (name: String)
        ensures
            name@ == self@.model(),
    {
        match &self.model_reported {
            Some(name) => text::owned(name.as_str()),
            None => text::owned(self.model_name.as_str()),
        }
    }

    /// Whether the frame with the role has still to be sent. It is asked for
    /// once.
    pub fn take_role_frame(&mut self) -> (first: bool)
        requires
            old(self).wf(),
        ensures
            final(self).wf(),
            first == !old(self)@.role_sent,
            final(self)@ == (TranslatorV { role_sent: true, ..old(self)@ }),
    {
        if self.role_sent {
            return false;
        }
        self.role_sent = true;
        true
    }
}

/// The usage that a chunk states.
pub fn reported_usage(chunk: &Json) -> (usage: Option<Json>)
    ensures
        json::owned_view(usage) == usage_in(chunk@),
{
    match chunk.get("usage") {
        Some(usage) => if usage.is_object() {
            Some(usage.clone())
        } else {
            None
        },
        None => None,
    }
}

/// A tool call as the client gets it.
pub open spec fn finished_call(tool: ToolV) -> JsonV {
    let arguments = match json::parsed_json(tool.arguments) {
        Some(v) => json::json_text(v),
        None => if tool.arguments.len() == 0 {
            "{}"@
        } else {
            tool.arguments
        },
    };
    let id = if tool.id.len() == 0 {
        "call_"@ + text::decimal_int(tool.index)
    } else {
        tool.id
    };
    JsonV::object().put("id"@, JsonV::Str(id)).put("type"@, JsonV::Str("function"@)).put(
        "function"@,
        JsonV::object().put("name"@, JsonV::Str(tool.name)).put(
            "arguments"@,
            JsonV::Str(arguments),
        ),
    )
}

impl TranslatorV {
    /// The tool calls, in the order of their index.
    pub open spec fn final_calls(self) -> Seq<JsonV> {
        self.tools.map_values(|tool: ToolV| finished_call(tool))
    }

    /// Why the answer ended.
    pub open spec fn ending(self) -> Seq<char> {
        if self.tools.len() > 0 {
            "tool_calls"@
        } else {
            match self.finish_reason {
                Some(reason) => reason,
                None => "stop"@,
            }
        }
    }

    /// What every frame begins with.
    pub open spec fn head(self, object: Seq<char>) -> JsonV {
        JsonV::object().put("id"@, JsonV::Str(self.response_id)).put(
            "object"@,
            JsonV::Str(object),
        ).put("created"@, JsonV::Int(self.created)).put("model"@, JsonV::Str(self.model()))
    }

    /// A frame with a step.
    pub open spec fn chunk(self, delta: JsonV, finish: Option<Seq<char>>) -> JsonV {
        let choice = JsonV::object().put("index"@, JsonV::Int(0)).put("delta"@, delta).put(
            "finish_reason"@,
            match finish {
                Some(s) => JsonV::Str(s),
                None => JsonV::Null,
            },
        );
        self.head("chat.completion.chunk"@).put(
            "choices"@,
            JsonV::Arr(Seq::empty().push(choice)),
        )
    }

    /// The frame with the usage.
    pub open spec fn usage_chunk(self) -> JsonV {
        self.head("chat.completion.chunk"@).put("choices"@, JsonV::Arr(Seq::empty())).put(
            "usage"@,
            match self.usage {
                Some(u) => u,
                None => JsonV::Null,
            },
        )
    }

    /// The message of the whole answer.
    pub open spec fn message(self) -> JsonV {
        let plain = JsonV::object().put("role"@, JsonV::Str("assistant"@)).put(
            "content"@,
            if self.content.len() == 0 {
                JsonV::Null
            } else {
                JsonV::Str(self.content)
            },
        );
        let thought = if self.reasoning.len() == 0 {
            plain
        } else {
            plain.put("reasoning_content"@, JsonV::Str(self.reasoning))
        };
        if self.final_calls().len() == 0 {
            thought
        } else {
            thought.put("tool_calls"@, JsonV::Arr(self.final_calls()))
        }
    }

    /// The whole answer.
    pub open spec fn completion(self) -> JsonV {
        let choice = JsonV::object().put("index"@, JsonV::Int(0)).put(
            "message"@,
            self.message(),
        ).put("finish_reason"@, JsonV::Str(self.ending()));
        self.head("chat.completion"@).put("choices"@, JsonV::Arr(Seq::empty().push(choice))).put(
            "usage"@,
            match self.usage {
                Some(u) => u,
                None => JsonV::object().put("prompt_tokens"@, JsonV::Int(0)).put(
                    "completion_tokens"@,
                    JsonV::Int(0),
                ).put("total_tokens"@, JsonV::Int(0)),
            },
        )
    }
}

/// A tool call as the client gets it.
fn finish_call(tool: &ToolCallState) -> (call: Json)
    ensures
        call@ == finished_call(tool@),
{
    let arguments = match json::parse_json(tool.arguments.as_str()) {
        Some(value) => json::write_json(&value),
        None => if tool.arguments.as_str().is_empty() {
            text::owned("{}")
        } else {
            text::owned(tool.arguments.as_str())
        },
    };
    let id = if tool.id.as_str().is_empty() {
        let mut id = text::owned("call_");
        id.append(text::signed_text(tool.index).as_str());
        id
    } else {
        text::owned(tool.id.as_str())
    };
    let mut function = Json::object();
    function.put("name", Json::text(tool.name.as_str()));
    function.put("arguments", Json::Text(arguments));
    let mut call = Json::object();
    call.put("id", Json::Text(id));
    call.put("type", Json::text("function"));
    call.put("function", function);
    call
}

/// A list of one value.
pub fn single(item: Json) -> (list: Json)
    ensures
        list@ == JsonV::Arr(Seq::empty().push(item@)),
{
    let mut items: Vec<Json> = Vec::new();
    proof {
        json::lemma_list_empty(items@);
        json::lemma_list_push(items@, item);
    }
    items.push(item);
    Json::list(items)
}

/// An empty list.
pub fn no_items() -> (list: Json)
    ensures
        list@ == JsonV::Arr(Seq::empty()),
{
    let items: Vec<Json> = Vec::new();
    proof {
        json::lemma_list_empty(items@);
    }
    Json::list(items)
}

impl Translator {
    /// The tool calls, in the order of their index.
    pub fn final_tool_calls(&self) -> (calls: Vec<Json>)
        ensures
            json::list_view(calls@) == self@.final_calls(),
    {
        let mut calls: Vec<Json> = Vec::new();
        let mut i: usize = 0;
        while i < self.tool_state.len()
            invariant
                i <= self.tool_state.len(),
                calls.len() == i,
                forall|k: int|
                    0 <= k < i ==> (#[trigger] calls@[k])@ == finished_call(self.tool_state@[k]@),
            decreases self.tool_state.len() - i,
        {
            calls.push(finish_call(&self.tool_state[i]));
            i += 1;
        }
        assert(json::list_view(calls@) =~= self@.final_calls());
        calls
    }

    /// Why the answer ended: tool calls go before what the upstream says.
    pub fn final_finish(&self) -> (reason: String)
        ensures
            reason@ == self@.ending(),
    {
        if self.tool_state.len() > 0 {
            return text::owned("tool_calls");
        }
        match &self.finish_reason {
            Some(reason) => text::owned(reason.as_str()),
            None => text::owned("stop"),
        }
    }

    /// What every frame begins with.
    fn frame_head(&self, object: &str) -> (head: Json)
        ensures
            head@ == self@.head(object@),
    {
        let mut head = Json::object();
        head.put("id", Json::text(self.response_id.as_str()));
        head.put("object", Json::text(object));
        head.put("created", Json::number(self.created));
        head.put("model", Json::Text(self.model_out()));
        head
    }

    /// A frame with a step.
    pub fn chunk_frame(&self, delta: Json, finish: Option<&str>) -> (frame: Json)
        ensures
            frame@ == self@.chunk(delta@, json::opt_text(finish)),
    {
        let mut choice = Json::object();
        choice.put("index", Json::number(0));
        choice.put("delta", delta);
        choice.put(
            "finish_reason",
            match finish {
                Some(s) => Json::text(s),
                None => Json::Null,
            },
        );
        let mut frame = self.frame_head("chat.completion.chunk");
        frame.put("choices", single(choice));
        frame
    }

    /// Whether the upstream stated the usage.
    pub fn has_usage(&self) -> (yes: bool)
        ensures
            yes == (self@.usage is Some),
    {
        self.usage.is_some()
    }

    /// The frame with the usage.
    pub fn usage_frame(&self) -> (frame: Json)
        ensures
            frame@ == self@.usage_chunk(),
    {
        let mut frame = self.frame_head("chat.completion.chunk");
        frame.put("choices", no_items());
        frame.put(
            "usage",
            match &self.usage {
                Some(usage) => usage.clone(),
                None => Json::Null,
            },
        );
        frame
    }

    /// The whole answer.
    pub fn completion_body(&self) -> (body: Json)
        ensures
            body@ == self@.completion(),
    {
        let mut message = Json::object();
        message.put("role", Json::text("assistant"));
        if self.content.as_str().is_empty() {
            message.put("content", Json::Null);
        } else {
            message.put("content", Json::text(self.content.as_str()));
        }
        if !self.reasoning.as_str().is_empty() {
            message.put("reasoning_content", Json::text(self.reasoning.as_str()));
        }
        let calls = self.final_tool_calls();
        if calls.len() > 0 {
            message.put("tool_calls", Json::list(calls));
        }
        assert(message@ == self@.message());
        let mut choice = Json::object();
        choice.put("index", Json::number(0));
        choice.put("message", message);
        choice.put("finish_reason", Json::Text(self.final_finish()));
        let usage = match &self.usage {
            Some(usage) => usage.clone(),
            None => {
                let mut none = Json::object();
                none.put("prompt_tokens", Json::number(0));
                none.put("completion_tokens", Json::number(0));
                none.put("total_tokens", Json::number(0));
                none
            },
        };
        let mut body = self.frame_head("chat.completion");
        body.put("choices", single(choice));
        body.put("usage", usage);
        body
    }
}

/// A step as the client gets it.
pub open spec fn delta_value(delta: DeltaV) -> JsonV {
    match delta {
        DeltaV::Content(s) => JsonV::object().put("content"@, JsonV::Str(s)),
        DeltaV::Reasoning(s) => JsonV::object().put("reasoning_content"@, JsonV::Str(s)),
        DeltaV::ToolCall { index, id, name, arguments } => {
            let function = JsonV::object().put_some("name"@, str_value(name)).put_some(
                "arguments"@,
                str_value(arguments),
            );
            let call = JsonV::object().put("index"@, JsonV::Int(index)).put_some(
                "id"@,
                str_value(id),
            ).put("type"@, JsonV::Str("function"@)).put("function"@, function);
            JsonV::object().put("tool_calls"@, JsonV::Arr(Seq::empty().push(call)))
        },
    }
}

/// An optional text as a value.
pub open spec fn str_value(content: Option<Seq<char>>) -> Option<JsonV> {
    match content {
        Some(s) => Some(JsonV::Str(s)),
        None => None,
    }
}

/// An optional text as a value.
fn text_value(content: &Option<String>) -> (value: Option<Json>)
    ensures
        json::owned_view(value) == str_value(json::owned_text(*content)),
{
    match content {
        Some(s) => Some(Json::text(s.as_str())),
        None => None,
    }
}

/// A step as the client gets it.
pub fn delta_json(delta: &TranslatedDelta) -> (value: Json)
    ensures
        value@ == delta_value(delta@),
{
    let mut value = Json::object();
    match delta {
        TranslatedDelta::Content(s) => value.put("content", Json::text(s.as_str())),
        TranslatedDelta::Reasoning(s) => value.put("reasoning_content", Json::text(s.as_str())),
        TranslatedDelta::ToolCall { index, id, name, arguments } => {
            let mut function = Json::object();
            function.put_some("name", text_value(name));
            function.put_some("arguments", text_value(arguments));
            let mut call = Json::object();
            call.put("index", Json::number(*index));
            call.put_some("id", text_value(id));
            call.put("type", Json::text("function"));
            call.put("function", function);
            value.put("tool_calls", single(call));
        },
    }
    value
}

/// The status by which the gateway acts on an upstream's error: another account
/// for a quota or a rate, fresh credentials for a login, and nothing else.
pub open spec fn mapped_status(kind: UpstreamKind) -> int {
    match kind {
        UpstreamKind::Quota => 429,
        UpstreamKind::Rate => 429,
        UpstreamKind::Auth => 401,
        _ => 502,
    }
}

/// How an upstream's error reads to the client.
pub open spec fn failure_text(
    status: int,
    raw: Seq<char>,
    message: Seq<char>,
    pricing_url: Option<Seq<char>>,
) -> Seq<char> {
    let detail = text::first_chars(raw, 300);
    if message.len() == 0 {
        "上游返回 "@ + text::decimal(status as nat) + ": "@ + detail
    } else {
        let pricing = match pricing_url {
            Some(url) => " 套餐与额度："@ + url,
            None => Seq::empty(),
        };
        "上游请求失败："@ + message + pricing + "（上游原文："@ + detail + "）"@
    }
}

/// The error that the gateway makes of an upstream's.
pub open spec fn failure(
    status: int,
    kind: UpstreamKind,
    raw: Seq<char>,
    message: Seq<char>,
    pricing_url: Option<Seq<char>>,
) -> ErrorV {
    ErrorV::plain(mapped_status(kind), failure_text(status, raw, message, pricing_url)).coded(
        text::decimal_int(status),
    )
}

/// The error that the gateway makes of one that the upstream states in its
/// stream. Its status goes by what the error means, not by the upstream's own.
pub fn business_error(
    status: u16,
    kind: UpstreamKind,
    raw: &str,
    message: &str,
    pricing_url: Option<&str>,
) -> (error: GatewayError)
    ensures
        error@ == failure(status as int, kind, raw@, message@, json::opt_text(pricing_url)),
{
    let detail = text::take_chars(raw, 300);
    let mut shown = String::new();
    if message.is_empty() {
        shown.append("上游返回 ");
        shown.append(text::decimal_text(status as u64).as_str());
        shown.append(": ");
        shown.append(detail);
        assert(shown@ =~= failure_text(status as int, raw@, message@, json::opt_text(pricing_url)));
    } else {
        shown.append("上游请求失败：");
        shown.append(message);
        if let Some(url) = pricing_url {
            shown.append(" 套餐与额度：");
            shown.append(url);
        }
        shown.append("（上游原文：");
        shown.append(detail);
        shown.append("）");
        assert(shown@ =~= failure_text(status as int, raw@, message@, json::opt_text(pricing_url)));
    }
    let mapped: i32 = match kind {
        UpstreamKind::Quota => 429,
        UpstreamKind::Rate => 429,
        UpstreamKind::Auth => 401,
        _ => 502,
    };
    GatewayError::with_status(mapped, shown.as_str()).with_optional_code(Some(status as i64))
}

/// The error that the gateway makes of an answer that failed as a whole.
pub fn http_error(status: u16, content: &str) -> (error: GatewayError)
    ensures
        ({
            let known = protocol::classified(status as int, content@);
            error@ == failure(status as int, known.kind, content@, known.message, known.pricing_url)
        }),
{
    let classified = protocol::classify_upstream_error(status, content);
    let pricing = match &classified.pricing_url {
        Some(url) => Some(url.as_str()),
        None => None,
    };
    business_error(status, classified.kind, content, classified.message.as_str(), pricing)
}

/// The request to the upstream.
#[derive(Debug)]
pub struct ChatPlan {
    pub url: String,
    pub headers: Vec<(String, String)>,
    /// The body as it is sent, which the headers sign.
    pub body: Vec<u8>,
    /// The model that the client asked for.
    pub model_name: String,
    pub upstream_key: String,
    /// Whether thinking has to be told from the answer.
    pub thinking: bool,
}

/// Whether a message is a system prompt.
pub open spec fn is_system(message: JsonV) -> bool {
    protocol::role_of(message) == "system"@ || protocol::role_of(message) == "developer"@
}

/// The system prompts of a request that are not empty.
pub open spec fn system_prompts(messages: Seq<JsonV>) -> Seq<JsonV>
    decreases messages.len(),
{
    if messages.len() == 0 {
        Seq::empty()
    } else {
        let known = system_prompts(messages.drop_last());
        let content = protocol::content_text(messages.last().field("content"@));
        if is_system(messages.last()) && content.len() > 0 {
            known.push(
                JsonV::object().put("role"@, JsonV::Str("system"@)).put(
                    "content"@,
                    JsonV::Str(content),
                ),
            )
        } else {
            known
        }
    }
}

/// The messages that are no system prompt.
pub open spec fn without_prompts(messages: Seq<JsonV>) -> Seq<JsonV>
    decreases messages.len(),
{
    if messages.len() == 0 {
        Seq::empty()
    } else if messages.last().text_at("role"@) == Some("system"@) {
        without_prompts(messages.drop_last())
    } else {
        without_prompts(messages.drop_last()).push(messages.last())
    }
}

/// The messages of a request as they are sent: the system prompts first.
pub open spec fn outgoing(raw: Seq<JsonV>) -> Seq<JsonV> {
    if system_prompts(raw).len() == 0 {
        protocol::normalized(raw).out
    } else {
        system_prompts(raw) + without_prompts(protocol::normalized(raw).out)
    }
}

/// The system prompts of a request that are not empty.
fn collect_prompts(messages: &Vec<Json>) -> (prompts: Vec<Json>)
    ensures
        json::list_view(prompts@) == system_prompts(json::list_view(messages@)),
{
    let ghost all = json::list_view(messages@);
    let mut prompts: Vec<Json> = Vec::new();
    let mut i: usize = 0;
    proof {
        json::lemma_list_empty(prompts@);
        assert(all.take(0) =~= Seq::empty());
    }
    while i < messages.len()
        invariant
            all == json::list_view(messages@),
            i <= messages.len(),
            json::list_view(prompts@) == system_prompts(all.take(i as int)),
        decreases messages.len() - i,
    {
        let message = &messages[i];
        assert(all.take(i as int + 1).drop_last() =~= all.take(i as int));
        assert(all.take(i as int + 1).last() == message@);
        let system = match message.text_at("role") {
            Some(role) => text::same(role, "system") || text::same(role, "developer"),
            None => {
                proof {
                    reveal_strlit("system");
                    reveal_strlit("developer");
                    assert("system"@.len() == 6 && "developer"@.len() == 9);
                }
                false
            },
        };
        assert(system == is_system(message@));
        let content = protocol::content_to_text(&message.field("content"));
        if system && !content.as_str().is_empty() {
            let mut prompt = Json::object();
            prompt.put("role", Json::text("system"));
            prompt.put("content", Json::Text(content));
            proof {
                json::lemma_list_push(prompts@, prompt);
            }
            prompts.push(prompt);
        }
        i += 1;
    }
    assert(all.take(all.len() as int) =~= all);
    prompts
}

/// Appends the messages that are no system prompt.
fn append_others(messages: &Vec<Json>, out: &mut Vec<Json>)
    ensures
        json::list_view(final(out)@) == json::list_view(old(out)@) + without_prompts(
            json::list_view(messages@),
        ),
{
    let ghost all = json::list_view(messages@);
    let ghost before = json::list_view(out@);
    let mut i: usize = 0;
    assert(before + without_prompts(all.take(0)) =~= before);
    while i < messages.len()
        invariant
            all == json::list_view(messages@),
            i <= messages.len(),
            json::list_view(out@) == before + without_prompts(all.take(i as int)),
        decreases messages.len() - i,
    {
        let message = &messages[i];
        assert(all.take(i as int + 1).drop_last() =~= all.take(i as int));
        assert(all.take(i as int + 1).last() == message@);
        let system = match message.text_at("role") {
            Some(role) => text::same(role, "system"),
            None => false,
        };
        if !system {
            let copy = message.clone();
            proof {
                json::lemma_list_push(out@, copy);
            }
            out.push(copy);
            assert(json::list_view(out@) =~= before + without_prompts(all.take(i as int + 1)));
        }
        i += 1;
    }
    assert(all.take(all.len() as int) =~= all);
}

/// The messages of a request as they are sent: the system prompts first.
fn order_messages(raw: &Vec<Json>) -> (out: Vec<Json>)
    ensures
        json::list_view(out@) == outgoing(json::list_view(raw@)),
{
    let messages = protocol::normalize_messages(raw);
    let mut ordered = collect_prompts(raw);
    if ordered.len() == 0 {
        return messages;
    }
    append_others(&messages, &mut ordered);
    ordered
}

/// How many tokens a request asks for.
pub open spec fn asked_tokens(body: JsonV) -> Option<int> {
    match body.field("max_tokens"@).as_int() {
        Some(n) => Some(n),
        None => body.field("max_completion_tokens"@).as_int(),
    }
}

/// The seed of a request's session: its user, else its session.
pub open spec fn seed_of(body: JsonV) -> Option<Seq<char>> {
    match body.text_at("user"@) {
        Some(s) => Some(s),
        None => body.text_at("session_id"@),
    }
}

/// The messages that a request holds.
pub open spec fn messages_in(body: JsonV) -> Seq<JsonV> {
    match body.field("messages"@).as_list() {
        Some(items) => items,
        None => Seq::empty(),
    }
}

/// What a client's request asks of the upstream for a model.
pub open spec fn ask_of(credentials: CredentialsV, body: JsonV, model: JsonV) -> AskV {
    AskV {
        key: protocol::or_empty(model.text_at("upstreamKey"@)),
        config: model.field("config"@),
        messages: outgoing(messages_in(body)),
        tools: protocol::tools_of(body.get("tools"@)),
        limit: protocol::token_limit(asked_tokens(body)),
        thinking: protocol::thinking_choice(body, model),
        user_id: credentials.user_id,
        seed: seed_of(body),
    }
}

/// The body as it is sent.
pub open spec fn sent_body(ask: AskV, fresh: FreshIdsV) -> Seq<u8> {
    cosy::shuffled(
        digest::base64_of(encode_utf8(json::json_text(protocol::upstream_body(ask, fresh)))),
    )
}

/// Whether a body carries an ask with some ids drawn at random.
pub open spec fn is_sent(body: Seq<u8>, ask: AskV, now_ms: int) -> bool {
    exists|fresh: FreshIdsV|
        fresh.now_ms == now_ms && protocol::is_uuid_or_empty(fresh.request_id)
            && protocol::is_uuid_or_empty(fresh.session) && protocol::is_uuid_or_empty(
            fresh.business_id,
        ) && body == #[trigger] sent_body(ask, fresh)
}

/// The address of a chat.
pub open spec fn chat_url(credentials: CredentialsV) -> Seq<char> {
    credentials.region.spec_gateway()
        + "algo/api/v2/service/pro/sse/agent_chat_generation?FetchKeys=llm_model_result&AgentId=agent_common&Encode=1"@
}

/// The headers of a chat beside those that sign it.
pub open spec fn plain_headers(key: Seq<char>) -> Seq<(Seq<char>, Seq<char>)> {
    Seq::empty().push(("Content-Type"@, "application/json"@)).push(
        ("Accept"@, "text/event-stream"@),
    ).push(("Cache-Control"@, "no-cache"@)).push(("Accept-Encoding"@, "identity"@)).push(
        ("X-Model-Key"@, key),
    ).push(("X-Model-Source"@, "system"@))
}

/// Whether a plan is one for an ask: its body carries the ask with some ids drawn
/// at random, and its headers sign that body.
pub open spec fn carries_out(
    plan: ChatPlan,
    credentials: CredentialsV,
    ask: AskV,
    now_ms: int,
    machine_os: Seq<char>,
) -> bool {
    &&& plan.url@ == chat_url(credentials)
    &&& plan.upstream_key@ == ask.key
    &&& plan.thinking == (ask.thinking.enable is Some || ask.thinking.effort is Some)
    &&& is_sent(plan.body@, ask, now_ms)
    &&& cosy::signed_path(plan.url@) is Some
    &&& exists|signed: Seq<(Seq<char>, Seq<char>)>|
        #[trigger] cosy::are_signed(
            signed,
            plan.body@,
            cosy::signed_path(plan.url@).unwrap(),
            cosy::identity_of(credentials),
            now_ms,
            machine_os,
        ) && urls::pairs_view(plan.headers@) == signed + plain_headers(ask.key)
}

/// Appends the headers of a chat beside those that sign it.
fn push_plain_headers(headers: &mut Vec<(String, String)>, key: &str)
    ensures
        urls::pairs_view(final(headers)@) == urls::pairs_view(old(headers)@) + plain_headers(key@),
{
    let ghost before = urls::pairs_view(headers@);
    urls::push_pair(headers, "Content-Type", "application/json");
    urls::push_pair(headers, "Accept", "text/event-stream");
    urls::push_pair(headers, "Cache-Control", "no-cache");
    urls::push_pair(headers, "Accept-Encoding", "identity");
    urls::push_pair(headers, "X-Model-Key", key);
    urls::push_pair(headers, "X-Model-Source", "system");
    assert(urls::pairs_view(headers@) =~= before + plain_headers(key@));
}

/// What a client's request asks of the upstream, its parts read out.
struct Prepared<'a> {
    upstream_key: String,
    config: Json,
    messages: Vec<Json>,
    tools: Option<Vec<Json>>,
    max_tokens: Option<i64>,
    thinking: ThinkingChoice,
    seed: Option<&'a str>,
}

impl<'a> Prepared<'a> {
    /// What the parts mean together with the user.
    spec fn ask(&self, user_id: Seq<char>) -> AskV {
        AskV {
            key: self.upstream_key@,
            config: self.config@,
            messages: json::list_view(self.messages@),
            tools: protocol::opt_list_view(self.tools),
            limit: protocol::token_limit(
                match self.max_tokens {
                    Some(n) => Some(n as int),
                    None => None,
                },
            ),
            thinking: self.thinking@,
            user_id,
            seed: json::opt_text(self.seed),
        }
    }
}

/// Reads out what a client's request asks of the upstream for a model.
fn prepare<'a>(body: &'a Json, model: &Json) -> (parts: Prepared<'a>)
    ensures
        forall|credentials: CredentialsV|
            parts.ask(credentials.user_id) == #[trigger] ask_of(credentials, body@, model@),
{
    let upstream_key = match model.text_at("upstreamKey") {
        Some(key) => text::owned(key),
        None => String::new(),
    };
    let messages = match body.list_at("messages") {
        Some(raw) => order_messages(raw),
        None => {
            let none: Vec<Json> = Vec::new();
            proof {
                json::lemma_list_empty(none@);
            }
            order_messages(&none)
        },
    };
    let max_tokens = match body.get("max_tokens") {
        Some(value) => value.as_int(),
        None => None,
    };
    let max_tokens = match max_tokens {
        Some(n) => Some(n),
        None => match body.get("max_completion_tokens") {
            Some(value) => value.as_int(),
            None => None,
        },
    };
    let seed = match body.text_at("user") {
        Some(s) => Some(s),
        None => body.text_at("session_id"),
    };
    Prepared {
        upstream_key,
        config: model.field("config"),
        messages,
        tools: protocol::normalize_tools(body.get("tools")),
        max_tokens,
        thinking: protocol::resolve_thinking(body, model),
        seed,
    }
}

/// The body as it is sent, its ids drawn at random.
fn encode_ask(parts: &Prepared<'_>, user_id: &str, now_ms: i64) -> (body: Vec<u8>)
    ensures
        is_sent(body@, parts.ask(user_id@), now_ms as int),
{
    let key = parts.upstream_key.as_str();
    let list = parts.messages.as_slice();
    let tools = match &parts.tools {
        Some(list) => Some(list),
        None => None,
    };
    let ghost ask = parts.ask(user_id@);
    let ghost made = UpstreamAsk {
        upstream_key: key,
        model_config: &parts.config,
        messages: list,
        tools,
        max_tokens: parts.max_tokens,
        thinking: &parts.thinking,
        user_id,
        session_seed: parts.seed,
    };
    assert(made@ == ask);
    let upstream = protocol::build_upstream_body(
        key,
        &parts.config,
        list,
        tools,
        parts.max_tokens,
        &parts.thinking,
        user_id,
        parts.seed,
        now_ms,
    );
    let ghost fresh = choose|fresh: FreshIdsV|
        fresh.now_ms == now_ms && protocol::is_uuid_or_empty(fresh.request_id)
            && protocol::is_uuid_or_empty(fresh.session) && protocol::is_uuid_or_empty(
            fresh.business_id,
        ) && upstream@ == #[trigger] protocol::upstream_body(ask, fresh);
    let written = json::write_json(&upstream);
    let body = cosy::encode_body(written.as_str().as_bytes());
    assert(body@ == sent_body(ask, fresh));
    body
}

/// The request to the upstream for a client's request. The body is encoded
/// first: the signature covers it.
pub fn build_plan(
    catalog: &CatalogState,
    credentials: &Credentials,
    body: &Json,
    model_name: &str,
    now_ms: u64,
    machine_os: &str,
) -> (plan: Result<ChatPlan, GatewayError>)
    requires
        now_ms <= i64::MAX,
    ensures
        match catalog@.resolved(model_name@, credentials@.region) {
            None => plan is Err && plan->Err_0@ == ErrorV::plain(
                400,
                "模型不存在: "@ + model_name@ + "。Qoder 可用模型见 GET /v1/models"@,
            ).coded("model_not_found"@),
            Some(model) => {
                let ask = ask_of(credentials@, body@, model);
                if ask.key.len() == 0 {
                    plan is Err && plan->Err_0@ == ErrorV::plain(
                        502,
                        "Qoder 模型目录缺少上游标识"@,
                    )
                } else {
                    match plan {
                        Ok(p) => credentials@.user_id.len() > 0 && credentials@.access_token.len()
                            > 0 && p.model_name@ == model_name@ && carries_out(
                            p,
                            credentials@,
                            ask,
                            now_ms as int,
                            machine_os@,
                        ),
                        Err(e) => cosy::signing_fails(
                            e@,
                            credentials@.user_id,
                            credentials@.access_token,
                            chat_url(credentials@),
                        ),
                    }
                }
            },
        },
{
    let model = match models::resolve(catalog, model_name, credentials.region) {
        Some(model) => model,
        None => {
            let mut message = text::owned("模型不存在: ");
            message.append(model_name);
            message.append("。Qoder 可用模型见 GET /v1/models");
            return Err(
                GatewayError::bad_request(message.as_str()).with_code("model_not_found"),
            );
        },
    };
    let parts = prepare(body, &model);
    let ghost ask = ask_of(credentials@, body@, model@);
    assert(parts.ask(credentials@.user_id) == ask);
    if parts.upstream_key.as_str().is_empty() {
        return Err(GatewayError::with_status(502, "Qoder 模型目录缺少上游标识"));
    }
    let encoded = encode_ask(&parts, credentials.user_id.as_str(), now_ms as i64);
    let mut url = text::owned(credentials.region.gateway());
    url.append(
        "algo/api/v2/service/pro/sse/agent_chat_generation?FetchKeys=llm_model_result&AgentId=agent_common&Encode=1",
    );
    let identity = CosyIdentity {
        user_id: credentials.user_id.as_str(),
        auth_token: credentials.access_token.as_str(),
        name: credentials.name.as_str(),
        email: credentials.email.as_str(),
        machine_id: credentials.machine_id.as_str(),
    };
    let mut headers = match cosy::build_auth_headers(
        Some(encoded.as_slice()),
        url.as_str(),
        &identity,
        now_ms,
        machine_os,
    ) {
        Ok(headers) => headers,
        Err(error) => return Err(error),
    };
    let ghost signed = urls::pairs_view(headers@);
    push_plain_headers(&mut headers, parts.upstream_key.as_str());
    let plan = ChatPlan {
        url,
        headers,
        body: encoded,
        model_name: text::owned(model_name),
        thinking: parts.thinking.enable.is_some() || parts.thinking.effort.is_some(),
        upstream_key: parts.upstream_key,
    };
    proof {
        assert(cosy::are_signed(
            signed,
            plan.body@,
            cosy::signed_path(plan.url@).unwrap(),
            cosy::identity_of(credentials@),
            now_ms as int,
            machine_os@,
        ));
        assert(urls::pairs_view(plan.headers@) == signed + plain_headers(ask.key));
    }
    Ok(plan)
}

/// What a conversation is sent with.
#[derive(Debug)]
pub struct AccountContext {
    pub credentials: Credentials,
    pub proxy: Option<ResolvedProxy>,
}

/// What a conversation is sent with: the credentials of an account, and its proxy
/// where it has one. An account with a broken proxy sends nothing.
pub fn account_context(credentials: Credentials, record: &Json, clash: &ClashSnapshot) -> (context:
    Result<AccountContext, GatewayError>)
    ensures
        match context {
            Ok(c) => c.credentials@ == credentials@ && proxies::resolves_to(
                record@.get("proxy"@),
                clash@,
                match c.proxy {
                    Some(p) => Some(ResolutionV::Resolved(p@)),
                    None => None,
                },
            ),
            Err(e) => e@ == ErrorV::plain(400, e@.message) && proxies::resolves_to(
                record@.get("proxy"@),
                clash@,
                Some(ResolutionV::Failed(e@.message)),
            ),
        },
{
    match auth::account_proxy(record, clash) {
        Ok(proxy) => Ok(AccountContext { credentials, proxy }),
        Err(error) => Err(error),
    }
}

/// The error of a conversation that could not be sent.
pub fn send_error(proxy: Option<&ResolvedProxy>, reason: &str) -> (error: GatewayError)
    ensures
        error@ == ErrorV::plain(
            502,
            "Qoder 上游请求失败"@ + "（"@ + request::via(
                match proxy {
                    Some(p) => Some((p@.label, p@.host)),
                    None => None,
                },
            ) + "）: "@ + reason@,
        ),
{
    let way = match proxy {
        Some(proxy) => Some((proxy.label.as_str(), proxy.host.as_str())),
        None => None,
    };
    let message = request::describe_failure("Qoder 上游请求失败", way, reason);
    GatewayError::with_status(502, message.as_str())
}

} // verus!
