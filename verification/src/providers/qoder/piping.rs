//! Driving Qoder's stream of an answer.
//!
//! The upstream answers with success and states its errors in the stream. So the
//! beginning is read before anything goes to the client: an error there can
//! still be answered by taking another account. Later ones can only end the
//! stream.
use super::chat;
use super::chat::{DeltaV, TranslatedDelta, Translator, TranslatorV};
use super::models::{CatalogState, CatalogV};
use super::protocol;
use super::protocol::UpstreamKind;
use super::stream;
use super::stream::{EventV, LineBuffer, SseEvent};
use crate::errors::{ErrorV, GatewayError};
use crate::json;
use crate::json::{Json, JsonV};
use crate::lines;
use crate::text;
use crate::upstream::stall;
use vstd::prelude::*;
use vstd::string::*;

verus! {

/// An account that has come to its limit for a model.
#[derive(Debug)]
pub struct Limited {
    pub status: u16,
    pub message: String,
}

/// What a limit means.
pub ghost struct LimitedV {
    pub status: int,
    pub message: Seq<char>,
}

/// What an optional limit means.
pub open spec fn limited_view(limited: Option<Limited>) -> Option<LimitedV> {
    match limited {
        Some(l) => Some(LimitedV { status: l.status as int, message: l.message@ }),
        None => None,
    }
}

/// The limit that an error states: one of a quota or of a rate.
pub open spec fn limit_of(status: int, kind: UpstreamKind, message: Seq<char>) -> Option<LimitedV> {
    if kind == UpstreamKind::Quota || kind == UpstreamKind::Rate {
        Some(LimitedV { status, message })
    } else {
        None
    }
}

/// The limit to record for an account: one of a quota or of a rate.
pub fn record_limited(status: u16, kind: UpstreamKind, message: &str) -> (limited: Option<Limited>)
    ensures
        limited_view(limited) == limit_of(status as int, kind, message@),
{
    if kind == UpstreamKind::Quota || kind == UpstreamKind::Rate {
        Some(Limited { status, message: text::owned(message) })
    } else {
        None
    }
}

/// The error of the gateway for an error event.
pub open spec fn event_error(event: EventV) -> ErrorV {
    match event {
        EventV::Error { status, raw, error } => chat::failure(
            status as int,
            error.kind,
            raw,
            error.message,
            error.pricing_url,
        ),
        _ => ErrorV::plain(502, Seq::empty()),
    }
}

/// The limit that an error event states.
pub open spec fn event_limit(event: EventV) -> Option<LimitedV> {
    match event {
        EventV::Error { status, raw, error } => limit_of(status as int, error.kind, error.message),
        _ => None,
    }
}

/// Frames with steps.
pub open spec fn delta_frames(translator: TranslatorV, deltas: Seq<DeltaV>) -> Seq<Seq<char>> {
    deltas.map_values(
        |delta: DeltaV| stream::frame(translator.chunk(chat::delta_value(delta), None)),
    )
}

/// The frame that opens an answer.
pub open spec fn role_frame(translator: TranslatorV) -> Seq<char> {
    stream::frame(
        translator.chunk(
            JsonV::object().put("role"@, JsonV::Str("assistant"@)).put(
                "content"@,
                JsonV::Str(""@),
            ),
            None,
        ),
    )
}

/// An answer on its way to the client.
pub ghost struct DriveV {
    pub translator: TranslatorV,
    /// The frames that have gone out.
    pub frames: Seq<Seq<char>>,
    /// What ended the stream, where something has.
    pub ending: EndingV,
}

/// What ended a stream.
pub ghost enum EndingV {
    /// Nothing yet.
    Open,
    /// The upstream said so.
    Done,
    /// An error event.
    Failed(EventV),
}

impl DriveV {
    /// After a chunk: its steps, the role before the first of all.
    pub open spec fn emitted(self, chunk: JsonV, catalog: CatalogV) -> DriveV {
        let progress = self.translator.consumed(chunk, catalog);
        if progress.out.len() == 0 {
            DriveV { translator: progress.state, ..self }
        } else {
            let opened = TranslatorV { role_sent: true, ..progress.state };
            let head = if progress.state.role_sent {
                Seq::empty()
            } else {
                seq![role_frame(opened)]
            };
            DriveV {
                translator: opened,
                frames: self.frames + head + delta_frames(opened, progress.out),
                ..self
            }
        }
    }

    /// After an event; nothing counts after the end.
    pub open spec fn after(self, event: EventV, catalog: CatalogV) -> DriveV {
        if !(self.ending is Open) {
            self
        } else {
            match event {
                EventV::Skip => self,
                EventV::Done => DriveV { ending: EndingV::Done, ..self },
                EventV::Chunk(chunk) => self.emitted(chunk, catalog),
                EventV::Error { .. } => DriveV { ending: EndingV::Failed(event), ..self },
            }
        }
    }

    /// After lines of data.
    pub open spec fn after_lines(self, data: Seq<Seq<char>>, catalog: CatalogV) -> DriveV
        decreases data.len(),
    {
        if data.len() == 0 {
            self
        } else {
            self.after_lines(data.drop_last(), catalog).after(
                stream::line_event(data.last()),
                catalog,
            )
        }
    }

    /// After chunks that were read ahead.
    pub open spec fn after_chunks(self, chunks: Seq<JsonV>, catalog: CatalogV) -> DriveV
        decreases chunks.len(),
    {
        if chunks.len() == 0 {
            self
        } else {
            self.after_chunks(chunks.drop_last(), catalog).emitted(chunks.last(), catalog)
        }
    }

    /// After the last line without a line feed, which may still hold a chunk or
    /// an error.
    pub open spec fn after_tail(self, tail: Seq<u8>, catalog: CatalogV) -> DriveV {
        let data = stream::last_data(tail);
        if data.len() == 0 {
            self
        } else {
            match stream::line_event(data[0]) {
                EventV::Chunk(chunk) => self.emitted(chunk, catalog),
                EventV::Error { status, raw, error } => DriveV {
                    ending: EndingV::Failed(EventV::Error { status, raw, error }),
                    ..self
                },
                _ => self,
            }
        }
    }

    /// After the end of an answer that succeeded: what is still held, why it
    /// ended, its usage and the end of the stream.
    pub open spec fn closed(self) -> DriveV {
        let last = self.translator.finished();
        let held = self.frames + delta_frames(last.state, last.out);
        let ended = held.push(
            stream::frame(last.state.chunk(JsonV::object(), Some(last.state.ending()))),
        );
        let counted = if last.state.usage is Some {
            ended.push(stream::frame(last.state.usage_chunk()))
        } else {
            ended
        };
        DriveV { translator: last.state, frames: counted.push("data: [DONE]\n\n"@), ..self }
    }

    /// After the end of an answer that failed: what is still held, the error and
    /// the end of the stream.
    pub open spec fn broken(self, message: Seq<char>) -> DriveV {
        let last = self.translator.finished();
        let held = self.frames + delta_frames(last.state, last.out);
        DriveV {
            translator: last.state,
            frames: held.push(stream::frame(error_value(message))).push("data: [DONE]\n\n"@),
            ..self
        }
    }
}

/// An error as the client gets it in a stream.
pub open spec fn error_value(message: Seq<char>) -> JsonV {
    JsonV::object().put(
        "error"@,
        JsonV::object().put("message"@, JsonV::Str(message)).put(
            "type"@,
            JsonV::Str("proxy_error"@),
        ),
    )
}

/// What comes of a stream's next event.
#[derive(Debug)]
pub struct StreamStep {
    /// What goes to the client.
    pub frames: Vec<String>,
    /// The limit to record for the account.
    pub limited: Option<Limited>,
    /// Why the answer failed.
    pub failed: Option<String>,
    /// Whether the stream is over.
    pub over: bool,
}

/// What a step means.
#[verifier::ext_equal]
pub ghost struct StepV {
    pub frames: Seq<Seq<char>>,
    pub limited: Option<LimitedV>,
    pub failed: Option<Seq<char>>,
    pub over: bool,
}

impl View for StreamStep {
    type V = StepV;

    open spec fn view(&self) -> StepV {
        StepV {
            frames: text::views(self.frames@),
            limited: limited_view(self.limited),
            failed: json::owned_text(self.failed),
            over: self.over,
        }
    }
}

/// What happens to a stream.
pub enum StreamEvent<'a> {
    Bytes(&'a [u8]),
    /// The connection broke, or was given up.
    Broken(&'a str),
    Ended,
}

/// How an answer ends that has come to its end with a tail.
pub open spec fn settle(drive: DriveV, tail: Seq<u8>, catalog: CatalogV) -> (DriveV, StepV) {
    let last = match drive.ending {
        EndingV::Failed(_) => drive,
        _ => drive.after_tail(tail, catalog),
    };
    match last.ending {
        EndingV::Failed(event) => {
            let message = event_error(event).message;
            let end = last.broken(message);
            (
                end,
                StepV {
                    frames: end.frames,
                    limited: event_limit(event),
                    failed: Some(message),
                    over: true,
                },
            )
        },
        _ => {
            let end = last.closed();
            (end, StepV { frames: end.frames, limited: None, failed: None, over: true })
        },
    }
}

/// What comes of bytes.
pub open spec fn bytes_step(
    translator: TranslatorV,
    held: Seq<u8>,
    bytes: Seq<u8>,
    catalog: CatalogV,
) -> (TranslatorV, StepV) {
    let start = DriveV { translator, frames: Seq::empty(), ending: EndingV::Open };
    let drive = start.after_lines(stream::data_lines(lines::lines(held + bytes)), catalog);
    if drive.ending is Open {
        (
            drive.translator,
            StepV { frames: drive.frames, limited: None, failed: None, over: false },
        )
    } else {
        let (end, step) = settle(drive, lines::rest(held + bytes), catalog);
        (end.translator, step)
    }
}

/// What comes of the end of the stream.
pub open spec fn end_step(translator: TranslatorV, held: Seq<u8>, catalog: CatalogV) -> (
    TranslatorV,
    StepV,
) {
    let start = DriveV { translator, frames: Seq::empty(), ending: EndingV::Open };
    let (end, step) = settle(start, held, catalog);
    (end.translator, step)
}

/// What comes of a connection that broke.
pub open spec fn broken_step(translator: TranslatorV, reason: Seq<char>) -> (TranslatorV, StepV) {
    let start = DriveV { translator, frames: Seq::empty(), ending: EndingV::Open };
    let message = stall::broken_text("上游流式传输中断: "@, reason);
    let end = start.broken(message);
    (
        end.translator,
        StepV { frames: end.frames, limited: None, failed: Some(message), over: true },
    )
}

/// Drives a stream of an answer to the client.
pub struct StreamDriver {
    translator: Translator,
    lines: LineBuffer,
}

/// Appends frames with steps.
fn push_deltas(translator: &Translator, deltas: &Vec<TranslatedDelta>, frames: &mut Vec<String>)
    ensures
        text::views(final(frames)@) == text::views(old(frames)@) + delta_frames(
            translator@,
            chat::delta_views(deltas@),
        ),
{
    let ghost before = text::views(frames@);
    let ghost all = chat::delta_views(deltas@);
    let mut i: usize = 0;
    assert(before =~= before + delta_frames(translator@, all.take(0)));
    while i < deltas.len()
        invariant
            all == chat::delta_views(deltas@),
            i <= deltas.len(),
            text::views(frames@) == before + delta_frames(translator@, all.take(i as int)),
        decreases deltas.len() - i,
    {
        let ghost known = frames@;
        let value = translator.chunk_frame(chat::delta_json(&deltas[i]), None);
        let framed = stream::sse_frame(&value);
        frames.push(framed);
        i += 1;
        assert(text::views(frames@) =~= text::views(known).push(framed@));
        assert(all[i as int - 1] == deltas@[i as int - 1]@);
        assert(delta_frames(translator@, all.take(i as int)) =~= delta_frames(
            translator@,
            all.take(i as int - 1),
        ).push(framed@));
        assert(text::views(frames@) =~= before + delta_frames(translator@, all.take(i as int)));
    }
    assert(all.take(all.len() as int) =~= all);
}

/// Appends a frame.
fn push_frame(frames: &mut Vec<String>, value: &Json)
    ensures
        text::views(final(frames)@) == text::views(old(frames)@).push(stream::frame(value@)),
{
    let ghost before = frames@;
    let framed = stream::sse_frame(value);
    frames.push(framed);
    assert(text::views(frames@) =~= text::views(before).push(framed@));
}

/// Appends the end of a stream.
fn push_done(frames: &mut Vec<String>)
    ensures
        text::views(final(frames)@) == text::views(old(frames)@).push("data: [DONE]\n\n"@),
{
    let ghost before = frames@;
    let framed = stream::sse_done();
    frames.push(framed);
    assert(text::views(frames@) =~= text::views(before).push(framed@));
}

/// What an error event asks for: the error for the client and the limit to
/// record.
fn read_failure(
    status: u16,
    kind: UpstreamKind,
    raw: &String,
    message: &String,
    pricing_url: &Option<String>,
) -> (outcome: (GatewayError, Option<Limited>))
    ensures
        ({
            let event = EventV::Error {
                status,
                raw: raw@,
                error: protocol::ClassifiedV {
                    kind,
                    message: message@,
                    pricing_url: json::owned_text(*pricing_url),
                },
            };
            outcome.0@ == event_error(event) && limited_view(outcome.1) == event_limit(event)
        }),
{
    let pricing = match pricing_url {
        Some(url) => Some(url.as_str()),
        None => None,
    };
    (
        chat::business_error(status, kind, raw.as_str(), message.as_str(), pricing),
        record_limited(status, kind, message.as_str()),
    )
}

/// What lines of data have come to.
enum Progressed {
    Open,
    Done,
    Failed(GatewayError, Option<Limited>),
}

/// Whether what lines have come to is how a drive ends.
spec fn same_ending(progressed: Progressed, ending: EndingV) -> bool {
    match progressed {
        Progressed::Open => ending is Open,
        Progressed::Done => ending is Done,
        Progressed::Failed(error, limited) => ending matches EndingV::Failed(event) && error@
            == event_error(event) && limited_view(limited) == event_limit(event),
    }
}

impl StreamDriver {
    /// What the driver knows of the answer.
    pub closed spec fn answer(&self) -> TranslatorV {
        self.translator@
    }

    /// The bytes that are not a line yet.
    pub closed spec fn held(&self) -> Seq<u8> {
        self.lines@
    }

    /// The driver is in order.
    pub closed spec fn wf(&self) -> bool {
        self.translator.wf()
    }

    /// A driver for an answer that has not begun.
    pub fn new(translator: Translator) -> (driver: Self)
        requires
            translator.wf(),
        ensures
            driver.wf(),
            driver.answer() == translator@,
            driver.held() == Seq::<u8>::empty(),
    {
        StreamDriver { translator, lines: LineBuffer::new() }
    }

    /// Sends the steps of a chunk, the role before the first of all.
    fn emit_chunk(&mut self, chunk: &Json, catalog: &CatalogState, frames: &mut Vec<String>)
        requires
            old(self).wf(),
        ensures
            final(self).wf(),
            final(self).held() == old(self).held(),
            forall|ending: EndingV|
                (DriveV {
                    translator: final(self).answer(),
                    frames: text::views(final(frames)@),
                    ending,
                }) == #[trigger] (DriveV {
                    translator: old(self).answer(),
                    frames: text::views(old(frames)@),
                    ending,
                }).emitted(chunk@, catalog@),
    {
        let ghost before = text::views(frames@);
        let deltas = self.translator.consume(chunk, catalog);
        if deltas.len() == 0 {
            return;
        }
        let first = self.translator.take_role_frame();
        let ghost opened = self.translator@;
        if first {
            let mut role = Json::object();
            role.put("role", Json::text("assistant"));
            role.put("content", Json::text(""));
            let value = self.translator.chunk_frame(role, None);
            push_frame(frames, &value);
            assert(text::views(frames@) =~= before + seq![role_frame(opened)]);
        } else {
            assert(text::views(frames@) =~= before + Seq::<Seq<char>>::empty());
        }
        push_deltas(&self.translator, &deltas, frames);
    }

    /// Sends the chunks that were read ahead.
    pub fn start(&mut self, prefetched: &Vec<Json>, catalog: &CatalogState) -> (frames: Vec<String>)
        requires
            old(self).wf(),
        ensures
            final(self).wf(),
            final(self).held() == old(self).held(),
            ({
                let start = DriveV {
                    translator: old(self).answer(),
                    frames: Seq::empty(),
                    ending: EndingV::Open,
                };
                let drive = start.after_chunks(json::list_view(prefetched@), catalog@);
                final(self).answer() == drive.translator && text::views(frames@) == drive.frames
            }),
    {
        let ghost start = DriveV {
            translator: self.answer(),
            frames: Seq::empty(),
            ending: EndingV::Open,
        };
        let ghost all = json::list_view(prefetched@);
        let mut frames: Vec<String> = Vec::new();
        let mut i: usize = 0;
        assert(text::views(frames@) =~= Seq::empty());
        assert(all.take(0) =~= Seq::empty());
        while i < prefetched.len()
            invariant
                self.wf(),
                self.held() == old(self).held(),
                all == json::list_view(prefetched@),
                i <= prefetched.len(),
                start.after_chunks(all.take(i as int), catalog@) == (DriveV {
                    translator: self.answer(),
                    frames: text::views(frames@),
                    ending: EndingV::Open,
                }),
            decreases prefetched.len() - i,
        {
            assert(all.take(i as int + 1).drop_last() =~= all.take(i as int));
            assert(all.take(i as int + 1).last() == prefetched@[i as int]@);
            self.emit_chunk(&prefetched[i], catalog, &mut frames);
            i += 1;
        }
        assert(all.take(all.len() as int) =~= all);
        frames
    }

    /// Takes in lines of data until one ends the stream.
    fn take_lines(
        &mut self,
        data: &Vec<String>,
        catalog: &CatalogState,
        frames: &mut Vec<String>,
    ) -> (progressed: Progressed)
        requires
            old(self).wf(),
        ensures
            final(self).wf(),
            final(self).held() == old(self).held(),
            ({
                let drive = (DriveV {
                    translator: old(self).answer(),
                    frames: text::views(old(frames)@),
                    ending: EndingV::Open,
                }).after_lines(text::views(data@), catalog@);
                &&& final(self).answer() == drive.translator
                &&& text::views(final(frames)@) == drive.frames
                &&& same_ending(progressed, drive.ending)
            }),
    {
        let ghost start = DriveV {
            translator: self.answer(),
            frames: text::views(frames@),
            ending: EndingV::Open,
        };
        let ghost all = text::views(data@);
        let mut i: usize = 0;
        assert(all.take(0) =~= Seq::empty());
        while i < data.len()
            invariant
                self.wf(),
                self.held() == old(self).held(),
                start == (DriveV {
                    translator: old(self).answer(),
                    frames: text::views(old(frames)@),
                    ending: EndingV::Open,
                }),
                all == text::views(data@),
                i <= data.len(),
                start.after_lines(all.take(i as int), catalog@) == (DriveV {
                    translator: self.answer(),
                    frames: text::views(frames@),
                    ending: EndingV::Open,
                }),
            decreases data.len() - i,
        {
            let ghost upto = all.take(i as int + 1);
            assert(upto.drop_last() =~= all.take(i as int));
            assert(upto.last() == data@[i as int]@);
            match stream::parse_sse_line(data[i].as_str()) {
                SseEvent::Skip => {},
                SseEvent::Done => {
                    proof {
                        lemma_ended_stays(start, all, i as int + 1, catalog@);
                    }
                    return Progressed::Done;
                },
                SseEvent::Error { status, kind, raw, message, pricing_url } => {
                    let (error, limited) = read_failure(status, kind, &raw, &message, &pricing_url);
                    proof {
                        lemma_ended_stays(start, all, i as int + 1, catalog@);
                    }
                    return Progressed::Failed(error, limited);
                },
                SseEvent::Chunk(chunk) => self.emit_chunk(&chunk, catalog, frames),
            }
            i += 1;
        }
        assert(all.take(all.len() as int) =~= all);
        Progressed::Open
    }

    /// Ends an answer that succeeded.
    fn close(&mut self, frames: Vec<String>) -> (step: StreamStep)
        requires
            old(self).wf(),
        ensures
            final(self).wf(),
            forall|ending: EndingV|
                ({
                    let end = #[trigger] (DriveV {
                        translator: old(self).answer(),
                        frames: text::views(frames@),
                        ending,
                    }).closed();
                    &&& final(self).answer() == end.translator
                    &&& step@ == (StepV {
                        frames: end.frames,
                        limited: None,
                        failed: None,
                        over: true,
                    })
                }),
    {
        let mut frames = frames;
        let deltas = self.translator.finish();
        push_deltas(&self.translator, &deltas, &mut frames);
        let reason = self.translator.final_finish();
        let value = self.translator.chunk_frame(Json::object(), Some(reason.as_str()));
        push_frame(&mut frames, &value);
        if self.translator.has_usage() {
            let usage = self.translator.usage_frame();
            push_frame(&mut frames, &usage);
        }
        push_done(&mut frames);
        StreamStep { frames, limited: None, failed: None, over: true }
    }

    /// Ends an answer that failed.
    fn fail(&mut self, frames: Vec<String>, message: String, limited: Option<Limited>) -> (step:
        StreamStep)
        requires
            old(self).wf(),
        ensures
            final(self).wf(),
            forall|ending: EndingV|
                ({
                    let end = #[trigger] (DriveV {
                        translator: old(self).answer(),
                        frames: text::views(frames@),
                        ending,
                    }).broken(message@);
                    &&& final(self).answer() == end.translator
                    &&& step@ == (StepV {
                        frames: end.frames,
                        limited: limited_view(limited),
                        failed: Some(message@),
                        over: true,
                    })
                }),
    {
        let mut frames = frames;
        let deltas = self.translator.finish();
        push_deltas(&self.translator, &deltas, &mut frames);
        let mut detail = Json::object();
        detail.put("message", Json::text(message.as_str()));
        detail.put("type", Json::text("proxy_error"));
        let mut value = Json::object();
        value.put("error", detail);
        push_frame(&mut frames, &value);
        push_done(&mut frames);
        StreamStep { frames, limited, failed: Some(message), over: true }
    }

    /// Ends an answer whose stream has come to its end, with what is still held.
    fn settle_tail(&mut self, catalog: &CatalogState, frames: Vec<String>) -> (step: StreamStep)
        requires
            old(self).wf(),
        ensures
            final(self).wf(),
            forall|ending: EndingV|
                !(ending is Failed) ==> ({
                    let (end, result) = #[trigger] settle(
                        (DriveV {
                            translator: old(self).answer(),
                            frames: text::views(frames@),
                            ending,
                        }),
                        old(self).held(),
                        catalog@,
                    );
                    final(self).answer() == end.translator && step@ == result
                }),
    {
        let mut frames = frames;
        let ghost before = self.answer();
        let ghost given = text::views(frames@);
        let data = self.lines.finish();
        let ghost last = stream::last_data(old(self).held());
        assert(text::views(data@) == last);
        if data.len() > 0 {
            assert(last[0] == data@[0]@);
            match stream::parse_sse_line(data[0].as_str()) {
                SseEvent::Chunk(chunk) => self.emit_chunk(&chunk, catalog, &mut frames),
                SseEvent::Error { status, kind, raw, message, pricing_url } => {
                    let (error, limited) = read_failure(status, kind, &raw, &message, &pricing_url);
                    let ghost event = EventV::Error {
                        status,
                        raw: raw@,
                        error: protocol::ClassifiedV {
                            kind,
                            message: message@,
                            pricing_url: json::owned_text(pricing_url),
                        },
                    };
                    let step = self.fail(frames, error.message, limited);
                    proof {
                        let failed = DriveV {
                            translator: before,
                            frames: given,
                            ending: EndingV::Failed(event),
                        };
                        assert(failed.broken(event_error(event).message).frames == step@.frames);
                    }
                    return step;
                },
                _ => {},
            }
        }
        let ghost reached = DriveV {
            translator: self.answer(),
            frames: text::views(frames@),
            ending: EndingV::Open,
        };
        let step = self.close(frames);
        proof {
            assert forall|ending: EndingV| !(ending is Failed) implies ({
                let (end, result) = #[trigger] settle(
                    (DriveV { translator: before, frames: given, ending }),
                    old(self).held(),
                    catalog@,
                );
                self.answer() == end.translator && step@ == result
            }) by {
                let drive = DriveV { translator: before, frames: given, ending };
                let at = drive.after_tail(old(self).held(), catalog@);
                assert(at.ending == ending);
                assert(at.translator == reached.translator);
                assert(at.frames == reached.frames);
                assert(at == (DriveV {
                    translator: reached.translator,
                    frames: reached.frames,
                    ending,
                }));
                assert(at.closed().frames == step@.frames);
            }
        }
        step
    }

    /// Takes in what happens to the stream and says what comes of it.
    pub fn step(&mut self, event: StreamEvent<'_>, catalog: &CatalogState) -> (step: StreamStep)
        requires
            old(self).wf(),
        ensures
            final(self).wf(),
            match event {
                StreamEvent::Bytes(bytes) => (final(self).answer(), step@) == bytes_step(
                    old(self).answer(),
                    old(self).held(),
                    bytes@,
                    catalog@,
                ) && (!step@.over ==> final(self).held() == lines::rest(
                    old(self).held() + bytes@,
                )),
                StreamEvent::Broken(reason) => (final(self).answer(), step@) == broken_step(
                    old(self).answer(),
                    reason@,
                ),
                StreamEvent::Ended => (final(self).answer(), step@) == end_step(
                    old(self).answer(),
                    old(self).held(),
                    catalog@,
                ),
            },
    {
        let mut frames: Vec<String> = Vec::new();
        assert(text::views(frames@) =~= Seq::empty());
        let ghost start = DriveV {
            translator: self.answer(),
            frames: Seq::empty(),
            ending: EndingV::Open,
        };
        match event {
            StreamEvent::Bytes(bytes) => {
                let ghost joined = self.held() + bytes@;
                let data = self.lines.push(bytes);
                let ghost drive = start.after_lines(
                    stream::data_lines(lines::lines(joined)),
                    catalog@,
                );
                match self.take_lines(&data, catalog, &mut frames) {
                    Progressed::Open => StreamStep {
                        frames,
                        limited: None,
                        failed: None,
                        over: false,
                    },
                    Progressed::Done => {
                        let ghost at = DriveV {
                            translator: self.answer(),
                            frames: text::views(frames@),
                            ending: EndingV::Done,
                        };
                        assert(at == drive);
                        let step = self.settle_tail(catalog, frames);
                        assert(settle(at, lines::rest(joined), catalog@).1 == step@);
                        step
                    },
                    Progressed::Failed(error, limited) => {
                        let ghost at = DriveV {
                            translator: self.answer(),
                            frames: text::views(frames@),
                            ending: drive.ending,
                        };
                        assert(at == drive);
                        let ghost message = error@.message;
                        let step = self.fail(frames, error.message, limited);
                        assert(at.broken(message).frames == step@.frames);
                        step
                    },
                }
            },
            StreamEvent::Broken(reason) => {
                let message = stall::describe_broken("上游流式传输中断: ", reason);
                let ghost shown = message@;
                let step = self.fail(frames, message, None);
                assert(start.broken(shown).frames == step@.frames);
                step
            },
            StreamEvent::Ended => {
                let step = self.settle_tail(catalog, frames);
                assert(settle(start, old(self).held(), catalog@).1 == step@);
                step
            },
        }
    }
}

/// Once ended, a drive takes in nothing more.
proof fn lemma_ended_stays(start: DriveV, data: Seq<Seq<char>>, upto: int, catalog: CatalogV)
    requires
        0 <= upto <= data.len(),
        !(start.after_lines(data.take(upto), catalog).ending is Open),
    ensures
        start.after_lines(data, catalog) == start.after_lines(data.take(upto), catalog),
    decreases data.len(),
{
    if upto == data.len() {
        assert(data.take(upto) =~= data);
    } else {
        assert(data.drop_last().take(upto) =~= data.take(upto));
        lemma_ended_stays(start, data.drop_last(), upto, catalog);
    }
}

/// The beginning of a stream, read before anything goes to the client.
#[verifier::ext_equal]
pub ghost struct HeadV {
    pub chunks: Seq<JsonV>,
    pub ending: EndingV,
}

impl HeadV {
    /// After an event; nothing counts after the end.
    pub open spec fn after(self, event: EventV) -> HeadV {
        if !(self.ending is Open) {
            self
        } else {
            match event {
                EventV::Skip => self,
                EventV::Done => HeadV { ending: EndingV::Done, ..self },
                EventV::Chunk(chunk) => HeadV { chunks: self.chunks.push(chunk), ..self },
                EventV::Error { .. } => HeadV { ending: EndingV::Failed(event), ..self },
            }
        }
    }

    /// After lines of data.
    pub open spec fn after_lines(self, data: Seq<Seq<char>>) -> HeadV
        decreases data.len(),
    {
        if data.len() == 0 {
            self
        } else {
            self.after_lines(data.drop_last()).after(stream::line_event(data.last()))
        }
    }
}

/// What comes of reading ahead.
#[derive(Debug)]
pub enum HeadStep {
    /// Nothing to go by yet.
    More,
    /// The answer has begun: the chunks read and the bytes that are not a line
    /// yet.
    Ready { chunks: Vec<Json>, tail: Vec<u8> },
    /// It failed before it began: another account may be taken.
    Failed { error: GatewayError, limited: Option<Limited> },
}

/// What a step of reading ahead means.
#[verifier::ext_equal]
pub ghost enum HeadStepV {
    More,
    Ready { chunks: Seq<JsonV>, tail: Seq<u8> },
    Failed { error: ErrorV, limited: Option<LimitedV> },
}

impl View for HeadStep {
    type V = HeadStepV;

    open spec fn view(&self) -> HeadStepV {
        match self {
            HeadStep::More => HeadStepV::More,
            HeadStep::Ready { chunks, tail } => HeadStepV::Ready {
                chunks: json::list_view(chunks@),
                tail: tail@,
            },
            HeadStep::Failed { error, limited } => HeadStepV::Failed {
                error: error@,
                limited: limited_view(*limited),
            },
        }
    }
}

/// What comes of bytes at the beginning of a stream. It is read up to the first
/// bytes that bring a chunk, its end, or an error.
pub open spec fn head_step(held: Seq<u8>, bytes: Seq<u8>) -> HeadStepV {
    let head = (HeadV { chunks: Seq::empty(), ending: EndingV::Open }).after_lines(
        stream::data_lines(lines::lines(held + bytes)),
    );
    match head.ending {
        EndingV::Failed(event) => HeadStepV::Failed {
            error: event_error(event),
            limited: event_limit(event),
        },
        EndingV::Done => HeadStepV::Ready {
            chunks: head.chunks,
            tail: lines::rest(held + bytes),
        },
        EndingV::Open => if head.chunks.len() > 0 {
            HeadStepV::Ready { chunks: head.chunks, tail: lines::rest(held + bytes) }
        } else {
            HeadStepV::More
        },
    }
}

proof fn lemma_head_ended_stays(start: HeadV, data: Seq<Seq<char>>, upto: int)
    requires
        0 <= upto <= data.len(),
        !(start.after_lines(data.take(upto)).ending is Open),
    ensures
        start.after_lines(data) == start.after_lines(data.take(upto)),
    decreases data.len(),
{
    if upto == data.len() {
        assert(data.take(upto) =~= data);
    } else {
        assert(data.drop_last().take(upto) =~= data.take(upto));
        lemma_head_ended_stays(start, data.drop_last(), upto);
    }
}

/// Reads the beginning of a stream.
pub struct StreamHead {
    lines: LineBuffer,
}

impl StreamHead {
    /// The bytes that are not a line yet.
    pub closed spec fn held(&self) -> Seq<u8> {
        self.lines@
    }

    /// The beginning of a stream.
    pub fn new() -> (head: Self)
        ensures
            head.held() == Seq::<u8>::empty(),
    {
        StreamHead { lines: LineBuffer::new() }
    }

    /// Takes in what happens to the stream before the answer has begun.
    pub fn prefetch_stream_head(&mut self, event: StreamEvent<'_>) -> (step: HeadStep)
        ensures
            match event {
                StreamEvent::Bytes(bytes) => step@ == head_step(old(self).held(), bytes@) && (
                step@ is More ==> final(self).held() == lines::rest(old(self).held() + bytes@)),
                StreamEvent::Broken(reason) => step@ == (HeadStepV::Failed {
                    error: ErrorV::plain(
                        502,
                        stall::broken_text("Qoder 上游流式传输中断: "@, reason@),
                    ),
                    limited: None,
                }),
                StreamEvent::Ended => step@ == (HeadStepV::Ready {
                    chunks: Seq::empty(),
                    tail: old(self).held(),
                }),
            },
    {
        let mut chunks: Vec<Json> = Vec::new();
        proof {
            json::lemma_list_empty(chunks@);
        }
        let bytes = match event {
            StreamEvent::Bytes(bytes) => bytes,
            StreamEvent::Broken(reason) => {
                let message = stall::describe_broken("Qoder 上游流式传输中断: ", reason);
                return HeadStep::Failed {
                    error: GatewayError::with_status(502, message.as_str()),
                    limited: None,
                };
            },
            StreamEvent::Ended => {
                return HeadStep::Ready { chunks, tail: self.lines.take_tail() };
            },
        };
        let data = self.lines.push(bytes);
        let ghost start = HeadV { chunks: Seq::empty(), ending: EndingV::Open };
        let ghost all = text::views(data@);
        let mut i: usize = 0;
        assert(all.take(0) =~= Seq::empty());
        while i < data.len()
            invariant
                event == StreamEvent::Bytes(bytes),
                all == text::views(data@),
                all == stream::data_lines(lines::lines(old(self).held() + bytes@)),
                self.held() == lines::rest(old(self).held() + bytes@),
                start == (HeadV { chunks: Seq::empty(), ending: EndingV::Open }),
                i <= data.len(),
                start.after_lines(all.take(i as int)) == (HeadV {
                    chunks: json::list_view(chunks@),
                    ending: EndingV::Open,
                }),
            decreases data.len() - i,
        {
            let ghost upto = all.take(i as int + 1);
            assert(upto.drop_last() =~= all.take(i as int));
            assert(upto.last() == data@[i as int]@);
            match stream::parse_sse_line(data[i].as_str()) {
                SseEvent::Skip => {},
                SseEvent::Done => {
                    proof {
                        lemma_head_ended_stays(start, all, i as int + 1);
                    }
                    return HeadStep::Ready { chunks, tail: self.lines.take_tail() };
                },
                SseEvent::Error { status, kind, raw, message, pricing_url } => {
                    let (error, limited) = read_failure(status, kind, &raw, &message, &pricing_url);
                    proof {
                        lemma_head_ended_stays(start, all, i as int + 1);
                    }
                    return HeadStep::Failed { error, limited };
                },
                SseEvent::Chunk(chunk) => {
                    proof {
                        json::lemma_list_push(chunks@, chunk);
                    }
                    chunks.push(chunk);
                },
            }
            i += 1;
        }
        assert(all.take(all.len() as int) =~= all);
        if chunks.len() > 0 {
            HeadStep::Ready { chunks, tail: self.lines.take_tail() }
        } else {
            HeadStep::More
        }
    }
}

/// An answer being put together.
pub ghost struct WholeV {
    pub translator: TranslatorV,
    pub ending: EndingV,
}

impl WholeV {
    /// After an event; nothing counts after the end.
    pub open spec fn after(self, event: EventV, catalog: CatalogV) -> WholeV {
        if !(self.ending is Open) {
            self
        } else {
            match event {
                EventV::Skip => self,
                EventV::Done => WholeV { ending: EndingV::Done, ..self },
                EventV::Chunk(chunk) => WholeV {
                    translator: self.translator.consumed(chunk, catalog).state,
                    ..self
                },
                EventV::Error { .. } => WholeV { ending: EndingV::Failed(event), ..self },
            }
        }
    }

    /// After lines of data.
    pub open spec fn after_lines(self, data: Seq<Seq<char>>, catalog: CatalogV) -> WholeV
        decreases data.len(),
    {
        if data.len() == 0 {
            self
        } else {
            self.after_lines(data.drop_last(), catalog).after(
                stream::line_event(data.last()),
                catalog,
            )
        }
    }

    /// The whole answer, the last line without a line feed taken in.
    pub open spec fn completed(self, tail: Seq<u8>, catalog: CatalogV) -> JsonV {
        let data = stream::last_data(tail);
        let last = if data.len() == 0 {
            self.translator
        } else {
            match stream::line_event(data[0]) {
                EventV::Chunk(chunk) => self.translator.consumed(chunk, catalog).state,
                _ => self.translator,
            }
        };
        last.finished().state.completion()
    }
}

/// What comes of putting an answer together.
#[derive(Debug)]
pub enum WholeStep {
    More,
    Completed(Json),
    Failed { error: GatewayError, limited: Option<Limited> },
}

/// What a step of it means.
#[verifier::ext_equal]
pub ghost enum WholeStepV {
    More,
    Completed(JsonV),
    Failed { error: ErrorV, limited: Option<LimitedV> },
}

impl View for WholeStep {
    type V = WholeStepV;

    open spec fn view(&self) -> WholeStepV {
        match self {
            WholeStep::More => WholeStepV::More,
            WholeStep::Completed(body) => WholeStepV::Completed(body@),
            WholeStep::Failed { error, limited } => WholeStepV::Failed {
                error: error@,
                limited: limited_view(*limited),
            },
        }
    }
}

/// What comes of bytes for an answer put together, and the answer after them.
pub open spec fn whole_step(
    translator: TranslatorV,
    held: Seq<u8>,
    bytes: Seq<u8>,
    catalog: CatalogV,
) -> (WholeV, WholeStepV) {
    let whole = (WholeV { translator, ending: EndingV::Open }).after_lines(
        stream::data_lines(lines::lines(held + bytes)),
        catalog,
    );
    (
        whole,
        match whole.ending {
            EndingV::Open => WholeStepV::More,
            EndingV::Done => WholeStepV::Completed(
                whole.completed(lines::rest(held + bytes), catalog),
            ),
            EndingV::Failed(event) => WholeStepV::Failed {
                error: event_error(event),
                limited: event_limit(event),
            },
        },
    )
}

proof fn lemma_whole_ended_stays(start: WholeV, data: Seq<Seq<char>>, upto: int, catalog: CatalogV)
    requires
        0 <= upto <= data.len(),
        !(start.after_lines(data.take(upto), catalog).ending is Open),
    ensures
        start.after_lines(data, catalog) == start.after_lines(data.take(upto), catalog),
    decreases data.len(),
{
    if upto == data.len() {
        assert(data.take(upto) =~= data);
    } else {
        assert(data.drop_last().take(upto) =~= data.take(upto));
        lemma_whole_ended_stays(start, data.drop_last(), upto, catalog);
    }
}

/// Puts an answer together for a client that wants it at once.
pub struct Aggregator {
    translator: Translator,
    lines: LineBuffer,
}

impl Aggregator {
    /// What is known of the answer.
    pub closed spec fn answer(&self) -> TranslatorV {
        self.translator@
    }

    /// The bytes that are not a line yet.
    pub closed spec fn held(&self) -> Seq<u8> {
        self.lines@
    }

    /// The aggregator is in order.
    pub closed spec fn wf(&self) -> bool {
        self.translator.wf()
    }

    /// An answer that has not begun.
    pub fn new(translator: Translator) -> (aggregator: Self)
        requires
            translator.wf(),
        ensures
            aggregator.wf(),
            aggregator.answer() == translator@,
            aggregator.held() == Seq::<u8>::empty(),
    {
        Aggregator { translator, lines: LineBuffer::new() }
    }

    /// The whole answer, the last line without a line feed taken in.
    fn complete(&mut self, catalog: &CatalogState) -> (body: Json)
        requires
            old(self).wf(),
        ensures
            final(self).wf(),
            forall|ending: EndingV|
                body@ == #[trigger] (WholeV {
                    translator: old(self).answer(),
                    ending,
                }).completed(old(self).held(), catalog@),
    {
        let data = self.lines.finish();
        let ghost last = stream::last_data(old(self).held());
        assert(text::views(data@) == last);
        if data.len() > 0 {
            assert(last[0] == data@[0]@);
            if let SseEvent::Chunk(chunk) = stream::parse_sse_line(data[0].as_str()) {
                let _ = self.translator.consume(&chunk, catalog);
            }
        }
        let _ = self.translator.finish();
        self.translator.completion_body()
    }

    /// Takes in what happens to the stream and says what comes of it.
    pub fn drive_aggregate(&mut self, event: StreamEvent<'_>, catalog: &CatalogState) -> (step:
        WholeStep)
        requires
            old(self).wf(),
        ensures
            final(self).wf(),
            match event {
                StreamEvent::Bytes(bytes) => ({
                    let (whole, result) = whole_step(
                        old(self).answer(),
                        old(self).held(),
                        bytes@,
                        catalog@,
                    );
                    &&& step@ == result
                    &&& step@ is More ==> final(self).answer() == whole.translator
                    &&& step@ is More ==> final(self).held() == lines::rest(
                        old(self).held() + bytes@,
                    )
                }),
                StreamEvent::Broken(reason) => step@ == (WholeStepV::Failed {
                    error: ErrorV::plain(502, "Qoder 上游流式传输中断: "@ + reason@),
                    limited: None,
                }),
                StreamEvent::Ended => step@ == WholeStepV::Completed(
                    (WholeV {
                        translator: old(self).answer(),
                        ending: EndingV::Open,
                    }).completed(old(self).held(), catalog@),
                ),
            },
    {
        let bytes = match event {
            StreamEvent::Bytes(bytes) => bytes,
            StreamEvent::Broken(reason) => {
                let mut message = text::owned("Qoder 上游流式传输中断: ");
                message.append(reason);
                return WholeStep::Failed {
                    error: GatewayError::with_status(502, message.as_str()),
                    limited: None,
                };
            },
            StreamEvent::Ended => return WholeStep::Completed(self.complete(catalog)),
        };
        let ghost start = WholeV { translator: self.answer(), ending: EndingV::Open };
        let data = self.lines.push(bytes);
        let ghost all = text::views(data@);
        let mut i: usize = 0;
        assert(all.take(0) =~= Seq::empty());
        while i < data.len()
            invariant
                self.wf(),
                event == StreamEvent::Bytes(bytes),
                all == text::views(data@),
                all == stream::data_lines(lines::lines(old(self).held() + bytes@)),
                self.held() == lines::rest(old(self).held() + bytes@),
                start == (WholeV { translator: old(self).answer(), ending: EndingV::Open }),
                i <= data.len(),
                start.after_lines(all.take(i as int), catalog@) == (WholeV {
                    translator: self.answer(),
                    ending: EndingV::Open,
                }),
            decreases data.len() - i,
        {
            let ghost upto = all.take(i as int + 1);
            assert(upto.drop_last() =~= all.take(i as int));
            assert(upto.last() == data@[i as int]@);
            match stream::parse_sse_line(data[i].as_str()) {
                SseEvent::Skip => {},
                SseEvent::Done => {
                    proof {
                        lemma_whole_ended_stays(start, all, i as int + 1, catalog@);
                    }
                    let ghost at = WholeV { translator: self.answer(), ending: EndingV::Done };
                    assert(start.after_lines(all, catalog@) == at);
                    let ghost tail = self.held();
                    let body = self.complete(catalog);
                    assert(body@ == at.completed(tail, catalog@));
                    return WholeStep::Completed(body);
                },
                SseEvent::Error { status, kind, raw, message, pricing_url } => {
                    let (error, limited) = read_failure(status, kind, &raw, &message, &pricing_url);
                    proof {
                        lemma_whole_ended_stays(start, all, i as int + 1, catalog@);
                    }
                    return WholeStep::Failed { error, limited };
                },
                SseEvent::Chunk(chunk) => {
                    let _ = self.translator.consume(&chunk, catalog);
                },
            }
            i += 1;
        }
        assert(all.take(all.len() as int) =~= all);
        WholeStep::More
    }
}

} // verus!
