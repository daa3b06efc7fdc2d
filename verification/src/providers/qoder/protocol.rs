//! Qoder's protocol: from a chat completion request to the envelope that the
//! upstream takes, and from its errors to what they mean.
//!
//! A system prompt has to stand among the messages, the model's own thinking
//! configuration must not be sent back, and thinking cannot really be switched
//! off: a request to do so leaves the choice to the upstream.
use super::cosy;
use super::machine;
use super::endpoints::Region;
use super::models;
use super::models::{CatalogState, MAX_OUTPUT_TOKENS};
use crate::digest;
use crate::json;
use crate::json::{Json, JsonV};
use crate::text;
use vstd::prelude::*;
use vstd::string::*;
use vstd::utf8::*;

verus! {

/// The tags that may enclose thinking, each with its closing tag.
pub const THINK_TAGS: [(&'static str, &'static str); 4] = [
    ("<thinking>", "</thinking>"),
    ("<think>", "</think>"),
    ("<reasoning>", "</reasoning>"),
    ("<thought>", "</thought>"),
];

/// The text of one part of a message: a text, or an object with a text.
pub open spec fn part_text(part: JsonV) -> Seq<char> {
    match part {
        JsonV::Str(s) => s,
        _ => match part.text_at("text"@) {
            Some(s) => s,
            None => match part.text_at("content"@) {
                Some(s) => s,
                None => Seq::empty(),
            },
        },
    }
}

/// The texts of the parts of a message, joined.
pub open spec fn parts_text(parts: Seq<JsonV>) -> Seq<char>
    decreases parts.len(),
{
    if parts.len() == 0 {
        Seq::empty()
    } else {
        parts_text(parts.drop_last()) + part_text(parts.last())
    }
}

/// The text of the content of a message, whatever its form.
pub open spec fn content_text(content: JsonV) -> Seq<char> {
    match content {
        JsonV::Str(s) => s,
        JsonV::Arr(parts) => parts_text(parts),
        _ => Seq::empty(),
    }
}

/// The text of the content of a message, whatever its form.
pub fn content_to_text(content: &Json) -> (flat: String)
    ensures
        flat@ == content_text(content@),
{
    match content {
        Json::Text(s) => text::owned(s.as_str()),
        Json::List(items) => {
            let mut flat = String::new();
            let ghost parts = json::list_view(items@);
            let mut i: usize = 0;
            while i < items.len()
                invariant
                    parts == json::list_view(items@),
                    i <= items.len(),
                    flat@ == parts_text(parts.take(i as int)),
                decreases items.len() - i,
            {
                let item = &items[i];
                assert(parts.take(i as int + 1).drop_last() =~= parts.take(i as int));
                assert(parts.take(i as int + 1).last() == item@);
                match item {
                    Json::Text(s) => flat.append(s.as_str()),
                    _ => match item.text_at("text") {
                        Some(s) => flat.append(s),
                        None => match item.text_at("content") {
                            Some(s) => flat.append(s),
                            None => {
                                assert(flat@ + Seq::<char>::empty() =~= flat@);
                            },
                        },
                    },
                }
                i += 1;
            }
            assert(parts.take(parts.len() as int) =~= parts);
            flat
        },
        _ => String::new(),
    }
}

/// Whether a part of a message is an image.
pub open spec fn is_image(part: JsonV) -> bool {
    part.text_at("type"@) == Some("image_url"@)
}

/// The images of a message, each reduced to its address.
pub open spec fn image_parts(parts: Seq<JsonV>) -> Seq<JsonV>
    decreases parts.len(),
{
    if parts.len() == 0 {
        Seq::empty()
    } else if is_image(parts.last()) {
        image_parts(parts.drop_last()).push(
            JsonV::object().put("type"@, JsonV::Str("image_url"@)).put(
                "image_url"@,
                parts.last().field("image_url"@),
            ),
        )
    } else {
        image_parts(parts.drop_last())
    }
}

/// The images of the content of a message.
pub open spec fn content_images(content: JsonV) -> Seq<JsonV> {
    match content {
        JsonV::Arr(parts) => image_parts(parts),
        _ => Seq::empty(),
    }
}

/// Whether an optional text is there and reads so.
fn reads(content: Option<&str>, wanted: &str) -> (yes: bool)
    ensures
        yes == (json::opt_text(content) == Some(wanted@)),
{
    match content {
        Some(s) => text::same(s, wanted),
        None => false,
    }
}

/// Appends the images of the content of a message.
fn images_of(content: &Json, parts: &mut Vec<Json>)
    ensures
        json::list_view(final(parts)@) == json::list_view(old(parts)@) + content_images(content@),
{
    broadcast use json::lemma_list_push;

    match content {
        Json::List(items) => {
            let ghost all = json::list_view(items@);
            let ghost before = json::list_view(parts@);
            let mut i: usize = 0;
            assert(before =~= before + image_parts(all.take(0)));
            while i < items.len()
                invariant
                    all == json::list_view(items@),
                    i <= items.len(),
                    json::list_view(parts@) == before + image_parts(all.take(i as int)),
                decreases items.len() - i,
            {
                broadcast use json::lemma_list_push;

                let item = &items[i];
                assert(all.take(i as int + 1).drop_last() =~= all.take(i as int));
                assert(all.take(i as int + 1).last() == item@);
                if reads(item.text_at("type"), "image_url") {
                    let mut image = Json::object();
                    image.put("type", Json::text("image_url"));
                    image.put("image_url", item.field("image_url"));
                    parts.push(image);
                    assert(json::list_view(parts@) =~= before + image_parts(
                        all.take(i as int + 1),
                    ));
                }
                i += 1;
            }
            assert(all.take(all.len() as int) =~= all);
        },
        _ => {
            assert(json::list_view(parts@) + Seq::<JsonV>::empty() =~= json::list_view(parts@));
        },
    }
}

/// The message of a user: its text, or its text and its images.
pub open spec fn user_message(message: JsonV) -> JsonV {
    let content = message.field("content"@);
    let flat = content_text(content);
    let images = content_images(content);
    if images.len() == 0 {
        JsonV::object().put("role"@, JsonV::Str("user"@)).put("content"@, JsonV::Str(flat))
    } else {
        let head = if flat.len() > 0 {
            seq![
                JsonV::object().put("type"@, JsonV::Str("text"@)).put("text"@, JsonV::Str(flat)),
            ]
        } else {
            Seq::empty()
        };
        JsonV::object().put("role"@, JsonV::Str("user"@)).put(
            "content"@,
            JsonV::Arr(head + images),
        )
    }
}

/// The text of a value, where it is one, and its JSON text where it is not.
pub open spec fn text_or_json(value: JsonV) -> Seq<char> {
    match value {
        JsonV::Str(s) => s,
        _ => json::json_text(value),
    }
}

/// The text of a value, where it is one, and its JSON text where it is not.
pub fn text_or_write(value: &Json) -> (shown: String)
    ensures
        shown@ == text_or_json(value@),
{
    match value {
        Json::Text(s) => text::owned(s.as_str()),
        _ => json::write_json(value),
    }
}

/// The text, or the empty text where there is none.
pub open spec fn or_empty(content: Option<Seq<char>>) -> Seq<char> {
    match content {
        Some(s) => s,
        None => Seq::empty(),
    }
}

/// A tool call as the upstream takes it.
pub open spec fn tool_call(call: JsonV) -> JsonV {
    let arguments = match call.at("function"@, "arguments"@) {
        Some(v) => text_or_json(v),
        None => "{}"@,
    };
    let name = match call.at("function"@, "name"@) {
        Some(v) => or_empty(v.as_text()),
        None => Seq::empty(),
    };
    JsonV::object().put("id"@, JsonV::Str(or_empty(call.text_at("id"@)))).put(
        "type"@,
        JsonV::Str("function"@),
    ).put(
        "function"@,
        JsonV::object().put("name"@, JsonV::Str(name)).put("arguments"@, JsonV::Str(arguments)),
    )
}

/// The tool calls of a message.
pub open spec fn tool_calls(message: JsonV) -> Seq<JsonV> {
    match message.field("tool_calls"@).as_list() {
        Some(calls) => calls.map_values(|call: JsonV| tool_call(call)),
        None => Seq::empty(),
    }
}

/// The message of the assistant. One that only calls tools gets a blank text:
/// the upstream refuses an empty one.
pub open spec fn assistant_message(message: JsonV) -> JsonV {
    let flat = content_text(message.field("content"@));
    let calls = tool_calls(message);
    let content = if flat.len() == 0 && calls.len() > 0 {
        " "@
    } else {
        flat
    };
    let plain = JsonV::object().put("role"@, JsonV::Str("assistant"@)).put(
        "content"@,
        JsonV::Str(content),
    );
    if calls.len() > 0 {
        plain.put("tool_calls"@, JsonV::Arr(calls))
    } else {
        plain
    }
}

/// The result of a tool.
pub open spec fn tool_message(message: JsonV) -> JsonV {
    JsonV::object().put("role"@, JsonV::Str("tool"@)).put(
        "tool_call_id"@,
        message.field("tool_call_id"@),
    ).put("content"@, JsonV::Str(content_text(message.field("content"@))))
}

/// A system prompt.
pub open spec fn system_message(message: JsonV) -> JsonV {
    JsonV::object().put("role"@, JsonV::Str("system"@)).put(
        "content"@,
        JsonV::Str(content_text(message.field("content"@))),
    )
}

/// The role of a message.
pub open spec fn role_of(message: JsonV) -> Seq<char> {
    or_empty(message.text_at("role"@))
}

/// A message as the upstream takes it; one of another role is left out.
pub open spec fn mapped(message: JsonV) -> Option<JsonV> {
    let role = role_of(message);
    if role == "user"@ {
        Some(user_message(message))
    } else if role == "assistant"@ {
        Some(assistant_message(message))
    } else if role == "tool"@ {
        Some(tool_message(message))
    } else if role == "system"@ || role == "developer"@ {
        Some(system_message(message))
    } else {
        None
    }
}

/// Whether a message is an assistant's turn that failed or was broken off.
pub open spec fn is_failed_turn(message: JsonV) -> bool {
    role_of(message) == "assistant"@ && (message.field("__failed"@).truthy() || message.field(
        "__aborted"@,
    ).truthy())
}

/// The ids of tool calls.
pub open spec fn call_ids(calls: Seq<JsonV>) -> Seq<Seq<char>>
    decreases calls.len(),
{
    if calls.len() == 0 {
        Seq::empty()
    } else {
        match calls.last().text_at("id"@) {
            Some(id) => call_ids(calls.drop_last()).push(id),
            None => call_ids(calls.drop_last()),
        }
    }
}

/// The ids of the tool calls of a message.
pub open spec fn ids_of(message: JsonV) -> Seq<Seq<char>> {
    match message.field("tool_calls"@).as_list() {
        Some(calls) => call_ids(calls),
        None => Seq::empty(),
    }
}

/// Messages brought into the upstream's form, and the ids of the tool calls
/// dropped on the way.
pub ghost struct Normalized {
    pub out: Seq<JsonV>,
    pub dropped: Seq<Seq<char>>,
}

impl Normalized {
    /// After one more message. A failed turn is dropped, and with it the
    /// results of its tool calls: a result without its call is refused.
    pub open spec fn after(self, message: JsonV) -> Normalized {
        if role_of(message).len() == 0 {
            self
        } else if is_failed_turn(message) {
            Normalized { dropped: self.dropped + ids_of(message), ..self }
        } else if role_of(message) == "tool"@ && self.dropped.contains(
            or_empty(message.text_at("tool_call_id"@)),
        ) {
            self
        } else {
            match mapped(message) {
                Some(m) => Normalized { out: self.out.push(m), ..self },
                None => self,
            }
        }
    }
}

/// Messages brought into the upstream's form.
pub open spec fn normalized(messages: Seq<JsonV>) -> Normalized
    decreases messages.len(),
{
    if messages.len() == 0 {
        Normalized { out: Seq::empty(), dropped: Seq::empty() }
    } else {
        normalized(messages.drop_last()).after(messages.last())
    }
}

/// Whether a text stands in a list.
pub fn listed(list: &Vec<String>, wanted: &str) -> (yes: bool)
    ensures
        yes == text::views(list@).contains(wanted@),
{
    let mut i: usize = 0;
    while i < list.len()
        invariant
            i <= list.len(),
            forall|k: int| 0 <= k < i ==> (#[trigger] list@[k])@ != wanted@,
        decreases list.len() - i,
    {
        if text::same(list[i].as_str(), wanted) {
            assert(text::views(list@)[i as int] == wanted@);
            return true;
        }
        i += 1;
    }
    assert forall|k: int| 0 <= k < text::views(list@).len() implies text::views(list@)[k] != wanted@ by {
        assert(list@[k]@ != wanted@);
    }
    false
}

/// The message of a user.
fn map_user(message: &Json) -> (out: Json)
    ensures
        out@ == user_message(message@),
{
    let content = message.field("content");
    let flat = content_to_text(&content);
    let mut parts: Vec<Json> = Vec::new();
    let mut images: Vec<Json> = Vec::new();
    images_of(&content, &mut images);
    proof {
        json::lemma_list_empty(parts@);
        assert(Seq::<JsonV>::empty() + content_images(content@) =~= content_images(content@));
    }
    let mut out = Json::object();
    out.put("role", Json::text("user"));
    if images.len() == 0 {
        out.put("content", Json::Text(flat));
    } else {
        if !flat.as_str().is_empty() {
            let mut part = Json::object();
            part.put("type", Json::text("text"));
            part.put("text", Json::Text(flat));
            proof {
                json::lemma_list_push(parts@, part);
            }
            parts.push(part);
        }
        let ghost head = json::list_view(parts@);
        images_of(&content, &mut parts);
        assert(head =~= (if flat@.len() > 0 {
            seq![
                JsonV::object().put("type"@, JsonV::Str("text"@)).put("text"@, JsonV::Str(flat@)),
            ]
        } else {
            Seq::empty()
        }));
        out.put("content", Json::list(parts));
    }
    out
}

/// A tool call as the upstream takes it.
fn map_call(call: &Json) -> (out: Json)
    ensures
        out@ == tool_call(call@),
{
    let arguments = match call.at("function", "arguments") {
        Some(value) => text_or_write(value),
        None => text::owned("{}"),
    };
    let name = match call.at("function", "name") {
        Some(value) => match value.as_text() {
            Some(s) => text::owned(s),
            None => String::new(),
        },
        None => String::new(),
    };
    let id = match call.text_at("id") {
        Some(s) => text::owned(s),
        None => String::new(),
    };
    let mut function = Json::object();
    function.put("name", Json::Text(name));
    function.put("arguments", Json::Text(arguments));
    let mut out = Json::object();
    out.put("id", Json::Text(id));
    out.put("type", Json::text("function"));
    out.put("function", function);
    out
}

/// The tool calls of a message.
fn map_calls(message: &Json) -> (calls: Vec<Json>)
    ensures
        json::list_view(calls@) == tool_calls(message@),
{
    let mut out: Vec<Json> = Vec::new();
    match message.list_at("tool_calls") {
        Some(calls) => {
            let mut i: usize = 0;
            while i < calls.len()
                invariant
                    i <= calls.len(),
                    out.len() == i,
                    forall|k: int| 0 <= k < i ==> (#[trigger] out@[k])@ == tool_call(calls@[k]@),
                decreases calls.len() - i,
            {
                out.push(map_call(&calls[i]));
                i += 1;
            }
        },
        None => {},
    }
    assert(json::list_view(out@) =~= tool_calls(message@));
    out
}

/// The message of the assistant.
fn map_assistant(message: &Json) -> (out: Json)
    ensures
        out@ == assistant_message(message@),
{
    let flat = content_to_text(&message.field("content"));
    let calls = map_calls(message);
    let mut out = Json::object();
    out.put("role", Json::text("assistant"));
    if flat.as_str().is_empty() && calls.len() > 0 {
        out.put("content", Json::text(" "));
    } else {
        out.put("content", Json::Text(flat));
    }
    if calls.len() > 0 {
        out.put("tool_calls", Json::list(calls));
    }
    out
}

/// Appends the ids of the tool calls of a message.
fn drop_calls(message: &Json, dropped: &mut Vec<String>)
    ensures
        text::views(final(dropped)@) == text::views(old(dropped)@) + ids_of(message@),
{
    let ghost before = text::views(dropped@);
    match message.list_at("tool_calls") {
        Some(calls) => {
            let ghost all = json::list_view(calls@);
            let mut i: usize = 0;
            assert(before =~= before + call_ids(all.take(0)));
            while i < calls.len()
                invariant
                    all == json::list_view(calls@),
                    i <= calls.len(),
                    text::views(dropped@) == before + call_ids(all.take(i as int)),
                decreases calls.len() - i,
            {
                assert(all.take(i as int + 1).drop_last() =~= all.take(i as int));
                assert(all.take(i as int + 1).last() == calls@[i as int]@);
                let ghost known = dropped@;
                match calls[i].text_at("id") {
                    Some(id) => {
                        let own = text::owned(id);
                        dropped.push(own);
                        assert(text::views(dropped@) =~= text::views(known).push(own@));
                        assert(text::views(dropped@) =~= before + call_ids(all.take(i as int + 1)));
                    },
                    None => {},
                }
                i += 1;
            }
            assert(all.take(all.len() as int) =~= all);
        },
        None => {
            assert(before + Seq::<Seq<char>>::empty() =~= before);
        },
    }
}

/// A message as the upstream takes it.
fn map_message(message: &Json, role: &str) -> (out: Option<Json>)
    requires
        role@ == role_of(message@),
    ensures
        json::owned_view(out) == mapped(message@),
{
    if text::same(role, "user") {
        Some(map_user(message))
    } else if text::same(role, "assistant") {
        Some(map_assistant(message))
    } else if text::same(role, "tool") {
        let mut out = Json::object();
        out.put("role", Json::text("tool"));
        out.put("tool_call_id", message.field("tool_call_id"));
        out.put("content", Json::Text(content_to_text(&message.field("content"))));
        Some(out)
    } else if text::same(role, "system") || text::same(role, "developer") {
        let mut out = Json::object();
        out.put("role", Json::text("system"));
        out.put("content", Json::Text(content_to_text(&message.field("content"))));
        Some(out)
    } else {
        None
    }
}

/// Messages brought into the upstream's form: failed turns are dropped together
/// with the results of their tool calls, contents are flattened but for images,
/// and every system prompt stays where it is.
pub fn normalize_messages(messages: &[Json]) -> (out: Vec<Json>)
    ensures
        json::list_view(out@) == normalized(json::list_view(messages@)).out,
{
    let ghost all = json::list_view(messages@);
    let mut out: Vec<Json> = Vec::new();
    let mut dropped: Vec<String> = Vec::new();
    let mut i: usize = 0;
    proof {
        json::lemma_list_empty(out@);
        assert(text::views(dropped@) =~= Seq::empty());
        assert(all.take(0) =~= Seq::empty());
    }
    while i < messages.len()
        invariant
            all == json::list_view(messages@),
            i <= messages.len(),
            json::list_view(out@) == normalized(all.take(i as int)).out,
            text::views(dropped@) == normalized(all.take(i as int)).dropped,
        decreases messages.len() - i,
    {
        let message = &messages[i];
        assert(all.take(i as int + 1).drop_last() =~= all.take(i as int));
        assert(all.take(i as int + 1).last() == message@);
        i += 1;
        let role = match message.text_at("role") {
            Some(s) => text::owned(s),
            None => String::new(),
        };
        assert(role@ == role_of(message@));
        if role.as_str().is_empty() {
            continue;
        }
        if text::same(role.as_str(), "assistant") && (message.truthy_at("__failed")
            || message.truthy_at("__aborted")) {
            drop_calls(message, &mut dropped);
            continue;
        }
        if text::same(role.as_str(), "tool") {
            let call_id = match message.text_at("tool_call_id") {
                Some(s) => text::owned(s),
                None => String::new(),
            };
            if listed(&dropped, call_id.as_str()) {
                continue;
            }
        }
        match map_message(message, role.as_str()) {
            Some(m) => {
                proof {
                    json::lemma_list_push(out@, m);
                }
                out.push(m);
            },
            None => {},
        }
    }
    assert(all.take(all.len() as int) =~= all);
    out
}

/// Once dropped, a tool call stays dropped.
proof fn lemma_dropped_stays(before: Seq<JsonV>, more: Seq<JsonV>, id: Seq<char>)
    requires
        normalized(before).dropped.contains(id),
    ensures
        normalized(before + more).dropped.contains(id),
    decreases more.len(),
{
    if more.len() == 0 {
        assert(before + more =~= before);
    } else {
        lemma_dropped_stays(before, more.drop_last(), id);
        let all = before + more;
        assert(all.drop_last() =~= before + more.drop_last());
        let known = normalized(all.drop_last());
        let ids = ids_of(all.last());
        let i = choose|i: int| 0 <= i < known.dropped.len() && known.dropped[i] == id;
        assert((known.dropped + ids)[i] == id);
    }
}

/// A failed turn leaves no orphans: neither the turn nor, however much later,
/// the result of one of its tool calls reaches the upstream.
pub proof fn failed_turns_leave_no_orphans(
    before: Seq<JsonV>,
    failed: JsonV,
    between: Seq<JsonV>,
    result: JsonV,
)
    requires
        is_failed_turn(failed),
        role_of(result) == "tool"@,
        ids_of(failed).contains(or_empty(result.text_at("tool_call_id"@))),
    ensures
        normalized(before.push(failed)).out == normalized(before).out,
        normalized((before.push(failed) + between).push(result)).out == normalized(
            before.push(failed) + between,
        ).out,
{
    reveal_strlit("assistant");
    reveal_strlit("tool");
    let id = or_empty(result.text_at("tool_call_id"@));
    let turned = before.push(failed);
    assert(turned.drop_last() =~= before);
    let ids = ids_of(failed);
    let i = choose|i: int| 0 <= i < ids.len() && ids[i] == id;
    let old_ids = normalized(before).dropped;
    assert((old_ids + ids)[old_ids.len() + i] == id);
    assert(normalized(turned).dropped.contains(id));
    lemma_dropped_stays(turned, between, id);
    let all = (turned + between).push(result);
    assert(all.drop_last() =~= turned + between);
}

/// A tool as the upstream takes it, where it has a name.
pub open spec fn tool_entry(tool: JsonV) -> JsonV {
    let function = JsonV::object().put_some("name"@, tool.at("function"@, "name"@)).put_some(
        "description"@,
        tool.at("function"@, "description"@),
    ).put_some("parameters"@, tool.at("function"@, "parameters"@));
    JsonV::object().put("type"@, JsonV::Str("function"@)).put("function"@, function)
}

/// Whether a tool has a name.
pub open spec fn is_named(tool: JsonV) -> bool {
    match tool.at("function"@, "name"@) {
        Some(name) => name.as_text() is Some,
        None => false,
    }
}

/// The tools that have a name, as the upstream takes them.
pub open spec fn named_tools(tools: Seq<JsonV>) -> Seq<JsonV>
    decreases tools.len(),
{
    if tools.len() == 0 {
        Seq::empty()
    } else if is_named(tools.last()) {
        named_tools(tools.drop_last()).push(tool_entry(tools.last()))
    } else {
        named_tools(tools.drop_last())
    }
}

/// The tools of a request, or nothing where there is none to send.
pub open spec fn tools_of(tools: Option<JsonV>) -> Option<Seq<JsonV>> {
    match tools {
        Some(JsonV::Arr(items)) => if named_tools(items).len() > 0 {
            Some(named_tools(items))
        } else {
            None
        },
        _ => None,
    }
}

/// A copy of an optional value.
pub fn copied(value: Option<&Json>) -> (copy: Option<Json>)
    ensures
        json::owned_view(copy) == json::opt_view(value),
{
    match value {
        Some(v) => Some(v.clone()),
        None => None,
    }
}

/// What an optional list means.
pub open spec fn opt_list_view(list: Option<Vec<Json>>) -> Option<Seq<JsonV>> {
    match list {
        Some(items) => Some(json::list_view(items@)),
        None => None,
    }
}

/// The tools of a request, or nothing where there is none to send.
pub fn normalize_tools(tools: Option<&Json>) -> (out: Option<Vec<Json>>)
    ensures
        opt_list_view(out) == tools_of(json::opt_view(tools)),
{
    let items = match tools {
        Some(value) => match value.as_list() {
            Some(items) => items,
            None => return None,
        },
        None => return None,
    };
    let ghost all = json::list_view(items@);
    let mut out: Vec<Json> = Vec::new();
    let mut i: usize = 0;
    proof {
        json::lemma_list_empty(out@);
        assert(all.take(0) =~= Seq::empty());
    }
    while i < items.len()
        invariant
            all == json::list_view(items@),
            i <= items.len(),
            json::list_view(out@) == named_tools(all.take(i as int)),
        decreases items.len() - i,
    {
        let item = &items[i];
        assert(all.take(i as int + 1).drop_last() =~= all.take(i as int));
        assert(all.take(i as int + 1).last() == item@);
        let named = match item.at("function", "name") {
            Some(name) => name.as_text().is_some(),
            None => false,
        };
        if named {
            let mut function = Json::object();
            function.put_some("name", copied(item.at("function", "name")));
            function.put_some("description", copied(item.at("function", "description")));
            function.put_some("parameters", copied(item.at("function", "parameters")));
            let mut entry = Json::object();
            entry.put("type", Json::text("function"));
            entry.put("function", function);
            proof {
                json::lemma_list_push(out@, entry);
            }
            out.push(entry);
        }
        i += 1;
    }
    assert(all.take(all.len() as int) =~= all);
    if out.len() == 0 {
        None
    } else {
        Some(out)
    }
}

/// What a request asks of thinking.
#[derive(Debug)]
pub struct ThinkingChoice {
    /// Whether to say that thinking is on or off; nothing leaves it to the
    /// upstream.
    pub enable: Option<bool>,
    /// How much of it, sent only where thinking is said to be on.
    pub effort: Option<String>,
}

/// What a choice means.
pub ghost struct ChoiceV {
    pub enable: Option<bool>,
    pub effort: Option<Seq<char>>,
}

impl View for ThinkingChoice {
    type V = ChoiceV;

    open spec fn view(&self) -> ChoiceV {
        ChoiceV { enable: self.enable, effort: json::owned_text(self.effort) }
    }
}

/// The value by which a request speaks of thinking: that of the first of three
/// keys that is there at all, null or not.
pub open spec fn reasoning_asked(body: JsonV) -> Option<JsonV> {
    if body.get("reasoning_effort"@) is Some {
        body.get("reasoning_effort"@)
    } else if body.get("reasoning"@) is Some {
        body.get("reasoning"@)
    } else {
        body.get("thinking"@)
    }
}

/// The value by which a request speaks of thinking, or nothing where none of the
/// three keys is there. A key that is there with null counts as there.
pub fn declared_reasoning(body: &Json) -> (asked: Option<Json>)
    ensures
        json::owned_view(asked) == reasoning_asked(body@),
{
    match body.get("reasoning_effort") {
        Some(value) => Some(value.clone()),
        None => match body.get("reasoning") {
            Some(value) => Some(value.clone()),
            None => copied(body.get("thinking")),
        },
    }
}

/// Whether a request really speaks of thinking: null says nothing.
pub fn client_specified_reasoning(body: &Json) -> (yes: bool)
    ensures
        yes == (reasoning_asked(body@) is Some && reasoning_asked(body@) != Some(JsonV::Null)),
{
    match declared_reasoning(body) {
        Some(value) => !value.is_null(),
        None => false,
    }
}

/// The texts among values.
pub open spec fn texts_among(items: Seq<JsonV>) -> Seq<Seq<char>>
    decreases items.len(),
{
    if items.len() == 0 {
        Seq::empty()
    } else {
        match items.last() {
            JsonV::Str(s) => texts_among(items.drop_last()).push(s),
            _ => texts_among(items.drop_last()),
        }
    }
}

/// The efforts that a model declares.
pub open spec fn declared_efforts(model: JsonV) -> Seq<Seq<char>> {
    match model.field("efforts"@).as_list() {
        Some(items) => texts_among(items),
        None => Seq::empty(),
    }
}

/// The effort to ask for: the wanted one where the model has it, else the
/// model's own middle or first. A model that declares none is taken to have the
/// three usual ones.
pub open spec fn effort_for(wanted: Seq<char>, declared: Seq<Seq<char>>) -> Seq<char> {
    let pool = if declared.len() == 0 {
        seq!["low"@, "medium"@, "xhigh"@]
    } else {
        declared
    };
    if pool.contains(wanted) {
        wanted
    } else if declared.contains("medium"@) {
        "medium"@
    } else if declared.len() > 0 {
        declared[0]
    } else {
        "medium"@
    }
}

/// An effort by the upstream's name for it.
pub open spec fn effort_name(asked: Seq<char>) -> Seq<char> {
    if asked == "minimal"@ || asked == "min"@ {
        "low"@
    } else if asked == "high"@ || asked == "max"@ {
        "xhigh"@
    } else {
        asked
    }
}

/// Whether a request asks to switch thinking off.
pub open spec fn asks_off(asked: JsonV) -> bool {
    asked == JsonV::Bool(false) || asked == JsonV::Str("off"@) || asked == JsonV::Str("none"@)
        || asked == JsonV::Str("disabled"@)
}

/// What to send of thinking. A model that does not think is sent nothing, and so
/// is a wish to switch thinking off, which the upstream cannot do. Without a
/// wish the upstream's own effort stands.
pub open spec fn thinking_choice(body: JsonV, model: JsonV) -> ChoiceV {
    let asked = match reasoning_asked(body) {
        Some(v) => v,
        None => JsonV::Null,
    };
    if !model.field("reasoning"@).truthy() || asks_off(asked) {
        ChoiceV { enable: None, effort: None }
    } else if asked == JsonV::Null || asked == JsonV::Bool(true) {
        ChoiceV { enable: Some(true), effort: None }
    } else {
        let wanted = effort_name(text::lowercase(text::trimmed(text_or_json(asked))));
        ChoiceV { enable: Some(true), effort: Some(effort_for(wanted, declared_efforts(model))) }
    }
}

/// The texts among values.
fn collect_texts(items: &Vec<Json>) -> (list: Vec<String>)
    ensures
        text::views(list@) == texts_among(json::list_view(items@)),
{
    let ghost all = json::list_view(items@);
    let mut list: Vec<String> = Vec::new();
    let mut i: usize = 0;
    assert(text::views(list@) =~= Seq::empty());
    assert(all.take(0) =~= Seq::empty());
    while i < items.len()
        invariant
            all == json::list_view(items@),
            i <= items.len(),
            text::views(list@) == texts_among(all.take(i as int)),
        decreases items.len() - i,
    {
        assert(all.take(i as int + 1).drop_last() =~= all.take(i as int));
        assert(all.take(i as int + 1).last() == items@[i as int]@);
        let ghost before = list@;
        match items[i].as_text() {
            Some(s) => {
                let own = text::owned(s);
                list.push(own);
                assert(text::views(list@) =~= text::views(before).push(own@));
            },
            None => {},
        }
        i += 1;
    }
    assert(all.take(all.len() as int) =~= all);
    list
}

/// The effort to ask for.
fn pick_effort(wanted: &str, declared: &Vec<String>) -> (effort: String)
    ensures
        effort@ == effort_for(wanted@, text::views(declared@)),
{
    if declared.len() == 0 {
        let ghost pool = seq!["low"@, "medium"@, "xhigh"@];
        let usual = text::same(wanted, "low") || text::same(wanted, "medium") || text::same(
            wanted,
            "xhigh",
        );
        proof {
            assert(pool[0] == "low"@ && pool[1] == "medium"@ && pool[2] == "xhigh"@);
            assert(pool.contains(wanted@) == usual);
        }
        if usual {
            text::owned(wanted)
        } else {
            text::owned("medium")
        }
    } else if listed(declared, wanted) {
        text::owned(wanted)
    } else if listed(declared, "medium") {
        text::owned("medium")
    } else {
        text::owned(declared[0].as_str())
    }
}

/// What to send of thinking for a request and a model.
pub fn resolve_thinking(body: &Json, model: &Json) -> (choice: ThinkingChoice)
    ensures
        choice@ == thinking_choice(body@, model@),
{
    let asked = match declared_reasoning(body) {
        Some(value) => value,
        None => Json::Null,
    };
    if !model.truthy_at("reasoning") {
        return ThinkingChoice { enable: None, effort: None };
    }
    let off = match &asked {
        Json::Bool(flag) => !*flag,
        Json::Text(s) => text::same(s.as_str(), "off") || text::same(s.as_str(), "none")
            || text::same(s.as_str(), "disabled"),
        _ => false,
    };
    if off {
        return ThinkingChoice { enable: None, effort: None };
    }
    let unsaid = match &asked {
        Json::Null => true,
        Json::Bool(flag) => *flag,
        _ => false,
    };
    if unsaid {
        return ThinkingChoice { enable: Some(true), effort: None };
    }
    let shown = text_or_write(&asked);
    let lower = text::to_lowercase(text::trim(shown.as_str()));
    let wanted = if text::same(lower.as_str(), "minimal") || text::same(lower.as_str(), "min") {
        text::owned("low")
    } else if text::same(lower.as_str(), "high") || text::same(lower.as_str(), "max") {
        text::owned("xhigh")
    } else {
        lower
    };
    let declared = match model.list_at("efforts") {
        Some(items) => collect_texts(items),
        None => Vec::new(),
    };
    assert(text::views(declared@) =~= declared_efforts(model@));
    ThinkingChoice { enable: Some(true), effort: Some(pick_effort(wanted.as_str(), &declared)) }
}

/// What an upstream error means for the request.
#[derive(Debug, Clone, Copy, PartialEq, Eq, Structural)]
pub enum UpstreamKind {
    /// The account's quota or plan does not allow it.
    Quota,
    /// Too many requests.
    Rate,
    /// The account is not let in.
    Auth,
    /// The upstream failed.
    Server,
    /// Anything else.
    Unknown,
}

/// An upstream error and what to tell the client.
#[derive(Debug)]
pub struct ClassifiedError {
    pub kind: UpstreamKind,
    pub message: String,
    /// The page with the plans, where the upstream gave one.
    pub pricing_url: Option<String>,
}

/// What a classified error means.
#[verifier::ext_equal]
pub ghost struct ClassifiedV {
    pub kind: UpstreamKind,
    pub message: Seq<char>,
    pub pricing_url: Option<Seq<char>>,
}

impl View for ClassifiedError {
    type V = ClassifiedV;

    open spec fn view(&self) -> ClassifiedV {
        ClassifiedV {
            kind: self.kind,
            message: self.message@,
            pricing_url: json::owned_text(self.pricing_url),
        }
    }
}

/// Whether a character ends a link.
pub open spec fn ends_link(c: char) -> bool {
    c == '"' || c == '\\' || text::is_space(c)
}

/// The first position at or after `from` that ends a link, or the length.
pub open spec fn link_end(s: Seq<char>, from: int) -> int
    decreases s.len() - from,
{
    if from < 0 || from >= s.len() || ends_link(s[from]) {
        from
    } else {
        link_end(s, from + 1)
    }
}

/// The first link at or after `from` to a page of plans.
pub open spec fn pricing_link(s: Seq<char>, from: int) -> Option<Seq<char>>
    decreases s.len() - from,
{
    match text::first_at(text::ascii_lowercase(s), "http"@, from) {
        Some(at) => {
            let link = s.subrange(at, link_end(s, at));
            if text::has_part_ignoring_case(link, "/pricing"@) {
                Some(link)
            } else if from <= at && at + 4 < s.len() {
                pricing_link(s, at + 4)
            } else {
                None
            }
        },
        None => None,
    }
}

proof fn lemma_link_end(s: Seq<char>, from: int)
    requires
        0 <= from <= s.len(),
    ensures
        from <= link_end(s, from) <= s.len(),
    decreases s.len() - from,
{
    if from < s.len() && !ends_link(s[from]) {
        lemma_link_end(s, from + 1);
    }
}

/// Whether `part`, which is in small letters, stands in `content` when the case
/// of ASCII letters is ignored.
pub fn contains_ignoring_case(content: &str, part: &str) -> (yes: bool)
    ensures
        yes == text::has_part_ignoring_case(content@, part@),
{
    let lower = text::lower_chars(content);
    let piece = text::chars_of(part);
    proof {
        text::lemma_first_at(lower@, piece@, 0);
    }
    match text::find(&lower, &piece, 0) {
        Some(at) => {
            assert(text::stands_at(lower@, part@, at as int));
            true
        },
        None => false,
    }
}

/// The link to a page of plans that a text holds.
fn pricing_url_of(raw: &str) -> (link: Option<String>)
    ensures
        json::owned_text(link) == pricing_link(raw@, 0),
{
    let chars = text::chars_of(raw);
    let lower = text::lower_chars(raw);
    let scheme = text::chars_of("http");
    proof {
        reveal_strlit("http");
    }
    let mut from: usize = 0;
    loop
        invariant
            chars@ == raw@,
            lower@ == text::ascii_lowercase(raw@),
            scheme@ == "http"@,
            scheme@.len() == 4,
            from <= chars.len(),
            pricing_link(raw@, 0) == pricing_link(raw@, from as int),
        decreases chars.len() - from,
    {
        proof {
            text::lemma_first_at(lower@, scheme@, from as int);
        }
        let at = match text::find(&lower, &scheme, from) {
            Some(at) => at,
            None => return None,
        };
        let mut end: usize = at;
        proof {
            lemma_link_end(raw@, at as int);
        }
        while end < chars.len() && !(chars[end] == '"' || chars[end] == '\\' || text::space(
            chars[end],
        ))
            invariant
                chars@ == raw@,
                at <= end <= chars.len(),
                link_end(raw@, at as int) == link_end(raw@, end as int),
            decreases chars.len() - end,
        {
            end += 1;
        }
        let link = raw.substring_char(at, end);
        if contains_ignoring_case(link, "/pricing") {
            return Some(text::owned(link));
        }
        if at + 4 >= chars.len() {
            return None;
        }
        from = at + 4;
    }
}

/// The words of an upstream error that speak of a quota or a plan.
pub open spec fn speaks_of_quota(s: Seq<char>) -> bool {
    ||| text::has_part_ignoring_case(s, "pricingurl"@)
    ||| text::has_part_ignoring_case(s, "insufficient"@)
    ||| text::has_part_ignoring_case(s, "no_quota"@)
    ||| text::has_part_ignoring_case(s, "quota_exceed"@)
    ||| text::has_part_ignoring_case(s, "exceed_quota"@)
    ||| text::has_part_ignoring_case(s, "exceeded"@)
    ||| text::has_part_ignoring_case(s, "credit"@)
    ||| text::has_part_ignoring_case(s, "upgrade"@)
    ||| text::has_part_ignoring_case(s, "subscription"@)
    ||| text::has_part_ignoring_case(s, "plan"@)
    ||| text::has_part_ignoring_case(s, "trial"@)
}

/// What an upstream error means. What the body says goes before the status: the
/// upstream uses one status for a missing plan and for a login that is not let
/// in.
pub open spec fn classified(status: int, s: Seq<char>) -> ClassifiedV {
    let pricing = pricing_link(s, 0);
    if pricing is Some || speaks_of_quota(s) {
        ClassifiedV {
            kind: UpstreamKind::Quota,
            message: "当前账号额度不足或套餐不支持该模型"@,
            pricing_url: pricing,
        }
    } else if status == 429 || text::has_part_ignoring_case(s, "rate limit"@)
        || text::has_part_ignoring_case(s, "too many"@) {
        ClassifiedV {
            kind: UpstreamKind::Rate,
            message: "请求过于频繁，请稍后重试"@,
            pricing_url: None,
        }
    } else if status == 401 {
        ClassifiedV {
            kind: UpstreamKind::Auth,
            message: "登录态已失效，请重新登录"@,
            pricing_url: None,
        }
    } else if status == 403 {
        ClassifiedV {
            kind: UpstreamKind::Auth,
            message: "上游拒绝访问，可能是登录态失效或权限不足"@,
            pricing_url: None,
        }
    } else if text::has_part(s, "\"code\":112"@) || text::has_part(s, "\"code\": 112"@) {
        ClassifiedV {
            kind: UpstreamKind::Quota,
            message: "当前账号额度不足或套餐不支持该模型"@,
            pricing_url: None,
        }
    } else if status >= 500 {
        ClassifiedV {
            kind: UpstreamKind::Server,
            message: "上游服务异常"@,
            pricing_url: None,
        }
    } else {
        ClassifiedV { kind: UpstreamKind::Unknown, message: Seq::empty(), pricing_url: None }
    }
}

/// Whether an upstream error speaks of a quota or a plan.
fn quota_words(content: &str) -> (yes: bool)
    ensures
        yes == speaks_of_quota(content@),
{
    contains_ignoring_case(content, "pricingurl") || contains_ignoring_case(content, "insufficient")
        || contains_ignoring_case(content, "no_quota") || contains_ignoring_case(
        content,
        "quota_exceed",
    ) || contains_ignoring_case(content, "exceed_quota") || contains_ignoring_case(
        content,
        "exceeded",
    ) || contains_ignoring_case(content, "credit") || contains_ignoring_case(content, "upgrade")
        || contains_ignoring_case(content, "subscription") || contains_ignoring_case(
        content,
        "plan",
    ) || contains_ignoring_case(content, "trial")
}

/// A classified error without a page of plans.
fn plain_error(kind: UpstreamKind, message: &str) -> (error: ClassifiedError)
    ensures
        error@ == (ClassifiedV { kind, message: message@, pricing_url: None }),
{
    ClassifiedError { kind, message: text::owned(message), pricing_url: None }
}

/// What an upstream error means, by its body first and then by its status.
pub fn classify_upstream_error(status: u16, content: &str) -> (error: ClassifiedError)
    ensures
        error@ == classified(status as int, content@),
{
    let pricing = pricing_url_of(content);
    if pricing.is_some() || quota_words(content) {
        return ClassifiedError {
            kind: UpstreamKind::Quota,
            message: text::owned("当前账号额度不足或套餐不支持该模型"),
            pricing_url: pricing,
        };
    }
    if status == 429 || contains_ignoring_case(content, "rate limit") || contains_ignoring_case(
        content,
        "too many",
    ) {
        return plain_error(UpstreamKind::Rate, "请求过于频繁，请稍后重试");
    }
    if status == 401 {
        return plain_error(UpstreamKind::Auth, "登录态已失效，请重新登录");
    }
    if status == 403 {
        return plain_error(UpstreamKind::Auth, "上游拒绝访问，可能是登录态失效或权限不足");
    }
    if text::contains(content, "\"code\":112") || text::contains(content, "\"code\": 112") {
        return plain_error(UpstreamKind::Quota, "当前账号额度不足或套餐不支持该模型");
    }
    if status >= 500 {
        return plain_error(UpstreamKind::Server, "上游服务异常");
    }
    ClassifiedError { kind: UpstreamKind::Unknown, message: String::new(), pricing_url: None }
}

/// What the body says goes before the status: an error that speaks of a quota is
/// about the quota, whatever its status.
pub proof fn body_goes_before_status(status: int, other: int, s: Seq<char>)
    requires
        pricing_link(s, 0) is Some || speaks_of_quota(s),
    ensures
        classified(status, s).kind == UpstreamKind::Quota,
        classified(status, s) == classified(other, s),
{
}

/// The name by which a client knows a model that the upstream names: by the
/// upstream's key its name, else by its id.
pub open spec fn model_back(state: models::CatalogV, name: Seq<char>) -> Option<Seq<char>> {
    if name.len() == 0 {
        None
    } else {
        match first_keyed(state.union().out, name) {
            Some(model) => model.text_at("name"@),
            None => match state.resolved(name, Region::Global) {
                Some(model) => model.text_at("id"@),
                None => None,
            },
        }
    }
}

/// The first model with an upstream's key.
pub open spec fn first_keyed(list: Seq<JsonV>, key: Seq<char>) -> Option<JsonV>
    decreases list.len(),
{
    if list.len() == 0 {
        None
    } else if list[0].text_at("upstreamKey"@) == Some(key) {
        Some(list[0])
    } else {
        first_keyed(list.skip(1), key)
    }
}

/// The name by which a client knows a model that the upstream names.
pub fn map_model_back(state: &CatalogState, name: &str) -> (known: Option<String>)
    ensures
        json::owned_text(known) == model_back(state@, name@),
{
    if name.is_empty() {
        return None;
    }
    let list = models::list(state);
    let ghost all = json::list_view(list@);
    let mut i: usize = 0;
    assert(all.skip(0) =~= all);
    while i < list.len()
        invariant
            all == json::list_view(list@),
            all == state@.union().out,
            name@.len() > 0,
            i <= list.len(),
            first_keyed(all, name@) == first_keyed(all.skip(i as int), name@),
        decreases list.len() - i,
    {
        assert(all.skip(i as int)[0] == list@[i as int]@);
        assert(all.skip(i as int).skip(1) =~= all.skip(i as int + 1));
        if reads(list[i].text_at("upstreamKey"), name) {
            return match list[i].text_at("name") {
                Some(s) => Some(text::owned(s)),
                None => None,
            };
        }
        i += 1;
    }
    match models::resolve(state, name, Region::Global) {
        Some(model) => match model.text_at("id") {
            Some(s) => Some(text::owned(s)),
            None => None,
        },
        None => None,
    }
}

/// The truth of a value as a scripting language has it.
pub fn truthy(value: &Json) -> (yes: bool)
    ensures
        yes == value@.truthy(),
{
    value.truthy()
}

/// The kind of session.
pub const SESSION_TYPE: &'static str = "qodercli";

/// The agent that answers.
pub const AGENT_ID: &'static str = "agent_common";

/// The kind of task.
pub const CHAT_TASK: &'static str = "FREE_INPUT";

/// The bytes of one message that its record is made of.
pub open spec fn message_bytes(before: Seq<u8>, message: JsonV) -> Seq<u8> {
    let with_role = match message.text_at("role"@) {
        Some(role) => before.push(0) + encode_utf8(role),
        None => before,
    };
    if message.field("content"@) == JsonV::Null {
        with_role
    } else {
        with_role.push(0) + encode_utf8(text_or_json(message.field("content"@)))
    }
}

/// The bytes of messages that their record is made of.
pub open spec fn messages_bytes(before: Seq<u8>, messages: Seq<JsonV>) -> Seq<u8>
    decreases messages.len(),
{
    if messages.len() == 0 {
        before
    } else {
        message_bytes(messages_bytes(before, messages.drop_last()), messages.last())
    }
}

/// The id of the record of a request: the same messages, tools, model and limit
/// give the same one, by which the upstream knows a conversation that goes on.
pub open spec fn record_id(
    key: Seq<char>,
    messages: Seq<JsonV>,
    tools: Option<Seq<JsonV>>,
    limit: int,
) -> Seq<char> {
    let said = messages_bytes(encode_utf8("qoder-record"@).push(0) + encode_utf8(key), messages);
    let equipped = match tools {
        Some(t) => said.push(0) + encode_utf8(json::json_text(JsonV::Arr(t))),
        None => said,
    };
    let whole = equipped.push(0) + encode_utf8("mt="@ + text::decimal_int(limit));
    text::first_chars(digest::hex_of(digest::sha256_of(whole)), 16)
}

/// What an optional list means.
pub open spec fn list_ref_view(list: Option<&Vec<Json>>) -> Option<Seq<JsonV>> {
    match list {
        Some(items) => Some(json::list_view(items@)),
        None => None,
    }
}

/// The id of the record of a request.
fn record_id_for(
    upstream_key: &str,
    messages: &[Json],
    tools: Option<&Vec<Json>>,
    max_tokens: i64,
) -> (id: String)
    ensures
        id@ == record_id(
            upstream_key@,
            json::list_view(messages@),
            list_ref_view(tools),
            max_tokens as int,
        ),
{
    let mut bytes: Vec<u8> = Vec::new();
    digest::push_text(&mut bytes, "qoder-record");
    assert(bytes@ =~= encode_utf8("qoder-record"@));
    bytes.push(0);
    digest::push_text(&mut bytes, upstream_key);
    let ghost start = bytes@;
    let ghost all = json::list_view(messages@);
    let mut i: usize = 0;
    assert(all.take(0) =~= Seq::empty());
    while i < messages.len()
        invariant
            all == json::list_view(messages@),
            i <= messages.len(),
            bytes@ == messages_bytes(start, all.take(i as int)),
        decreases messages.len() - i,
    {
        let message = &messages[i];
        assert(all.take(i as int + 1).drop_last() =~= all.take(i as int));
        assert(all.take(i as int + 1).last() == message@);
        if let Some(role) = message.text_at("role") {
            bytes.push(0);
            digest::push_text(&mut bytes, role);
        }
        let content = message.field("content");
        if !content.is_null() {
            bytes.push(0);
            let shown = text_or_write(&content);
            digest::push_text(&mut bytes, shown.as_str());
        }
        i += 1;
    }
    assert(all.take(all.len() as int) =~= all);
    if let Some(tools) = tools {
        bytes.push(0);
        let written = json::write_json(&Json::list(json::clone_list(tools)));
        digest::push_text(&mut bytes, written.as_str());
    }
    bytes.push(0);
    let mut limit = text::owned("mt=");
    let digits = text::signed_text(max_tokens);
    limit.append(digits.as_str());
    digest::push_text(&mut bytes, limit.as_str());
    let hex = digest::hex(&digest::sha256(&bytes));
    text::owned(text::take_chars(hex.as_str(), 16))
}

/// The base of the id of a session: one for each account and model.
pub open spec fn session_base(user_id: Seq<char>, key: Seq<char>) -> Seq<char> {
    let whole = (encode_utf8("qoder-session"@).push(0) + encode_utf8(user_id)).push(0)
        + encode_utf8(key);
    text::first_chars(digest::hex_of(digest::sha256_of(whole)), 16)
}

/// The id of a session: with a seed the same each time, else a new one.
pub open spec fn session_id(
    user_id: Seq<char>,
    key: Seq<char>,
    seed: Option<Seq<char>>,
    fresh: Seq<char>,
) -> Seq<char> {
    session_base(user_id, key) + "-"@ + (if seed is Some && seed.unwrap().len() > 0 {
        seed.unwrap()
    } else {
        fresh
    })
}

/// The id of a session.
fn session_id_for(user_id: &str, upstream_key: &str, seed: Option<&str>, fresh: &str) -> (id:
    String)
    ensures
        id@ == session_id(user_id@, upstream_key@, json::opt_text(seed), fresh@),
{
    let mut bytes: Vec<u8> = Vec::new();
    digest::push_text(&mut bytes, "qoder-session");
    assert(bytes@ =~= encode_utf8("qoder-session"@));
    bytes.push(0);
    digest::push_text(&mut bytes, user_id);
    bytes.push(0);
    digest::push_text(&mut bytes, upstream_key);
    let hex = digest::hex(&digest::sha256(&bytes));
    let mut id = text::owned(text::take_chars(hex.as_str(), 16));
    id.append("-");
    match seed {
        Some(seed) => {
            if seed.is_empty() {
                id.append(fresh);
            } else {
                id.append(seed);
            }
        },
        None => id.append(fresh),
    }
    id
}

/// The same account, model and seed give the same session.
pub proof fn seeded_sessions_are_stable(
    user_id: Seq<char>,
    key: Seq<char>,
    seed: Seq<char>,
    fresh: Seq<char>,
    other: Seq<char>,
)
    requires
        seed.len() > 0,
    ensures
        session_id(user_id, key, Some(seed), fresh) == session_id(user_id, key, Some(seed), other),
{
}

/// What of a model's configuration is sent, a key at a time: those that are
/// there and not null.
pub open spec fn put_present(config: JsonV, key: Seq<char>, slim: JsonV) -> JsonV {
    if config.field(key) == JsonV::Null {
        slim
    } else {
        slim.put(key, config.field(key))
    }
}

/// The configuration of a model as it is sent. Its thinking configuration must
/// not go back: it would overrule what the request says of thinking.
pub open spec fn slim_config(config: JsonV, key: Seq<char>) -> JsonV {
    put_present(
        config,
        "format"@,
        put_present(
            config,
            "source"@,
            put_present(
                config,
                "is_vl"@,
                put_present(
                    config,
                    "is_reasoning"@,
                    JsonV::object().put("key"@, JsonV::Str(key)),
                ),
            ),
        ),
    )
}

/// Copies an entry that is there and not null.
fn keep_present(config: &Json, key: &str, slim: &mut Json)
    ensures
        final(slim)@ == put_present(config@, key@, old(slim)@),
{
    let value = config.field(key);
    if !value.is_null() {
        slim.put(key, value);
    }
}

/// The configuration of a model as it is sent.
pub fn slim_model_config(config: &Json, upstream_key: &str) -> (slim: Json)
    ensures
        slim@ == slim_config(config@, upstream_key@),
{
    let mut slim = Json::object();
    slim.put("key", Json::text(upstream_key));
    keep_present(config, "is_reasoning", &mut slim);
    keep_present(config, "is_vl", &mut slim);
    keep_present(config, "source", &mut slim);
    keep_present(config, "format", &mut slim);
    slim
}

/// The thinking configuration of a model is never sent back.
pub proof fn thinking_config_stays_behind(config: JsonV, key: Seq<char>)
    ensures
        slim_config(config, key).get("thinking_config"@) is None,
{
    reveal_strlit("thinking_config");
    reveal_strlit("key");
    reveal_strlit("is_reasoning");
    reveal_strlit("is_vl");
    reveal_strlit("source");
    reveal_strlit("format");
    assert("thinking_config"@.len() == 15);
}

/// The text of the last message of a user.
pub open spec fn last_user_text(messages: Seq<JsonV>) -> Seq<char>
    decreases messages.len(),
{
    if messages.len() == 0 {
        Seq::empty()
    } else if messages.last().text_at("role"@) == Some("user"@) {
        content_text(messages.last().field("content"@))
    } else {
        last_user_text(messages.drop_last())
    }
}

/// The text of the last message of a user.
fn find_user_text(messages: &[Json]) -> (said: String)
    ensures
        said@ == last_user_text(json::list_view(messages@)),
{
    let ghost all = json::list_view(messages@);
    let mut i: usize = messages.len();
    assert(all.take(all.len() as int) =~= all);
    while i > 0
        invariant
            all == json::list_view(messages@),
            i <= messages.len(),
            last_user_text(all) == last_user_text(all.take(i as int)),
        decreases i,
    {
        assert(all.take(i as int).drop_last() =~= all.take(i as int - 1));
        assert(all.take(i as int).last() == messages@[i as int - 1]@);
        i -= 1;
        let message = &messages[i];
        if reads(message.text_at("role"), "user") {
            return content_to_text(&message.field("content"));
        }
    }
    assert(all.take(0) =~= Seq::empty());
    String::new()
}

/// How many tokens to ask for: what the request says, where it says something,
/// and never more than the limit.
pub open spec fn token_limit(asked: Option<int>) -> int {
    match asked {
        Some(n) => if n <= 0 || n > MAX_OUTPUT_TOKENS {
            MAX_OUTPUT_TOKENS as int
        } else {
            n
        },
        None => MAX_OUTPUT_TOKENS as int,
    }
}

/// What of a request is chosen or read anew each time.
pub struct FreshIds<'a> {
    pub request_id: &'a str,
    /// The end of the id of a session without a seed.
    pub session: &'a str,
    pub business_id: &'a str,
    pub now_ms: i64,
}

/// What the fresh part of a request means.
pub ghost struct FreshIdsV {
    pub request_id: Seq<char>,
    pub session: Seq<char>,
    pub business_id: Seq<char>,
    pub now_ms: int,
}

impl<'a> View for FreshIds<'a> {
    type V = FreshIdsV;

    open spec fn view(&self) -> FreshIdsV {
        FreshIdsV {
            request_id: self.request_id@,
            session: self.session@,
            business_id: self.business_id@,
            now_ms: self.now_ms as int,
        }
    }
}

/// What a request asks the upstream for.
pub struct UpstreamAsk<'a> {
    pub upstream_key: &'a str,
    pub model_config: &'a Json,
    pub messages: &'a [Json],
    pub tools: Option<&'a Vec<Json>>,
    pub max_tokens: Option<i64>,
    pub thinking: &'a ThinkingChoice,
    pub user_id: &'a str,
    pub session_seed: Option<&'a str>,
}

/// What an ask means.
pub ghost struct AskV {
    pub key: Seq<char>,
    pub config: JsonV,
    pub messages: Seq<JsonV>,
    pub tools: Option<Seq<JsonV>>,
    pub limit: int,
    pub thinking: ChoiceV,
    pub user_id: Seq<char>,
    pub seed: Option<Seq<char>>,
}

impl<'a> View for UpstreamAsk<'a> {
    type V = AskV;

    open spec fn view(&self) -> AskV {
        AskV {
            key: self.upstream_key@,
            config: self.model_config@,
            messages: json::list_view(self.messages@),
            tools: list_ref_view(self.tools),
            limit: token_limit(
                match self.max_tokens {
                    Some(n) => Some(n as int),
                    None => None,
                },
            ),
            thinking: self.thinking@,
            user_id: self.user_id@,
            seed: json::opt_text(self.session_seed),
        }
    }
}

/// The parameters of a request. What is left to the upstream is not said.
pub open spec fn parameters(ask: AskV) -> JsonV {
    let limited = JsonV::object().put("max_tokens"@, JsonV::Int(ask.limit));
    match ask.thinking.enable {
        Some(true) => {
            let on = limited.put("enable_thinking"@, JsonV::Bool(true));
            match ask.thinking.effort {
                Some(effort) => on.put("reasoning_effort"@, JsonV::Str(effort)),
                None => on,
            }
        },
        Some(false) => limited.put("enable_thinking"@, JsonV::Bool(false)),
        None => limited,
    }
}

/// The context of a request.
pub open spec fn chat_context(ask: AskV) -> JsonV {
    let said = JsonV::Str(last_user_text(ask.messages));
    let model = JsonV::object().put("key"@, JsonV::Str(ask.key)).put(
        "is_reasoning"@,
        JsonV::Bool(ask.config.field("is_reasoning"@).truthy()),
    );
    let extra = JsonV::object().put("context"@, JsonV::Arr(Seq::empty())).put(
        "modelConfig"@,
        model,
    ).put("originalContent"@, said);
    JsonV::object().put("chatPrompt"@, JsonV::Str(""@)).put("imageUrls"@, JsonV::Null).put(
        "extra"@,
        extra,
    ).put("features"@, JsonV::Arr(Seq::empty())).put("text"@, said)
}

/// The business part of a request.
pub open spec fn business(ask: AskV, fresh: FreshIdsV) -> JsonV {
    JsonV::object().put("product"@, JsonV::Str("cli"@)).put("version"@, JsonV::Str("1.0.0"@)).put(
        "type"@,
        JsonV::Str("agent"@),
    ).put("stage"@, JsonV::Str("start"@)).put("id"@, JsonV::Str(fresh.business_id)).put(
        "name"@,
        JsonV::Str(text::first_chars(last_user_text(ask.messages), 30)),
    ).put("begin_at"@, JsonV::Int(fresh.now_ms))
}

/// The body of a request to the upstream.
#[verifier::opaque]
pub open spec fn upstream_body(ask: AskV, fresh: FreshIdsV) -> JsonV {
    let record = JsonV::Str(record_id(ask.key, ask.messages, ask.tools, ask.limit));
    let tools = match ask.tools {
        Some(t) => t,
        None => Seq::empty(),
    };
    JsonV::object().put("request_id"@, JsonV::Str(fresh.request_id)).put(
        "request_set_id"@,
        record,
    ).put("chat_record_id"@, record).put(
        "session_id"@,
        JsonV::Str(session_id(ask.user_id, ask.key, ask.seed, fresh.session)),
    ).put("stream"@, JsonV::Bool(true)).put("chat_task"@, JsonV::Str(CHAT_TASK@)).put(
        "is_reply"@,
        JsonV::Bool(true),
    ).put("is_retry"@, JsonV::Bool(false)).put("source"@, JsonV::Int(1)).put(
        "version"@,
        JsonV::Str("3"@),
    ).put("session_type"@, JsonV::Str(SESSION_TYPE@)).put("agent_id"@, JsonV::Str(AGENT_ID@)).put(
        "task_id"@,
        JsonV::Str("common"@),
    ).put("code_language"@, JsonV::Str(""@)).put("chat_prompt"@, JsonV::Str(""@)).put(
        "image_urls"@,
        JsonV::Null,
    ).put("aliyun_user_type"@, JsonV::Str(""@)).put("system"@, JsonV::Str(""@)).put(
        "messages"@,
        JsonV::Arr(ask.messages),
    ).put("tools"@, JsonV::Arr(tools)).put("parameters"@, parameters(ask)).put(
        "chat_context"@,
        chat_context(ask),
    ).put("model_config"@, slim_config(ask.config, ask.key)).put(
        "business"@,
        business(ask, fresh),
    )
}

/// The parameters of a request.
fn write_parameters(limit: i64, thinking: &ThinkingChoice) -> (out: Json)
    ensures
        forall|ask: AskV|
            ask.limit == limit && ask.thinking == thinking@ ==> out@ == #[trigger] parameters(ask),
{
    let mut out = Json::object();
    out.put("max_tokens", Json::number(limit));
    match thinking.enable {
        Some(true) => {
            out.put("enable_thinking", Json::Bool(true));
            if let Some(effort) = &thinking.effort {
                out.put("reasoning_effort", Json::text(effort.as_str()));
            }
        },
        Some(false) => out.put("enable_thinking", Json::Bool(false)),
        None => {},
    }
    out
}

/// The context of a request.
fn write_context(ask: &UpstreamAsk<'_>, said: &str) -> (out: Json)
    requires
        said@ == last_user_text(ask@.messages),
    ensures
        out@ == chat_context(ask@),
{
    let nothing: Vec<Json> = Vec::new();
    let none: Vec<Json> = Vec::new();
    proof {
        json::lemma_list_empty(nothing@);
        json::lemma_list_empty(none@);
    }
    let mut model = Json::object();
    model.put("key", Json::text(ask.upstream_key));
    model.put("is_reasoning", Json::Bool(ask.model_config.truthy_at("is_reasoning")));
    let mut extra = Json::object();
    extra.put("context", Json::list(nothing));
    extra.put("modelConfig", model);
    extra.put("originalContent", Json::text(said));
    let mut out = Json::object();
    out.put("chatPrompt", Json::text(""));
    out.put("imageUrls", Json::Null);
    out.put("extra", extra);
    out.put("features", Json::list(none));
    out.put("text", Json::text(said));
    out
}

/// The business part of a request.
fn write_business(ask: &UpstreamAsk<'_>, said: &str, fresh: &FreshIds<'_>) -> (out: Json)
    requires
        said@ == last_user_text(ask@.messages),
    ensures
        out@ == business(ask@, fresh@),
{
    let mut out = Json::object();
    out.put("product", Json::text("cli"));
    out.put("version", Json::text("1.0.0"));
    out.put("type", Json::text("agent"));
    out.put("stage", Json::text("start"));
    out.put("id", Json::text(fresh.business_id));
    out.put("name", Json::text(text::take_chars(said, 30)));
    out.put("begin_at", Json::number(fresh.now_ms));
    out
}

/// The body of a request to the upstream with a given fresh part.
pub fn write_upstream_body(ask: &UpstreamAsk<'_>, fresh: &FreshIds<'_>) -> (body: Json)
    ensures
        body@ == upstream_body(ask@, fresh@),
{
    proof {
        reveal(upstream_body);
    }
    let limit: i64 = match ask.max_tokens {
        Some(n) => if n <= 0 || n > MAX_OUTPUT_TOKENS {
            MAX_OUTPUT_TOKENS
        } else {
            n
        },
        None => MAX_OUTPUT_TOKENS,
    };
    let record = record_id_for(ask.upstream_key, ask.messages, ask.tools, limit);
    let said = find_user_text(ask.messages);
    let session = session_id_for(ask.user_id, ask.upstream_key, ask.session_seed, fresh.session);
    let tools = match ask.tools {
        Some(tools) => json::clone_list(tools),
        None => Vec::new(),
    };
    proof {
        if ask.tools is None {
            json::lemma_list_empty(tools@);
        }
    }
    let mut body = Json::object();
    body.put("request_id", Json::text(fresh.request_id));
    body.put("request_set_id", Json::text(record.as_str()));
    body.put("chat_record_id", Json::text(record.as_str()));
    body.put("session_id", Json::text(session.as_str()));
    body.put("stream", Json::Bool(true));
    body.put("chat_task", Json::text(CHAT_TASK));
    body.put("is_reply", Json::Bool(true));
    body.put("is_retry", Json::Bool(false));
    body.put("source", Json::number(1));
    body.put("version", Json::text("3"));
    body.put("session_type", Json::text(SESSION_TYPE));
    body.put("agent_id", Json::text(AGENT_ID));
    body.put("task_id", Json::text("common"));
    body.put("code_language", Json::text(""));
    body.put("chat_prompt", Json::text(""));
    body.put("image_urls", Json::Null);
    body.put("aliyun_user_type", Json::text(""));
    body.put("system", Json::text(""));
    body.put("messages", Json::list(json::clone_list(ask.messages)));
    body.put("tools", Json::list(tools));
    body.put("parameters", write_parameters(limit, ask.thinking));
    body.put("chat_context", write_context(ask, said.as_str()));
    body.put("model_config", slim_model_config(ask.model_config, ask.upstream_key));
    body.put("business", write_business(ask, said.as_str(), fresh));
    body
}

/// A random UUID, or the empty text where there is none to be had.
pub open spec fn is_uuid_or_empty(s: Seq<char>) -> bool {
    s.len() == 0 || machine::is_uuid(s)
}

/// A random UUID, or the empty text where there is none to be had.
fn uuid_or_empty() -> (uuid: String)
    ensures
        is_uuid_or_empty(uuid@),
{
    match cosy::random_uuid() {
        Ok(uuid) => uuid,
        Err(_) => String::new(),
    }
}

/// The body of a request to the upstream, its ids drawn at random.
pub fn build_upstream_body(
    upstream_key: &str,
    model_config: &Json,
    messages: &[Json],
    tools: Option<&Vec<Json>>,
    max_tokens: Option<i64>,
    thinking: &ThinkingChoice,
    user_id: &str,
    session_seed: Option<&str>,
    now_ms: i64,
) -> (body: Json)
    ensures
        exists|fresh: FreshIdsV|
            fresh.now_ms == now_ms && is_uuid_or_empty(fresh.request_id) && is_uuid_or_empty(
                fresh.session,
            ) && is_uuid_or_empty(fresh.business_id) && body@ == #[trigger] upstream_body(
                (UpstreamAsk {
                    upstream_key,
                    model_config,
                    messages,
                    tools,
                    max_tokens,
                    thinking,
                    user_id,
                    session_seed,
                })@,
                fresh,
            ),
{
    let request_id = uuid_or_empty();
    let session = uuid_or_empty();
    let business_id = uuid_or_empty();
    let fresh = FreshIds {
        request_id: request_id.as_str(),
        session: session.as_str(),
        business_id: business_id.as_str(),
        now_ms,
    };
    let ask = UpstreamAsk {
        upstream_key,
        model_config,
        messages,
        tools,
        max_tokens,
        thinking,
        user_id,
        session_seed,
    };
    let body = write_upstream_body(&ask, &fresh);
    assert(body@ == upstream_body(ask@, fresh@));
    body
}

} // verus!
