//! What a chat completion request comes to on its way to the upstream: what was
//! said, shown and called goes on as it was.
use super::protocol;
use super::protocol::{content_text, normalized, tools_of};
use crate::json;
use crate::json::JsonV;
use vstd::prelude::*;
use vstd::string::*;

verus! {

/// Whether a message is of a role.
pub open spec fn is_of(message: JsonV, role: Seq<char>) -> bool {
    message.get("role"@) == Some(JsonV::Str(role))
}

/// Whether one message was added behind others, and it is of a role.
pub open spec fn adds_one(before: Seq<JsonV>, after: Seq<JsonV>, role: Seq<char>) -> bool {
    after.len() == before.len() + 1 && after.drop_last() == before && is_of(after.last(), role)
}

/// The words tell one another apart.
proof fn lemma_words()
    ensures
        "id"@.len() == 2,
        "name"@.len() == 4,
        "role"@.len() == 4,
        "text"@.len() == 4,
        "tool"@.len() == 4,
        "type"@.len() == 4,
        "user"@.len() == 4,
        "name"@[0] == 'n',
        "name"@[1] == 'a',
        "role"@[0] == 'r',
        "role"@[1] == 'o',
        "text"@[0] == 't',
        "text"@[1] == 'e',
        "tool"@[0] == 't',
        "tool"@[1] == 'o',
        "type"@[0] == 't',
        "type"@[1] == 'y',
        "user"@[0] == 'u',
        "user"@[1] == 's',
        "system"@.len() == 6,
        "content"@.len() == 7,
        "function"@.len() == 8,
        "arguments"@.len() == 9,
        "assistant"@.len() == 9,
        "developer"@.len() == 9,
        "image_url"@.len() == 9,
        "arguments"@[0] == 'a',
        "arguments"@[1] == 'r',
        "assistant"@[0] == 'a',
        "assistant"@[1] == 's',
        "developer"@[0] == 'd',
        "developer"@[1] == 'e',
        "image_url"@[0] == 'i',
        "image_url"@[1] == 'm',
        "parameters"@.len() == 10,
        "tool_calls"@.len() == 10,
        "parameters"@[0] == 'p',
        "tool_calls"@[0] == 't',
        "description"@.len() == 11,
        "tool_call_id"@.len() == 12,
{
    reveal_strlit("id");
    reveal_strlit("name");
    reveal_strlit("role");
    reveal_strlit("text");
    reveal_strlit("tool");
    reveal_strlit("type");
    reveal_strlit("user");
    reveal_strlit("system");
    reveal_strlit("content");
    reveal_strlit("function");
    reveal_strlit("arguments");
    reveal_strlit("assistant");
    reveal_strlit("developer");
    reveal_strlit("image_url");
    reveal_strlit("parameters");
    reveal_strlit("tool_calls");
    reveal_strlit("description");
    reveal_strlit("tool_call_id");
}

/// One more message that is not left out.
proof fn lemma_added(before: Seq<JsonV>, message: JsonV, sent: JsonV)
    requires
        protocol::role_of(message).len() > 0,
        !protocol::is_failed_turn(message),
        protocol::role_of(message) == "tool"@ ==> !normalized(before).dropped.contains(
            protocol::or_empty(message.text_at("tool_call_id"@)),
        ),
        protocol::mapped(message) == Some(sent),
    ensures
        normalized(before.push(message)).out == normalized(before).out.push(sent),
        normalized(before.push(message)).out.drop_last() == normalized(before).out,
{
    assert(before.push(message).drop_last() =~= before);
    assert(normalized(before).out.push(sent).drop_last() =~= normalized(before).out);
}

/// What a user writes reaches the upstream word for word, behind all that was
/// sent before it.
pub proof fn users_are_heard(before: Seq<JsonV>, message: JsonV, s: Seq<char>)
    requires
        is_of(message, "user"@),
        message.get("content"@) == Some(JsonV::Str(s)),
    ensures
        ({
            let sent = normalized(before.push(message)).out;
            &&& adds_one(normalized(before).out, sent, "user"@)
            &&& sent.last().get("content"@) == Some(JsonV::Str(s))
        }),
{
    lemma_words();
    lemma_added(before, message, protocol::user_message(message));
}

/// A system prompt, by either of its names, reaches the upstream word for word.
pub proof fn prompts_are_heard(before: Seq<JsonV>, message: JsonV, s: Seq<char>)
    requires
        is_of(message, "system"@) || is_of(message, "developer"@),
        message.get("content"@) == Some(JsonV::Str(s)),
    ensures
        ({
            let sent = normalized(before.push(message)).out;
            &&& adds_one(normalized(before).out, sent, "system"@)
            &&& sent.last().get("content"@) == Some(JsonV::Str(s))
        }),
{
    lemma_words();
    lemma_added(before, message, protocol::system_message(message));
}

/// Whether a message is a turn of the assistant that was given up.
pub open spec fn is_given_up(message: JsonV) -> bool {
    is_of(message, "assistant"@) && (message.field("__failed"@).truthy() || message.field(
        "__aborted"@,
    ).truthy())
}

/// What the assistant said goes back to the upstream word for word; only where
/// it said nothing and called tools does a blank stand for it.
pub proof fn turns_are_kept(before: Seq<JsonV>, message: JsonV, s: Seq<char>)
    requires
        is_of(message, "assistant"@),
        !is_given_up(message),
        message.get("content"@) == Some(JsonV::Str(s)),
    ensures
        ({
            let sent = normalized(before.push(message)).out;
            &&& adds_one(normalized(before).out, sent, "assistant"@)
            &&& s.len() > 0 ==> sent.last().get("content"@) == Some(JsonV::Str(s))
            &&& s.len() == 0 ==> sent.last().text_at("content"@) == Some(
                if sent.last().get("tool_calls"@) is Some {
                    " "@
                } else {
                    s
                },
            )
        }),
{
    lemma_words();
    lemma_added(before, message, protocol::assistant_message(message));
}

/// A tool call that the assistant made goes back with its id, its name and its
/// arguments, at its own place among the calls.
pub proof fn calls_are_kept(
    before: Seq<JsonV>,
    message: JsonV,
    calls: Seq<JsonV>,
    i: int,
    word: Seq<char>,
    value: JsonV,
)
    requires
        is_of(message, "assistant"@),
        !is_given_up(message),
        message.get("tool_calls"@) == Some(JsonV::Arr(calls)),
        0 <= i < calls.len(),
    ensures
        ({
            let sent = normalized(before.push(message)).out;
            &&& adds_one(normalized(before).out, sent, "assistant"@)
            &&& sent.last().get("tool_calls"@) matches Some(JsonV::Arr(kept))
            &&& kept.len() == calls.len()
            &&& kept[i].get("type"@) == Some(JsonV::Str("function"@))
            &&& calls[i].get("id"@) == Some(JsonV::Str(word)) ==> kept[i].get("id"@) == Some(
                JsonV::Str(word),
            )
            &&& calls[i].at("function"@, "name"@) == Some(JsonV::Str(word)) ==> kept[i].at(
                "function"@,
                "name"@,
            ) == Some(JsonV::Str(word))
            &&& calls[i].at("function"@, "arguments"@) == Some(JsonV::Str(word)) ==> kept[i].at(
                "function"@,
                "arguments"@,
            ) == Some(JsonV::Str(word))
            &&& calls[i].at("function"@, "arguments"@) == Some(value) && !(value is Str)
                ==> kept[i].at("function"@, "arguments"@) == Some(
                JsonV::Str(json::json_text(value)),
            )
            &&& calls[i].at("function"@, "arguments"@) is None ==> kept[i].at(
                "function"@,
                "arguments"@,
            ) == Some(JsonV::Str("{}"@))
        }),
{
    lemma_words();
    let sent = protocol::assistant_message(message);
    lemma_added(before, message, sent);
    assert(protocol::tool_calls(message)[i] == protocol::tool_call(calls[i]));
}

/// Whether a message is a turn that was given up with a tool call of this id.
pub open spec fn gives_up(message: JsonV, id: Seq<char>) -> bool {
    is_given_up(message) && exists|calls: Seq<JsonV>, i: int|
        message.get("tool_calls"@) == Some(JsonV::Arr(calls)) && 0 <= i < calls.len() && (
        #[trigger] calls[i]).get("id"@) == Some(JsonV::Str(id))
}

proof fn lemma_call_ids(calls: Seq<JsonV>, id: Seq<char>)
    requires
        protocol::call_ids(calls).contains(id),
    ensures
        exists|i: int| 0 <= i < calls.len() && (#[trigger] calls[i]).get("id"@) == Some(JsonV::Str(id)),
    decreases calls.len(),
{
    if calls.len() > 0 {
        let known = protocol::call_ids(calls.drop_last());
        if known.contains(id) {
            lemma_call_ids(calls.drop_last(), id);
            let i = choose|i: int|
                0 <= i < calls.len() - 1 && (#[trigger] calls.drop_last()[i]).get("id"@) == Some(
                    JsonV::Str(id),
                );
            assert(calls[i] == calls.drop_last()[i]);
        } else {
            let all = protocol::call_ids(calls);
            let k = choose|k: int| 0 <= k < all.len() && all[k] == id;
            if k < known.len() {
                assert(known[k] == id);
            }
            assert(calls[calls.len() - 1] == calls.last());
        }
    }
}

proof fn lemma_dropped(before: Seq<JsonV>, id: Seq<char>)
    requires
        normalized(before).dropped.contains(id),
    ensures
        exists|i: int| 0 <= i < before.len() && gives_up(#[trigger] before[i], id),
    decreases before.len(),
{
    if before.len() > 0 {
        let known = normalized(before.drop_last()).dropped;
        if known.contains(id) {
            lemma_dropped(before.drop_last(), id);
            let i = choose|i: int|
                0 <= i < before.len() - 1 && gives_up(#[trigger] before.drop_last()[i], id);
            assert(before[i] == before.drop_last()[i]);
        } else {
            let last = before.last();
            let ids = protocol::ids_of(last);
            let all = normalized(before).dropped;
            let k = choose|k: int| 0 <= k < all.len() && all[k] == id;
            if k < known.len() {
                assert(known[k] == id);
            }
            assert(ids[k - known.len()] == id);
            lemma_call_ids(last.get("tool_calls"@)->0->Arr_0, id);
            assert(before[before.len() - 1] == last);
        }
    }
}

/// The result of a tool goes to the upstream word for word with the id of its
/// call, unless the turn that made the call was given up.
pub proof fn results_are_heard(before: Seq<JsonV>, message: JsonV, id: Seq<char>, s: Seq<char>)
    requires
        is_of(message, "tool"@),
        message.get("tool_call_id"@) == Some(JsonV::Str(id)),
        message.get("content"@) == Some(JsonV::Str(s)),
        forall|i: int| 0 <= i < before.len() ==> !gives_up(#[trigger] before[i], id),
    ensures
        ({
            let sent = normalized(before.push(message)).out;
            &&& adds_one(normalized(before).out, sent, "tool"@)
            &&& sent.last().get("tool_call_id"@) == Some(JsonV::Str(id))
            &&& sent.last().get("content"@) == Some(JsonV::Str(s))
        }),
{
    lemma_words();
    if normalized(before).dropped.contains(id) {
        lemma_dropped(before, id);
    }
    lemma_added(before, message, protocol::tool_message(message));
}

/// A message without a role, or of a role that the upstream does not know, is
/// left out and changes nothing.
pub proof fn strangers_are_left_out(before: Seq<JsonV>, message: JsonV)
    requires
        !is_of(message, "user"@) && !is_of(message, "assistant"@) && !is_of(message, "tool"@),
        !is_of(message, "system"@) && !is_of(message, "developer"@),
    ensures
        normalized(before.push(message)) == normalized(before),
{
    lemma_words();
    assert(before.push(message).drop_last() =~= before);
}

/// The text of a list of parts is the texts of its parts, one behind the other:
/// each part is a text, or has it under one of two names.
pub proof fn parts_are_joined(one: Seq<JsonV>, two: Seq<JsonV>, part: JsonV, s: Seq<char>)
    ensures
        content_text(JsonV::Str(s)) == s,
        content_text(JsonV::Arr(one + two)) == content_text(JsonV::Arr(one)) + content_text(
            JsonV::Arr(two),
        ),
        part == JsonV::Str(s) ==> content_text(JsonV::Arr(seq![part])) == s,
        part.get("text"@) == Some(JsonV::Str(s)) ==> content_text(JsonV::Arr(seq![part])) == s,
        !(part is Str) && !(part.field("text"@) is Str) && part.get("content"@) == Some(
            JsonV::Str(s),
        ) ==> content_text(JsonV::Arr(seq![part])) == s,
        !(part is Str) && !(part.field("text"@) is Str) && !(part.field("content"@) is Str)
            ==> content_text(JsonV::Arr(seq![part])) == Seq::<char>::empty(),
    decreases two.len(),
{
    let single = seq![part];
    assert(single.drop_last() =~= Seq::empty());
    assert(single.last() == part);
    assert(protocol::parts_text(single.drop_last()) =~= Seq::empty());
    assert(protocol::parts_text(single) =~= protocol::part_text(part));
    if two.len() == 0 {
        assert(one + two =~= one);
        assert(protocol::parts_text(one) + Seq::<char>::empty() =~= protocol::parts_text(one));
    } else {
        parts_are_joined(one, two.drop_last(), part, s);
        assert((one + two).drop_last() =~= one + two.drop_last());
        assert((one + two).last() == two.last());
        assert(protocol::parts_text(one + two) =~= protocol::parts_text(one)
            + protocol::parts_text(two));
    }
}

proof fn lemma_image_texts(parts: Seq<JsonV>)
    ensures
        protocol::parts_text(protocol::image_parts(parts)) == Seq::<char>::empty(),
    decreases parts.len(),
{
    lemma_words();
    if parts.len() > 0 {
        lemma_image_texts(parts.drop_last());
        if protocol::is_image(parts.last()) {
            let known = protocol::image_parts(parts.drop_last());
            let all = protocol::image_parts(parts);
            assert(all.drop_last() =~= known);
            assert(protocol::part_text(all.last()) == Seq::<char>::empty());
            assert(protocol::parts_text(all) =~= Seq::empty());
        }
    }
}

/// Whatever the form of a message, what it says is the text that is sent for it.
pub proof fn words_are_kept(before: Seq<JsonV>, message: JsonV)
    requires
        is_of(message, "user"@) || is_of(message, "system"@) || is_of(message, "developer"@),
    ensures
        normalized(before.push(message)).out.len() == normalized(before).out.len() + 1,
        content_text(normalized(before.push(message)).out.last().field("content"@)) == content_text(
            message.field("content"@),
        ),
{
    lemma_words();
    let content = message.field("content"@);
    let flat = content_text(content);
    let images = protocol::content_images(content);
    if is_of(message, "user"@) {
        lemma_added(before, message, protocol::user_message(message));
        if images.len() > 0 {
            lemma_image_texts(content->Arr_0);
            let part = JsonV::object().put("type"@, JsonV::Str("text"@)).put(
                "text"@,
                JsonV::Str(flat),
            );
            let head = if flat.len() > 0 {
                seq![part]
            } else {
                Seq::empty()
            };
            parts_are_joined(head, images, part, flat);
            assert(protocol::parts_text(head) =~= flat);
            assert(flat + Seq::<char>::empty() =~= flat);
        }
    } else {
        lemma_added(before, message, protocol::system_message(message));
    }
}

/// The addresses of the images among the parts of a message.
pub open spec fn addresses(parts: Seq<JsonV>) -> Seq<JsonV>
    decreases parts.len(),
{
    if parts.len() == 0 {
        Seq::empty()
    } else if parts.last().get("type"@) == Some(JsonV::Str("image_url"@)) {
        addresses(parts.drop_last()).push(parts.last().field("image_url"@))
    } else {
        addresses(parts.drop_last())
    }
}

proof fn lemma_addresses(parts: Seq<JsonV>, head: Seq<JsonV>)
    requires
        addresses(head).len() == 0,
    ensures
        addresses(head + protocol::image_parts(parts)) == addresses(parts),
        protocol::image_parts(parts).len() == addresses(parts).len(),
    decreases parts.len(),
{
    lemma_words();
    if parts.len() == 0 {
        assert(head + protocol::image_parts(parts) =~= head);
        assert(addresses(head) =~= Seq::empty());
    } else {
        lemma_addresses(parts.drop_last(), head);
        if protocol::is_image(parts.last()) {
            let known = protocol::image_parts(parts.drop_last());
            let all = protocol::image_parts(parts);
            assert((head + all).drop_last() =~= head + known);
            assert((head + all).last() == all.last());
        }
    }
}

/// The images that a user shows go to the upstream in their order, each by its
/// address; without one the message is plain text.
pub proof fn images_are_seen(before: Seq<JsonV>, message: JsonV, parts: Seq<JsonV>)
    requires
        is_of(message, "user"@),
        message.get("content"@) == Some(JsonV::Arr(parts)),
    ensures
        ({
            let sent = normalized(before.push(message)).out;
            &&& adds_one(normalized(before).out, sent, "user"@)
            &&& addresses(parts).len() == 0 ==> sent.last().get("content"@) is Some
                && sent.last().field("content"@) is Str
            &&& addresses(parts).len() > 0 ==> {
                &&& sent.last().get("content"@) matches Some(JsonV::Arr(shown))
                &&& addresses(shown) == addresses(parts)
            }
        }),
{
    lemma_words();
    lemma_added(before, message, protocol::user_message(message));
    let flat = content_text(JsonV::Arr(parts));
    let part = JsonV::object().put("type"@, JsonV::Str("text"@)).put("text"@, JsonV::Str(flat));
    let head = if flat.len() > 0 {
        seq![part]
    } else {
        Seq::empty()
    };
    assert(addresses(head).len() == 0) by {
        assert(head.len() > 0 ==> head.drop_last() =~= Seq::empty());
        assert(addresses(Seq::empty()).len() == 0);
    }
    lemma_addresses(parts, head);
}

/// The tools to send, none where there is nothing to send.
pub open spec fn tools_sent(tools: Seq<JsonV>) -> Seq<JsonV> {
    match tools_of(Some(JsonV::Arr(tools))) {
        Some(sent) => sent,
        None => Seq::empty(),
    }
}

/// A tool with a name is offered to the upstream under it, with what describes
/// it and what it takes, behind the tools before it; one without is left out.
pub proof fn tools_are_offered(before: Seq<JsonV>, tool: JsonV, name: Seq<char>)
    ensures
        tool.at("function"@, "name"@) == Some(JsonV::Str(name)) ==> {
            let sent = tools_sent(before.push(tool));
            &&& tools_of(Some(JsonV::Arr(before.push(tool)))) == Some(sent)
            &&& sent.len() == tools_sent(before).len() + 1
            &&& sent.drop_last() == tools_sent(before)
            &&& sent.last().get("type"@) == Some(JsonV::Str("function"@))
            &&& sent.last().at("function"@, "name"@) == Some(JsonV::Str(name))
            &&& sent.last().at("function"@, "description"@) == tool.at("function"@, "description"@)
            &&& sent.last().at("function"@, "parameters"@) == tool.at("function"@, "parameters"@)
        },
        !(tool.field("function"@).field("name"@) is Str) ==> tools_of(
            Some(JsonV::Arr(before.push(tool))),
        ) == tools_of(Some(JsonV::Arr(before))),
{
    lemma_words();
    assert(before.push(tool).drop_last() =~= before);
    if tool.at("function"@, "name"@) == Some(JsonV::Str(name)) {
        let sent = tools_sent(before.push(tool));
        assert(tools_sent(before) =~= protocol::named_tools(before));
        assert(sent.drop_last() =~= tools_sent(before));
    }
}

} // verus!
