//! What the upstream is asked for: the request that is sent says what the client
//! asked for, and its errors come back as what they are.
use super::chat;
use super::chat::{ask_of, outgoing};
use super::credentials::CredentialsV;
use super::protocol;
use super::protocol::{
    classified, thinking_choice, upstream_body, AskV, ChoiceV, FreshIdsV, UpstreamKind,
};
use super::protocol_laws;
use super::protocol_laws::is_of;
use crate::errors::ErrorV;
use crate::json::JsonV;
use crate::text;
use vstd::prelude::*;
use vstd::string::*;

verus! {

/// The words tell one another apart.
proof fn lemma_words()
    ensures
        "id"@.len() == 2,
        "key"@.len() == 3,
        "name"@.len() == 4,
        "role"@.len() == 4,
        "text"@.len() == 4,
        "tool"@.len() == 4,
        "type"@.len() == 4,
        "user"@.len() == 4,
        "name"@[0] == 'n',
        "name"@[1] == 'a',
        "role"@[0] == 'r',
        "role"@[1] == 'o',
        "text"@[0] == 't',
        "text"@[1] == 'e',
        "tool"@[0] == 't',
        "tool"@[1] == 'o',
        "type"@[0] == 't',
        "type"@[1] == 'y',
        "user"@[0] == 'u',
        "user"@[1] == 's',
        "extra"@.len() == 5,
        "is_vl"@.len() == 5,
        "stage"@.len() == 5,
        "tools"@.len() == 5,
        "extra"@[0] == 'e',
        "is_vl"@[0] == 'i',
        "stage"@[0] == 's',
        "tools"@[0] == 't',
        "format"@.len() == 6,
        "source"@.len() == 6,
        "stream"@.len() == 6,
        "system"@.len() == 6,
        "format"@[0] == 'f',
        "format"@[1] == 'o',
        "source"@[0] == 's',
        "source"@[1] == 'o',
        "stream"@[0] == 's',
        "stream"@[1] == 't',
        "system"@[0] == 's',
        "system"@[1] == 'y',
        "content"@.len() == 7,
        "context"@.len() == 7,
        "product"@.len() == 7,
        "session"@.len() == 7,
        "task_id"@.len() == 7,
        "version"@.len() == 7,
        "content"@[0] == 'c',
        "content"@[5] == 'n',
        "context"@[0] == 'c',
        "context"@[5] == 'x',
        "product"@[0] == 'p',
        "product"@[5] == 'c',
        "session"@[0] == 's',
        "session"@[5] == 'o',
        "task_id"@[0] == 't',
        "task_id"@[5] == 'i',
        "version"@[0] == 'v',
        "version"@[5] == 'o',
        "agent_id"@.len() == 8,
        "begin_at"@.len() == 8,
        "business"@.len() == 8,
        "features"@.len() == 8,
        "is_reply"@.len() == 8,
        "is_retry"@.len() == 8,
        "messages"@.len() == 8,
        "thinking"@.len() == 8,
        "agent_id"@[0] == 'a',
        "agent_id"@[1] == 'g',
        "agent_id"@[5] == '_',
        "begin_at"@[0] == 'b',
        "begin_at"@[1] == 'e',
        "begin_at"@[5] == '_',
        "business"@[0] == 'b',
        "business"@[1] == 'u',
        "business"@[5] == 'e',
        "features"@[0] == 'f',
        "features"@[1] == 'e',
        "features"@[5] == 'r',
        "is_reply"@[0] == 'i',
        "is_reply"@[1] == 's',
        "is_reply"@[5] == 'p',
        "is_retry"@[0] == 'i',
        "is_retry"@[1] == 's',
        "is_retry"@[5] == 't',
        "messages"@[0] == 'm',
        "messages"@[1] == 'e',
        "messages"@[5] == 'g',
        "thinking"@[0] == 't',
        "thinking"@[1] == 'h',
        "thinking"@[5] == 'i',
        "assistant"@.len() == 9,
        "chat_task"@.len() == 9,
        "developer"@.len() == 9,
        "imageUrls"@.len() == 9,
        "reasoning"@.len() == 9,
        "assistant"@[0] == 'a',
        "chat_task"@[0] == 'c',
        "developer"@[0] == 'd',
        "imageUrls"@[0] == 'i',
        "reasoning"@[0] == 'r',
        "chatPrompt"@.len() == 10,
        "image_urls"@.len() == 10,
        "max_tokens"@.len() == 10,
        "parameters"@.len() == 10,
        "request_id"@.len() == 10,
        "session_id"@.len() == 10,
        "chatPrompt"@[0] == 'c',
        "image_urls"@[0] == 'i',
        "max_tokens"@[0] == 'm',
        "parameters"@[0] == 'p',
        "request_id"@[0] == 'r',
        "session_id"@[0] == 's',
        "chat_prompt"@.len() == 11,
        "modelConfig"@.len() == 11,
        "chat_prompt"@[0] == 'c',
        "modelConfig"@[0] == 'm',
        "chat_context"@.len() == 12,
        "is_reasoning"@.len() == 12,
        "model_config"@.len() == 12,
        "session_type"@.len() == 12,
        "chat_context"@[0] == 'c',
        "is_reasoning"@[0] == 'i',
        "model_config"@[0] == 'm',
        "session_type"@[0] == 's',
        "code_language"@.len() == 13,
        "chat_record_id"@.len() == 14,
        "request_set_id"@.len() == 14,
        "chat_record_id"@[0] == 'c',
        "request_set_id"@[0] == 'r',
        "enable_thinking"@.len() == 15,
        "originalContent"@.len() == 15,
        "thinking_config"@.len() == 15,
        "enable_thinking"@[0] == 'e',
        "originalContent"@[0] == 'o',
        "thinking_config"@[0] == 't',
        "aliyun_user_type"@.len() == 16,
        "reasoning_effort"@.len() == 16,
        "aliyun_user_type"@[0] == 'a',
        "reasoning_effort"@[0] == 'r',
        "max_completion_tokens"@.len() == 21,
{
    reveal_strlit("id");
    reveal_strlit("key");
    reveal_strlit("name");
    reveal_strlit("role");
    reveal_strlit("text");
    reveal_strlit("tool");
    reveal_strlit("type");
    reveal_strlit("user");
    reveal_strlit("extra");
    reveal_strlit("is_vl");
    reveal_strlit("stage");
    reveal_strlit("tools");
    reveal_strlit("format");
    reveal_strlit("source");
    reveal_strlit("stream");
    reveal_strlit("system");
    reveal_strlit("content");
    reveal_strlit("context");
    reveal_strlit("product");
    reveal_strlit("session");
    reveal_strlit("task_id");
    reveal_strlit("version");
    reveal_strlit("agent_id");
    reveal_strlit("begin_at");
    reveal_strlit("business");
    reveal_strlit("features");
    reveal_strlit("is_reply");
    reveal_strlit("is_retry");
    reveal_strlit("messages");
    reveal_strlit("thinking");
    reveal_strlit("assistant");
    reveal_strlit("chat_task");
    reveal_strlit("developer");
    reveal_strlit("imageUrls");
    reveal_strlit("reasoning");
    reveal_strlit("chatPrompt");
    reveal_strlit("image_urls");
    reveal_strlit("max_tokens");
    reveal_strlit("parameters");
    reveal_strlit("request_id");
    reveal_strlit("session_id");
    reveal_strlit("chat_prompt");
    reveal_strlit("modelConfig");
    reveal_strlit("chat_context");
    reveal_strlit("is_reasoning");
    reveal_strlit("model_config");
    reveal_strlit("session_type");
    reveal_strlit("code_language");
    reveal_strlit("chat_record_id");
    reveal_strlit("request_set_id");
    reveal_strlit("enable_thinking");
    reveal_strlit("originalContent");
    reveal_strlit("thinking_config");
    reveal_strlit("aliyun_user_type");
    reveal_strlit("reasoning_effort");
    reveal_strlit("max_completion_tokens");
}

/// Whether a message is a system prompt that says something.
pub open spec fn prompts(message: JsonV) -> bool {
    (is_of(message, "system"@) || is_of(message, "developer"@)) && protocol::content_text(
        message.field("content"@),
    ).len() > 0
}

proof fn lemma_prompts(raw: Seq<JsonV>, message: JsonV)
    ensures
        prompts(message) ==> chat::system_prompts(raw.push(message)).len() == chat::system_prompts(
            raw,
        ).len() + 1,
        prompts(message) ==> chat::system_prompts(raw.push(message)).drop_last()
            == chat::system_prompts(raw),
        prompts(message) ==> chat::system_prompts(raw.push(message)).last().get("content"@) == Some(
            JsonV::Str(protocol::content_text(message.field("content"@))),
        ),
        prompts(message) ==> is_of(chat::system_prompts(raw.push(message)).last(), "system"@),
        !prompts(message) ==> chat::system_prompts(raw.push(message)) == chat::system_prompts(raw),
{
    lemma_words();
    assert(raw.push(message).drop_last() =~= raw);
    if prompts(message) {
        assert(chat::system_prompts(raw.push(message)).drop_last() =~= chat::system_prompts(raw));
    }
}

/// What a user writes last stands last in what is sent, word for word, and all
/// else stays as it was.
pub proof fn the_last_word_is_sent_last(raw: Seq<JsonV>, message: JsonV, s: Seq<char>)
    requires
        is_of(message, "user"@),
        message.get("content"@) == Some(JsonV::Str(s)),
    ensures
        outgoing(raw.push(message)).len() == outgoing(raw).len() + 1,
        outgoing(raw.push(message)).drop_last() == outgoing(raw),
        is_of(outgoing(raw.push(message)).last(), "user"@),
        outgoing(raw.push(message)).last().get("content"@) == Some(JsonV::Str(s)),
{
    lemma_words();
    lemma_prompts(raw, message);
    protocol_laws::users_are_heard(raw, message, s);
    let known = protocol::normalized(raw).out;
    let now = protocol::normalized(raw.push(message)).out;
    assert(chat::without_prompts(now) == chat::without_prompts(known).push(now.last()));
    assert(outgoing(raw.push(message)) =~= outgoing(raw).push(now.last()));
    assert(outgoing(raw.push(message)).drop_last() =~= outgoing(raw));
}

/// How many system prompts say something.
pub open spec fn prompt_count(raw: Seq<JsonV>) -> nat
    decreases raw.len(),
{
    if raw.len() == 0 {
        0
    } else if prompts(raw.last()) {
        prompt_count(raw.drop_last()) + 1
    } else {
        prompt_count(raw.drop_last())
    }
}

proof fn lemma_prompt_count(raw: Seq<JsonV>)
    ensures
        chat::system_prompts(raw).len() == prompt_count(raw),
    decreases raw.len(),
{
    if raw.len() > 0 {
        lemma_prompt_count(raw.drop_last());
        assert(raw.drop_last().push(raw.last()) =~= raw);
        lemma_prompts(raw.drop_last(), raw.last());
    }
}

/// The system prompts stand first in what is sent, in their order, each with all
/// that it says.
pub proof fn prompts_are_sent_first(raw: Seq<JsonV>, message: JsonV)
    requires
        prompts(message),
    ensures
        ({
            let (before, after) = (outgoing(raw), outgoing(raw.push(message)));
            let place = prompt_count(raw) as int;
            &&& place < after.len()
            &&& place <= before.len()
            &&& place > 0 ==> after.take(place) == before.take(place)
            &&& is_of(after[place], "system"@)
            &&& after[place].get("content"@) == Some(
                JsonV::Str(protocol::content_text(message.field("content"@))),
            )
        }),
{
    lemma_prompts(raw, message);
    lemma_prompt_count(raw);
    let place = prompt_count(raw) as int;
    let (before, after) = (outgoing(raw), outgoing(raw.push(message)));
    let listed = chat::system_prompts(raw.push(message));
    assert(after[place] == listed.last());
    if place > 0 {
        assert(after.take(place) =~= listed.drop_last());
        assert(before.take(place) =~= chat::system_prompts(raw));
    }
}

/// The request that is sent names the model, holds the messages and the tools
/// that were asked with, and asks for an answer as a stream.
pub proof fn the_request_is_passed_on(
    credentials: CredentialsV,
    body: JsonV,
    model: JsonV,
    fresh: FreshIdsV,
    raw: Seq<JsonV>,
    key: Seq<char>,
)
    requires
        body.get("messages"@) == Some(JsonV::Arr(raw)),
        model.get("upstreamKey"@) == Some(JsonV::Str(key)),
    ensures
        ({
            let sent = upstream_body(ask_of(credentials, body, model), fresh);
            &&& sent.get("messages"@) == Some(JsonV::Arr(outgoing(raw)))
            &&& sent.get("tools"@) == Some(
                JsonV::Arr(
                    match protocol::tools_of(body.get("tools"@)) {
                        Some(tools) => tools,
                        None => Seq::empty(),
                    },
                ),
            )
            &&& sent.get("stream"@) == Some(JsonV::Bool(true))
            &&& sent.get("request_id"@) == Some(JsonV::Str(fresh.request_id))
            &&& sent.at("model_config"@, "key"@) == Some(JsonV::Str(key))
            &&& sent.at("business"@, "id"@) == Some(JsonV::Str(fresh.business_id))
            &&& sent.at("business"@, "begin_at"@) == Some(JsonV::Int(fresh.now_ms))
            &&& sent.get("chat_record_id"@) == sent.get("request_set_id"@)
            &&& sent.get("chat_context"@) is Some
            &&& sent.field("chat_context"@).at("extra"@, "originalContent"@) == sent.at(
                "chat_context"@,
                "text"@,
            )
        }),
{
    lemma_words();
    reveal(upstream_body);
    reveal_strlit("upstreamKey");
}

/// The configuration of a model goes with the request as the catalogue has it:
/// whether it thinks and sees, where it is from and what it speaks.
pub proof fn the_configuration_goes_along(
    credentials: CredentialsV,
    body: JsonV,
    model: JsonV,
    fresh: FreshIdsV,
    config: JsonV,
    value: JsonV,
)
    requires
        model.get("config"@) == Some(config),
        value != JsonV::Null,
    ensures
        ({
            let sent = upstream_body(ask_of(credentials, body, model), fresh);
            &&& config.get("is_reasoning"@) == Some(value) ==> sent.at(
                "model_config"@,
                "is_reasoning"@,
            ) == Some(value)
            &&& config.get("is_vl"@) == Some(value) ==> sent.at("model_config"@, "is_vl"@) == Some(
                value,
            )
            &&& config.get("source"@) == Some(value) ==> sent.at("model_config"@, "source"@)
                == Some(value)
            &&& config.get("format"@) == Some(value) ==> sent.at("model_config"@, "format"@)
                == Some(value)
        }),
{
    lemma_words();
    reveal(upstream_body);
}

/// As many tokens are asked for as the client wants, by the newer name where the
/// older is not there, and never more than the upstream gives nor less than one.
pub proof fn the_limit_is_passed_on(
    credentials: CredentialsV,
    body: JsonV,
    model: JsonV,
    fresh: FreshIdsV,
    n: int,
)
    requires
        0 < n <= super::models::MAX_OUTPUT_TOKENS,
    ensures
        ({
            let sent = upstream_body(ask_of(credentials, body, model), fresh);
            &&& sent.at("parameters"@, "max_tokens"@) matches Some(JsonV::Int(limit))
            &&& 0 < limit <= super::models::MAX_OUTPUT_TOKENS
            &&& body.get("max_tokens"@) == Some(JsonV::Int(n)) ==> limit == n
            &&& body.get("max_tokens"@) is None && body.get("max_completion_tokens"@) == Some(
                JsonV::Int(n),
            ) ==> limit == n
        }),
{
    lemma_words();
    reveal(upstream_body);
}

proof fn lemma_last_said(messages: Seq<JsonV>, message: JsonV)
    ensures
        is_of(message, "user"@) ==> protocol::last_user_text(messages.push(message))
            == protocol::content_text(message.field("content"@)),
        !is_of(message, "user"@) ==> protocol::last_user_text(messages.push(message))
            == protocol::last_user_text(messages),
{
    assert(messages.push(message).drop_last() =~= messages);
}

/// The context of a request holds what the user wrote last, and its name begins
/// with it.
pub proof fn the_context_holds_the_last_word(
    credentials: CredentialsV,
    body: JsonV,
    model: JsonV,
    fresh: FreshIdsV,
    raw: Seq<JsonV>,
    message: JsonV,
    s: Seq<char>,
)
    requires
        body.get("messages"@) == Some(JsonV::Arr(raw.push(message))),
        is_of(message, "user"@),
        message.get("content"@) == Some(JsonV::Str(s)),
    ensures
        ({
            let sent = upstream_body(ask_of(credentials, body, model), fresh);
            &&& sent.at("chat_context"@, "text"@) == Some(JsonV::Str(s))
            &&& s.len() <= 30 ==> sent.at("business"@, "name"@) == Some(JsonV::Str(s))
            &&& s.len() > 30 ==> sent.at("business"@, "name"@) == Some(JsonV::Str(s.take(30)))
        }),
{
    lemma_words();
    reveal(upstream_body);
    the_last_word_is_sent_last(raw, message, s);
    let all = outgoing(raw.push(message));
    assert(all.drop_last().push(all.last()) =~= all);
    lemma_last_said(all.drop_last(), all.last());
}

/// What does not come from a user does not change what the user said last.
pub proof fn others_do_not_speak_for_the_user(messages: Seq<JsonV>, message: JsonV)
    requires
        !is_of(message, "user"@),
    ensures
        protocol::last_user_text(messages.push(message)) == protocol::last_user_text(messages),
{
    lemma_last_said(messages, message);
}

/// A session that is named by the client ends in its name, by the first of two
/// entries; one that is not ends in a name drawn for it.
pub proof fn sessions_bear_their_name(
    credentials: CredentialsV,
    body: JsonV,
    model: JsonV,
    fresh: FreshIdsV,
    seed: Seq<char>,
)
    requires
        seed.len() > 0,
    ensures
        ({
            let sent = upstream_body(ask_of(credentials, body, model), fresh);
            &&& sent.get("session_id"@) matches Some(JsonV::Str(id))
            &&& body.get("user"@) == Some(JsonV::Str(seed)) ==> seed.is_suffix_of(id)
            &&& body.get("user"@) is None && body.get("session_id"@) == Some(JsonV::Str(seed))
                ==> seed.is_suffix_of(id)
            &&& body.get("user"@) is None && body.get("session_id"@) is None
                ==> fresh.session.is_suffix_of(id)
        }),
{
    lemma_words();
    reveal(upstream_body);
    let ask = ask_of(credentials, body, model);
    let head = protocol::session_base(ask.user_id, ask.key) + "-"@;
    let end = if ask.seed is Some && ask.seed.unwrap().len() > 0 {
        ask.seed.unwrap()
    } else {
        fresh.session
    };
    assert((head + end).subrange(head.len() as int, (head + end).len() as int) =~= end);
}

/// The texts in a list, and no others, are the efforts that it declares.
proof fn lemma_declared(items: Seq<JsonV>, s: Seq<char>)
    ensures
        protocol::texts_among(items).contains(s) <==> items.contains(JsonV::Str(s)),
    decreases items.len(),
{
    if items.len() > 0 {
        let before = items.drop_last();
        lemma_declared(before, s);
        assert(before.push(items.last()) =~= items);
        let known = protocol::texts_among(before);
        let all = protocol::texts_among(items);
        if items.contains(JsonV::Str(s)) {
            let i = choose|i: int| 0 <= i < items.len() && items[i] == JsonV::Str(s);
            if i < before.len() {
                assert(before[i] == JsonV::Str(s));
                let k = choose|k: int| 0 <= k < known.len() && known[k] == s;
                assert(all[k] == s);
            } else {
                assert(all[all.len() - 1] == s);
            }
        }
        if all.contains(s) {
            let k = choose|k: int| 0 <= k < all.len() && all[k] == s;
            if k < known.len() {
                assert(known[k] == s);
                let i = choose|i: int| 0 <= i < before.len() && before[i] == JsonV::Str(s);
                assert(items[i] == JsonV::Str(s));
            } else {
                assert(items[items.len() - 1] == JsonV::Str(s));
            }
        }
    }
}

/// A model that thinks thinks as hard as it is asked to where it can; where it
/// cannot it is asked for an effort that it declares.
pub proof fn efforts_are_met(body: JsonV, model: JsonV, asked: Seq<char>, efforts: Seq<JsonV>)
    requires
        model.field("reasoning"@).truthy(),
        model.get("efforts"@) == Some(JsonV::Arr(efforts)),
        body.get("reasoning_effort"@) == Some(JsonV::Str(asked)),
        asked != "off"@ && asked != "none"@ && asked != "disabled"@,
    ensures
        ({
            let choice = thinking_choice(body, model);
            let wanted = text::lowercase(text::trimmed(asked));
            &&& choice.enable == Some(true)
            &&& choice.effort matches Some(effort)
            &&& (exists|i: int| 0 <= i < efforts.len() && efforts[i] is Str) ==> efforts.contains(
                JsonV::Str(effort),
            )
            &&& efforts.contains(JsonV::Str(wanted)) && wanted != "minimal"@ && wanted != "min"@
                && wanted != "high"@ && wanted != "max"@ ==> effort == wanted
            &&& (wanted == "minimal"@ || wanted == "min"@) && efforts.contains(
                JsonV::Str("low"@),
            ) ==> effort == "low"@
            &&& (wanted == "high"@ || wanted == "max"@) && efforts.contains(
                JsonV::Str("xhigh"@),
            ) ==> effort == "xhigh"@
        }),
{
    lemma_words();
    reveal_strlit("low");
    reveal_strlit("xhigh");
    reveal_strlit("medium");
    reveal_strlit("efforts");
    reveal_strlit("minimal");
    reveal_strlit("min");
    reveal_strlit("high");
    reveal_strlit("max");
    assert("min"@[1] == 'i' && "max"@[1] == 'a');
    assert("high"@.len() == 4 && "max"@.len() == 3 && "minimal"@.len() == 7);
    assert(protocol::effort_name("high"@) == "xhigh"@);
    assert(protocol::effort_name("max"@) == "xhigh"@);
    let declared = protocol::declared_efforts(model);
    let wanted = text::lowercase(text::trimmed(asked));
    let choice = thinking_choice(body, model);
    let effort = choice.effort->0;
    lemma_declared(efforts, protocol::effort_name(wanted));
    lemma_declared(efforts, "medium"@);
    lemma_declared(efforts, effort);
    if exists|i: int| 0 <= i < efforts.len() && efforts[i] is Str {
        let i = choose|i: int| 0 <= i < efforts.len() && efforts[i] is Str;
        let s = efforts[i]->Str_0;
        lemma_declared(efforts, s);
        assert(efforts.contains(JsonV::Str(s)));
        assert(declared.len() > 0);
        assert(declared.contains(declared[0]));
        lemma_declared(efforts, declared[0]);
    }
}

/// A model that does not think is asked nothing about it, nor is one that is
/// asked not to; one that thinks and is asked nothing thinks as it likes.
pub proof fn thinking_is_left_alone(body: JsonV, model: JsonV, ask: AskV)
    requires
        ask.thinking == thinking_choice(body, model),
    ensures
        ({
            let sent = protocol::parameters(ask);
            &&& !model.field("reasoning"@).truthy() ==> sent.get("enable_thinking"@) is None
                && sent.get("reasoning_effort"@) is None
            &&& (body.get("reasoning_effort"@) == Some(JsonV::Str("off"@)) || body.get(
                "reasoning_effort"@,
            ) == Some(JsonV::Str("none"@)) || body.get("reasoning_effort"@) == Some(
                JsonV::Str("disabled"@),
            ) || body.get("reasoning_effort"@) == Some(JsonV::Bool(false))) ==> sent.get(
                "enable_thinking"@,
            ) is None && sent.get("reasoning_effort"@) is None
            &&& model.field("reasoning"@).truthy() && body.get("reasoning_effort"@) is None
                && body.get("reasoning"@) is None && body.get("thinking"@) is None ==> sent.get(
                "enable_thinking"@,
            ) == Some(JsonV::Bool(true)) && sent.get("reasoning_effort"@) is None
        }),
{
    lemma_words();
}

/// What is chosen of thinking is what is sent of it.
pub proof fn the_choice_is_sent(ask: AskV, fresh: FreshIdsV, effort: Seq<char>)
    requires
        ask.thinking == (ChoiceV { enable: Some(true), effort: Some(effort) }),
    ensures
        upstream_body(ask, fresh).at("parameters"@, "enable_thinking"@) == Some(JsonV::Bool(true)),
        upstream_body(ask, fresh).at("parameters"@, "reasoning_effort"@) == Some(
            JsonV::Str(effort),
        ),
{
    lemma_words();
    reveal(upstream_body);
}

/// Of three entries that speak of thinking the first counts, whatever the others
/// say.
pub proof fn the_first_wish_counts(body: JsonV, model: JsonV, other: JsonV)
    ensures
        body.get("reasoning_effort"@) is Some ==> thinking_choice(
            body.put("reasoning"@, other).put("thinking"@, other),
            model,
        ) == thinking_choice(body, model),
        body.get("reasoning_effort"@) is None && body.get("reasoning"@) is Some ==> {
            &&& thinking_choice(body.put("thinking"@, other), model) == thinking_choice(body, model)
            &&& thinking_choice(
                body.put("reasoning_effort"@, body.field("reasoning"@)),
                model,
            ) == thinking_choice(body, model)
        },
        body.get("reasoning_effort"@) is None && body.get("reasoning"@) is None && body.get(
            "thinking"@,
        ) is Some ==> thinking_choice(
            body.put("reasoning_effort"@, body.field("thinking"@)),
            model,
        ) == thinking_choice(body, model),
{
    lemma_words();
}

/// Whether a text speaks of nothing that decides what an error is about.
pub open spec fn says_nothing(s: Seq<char>) -> bool {
    &&& !text::has_part_ignoring_case(s, "/pricing"@)
    &&& !protocol::speaks_of_quota(s)
    &&& !text::has_part_ignoring_case(s, "rate limit"@)
    &&& !text::has_part_ignoring_case(s, "too many"@)
    &&& !text::has_part(s, "\"code\":112"@)
    &&& !text::has_part(s, "\"code\": 112"@)
}

proof fn lemma_link_end(s: Seq<char>, from: int)
    requires
        0 <= from <= s.len(),
    ensures
        from <= protocol::link_end(s, from) <= s.len(),
        forall|k: int|
            from <= k < protocol::link_end(s, from) ==> !protocol::ends_link(#[trigger] s[k]),
    decreases s.len() - from,
{
    if from < s.len() && !protocol::ends_link(s[from]) {
        lemma_link_end(s, from + 1);
    }
}

/// The link to a page of plans stands in the error, begins as a link does, holds
/// no blank and leads to the prices.
pub proof fn links_are_found_in_the_error(s: Seq<char>, from: int)
    requires
        0 <= from,
        protocol::pricing_link(s, from) is Some,
    ensures
        ({
            let link = protocol::pricing_link(s, from).unwrap();
            &&& text::has_part(s, link)
            &&& "http"@.is_prefix_of(text::ascii_lowercase(link))
            &&& text::has_part_ignoring_case(link, "/pricing"@)
            &&& text::has_part_ignoring_case(s, "/pricing"@)
            &&& forall|k: int| 0 <= k < link.len() ==> !text::is_space(#[trigger] link[k])
        }),
    decreases s.len() - from,
{
    reveal_strlit("http");
    let lower = text::ascii_lowercase(s);
    text::lemma_first_at(lower, "http"@, from);
    let at = text::first_at(lower, "http"@, from).unwrap();
    lemma_link_end(s, at);
    let end = protocol::link_end(s, at);
    let link = s.subrange(at, end);
    if text::has_part_ignoring_case(link, "/pricing"@) {
        assert(text::stands_at(s, link, at));
        let low = text::ascii_lowercase(link);
        assert(low =~= lower.subrange(at, end));
        let k = choose|k: int| #[trigger] text::stands_at(low, "/pricing"@, k);
        assert(lower.subrange(at + k, at + k + "/pricing"@.len()) =~= low.subrange(
            k,
            k + "/pricing"@.len(),
        ));
        assert(text::stands_at(lower, "/pricing"@, at + k));
        assert(lower.subrange(at, at + 4) == "http"@);
        assert forall|i: int| 0 <= i < 4 implies !protocol::ends_link(#[trigger] s[at + i]) by {
            assert(lower.subrange(at, at + 4)[i] == lower[at + i]);
            assert(lower[at + i] == text::ascii_lower(s[at + i]));
            assert("http"@[i] == 'h' || "http"@[i] == 't' || "http"@[i] == 'p') by {
                assert(i == 0 || i == 1 || i == 2 || i == 3);
            }
        }
        assert(end >= at + 4) by {
            if end < at + 4 {
                lemma_end_is_end(s, at);
                assert(!protocol::ends_link(s[at + (end - at)]));
            }
        }
        assert(low.subrange(0, 4) =~= "http"@);
    } else {
        links_are_found_in_the_error(s, at + 4);
    }
}

proof fn lemma_end_is_end(s: Seq<char>, from: int)
    requires
        0 <= from <= s.len(),
    ensures
        protocol::link_end(s, from) < s.len() ==> protocol::ends_link(
            s[protocol::link_end(s, from)],
        ),
    decreases s.len() - from,
{
    if from < s.len() && !protocol::ends_link(s[from]) {
        lemma_end_is_end(s, from + 1);
    }
}

/// An error that says nothing of its own is told by its status: too many
/// requests, an account that is not let in, an upstream that failed.
pub proof fn the_status_tells_the_error(status: int, s: Seq<char>)
    requires
        says_nothing(s),
    ensures
        classified(status, s).pricing_url is None,
        status == 429 ==> classified(status, s).kind == UpstreamKind::Rate,
        status == 401 || status == 403 ==> classified(status, s).kind == UpstreamKind::Auth,
        status >= 500 ==> classified(status, s).kind == UpstreamKind::Server,
        status < 500 && status != 401 && status != 403 && status != 429 ==> classified(
            status,
            s,
        ).kind == UpstreamKind::Unknown,
{
    if protocol::pricing_link(s, 0) is Some {
        links_are_found_in_the_error(s, 0);
    }
}

/// An error that speaks of money, a plan or a quota is about the quota, and one
/// that speaks of too many requests is about their rate, whatever its status.
pub proof fn the_words_tell_the_error(status: int, s: Seq<char>)
    ensures
        text::has_part_ignoring_case(s, "insufficient"@) || text::has_part_ignoring_case(
            s,
            "quota_exceed"@,
        ) || text::has_part_ignoring_case(s, "exceed_quota"@) || text::has_part_ignoring_case(
            s,
            "no_quota"@,
        ) || text::has_part_ignoring_case(s, "exceeded"@) || text::has_part_ignoring_case(
            s,
            "credit"@,
        ) || text::has_part_ignoring_case(s, "upgrade"@) || text::has_part_ignoring_case(
            s,
            "subscription"@,
        ) || text::has_part_ignoring_case(s, "plan"@) || text::has_part_ignoring_case(s, "trial"@)
            || text::has_part_ignoring_case(s, "pricingurl"@) || protocol::pricing_link(
            s,
            0,
        ) is Some ==> classified(status, s).kind == UpstreamKind::Quota,
        !(classified(status, s).kind == UpstreamKind::Quota) && (text::has_part_ignoring_case(
            s,
            "rate limit"@,
        ) || text::has_part_ignoring_case(s, "too many"@)) ==> classified(status, s).kind
            == UpstreamKind::Rate,
        (text::has_part(s, "\"code\":112"@) || text::has_part(s, "\"code\": 112"@)) && status != 429
            && status != 401 && status != 403 && !text::has_part_ignoring_case(s, "rate limit"@)
            && !text::has_part_ignoring_case(s, "too many"@) ==> classified(status, s).kind
            == UpstreamKind::Quota,
        classified(status, s).pricing_url == protocol::pricing_link(s, 0),
{
}

/// The client is told of a limit as of too many requests, of a refused login as
/// of a login, of all else as of a bad gateway; it is given the upstream's own
/// status as the code and reads its own words.
pub proof fn clients_are_told_what_failed(
    status: int,
    kind: UpstreamKind,
    raw: Seq<char>,
    message: Seq<char>,
    pricing_url: Option<Seq<char>>,
)
    ensures
        ({
            let error: ErrorV = chat::failure(status, kind, raw, message, pricing_url);
            &&& error.status == 429 <==> kind == UpstreamKind::Quota || kind == UpstreamKind::Rate
            &&& error.status == 401 <==> kind == UpstreamKind::Auth
            &&& error.status == 502 <==> kind == UpstreamKind::Server || kind
                == UpstreamKind::Unknown
            &&& error.code == Some(text::decimal_int(status))
            &&& text::has_part(error.message, message)
            &&& raw.len() <= 300 ==> text::has_part(error.message, raw)
            &&& raw.len() > 300 ==> text::has_part(error.message, raw.take(300))
            &&& message.len() > 0 && pricing_url is Some ==> text::has_part(
                error.message,
                pricing_url.unwrap(),
            )
        }),
{
    let whole = chat::failure_text(status, raw, message, pricing_url);
    let detail = text::first_chars(raw, 300);
    let none = Seq::<char>::empty();
    if message.len() == 0 {
        let head = "上游返回 "@ + text::decimal(status as nat) + ": "@;
        assert(whole =~= head + detail + none);
        text::lemma_has_part(head, detail, none);
        assert(whole =~= none + message + whole);
        text::lemma_has_part(none, message, whole);
    } else {
        let head = "上游请求失败："@;
        let pricing = match pricing_url {
            Some(url) => " 套餐与额度："@ + url,
            None => Seq::empty(),
        };
        let end = "（上游原文："@ + detail + "）"@;
        assert(whole =~= head + message + (pricing + end));
        text::lemma_has_part(head, message, pricing + end);
        let middle = head + message + pricing + "（上游原文："@;
        assert(whole =~= middle + detail + "）"@);
        text::lemma_has_part(middle, detail, "）"@);
        if pricing_url is Some {
            let lead = head + message + " 套餐与额度："@;
            assert(whole =~= lead + pricing_url.unwrap() + end);
            text::lemma_has_part(lead, pricing_url.unwrap(), end);
        }
    }
}

} // verus!
