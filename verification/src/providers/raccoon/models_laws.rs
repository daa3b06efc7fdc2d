//! What clients are shown of the models: the catalogue's own numbers and names,
//! each under the entry that clients know.
use super::models;
use super::models::{
    entries_in, fixed_list, int_in, name_in, normal_entry, offered, read_models, refreshed, tags_in,
    CatalogV, PriceV,
};
use crate::http::ResponseV;
use crate::json::JsonV;
use crate::providers::adapter::RefreshV;
use crate::text;
use vstd::prelude::*;
use vstd::string::*;

verus! {

/// The words tell one another apart.
proof fn lemma_words()
    ensures
        "id"@.len() == 2,
        "name"@.len() == 4,
        "tags"@.len() == 4,
        "name"@[0] == 'n',
        "tags"@[0] == 't',
        "image"@.len() == 5,
        "params"@.len() == 6,
        "vision"@.len() == 6,
        "params"@[0] == 'p',
        "vision"@[0] == 'v',
        "credits"@.len() == 7,
        "visible"@.len() == 7,
        "credits"@[0] == 'c',
        "visible"@[0] == 'v',
        "maxTokens"@.len() == 9,
        "max_tokens"@.len() == 10,
        "description"@.len() == 11,
        "displayName"@.len() == 11,
        "description"@[1] == 'e',
        "displayName"@[1] == 'i',
        "supportImage"@.len() == 12,
        "billingStatus"@.len() == 13,
        "contextWindow"@.len() == 13,
        "billingStatus"@[0] == 'b',
        "contextWindow"@[0] == 'c',
        "context_window"@.len() == 14,
        "maxInputTokens"@.len() == 14,
        "supportsImages"@.len() == 14,
        "context_window"@[0] == 'c',
        "maxInputTokens"@[0] == 'm',
        "supportsImages"@[0] == 's',
        "maxOutputTokens"@.len() == 15,
        "supportThinking"@.len() == 15,
        "maxOutputTokens"@[0] == 'm',
        "supportThinking"@[0] == 's',
        "pointsMultiplier"@.len() == 16,
        "supportsReasoning"@.len() == 17,
        "image-understanding"@.len() == 19,
{
    reveal_strlit("id");
    reveal_strlit("name");
    reveal_strlit("tags");
    reveal_strlit("image");
    reveal_strlit("params");
    reveal_strlit("vision");
    reveal_strlit("credits");
    reveal_strlit("visible");
    reveal_strlit("maxTokens");
    reveal_strlit("max_tokens");
    reveal_strlit("description");
    reveal_strlit("displayName");
    reveal_strlit("supportImage");
    reveal_strlit("billingStatus");
    reveal_strlit("contextWindow");
    reveal_strlit("context_window");
    reveal_strlit("maxInputTokens");
    reveal_strlit("supportsImages");
    reveal_strlit("maxOutputTokens");
    reveal_strlit("supportThinking");
    reveal_strlit("pointsMultiplier");
    reveal_strlit("supportsReasoning");
    reveal_strlit("image-understanding");
}

/// Every model that is offered bears its name as its id, shows the name that
/// people read where it has one, and takes and gives as many tokens, sees and
/// thinks as the catalogue says; all else of it stays as it was.
pub proof fn offers_keep_to_the_catalogue(
    state: CatalogV,
    default: Seq<char>,
    i: int,
    key: Seq<char>,
)
    requires
        state.models.len() > 0,
        0 <= i < state.models.len(),
        state.models[i] is Obj,
        key != "id"@ && key != "name"@ && key != "maxInputTokens"@ && key != "maxOutputTokens"@,
        key != "supportsImages"@ && key != "supportsReasoning"@,
    ensures
        ({
            let model = state.models[i];
            let entry = offered(state, default)[i];
            &&& offered(state, default).len() == state.models.len()
            &&& entry.get("id"@) == Some(JsonV::Str(model.shown_at("name"@)))
            &&& model.get("displayName"@) is Some ==> entry.get("name"@) == model.get(
                "displayName"@,
            )
            &&& model.get("displayName"@) is None ==> entry.get("name"@) == model.get("name"@)
            &&& model.get("contextWindow"@) is Some ==> entry.get("maxInputTokens"@) == model.get(
                "contextWindow"@,
            )
            &&& model.get("maxTokens"@) is Some ==> entry.get("maxOutputTokens"@) == model.get(
                "maxTokens"@,
            )
            &&& model.get("supportImage"@) is Some ==> entry.get("supportsImages"@) == model.get(
                "supportImage"@,
            )
            &&& model.get("supportThinking"@) is Some ==> entry.get("supportsReasoning"@)
                == model.get("supportThinking"@)
            &&& entry.get(key) == model.get(key)
        }),
{
    lemma_words();
}

/// Every model that is offered takes in as many tokens as its window has and
/// gives as many as its longest answer, whether the list was fetched or is the
/// fixed one.
pub proof fn limits_are_shown(state: CatalogV, default: Seq<char>, i: int)
    requires
        0 <= i < offered(state, default).len(),
        offered(state, default)[i].get("contextWindow"@) is Some,
        offered(state, default)[i].get("maxTokens"@) is Some,
    ensures
        offered(state, default)[i].get("maxInputTokens"@) == offered(state, default)[i].get(
            "contextWindow"@,
        ),
        offered(state, default)[i].get("maxOutputTokens"@) == offered(state, default)[i].get(
            "maxTokens"@,
        ),
{
    lemma_words();
}

proof fn lemma_fixed(
    name: Seq<char>,
    display: Seq<char>,
    description: Seq<char>,
    tags: Seq<&str>,
    window: int,
    longest: int,
    image: bool,
    thinking: bool,
    credits: Option<Seq<char>>,
)
    ensures
        ({
            let entry = models::fixed_entry(
                name,
                display,
                description,
                tags,
                window,
                longest,
                image,
                thinking,
                credits,
            );
            &&& entry is Obj
            &&& entry.get("name"@) == Some(JsonV::Str(name))
            &&& entry.get("displayName"@) == Some(JsonV::Str(display))
            &&& entry.get("contextWindow"@) == Some(JsonV::Int(window))
            &&& entry.get("maxTokens"@) == Some(JsonV::Int(longest))
            &&& entry.get("supportImage"@) == Some(JsonV::Bool(image))
            &&& entry.get("supportThinking"@) == Some(JsonV::Bool(thinking))
            &&& entry.get("credits"@) == match credits {
                Some(c) => Some(JsonV::Str(c)),
                None => None,
            }
        }),
{
    lemma_words();
    reveal(models::fixed_entry);
}

/// While nothing was fetched the fixed list is offered, the default model with it
/// under the name that is set; each of its models has an id and both limits, and
/// gives no more than it takes.
pub proof fn the_fixed_list_can_be_used(default: Seq<char>, i: int, fetched_at: int)
    requires
        0 <= i < fixed_list(default).len(),
    ensures
        ({
            let list = offered(CatalogV { models: Seq::empty(), fetched_at }, default);
            &&& list.len() == fixed_list(default).len()
            &&& list[3].get("id"@) == Some(JsonV::Str(default))
            &&& list[i].get("id"@) matches Some(JsonV::Str(id))
            &&& fixed_list(default)[i].get("name"@) == Some(JsonV::Str(id))
            &&& list[i].get("name"@) == fixed_list(default)[i].get("displayName"@)
            &&& list[i].get("maxInputTokens"@) matches Some(JsonV::Int(window))
            &&& list[i].get("maxOutputTokens"@) matches Some(JsonV::Int(longest))
            &&& fixed_list(default)[i].get("contextWindow"@) == Some(JsonV::Int(window))
            &&& fixed_list(default)[i].get("maxTokens"@) == Some(JsonV::Int(longest))
            &&& 0 < longest < window
            &&& list[i].get("supportsImages"@) is Some
            &&& list[i].get("supportsImages"@) == fixed_list(default)[i].get("supportImage"@)
            &&& list[i].get("supportsReasoning"@) is Some
            &&& list[i].get("supportsReasoning"@) == fixed_list(default)[i].get("supportThinking"@)
        }),
{
    lemma_words();
    lemma_fixed(
        "raccoon-8c4485"@,
        "Raccoon-Work"@,
        "适合复杂办公任务、代码开发、调试和图像识别等任务（目录默认旗舰，自称 GPT-5）"@,
        seq!["general", "office", "code", "vision"],
        1_000_000,
        100_000,
        true,
        false,
        Some("x1 credits"@),
    );
    lemma_fixed(
        "raccoon-19b265"@,
        "Raccoon-Work-260817-A"@,
        "适合复杂办公任务、代码开发和综合分析等任务（A/B 变体 A，自称 GPT-5）"@,
        seq!["general", "office", "code", "analysis"],
        1_000_000,
        100_000,
        false,
        false,
        Some("x1 credits"@),
    );
    lemma_fixed(
        "raccoon-405a1c"@,
        "Raccoon-Work-260817-B"@,
        "适合通用对话、轻量代码和内容处理等任务（A/B 变体 B，自称 GPT-5）"@,
        seq!["general", "chat", "rewrite", "summary", "fast"],
        1_000_000,
        100_000,
        false,
        false,
        Some("x1 credits"@),
    );
    lemma_fixed(
        default,
        "Raccoon Chat (默认)"@,
        "小浣熊默认对话模型（default-llm-config.json 预置）。"@,
        Seq::empty(),
        180_000,
        80_000,
        false,
        true,
        None,
    );
    lemma_fixed(
        "sn-sensenova-6-8-flash-lite"@,
        "SenseNova 6.8 Flash Lite"@,
        "轻量模型，用于标题生成等小任务。"@,
        Seq::empty(),
        256_000,
        63_999,
        false,
        true,
        Some("x0.5 credits"@),
    );
    let list = fixed_list(default);
    assert(i == 0 || i == 1 || i == 2 || i == 3 || i == 4);
    assert(list[3].get("name"@) == Some(JsonV::Str(default)));
    assert(list[i] is Obj && list[i].get("name"@) is Some);
}

/// A model of the catalogue is read with its own name, its own limits by either
/// of their names, the entry itself before its parameters, and its own price.
pub proof fn entries_are_read(entry: JsonV, price: PriceV, n: int, s: Seq<char>)
    ensures
        ({
            let read = normal_entry(entry, price);
            let params = entry.field("params"@);
            &&& read is Obj
            &&& read.get("name"@) == Some(JsonV::Str(name_in(entry)))
            &&& int_in(entry.get("context_window"@)) == Some(n) ==> read.get("contextWindow"@)
                == Some(JsonV::Int(n))
            &&& int_in(entry.get("context_window"@)) is None && int_in(
                params.get("context_window"@),
            ) == Some(n) ==> read.get("contextWindow"@) == Some(JsonV::Int(n))
            &&& int_in(entry.get("context_window"@)) is None && int_in(
                params.get("context_window"@),
            ) is None && int_in(entry.get("contextWindow"@)) == Some(n) ==> read.get(
                "contextWindow"@,
            ) == Some(JsonV::Int(n))
            &&& int_in(entry.get("max_tokens"@)) == Some(n) ==> read.get("maxTokens"@) == Some(
                JsonV::Int(n),
            )
            &&& int_in(entry.get("max_tokens"@)) is None && int_in(params.get("max_tokens"@))
                == Some(n) ==> read.get("maxTokens"@) == Some(JsonV::Int(n))
            &&& int_in(entry.get("max_tokens"@)) is None && int_in(params.get("max_tokens"@))
                is None && int_in(entry.get("maxTokens"@)) == Some(n) ==> read.get("maxTokens"@)
                == Some(JsonV::Int(n))
            &&& (tags_in(entry).contains("vision"@) || tags_in(entry).contains("image"@) || tags_in(
                entry,
            ).contains("image-understanding"@)) <==> read.get("supportImage"@) == Some(
                JsonV::Bool(true),
            )
            &&& read.get("supportThinking"@) == Some(JsonV::Bool(true))
            &&& read.get("pointsMultiplier"@) == Some(price.base)
            &&& price.charged == Some(s) ==> read.get("credits"@) == Some(
                JsonV::Str("x"@ + s + " credits"@),
            )
            &&& price.charged is None ==> read.get("credits"@) == Some(JsonV::Str(Seq::empty()))
            &&& entry.get("billing_status"@) == Some(JsonV::Str(s)) ==> read.get("billingStatus"@)
                == Some(JsonV::Str(s))
            &&& read.get("visible"@) == Some(
                JsonV::Bool(entry.get("visible"@) != Some(JsonV::Bool(false))),
            )
            &&& entry.get("display_name"@) == Some(JsonV::Str(s)) && text::trimmed(s).len() > 0
                ==> read.get("displayName"@) == Some(JsonV::Str(text::trimmed(s)))
            &&& entry.get("display_description"@) == Some(JsonV::Str(s)) ==> read.get(
                "description"@,
            ) == Some(JsonV::Str(text::trimmed(s)))
        }),
{
    lemma_words();
    reveal(normal_entry);
}

/// Every named model of the catalogue that was not met before is read, behind
/// those before it, with the price at its own place; another changes nothing.
pub proof fn every_model_is_read(entries: Seq<JsonV>, entry: JsonV, prices: Seq<PriceV>)
    ensures
        ({
            let before = read_models(entries, prices);
            let after = read_models(entries.push(entry), prices);
            let fresh = entry is Obj && name_in(entry).len() > 0 && !before.seen.contains(
                name_in(entry),
            );
            &&& !fresh ==> after == before
            &&& fresh ==> {
                &&& after.models.len() == before.models.len() + 1
                &&& after.models.drop_last() == before.models
                &&& entries.len() < prices.len() ==> after.models.last() == normal_entry(
                    entry,
                    prices[entries.len() as int],
                )
            }
        }),
{
    assert(entries.push(entry).drop_last() =~= entries);
    let before = read_models(entries, prices);
    let after = read_models(entries.push(entry), prices);
    if after.models.len() > before.models.len() {
        assert(after.models.drop_last() =~= before.models);
    }
}

/// The tags of a model are its own, trimmed, in their order; blanks are none.
pub proof fn tags_are_read(entry: JsonV, items: Seq<JsonV>, s: Seq<char>)
    requires
        entry.get("tags"@) == Some(JsonV::Arr(items)),
        items.contains(JsonV::Str(s)),
        text::trimmed(s).len() > 0,
    ensures
        tags_in(entry).contains(text::trimmed(s)),
{
    lemma_tags(items, s);
}

proof fn lemma_tags(items: Seq<JsonV>, s: Seq<char>)
    requires
        items.contains(JsonV::Str(s)),
        text::trimmed(s).len() > 0,
    ensures
        models::tags_among(items).contains(text::trimmed(s)),
    decreases items.len(),
{
    let i = choose|i: int| 0 <= i < items.len() && items[i] == JsonV::Str(s);
    let all = models::tags_among(items);
    let head = items.drop_last();
    if i == items.len() - 1 {
        assert(all[all.len() - 1] == text::trimmed(s));
    } else {
        assert(head[i] == JsonV::Str(s));
        lemma_tags(head, s);
        let known = models::tags_among(head);
        let k = choose|k: int| 0 <= k < known.len() && known[k] == text::trimmed(s);
        assert(all[k] == text::trimmed(s));
    }
}

/// The models of a catalogue are those of its categories, one category behind the
/// other.
pub proof fn categories_are_joined(
    payload: JsonV,
    data: JsonV,
    categories: Seq<JsonV>,
    category: JsonV,
    list: Seq<JsonV>,
)
    requires
        data is Obj,
        payload.get("data"@) == Some(data),
        data.get("categories"@) == Some(JsonV::Arr(categories.push(category))),
        category.get("models"@) == Some(JsonV::Arr(list)),
    ensures
        entries_in(payload) == models::models_among(categories) + list,
        entries_in(data) == entries_in(payload) || data.get("data"@) is Some,
{
    assert(categories.push(category).drop_last() =~= categories);
}

/// A refresh that succeeds takes over just the models that the answer holds, tells
/// how many they are, and notes the time; one that fails says why.
pub proof fn refreshes_take_over_the_answer(
    state: CatalogV,
    response: ResponseV,
    payload: JsonV,
    prices: Seq<PriceV>,
    now_ms: int,
)
    requires
        response.payload == Some(payload),
    ensures
        ({
            let models = read_models(entries_in(payload), prices).models;
            let (outcome, after) = refreshed(state, response, prices, now_ms);
            &&& response.ok && models.len() > 0 ==> {
                &&& outcome == RefreshV::Refreshed(models.len() as int)
                &&& after.models == models
                &&& after.fetched_at == now_ms
            }
            &&& !response.ok ==> (outcome matches RefreshV::Failed(reason) && text::has_part(
                reason,
                text::decimal(response.status as nat),
            ))
            &&& !response.ok || models.len() == 0 ==> outcome is Failed && after == state
        }),
{
    text::lemma_has_part("上游返回 HTTP "@, text::decimal(response.status as nat), Seq::empty());
}

/// The model that is set is the one that is used where none is asked for.
pub proof fn the_model_that_is_set_is_used(name: Seq<char>)
    requires
        text::trimmed(name) == name,
        name.len() > 0,
    ensures
        models::default_name(Some(name)) == name,
        models::default_name(None).len() > 0,
        models::default_name(Some(Seq::empty()))
            == models::default_name(None),
{
    reveal_strlit("raccoon-chat-ml-5-5");
    text::lemma_trimmed(Seq::empty());
}

} // verus!
