//! What clients are shown of Qoder's models, and which model a name stands for.
use super::endpoints::Region;
use super::models;
use super::models::{
    built_in_models, context_window, entry_of, entry_reads, first_with, found_in, item_entry,
    parsed, refreshed, CatalogV, EntryV, Parsed, Union, DEFAULT_CONTEXT_WINDOW, MAX_OUTPUT_TOKENS,
};
use super::protocol;
use crate::http::ResponseV;
use crate::json::JsonV;
use crate::order;
use crate::providers::adapter::RefreshV;
use crate::text;
use vstd::prelude::*;
use vstd::string::*;

verus! {

/// The words tell one another apart.
proof fn lemma_words()
    ensures
        "id"@.len() == 2,
        "key"@.len() == 3,
        "chat"@.len() == 4,
        "kind"@.len() == 4,
        "name"@.len() == 4,
        "chat"@[0] == 'c',
        "kind"@[0] == 'k',
        "name"@[0] == 'n',
        "is_vl"@.len() == 5,
        "config"@.len() == 6,
        "format"@.len() == 6,
        "region"@.len() == 6,
        "source"@.len() == 6,
        "system"@.len() == 6,
        "config"@[0] == 'c',
        "config"@[1] == 'o',
        "format"@[0] == 'f',
        "format"@[1] == 'o',
        "region"@[0] == 'r',
        "region"@[1] == 'e',
        "source"@[0] == 's',
        "source"@[1] == 'o',
        "system"@[0] == 's',
        "system"@[1] == 'y',
        "credits"@.len() == 7,
        "efforts"@.len() == 7,
        "enabled"@.len() == 7,
        "credits"@[0] == 'c',
        "credits"@[1] == 'r',
        "efforts"@[0] == 'e',
        "efforts"@[1] == 'f',
        "enabled"@[0] == 'e',
        "enabled"@[1] == 'n',
        "isDefault"@.len() == 9,
        "reasoning"@.len() == 9,
        "isDefault"@[0] == 'i',
        "reasoning"@[0] == 'r',
        "upstreamKey"@.len() == 11,
        "is_reasoning"@.len() == 12,
        "maxInputTokens"@.len() == 14,
        "supportsImages"@.len() == 14,
        "maxInputTokens"@[0] == 'm',
        "supportsImages"@[0] == 's',
        "maxOutputTokens"@.len() == 15,
        "supportsToolCall"@.len() == 16,
        "supportsReasoning"@.len() == 17,
{
    reveal_strlit("id");
    reveal_strlit("key");
    reveal_strlit("chat");
    reveal_strlit("kind");
    reveal_strlit("name");
    reveal_strlit("is_vl");
    reveal_strlit("config");
    reveal_strlit("format");
    reveal_strlit("region");
    reveal_strlit("source");
    reveal_strlit("system");
    reveal_strlit("credits");
    reveal_strlit("efforts");
    reveal_strlit("enabled");
    reveal_strlit("isDefault");
    reveal_strlit("reasoning");
    reveal_strlit("upstreamKey");
    reveal_strlit("is_reasoning");
    reveal_strlit("maxInputTokens");
    reveal_strlit("supportsImages");
    reveal_strlit("maxOutputTokens");
    reveal_strlit("supportsToolCall");
    reveal_strlit("supportsReasoning");
}

/// An entry says of a model what is known of it, and says it to the upstream in
/// the same way as to the client.
pub proof fn entries_agree_with_their_configuration(made: EntryV)
    ensures
        ({
            let entry = entry_of(made);
            &&& entry.get("id"@) == Some(JsonV::Str(made.id))
            &&& entry.get("upstreamKey"@) == Some(JsonV::Str(made.key))
            &&& entry.at("config"@, "key"@) == entry.get("upstreamKey"@)
            &&& entry.get("reasoning"@) == Some(JsonV::Bool(made.reasoning))
            &&& entry.get("supportsReasoning"@) == entry.get("reasoning"@)
            &&& entry.at("config"@, "is_reasoning"@) == entry.get("reasoning"@)
            &&& entry.get("supportsImages"@) == Some(JsonV::Bool(made.vision))
            &&& entry.at("config"@, "is_vl"@) == entry.get("supportsImages"@)
            &&& entry.at("config"@, "source"@) == Some(JsonV::Str(made.source))
            &&& entry.get("supportsToolCall"@) == Some(JsonV::Bool(true))
            &&& entry.get("enabled"@) == Some(JsonV::Bool(made.enabled))
            &&& entry.get("efforts"@) == Some(JsonV::Arr(made.efforts))
            &&& entry.get("maxInputTokens"@) == Some(JsonV::Int(made.context_window))
            &&& entry.get("maxOutputTokens"@) == Some(JsonV::Int(MAX_OUTPUT_TOKENS as int))
            &&& made.credits.len() > 0 ==> entry.get("credits"@) == Some(JsonV::Str(made.credits))
            &&& made.credits.len() == 0 ==> entry.get("credits"@) is None
        }),
{
    lemma_words();
}

proof fn lemma_without_spaces(s: Seq<char>)
    ensures
        forall|i: int|
            0 <= i < models::without_spaces(s).len() ==> !text::is_space(
                #[trigger] models::without_spaces(s)[i],
            ),
        (forall|i: int| 0 <= i < s.len() ==> !text::is_space(#[trigger] s[i]))
            ==> models::without_spaces(s) == s,
    decreases s.len(),
{
    if s.len() > 0 {
        lemma_without_spaces(s.drop_last());
        let known = models::without_spaces(s.drop_last());
        let all = models::without_spaces(s);
        assert forall|i: int| 0 <= i < all.len() implies !text::is_space(#[trigger] all[i]) by {
            if i < known.len() {
                assert(!text::is_space(known[i]));
            }
        }
        if forall|i: int| 0 <= i < s.len() ==> !text::is_space(#[trigger] s[i]) {
            assert forall|i: int| 0 <= i < s.drop_last().len() implies !text::is_space(
                #[trigger] s.drop_last()[i],
            ) by {
                assert(!text::is_space(s[i]));
            }
            assert(!text::is_space(s[s.len() - 1]));
            assert(s.drop_last().push(s.last()) =~= s);
        }
    }
}

/// A model of the catalogue is shown as it is there: its name, the key that the
/// upstream knows it by, whether it is on, sees and thinks, and the price. Its id
/// is its name without blanks.
pub proof fn items_are_shown_as_they_are(item: JsonV, factor: Seq<char>, s: Seq<char>, value: JsonV)
    requires
        value != JsonV::Null,
    ensures
        ({
            let entry = item_entry(item, factor);
            &&& item.get("display_name"@) == Some(JsonV::Str(s)) ==> entry.get("name"@) == Some(
                JsonV::Str(text::trimmed(s)),
            )
            &&& item.get("display_name"@) == Some(JsonV::Str(s)) && (forall|i: int|
                0 <= i < text::trimmed(s).len() ==> !text::is_space(#[trigger] text::trimmed(s)[i]))
                ==> entry.get("id"@) == entry.get("name"@)
            &&& entry.get("id"@) matches Some(JsonV::Str(id))
            &&& forall|i: int| 0 <= i < id.len() ==> !text::is_space(#[trigger] id[i])
            &&& item.get("key"@) == Some(JsonV::Str(s)) ==> entry.get("upstreamKey"@) == Some(
                JsonV::Str(text::trimmed(s)),
            )
            &&& entry.get("enabled"@) == Some(JsonV::Bool(item.field("enable"@).truthy()))
            &&& entry.get("supportsImages"@) == Some(JsonV::Bool(item.field("is_vl"@).truthy()))
            &&& entry.get("supportsReasoning"@) == Some(
                JsonV::Bool(
                    item.field("is_reasoning"@).truthy() || item.field("thinking_config"@).truthy(),
                ),
            )
            &&& item.get("source"@) == Some(JsonV::Str(s)) ==> entry.at("config"@, "source"@)
                == Some(JsonV::Str(s))
            &&& item.get("format"@) == Some(value) ==> entry.at("config"@, "format"@) == Some(value)
            &&& item.get("format"@) is None ==> entry.at("config"@, "format"@) is None
            &&& entry.at("config"@, "key"@) == entry.get("upstreamKey"@)
            &&& text::trimmed(factor).len() > 0 ==> entry.get("credits"@) == Some(
                JsonV::Str("x"@ + text::trimmed(factor) + " credits"@),
            )
        }),
{
    lemma_words();
    lemma_without_spaces(models::item_name(item));
}

proof fn lemma_greatest(config: JsonV, tiers: Seq<Seq<char>>)
    ensures
        forall|i: int|
            0 <= i < tiers.len() && config.field(#[trigger] tiers[i]).field(
                "token_count"@,
            ).as_int() is Some ==> {
                &&& models::greatest_count(config, tiers) is Some
                &&& models::greatest_count(config, tiers).unwrap() >= config.field(tiers[i]).field(
                    "token_count"@,
                ).as_int().unwrap()
            },
        models::greatest_count(config, tiers) matches Some(n) ==> exists|i: int|
            0 <= i < tiers.len() && config.field(#[trigger] tiers[i]).field("token_count"@).as_int()
                == Some(n),
    decreases tiers.len(),
{
    if tiers.len() > 0 {
        let head = tiers.drop_last();
        lemma_greatest(config, head);
        let all = models::greatest_count(config, tiers);
        assert forall|i: int|
            0 <= i < tiers.len() && config.field(#[trigger] tiers[i]).field(
                "token_count"@,
            ).as_int() is Some implies {
            &&& all is Some
            &&& all.unwrap() >= config.field(tiers[i]).field("token_count"@).as_int().unwrap()
        } by {
            if i < head.len() {
                assert(head[i] == tiers[i]);
            }
        }
        if let Some(n) = all {
            if config.field(tiers.last()).field("token_count"@).as_int() == Some(n) {
                assert(config.field(tiers[tiers.len() - 1]).field("token_count"@).as_int() == Some(
                    n,
                ));
            } else {
                let i = choose|i: int|
                    0 <= i < head.len() && config.field(#[trigger] head[i]).field(
                        "token_count"@,
                    ).as_int() == Some(n);
                assert(config.field(tiers[i]).field("token_count"@).as_int() == Some(n));
            }
        }
    }
}

/// A model takes in as many tokens as the widest of its windows has; where it
/// states none, as many as models usually do.
pub proof fn the_widest_window_counts(
    item: JsonV,
    factor: Seq<char>,
    windows: Map<Seq<char>, JsonV>,
    tier: Seq<char>,
    n: int,
)
    requires
        item.get("context_config"@) == Some(JsonV::Obj(windows)),
        windows.dom().finite(),
        0 < n <= i64::MAX,
    ensures
        ({
            &&& item_entry(item, factor).get("maxInputTokens"@) matches Some(JsonV::Int(widest))
            &&& windows.contains_key(tier) && windows[tier].get("token_count"@) == Some(
                JsonV::Int(n),
            ) ==> widest >= n && exists|other: Seq<char>| #[trigger]
                windows.contains_key(other) && windows[other].get("token_count"@) == Some(
                    JsonV::Int(widest),
                )
            &&& (forall|other: Seq<char>| #[trigger]
                windows.contains_key(other) ==> windows[other].get("token_count"@) is None)
                ==> widest == DEFAULT_CONTEXT_WINDOW
        }),
{
    lemma_words();
    let config = JsonV::Obj(windows);
    let tiers = config.keys();
    order::lemma_listed(windows.dom());
    lemma_greatest(config, tiers);
    let widest = context_window(item);
    assert forall|other: Seq<char>| windows.contains_key(other) <==> tiers.contains(other) by {
        assert(windows.dom().contains(other) <==> tiers.contains(other));
    }
    if let Some(m) = models::greatest_count(config, tiers) {
        let i = choose|i: int|
            0 <= i < tiers.len() && config.field(#[trigger] tiers[i]).field("token_count"@).as_int()
                == Some(m);
        assert(tiers.contains(tiers[i]));
        assert(windows.contains_key(tiers[i]));
    }
    if windows.contains_key(tier) && windows[tier].get("token_count"@) == Some(JsonV::Int(n)) {
        let i = choose|i: int| 0 <= i < tiers.len() && tiers[i] == tier;
        assert(config.field(tiers[i]).field("token_count"@).as_int() == Some(n));
    }
}

/// The efforts that a model is shown with are those that it declares, and no
/// others.
pub proof fn declared_efforts_are_shown(
    item: JsonV,
    factor: Seq<char>,
    efforts: Map<Seq<char>, JsonV>,
    effort: Seq<char>,
)
    requires
        item.field("thinking_config"@).at("enabled"@, "efforts"@) == Some(JsonV::Obj(efforts)),
        efforts.dom().finite(),
    ensures
        ({
            &&& item_entry(item, factor).get("efforts"@) matches Some(JsonV::Arr(shown))
            &&& shown.contains(JsonV::Str(effort)) <==> efforts.contains_key(effort)
        }),
{
    lemma_words();
    order::lemma_listed(efforts.dom());
    let keys = JsonV::Obj(efforts).keys();
    let shown = keys.map_values(|key: Seq<char>| JsonV::Str(key));
    assert(models::item_efforts(item) =~= shown);
    assert(efforts.dom().contains(effort) <==> keys.contains(effort));
    if keys.contains(effort) {
        let k = choose|k: int| 0 <= k < keys.len() && keys[k] == effort;
        assert(shown[k] == JsonV::Str(effort));
    }
    if shown.contains(JsonV::Str(effort)) {
        let k = choose|k: int| 0 <= k < shown.len() && shown[k] == JsonV::Str(effort);
        assert(keys[k] == effort);
    }
}

/// Every item with a key and a name that was not met before is read, behind those
/// before it, with the price at its own place; another changes nothing.
pub proof fn every_item_is_read(items: Seq<JsonV>, item: JsonV, factors: Seq<Seq<char>>)
    ensures
        ({
            let before = parsed(items, factors);
            let after = parsed(items.push(item), factors);
            let id = models::without_spaces(models::item_name(item));
            let fresh = models::item_key(item).len() > 0 && id.len() > 0 && !before.seen.contains(
                text::lowercase(id),
            );
            &&& !fresh ==> after == before
            &&& fresh ==> {
                &&& after.models.len() == before.models.len() + 1
                &&& after.models.drop_last() == before.models
                &&& items.len() < factors.len() ==> after.models.last() == item_entry(
                    item,
                    factors[items.len() as int],
                )
            }
        }),
{
    assert(items.push(item).drop_last() =~= items);
    let before: Parsed = parsed(items, factors);
    let after: Parsed = parsed(items.push(item), factors);
    if after.models.len() > before.models.len() {
        assert(after.models.drop_last() =~= before.models);
    }
}

proof fn lemma_union_keeps(before: Union, models: Seq<JsonV>, region: Region, i: int)
    requires
        0 <= i < before.out.len(),
    ensures
        before.after_all(models, region).out.len() >= before.out.len(),
        before.after_all(models, region).out[i] == before.out[i],
    decreases models.len(),
{
    if models.len() > 0 {
        lemma_union_keeps(before, models.drop_last(), region, i);
    }
}

proof fn lemma_union_from(before: Union, models: Seq<JsonV>, region: Region, i: int)
    requires
        before.out.len() <= i < before.after_all(models, region).out.len(),
    ensures
        exists|k: int|
            0 <= k < models.len() && before.after_all(models, region).out[i] == (
            #[trigger] models[k]).put("region"@, JsonV::Str(region.spec_id())),
    decreases models.len(),
{
    if models.len() > 0 {
        let head = models.drop_last();
        let known = before.after_all(head, region);
        if i < known.out.len() {
            lemma_union_from(before, head, region, i);
            let k = choose|k: int|
                0 <= k < head.len() && known.out[i] == (#[trigger] head[k]).put(
                    "region"@,
                    JsonV::Str(region.spec_id()),
                );
            assert(models[k] == head[k]);
        } else {
            assert(models[models.len() - 1] == models.last());
        }
    }
}

/// Every model that is listed is one of the models of a region, as it is there,
/// with the name of that region; those of the first region come first.
pub proof fn listed_models_are_models_of_a_region(state: CatalogV, i: int, key: Seq<char>)
    requires
        0 <= i < state.union().out.len(),
        key != "region"@,
    ensures
        exists|region: Region, k: int|
            0 <= k < state.models(region).len() && state.union().out[i].get(key) == (
            #[trigger] state.models(region)[k]).get(key) && (state.models(region)[k] is Obj
                ==> state.union().out[i].get("region"@) == Some(JsonV::Str(region.spec_id()))),
{
    let none = Union { out: Seq::empty(), seen: Seq::empty() };
    let first = none.after_all(state.models(Region::Global), Region::Global);
    if i < first.out.len() {
        lemma_union_keeps(first, state.models(Region::Cn), Region::Cn, i);
        lemma_union_from(none, state.models(Region::Global), Region::Global, i);
        let k = choose|k: int|
            0 <= k < state.models(Region::Global).len() && first.out[i] == (
            #[trigger] state.models(Region::Global)[k]).put(
                "region"@,
                JsonV::Str(Region::Global.spec_id()),
            );
        assert(state.union().out[i].get(key) == state.models(Region::Global)[k].get(key));
    } else {
        lemma_union_from(first, state.models(Region::Cn), Region::Cn, i);
        let k = choose|k: int|
            0 <= k < state.models(Region::Cn).len() && state.union().out[i] == (
            #[trigger] state.models(Region::Cn)[k]).put(
                "region"@,
                JsonV::Str(Region::Cn.spec_id()),
            );
        assert(state.union().out[i].get(key) == state.models(Region::Cn)[k].get(key));
    }
}

/// A region's own list is used once it was fetched, and the built-in one before.
pub proof fn fetched_lists_are_used(state: CatalogV, region: Region, models: Seq<JsonV>, now: int)
    ensures
        models.len() > 0 ==> state.with(region, models, now).models(region) == models,
        state.fetched(region).len() == 0 ==> state.models(region) == built_in_models(region),
        state.with(region, models, now).models(region.other()) == state.models(region.other()),
        state.with(region, models, now).fetched_at(region) == now,
        state.with(region, models, now).fetched_at(region.other()) == state.fetched_at(
            region.other(),
        ),
{
}

proof fn lemma_first(list: Seq<JsonV>, key: Seq<char>, wanted: Seq<char>)
    ensures
        match first_with(list, key, wanted) {
            Some(model) => entry_reads(model, key, wanted) && list.contains(model),
            None => forall|i: int| 0 <= i < list.len() ==> !entry_reads(#[trigger] list[i], key, wanted),
        },
    decreases list.len(),
{
    if list.len() > 0 {
        if entry_reads(list[0], key, wanted) {
            assert(list.contains(list[0]));
        } else {
            lemma_first(list.skip(1), key, wanted);
            match first_with(list.skip(1), key, wanted) {
                Some(model) => {
                    let k = choose|k: int| 0 <= k < list.skip(1).len() && list.skip(1)[k] == model;
                    assert(list[k + 1] == model);
                },
                None => {
                    assert forall|i: int| 0 <= i < list.len() implies !entry_reads(
                        #[trigger] list[i],
                        key,
                        wanted,
                    ) by {
                        if i > 0 {
                            assert(list.skip(1)[i - 1] == list[i]);
                        }
                    }
                },
            }
        }
    }
}

/// Whether a model goes by a name: as its id, its name or its key, whatever the
/// case and the blanks around it.
pub open spec fn goes_by(model: JsonV, name: Seq<char>) -> bool {
    let wanted = text::lowercase(text::trimmed(name));
    entry_reads(model, "id"@, wanted) || entry_reads(model, "name"@, wanted) || entry_reads(
        model,
        "upstreamKey"@,
        wanted,
    )
}

proof fn lemma_found(list: Seq<JsonV>, name: Seq<char>)
    ensures
        match found_in(list, text::lowercase(text::trimmed(name))) {
            Some(model) => goes_by(model, name) && list.contains(model),
            None => forall|i: int| 0 <= i < list.len() ==> !goes_by(#[trigger] list[i], name),
        },
{
    let wanted = text::lowercase(text::trimmed(name));
    lemma_first(list, "id"@, wanted);
    lemma_first(list, "name"@, wanted);
    lemma_first(list, "upstreamKey"@, wanted);
}

/// The model that a name stands for goes by that name and is a model of one of
/// the regions: of the account's own, where it has one; and no model is found
/// only where none goes by the name.
pub proof fn names_stand_for_their_models(state: CatalogV, name: Seq<char>, region: Region, i: int)
    ensures
        state.resolved(name, region) matches Some(model) ==> {
            &&& goes_by(model, name)
            &&& state.models(region).contains(model) || state.models(region.other()).contains(model)
                || built_in_models(region).contains(model) || built_in_models(
                region.other(),
            ).contains(model)
        },
        text::lowercase(text::trimmed(name)).len() > 0 && 0 <= i < state.models(region).len()
            && goes_by(state.models(region)[i], name) ==> {
            &&& state.resolved(name, region) is Some
            &&& state.models(region).contains(state.resolved(name, region).unwrap())
        },
        text::lowercase(text::trimmed(name)).len() > 0 && state.resolved(name, region) is None
            && 0 <= i < state.models(region.other()).len() ==> !goes_by(
            state.models(region.other())[i],
            name,
        ),
        text::lowercase(text::trimmed(name)).len() == 0 ==> state.resolved(name, region) is None,
{
    lemma_found(state.models(region), name);
    lemma_found(state.models(region.other()), name);
    lemma_found(built_in_models(region), name);
    lemma_found(built_in_models(region.other()), name);
}

/// Blanks around a name do not matter.
pub proof fn blanks_do_not_name(state: CatalogV, name: Seq<char>, region: Region)
    ensures
        state.resolved(text::trimmed(name), region) == state.resolved(name, region),
{
    text::lemma_trimmed(name);
}

proof fn lemma_keyed(list: Seq<JsonV>, key: Seq<char>)
    ensures
        match protocol::first_keyed(list, key) {
            Some(model) => model.text_at("upstreamKey"@) == Some(key) && list.contains(model),
            None => forall|i: int|
                0 <= i < list.len() ==> (#[trigger] list[i]).text_at("upstreamKey"@) != Some(key),
        },
    decreases list.len(),
{
    if list.len() > 0 {
        if list[0].text_at("upstreamKey"@) == Some(key) {
            assert(list.contains(list[0]));
        } else {
            lemma_keyed(list.skip(1), key);
            match protocol::first_keyed(list.skip(1), key) {
                Some(model) => {
                    let k = choose|k: int| 0 <= k < list.skip(1).len() && list.skip(1)[k] == model;
                    assert(list[k + 1] == model);
                },
                None => {
                    assert forall|i: int| 0 <= i < list.len() implies (
                    #[trigger] list[i]).text_at("upstreamKey"@) != Some(key) by {
                        if i > 0 {
                            assert(list.skip(1)[i - 1] == list[i]);
                        }
                    }
                },
            }
        }
    }
}

/// A model that the upstream names by its key is told to the client by the name of
/// a listed model with that key.
pub proof fn keys_are_told_as_names(state: CatalogV, key: Seq<char>, i: int)
    requires
        key.len() > 0,
        0 <= i < state.union().out.len(),
        state.union().out[i].get("upstreamKey"@) == Some(JsonV::Str(key)),
    ensures
        exists|k: int|
            0 <= k < state.union().out.len() && (#[trigger] state.union().out[k]).get(
                "upstreamKey"@,
            ) == Some(JsonV::Str(key)) && protocol::model_back(state, key)
                == state.union().out[k].text_at("name"@),
{
    lemma_keyed(state.union().out, key);
    let model = protocol::first_keyed(state.union().out, key).unwrap();
    let k = choose|k: int| 0 <= k < state.union().out.len() && state.union().out[k] == model;
    assert(state.union().out[k].text_at("upstreamKey"@) == Some(key));
}

/// A refresh that succeeds takes over just the models that the answer holds for
/// the region that was asked, and tells how many they are; one that fails says
/// why.
pub proof fn refreshes_take_over_the_answer(
    state: CatalogV,
    region: Region,
    response: ResponseV,
    payload: JsonV,
    items: Seq<JsonV>,
    factors: Seq<Seq<char>>,
    now: int,
)
    requires
        response.payload == Some(payload),
        payload.get("chat"@) == Some(JsonV::Arr(items)),
    ensures
        ({
            let read = parsed(items, factors).models;
            let (outcome, after) = refreshed(state, region, response, factors, now);
            let good = response.ok && (payload.get("statusCodeValue"@) == Some(JsonV::Int(200))
                || payload.get("statusCodeValue"@) is None && payload.get("code"@) is None);
            &&& good && read.len() > 0 ==> {
                &&& outcome == RefreshV::Refreshed(read.len() as int)
                &&& after.models(region) == read
                &&& after.fetched_at(region) == now
            }
            &&& !response.ok ==> (outcome matches RefreshV::Failed(reason) && text::has_part(
                reason,
                text::decimal(response.status as nat),
            ))
            &&& !response.ok || read.len() == 0 ==> outcome is Failed && after == state
        }),
{
    text::lemma_has_part("上游返回 HTTP "@, text::decimal(response.status as nat), Seq::empty());
}

/// A code other than success in an answer is an error, and is told with the words
/// that came with it.
pub proof fn stated_errors_are_told(payload: JsonV, n: int, s: Seq<char>)
    requires
        payload.get("statusCodeValue"@) == Some(JsonV::Int(n)),
        i64::MIN <= n <= i64::MAX,
        payload.get("message"@) == Some(JsonV::Str(s)),
    ensures
        n == 200 ==> models::stated_error(payload) is None,
        n != 200 ==> (models::stated_error(payload) matches Some(told) && text::has_part(
            told,
            text::decimal_int(n),
        ) && (s.len() <= 200 ==> text::has_part(told, s))),
{
    let head = "上游返回业务错误 "@;
    let code = text::decimal_int(n);
    let tail = ": "@ + text::first_chars(s, 200);
    assert(head + code + ": "@ + text::first_chars(s, 200) =~= head + code + tail);
    text::lemma_has_part(head, code, tail);
    text::lemma_has_part(head + code + ": "@, text::first_chars(s, 200), Seq::empty());
}

} // verus!
