//! Raccoon's models: a list that is always at hand, and the upstream's.
use super::jwt;
use crate::http::{ApiRequest, ApiResponse, RequestV, ResponseV};
use crate::json;
use crate::json::{Double, Json, JsonV};
use crate::number;
use crate::providers::adapter;
use crate::providers::adapter::{ModelRefreshOutcome, RefreshV};
use crate::text;
use crate::urls;
use vstd::prelude::*;
use vstd::string::*;

verus! {

/// How long the upstream's list is good.
pub const CATALOG_CACHE_TTL_MS: i64 = 600000;

/// How long to wait for the upstream's list.
pub const CATALOG_TIMEOUT_MS: u64 = 10000;

/// The name of the default model.
pub open spec fn default_name(configured: Option<Seq<char>>) -> Seq<char> {
    if configured is Some && text::trimmed(configured.unwrap()).len() > 0 {
        text::trimmed(configured.unwrap())
    } else {
        "raccoon-chat-ml-5-5"@
    }
}

/// The name of the default model: the configured one, else a fixed one.
pub fn default_model_id(configured: Option<&str>) -> (name: String)
    ensures
        name@ == default_name(json::opt_text(configured)),
{
    if let Some(configured) = configured {
        let inner = text::trim(configured);
        if !inner.is_empty() {
            return text::owned(inner);
        }
    }
    text::owned("raccoon-chat-ml-5-5")
}

/// A list of texts as a value.
pub open spec fn texts_value(items: Seq<&str>) -> JsonV {
    JsonV::Arr(items.map_values(|s: &str| JsonV::Str(s@)))
}

/// A list of texts as a value.
fn make_texts(items: &[&str]) -> (value: Json)
    ensures
        value@ == texts_value(items@),
{
    let mut list: Vec<Json> = Vec::new();
    proof {
        json::lemma_list_empty(list@);
    }
    let mut i: usize = 0;
    let ghost all = items@.map_values(|s: &str| JsonV::Str(s@));
    assert(all.take(0) =~= Seq::empty());
    while i < items.len()
        invariant
            all == items@.map_values(|s: &str| JsonV::Str(s@)),
            i <= items.len(),
            json::list_view(list@) == all.take(i as int),
        decreases items.len() - i,
    {
        let item = Json::text(items[i]);
        proof {
            json::lemma_list_push(list@, item);
            assert(all.take(i as int + 1) =~= all.take(i as int).push(all[i as int]));
        }
        list.push(item);
        i += 1;
    }
    assert(all.take(all.len() as int) =~= all);
    Json::list(list)
}

/// An entry of the list that is always at hand.
#[verifier::opaque]
pub open spec fn fixed_entry(
    name: Seq<char>,
    display: Seq<char>,
    description: Seq<char>,
    tags: Seq<&str>,
    window: int,
    longest: int,
    image: bool,
    thinking: bool,
    credits: Option<Seq<char>>,
) -> JsonV {
    let entry = JsonV::object().put("name"@, JsonV::Str(name)).put(
        "displayName"@,
        JsonV::Str(display),
    ).put("description"@, JsonV::Str(description)).put("tags"@, texts_value(tags)).put(
        "contextWindow"@,
        JsonV::Int(window),
    ).put("maxTokens"@, JsonV::Int(longest)).put("supportImage"@, JsonV::Bool(image)).put(
        "supportThinking"@,
        JsonV::Bool(thinking),
    );
    match credits {
        Some(c) => entry.put("credits"@, JsonV::Str(c)),
        None => entry,
    }
}

/// An entry of the list that is always at hand.
fn make_fixed(
    name: &str,
    display: &str,
    description: &str,
    tags: &[&str],
    window: i64,
    longest: i64,
    image: bool,
    thinking: bool,
    credits: Option<&str>,
) -> (entry: Json)
    ensures
        entry@ == fixed_entry(
            name@,
            display@,
            description@,
            tags@,
            window as int,
            longest as int,
            image,
            thinking,
            json::opt_text(credits),
        ),
{
    reveal(fixed_entry);
    let mut entry = Json::object();
    entry.put("name", Json::text(name));
    entry.put("displayName", Json::text(display));
    entry.put("description", Json::text(description));
    entry.put("tags", make_texts(tags));
    entry.put("contextWindow", Json::number(window));
    entry.put("maxTokens", Json::number(longest));
    entry.put("supportImage", Json::Bool(image));
    entry.put("supportThinking", Json::Bool(thinking));
    if let Some(credits) = credits {
        entry.put("credits", Json::text(credits));
    }
    entry
}

/// The list that is always at hand. The prices in it are the undiscounted ones,
/// and the default model has none.
pub open spec fn fixed_list(default: Seq<char>) -> Seq<JsonV> {
    Seq::empty().push(
        fixed_entry(
            "raccoon-8c4485"@,
            "Raccoon-Work"@,
            "适合复杂办公任务、代码开发、调试和图像识别等任务（目录默认旗舰，自称 GPT-5）"@,
            seq!["general", "office", "code", "vision"],
            1_000_000,
            100_000,
            true,
            false,
            Some("x1 credits"@),
        ),
    ).push(
        fixed_entry(
            "raccoon-19b265"@,
            "Raccoon-Work-260817-A"@,
            "适合复杂办公任务、代码开发和综合分析等任务（A/B 变体 A，自称 GPT-5）"@,
            seq!["general", "office", "code", "analysis"],
            1_000_000,
            100_000,
            false,
            false,
            Some("x1 credits"@),
        ),
    ).push(
        fixed_entry(
            "raccoon-405a1c"@,
            "Raccoon-Work-260817-B"@,
            "适合通用对话、轻量代码和内容处理等任务（A/B 变体 B，自称 GPT-5）"@,
            seq!["general", "chat", "rewrite", "summary", "fast"],
            1_000_000,
            100_000,
            false,
            false,
            Some("x1 credits"@),
        ),
    ).push(
        fixed_entry(
            default,
            "Raccoon Chat (默认)"@,
            "小浣熊默认对话模型（default-llm-config.json 预置）。"@,
            Seq::empty(),
            180_000,
            80_000,
            false,
            true,
            None,
        ),
    ).push(
        fixed_entry(
            "sn-sensenova-6-8-flash-lite"@,
            "SenseNova 6.8 Flash Lite"@,
            "轻量模型，用于标题生成等小任务。"@,
            Seq::empty(),
            256_000,
            63_999,
            false,
            true,
            Some("x0.5 credits"@),
        ),
    )
}

/// Appends an item to a list of values.
fn push_item(list: &mut Vec<Json>, item: Json)
    ensures
        json::list_view(final(list)@) == json::list_view(old(list)@).push(item@),
{
    proof {
        json::lemma_list_push(list@, item);
    }
    list.push(item);
}

/// The list that is always at hand, with the default model under this name.
pub fn fallback_models(default: &str) -> (models: Vec<Json>)
    ensures
        json::list_view(models@) == fixed_list(default@),
{
    let mut models: Vec<Json> = Vec::new();
    proof {
        json::lemma_list_empty(models@);
        assert(["general", "office", "code", "vision"]@ =~= seq![
            "general",
            "office",
            "code",
            "vision",
        ]);
        assert(["general", "office", "code", "analysis"]@ =~= seq![
            "general",
            "office",
            "code",
            "analysis",
        ]);
        assert(["general", "chat", "rewrite", "summary", "fast"]@ =~= seq![
            "general",
            "chat",
            "rewrite",
            "summary",
            "fast",
        ]);
    }
    push_item(
        &mut models,
        make_fixed(
            "raccoon-8c4485",
            "Raccoon-Work",
            "适合复杂办公任务、代码开发、调试和图像识别等任务（目录默认旗舰，自称 GPT-5）",
            &["general", "office", "code", "vision"],
            1_000_000,
            100_000,
            true,
            false,
            Some("x1 credits"),
        ),
    );
    push_item(
        &mut models,
        make_fixed(
            "raccoon-19b265",
            "Raccoon-Work-260817-A",
            "适合复杂办公任务、代码开发和综合分析等任务（A/B 变体 A，自称 GPT-5）",
            &["general", "office", "code", "analysis"],
            1_000_000,
            100_000,
            false,
            false,
            Some("x1 credits"),
        ),
    );
    push_item(
        &mut models,
        make_fixed(
            "raccoon-405a1c",
            "Raccoon-Work-260817-B",
            "适合通用对话、轻量代码和内容处理等任务（A/B 变体 B，自称 GPT-5）",
            &["general", "chat", "rewrite", "summary", "fast"],
            1_000_000,
            100_000,
            false,
            false,
            Some("x1 credits"),
        ),
    );
    let none: Vec<&str> = Vec::new();
    push_item(
        &mut models,
        make_fixed(
            default,
            "Raccoon Chat (默认)",
            "小浣熊默认对话模型（default-llm-config.json 预置）。",
            none.as_slice(),
            180_000,
            80_000,
            false,
            true,
            None,
        ),
    );
    push_item(
        &mut models,
        make_fixed(
            "sn-sensenova-6-8-flash-lite",
            "SenseNova 6.8 Flash Lite",
            "轻量模型，用于标题生成等小任务。",
            none.as_slice(),
            256_000,
            63_999,
            false,
            true,
            Some("x0.5 credits"),
        ),
    );
    models
}

/// The upstream's list as it was taken over last.
#[derive(Debug)]
pub struct CatalogState {
    pub models: Vec<Json>,
    /// When it was taken over, 0 for never.
    pub fetched_at: i64,
}

/// What such a list means.
#[verifier::ext_equal]
pub ghost struct CatalogV {
    pub models: Seq<JsonV>,
    pub fetched_at: int,
}

impl View for CatalogState {
    type V = CatalogV;

    open spec fn view(&self) -> CatalogV {
        CatalogV { models: json::list_view(self.models@), fetched_at: self.fetched_at as int }
    }
}

impl Default for CatalogState {
    fn default() -> (state: Self)
        ensures
            state@ == (CatalogV { models: Seq::empty(), fetched_at: 0 }),
    {
        let models: Vec<Json> = Vec::new();
        proof {
            json::lemma_list_empty(models@);
        }
        CatalogState { models, fetched_at: 0 }
    }
}

/// An entry under the keys that all lists share.
pub open spec fn listed(model: JsonV) -> JsonV {
    if model is Obj {
        model.put("id"@, JsonV::Str(model.shown_at("name"@))).put_some(
            "name"@,
            model.get("displayName"@),
        ).put_some("maxInputTokens"@, model.get("contextWindow"@)).put_some(
            "maxOutputTokens"@,
            model.get("maxTokens"@),
        ).put_some("supportsImages"@, model.get("supportImage"@)).put_some(
            "supportsReasoning"@,
            model.get("supportThinking"@),
        )
    } else {
        model
    }
}

/// A copy of an optional value.
fn copied(value: Option<&Json>) -> (copy: Option<Json>)
    ensures
        json::owned_view(copy) == json::opt_view(value),
{
    match value {
        Some(value) => Some(value.clone()),
        None => None,
    }
}

/// An entry under the keys that all lists share: its name is its id, and the name
/// for people its name.
fn listing_entry(model: &Json) -> (entry: Json)
    ensures
        entry@ == listed(model@),
{
    let mut entry = model.clone();
    if !model.is_object() {
        return entry;
    }
    entry.put("id", Json::Text(model.shown_at("name")));
    entry.put_some("name", copied(model.get("displayName")));
    entry.put_some("maxInputTokens", copied(model.get("contextWindow")));
    entry.put_some("maxOutputTokens", copied(model.get("maxTokens")));
    entry.put_some("supportsImages", copied(model.get("supportImage")));
    entry.put_some("supportsReasoning", copied(model.get("supportThinking")));
    entry
}

/// The models to offer: the upstream's, else those always at hand.
pub open spec fn offered(state: CatalogV, default: Seq<char>) -> Seq<JsonV> {
    let models = if state.models.len() == 0 {
        fixed_list(default)
    } else {
        state.models
    };
    models.map_values(|m: JsonV| listed(m))
}

/// The models to offer: the upstream's, else those always at hand.
pub fn list(state: &CatalogState, default: &str) -> (models: Vec<Json>)
    ensures
        json::list_view(models@) == offered(state@, default@),
{
    let fixed = if state.models.len() == 0 {
        fallback_models(default)
    } else {
        Vec::new()
    };
    let source = if state.models.len() == 0 {
        &fixed
    } else {
        &state.models
    };
    let ghost all = json::list_view(source@);
    let ghost wanted = all.map_values(|m: JsonV| listed(m));
    let mut models: Vec<Json> = Vec::new();
    proof {
        json::lemma_list_empty(models@);
        assert(wanted.take(0) =~= Seq::empty());
    }
    let mut i: usize = 0;
    while i < source.len()
        invariant
            all == json::list_view(source@),
            wanted == all.map_values(|m: JsonV| listed(m)),
            i <= source.len(),
            json::list_view(models@) == wanted.take(i as int),
        decreases source.len() - i,
    {
        assert(wanted.take(i as int + 1) =~= wanted.take(i as int).push(wanted[i as int]));
        push_item(&mut models, listing_entry(&source[i]));
        i += 1;
    }
    assert(wanted.take(wanted.len() as int) =~= wanted);
    models
}

/// Whether the upstream's list has been taken over.
pub fn remote_refreshed(state: &CatalogState) -> (yes: bool)
    ensures
        yes == (state@.models.len() > 0),
{
    state.models.len() > 0
}

/// When the upstream's list was taken over last, 0 for never.
pub fn last_refreshed_at(state: &CatalogState) -> (millis: i64)
    ensures
        millis == state@.fetched_at,
{
    state.fetched_at
}

/// How many models there are to offer.
pub fn count(state: &CatalogState, default: &str) -> (count: usize)
    ensures
        count == offered(state@, default@).len(),
{
    list(state, default).len()
}

/// Whether to fetch the upstream's list: where that is asked for, or the one at
/// hand is missing or old.
pub fn should_fetch(state: &CatalogState, force: bool, now_ms: i64) -> (yes: bool)
    ensures
        yes == (force || state@.models.len() == 0 || now_ms - state@.fetched_at
            >= CATALOG_CACHE_TTL_MS),
{
    force || state.models.len() == 0 || now_ms as i128 - state.fetched_at as i128
        >= CATALOG_CACHE_TTL_MS as i128
}

/// The call for the upstream's list. An empty token is left out.
pub fn catalog_request(base: &str, token: &str) -> (request: ApiRequest)
    ensures
        request@ == (RequestV {
            method: "GET"@,
            url: base@ + "/model_catalog"@,
            headers: {
                let plain = Seq::empty().push(("Accept"@, "application/json"@));
                if token@.len() == 0 {
                    plain
                } else {
                    plain.push(("Authorization"@, "Bearer "@ + token@))
                }
            },
            body: None,
        }),
{
    let mut url = text::owned(base);
    url.append("/model_catalog");
    let mut headers = urls::no_pairs();
    urls::push_pair(&mut headers, "Accept", "application/json");
    if !token.is_empty() {
        let mut bearer = text::owned("Bearer ");
        bearer.append(token);
        urls::push_pair(&mut headers, "Authorization", bearer.as_str());
    }
    ApiRequest { method: "GET", url, headers, body: None }
}

/// The name of a model in the upstream's list.
pub open spec fn name_in(entry: JsonV) -> Seq<char> {
    jwt::first_shown(entry, seq!["name", "model_name"])
}

/// The tags of a model: its texts that are not blank.
pub open spec fn tags_among(items: Seq<JsonV>) -> Seq<Seq<char>>
    decreases items.len(),
{
    if items.len() == 0 {
        Seq::empty()
    } else {
        let known = tags_among(items.drop_last());
        match items.last() {
            JsonV::Str(s) => if text::trimmed(s).len() > 0 {
                known.push(text::trimmed(s))
            } else {
                known
            },
            _ => known,
        }
    }
}

/// The tags of a model.
pub open spec fn tags_in(entry: JsonV) -> Seq<Seq<char>> {
    match entry.field("tags"@).as_list() {
        Some(items) => tags_among(items),
        None => Seq::empty(),
    }
}

/// The tags of a model.
fn read_tags(entry: &Json) -> (tags: Vec<String>)
    ensures
        text::views(tags@) == tags_in(entry@),
{
    let mut tags: Vec<String> = Vec::new();
    assert(text::views(tags@) =~= Seq::empty());
    let items = match entry.list_at("tags") {
        Some(items) => items,
        None => return tags,
    };
    let ghost all = json::list_view(items@);
    assert(all.take(0) =~= Seq::empty());
    let mut i: usize = 0;
    while i < items.len()
        invariant
            all == json::list_view(items@),
            i <= items.len(),
            text::views(tags@) == tags_among(all.take(i as int)),
        decreases items.len() - i,
    {
        assert(all.take(i as int + 1).drop_last() =~= all.take(i as int));
        assert(all.take(i as int + 1).last() == items@[i as int]@);
        if let Json::Text(s) = &items[i] {
            let inner = text::trim(s.as_str());
            if !inner.is_empty() {
                let ghost before = tags@;
                tags.push(text::owned(inner));
                assert(text::views(tags@) =~= text::views(before).push(inner@));
            }
        }
        i += 1;
    }
    assert(all.take(all.len() as int) =~= all);
    tags
}

/// The integer that a value gives: a number, or a text that writes one, rounded
/// down.
pub open spec fn int_in(value: Option<JsonV>) -> Option<int> {
    match value {
        Some(v) => match json::read_number(v) {
            Some(bits) => Some(number::clipped(number::floor_of(bits))),
            None => None,
        },
        None => None,
    }
}

/// The integer that a value gives: a number, or a text that writes one, rounded
/// down.
pub fn int_of(value: Option<&Json>) -> (n: Option<i64>)
    ensures
        match n {
            Some(n) => int_in(json::opt_view(value)) == Some(n as int),
            None => int_in(json::opt_view(value)) is None,
        },
        json::opt_view(value) matches Some(JsonV::Int(k)) ==> -0x20_0000_0000_0000 <= k
            <= 0x20_0000_0000_0000 ==> n is Some && n.unwrap() == k,
{
    match value {
        Some(value) => match json::number_in(value) {
            Some(double) => Some(number::floor_i64(double.bits())),
            None => None,
        },
        None => None,
    }
}

/// The first integer under two keys, each looked for in an entry and in its
/// parameters; null where there is none.
pub open spec fn picked(entry: JsonV, first: Seq<char>, second: Seq<char>) -> JsonV {
    let params = entry.field("params"@);
    if int_in(entry.get(first)) is Some {
        JsonV::Int(int_in(entry.get(first)).unwrap())
    } else if int_in(params.get(first)) is Some {
        JsonV::Int(int_in(params.get(first)).unwrap())
    } else if int_in(entry.get(second)) is Some {
        JsonV::Int(int_in(entry.get(second)).unwrap())
    } else if int_in(params.get(second)) is Some {
        JsonV::Int(int_in(params.get(second)).unwrap())
    } else {
        JsonV::Null
    }
}

/// The first integer under two keys, each looked for in an entry and in its
/// parameters; null where there is none.
fn pick_int(entry: &Json, first: &str, second: &str) -> (value: Json)
    ensures
        value@ == picked(entry@, first@, second@),
{
    let params = entry.field("params");
    if let Some(n) = int_of(entry.get(first)) {
        return Json::number(n);
    }
    if let Some(n) = int_of(params.get(first)) {
        return Json::number(n);
    }
    if let Some(n) = int_of(entry.get(second)) {
        return Json::number(n);
    }
    match int_of(params.get(second)) {
        Some(n) => Json::number(n),
        None => Json::Null,
    }
}

/// The price factors of a model.
#[derive(Debug)]
pub struct Factors {
    /// The undiscounted one.
    pub base: Option<Double>,
    /// The one that is charged.
    pub charged: Option<Double>,
}

/// The price factors of a model in the upstream's list: the one that is charged
/// is the undiscounted one where it is not said.
pub fn factors_of(entry: &Json) -> (factors: Factors)
    ensures
        adapter::pattern_of(factors.base) == adapter::factor_in(entry@.get("billing_multiplier"@)),
        adapter::pattern_of(factors.charged) == match adapter::factor_in(
            entry@.get("billing_effective_multiplier"@),
        ) {
            Some(bits) => Some(bits),
            None => adapter::factor_in(entry@.get("billing_multiplier"@)),
        },
{
    let charged = match adapter::factor_of(entry.get("billing_effective_multiplier")) {
        Some(factor) => Some(factor),
        None => adapter::factor_of(entry.get("billing_multiplier")),
    };
    Factors { base: adapter::factor_of(entry.get("billing_multiplier")), charged }
}

/// How the price of a model is shown.
#[derive(Debug)]
pub struct Price {
    /// The undiscounted factor as a value, null where there is none.
    pub base: Json,
    /// The factor that is charged, with at most two decimals.
    pub charged: Option<String>,
}

/// What a price means.
#[verifier::ext_equal]
pub ghost struct PriceV {
    pub base: JsonV,
    pub charged: Option<Seq<char>>,
}

impl View for Price {
    type V = PriceV;

    open spec fn view(&self) -> PriceV {
        PriceV { base: self.base@, charged: json::owned_text(self.charged) }
    }
}

/// The name for people of a model in the upstream's list. A short description is
/// a code name; a longer one is a sentence.
pub open spec fn display_in(entry: JsonV) -> Seq<char> {
    let own = text::trimmed(entry.shown_at("display_name"@));
    let codename = text::trimmed(entry.shown_at("description"@));
    if own.len() > 0 {
        own
    } else if 0 < codename.len() <= 64 {
        codename
    } else {
        name_in(entry)
    }
}

/// Whether tags say that a model takes images.
pub open spec fn takes_images(tags: Seq<Seq<char>>) -> bool {
    tags.contains("vision"@) || tags.contains("image"@) || tags.contains("image-understanding"@)
}

/// A list of texts as a value.
pub open spec fn text_list(items: Seq<Seq<char>>) -> JsonV {
    JsonV::Arr(items.map_values(|s: Seq<char>| JsonV::Str(s)))
}

/// How a price is written for all lists.
pub open spec fn credits_text(charged: Option<Seq<char>>) -> Seq<char> {
    match charged {
        Some(c) => "x"@ + c + " credits"@,
        None => Seq::empty(),
    }
}

/// A model of the upstream's list in the form of the list that is always at hand.
#[verifier::opaque]
pub open spec fn normal_entry(entry: JsonV, price: PriceV) -> JsonV {
    JsonV::object().put("name"@, JsonV::Str(name_in(entry))).put(
        "displayName"@,
        JsonV::Str(display_in(entry)),
    ).put(
        "description"@,
        JsonV::Str(text::trimmed(entry.shown_at("display_description"@))),
    ).put("tags"@, text_list(tags_in(entry))).put(
        "contextWindow"@,
        picked(entry, "context_window"@, "contextWindow"@),
    ).put("maxTokens"@, picked(entry, "max_tokens"@, "maxTokens"@)).put(
        "supportImage"@,
        JsonV::Bool(takes_images(tags_in(entry))),
    ).put("supportThinking"@, JsonV::Bool(true)).put("pointsMultiplier"@, price.base).put(
        "credits"@,
        JsonV::Str(credits_text(price.charged)),
    ).put(
        "billingStatus"@,
        match entry.text_at("billing_status"@) {
            Some(s) => JsonV::Str(s),
            None => JsonV::Null,
        },
    ).put("visible"@, JsonV::Bool(entry.field("visible"@) != JsonV::Bool(false)))
}

/// Whether a list of texts holds one.
fn holds(list: &Vec<String>, wanted: &str) -> (yes: bool)
    ensures
        yes == text::views(list@).contains(wanted@),
{
    let ghost all = text::views(list@);
    let mut i: usize = 0;
    while i < list.len()
        invariant
            all == text::views(list@),
            i <= list.len(),
            forall|k: int| 0 <= k < i ==> all[k] != wanted@,
        decreases list.len() - i,
    {
        if text::same(list[i].as_str(), wanted) {
            assert(all[i as int] == wanted@);
            return true;
        }
        i += 1;
    }
    false
}

/// A list of texts as a value.
fn make_list(items: &Vec<String>) -> (value: Json)
    ensures
        value@ == text_list(text::views(items@)),
{
    let ghost all = text::views(items@).map_values(|s: Seq<char>| JsonV::Str(s));
    let mut list: Vec<Json> = Vec::new();
    proof {
        json::lemma_list_empty(list@);
        assert(all.take(0) =~= Seq::empty());
    }
    let mut i: usize = 0;
    while i < items.len()
        invariant
            all == text::views(items@).map_values(|s: Seq<char>| JsonV::Str(s)),
            i <= items.len(),
            json::list_view(list@) == all.take(i as int),
        decreases items.len() - i,
    {
        assert(all.take(i as int + 1) =~= all.take(i as int).push(all[i as int]));
        push_item(&mut list, Json::text(items[i].as_str()));
        i += 1;
    }
    assert(all.take(all.len() as int) =~= all);
    Json::list(list)
}

/// The name for people of a model in the upstream's list.
fn display_of(entry: &Json, name: &str) -> (display: String)
    requires
        name@ == name_in(entry@),
    ensures
        display@ == display_in(entry@),
{
    let shown = entry.shown_at("display_name");
    let own = text::trim(shown.as_str());
    if !own.is_empty() {
        return text::owned(own);
    }
    let description = entry.shown_at("description");
    let codename = text::trim(description.as_str());
    if !codename.is_empty() && codename.unicode_len() <= 64 {
        return text::owned(codename);
    }
    text::owned(name)
}

/// Whether an entry is shown; it is where nothing is said.
fn is_visible(entry: &Json) -> (yes: bool)
    ensures
        yes == (entry@.field("visible"@) != JsonV::Bool(false)),
{
    match entry.get("visible") {
        Some(value) => match value {
            Json::Bool(yes) => *yes,
            _ => true,
        },
        None => true,
    }
}

/// A model of the upstream's list in the form of the list that is always at hand;
/// nothing for one without a name.
fn normalize_catalog_entry(entry: &Json, price: &Price) -> (model: Option<Json>)
    ensures
        match model {
            Some(m) => entry@ is Obj && name_in(entry@).len() > 0 && m@ == normal_entry(
                entry@,
                price@,
            ),
            None => !(entry@ is Obj) || name_in(entry@).len() == 0,
        },
{
    if !entry.is_object() {
        return None;
    }
    assert(["name", "model_name"]@ =~= seq!["name", "model_name"]);
    let name = jwt::find_shown(entry, &["name", "model_name"]);
    if name.as_str().is_empty() {
        return None;
    }
    let tags = read_tags(entry);
    let display = display_of(entry, name.as_str());
    let shown = entry.shown_at("display_description");
    let description = text::owned(text::trim(shown.as_str()));
    let images = holds(&tags, "vision") || holds(&tags, "image") || holds(
        &tags,
        "image-understanding",
    );
    let credits = match &price.charged {
        Some(charged) => {
            let mut credits = text::owned("x");
            credits.append(charged.as_str());
            credits.append(" credits");
            credits
        },
        None => String::new(),
    };
    let status = match entry.text_at("billing_status") {
        Some(s) => Json::text(s),
        None => Json::Null,
    };
    reveal(normal_entry);
    let mut model = Json::object();
    model.put("name", Json::Text(name));
    model.put("displayName", Json::Text(display));
    model.put("description", Json::Text(description));
    model.put("tags", make_list(&tags));
    model.put("contextWindow", pick_int(entry, "context_window", "contextWindow"));
    model.put("maxTokens", pick_int(entry, "max_tokens", "maxTokens"));
    model.put("supportImage", Json::Bool(images));
    model.put("supportThinking", Json::Bool(true));
    model.put("pointsMultiplier", price.base.clone());
    model.put("credits", Json::Text(credits));
    model.put("billingStatus", status);
    model.put("visible", Json::Bool(is_visible(entry)));
    Some(model)
}

/// The part of an answer that holds the list.
pub open spec fn data_in(payload: JsonV) -> JsonV {
    match payload.field("data"@) {
        JsonV::Obj(m) => JsonV::Obj(m),
        _ => payload,
    }
}

/// The models of a category.
pub open spec fn models_in(category: JsonV) -> Seq<JsonV> {
    match category.field("models"@).as_list() {
        Some(items) => items,
        None => Seq::empty(),
    }
}

/// The models of all categories, in order.
pub open spec fn models_among(categories: Seq<JsonV>) -> Seq<JsonV>
    decreases categories.len(),
{
    if categories.len() == 0 {
        Seq::empty()
    } else {
        models_among(categories.drop_last()) + models_in(categories.last())
    }
}

/// The entries in an answer.
pub open spec fn entries_in(payload: JsonV) -> Seq<JsonV> {
    match data_in(payload).field("categories"@).as_list() {
        Some(categories) => models_among(categories),
        None => Seq::empty(),
    }
}

/// The entries in an answer: those of all categories, in order.
pub fn catalog_entries(payload: &Json) -> (entries: Vec<Json>)
    ensures
        json::list_view(entries@) == entries_in(payload@),
{
    let mut entries: Vec<Json> = Vec::new();
    proof {
        json::lemma_list_empty(entries@);
    }
    let own = payload.field("data");
    let data = if own.is_object() {
        &own
    } else {
        payload
    };
    let categories = match data.list_at("categories") {
        Some(categories) => categories,
        None => return entries,
    };
    let ghost all = json::list_view(categories@);
    assert(all.take(0) =~= Seq::empty());
    let mut i: usize = 0;
    while i < categories.len()
        invariant
            all == json::list_view(categories@),
            i <= categories.len(),
            json::list_view(entries@) == models_among(all.take(i as int)),
        decreases categories.len() - i,
    {
        let ghost upto = all.take(i as int + 1);
        assert(upto.drop_last() =~= all.take(i as int));
        assert(upto.last() == categories@[i as int]@);
        let ghost known = models_among(all.take(i as int));
        if let Some(models) = categories[i].list_at("models") {
            let ghost own = json::list_view(models@);
            assert(known + own.take(0) =~= known);
            let mut k: usize = 0;
            while k < models.len()
                invariant
                    own == json::list_view(models@),
                    k <= models.len(),
                    json::list_view(entries@) == known + own.take(k as int),
                decreases models.len() - k,
            {
                push_item(&mut entries, models[k].clone());
                assert(known + own.take(k as int + 1) =~= (known + own.take(k as int)).push(
                    own[k as int],
                ));
                k += 1;
            }
            assert(own.take(own.len() as int) =~= own);
        } else {
            assert(known + Seq::<JsonV>::empty() =~= known);
        }
        i += 1;
    }
    assert(all.take(all.len() as int) =~= all);
    entries
}

/// The models that have been read from a list.
#[verifier::ext_equal]
pub ghost struct ReadV {
    pub models: Seq<JsonV>,
    /// Their names.
    pub seen: Seq<Seq<char>>,
}

/// The price at a place of a list; none behind its end.
pub open spec fn price_at(prices: Seq<PriceV>, i: int) -> PriceV {
    if 0 <= i < prices.len() {
        prices[i]
    } else {
        PriceV { base: JsonV::Null, charged: None }
    }
}

/// The models of a list: those with a name, each name once.
pub open spec fn read_models(entries: Seq<JsonV>, prices: Seq<PriceV>) -> ReadV
    decreases entries.len(),
{
    if entries.len() == 0 {
        ReadV { models: Seq::empty(), seen: Seq::empty() }
    } else {
        let known = read_models(entries.drop_last(), prices);
        let entry = entries.last();
        let name = name_in(entry);
        if !(entry is Obj) || name.len() == 0 || known.seen.contains(name) {
            known
        } else {
            ReadV {
                models: known.models.push(
                    normal_entry(entry, price_at(prices, entries.len() - 1)),
                ),
                seen: known.seen.push(name),
            }
        }
    }
}

/// What a list of prices means.
pub open spec fn prices_view(prices: Seq<Price>) -> Seq<PriceV> {
    prices.map_values(|p: Price| p@)
}

/// The models of a list: those with a name, of two with one name the first.
/// `prices` holds the price of each entry.
pub fn parse_catalog(entries: &Vec<Json>, prices: &Vec<Price>) -> (models: Vec<Json>)
    ensures
        json::list_view(models@) == read_models(
            json::list_view(entries@),
            prices_view(prices@),
        ).models,
{
    let mut models: Vec<Json> = Vec::new();
    let mut seen: Vec<String> = Vec::new();
    let ghost all = json::list_view(entries@);
    let ghost costs = prices_view(prices@);
    proof {
        json::lemma_list_empty(models@);
        assert(text::views(seen@) =~= Seq::empty());
        assert(all.take(0) =~= Seq::empty());
    }
    let none = Price { base: Json::Null, charged: None };
    let mut i: usize = 0;
    while i < entries.len()
        invariant
            all == json::list_view(entries@),
            costs == prices_view(prices@),
            none@ == (PriceV { base: JsonV::Null, charged: None }),
            i <= entries.len(),
            json::list_view(models@) == read_models(all.take(i as int), costs).models,
            text::views(seen@) == read_models(all.take(i as int), costs).seen,
        decreases entries.len() - i,
    {
        let ghost upto = all.take(i as int + 1);
        assert(upto.drop_last() =~= all.take(i as int));
        let entry = &entries[i];
        assert(upto.last() == entry@);
        let price = if i < prices.len() {
            &prices[i]
        } else {
            &none
        };
        assert(price@ == price_at(costs, i as int));
        if let Some(model) = normalize_catalog_entry(entry, price) {
            assert(["name", "model_name"]@ =~= seq!["name", "model_name"]);
            let name = jwt::find_shown(entry, &["name", "model_name"]);
            if !holds(&seen, name.as_str()) {
                let ghost before = seen@;
                let ghost named = name@;
                seen.push(name);
                assert(text::views(seen@) =~= text::views(before).push(named));
                push_item(&mut models, model);
            }
        }
        i += 1;
    }
    assert(all.take(all.len() as int) =~= all);
    models
}

/// What came of an answer with the upstream's list, and the list afterwards.
pub open spec fn refreshed(
    state: CatalogV,
    response: ResponseV,
    prices: Seq<PriceV>,
    now_ms: int,
) -> (RefreshV, CatalogV) {
    let payload = match response.payload {
        Some(v) => v,
        None => JsonV::Null,
    };
    let models = read_models(entries_in(payload), prices).models;
    if !response.ok {
        (
            RefreshV::Failed("上游返回 HTTP "@ + text::decimal(response.status as nat)),
            state,
        )
    } else if models.len() == 0 {
        (RefreshV::Failed("上游返回的模型目录为空"@), state)
    } else {
        (RefreshV::Refreshed(models.len() as int), CatalogV { models, fetched_at: now_ms })
    }
}

/// Takes over the list in an answer. A failure of any kind leaves the list at
/// hand as it is. `prices` holds the price of each entry of the answer.
pub fn refresh(
    state: &mut CatalogState,
    response: &ApiResponse,
    prices: &Vec<Price>,
    now_ms: i64,
) -> (outcome: ModelRefreshOutcome)
    ensures
        (outcome@, final(state)@) == refreshed(
            old(state)@,
            response@,
            prices_view(prices@),
            now_ms as int,
        ),
{
    if !response.ok {
        let mut message = text::owned("上游返回 HTTP ");
        message.append(text::decimal_text(response.status as u64).as_str());
        return ModelRefreshOutcome::Failed(message);
    }
    let payload = match &response.payload {
        Some(value) => value.clone(),
        None => Json::Null,
    };
    let entries = catalog_entries(&payload);
    let models = parse_catalog(&entries, prices);
    if models.len() == 0 {
        return ModelRefreshOutcome::failed("上游返回的模型目录为空");
    }
    let count: usize = models.len();
    state.models = models;
    state.fetched_at = now_ms;
    ModelRefreshOutcome::Refreshed(count)
}

/// The names of the models at hand from the upstream, for the rules that new
/// models begin with.
pub fn seed_ids(state: &CatalogState) -> (ids: Vec<String>)
    ensures
        text::views(ids@) == state@.models.map_values(|m: JsonV| m.shown_at("name"@)),
{
    let ghost wanted = state@.models.map_values(|m: JsonV| m.shown_at("name"@));
    let mut ids: Vec<String> = Vec::new();
    assert(text::views(ids@) =~= wanted.take(0));
    let mut i: usize = 0;
    while i < state.models.len()
        invariant
            wanted == state@.models.map_values(|m: JsonV| m.shown_at("name"@)),
            i <= state.models.len(),
            text::views(ids@) == wanted.take(i as int),
        decreases state.models.len() - i,
    {
        let ghost before = ids@;
        let id = state.models[i].shown_at("name");
        let ghost named = id@;
        ids.push(id);
        assert(text::views(ids@) =~= text::views(before).push(named));
        assert(wanted.take(i as int + 1) =~= wanted.take(i as int).push(wanted[i as int]));
        i += 1;
    }
    assert(wanted.take(wanted.len() as int) =~= wanted);
    ids
}

/// No two models of a list have one name, and each keeps the name it came with,
/// which is not empty.
pub proof fn names_are_distinct(entries: Seq<JsonV>, prices: Seq<PriceV>)
    ensures
        ({
            let read = read_models(entries, prices);
            &&& read.models.len() == read.seen.len()
            &&& forall|i: int|
                0 <= i < read.models.len() ==> read.seen[i].len() > 0 && (
                #[trigger] read.models[i]).text_at("name"@) == Some(read.seen[i])
            &&& forall|i: int, j: int|
                0 <= i < j < read.seen.len() ==> #[trigger] read.seen[i]
                    != #[trigger] read.seen[j]
        }),
    decreases entries.len(),
{
    if entries.len() > 0 {
        names_are_distinct(entries.drop_last(), prices);
        let known = read_models(entries.drop_last(), prices);
        let entry = entries.last();
        let name = name_in(entry);
        if entry is Obj && name.len() > 0 && !known.seen.contains(name) {
            lemma_keeps_name(entry, price_at(prices, entries.len() - 1));
            assert forall|i: int| 0 <= i < known.seen.len() implies known.seen[i] != name by {
                assert(known.seen.contains(known.seen[i]));
            }
        }
    }
}

proof fn lemma_keeps_name(entry: JsonV, price: PriceV)
    ensures
        normal_entry(entry, price).text_at("name"@) == Some(name_in(entry)),
{
    reveal(normal_entry);
    reveal_strlit("name");
    reveal_strlit("displayName");
    reveal_strlit("description");
    reveal_strlit("tags");
    reveal_strlit("contextWindow");
    reveal_strlit("maxTokens");
    reveal_strlit("supportImage");
    reveal_strlit("supportThinking");
    reveal_strlit("pointsMultiplier");
    reveal_strlit("credits");
    reveal_strlit("billingStatus");
    reveal_strlit("visible");
    assert("name"@.len() == 4 && "tags"@.len() == 4);
    assert("name"@[0] == 'n' && "tags"@[0] == 't');
    assert("displayName"@.len() == 11 && "description"@.len() == 11);
    assert("contextWindow"@.len() == 13 && "maxTokens"@.len() == 9);
    assert("supportImage"@.len() == 12 && "supportThinking"@.len() == 15);
    assert("pointsMultiplier"@.len() == 16 && "credits"@.len() == 7);
    assert("billingStatus"@.len() == 13 && "visible"@.len() == 7);
}

/// Whether every model of a list has a name.
pub open spec fn all_named(models: Seq<JsonV>) -> bool {
    forall|i: int|
        0 <= i < models.len() ==> (#[trigger] models[i]).text_at("name"@) is Some
            && models[i].text_at("name"@).unwrap().len() > 0
}

proof fn lemma_fixed_names()
    ensures
        forall|
            name: Seq<char>,
            display: Seq<char>,
            description: Seq<char>,
            tags: Seq<&str>,
            window: int,
            longest: int,
            image: bool,
            thinking: bool,
            credits: Option<Seq<char>>,
        |
            (#[trigger] fixed_entry(
                name,
                display,
                description,
                tags,
                window,
                longest,
                image,
                thinking,
                credits,
            )).text_at("name"@) == Some(name),
{
    reveal(fixed_entry);
    reveal_strlit("name");
    reveal_strlit("displayName");
    reveal_strlit("description");
    reveal_strlit("tags");
    reveal_strlit("contextWindow");
    reveal_strlit("maxTokens");
    reveal_strlit("supportImage");
    reveal_strlit("supportThinking");
    reveal_strlit("credits");
    assert("name"@[0] == 'n' && "tags"@[0] == 't');
}

proof fn lemma_fixed_named(default: Seq<char>)
    requires
        default.len() > 0,
    ensures
        all_named(fixed_list(default)),
{
    lemma_fixed_names();
    reveal_strlit("raccoon-8c4485");
    reveal_strlit("raccoon-19b265");
    reveal_strlit("raccoon-405a1c");
    reveal_strlit("sn-sensenova-6-8-flash-lite");
}

proof fn lemma_listed_id(model: JsonV)
    requires
        model.text_at("name"@) is Some,
    ensures
        listed(model).text_at("id"@) == model.text_at("name"@),
{
    reveal_strlit("id");
    reveal_strlit("name");
    reveal_strlit("maxInputTokens");
    reveal_strlit("maxOutputTokens");
    reveal_strlit("supportsImages");
    reveal_strlit("supportsReasoning");
    assert("id"@.len() == 2 && "name"@.len() == 4);
    assert("maxInputTokens"@.len() == 14 && "maxOutputTokens"@.len() == 15);
    assert("supportsImages"@.len() == 14 && "supportsReasoning"@.len() == 17);
}

/// Every model that is offered has an id, before and after any refresh.
pub proof fn offered_models_have_ids(
    state: CatalogV,
    default: Seq<char>,
    response: ResponseV,
    prices: Seq<PriceV>,
    now_ms: int,
    i: int,
)
    requires
        all_named(state.models),
        default.len() > 0,
    ensures
        ({
            let after = refreshed(state, response, prices, now_ms).1;
            let models = offered(after, default);
            &&& all_named(after.models)
            &&& 0 <= i < models.len() ==> models[i].text_at("id"@) is Some
                && models[i].text_at("id"@).unwrap().len() > 0
        }),
{
    let payload = match response.payload {
        Some(v) => v,
        None => JsonV::Null,
    };
    names_are_distinct(entries_in(payload), prices);
    let after = refreshed(state, response, prices, now_ms).1;
    let models = if after.models.len() == 0 {
        fixed_list(default)
    } else {
        after.models
    };
    lemma_fixed_named(default);
    assert(all_named(after.models));
    if 0 <= i < models.len() {
        assert(models[i].text_at("name"@) is Some);
        lemma_listed_id(models[i]);
    }
}

/// A refresh that fails leaves the list at hand as it is, and one that succeeds
/// leaves one that is not empty.
pub proof fn failed_refresh_keeps_the_list(
    state: CatalogV,
    response: ResponseV,
    prices: Seq<PriceV>,
    now_ms: int,
)
    ensures
        ({
            let (outcome, after) = refreshed(state, response, prices, now_ms);
            &&& outcome is Failed ==> after == state
            &&& outcome is Refreshed ==> after.models.len() > 0 && after.fetched_at == now_ms
        }),
{
}

/// An answer with the upstream's list, the prices in it and when it came.
pub ghost struct AnswerV {
    pub response: ResponseV,
    pub prices: Seq<PriceV>,
    pub now_ms: int,
}

/// The list that a process begins with.
pub open spec fn never_refreshed() -> CatalogV {
    CatalogV { models: Seq::empty(), fetched_at: 0 }
}

/// The list after answers, since the process began.
pub open spec fn after_answers(answers: Seq<AnswerV>) -> CatalogV
    decreases answers.len(),
{
    if answers.len() == 0 {
        never_refreshed()
    } else {
        let last = answers.last();
        refreshed(
            after_answers(answers.drop_last()),
            last.response,
            last.prices,
            last.now_ms,
        ).1
    }
}

/// Whether some answer has been taken over since the process began.
pub open spec fn any_taken_over(answers: Seq<AnswerV>) -> bool
    decreases answers.len(),
{
    if answers.len() == 0 {
        false
    } else {
        let last = answers.last();
        any_taken_over(answers.drop_last()) || refreshed(
            after_answers(answers.drop_last()),
            last.response,
            last.prices,
            last.now_ms,
        ).0 is Refreshed
    }
}

/// At any moment the list counts as refreshed exactly where some refresh has
/// succeeded, and exactly where there is a time of the last one. Once it does, it
/// always does, and an answer that is not taken over leaves what is offered as it
/// was.
pub proof fn refreshed_lists_stay_refreshed(answers: Seq<AnswerV>, default: Seq<char>)
    requires
        forall|i: int| 0 <= i < answers.len() ==> (#[trigger] answers[i]).now_ms > 0,
    ensures
        (after_answers(answers).models.len() > 0) == any_taken_over(answers),
        (after_answers(answers).fetched_at > 0) == any_taken_over(answers),
        answers.len() > 0 ==> {
            let before = after_answers(answers.drop_last());
            let last = answers.last();
            &&& any_taken_over(answers.drop_last()) ==> any_taken_over(answers)
            &&& !(refreshed(before, last.response, last.prices, last.now_ms).0 is Refreshed) ==> {
                &&& after_answers(answers) == before
                &&& offered(after_answers(answers), default) == offered(before, default)
            }
        },
    decreases answers.len(),
{
    if answers.len() > 0 {
        let front = answers.drop_last();
        assert forall|i: int| 0 <= i < front.len() implies (#[trigger] front[i]).now_ms > 0 by {
            assert(front[i] == answers[i]);
        }
        refreshed_lists_stay_refreshed(front, default);
    }
}

} // verus!
