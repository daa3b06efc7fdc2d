//! Qoder's models.
//!
//! A list is built in for each region, and one fetched from the upstream takes
//! its place. The two regions do not offer the same models: a name is looked up
//! in the account's own region first.
use super::cosy;
use super::cosy::CosyIdentity;
use super::credentials::Credentials;
use super::endpoints::Region;
use super::protocol;
use crate::errors::ErrorV;
use crate::http::{ApiResponse, ResponseV};
use crate::json;
use crate::json::{Double, Json, JsonV};
use crate::order;
use crate::providers::adapter;
use crate::providers::adapter::{ModelRefreshOutcome, RefreshV};
use crate::text;
use crate::urls;
use vstd::prelude::*;
use vstd::string::*;

verus! {

/// How long a fetched list is good for.
pub const CACHE_TTL_MS: i64 = 3600000;

/// How long to wait for the list.
pub const REQUEST_TIMEOUT_MS: u64 = 20000;

/// The most tokens of an answer.
pub const MAX_OUTPUT_TOKENS: i64 = 32768;

/// The context of a model that does not say how large it is.
pub const DEFAULT_CONTEXT_WINDOW: i64 = 200000;

/// What a price factor reads: nothing where there is none.
pub open spec fn credits_text(plain: Seq<char>) -> Seq<char> {
    if text::trimmed(plain).len() == 0 {
        Seq::empty()
    } else {
        "x"@ + text::trimmed(plain) + " credits"@
    }
}

/// What a price factor reads: nothing where there is none.
pub fn credits_of_text(plain: &str) -> (credits: String)
    ensures
        credits@ == credits_text(plain@),
{
    let inner = text::trim(plain);
    if inner.is_empty() {
        return String::new();
    }
    let mut credits = text::owned("x");
    credits.append(inner);
    credits.append(" credits");
    credits
}

/// What an entry of the list is made of.
pub struct Entry<'a> {
    pub id: &'a str,
    pub upstream_key: &'a str,
    pub reasoning: bool,
    pub efforts: Vec<Json>,
    pub vision: bool,
    pub enabled: bool,
    pub context_window: i64,
    pub source: &'a str,
    pub credits: &'a str,
}

/// What the makings of an entry mean.
pub ghost struct EntryV {
    pub id: Seq<char>,
    pub key: Seq<char>,
    pub reasoning: bool,
    pub efforts: Seq<JsonV>,
    pub vision: bool,
    pub enabled: bool,
    pub context_window: int,
    pub source: Seq<char>,
    pub credits: Seq<char>,
}

impl<'a> View for Entry<'a> {
    type V = EntryV;

    open spec fn view(&self) -> EntryV {
        EntryV {
            id: self.id@,
            key: self.upstream_key@,
            reasoning: self.reasoning,
            efforts: json::list_view(self.efforts@),
            vision: self.vision,
            enabled: self.enabled,
            context_window: self.context_window as int,
            source: self.source@,
            credits: self.credits@,
        }
    }
}

/// The configuration that goes to the upstream with a request.
pub open spec fn config_of(made: EntryV) -> JsonV {
    JsonV::object().put("key"@, JsonV::Str(made.key)).put(
        "is_reasoning"@,
        JsonV::Bool(made.reasoning),
    ).put("is_vl"@, JsonV::Bool(made.vision)).put("source"@, JsonV::Str(made.source))
}

/// An entry of the list.
pub open spec fn entry_of(made: EntryV) -> JsonV {
    let plain = JsonV::object().put("id"@, JsonV::Str(made.id)).put(
        "name"@,
        JsonV::Str(made.id),
    ).put("upstreamKey"@, JsonV::Str(made.key)).put("enabled"@, JsonV::Bool(made.enabled)).put(
        "reasoning"@,
        JsonV::Bool(made.reasoning),
    ).put("supportsReasoning"@, JsonV::Bool(made.reasoning)).put(
        "supportsImages"@,
        JsonV::Bool(made.vision),
    ).put("supportsToolCall"@, JsonV::Bool(true)).put("efforts"@, JsonV::Arr(made.efforts)).put(
        "maxInputTokens"@,
        JsonV::Int(made.context_window),
    ).put("maxOutputTokens"@, JsonV::Int(MAX_OUTPUT_TOKENS as int)).put(
        "isDefault"@,
        JsonV::Bool(false),
    ).put("kind"@, JsonV::Str("chat"@)).put("config"@, config_of(made));
    if made.credits.len() > 0 {
        plain.put("credits"@, JsonV::Str(made.credits))
    } else {
        plain
    }
}

/// The configuration that goes to the upstream with a request.
fn make_config(made: &Entry<'_>) -> (config: Json)
    ensures
        config@ == config_of(made@),
{
    let mut config = Json::object();
    config.put("key", Json::text(made.upstream_key));
    config.put("is_reasoning", Json::Bool(made.reasoning));
    config.put("is_vl", Json::Bool(made.vision));
    config.put("source", Json::text(made.source));
    config
}

/// An entry of the list.
fn entry(made: &Entry<'_>) -> (model: Json)
    ensures
        model@ == entry_of(made@),
{
    let mut model = Json::object();
    model.put("id", Json::text(made.id));
    model.put("name", Json::text(made.id));
    model.put("upstreamKey", Json::text(made.upstream_key));
    model.put("enabled", Json::Bool(made.enabled));
    model.put("reasoning", Json::Bool(made.reasoning));
    model.put("supportsReasoning", Json::Bool(made.reasoning));
    model.put("supportsImages", Json::Bool(made.vision));
    model.put("supportsToolCall", Json::Bool(true));
    model.put("efforts", Json::list(json::clone_list(&made.efforts)));
    model.put("maxInputTokens", Json::number(made.context_window));
    model.put("maxOutputTokens", Json::number(MAX_OUTPUT_TOKENS));
    model.put("isDefault", Json::Bool(false));
    model.put("kind", Json::text("chat"));
    model.put("config", make_config(made));
    if !made.credits.is_empty() {
        model.put("credits", Json::text(made.credits));
    }
    model
}

/// The three usual efforts.
pub open spec fn usual_efforts() -> Seq<JsonV> {
    Seq::empty().push(JsonV::Str("low"@)).push(JsonV::Str("medium"@)).push(JsonV::Str("xhigh"@))
}

/// A built-in entry.
#[verifier::opaque]
pub open spec fn built_in(
    id: Seq<char>,
    key: Seq<char>,
    reasoning: bool,
    efforts: bool,
    vision: bool,
    enabled: bool,
    factor: Seq<char>,
) -> JsonV {
    entry_of(
        EntryV {
            id,
            key,
            reasoning,
            efforts: if efforts {
                usual_efforts()
            } else {
                Seq::empty()
            },
            vision,
            enabled,
            context_window: DEFAULT_CONTEXT_WINDOW as int,
            source: "system"@,
            credits: credits_text(factor),
        },
    )
}

/// Appends a built-in entry.
fn add_built_in(
    models: &mut Vec<Json>,
    id: &str,
    upstream_key: &str,
    reasoning: bool,
    efforts: bool,
    vision: bool,
    enabled: bool,
    factor: &str,
)
    ensures
        json::list_view(final(models)@) == json::list_view(old(models)@).push(
            built_in(id@, upstream_key@, reasoning, efforts, vision, enabled, factor@),
        ),
{
    let mut known: Vec<Json> = Vec::new();
    proof {
        json::lemma_list_empty(known@);
    }
    if efforts {
        broadcast use json::lemma_list_push;

        known.push(Json::text("low"));
        known.push(Json::text("medium"));
        known.push(Json::text("xhigh"));
    }
    let credits = credits_of_text(factor);
    let made = Entry {
        id,
        upstream_key,
        reasoning,
        efforts: known,
        vision,
        enabled,
        context_window: DEFAULT_CONTEXT_WINDOW,
        source: "system",
        credits: credits.as_str(),
    };
    let model = entry(&made);
    proof {
        reveal(built_in);
        json::lemma_list_push(models@, model);
    }
    models.push(model);
}

/// The built-in list of the global region.
pub open spec fn global_models() -> Seq<JsonV> {
    Seq::empty().push(
        built_in("Qwen3.8-Flash"@, "qfmodel"@, true, true, true, true, "0.1"@),
    ).push(
        built_in("Qwen3.8-Max"@, "qmodel_38max"@, true, true, true, true, "0.5"@),
    ).push(
        built_in("Auto"@, "auto"@, true, false, true, false, "1"@),
    ).push(
        built_in("Ultimate"@, "ultimate"@, true, false, true, false, "1.6"@),
    ).push(
        built_in("Performance"@, "performance"@, true, false, true, false, "1.1"@),
    ).push(
        built_in("Efficient"@, "efficient"@, false, false, true, false, "0.3"@),
    ).push(
        built_in("Sonus"@, "smodel"@, true, false, true, false, "3.2"@),
    ).push(
        built_in("Cantus"@, "cmodel"@, true, false, true, false, "3.2"@),
    ).push(
        built_in("Qwen3.7-Max"@, "qmodel_latest"@, true, false, true, false, "0.5"@),
    ).push(
        built_in("Qwen3.7-Plus"@, "qmodel"@, false, false, true, false, "0.1"@),
    ).push(
        built_in("Kimi-K3"@, "kmodel_latest"@, false, false, true, false, "0.8"@),
    ).push(
        built_in("Kimi-K2.8-Preview"@, "kmodel"@, false, false, true, false, "0.3"@),
    ).push(
        built_in("GLM-5.3"@, "gmodel"@, true, false, true, false, "0.6"@),
    ).push(
        built_in("GLM-5.3-Flash"@, "gfmodel"@, true, false, true, false, "0.1"@),
    ).push(
        built_in("DeepSeek-V4-Pro"@, "dmodel"@, true, false, true, false, "0.8"@),
    ).push(
        built_in("DeepSeek-Flash"@, "dfmodel"@, true, false, true, false, "0.2"@),
    ).push(
        built_in("MiniMax-M3"@, "mmodel"@, false, false, true, false, "0.2"@),
    )
}

/// The built-in list of the Chinese region.
pub open spec fn cn_models() -> Seq<JsonV> {
    Seq::empty().push(
        built_in("Qwen3.8-Flash"@, "qfmodel"@, true, true, true, true, "0.1"@),
    ).push(
        built_in("Qwen3.8-Max"@, "qmodel_38max"@, true, true, true, true, "0.5"@),
    ).push(
        built_in("Auto"@, "auto"@, true, false, true, false, "1"@),
    ).push(
        built_in("Qwen3.7-Max"@, "qmodel_latest"@, true, false, true, false, "0.5"@),
    ).push(
        built_in("Qwen3.7-Plus"@, "qmodel"@, true, false, false, false, "0.1"@),
    ).push(
        built_in("DeepSeek-V4-Pro"@, "dmodel"@, true, false, false, false, "0.8"@),
    ).push(
        built_in("DeepSeek-Flash"@, "dfmodel"@, false, false, false, false, "0.2"@),
    ).push(
        built_in("GLM-5.3"@, "gmodel"@, true, false, true, false, "0.6"@),
    ).push(
        built_in("Kimi-K2.8-Preview"@, "kmodel"@, true, false, true, false, "0.3"@),
    ).push(
        built_in("MiniMax-M3"@, "mmodel"@, false, false, false, false, "0.2"@),
    )
}

/// The built-in list of a region.
pub open spec fn built_in_models(region: Region) -> Seq<JsonV> {
    match region {
        Region::Global => global_models(),
        Region::Cn => cn_models(),
    }
}

/// The built-in list of the global region.
fn fallback_global() -> (models: Vec<Json>)
    ensures
        json::list_view(models@) == global_models(),
{
    let mut models: Vec<Json> = Vec::new();
    proof {
        json::lemma_list_empty(models@);
    }
    add_built_in(&mut models, "Qwen3.8-Flash", "qfmodel", true, true, true, true, "0.1");
    add_built_in(&mut models, "Qwen3.8-Max", "qmodel_38max", true, true, true, true, "0.5");
    add_built_in(&mut models, "Auto", "auto", true, false, true, false, "1");
    add_built_in(&mut models, "Ultimate", "ultimate", true, false, true, false, "1.6");
    add_built_in(&mut models, "Performance", "performance", true, false, true, false, "1.1");
    add_built_in(&mut models, "Efficient", "efficient", false, false, true, false, "0.3");
    add_built_in(&mut models, "Sonus", "smodel", true, false, true, false, "3.2");
    add_built_in(&mut models, "Cantus", "cmodel", true, false, true, false, "3.2");
    add_built_in(&mut models, "Qwen3.7-Max", "qmodel_latest", true, false, true, false, "0.5");
    add_built_in(&mut models, "Qwen3.7-Plus", "qmodel", false, false, true, false, "0.1");
    add_built_in(&mut models, "Kimi-K3", "kmodel_latest", false, false, true, false, "0.8");
    add_built_in(&mut models, "Kimi-K2.8-Preview", "kmodel", false, false, true, false, "0.3");
    add_built_in(&mut models, "GLM-5.3", "gmodel", true, false, true, false, "0.6");
    add_built_in(&mut models, "GLM-5.3-Flash", "gfmodel", true, false, true, false, "0.1");
    add_built_in(&mut models, "DeepSeek-V4-Pro", "dmodel", true, false, true, false, "0.8");
    add_built_in(&mut models, "DeepSeek-Flash", "dfmodel", true, false, true, false, "0.2");
    add_built_in(&mut models, "MiniMax-M3", "mmodel", false, false, true, false, "0.2");
    models
}

/// The built-in list of the Chinese region.
fn fallback_cn() -> (models: Vec<Json>)
    ensures
        json::list_view(models@) == cn_models(),
{
    let mut models: Vec<Json> = Vec::new();
    proof {
        json::lemma_list_empty(models@);
    }
    add_built_in(&mut models, "Qwen3.8-Flash", "qfmodel", true, true, true, true, "0.1");
    add_built_in(&mut models, "Qwen3.8-Max", "qmodel_38max", true, true, true, true, "0.5");
    add_built_in(&mut models, "Auto", "auto", true, false, true, false, "1");
    add_built_in(&mut models, "Qwen3.7-Max", "qmodel_latest", true, false, true, false, "0.5");
    add_built_in(&mut models, "Qwen3.7-Plus", "qmodel", true, false, false, false, "0.1");
    add_built_in(&mut models, "DeepSeek-V4-Pro", "dmodel", true, false, false, false, "0.8");
    add_built_in(&mut models, "DeepSeek-Flash", "dfmodel", false, false, false, false, "0.2");
    add_built_in(&mut models, "GLM-5.3", "gmodel", true, false, true, false, "0.6");
    add_built_in(&mut models, "Kimi-K2.8-Preview", "kmodel", true, false, true, false, "0.3");
    add_built_in(&mut models, "MiniMax-M3", "mmodel", false, false, false, false, "0.2");
    models
}

/// The built-in list of a region. Models that the account's plan does not allow
/// are in it too: their names are known.
fn fallback(region: Region) -> (models: Vec<Json>)
    ensures
        json::list_view(models@) == built_in_models(region),
{
    match region {
        Region::Global => fallback_global(),
        Region::Cn => fallback_cn(),
    }
}

/// The lists fetched from the upstream.
#[derive(Debug)]
pub struct CatalogState {
    pub global: Vec<Json>,
    pub cn: Vec<Json>,
    pub global_fetched_at: i64,
    pub cn_fetched_at: i64,
}

/// What the lists mean.
#[verifier::ext_equal]
pub ghost struct CatalogV {
    pub global: Seq<JsonV>,
    pub cn: Seq<JsonV>,
    pub global_fetched_at: int,
    pub cn_fetched_at: int,
}

impl View for CatalogState {
    type V = CatalogV;

    open spec fn view(&self) -> CatalogV {
        CatalogV {
            global: json::list_view(self.global@),
            cn: json::list_view(self.cn@),
            global_fetched_at: self.global_fetched_at as int,
            cn_fetched_at: self.cn_fetched_at as int,
        }
    }
}

/// Models with the region's id, those already named left out.
pub ghost struct Union {
    pub out: Seq<JsonV>,
    /// The ids so far, in small letters.
    pub seen: Seq<Seq<char>>,
}

impl Union {
    /// After one more model.
    pub open spec fn after(self, model: JsonV, region: Region) -> Union {
        let id = model.shown_at("id"@);
        if id.len() == 0 || self.seen.contains(text::lowercase(id)) {
            self
        } else {
            Union {
                out: self.out.push(model.put("region"@, JsonV::Str(region.spec_id()))),
                seen: self.seen.push(text::lowercase(id)),
            }
        }
    }

    /// After more models.
    pub open spec fn after_all(self, models: Seq<JsonV>, region: Region) -> Union
        decreases models.len(),
    {
        if models.len() == 0 {
            self
        } else {
            self.after_all(models.drop_last(), region).after(models.last(), region)
        }
    }
}

impl CatalogV {
    /// The list fetched for a region.
    pub open spec fn fetched(self, region: Region) -> Seq<JsonV> {
        match region {
            Region::Global => self.global,
            Region::Cn => self.cn,
        }
    }

    /// When the list of a region was fetched.
    pub open spec fn fetched_at(self, region: Region) -> int {
        match region {
            Region::Global => self.global_fetched_at,
            Region::Cn => self.cn_fetched_at,
        }
    }

    /// The list that counts for a region.
    pub open spec fn models(self, region: Region) -> Seq<JsonV> {
        if self.fetched(region).len() == 0 {
            built_in_models(region)
        } else {
            self.fetched(region)
        }
    }

    /// The models of both regions, each name once, the global region first.
    pub open spec fn union(self) -> Union {
        (Union { out: Seq::empty(), seen: Seq::empty() }).after_all(
            self.models(Region::Global),
            Region::Global,
        ).after_all(self.models(Region::Cn), Region::Cn)
    }

    /// The model of a name: in the list of the account's region, else in the
    /// other's, else among the built-in ones.
    pub open spec fn resolved(self, name: Seq<char>, region: Region) -> Option<JsonV> {
        let wanted = text::lowercase(text::trimmed(name));
        let other = region.other();
        if wanted.len() == 0 {
            None
        } else if found_in(self.models(region), wanted) is Some {
            found_in(self.models(region), wanted)
        } else if found_in(self.models(other), wanted) is Some {
            found_in(self.models(other), wanted)
        } else if found_in(built_in_models(other), wanted) is Some {
            found_in(built_in_models(other), wanted)
        } else {
            found_in(built_in_models(region), wanted)
        }
    }

    /// The lists with that of one region replaced.
    pub open spec fn with(self, region: Region, models: Seq<JsonV>, now: int) -> CatalogV {
        match region {
            Region::Global => CatalogV { global: models, global_fetched_at: now, ..self },
            Region::Cn => CatalogV { cn: models, cn_fetched_at: now, ..self },
        }
    }
}

/// Whether an entry reads so, whatever the case.
pub open spec fn entry_reads(model: JsonV, key: Seq<char>, wanted: Seq<char>) -> bool {
    match model.text_at(key) {
        Some(s) => text::lowercase(text::trimmed(s)) == wanted,
        None => false,
    }
}

/// The first model whose entry reads so.
pub open spec fn first_with(models: Seq<JsonV>, key: Seq<char>, wanted: Seq<char>) -> Option<JsonV>
    decreases models.len(),
{
    if models.len() == 0 {
        None
    } else if entry_reads(models[0], key, wanted) {
        Some(models[0])
    } else {
        first_with(models.skip(1), key, wanted)
    }
}

/// The model of a name, by id, else by name, else by the upstream's key.
pub open spec fn found_in(models: Seq<JsonV>, wanted: Seq<char>) -> Option<JsonV> {
    if first_with(models, "id"@, wanted) is Some {
        first_with(models, "id"@, wanted)
    } else if first_with(models, "name"@, wanted) is Some {
        first_with(models, "name"@, wanted)
    } else {
        first_with(models, "upstreamKey"@, wanted)
    }
}

/// The first model whose entry reads so.
fn find_with(models: &Vec<Json>, key: &str, wanted: &str) -> (model: Option<Json>)
    ensures
        json::owned_view(model) == first_with(json::list_view(models@), key@, wanted@),
{
    let ghost all = json::list_view(models@);
    let mut i: usize = 0;
    assert(all.skip(0) =~= all);
    while i < models.len()
        invariant
            all == json::list_view(models@),
            i <= models.len(),
            first_with(all, key@, wanted@) == first_with(all.skip(i as int), key@, wanted@),
        decreases models.len() - i,
    {
        assert(all.skip(i as int)[0] == models@[i as int]@);
        assert(all.skip(i as int).skip(1) =~= all.skip(i as int + 1));
        if let Some(s) = models[i].text_at(key) {
            let lower = text::to_lowercase(text::trim(s));
            if text::same(lower.as_str(), wanted) {
                return Some(models[i].clone());
            }
        }
        i += 1;
    }
    None
}

/// The model of a name, by id, else by name, else by the upstream's key.
fn find_in(models: &Vec<Json>, wanted: &str) -> (model: Option<Json>)
    ensures
        json::owned_view(model) == found_in(json::list_view(models@), wanted@),
{
    let by_id = find_with(models, "id", wanted);
    if by_id.is_some() {
        return by_id;
    }
    let by_name = find_with(models, "name", wanted);
    if by_name.is_some() {
        return by_name;
    }
    find_with(models, "upstreamKey", wanted)
}

/// The list that counts for a region: the fetched one, else the built-in one.
fn catalog_for(state: &CatalogState, region: Region) -> (models: Vec<Json>)
    ensures
        json::list_view(models@) == state@.models(region),
{
    let fetched = match region {
        Region::Global => &state.global,
        Region::Cn => &state.cn,
    };
    if fetched.len() == 0 {
        fallback(region)
    } else {
        json::clone_list(fetched)
    }
}

/// Appends the models of a region whose names are not there yet.
fn unite(models: Vec<Json>, region: Region, out: &mut Vec<Json>, seen: &mut Vec<String>)
    ensures
        ({
            let before = Union {
                out: json::list_view(old(out)@),
                seen: text::views(old(seen)@),
            };
            let after = before.after_all(json::list_view(models@), region);
            json::list_view(final(out)@) == after.out && text::views(final(seen)@) == after.seen
        }),
{
    let ghost all = json::list_view(models@);
    let ghost before = Union { out: json::list_view(out@), seen: text::views(seen@) };
    let mut i: usize = 0;
    assert(all.take(0) =~= Seq::empty());
    while i < models.len()
        invariant
            all == json::list_view(models@),
            i <= models.len(),
            json::list_view(out@) == before.after_all(all.take(i as int), region).out,
            text::views(seen@) == before.after_all(all.take(i as int), region).seen,
        decreases models.len() - i,
    {
        assert(all.take(i as int + 1).drop_last() =~= all.take(i as int));
        assert(all.take(i as int + 1).last() == models@[i as int]@);
        let id = models[i].shown_at("id");
        let lower = text::to_lowercase(id.as_str());
        if !id.as_str().is_empty() && !protocol::listed(seen, lower.as_str()) {
            let mut model = models[i].clone();
            model.put("region", Json::text(region.id()));
            let ghost known = seen@;
            proof {
                json::lemma_list_push(out@, model);
            }
            out.push(model);
            seen.push(lower);
            assert(text::views(seen@) =~= text::views(known).push(lower@));
        }
        i += 1;
    }
    assert(all.take(all.len() as int) =~= all);
}

/// The models of both regions, each name once, the global region first.
pub fn list(state: &CatalogState) -> (models: Vec<Json>)
    ensures
        json::list_view(models@) == state@.union().out,
{
    let mut out: Vec<Json> = Vec::new();
    let mut seen: Vec<String> = Vec::new();
    proof {
        json::lemma_list_empty(out@);
        assert(text::views(seen@) =~= Seq::empty());
    }
    unite(catalog_for(state, Region::Global), Region::Global, &mut out, &mut seen);
    unite(catalog_for(state, Region::Cn), Region::Cn, &mut out, &mut seen);
    out
}

/// The model of a name, the account's own region first.
pub fn resolve(state: &CatalogState, model_id: &str, region: Region) -> (model: Option<Json>)
    ensures
        json::owned_view(model) == state@.resolved(model_id@, region),
{
    let wanted = text::to_lowercase(text::trim(model_id));
    if wanted.as_str().is_empty() {
        return None;
    }
    let other = region.counterpart();
    let own = find_in(&catalog_for(state, region), wanted.as_str());
    if own.is_some() {
        return own;
    }
    let foreign = find_in(&catalog_for(state, other), wanted.as_str());
    if foreign.is_some() {
        return foreign;
    }
    let built_in = find_in(&fallback(other), wanted.as_str());
    if built_in.is_some() {
        return built_in;
    }
    find_in(&fallback(region), wanted.as_str())
}

/// Whether a list has been fetched for a region.
pub fn remote_refreshed(state: &CatalogState, region: Region) -> (yes: bool)
    ensures
        yes == (state@.fetched(region).len() > 0),
{
    match region {
        Region::Global => state.global.len() > 0,
        Region::Cn => state.cn.len() > 0,
    }
}

/// When a list was fetched last.
pub fn last_refreshed_at(state: &CatalogState) -> (millis: i64)
    ensures
        millis == if state@.global_fetched_at >= state@.cn_fetched_at {
            state@.global_fetched_at
        } else {
            state@.cn_fetched_at
        },
{
    if state.global_fetched_at >= state.cn_fetched_at {
        state.global_fetched_at
    } else {
        state.cn_fetched_at
    }
}

/// How many models there are.
pub fn count(state: &CatalogState) -> (n: usize)
    ensures
        n == state@.union().out.len(),
{
    list(state).len()
}

/// The ids of models that have one as text.
pub open spec fn ids_of(models: Seq<JsonV>) -> Seq<Seq<char>>
    decreases models.len(),
{
    if models.len() == 0 {
        Seq::empty()
    } else {
        match models.last().text_at("id"@) {
            Some(id) => ids_of(models.drop_last()).push(id),
            None => ids_of(models.drop_last()),
        }
    }
}

/// The ids of all models, for which default rules are laid down.
pub fn seed_default_rules(state: &CatalogState) -> (ids: Vec<String>)
    ensures
        text::views(ids@) == ids_of(state@.union().out),
{
    let models = list(state);
    let ghost all = json::list_view(models@);
    let mut ids: Vec<String> = Vec::new();
    let mut i: usize = 0;
    assert(text::views(ids@) =~= Seq::empty());
    assert(all.take(0) =~= Seq::empty());
    while i < models.len()
        invariant
            all == json::list_view(models@),
            i <= models.len(),
            text::views(ids@) == ids_of(all.take(i as int)),
        decreases models.len() - i,
    {
        assert(all.take(i as int + 1).drop_last() =~= all.take(i as int));
        assert(all.take(i as int + 1).last() == models@[i as int]@);
        if let Some(id) = models[i].text_at("id") {
            let ghost known = ids@;
            let own = text::owned(id);
            ids.push(own);
            assert(text::views(ids@) =~= text::views(known).push(own@));
        }
        i += 1;
    }
    assert(all.take(all.len() as int) =~= all);
    ids
}

/// The failure that an answer with a list states in its envelope.
pub open spec fn stated_error(payload: JsonV) -> Option<Seq<char>> {
    let code = match payload.field("statusCodeValue"@).as_int() {
        Some(n) => Some(n),
        None => payload.field("code"@).as_int(),
    };
    match code {
        None => None,
        Some(n) => if n == 200 {
            None
        } else {
            let message = match payload.text_at("message"@) {
                Some(s) => s,
                None => protocol::or_empty(payload.text_at("body"@)),
            };
            Some(
                "上游返回业务错误 "@ + text::decimal_int(n) + ": "@ + text::first_chars(
                    message,
                    200,
                ),
            )
        },
    }
}

/// The integer of an entry.
fn int_at(payload: &Json, key: &str) -> (number: Option<i64>)
    ensures
        match number {
            Some(n) => payload@.field(key@).as_int() == Some(n as int),
            None => payload@.field(key@).as_int() is None,
        },
{
    match payload.get(key) {
        Some(value) => value.as_int(),
        None => None,
    }
}

/// The failure that an answer with a list states in its envelope.
fn envelope_error(payload: &Json) -> (message: Option<String>)
    ensures
        json::owned_text(message) == stated_error(payload@),
{
    let code = match int_at(payload, "statusCodeValue") {
        Some(n) => Some(n),
        None => int_at(payload, "code"),
    };
    let code = match code {
        Some(n) => n,
        None => return None,
    };
    if code == 200 {
        return None;
    }
    let detail = match payload.text_at("message") {
        Some(s) => text::owned(s),
        None => match payload.text_at("body") {
            Some(s) => text::owned(s),
            None => String::new(),
        },
    };
    let mut message = text::owned("上游返回业务错误 ");
    message.append(text::signed_text(code).as_str());
    message.append(": ");
    message.append(text::take_chars(detail.as_str(), 200));
    Some(message)
}

/// A text without its white space.
pub open spec fn without_spaces(s: Seq<char>) -> Seq<char>
    decreases s.len(),
{
    if s.len() == 0 {
        s
    } else if text::is_space(s.last()) {
        without_spaces(s.drop_last())
    } else {
        without_spaces(s.drop_last()).push(s.last())
    }
}

/// A text without its white space.
fn squeeze(content: &str) -> (tight: String)
    ensures
        tight@ == without_spaces(content@),
{
    let chars = text::chars_of(content);
    let mut tight = String::new();
    let mut i: usize = 0;
    assert(content@.take(0) =~= Seq::empty());
    while i < chars.len()
        invariant
            chars@ == content@,
            i <= chars.len(),
            tight@ == without_spaces(content@.take(i as int)),
        decreases chars.len() - i,
    {
        assert(content@.take(i as int + 1).drop_last() =~= content@.take(i as int));
        if !text::space(chars[i]) {
            tight.push(chars[i]);
        }
        i += 1;
    }
    assert(content@.take(content@.len() as int) =~= content@);
    tight
}

/// The greatest token count of some tiers of a context.
pub open spec fn greatest_count(config: JsonV, tiers: Seq<Seq<char>>) -> Option<int>
    decreases tiers.len(),
{
    if tiers.len() == 0 {
        None
    } else {
        let known = greatest_count(config, tiers.drop_last());
        match config.field(tiers.last()).field("token_count"@).as_int() {
            Some(n) => if known is Some && known.unwrap() > n {
                known
            } else {
                Some(n)
            },
            None => known,
        }
    }
}

/// The context of a model: the greatest of its tiers.
pub open spec fn context_window(item: JsonV) -> int {
    let config = item.field("context_config"@);
    match greatest_count(config, config.keys()) {
        Some(n) => if n > 0 {
            n
        } else {
            DEFAULT_CONTEXT_WINDOW as int
        },
        None => DEFAULT_CONTEXT_WINDOW as int,
    }
}

/// The context of a model: the greatest of its tiers.
fn context_window_of(item: &Json) -> (size: i64)
    ensures
        size == context_window(item@),
{
    let config = item.field("context_config");
    let tiers = config.keys();
    let ghost all = config@.keys();
    let mut best: Option<i64> = None;
    let mut i: usize = 0;
    assert(all.take(0) =~= Seq::empty());
    while i < tiers.len()
        invariant
            all == order::texts(tiers@),
            i <= tiers.len(),
            match best {
                Some(n) => greatest_count(config@, all.take(i as int)) == Some(n as int),
                None => greatest_count(config@, all.take(i as int)) is None,
            },
        decreases tiers.len() - i,
    {
        assert(all.take(i as int + 1).drop_last() =~= all.take(i as int));
        assert(all.take(i as int + 1).last() == tiers@[i as int]@);
        let tier = config.field(tiers[i].as_str());
        if let Some(n) = int_at(&tier, "token_count") {
            best = match best {
                Some(known) => if known > n {
                    Some(known)
                } else {
                    Some(n)
                },
                None => Some(n),
            };
        }
        i += 1;
    }
    assert(all.take(all.len() as int) =~= all);
    match best {
        Some(n) => if n > 0 {
            n
        } else {
            DEFAULT_CONTEXT_WINDOW
        },
        None => DEFAULT_CONTEXT_WINDOW,
    }
}

/// The efforts that a model of the upstream declares.
pub open spec fn item_efforts(item: JsonV) -> Seq<JsonV> {
    item.field("thinking_config"@).field("enabled"@).field("efforts"@).keys().map_values(
        |key: Seq<char>| JsonV::Str(key),
    )
}

/// The efforts that a model of the upstream declares.
fn efforts_of(item: &Json) -> (efforts: Vec<Json>)
    ensures
        json::list_view(efforts@) == item_efforts(item@),
{
    let keys = item.field("thinking_config").field("enabled").field("efforts").keys();
    let ghost all = order::texts(keys@);
    let mut efforts: Vec<Json> = Vec::new();
    let mut i: usize = 0;
    while i < keys.len()
        invariant
            all == order::texts(keys@),
            i <= keys.len(),
            efforts.len() == i,
            forall|k: int| 0 <= k < i ==> (#[trigger] efforts@[k])@ == JsonV::Str(all[k]),
        decreases keys.len() - i,
    {
        assert(all[i as int] == keys@[i as int]@);
        efforts.push(Json::text(keys[i].as_str()));
        i += 1;
    }
    assert(json::list_view(efforts@) =~= item_efforts(item@));
    efforts
}

/// A list being read.
pub ghost struct Parsed {
    pub models: Seq<JsonV>,
    /// The ids so far, in small letters.
    pub seen: Seq<Seq<char>>,
}

/// The name of a model of the upstream.
pub open spec fn item_name(item: JsonV) -> Seq<char> {
    text::trimmed(protocol::or_empty(item.text_at("display_name"@)))
}

/// The key of a model of the upstream.
pub open spec fn item_key(item: JsonV) -> Seq<char> {
    text::trimmed(protocol::or_empty(item.text_at("key"@)))
}

/// The makings of the entry for a model of the upstream.
pub open spec fn item_made(item: JsonV, factor: Seq<char>) -> EntryV {
    EntryV {
        id: without_spaces(item_name(item)),
        key: item_key(item),
        reasoning: item.field("is_reasoning"@).truthy() || item.field("thinking_config"@).truthy(),
        efforts: item_efforts(item),
        vision: item.field("is_vl"@).truthy(),
        enabled: item.field("enable"@).truthy(),
        context_window: context_window(item),
        source: match item.text_at("source"@) {
            Some(s) => s,
            None => "system"@,
        },
        credits: credits_text(factor),
    }
}

/// The entry for a model of the upstream.
pub open spec fn item_entry(item: JsonV, factor: Seq<char>) -> JsonV {
    let made = item_made(item, factor);
    let named = entry_of(made).put("name"@, JsonV::Str(item_name(item)));
    if item.field("format"@) == JsonV::Null {
        named
    } else {
        named.put("config"@, config_of(made).put("format"@, item.field("format"@)))
    }
}

impl Parsed {
    /// After one more model of the upstream. One without a key or a name is left
    /// out, and so is a second one of the same id.
    pub open spec fn after(self, item: JsonV, factor: Seq<char>) -> Parsed {
        let id = without_spaces(item_name(item));
        if item_key(item).len() == 0 || id.len() == 0 || self.seen.contains(text::lowercase(id)) {
            self
        } else {
            Parsed {
                models: self.models.push(item_entry(item, factor)),
                seen: self.seen.push(text::lowercase(id)),
            }
        }
    }
}

/// The price factor of the model at a place.
pub open spec fn factor_at(factors: Seq<Seq<char>>, i: int) -> Seq<char> {
    if 0 <= i < factors.len() {
        factors[i]
    } else {
        Seq::empty()
    }
}

/// The models of a list of the upstream.
pub open spec fn parsed(items: Seq<JsonV>, factors: Seq<Seq<char>>) -> Parsed
    decreases items.len(),
{
    if items.len() == 0 {
        Parsed { models: Seq::empty(), seen: Seq::empty() }
    } else {
        parsed(items.drop_last(), factors).after(
            items.last(),
            factor_at(factors, items.len() - 1),
        )
    }
}

/// The models in an answer of the upstream.
pub open spec fn models_in(payload: JsonV, factors: Seq<Seq<char>>) -> Seq<JsonV> {
    match payload.field("chat"@).as_list() {
        Some(items) => parsed(items, factors).models,
        None => Seq::empty(),
    }
}

/// The entry for a model of the upstream.
fn make_entry(item: &Json, id: &str, key: &str, name: &str, factor: &str) -> (model: Json)
    requires
        id@ == without_spaces(item_name(item@)),
        key@ == item_key(item@),
        name@ == item_name(item@),
    ensures
        model@ == item_entry(item@, factor@),
{
    let source = match item.text_at("source") {
        Some(s) => text::owned(s),
        None => text::owned("system"),
    };
    let credits = credits_of_text(factor);
    let made = Entry {
        id,
        upstream_key: key,
        reasoning: item.truthy_at("is_reasoning") || item.truthy_at("thinking_config"),
        efforts: efforts_of(item),
        vision: item.truthy_at("is_vl"),
        enabled: item.truthy_at("enable"),
        context_window: context_window_of(item),
        source: source.as_str(),
        credits: credits.as_str(),
    };
    let mut model = entry(&made);
    model.put("name", Json::text(name));
    let format = item.field("format");
    if !format.is_null() {
        let mut config = make_config(&made);
        config.put("format", format);
        model.put("config", config);
    }
    model
}

/// The bit patterns of the price factors in an answer of the upstream.
pub open spec fn factors_in(payload: JsonV) -> Seq<Option<u64>> {
    match payload.field("chat"@).as_list() {
        Some(items) => items.map_values(
            |item: JsonV| adapter::factor_in(item.get("price_factor"@)),
        ),
        None => Seq::empty(),
    }
}

/// The price factors in an answer of the upstream, one for each entry. Zero is a
/// factor: the model is free.
pub fn factors_of(payload: &Json) -> (factors: Vec<Option<Double>>)
    ensures
        factors@.map_values(|factor: Option<Double>| adapter::pattern_of(factor)) == factors_in(
            payload@,
        ),
{
    let mut factors: Vec<Option<Double>> = Vec::new();
    let items = match payload.list_at("chat") {
        Some(items) => items,
        None => {
            assert(factors@.map_values(|factor: Option<Double>| adapter::pattern_of(factor))
                =~= factors_in(payload@));
            return factors;
        },
    };
    let ghost all = factors_in(payload@);
    let mut i: usize = 0;
    while i < items.len()
        invariant
            all.len() == items.len(),
            i <= items.len(),
            factors@.len() == i,
            forall|k: int|
                0 <= k < items.len() ==> all[k] == adapter::factor_in(
                    (#[trigger] items@[k])@.get("price_factor"@),
                ),
            forall|k: int| 0 <= k < i ==> adapter::pattern_of(#[trigger] factors@[k]) == all[k],
        decreases items.len() - i,
    {
        factors.push(adapter::factor_of(items[i].get("price_factor")));
        i += 1;
    }
    assert(factors@.map_values(|factor: Option<Double>| adapter::pattern_of(factor)) =~= all);
    factors
}

/// The models in an answer of the upstream. `factors` holds, for each entry of
/// the answer's list, its price factor as it is shown: at most two decimals,
/// empty where there is none.
pub fn parse_catalog(payload: &Json, factors: &Vec<String>) -> (models: Vec<Json>)
    ensures
        json::list_view(models@) == models_in(payload@, text::views(factors@)),
{
    let mut models: Vec<Json> = Vec::new();
    let mut seen: Vec<String> = Vec::new();
    proof {
        json::lemma_list_empty(models@);
        assert(text::views(seen@) =~= Seq::empty());
    }
    let items = match payload.list_at("chat") {
        Some(items) => items,
        None => return models,
    };
    let ghost all = json::list_view(items@);
    let ghost shown = text::views(factors@);
    let mut i: usize = 0;
    assert(all.take(0) =~= Seq::empty());
    while i < items.len()
        invariant
            all == json::list_view(items@),
            shown == text::views(factors@),
            i <= items.len(),
            json::list_view(models@) == parsed(all.take(i as int), shown).models,
            text::views(seen@) == parsed(all.take(i as int), shown).seen,
        decreases items.len() - i,
    {
        let item = &items[i];
        let ghost upto = all.take(i as int + 1);
        assert(upto.drop_last() =~= all.take(i as int));
        assert(upto.last() == item@);
        let key = match item.text_at("key") {
            Some(s) => text::owned(text::trim(s)),
            None => text::owned(text::trim("")),
        };
        let name = match item.text_at("display_name") {
            Some(s) => text::owned(text::trim(s)),
            None => text::owned(text::trim("")),
        };
        proof {
            reveal_strlit("");
            assert(""@ =~= Seq::empty());
        }
        let id = squeeze(name.as_str());
        let lower = text::to_lowercase(id.as_str());
        if !key.as_str().is_empty() && !id.as_str().is_empty() && !protocol::listed(
            &seen,
            lower.as_str(),
        ) {
            let factor = if i < factors.len() {
                text::owned(factors[i].as_str())
            } else {
                String::new()
            };
            assert(factor@ == factor_at(shown, i as int));
            let model = make_entry(item, id.as_str(), key.as_str(), name.as_str(), factor.as_str());
            let ghost known = seen@;
            proof {
                json::lemma_list_push(models@, model);
            }
            models.push(model);
            seen.push(lower);
            assert(text::views(seen@) =~= text::views(known).push(lower@));
        }
        i += 1;
    }
    assert(all.take(all.len() as int) =~= all);
    models
}

/// What to do about a list of models.
pub enum RefreshStep {
    /// The list at hand is still good.
    Unchanged,
    /// The request cannot be signed.
    Failed(String),
    /// Fetch the list.
    Fetch { url: String, headers: Vec<(String, String)> },
}

/// Whether the list of a region has to be fetched.
pub open spec fn refresh_due(state: CatalogV, region: Region, force: bool, now: int) -> bool {
    force || state.fetched(region).len() == 0 || now - state.fetched_at(region) >= CACHE_TTL_MS
}

/// The address of the list of a region.
pub open spec fn list_url(region: Region) -> Seq<char> {
    region.spec_gateway() + "algo/api/v2/model/list?Encode=1"@
}

/// What to do about the list of the account's region: fetch it where it is
/// asked for, where there is none or where it is too old.
pub fn refresh_step(
    state: &CatalogState,
    credentials: &Credentials,
    force: bool,
    now_ms: u64,
    machine_os: &str,
) -> (step: RefreshStep)
    requires
        now_ms <= i64::MAX,
    ensures
        match step {
            RefreshStep::Unchanged => !refresh_due(
                state@,
                credentials@.region,
                force,
                now_ms as int,
            ),
            RefreshStep::Failed(message) => refresh_due(
                state@,
                credentials@.region,
                force,
                now_ms as int,
            ) && exists|error: ErrorV|
                #[trigger] cosy::signing_fails(
                    error,
                    credentials@.user_id,
                    credentials@.access_token,
                    list_url(credentials@.region),
                ) && message@ == error.message,
            RefreshStep::Fetch { url, headers } => {
                &&& refresh_due(state@, credentials@.region, force, now_ms as int)
                &&& credentials@.user_id.len() > 0
                &&& credentials@.access_token.len() > 0
                &&& url@ == list_url(credentials@.region)
                &&& cosy::signed_path(url@) is Some
                &&& cosy::are_signed(
                    urls::pairs_view(headers@),
                    Seq::empty(),
                    cosy::signed_path(url@).unwrap(),
                    cosy::identity_of(credentials@),
                    now_ms as int,
                    machine_os@,
                )
            },
        },
{
    let region = credentials.region;
    if !force {
        let fetched_at = match region {
            Region::Global => state.global_fetched_at,
            Region::Cn => state.cn_fetched_at,
        };
        let age: i128 = now_ms as i128 - fetched_at as i128;
        if remote_refreshed(state, region) && age < CACHE_TTL_MS as i128 {
            return RefreshStep::Unchanged;
        }
    }
    let mut url = text::owned(region.gateway());
    url.append("algo/api/v2/model/list?Encode=1");
    let identity = CosyIdentity {
        user_id: credentials.user_id.as_str(),
        auth_token: credentials.access_token.as_str(),
        name: credentials.name.as_str(),
        email: credentials.email.as_str(),
        machine_id: credentials.machine_id.as_str(),
    };
    match cosy::build_auth_headers(None, url.as_str(), &identity, now_ms, machine_os) {
        Ok(headers) => RefreshStep::Fetch { url, headers },
        Err(error) => {
            assert(cosy::signing_fails(
                error@,
                credentials@.user_id,
                credentials@.access_token,
                list_url(credentials@.region),
            ));
            RefreshStep::Failed(error.message)
        },
    }
}

/// What comes of an answer with a list, and the lists after it.
pub open spec fn refreshed(
    state: CatalogV,
    region: Region,
    response: ResponseV,
    factors: Seq<Seq<char>>,
    now: int,
) -> (RefreshV, CatalogV) {
    let payload = match response.payload {
        Some(v) => v,
        None => JsonV::Null,
    };
    if !response.ok {
        (RefreshV::Failed("上游返回 HTTP "@ + text::decimal(response.status as nat)), state)
    } else {
        match stated_error(payload) {
            Some(message) => (RefreshV::Failed(message), state),
            None => {
                let models = models_in(payload, factors);
                if models.len() == 0 {
                    (RefreshV::Failed("上游返回的模型目录为空"@), state)
                } else {
                    (RefreshV::Refreshed(models.len() as int), state.with(region, models, now))
                }
            },
        }
    }
}

/// Takes over the list in an answer. A failure of any kind leaves the lists as
/// they are.
pub fn refresh(
    state: &mut CatalogState,
    region: Region,
    response: &ApiResponse,
    factors: &Vec<String>,
    now_ms: i64,
) -> (outcome: ModelRefreshOutcome)
    ensures
        (outcome@, final(state)@) == refreshed(
            old(state)@,
            region,
            response@,
            text::views(factors@),
            now_ms as int,
        ),
{
    if !response.ok {
        let mut message = text::owned("上游返回 HTTP ");
        message.append(text::decimal_text(response.status as u64).as_str());
        return ModelRefreshOutcome::Failed(message);
    }
    let payload = match &response.payload {
        Some(value) => value.clone(),
        None => Json::Null,
    };
    if let Some(message) = envelope_error(&payload) {
        return ModelRefreshOutcome::Failed(message);
    }
    let models = parse_catalog(&payload, factors);
    if models.len() == 0 {
        return ModelRefreshOutcome::failed("上游返回的模型目录为空");
    }
    let count: usize = models.len();
    match region {
        Region::Global => {
            state.global = models;
            state.global_fetched_at = now_ms;
        },
        Region::Cn => {
            state.cn = models;
            state.cn_fetched_at = now_ms;
        },
    }
    ModelRefreshOutcome::Refreshed(count)
}

/// Whether models have different ids, whatever the case, and `seen` holds them.
pub open spec fn ids_distinct(out: Seq<JsonV>, seen: Seq<Seq<char>>) -> bool {
    &&& out.len() == seen.len()
    &&& forall|i: int|
        0 <= i < out.len() ==> seen[i] == text::lowercase((#[trigger] out[i]).shown_at("id"@))
    &&& forall|i: int, j: int| 0 <= i < j < seen.len() ==> #[trigger] seen[i] != #[trigger] seen[j]
}

proof fn lemma_union_distinct(before: Union, models: Seq<JsonV>, region: Region)
    requires
        ids_distinct(before.out, before.seen),
    ensures
        ids_distinct(before.after_all(models, region).out, before.after_all(models, region).seen),
    decreases models.len(),
{
    if models.len() > 0 {
        lemma_union_distinct(before, models.drop_last(), region);
        let known = before.after_all(models.drop_last(), region);
        let model = models.last();
        let now = known.after(model, region);
        reveal_strlit("id");
        reveal_strlit("region");
        assert("id"@.len() != "region"@.len());
        assert(model.put("region"@, JsonV::Str(region.spec_id())).field("id"@) == model.field(
            "id"@,
        ));
        if now.seen != known.seen {
            assert forall|i: int, j: int| 0 <= i < j < now.seen.len() implies #[trigger] now.seen[i]
                != #[trigger] now.seen[j] by {
                if j == known.seen.len() && now.seen[i] == now.seen[j] {
                    assert(known.seen[i] == now.seen[j]);
                    assert(known.seen.contains(now.seen[j]));
                }
            }
        }
    }
}

/// No model stands twice in the list of both regions, whatever the case of its
/// id.
pub proof fn listed_models_are_distinct(state: CatalogV, i: int, j: int)
    requires
        0 <= i < j < state.union().out.len(),
    ensures
        text::lowercase(state.union().out[i].shown_at("id"@)) != text::lowercase(
            state.union().out[j].shown_at("id"@),
        ),
{
    let none = Union { out: Seq::empty(), seen: Seq::empty() };
    let global = none.after_all(state.models(Region::Global), Region::Global);
    lemma_union_distinct(none, state.models(Region::Global), Region::Global);
    lemma_union_distinct(global, state.models(Region::Cn), Region::Cn);
    assert(state.union().seen[i] != state.union().seen[j]);
}

proof fn lemma_first_with(models: Seq<JsonV>, key: Seq<char>, wanted: Seq<char>, i: int)
    requires
        0 <= i < models.len(),
        entry_reads(models[i], key, wanted),
    ensures
        first_with(models, key, wanted) is Some,
        entry_reads(first_with(models, key, wanted).unwrap(), key, wanted),
        models.contains(first_with(models, key, wanted).unwrap()),
    decreases models.len(),
{
    if entry_reads(models[0], key, wanted) {
        assert(models.contains(models[0]));
    } else {
        let rest = models.skip(1);
        lemma_first_with(rest, key, wanted, i - 1);
        let k = choose|k: int| 0 <= k < rest.len() && rest[k] == first_with(rest, key, wanted).unwrap();
        assert(models[k + 1] == rest[k]);
    }
}

/// A model of the account's own region is found by its id, and in that region's
/// list, whatever the other region calls by the same id.
pub proof fn own_models_come_first(state: CatalogV, region: Region, i: int, id: Seq<char>)
    requires
        0 <= i < state.models(region).len(),
        state.models(region)[i].text_at("id"@) == Some(id),
        text::lowercase(text::trimmed(id)).len() > 0,
    ensures
        state.resolved(id, region) is Some,
        entry_reads(
            state.resolved(id, region).unwrap(),
            "id"@,
            text::lowercase(text::trimmed(id)),
        ),
        state.models(region).contains(state.resolved(id, region).unwrap()),
{
    lemma_first_with(state.models(region), "id"@, text::lowercase(text::trimmed(id)), i);
}

/// A failed refresh keeps the lists, and so does one of the other region keep
/// the region's own.
pub proof fn failed_refresh_keeps_the_lists(
    state: CatalogV,
    region: Region,
    response: ResponseV,
    factors: Seq<Seq<char>>,
    now: int,
)
    ensures
        ({
            let (outcome, after) = refreshed(state, region, response, factors, now);
            &&& !(outcome is Refreshed) ==> after == state
            &&& after.fetched(region.other()) == state.fetched(region.other())
            &&& outcome is Refreshed ==> after.models(region).len() > 0 && after.models(region)
                == after.fetched(region)
        }),
{
}

} // verus!
