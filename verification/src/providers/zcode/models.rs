//! ZCode's models: a table, one for both regions.
use super::region::Region;
use crate::json;
use crate::json::{Json, JsonV};
use crate::text;
use vstd::prelude::*;
use vstd::string::*;

verus! {

/// What is known of a model.
#[derive(Debug, Clone, Copy)]
pub struct Spec {
    pub id: &'static str,
    pub name: &'static str,
    pub context: u64,
    pub max_output: u64,
    pub reasoning: bool,
    pub vision: bool,
}

/// What a model means.
pub ghost struct SpecV {
    pub id: Seq<char>,
    pub name: Seq<char>,
    pub context: int,
    pub max_output: int,
    pub reasoning: bool,
    pub vision: bool,
}

impl View for Spec {
    type V = SpecV;

    open spec fn view(&self) -> SpecV {
        SpecV {
            id: self.id@,
            name: self.name@,
            context: self.context as int,
            max_output: self.max_output as int,
            reasoning: self.reasoning,
            vision: self.vision,
        }
    }
}

/// A model that thinks and does not see.
pub open spec fn thinks(id: Seq<char>, name: Seq<char>, context: int, max_output: int) -> SpecV {
    SpecV { id, name, context, max_output, reasoning: true, vision: false }
}

/// A model that sees and does not think.
pub open spec fn sees(id: Seq<char>, name: Seq<char>, context: int, max_output: int) -> SpecV {
    SpecV { id, name, context, max_output, reasoning: false, vision: true }
}

/// The models, in the order in which they are shown.
pub open spec fn table() -> Seq<SpecV> {
    Seq::empty().push(thinks("glm-5.3"@, "GLM-5.3"@, 1_000_000, 128_000)).push(
        thinks("glm-5.3-flash"@, "GLM-5.3 Flash"@, 1_000_000, 128_000),
    ).push(thinks("glm-5.2"@, "GLM-5.2"@, 1_000_000, 128_000)).push(
        thinks("glm-5.1"@, "GLM-5.1"@, 200_000, 64_000),
    ).push(thinks("glm-5"@, "GLM-5"@, 200_000, 64_000)).push(
        thinks("glm-5-turbo"@, "GLM-5 Turbo"@, 200_000, 64_000),
    ).push(thinks("glm-4.7"@, "GLM-4.7"@, 200_000, 131_072)).push(
        thinks("glm-4.6"@, "GLM-4.6"@, 200_000, 131_072),
    ).push(thinks("glm-4.5-air"@, "GLM-4.5 Air"@, 131_072, 98_304)).push(
        sees("glm-4.6v"@, "GLM-4.6V"@, 131_072, 32_768),
    ).push(sees("glm-5v-turbo"@, "GLM-5V Turbo"@, 200_000, 131_072))
}

/// What a list of models means.
pub open spec fn specs_view(list: Seq<Spec>) -> Seq<SpecV> {
    list.map_values(|s: Spec| s@)
}

fn push_spec(
    list: &mut Vec<Spec>,
    id: &'static str,
    name: &'static str,
    context: u64,
    max_output: u64,
    vision: bool,
)
    ensures
        specs_view(final(list)@) == specs_view(old(list)@).push(
            if vision {
                sees(id@, name@, context as int, max_output as int)
            } else {
                thinks(id@, name@, context as int, max_output as int)
            },
        ),
{
    let ghost before = list@;
    let added = Spec { id, name, context, max_output, reasoning: !vision, vision };
    list.push(added);
    assert(specs_view(list@) =~= specs_view(before).push(added@));
}

/// The models, in the order in which they are shown.
fn specs() -> (list: Vec<Spec>)
    ensures
        specs_view(list@) == table(),
{
    let mut list: Vec<Spec> = Vec::new();
    assert(specs_view(list@) =~= Seq::empty());
    push_spec(&mut list, "glm-5.3", "GLM-5.3", 1_000_000, 128_000, false);
    push_spec(&mut list, "glm-5.3-flash", "GLM-5.3 Flash", 1_000_000, 128_000, false);
    push_spec(&mut list, "glm-5.2", "GLM-5.2", 1_000_000, 128_000, false);
    push_spec(&mut list, "glm-5.1", "GLM-5.1", 200_000, 64_000, false);
    push_spec(&mut list, "glm-5", "GLM-5", 200_000, 64_000, false);
    push_spec(&mut list, "glm-5-turbo", "GLM-5 Turbo", 200_000, 64_000, false);
    push_spec(&mut list, "glm-4.7", "GLM-4.7", 200_000, 131_072, false);
    push_spec(&mut list, "glm-4.6", "GLM-4.6", 200_000, 131_072, false);
    push_spec(&mut list, "glm-4.5-air", "GLM-4.5 Air", 131_072, 98_304, false);
    push_spec(&mut list, "glm-4.6v", "GLM-4.6V", 131_072, 32_768, true);
    push_spec(&mut list, "glm-5v-turbo", "GLM-5V Turbo", 200_000, 131_072, true);
    list
}

/// How a model is listed.
pub open spec fn listed(spec: SpecV) -> JsonV {
    JsonV::object().put("id"@, JsonV::Str(spec.id)).put("name"@, JsonV::Str(spec.name)).put(
        "maxInputTokens"@,
        JsonV::Int(spec.context),
    ).put("maxOutputTokens"@, JsonV::Int(spec.max_output)).put(
        "supportsToolCall"@,
        JsonV::Bool(true),
    ).put("supportsImages"@, JsonV::Bool(spec.vision)).put(
        "supportsReasoning"@,
        JsonV::Bool(spec.reasoning),
    )
}

/// How a model is listed.
fn list_item(spec: &Spec) -> (item: Json)
    ensures
        item@ == listed(spec@),
{
    let mut item = Json::object();
    item.put("id", Json::text(spec.id));
    item.put("name", Json::text(spec.name));
    item.put("maxInputTokens", Json::Natural(spec.context));
    item.put("maxOutputTokens", Json::Natural(spec.max_output));
    item.put("supportsToolCall", Json::Bool(true));
    item.put("supportsImages", Json::Bool(spec.vision));
    item.put("supportsReasoning", Json::Bool(spec.reasoning));
    item
}

/// How the models are listed.
pub open spec fn listing() -> Seq<JsonV> {
    table().map_values(|s: SpecV| listed(s))
}

/// The models of a region, as they are listed.
pub fn list(region: Region) -> (items: Vec<Json>)
    ensures
        json::list_view(items@) == listing(),
{
    broadcast use {json::lemma_list_push, json::lemma_list_empty};

    let all = specs();
    let mut items: Vec<Json> = Vec::new();
    let ghost wanted = listing();
    let mut i: usize = 0;
    assert(wanted.take(0) =~= Seq::empty());
    while i < all.len()
        invariant
            specs_view(all@) == table(),
            wanted == listing(),
            i <= all.len(),
            json::list_view(items@) == wanted.take(i as int),
        decreases all.len() - i,
    {
        assert(specs_view(all@)[i as int] == all@[i as int]@);
        items.push(list_item(&all[i]));
        assert(wanted.take(i as int + 1) =~= wanted.take(i as int).push(wanted[i as int]));
        i += 1;
    }
    assert(specs_view(all@).len() == all@.len());
    assert(wanted.take(wanted.len() as int) =~= wanted);
    items
}

/// Whether some model has an id.
pub open spec fn has_id(id: Seq<char>) -> bool {
    exists|i: int| 0 <= i < table().len() && (#[trigger] table()[i]).id == id
}

/// Whether a name is that of a model; the case of its letters does not matter.
pub fn is_known(model: &str) -> (yes: bool)
    ensures
        yes == has_id(text::ascii_lowercase(text::trimmed(model@))),
{
    let needle = text::text_of(&text::lower_chars(text::trim(model)));
    let all = specs();
    let mut i: usize = 0;
    assert(specs_view(all@).len() == all@.len());
    while i < all.len()
        invariant
            specs_view(all@) == table(),
            table().len() == all@.len(),
            i <= all.len(),
            needle@ == text::ascii_lowercase(text::trimmed(model@)),
            forall|k: int| 0 <= k < i ==> (#[trigger] table()[k]).id != needle@,
        decreases all.len() - i,
    {
        assert(specs_view(all@)[i as int] == all@[i as int]@);
        if text::same(all[i].id, needle.as_str()) {
            assert(table()[i as int].id == needle@);
            return true;
        }
        i += 1;
    }
    false
}

proof fn lemma_plain(s: Seq<char>)
    requires
        s.len() > 0,
        forall|i: int|
            0 <= i < s.len() ==> ('a' <= #[trigger] s[i] <= 'z' || '0' <= s[i] <= '9' || s[i] == '-'
                || s[i] == '.'),
    ensures
        text::ascii_lowercase(text::trimmed(s)) == s,
{
    assert(!text::is_space(s[0]));
    assert(!text::is_space(s.last()));
    assert(text::trimmed(s) == s);
    assert(text::ascii_lowercase(s) =~= s);
}

/// Every model that is listed is known by the id that it is listed with.
pub proof fn listed_models_are_known(i: int)
    requires
        0 <= i < listing().len(),
    ensures
        listing()[i].text_at("id"@) is Some,
        has_id(text::ascii_lowercase(text::trimmed(listing()[i].text_at("id"@).unwrap()))),
{
    reveal_strlit("id");
    reveal_strlit("name");
    reveal_strlit("maxInputTokens");
    reveal_strlit("maxOutputTokens");
    reveal_strlit("supportsToolCall");
    reveal_strlit("supportsImages");
    reveal_strlit("supportsReasoning");
    reveal_strlit("glm-5.3");
    reveal_strlit("glm-5.3-flash");
    reveal_strlit("glm-5.2");
    reveal_strlit("glm-5.1");
    reveal_strlit("glm-5");
    reveal_strlit("glm-5-turbo");
    reveal_strlit("glm-4.7");
    reveal_strlit("glm-4.6");
    reveal_strlit("glm-4.5-air");
    reveal_strlit("glm-4.6v");
    reveal_strlit("glm-5v-turbo");
    let own = table()[i];
    assert("id"@.len() == 2 && "name"@.len() == 4);
    assert(listing()[i] == listed(own));
    assert(listed(own).text_at("id"@) == Some(own.id));
    lemma_plain(own.id);
    assert(table()[i].id == own.id);
}

} // verus!
