//! JSON values and the operations on them that the gateway's rules need.
//!
//! `Json` is the value that code handles, `JsonV` what it means: an object is a
//! map from its keys, so the order of its entries, and an entry that a later
//! one of the same key replaces, do not matter.
use crate::number;
use crate::order;
use crate::text;
use serde_json::Value;
use vstd::prelude::*;
use vstd::string::*;

verus! {

/// A JSON value.
#[derive(Debug)]
pub enum Json {
    Null,
    Bool(bool),
    /// An integer that is not negative.
    Natural(u64),
    /// A negative integer.
    Negative(i64),
    /// A number with a fraction or an exponent.
    Float(Double),
    Text(String),
    List(Vec<Json>),
    /// The entries; of two with one key the later counts.
    Object(Vec<(String, Json)>),
}

/// A double-precision number: its bit pattern and the decimal text it is
/// written as.
#[derive(Debug)]
pub struct Double {
    bits: u64,
    text: String,
}

impl Double {
    /// The bit pattern of the number.
    pub closed spec fn pattern(&self) -> u64 {
        self.bits
    }

    /// The decimal text of the number.
    pub closed spec fn written(&self) -> Seq<char> {
        self.text@
    }

    /// The bit pattern of the number.
    pub fn bits(&self) -> (bits: u64)
        ensures
            bits == self.pattern(),
    {
        self.bits
    }

    /// The decimal text of the number.
    pub fn text(&self) -> (written: &str)
        ensures
            written@ == self.written(),
    {
        self.text.as_str()
    }
}

/// What a JSON value means.
#[verifier::ext_equal]
pub ghost enum JsonV {
    Null,
    Bool(bool),
    Int(int),
    Float { bits: u64, text: Seq<char> },
    Str(Seq<char>),
    Arr(Seq<JsonV>),
    Obj(Map<Seq<char>, JsonV>),
}

/// What the entries of an object mean: of two with one key the later counts.
pub open spec fn entries_view(entries: Seq<(String, Json)>) -> Map<Seq<char>, JsonV>
    decreases entries,
{
    if entries.len() == 0 {
        Map::empty()
    } else {
        entries_view(entries.drop_last()).insert(entries.last().0@, entries.last().1.view())
    }
}

/// What a list of values means.
pub open spec fn list_view(items: Seq<Json>) -> Seq<JsonV>
    decreases items,
{
    Seq::new(
        items.len(),
        |i: int|
            if 0 <= i < items.len() {
                items[i].view()
            } else {
                JsonV::Null
            },
    )
}

/// What an optional value means.
pub open spec fn opt_view(value: Option<&Json>) -> Option<JsonV> {
    match value {
        Some(v) => Some(v@),
        None => None,
    }
}

/// What an optional value means.
pub open spec fn owned_view(value: Option<Json>) -> Option<JsonV> {
    match value {
        Some(v) => Some(v@),
        None => None,
    }
}

/// What an optional text means.
pub open spec fn opt_text(value: Option<&str>) -> Option<Seq<char>> {
    match value {
        Some(v) => Some(v@),
        None => None,
    }
}

/// What an optional text means.
pub open spec fn owned_text(value: Option<String>) -> Option<Seq<char>> {
    match value {
        Some(v) => Some(v@),
        None => None,
    }
}

impl JsonV {
    /// The empty object.
    pub open spec fn object() -> JsonV {
        JsonV::Obj(Map::empty())
    }

    /// The object with one entry set.
    pub open spec fn put(self, key: Seq<char>, value: JsonV) -> JsonV {
        match self {
            JsonV::Obj(map) => JsonV::Obj(map.insert(key, value)),
            _ => self,
        }
    }

    /// The object with one entry set where there is a value for it.
    pub open spec fn put_some(self, key: Seq<char>, value: Option<JsonV>) -> JsonV {
        match value {
            Some(v) => self.put(key, v),
            None => self,
        }
    }

    /// The object without one of its entries.
    pub open spec fn without(self, key: Seq<char>) -> JsonV {
        match self {
            JsonV::Obj(map) => JsonV::Obj(map.remove(key)),
            _ => self,
        }
    }

    /// The value of an entry.
    pub open spec fn get(self, key: Seq<char>) -> Option<JsonV> {
        match self {
            JsonV::Obj(map) => if map.contains_key(key) {
                Some(map[key])
            } else {
                None
            },
            _ => None,
        }
    }

    /// The value of an entry, null where there is none.
    pub open spec fn field(self, key: Seq<char>) -> JsonV {
        match self.get(key) {
            Some(v) => v,
            None => JsonV::Null,
        }
    }

    /// The value of an entry of an entry.
    pub open spec fn at(self, outer: Seq<char>, inner: Seq<char>) -> Option<JsonV> {
        match self.get(outer) {
            Some(v) => v.get(inner),
            None => None,
        }
    }

    /// The text of a text value.
    pub open spec fn as_text(self) -> Option<Seq<char>> {
        match self {
            JsonV::Str(s) => Some(s),
            _ => None,
        }
    }

    /// The text of a text entry.
    pub open spec fn text_at(self, key: Seq<char>) -> Option<Seq<char>> {
        self.field(key).as_text()
    }

    /// The integer of a value that fits an `i64`.
    pub open spec fn as_int(self) -> Option<int> {
        match self {
            JsonV::Int(n) => if i64::MIN <= n <= i64::MAX {
                Some(n)
            } else {
                None
            },
            _ => None,
        }
    }

    /// The items of a list.
    pub open spec fn as_list(self) -> Option<Seq<JsonV>> {
        match self {
            JsonV::Arr(items) => Some(items),
            _ => None,
        }
    }

    /// The keys of an object, in order.
    pub open spec fn keys(self) -> Seq<Seq<char>> {
        match self {
            JsonV::Obj(map) => order::in_order(map.dom()),
            _ => Seq::empty(),
        }
    }

    /// The value as a scripting language shows it: a text as it is, nothing for
    /// null, and JSON for a list or an object.
    pub open spec fn shown(self) -> Seq<char> {
        match self {
            JsonV::Null => Seq::empty(),
            JsonV::Bool(flag) => if flag {
                "true"@
            } else {
                "false"@
            },
            JsonV::Int(n) => text::decimal_int(n),
            JsonV::Float { text, .. } => text,
            JsonV::Str(s) => s,
            _ => json_text(self),
        }
    }

    /// The entry as a scripting language shows it, nothing where there is none.
    pub open spec fn shown_at(self, key: Seq<char>) -> Seq<char> {
        self.field(key).shown()
    }

    /// The truth of a value as a scripting language has it: everything but
    /// null, `false`, zero and the empty text.
    pub open spec fn truthy(self) -> bool {
        match self {
            JsonV::Null => false,
            JsonV::Bool(flag) => flag,
            JsonV::Int(n) => n != 0,
            JsonV::Float { bits, .. } => bits != 0 && bits != 0x8000_0000_0000_0000,
            JsonV::Str(s) => s.len() > 0,
            JsonV::Arr(_) => true,
            JsonV::Obj(_) => true,
        }
    }
}

impl View for Json {
    type V = JsonV;

    open spec fn view(&self) -> JsonV
        decreases self,
    {
        match self {
            Json::Null => JsonV::Null,
            Json::Bool(flag) => JsonV::Bool(*flag),
            Json::Natural(n) => JsonV::Int(*n as int),
            Json::Negative(n) => JsonV::Int(*n as int),
            Json::Float(d) => JsonV::Float { bits: d.pattern(), text: d.written() },
            Json::Text(s) => JsonV::Str(s@),
            Json::List(items) => JsonV::Arr(list_view(items@)),
            Json::Object(entries) => JsonV::Obj(entries_view(entries@)),
        }
    }
}

/// What a list means after one more item.
pub broadcast proof fn lemma_list_push(items: Seq<Json>, item: Json)
    ensures
        #[trigger] list_view(items.push(item)) == list_view(items).push(item@),
{
    assert(list_view(items.push(item)) =~= list_view(items).push(item@));
}

/// What an empty list means.
pub broadcast proof fn lemma_list_empty(items: Seq<Json>)
    requires
        items.len() == 0,
    ensures
        #[trigger] list_view(items) == Seq::<JsonV>::empty(),
{
    assert(list_view(items) =~= Seq::<JsonV>::empty());
}

/// Copies of the items of a list.
pub fn clone_list(items: &[Json]) -> (copies: Vec<Json>)
    ensures
        list_view(copies@) == list_view(items@),
{
    let mut copies: Vec<Json> = Vec::new();
    let mut i: usize = 0;
    while i < items.len()
        invariant
            i <= items.len(),
            copies.len() == i,
            forall|k: int| 0 <= k < i ==> (#[trigger] copies@[k])@ == items@[k]@,
        decreases items.len() - i,
    {
        copies.push(items[i].clone());
        i += 1;
    }
    assert(list_view(copies@) =~= list_view(items@));
    copies
}

impl Clone for Double {
    fn clone(&self) -> (copy: Self)
        ensures
            copy.pattern() == self.pattern(),
            copy.written() == self.written(),
    {
        Double { bits: self.bits, text: text::owned(self.text.as_str()) }
    }
}

impl Clone for Json {
    fn clone(&self) -> (copy: Self)
        ensures
            copy@ == self@,
        decreases self,
    {
        match self {
            Json::Null => Json::Null,
            Json::Bool(flag) => Json::Bool(*flag),
            Json::Natural(n) => Json::Natural(*n),
            Json::Negative(n) => Json::Negative(*n),
            Json::Float(d) => Json::Float(d.clone()),
            Json::Text(s) => Json::Text(text::owned(s.as_str())),
            Json::List(items) => {
                let mut copies: Vec<Json> = Vec::new();
                let mut i: usize = 0;
                while i < items.len()
                    invariant
                        self matches Json::List(own) && own == items,
                        i <= items.len(),
                        copies.len() == i,
                        forall|k: int| 0 <= k < i ==> (#[trigger] copies@[k])@ == items@[k]@,
                    decreases items.len() - i,
                {
                    copies.push(items[i].clone());
                    i += 1;
                }
                assert(list_view(copies@) =~= list_view(items@));
                Json::List(copies)
            },
            Json::Object(entries) => {
                let mut copies: Vec<(String, Json)> = Vec::new();
                let mut i: usize = 0;
                while i < entries.len()
                    invariant
                        self matches Json::Object(own) && own == entries,
                        i <= entries.len(),
                        copies.len() == i,
                        entries_view(copies@) == entries_view(entries@.take(i as int)),
                    decreases entries.len() - i,
                {
                    let ghost before = copies@;
                    let value = entries[i].1.clone();
                    copies.push((text::owned(entries[i].0.as_str()), value));
                    i += 1;
                    assert(copies@.drop_last() =~= before);
                    assert(entries@.take(i as int).drop_last() =~= entries@.take(i as int - 1));
                }
                assert(entries@.take(entries@.len() as int) =~= entries@);
                Json::Object(copies)
            },
        }
    }
}

/// The keys of entries are those at which some entry stands.
proof fn lemma_entries_keys(entries: Seq<(String, Json)>, key: Seq<char>)
    ensures
        entries_view(entries).contains_key(key) <==> exists|i: int|
            0 <= i < entries.len() && (#[trigger] entries[i]).0@ == key,
    decreases entries.len(),
{
    if entries.len() > 0 {
        lemma_entries_keys(entries.drop_last(), key);
        assert(entries_view(entries) == entries_view(entries.drop_last()).insert(
            entries.last().0@,
            entries.last().1@,
        ));
        assert(entries[entries.len() - 1] == entries.last());
        if entries_view(entries.drop_last()).contains_key(key) {
            let i = choose|i: int|
                0 <= i < entries.len() - 1 && (#[trigger] entries.drop_last()[i]).0@ == key;
            assert(entries[i].0@ == key);
        }
        if exists|i: int| 0 <= i < entries.len() && (#[trigger] entries[i]).0@ == key {
            let i = choose|i: int| 0 <= i < entries.len() && (#[trigger] entries[i]).0@ == key;
            if i < entries.len() - 1 {
                assert(entries.drop_last()[i].0@ == key);
            }
        }
    }
}

/// The last entry of a key is the one that counts.
proof fn lemma_entries_last(entries: Seq<(String, Json)>, i: int)
    requires
        0 <= i < entries.len(),
        forall|k: int| i < k < entries.len() ==> (#[trigger] entries[k]).0@ != entries[i].0@,
    ensures
        entries_view(entries).contains_key(entries[i].0@),
        entries_view(entries)[entries[i].0@] == entries[i].1@,
    decreases entries.len(),
{
    assert(entries_view(entries) == entries_view(entries.drop_last()).insert(
        entries.last().0@,
        entries.last().1@,
    ));
    if i < entries.len() - 1 {
        lemma_entries_last(entries.drop_last(), i);
        assert(entries[entries.len() - 1].0@ != entries[i].0@);
    }
}

impl Json {
    /// The empty object.
    pub fn object() -> (value: Json)
        ensures
            value@ == JsonV::object(),
    {
        let entries: Vec<(String, Json)> = Vec::new();
        assert(entries_view(entries@) =~= Map::empty());
        Json::Object(entries)
    }

    /// A text value.
    pub fn text(content: &str) -> (value: Json)
        ensures
            value@ == JsonV::Str(content@),
    {
        Json::Text(text::owned(content))
    }

    /// An integer value.
    pub fn number(n: i64) -> (value: Json)
        ensures
            value@ == JsonV::Int(n as int),
    {
        if n >= 0 {
            Json::Natural(n as u64)
        } else {
            Json::Negative(n)
        }
    }

    /// A list value.
    pub fn list(items: Vec<Json>) -> (value: Json)
        ensures
            value@ == JsonV::Arr(list_view(items@)),
    {
        Json::List(items)
    }

    /// Sets one entry of an object; any other value stays as it is.
    pub fn put(&mut self, key: &str, value: Json)
        ensures
            final(self)@ == old(self)@.put(key@, value@),
    {
        match self {
            Json::Object(entries) => {
                let ghost before = entries@;
                entries.push((text::owned(key), value));
                assert(entries@.drop_last() =~= before);
            },
            _ => {},
        }
    }

    /// Sets one entry of an object where there is a value for it.
    pub fn put_some(&mut self, key: &str, value: Option<Json>)
        ensures
            final(self)@ == old(self)@.put_some(key@, owned_view(value)),
    {
        match value {
            Some(v) => self.put(key, v),
            None => {},
        }
    }

    /// The object without one of its entries; any other value as it is.
    pub fn without(&self, key: &str) -> (rest: Json)
        ensures
            rest@ == self@.without(key@),
    {
        match self {
            Json::Object(entries) => {
                let mut kept: Vec<(String, Json)> = Vec::new();
                let mut i: usize = 0;
                assert(entries@.take(0) =~= Seq::empty());
                assert(entries_view(kept@) =~= entries_view(entries@.take(0)).remove(key@));
                while i < entries.len()
                    invariant
                        self matches Json::Object(own) && own == entries,
                        i <= entries.len(),
                        entries_view(kept@) == entries_view(entries@.take(i as int)).remove(key@),
                    decreases entries.len() - i,
                {
                    let ghost upto = entries@.take(i as int + 1);
                    let ghost known = entries_view(entries@.take(i as int));
                    assert(upto.drop_last() =~= entries@.take(i as int));
                    assert(upto.last() == entries@[i as int]);
                    let ghost before = kept@;
                    if !text::same(entries[i].0.as_str(), key) {
                        kept.push((text::owned(entries[i].0.as_str()), entries[i].1.clone()));
                        assert(kept@.drop_last() =~= before);
                        assert(kept@.last().0@ == upto.last().0@);
                        assert(kept@.last().1@ == upto.last().1@);
                        assert(entries_view(kept@) == entries_view(before).insert(
                            upto.last().0@,
                            upto.last().1@,
                        ));
                    }
                    assert(entries_view(upto) == known.insert(upto.last().0@, upto.last().1@));
                    assert(entries_view(kept@) =~= entries_view(upto).remove(key@));
                    i += 1;
                }
                assert(entries@.take(entries@.len() as int) =~= entries@);
                Json::Object(kept)
            },
            _ => self.clone(),
        }
    }

    /// The value of an entry.
    pub fn get(&self, key: &str) -> (value: Option<&Json>)
        ensures
            opt_view(value) == self@.get(key@),
    {
        match self {
            Json::Object(entries) => {
                let mut i: usize = entries.len();
                while i > 0
                    invariant
                        self matches Json::Object(own) && own == entries,
                        i <= entries.len(),
                        forall|k: int|
                            i <= k < entries.len() ==> (#[trigger] entries@[k]).0@ != key@,
                    decreases i,
                {
                    i -= 1;
                    if text::same(entries[i].0.as_str(), key) {
                        proof {
                            lemma_entries_last(entries@, i as int);
                        }
                        return Some(&entries[i].1);
                    }
                }
                proof {
                    lemma_entries_keys(entries@, key@);
                }
                None
            },
            _ => None,
        }
    }

    /// The value of an entry of an entry.
    pub fn at(&self, outer: &str, inner: &str) -> (value: Option<&Json>)
        ensures
            opt_view(value) == self@.at(outer@, inner@),
    {
        match self.get(outer) {
            Some(value) => value.get(inner),
            None => None,
        }
    }

    /// The text of a text value.
    pub fn as_text(&self) -> (content: Option<&str>)
        ensures
            opt_text(content) == self@.as_text(),
    {
        match self {
            Json::Text(s) => Some(s.as_str()),
            _ => None,
        }
    }

    /// The text of a text entry.
    pub fn text_at(&self, key: &str) -> (content: Option<&str>)
        ensures
            opt_text(content) == self@.text_at(key@),
    {
        match self.get(key) {
            Some(value) => value.as_text(),
            None => None,
        }
    }

    /// The integer of a value that fits an `i64`.
    pub fn as_int(&self) -> (number: Option<i64>)
        ensures
            match number {
                Some(n) => self@.as_int() == Some(n as int),
                None => self@.as_int() is None,
            },
    {
        match self {
            Json::Natural(n) => if *n <= 0x7fff_ffff_ffff_ffffu64 {
                Some(*n as i64)
            } else {
                None
            },
            Json::Negative(n) => Some(*n),
            _ => None,
        }
    }

    /// The items of a list.
    pub fn as_list(&self) -> (items: Option<&Vec<Json>>)
        ensures
            match items {
                Some(own) => self@.as_list() == Some(list_view(own@)) && (self matches Json::List(
                    l,
                ) && l == own),
                None => self@.as_list() is None,
            },
    {
        match self {
            Json::List(items) => Some(items),
            _ => None,
        }
    }

    /// The items of a list entry.
    pub fn list_at(&self, key: &str) -> (items: Option<&Vec<Json>>)
        ensures
            match items {
                Some(own) => self@.field(key@).as_list() == Some(list_view(own@)),
                None => self@.field(key@).as_list() is None,
            },
    {
        match self.get(key) {
            Some(value) => value.as_list(),
            None => None,
        }
    }

    /// Whether the value is null.
    pub fn is_null(&self) -> (yes: bool)
        ensures
            yes == (self@ == JsonV::Null),
    {
        match self {
            Json::Null => true,
            _ => false,
        }
    }

    /// Whether the value is an object.
    pub fn is_object(&self) -> (yes: bool)
        ensures
            yes == (self@ is Obj),
    {
        match self {
            Json::Object(_) => true,
            _ => false,
        }
    }

    /// The truth of a value as a scripting language has it.
    pub fn truthy(&self) -> (yes: bool)
        ensures
            yes == self@.truthy(),
    {
        match self {
            Json::Null => false,
            Json::Bool(flag) => *flag,
            Json::Natural(n) => *n != 0,
            Json::Negative(n) => *n != 0,
            Json::Float(d) => d.bits() != 0 && d.bits() != 0x8000_0000_0000_0000u64,
            Json::Text(s) => !s.as_str().is_empty(),
            Json::List(_) => true,
            Json::Object(_) => true,
        }
    }

    /// Whether an entry is there and true.
    pub fn truthy_at(&self, key: &str) -> (yes: bool)
        ensures
            yes == self@.field(key@).truthy(),
    {
        match self.get(key) {
            Some(value) => value.truthy(),
            None => false,
        }
    }

    /// The keys of an object, in order.
    pub fn keys(&self) -> (keys: Vec<String>)
        ensures
            order::texts(keys@) == self@.keys(),
    {
        let mut keys: Vec<String> = Vec::new();
        assert(order::texts(keys@) =~= Seq::empty());
        match self {
            Json::Object(entries) => {
                let mut i: usize = 0;
                assert(entries@.take(0) =~= Seq::empty());
                assert(entries_view(entries@.take(0)) =~= Map::empty());
                while i < entries.len()
                    invariant
                        self matches Json::Object(own) && own == entries,
                        i <= entries.len(),
                        order::lists(
                            order::texts(keys@),
                            entries_view(entries@.take(i as int)).dom(),
                        ),
                    decreases entries.len() - i,
                {
                    let ghost upto = entries@.take(i as int + 1);
                    assert(upto.drop_last() =~= entries@.take(i as int));
                    assert(upto.last() == entries@[i as int]);
                    let ghost known = order::texts(keys@);
                    order::insert(&mut keys, entries[i].0.as_str());
                    proof {
                        let own = entries_view(upto.drop_last());
                        let key = upto.last().0@;
                        assert(entries_view(upto) == own.insert(key, upto.last().1@));
                        assert forall|s: Seq<char>| #[trigger]
                            entries_view(upto).dom().contains(s) <==> order::texts(keys@).contains(
                            s,
                        ) by {
                            assert(own.dom().contains(s) <==> known.contains(s));
                        }
                    }
                    i += 1;
                }
                assert(entries@.take(entries@.len() as int) =~= entries@);
                proof {
                    order::lemma_in_order(order::texts(keys@), entries_view(entries@).dom());
                }
            },
            _ => {},
        }
        keys
    }

    /// The value as a scripting language shows it.
    pub fn shown(&self) -> (content: String)
        ensures
            content@ == self@.shown(),
    {
        match self {
            Json::Null => String::new(),
            Json::Bool(flag) => if *flag {
                text::owned("true")
            } else {
                text::owned("false")
            },
            Json::Natural(n) => text::decimal_text(*n),
            Json::Negative(n) => text::signed_text(*n),
            Json::Float(d) => text::owned(d.text()),
            Json::Text(s) => text::owned(s.as_str()),
            _ => write_json(self),
        }
    }

    /// The entry as a scripting language shows it, nothing where there is none.
    pub fn shown_at(&self, key: &str) -> (content: String)
        ensures
            content@ == self@.shown_at(key@),
    {
        match self.get(key) {
            Some(value) => value.shown(),
            None => String::new(),
        }
    }

    /// A copy of an entry, null where there is none.
    pub fn field(&self, key: &str) -> (value: Json)
        ensures
            value@ == self@.field(key@),
    {
        match self.get(key) {
            Some(value) => value.clone(),
            None => Json::Null,
        }
    }
}

/// `serde_json::Value`, a tree of values.
#[verifier::external_type_specification]
#[verifier::external_body]
pub struct ExternalValue(serde_json::Value);

/// The value that a `serde_json::Value` holds.
pub uninterp spec fn held_json(value: serde_json::Value) -> JsonV;

/// `serde_json::Value`, variant by variant, as the library's own value. The
/// three kinds of a `serde_json::Number` are told apart by `as_u64`, `as_i64`
/// and `as_f64`.
#[verifier::external_body]
fn from_value(value: serde_json::Value) -> (own: Json)
    ensures
        own@ == held_json(value),
{
    match value {
        Value::Null => Json::Null,
        Value::Bool(b) => Json::Bool(b),
        Value::String(s) => Json::Text(s),
        Value::Number(n) => match (n.as_u64(), n.as_i64()) {
            (Some(u), _) => Json::Natural(u),
            (None, Some(i)) => Json::Negative(i),
            _ => Json::Float(Double { bits: n.as_f64().unwrap_or_default().to_bits(), text: n.to_string() }),
        },
        Value::Array(a) => Json::List(a.into_iter().map(from_value).collect()),
        Value::Object(m) => Json::Object(m.into_iter().map(|(k, v)| (k, from_value(v))).collect()),
    }
}

/// The library's own value, variant by variant, as a `serde_json::Value`. Where
/// a key stands twice, the later entry stays in the `serde_json::Map`.
#[verifier::external_body]
fn to_value(own: &Json) -> (value: serde_json::Value)
    ensures
        held_json(value) == own@,
{
    match own {
        Json::Null => Value::Null,
        Json::Bool(b) => Value::Bool(*b),
        Json::Natural(n) => Value::from(*n),
        Json::Negative(n) => Value::from(*n),
        Json::Float(d) => d.text.parse().ok().and_then(serde_json::Number::from_f64).into(),
        Json::Text(s) => Value::String(s.clone()),
        Json::List(a) => Value::Array(a.iter().map(to_value).collect()),
        Json::Object(m) => Value::Object(m.iter().map(|(k, v)| (k.clone(), to_value(v))).collect()),
    }
}

/// The bit pattern of the finite double-precision number that a text writes.
pub uninterp spec fn parsed_double(text: Seq<char>) -> Option<u64>;

/// `str::parse` for a double-precision number, kept by
/// `serde_json::Number::from_f64`, which takes finite numbers only: the number,
/// or nothing where the text writes no finite one. It depends on the text alone.
#[verifier::external_body]
pub(crate) fn parse_double(source: &str) -> (value: Option<Double>)
    ensures
        match value {
            Some(d) => parsed_double(source@) == Some(d.pattern()) && d.written() == double_text(
                d.pattern(),
            ),
            None => parsed_double(source@) is None,
        },
{
    let number = source.parse().ok().and_then(serde_json::Number::from_f64)?;
    let bits = number.as_f64()?.to_bits();
    Some(Double { bits, text: number.to_string() })
}

/// The decimal text that `serde_json` writes for a finite double-precision number
/// with this bit pattern.
pub uninterp spec fn double_text(bits: u64) -> Seq<char>;

/// The bit pattern of the double-precision number that a value is read as.
pub uninterp spec fn number_bits(value: JsonV) -> Option<u64>;

/// `serde_json::Value::as_f64`, kept by `serde_json::Number::from_f64`: a number
/// as a double-precision one, and nothing for any other value. An integer becomes
/// the nearest one, which up to 2^53 is the integer itself.
#[verifier::external_body]
fn as_double(value: &serde_json::Value) -> (double: Option<Double>)
    ensures
        match double {
            Some(d) => number_bits(held_json(*value)) == Some(d.pattern()) && d.written()
                == double_text(d.pattern()),
            None => number_bits(held_json(*value)) is None,
        },
        double is Some <==> held_json(*value) is Int || held_json(*value) is Float,
        held_json(*value) matches JsonV::Float { bits, .. } ==> double is Some
            && double.unwrap().pattern() == bits,
        held_json(*value) matches JsonV::Int(n) ==> -0x20_0000_0000_0000 <= n
            <= 0x20_0000_0000_0000 ==> double is Some && number::is_whole(
            double.unwrap().pattern(),
            n,
        ),
{
    let number = value.as_f64().and_then(serde_json::Number::from_f64)?;
    let bits = number.as_f64()?.to_bits();
    Some(Double { bits, text: number.to_string() })
}

/// A number as a double-precision one; nothing for any other value.
pub fn to_double(value: &Json) -> (double: Option<Double>)
    ensures
        match double {
            Some(d) => number_bits(value@) == Some(d.pattern()) && d.written() == double_text(
                d.pattern(),
            ),
            None => number_bits(value@) is None,
        },
        double is Some <==> value@ is Int || value@ is Float,
        value@ matches JsonV::Float { bits, .. } ==> double is Some && double.unwrap().pattern()
            == bits,
        value@ matches JsonV::Int(n) ==> -0x20_0000_0000_0000 <= n <= 0x20_0000_0000_0000
            ==> double is Some && number::is_whole(double.unwrap().pattern(), n),
{
    as_double(&to_value(value))
}

/// A number with this bit pattern as a value: an integer where it is a whole one
/// that is not too large, null where it is not finite.
pub open spec fn number_value(bits: u64) -> JsonV {
    if !number::is_finite(bits) {
        JsonV::Null
    } else if number::floor_of(bits) == number::ceil_of(bits) && -LARGEST_WHOLE
        < number::floor_of(bits) < LARGEST_WHOLE {
        JsonV::Int(number::floor_of(bits))
    } else {
        JsonV::Float { bits, text: double_text(bits) }
    }
}

/// Whole numbers from here on are not shown as integers.
pub const LARGEST_WHOLE: i64 = 9_000_000_000_000_000;

/// `serde_json::Number::from_f64` on the number with this bit pattern, which
/// `bytes::Buf::get_f64` reads from its eight bytes: the number, and nothing where
/// it is not finite.
#[verifier::external_body]
fn double_of(bits: u64) -> (double: Option<Double>)
    ensures
        double is Some <==> number::is_finite(bits),
        double matches Some(d) ==> d.pattern() == bits && d.written() == double_text(bits),
{
    let number = serde_json::Number::from_f64(bytes::Buf::get_f64(&mut &bits.to_be_bytes()[..]))?;
    Some(Double { bits, text: number.to_string() })
}

/// A number with this bit pattern as a value.
pub fn number_json(bits: u64) -> (value: Json)
    ensures
        value@ == number_value(bits),
{
    let double = match double_of(bits) {
        Some(double) => double,
        None => return Json::Null,
    };
    let floor: i64 = number::floor_i64(bits);
    if floor == number::ceil_i64(bits) && -LARGEST_WHOLE < floor && floor < LARGEST_WHOLE {
        Json::number(floor)
    } else {
        Json::Float(double)
    }
}

/// A double-precision number as people read it.
pub uninterp spec fn double_shown(bits: u64) -> Seq<char>;

/// `std`'s `Display` of a double-precision number: plain decimals without an
/// exponent, and none for a whole number. It depends on the number alone.
#[verifier::external_body]
pub(crate) fn show_double(double: &Double) -> (shown: String)
    ensures
        shown@ == double_shown(double.pattern()),
{
    let number = double.text.parse().ok().and_then(serde_json::Number::from_f64);
    number.and_then(|number| number.as_f64()).map(|value| value.to_string()).unwrap_or_default()
}

/// The bit pattern of the number that a value is, or that its text writes.
pub open spec fn read_number(value: JsonV) -> Option<u64> {
    match value {
        JsonV::Str(s) => parsed_double(text::trimmed(s)),
        _ => number_bits(value),
    }
}

/// The number that a value is, or that its text writes.
pub fn number_in(value: &Json) -> (double: Option<Double>)
    ensures
        match double {
            Some(d) => read_number(value@) == Some(d.pattern()) && d.written() == double_text(
                d.pattern(),
            ),
            None => read_number(value@) is None,
        },
        value@ matches JsonV::Int(n) ==> -0x20_0000_0000_0000 <= n <= 0x20_0000_0000_0000
            ==> double is Some && number::is_whole(double.unwrap().pattern(), n),
{
    match value {
        Json::Text(s) => parse_double(text::trim(s.as_str())),
        _ => to_double(value),
    }
}

/// What `serde_json` reads from a text.
pub uninterp spec fn parsed_json(text: Seq<char>) -> Option<JsonV>;

/// `serde_json::from_str` into a `serde_json::Value`: the value, or nothing
/// where the text is not one JSON value. It depends on the text alone.
#[verifier::external_body]
fn value_of_text(source: &str) -> (value: Option<serde_json::Value>)
    ensures
        match value {
            Some(v) => parsed_json(source@) == Some(held_json(v)),
            None => parsed_json(source@) is None,
        },
{
    serde_json::from_str(source).ok()
}

/// The JSON value that a text writes, or nothing where it writes none.
pub fn parse_json(source: &str) -> (value: Option<Json>)
    ensures
        owned_view(value) == parsed_json(source@),
{
    match value_of_text(source) {
        Some(value) => Some(from_value(value)),
        None => None,
    }
}

/// What `serde_json` reads from bytes.
pub uninterp spec fn parsed_json_bytes(bytes: Seq<u8>) -> Option<JsonV>;

/// `serde_json::from_slice` into a `serde_json::Value`: the value, or nothing
/// where the bytes are not one JSON value. It depends on the bytes alone.
#[verifier::external_body]
fn value_of_bytes(source: &[u8]) -> (value: Option<serde_json::Value>)
    ensures
        match value {
            Some(v) => parsed_json_bytes(source@) == Some(held_json(v)),
            None => parsed_json_bytes(source@) is None,
        },
{
    serde_json::from_slice(source).ok()
}

/// The JSON value that bytes write, or nothing where they write none.
pub fn parse_json_bytes(source: &[u8]) -> (value: Option<Json>)
    ensures
        owned_view(value) == parsed_json_bytes(source@),
{
    match value_of_bytes(source) {
        Some(value) => Some(from_value(value)),
        None => None,
    }
}

/// The text that `serde_json` writes for a value.
pub uninterp spec fn json_text(value: JsonV) -> Seq<char>;

/// `serde_json::Value::to_string`: compact text with the keys of an object in
/// order. It depends on the value alone.
#[verifier::external_body]
fn text_of_value(value: &serde_json::Value) -> (written: String)
    ensures
        written@ == json_text(held_json(*value)),
{
    value.to_string()
}

/// The text that `serde_json` writes for a value, laid out for people, or why it
/// cannot.
pub uninterp spec fn pretty_text(value: JsonV) -> Result<Seq<char>, Seq<char>>;

/// What a text or a reason means.
pub open spec fn text_view(outcome: Result<String, String>) -> Result<Seq<char>, Seq<char>> {
    match outcome {
        Ok(written) => Ok(written@),
        Err(reason) => Err(reason@),
    }
}

/// `serde_json::to_string_pretty`: the value with a line for every entry, or the
/// message of the error. It depends on the value alone.
#[verifier::external_body]
fn pretty_of_value(value: &serde_json::Value) -> (written: Result<String, String>)
    ensures
        text_view(written) == pretty_text(held_json(*value)),
{
    serde_json::to_string_pretty(value).map_err(|error| error.to_string())
}

/// The JSON text of a value, laid out for people, or why it cannot be written.
pub fn write_pretty(value: &Json) -> (written: Result<String, String>)
    ensures
        text_view(written) == pretty_text(value@),
{
    pretty_of_value(&to_value(value))
}

/// The compact JSON text of a value.
pub fn write_json(value: &Json) -> (written: String)
    ensures
        written@ == json_text(value@),
{
    text_of_value(&to_value(value))
}

} // verus!
