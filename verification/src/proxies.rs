//! The proxy of an account: from what was entered to what can be used.
use crate::json;
use crate::json::{Json, JsonV};
use crate::number;
use crate::text;
use vstd::prelude::*;
use vstd::string::*;
use vstd::utf8::*;

verus! {

/// The uid that stands for the mixed port.
pub const CLASH_MIXED_UID: &'static str = "__mixed__";

/// The longest host.
pub const MAX_HOST_LENGTH: usize = 255;

/// The longest user name or password.
pub const MAX_USER_LENGTH: usize = 200;

/// The longest label.
pub const MAX_LABEL_LENGTH: usize = 100;

/// A proxy that was entered wrong.
#[derive(Debug)]
pub struct ProxyConfigError {
    pub message: String,
    pub status_code: i32,
}

impl ProxyConfigError {
    /// An error that blames the request.
    pub fn new(message: &str) -> (error: Self)
        ensures
            error.message@ == message@,
            error.status_code == 400,
    {
        ProxyConfigError { message: text::owned(message), status_code: 400 }
    }
}

/// A text without white space around it, cut short; anything else is empty.
pub open spec fn cleaned(value: JsonV, max: int) -> Seq<char> {
    match value {
        JsonV::Str(s) => text::first_chars(text::trimmed(s), max),
        _ => Seq::empty(),
    }
}

/// A text without white space around it, cut short; anything else is empty.
fn clean_string(input: &Json, key: &str, max: usize) -> (content: String)
    ensures
        content@ == cleaned(input@.field(key@), max as int),
{
    match input.text_at(key) {
        Some(s) => text::owned(text::take_chars(text::trim(s), max)),
        None => String::new(),
    }
}

/// Whether a value is a port: a whole number from 1 to 65535, as a number or as
/// a text.
pub open spec fn is_port(value: JsonV, n: int) -> bool {
    &&& 1 <= n <= 65535
    &&& match value {
        JsonV::Int(m) => m == n,
        JsonV::Float { bits, .. } => number::is_small_whole(bits, n),
        JsonV::Str(s) => json::parsed_double(text::trimmed(s)) is Some && number::is_small_whole(
            json::parsed_double(text::trimmed(s)).unwrap(),
            n,
        ),
        _ => false,
    }
}

/// Whether an optional number is the port that a value holds, and nothing only
/// where it holds none.
pub open spec fn port_in(value: JsonV, port: Option<u16>) -> bool {
    match port {
        Some(n) => is_port(value, n as int),
        None => forall|n: int| !#[trigger] is_port(value, n),
    }
}

/// The port that a value holds.
fn valid_port(value: Option<&Json>) -> (port: Option<u16>)
    ensures
        port_in(
            match json::opt_view(value) {
                Some(v) => v,
                None => JsonV::Null,
            },
            port,
        ),
{
    match value {
        Some(value) => match value {
            Json::Natural(n) => if 1 <= *n && *n <= 65535 {
                Some(*n as u16)
            } else {
                None
            },
            Json::Negative(n) => if 1 <= *n && *n <= 65535 {
                Some(*n as u16)
            } else {
                None
            },
            Json::Float(d) => number::small_whole(d.bits()),
            Json::Text(s) => match json::parse_double(text::trim(s.as_str())) {
                Some(d) => number::small_whole(d.bits()),
                None => None,
            },
            _ => None,
        },
        None => None,
    }
}

/// A value holds at most one port.
pub proof fn ports_are_unique(value: JsonV, a: int, b: int)
    requires
        is_port(value, a),
        is_port(value, b),
    ensures
        a == b,
{
    match value {
        JsonV::Float { bits, .. } => {
            lemma_whole_unique(bits, a, b);
        },
        JsonV::Str(s) => {
            lemma_whole_unique(json::parsed_double(text::trimmed(s)).unwrap(), a, b);
        },
        _ => {},
    }
}

proof fn lemma_whole_unique(bits: u64, a: int, b: int)
    requires
        number::is_small_whole(bits, a),
        number::is_small_whole(bits, b),
    ensures
        a == b,
{
    let unit = vstd::arithmetic::power2::pow2((1075 - number::exponent_of(bits)) as nat);
    vstd::arithmetic::power2::lemma_pow2_pos((1075 - number::exponent_of(bits)) as nat);
    assert(a == b) by (nonlinear_arith)
        requires
            a * unit == b * unit,
            unit > 0,
    ;
}

/// Whether an entry is a text that is not blank.
pub open spec fn is_given(input: JsonV, key: Seq<char>) -> bool {
    match input.text_at(key) {
        Some(s) => text::trimmed(s).len() > 0,
        None => false,
    }
}

/// Whether an entry is a text that is not blank.
fn given(input: &Json, key: &str) -> (yes: bool)
    ensures
        yes == is_given(input@, key@),
{
    match input.text_at(key) {
        Some(s) => !text::trim(s).is_empty(),
        None => false,
    }
}

/// Where a proxy comes from: what it says, else what its entries tell.
pub open spec fn source_of(input: JsonV) -> Seq<char> {
    let explicit = text::lowercase(cleaned(input.field("source"@), 20));
    if explicit.len() > 0 {
        explicit
    } else if is_given(input, "listenerUid"@) {
        "clash"@
    } else if is_given(input, "host"@) {
        "custom"@
    } else {
        Seq::empty()
    }
}

/// The protocol of a proxy.
pub open spec fn protocol_of(input: JsonV) -> Seq<char> {
    let own = text::lowercase(cleaned(input.field("protocol"@), 10));
    if own.len() == 0 {
        "http"@
    } else {
        own
    }
}

/// The address of a proxy.
pub open spec fn address(protocol: Seq<char>, host: Seq<char>, port: Seq<char>) -> Seq<char> {
    protocol + "://"@ + host + ":"@ + port
}

/// A proxy of its own, brought into form.
pub open spec fn custom_form(input: JsonV, port: int) -> JsonV {
    let host = cleaned(input.field("host"@), MAX_HOST_LENGTH as int);
    let own = cleaned(input.field("label"@), MAX_LABEL_LENGTH as int);
    let label = if own.len() == 0 {
        address(protocol_of(input), host, text::decimal(port as nat))
    } else {
        own
    };
    JsonV::object().put("source"@, JsonV::Str("custom"@)).put(
        "protocol"@,
        JsonV::Str(protocol_of(input)),
    ).put("host"@, JsonV::Str(host)).put("port"@, JsonV::Int(port)).put(
        "username"@,
        JsonV::Str(cleaned(input.field("username"@), MAX_USER_LENGTH as int)),
    ).put("password"@, JsonV::Str(cleaned(input.field("password"@), MAX_USER_LENGTH as int))).put(
        "label"@,
        JsonV::Str(label),
    )
}

/// What comes of a proxy that was entered: nothing, the proxy in its form, or
/// why it is wrong.
pub open spec fn normalized(
    input: JsonV,
    outcome: Result<Option<JsonV>, Seq<char>>,
) -> bool {
    if input == JsonV::Null || input == JsonV::Str(Seq::empty()) {
        outcome == Ok::<Option<JsonV>, Seq<char>>(None)
    } else if !(input is Obj) {
        outcome == Err::<Option<JsonV>, Seq<char>>("代理配置必须是对象或 null"@)
    } else if source_of(input).len() == 0 {
        outcome == Err::<Option<JsonV>, Seq<char>>("代理配置缺少 source（clash / custom）"@)
    } else if source_of(input) == "clash"@ {
        let uid = cleaned(input.field("listenerUid"@), MAX_LABEL_LENGTH as int);
        if uid.len() == 0 {
            outcome == Err::<Option<JsonV>, Seq<char>>("缺少 Clash 监听器 uid"@)
        } else {
            outcome == Ok::<Option<JsonV>, Seq<char>>(
                Some(
                    JsonV::object().put("source"@, JsonV::Str("clash"@)).put(
                        "listenerUid"@,
                        JsonV::Str(uid),
                    ),
                ),
            )
        }
    } else if source_of(input) != "custom"@ {
        outcome == Err::<Option<JsonV>, Seq<char>>("不支持的代理来源: "@ + source_of(input))
    } else if protocol_of(input) != "http"@ && protocol_of(input) != "socks5"@ {
        outcome == Err::<Option<JsonV>, Seq<char>>("代理协议只支持 http 或 socks5"@)
    } else if cleaned(input.field("host"@), MAX_HOST_LENGTH as int).len() == 0 {
        outcome == Err::<Option<JsonV>, Seq<char>>("缺少代理主机地址"@)
    } else {
        match outcome {
            Ok(Some(v)) => exists|n: int|
                is_port(input.field("port"@), n) && v == #[trigger] custom_form(input, n),
            Ok(None) => false,
            Err(message) => (forall|n: int| !#[trigger] is_port(input.field("port"@), n))
                && message == "代理端口必须是 1-65535 的整数"@,
        }
    }
}

/// What the outcome of bringing a proxy into form means.
pub open spec fn form_view(outcome: Result<Option<Json>, ProxyConfigError>) -> Result<
    Option<JsonV>,
    Seq<char>,
> {
    match outcome {
        Ok(value) => Ok(json::owned_view(value)),
        Err(error) => Err(error.message@),
    }
}

/// A proxy of its own, brought into form.
fn make_custom(input: &Json, protocol: &str, host: &str, port: u16) -> (form: Json)
    requires
        protocol@ == protocol_of(input@),
        host@ == cleaned(input@.field("host"@), MAX_HOST_LENGTH as int),
    ensures
        form@ == custom_form(input@, port as int),
{
    let own = clean_string(input, "label", MAX_LABEL_LENGTH);
    let label = if own.as_str().is_empty() {
        let mut made = text::owned(protocol);
        made.append("://");
        made.append(host);
        made.append(":");
        made.append(text::decimal_text(port as u64).as_str());
        made
    } else {
        own
    };
    let mut form = Json::object();
    form.put("source", Json::text("custom"));
    form.put("protocol", Json::text(protocol));
    form.put("host", Json::text(host));
    form.put("port", Json::number(port as i64));
    form.put("username", Json::Text(clean_string(input, "username", MAX_USER_LENGTH)));
    form.put("password", Json::Text(clean_string(input, "password", MAX_USER_LENGTH)));
    form.put("label", Json::Text(label));
    form
}

/// Brings a proxy that was entered into its form. Nothing is no proxy.
pub fn normalize_account_proxy(input: &Json) -> (outcome: Result<Option<Json>, ProxyConfigError>)
    ensures
        normalized(input@, form_view(outcome)),
        outcome is Err ==> outcome->Err_0.status_code == 400,
{
    let blank = match input {
        Json::Null => true,
        Json::Text(s) => {
            proof {
                if s@.len() == 0 {
                    assert(s@ =~= Seq::empty());
                }
            }
            s.as_str().is_empty()
        },
        _ => false,
    };
    if blank {
        return Ok(None);
    }
    if !input.is_object() {
        return Err(ProxyConfigError::new("代理配置必须是对象或 null"));
    }
    let explicit = text::to_lowercase(clean_string(input, "source", 20).as_str());
    let source = if !explicit.as_str().is_empty() {
        explicit
    } else if given(input, "listenerUid") {
        text::owned("clash")
    } else if given(input, "host") {
        text::owned("custom")
    } else {
        String::new()
    };
    if source.as_str().is_empty() {
        return Err(ProxyConfigError::new("代理配置缺少 source（clash / custom）"));
    }
    if text::same(source.as_str(), "clash") {
        let uid = clean_string(input, "listenerUid", MAX_LABEL_LENGTH);
        if uid.as_str().is_empty() {
            return Err(ProxyConfigError::new("缺少 Clash 监听器 uid"));
        }
        let mut form = Json::object();
        form.put("source", Json::text("clash"));
        form.put("listenerUid", Json::Text(uid));
        return Ok(Some(form));
    }
    if !text::same(source.as_str(), "custom") {
        let mut message = text::owned("不支持的代理来源: ");
        message.append(source.as_str());
        return Err(ProxyConfigError::new(message.as_str()));
    }
    let own = text::to_lowercase(clean_string(input, "protocol", 10).as_str());
    let protocol = if own.as_str().is_empty() {
        text::owned("http")
    } else {
        own
    };
    if !text::same(protocol.as_str(), "http") && !text::same(protocol.as_str(), "socks5") {
        return Err(ProxyConfigError::new("代理协议只支持 http 或 socks5"));
    }
    let host = clean_string(input, "host", MAX_HOST_LENGTH);
    if host.as_str().is_empty() {
        return Err(ProxyConfigError::new("缺少代理主机地址"));
    }
    let port = match valid_port(input.get("port")) {
        Some(port) => port,
        None => return Err(ProxyConfigError::new("代理端口必须是 1-65535 的整数")),
    };
    let form = make_custom(input, protocol.as_str(), host.as_str(), port);
    assert(form@ == custom_form(input@, port as int));
    Ok(Some(form))
}

/// A proxy that can be used.
#[derive(Debug)]
pub struct ResolvedProxy {
    pub source: String,
    pub protocol: String,
    pub host: String,
    /// Nothing where the record holds no port.
    pub port: Option<u16>,
    pub username: String,
    pub password: String,
    pub label: String,
}

/// What a proxy means.
#[verifier::ext_equal]
pub ghost struct ProxyV {
    pub source: Seq<char>,
    pub protocol: Seq<char>,
    pub host: Seq<char>,
    pub port: Option<u16>,
    pub username: Seq<char>,
    pub password: Seq<char>,
    pub label: Seq<char>,
}

impl View for ResolvedProxy {
    type V = ProxyV;

    open spec fn view(&self) -> ProxyV {
        ProxyV {
            source: self.source@,
            protocol: self.protocol@,
            host: self.host@,
            port: self.port,
            username: self.username@,
            password: self.password@,
            label: self.label@,
        }
    }
}

impl Clone for ResolvedProxy {
    fn clone(&self) -> (copy: Self)
        ensures
            copy@ == self@,
    {
        ResolvedProxy {
            source: text::owned(self.source.as_str()),
            protocol: text::owned(self.protocol.as_str()),
            host: text::owned(self.host.as_str()),
            port: self.port,
            username: text::owned(self.username.as_str()),
            password: text::owned(self.password.as_str()),
            label: text::owned(self.label.as_str()),
        }
    }
}

/// A port as a value, null for none.
pub open spec fn port_value(port: Option<u16>) -> JsonV {
    match port {
        Some(n) => JsonV::Int(n as int),
        None => JsonV::Null,
    }
}

/// The text of an entry, empty where it has none.
pub open spec fn entry(value: JsonV, key: Seq<char>) -> Seq<char> {
    match value.text_at(key) {
        Some(s) => s,
        None => Seq::empty(),
    }
}

/// The text of an entry, empty where it has none.
fn entry_of(value: &Json, key: &str) -> (content: String)
    ensures
        content@ == entry(value@, key@),
{
    match value.text_at(key) {
        Some(s) => text::owned(s),
        None => String::new(),
    }
}

/// Whether an outcome is what a stored proxy gives: nothing for null, the proxy,
/// or why it is broken.
pub open spec fn stored(value: JsonV, outcome: Result<Option<ProxyV>, Seq<char>>) -> bool {
    if value == JsonV::Null {
        outcome == Ok::<Option<ProxyV>, Seq<char>>(None)
    } else if entry(value, "host"@).len() == 0 {
        outcome == Err::<Option<ProxyV>, Seq<char>>("代理配置缺少主机地址"@)
    } else {
        match outcome {
            Ok(Some(p)) => p.port is Some && is_port(value.field("port"@), p.port.unwrap() as int)
                && p == (ProxyV {
                source: entry(value, "source"@),
                protocol: if entry(value, "protocol"@).len() == 0 {
                    "http"@
                } else {
                    entry(value, "protocol"@)
                },
                host: entry(value, "host"@),
                port: p.port,
                username: entry(value, "username"@),
                password: entry(value, "password"@),
                label: entry(value, "label"@),
            }),
            Ok(None) => false,
            Err(message) => (forall|n: int| !#[trigger] is_port(value.field("port"@), n))
                && message == "代理端口必须是 1-65535 的整数"@,
        }
    }
}

/// What an outcome of reading a stored proxy means.
pub open spec fn stored_view(outcome: Result<Option<ResolvedProxy>, String>) -> Result<
    Option<ProxyV>,
    Seq<char>,
> {
    match outcome {
        Ok(Some(p)) => Ok(Some(p@)),
        Ok(None) => Ok(None),
        Err(message) => Err(message@),
    }
}

impl ResolvedProxy {
    /// The port as a value, null for none.
    pub fn port_json(&self) -> (value: Json)
        ensures
            value@ == port_value(self@.port),
    {
        match self.port {
            Some(n) => Json::number(n as i64),
            None => Json::Null,
        }
    }

    /// Reads a stored proxy: nothing for null, the proxy, or why it is broken. A
    /// broken one is not the same as none.
    pub fn from_json(value: &Json) -> (outcome: Result<Option<Self>, String>)
        ensures
            stored(value@, stored_view(outcome)),
    {
        if value.is_null() {
            return Ok(None);
        }
        let host = entry_of(value, "host");
        if host.as_str().is_empty() {
            return Err(text::owned("代理配置缺少主机地址"));
        }
        let port = match valid_port(value.get("port")) {
            Some(port) => port,
            None => return Err(text::owned("代理端口必须是 1-65535 的整数")),
        };
        let own = entry_of(value, "protocol");
        let protocol = if own.as_str().is_empty() {
            text::owned("http")
        } else {
            own
        };
        Ok(
            Some(
                ResolvedProxy {
                    source: entry_of(value, "source"),
                    protocol,
                    host,
                    port: Some(port),
                    username: entry_of(value, "username"),
                    password: entry_of(value, "password"),
                    label: entry_of(value, "label"),
                },
            ),
        )
    }
}

/// The proxy of a session, and why it cannot be used where it cannot. Without a
/// proxy the session goes out directly.
pub fn session_proxy(session: &Json) -> (outcome: (Option<ResolvedProxy>, Option<String>))
    ensures
        match outcome.1 {
            Some(reason) => outcome.0 is None && stored(
                session@.field("proxy"@),
                Err::<Option<ProxyV>, Seq<char>>(reason@),
            ),
            None => stored(
                session@.field("proxy"@),
                Ok::<Option<ProxyV>, Seq<char>>(
                    match outcome.0 {
                        Some(p) => Some(p@),
                        None => None,
                    },
                ),
            ),
        },
{
    match ResolvedProxy::from_json(&session.field("proxy")) {
        Ok(proxy) => (proxy, None),
        Err(reason) => (None, Some(reason)),
    }
}

/// One item of a list as a scripting language joins it.
pub open spec fn joined_item(item: JsonV) -> Seq<char> {
    match item {
        JsonV::Null => Seq::empty(),
        JsonV::Str(s) => s,
        _ => json::json_text(item),
    }
}

/// A list as a scripting language joins it.
pub open spec fn joined_items(items: Seq<JsonV>) -> Seq<char>
    decreases items.len(),
{
    if items.len() == 0 {
        Seq::empty()
    } else if items.len() == 1 {
        joined_item(items[0])
    } else {
        joined_items(items.drop_last()) + ","@ + joined_item(items.last())
    }
}

/// A value as a scripting language puts it into a text.
pub open spec fn interpolated(value: Option<JsonV>) -> Seq<char> {
    match value {
        None => "undefined"@,
        Some(JsonV::Null) => "null"@,
        Some(JsonV::Obj(_)) => "[object Object]"@,
        Some(JsonV::Arr(items)) => joined_items(items),
        Some(v) => v.shown(),
    }
}

/// A list as a scripting language joins it.
fn join_items(items: &Vec<Json>) -> (joined: String)
    ensures
        joined@ == joined_items(json::list_view(items@)),
{
    let ghost all = json::list_view(items@);
    let mut joined = String::new();
    let mut i: usize = 0;
    assert(all.take(0) =~= Seq::empty());
    while i < items.len()
        invariant
            all == json::list_view(items@),
            i <= items.len(),
            joined@ == joined_items(all.take(i as int)),
        decreases items.len() - i,
    {
        let ghost upto = all.take(i as int + 1);
        assert(upto.drop_last() =~= all.take(i as int));
        assert(upto.last() == items@[i as int]@);
        assert(upto[0] == all[0]);
        if i > 0 {
            joined.append(",");
        }
        let piece = match &items[i] {
            Json::Null => String::new(),
            Json::Text(s) => text::owned(s.as_str()),
            other => json::write_json(other),
        };
        joined.append(piece.as_str());
        assert(joined@ =~= joined_items(upto));
        i += 1;
    }
    assert(all.take(all.len() as int) =~= all);
    joined
}

/// A value as a scripting language puts it into a text.
fn js_interpolation(value: Option<&Json>) -> (content: String)
    ensures
        content@ == interpolated(json::opt_view(value)),
{
    match value {
        None => text::owned("undefined"),
        Some(value) => match value {
            Json::Null => text::owned("null"),
            Json::Object(_) => text::owned("[object Object]"),
            Json::List(items) => join_items(items),
            _ => value.shown(),
        },
    }
}

/// A listener of the local proxy program.
#[derive(Debug)]
pub struct ClashListener {
    pub uid: String,
    pub name: String,
    pub port: u16,
    pub enabled: bool,
}

/// What the local proxy program offers at a moment.
#[derive(Debug)]
pub struct ClashSnapshot {
    pub available: bool,
    pub error: Option<String>,
    pub mixed_port: Option<u16>,
    pub listeners: Vec<ClashListener>,
}

/// What a listener means.
pub ghost struct ListenerV {
    pub uid: Seq<char>,
    pub name: Seq<char>,
    pub port: u16,
    pub enabled: bool,
}

/// What the program's offer means.
pub ghost struct ClashV {
    pub available: bool,
    pub error: Option<Seq<char>>,
    pub mixed_port: Option<u16>,
    pub listeners: Seq<ListenerV>,
}

impl View for ClashListener {
    type V = ListenerV;

    open spec fn view(&self) -> ListenerV {
        ListenerV { uid: self.uid@, name: self.name@, port: self.port, enabled: self.enabled }
    }
}

impl View for ClashSnapshot {
    type V = ClashV;

    open spec fn view(&self) -> ClashV {
        ClashV {
            available: self.available,
            error: json::owned_text(self.error),
            mixed_port: self.mixed_port,
            listeners: self.listeners@.map_values(|l: ClashListener| l@),
        }
    }
}

/// A proxy, or why there is none.
#[derive(Debug)]
pub enum ProxyResolution {
    Resolved(ResolvedProxy),
    Failed(String),
}

/// What a resolution means.
#[verifier::ext_equal]
pub ghost enum ResolutionV {
    Resolved(ProxyV),
    Failed(Seq<char>),
}

impl View for ProxyResolution {
    type V = ResolutionV;

    open spec fn view(&self) -> ResolutionV {
        match self {
            ProxyResolution::Resolved(p) => ResolutionV::Resolved(p@),
            ProxyResolution::Failed(message) => ResolutionV::Failed(message@),
        }
    }
}

/// What an optional resolution means.
pub open spec fn resolution_view(resolution: Option<ProxyResolution>) -> Option<ResolutionV> {
    match resolution {
        Some(r) => Some(r@),
        None => None,
    }
}

impl ProxyResolution {
    /// Why there is no proxy.
    pub fn error(&self) -> (message: Option<&str>)
        ensures
            json::opt_text(message) == match self@ {
                ResolutionV::Failed(m) => Some(m),
                _ => None,
            },
    {
        match self {
            ProxyResolution::Resolved(_) => None,
            ProxyResolution::Failed(message) => Some(message.as_str()),
        }
    }

    /// The proxy.
    pub fn resolved(&self) -> (proxy: Option<&ResolvedProxy>)
        ensures
            match proxy {
                Some(p) => self@ == ResolutionV::Resolved(p@),
                None => self@ is Failed,
            },
    {
        match self {
            ProxyResolution::Resolved(proxy) => Some(proxy),
            ProxyResolution::Failed(_) => None,
        }
    }

    /// The resolution as a value.
    pub fn to_json(&self) -> (value: Json)
        ensures
            value@ == resolution_value(self@),
    {
        let mut value = Json::object();
        match self {
            ProxyResolution::Resolved(proxy) => {
                value.put("source", Json::text(proxy.source.as_str()));
                value.put("protocol", Json::text(proxy.protocol.as_str()));
                value.put("host", Json::text(proxy.host.as_str()));
                value.put("port", proxy.port_json());
                value.put("username", Json::text(proxy.username.as_str()));
                value.put("password", Json::text(proxy.password.as_str()));
                value.put("label", Json::text(proxy.label.as_str()));
            },
            ProxyResolution::Failed(message) => value.put("error", Json::text(message.as_str())),
        }
        value
    }
}

/// A resolution as a value.
pub open spec fn resolution_value(resolution: ResolutionV) -> JsonV {
    match resolution {
        ResolutionV::Resolved(proxy) => JsonV::object().put(
            "source"@,
            JsonV::Str(proxy.source),
        ).put("protocol"@, JsonV::Str(proxy.protocol)).put("host"@, JsonV::Str(proxy.host)).put(
            "port"@,
            port_value(proxy.port),
        ).put("username"@, JsonV::Str(proxy.username)).put(
            "password"@,
            JsonV::Str(proxy.password),
        ).put("label"@, JsonV::Str(proxy.label)),
        ResolutionV::Failed(message) => JsonV::object().put("error"@, JsonV::Str(message)),
    }
}

/// The label of a proxy of its own.
pub open spec fn custom_label(config: JsonV) -> Seq<char> {
    if config.field("label"@).truthy() {
        interpolated(config.get("label"@))
    } else {
        address(
            interpolated(config.get("protocol"@)),
            interpolated(config.get("host"@)),
            interpolated(config.get("port"@)),
        )
    }
}

/// Whether a proxy is what a stored proxy of its own gives.
pub open spec fn custom_resolved(config: JsonV, proxy: ProxyV) -> bool {
    &&& port_in(config.field("port"@), proxy.port)
    &&& proxy == (ProxyV {
        source: "custom"@,
        protocol: if config.text_at("protocol"@) == Some("socks5"@) {
            "socks5"@
        } else {
            "http"@
        },
        host: entry(config, "host"@),
        port: proxy.port,
        username: entry(config, "username"@),
        password: entry(config, "password"@),
        label: custom_label(config),
    })
}

/// A proxy on this machine.
pub open spec fn local_proxy(port: u16, label: Seq<char>) -> ProxyV {
    ProxyV {
        source: "clash"@,
        protocol: "http"@,
        host: "127.0.0.1"@,
        port: Some(port),
        username: Seq::empty(),
        password: Seq::empty(),
        label,
    }
}

/// The first listener of a uid.
pub open spec fn listener_of(listeners: Seq<ListenerV>, uid: Seq<char>) -> Option<ListenerV>
    decreases listeners.len(),
{
    if listeners.len() == 0 {
        None
    } else if listeners[0].uid == uid {
        Some(listeners[0])
    } else {
        listener_of(listeners.skip(1), uid)
    }
}

/// The proxy that the local proxy program gives for a uid.
pub open spec fn clash_resolved(uid: Seq<char>, clash: ClashV) -> ResolutionV {
    if !clash.available {
        ResolutionV::Failed(
            "Clash Verge 配置不可用"@ + (match clash.error {
                Some(e) => "（"@ + e + "）"@,
                None => Seq::empty(),
            }),
        )
    } else if uid == CLASH_MIXED_UID@ {
        match clash.mixed_port {
            Some(port) => ResolutionV::Resolved(
                local_proxy(port, "Clash 混合端口 "@ + text::decimal(port as nat)),
            ),
            None => ResolutionV::Failed("Clash Verge 未启用混合端口"@),
        }
    } else {
        match listener_of(clash.listeners, uid) {
            None => ResolutionV::Failed(
                "Clash Verge 中找不到监听器「"@ + uid + "」（可能已在 Clash 中删除）"@,
            ),
            Some(listener) => if !listener.enabled {
                ResolutionV::Failed("Clash Verge 监听器「"@ + listener.name + "」已禁用"@)
            } else {
                ResolutionV::Resolved(
                    local_proxy(
                        listener.port,
                        listener.name + "（:"@ + text::decimal(listener.port as nat) + "）"@,
                    ),
                )
            },
        }
    }
}

/// Whether an outcome is what a stored proxy of an account comes to.
pub open spec fn resolves_to(
    config: Option<JsonV>,
    clash: ClashV,
    outcome: Option<ResolutionV>,
) -> bool {
    match config {
        None => outcome is None,
        Some(JsonV::Null) => outcome is None,
        Some(v) => if !(v is Obj) {
            outcome == Some(ResolutionV::Failed("不支持的代理来源: undefined"@))
        } else if interpolated(v.get("source"@)) == "custom"@ {
            outcome matches Some(ResolutionV::Resolved(proxy)) && custom_resolved(v, proxy)
        } else if interpolated(v.get("source"@)) != "clash"@ {
            outcome == Some(
                ResolutionV::Failed("不支持的代理来源: "@ + interpolated(v.get("source"@))),
            )
        } else {
            outcome == Some(clash_resolved(entry(v, "listenerUid"@), clash))
        },
    }
}

/// A proxy on this machine.
fn make_local(port: u16, label: String) -> (proxy: ResolvedProxy)
    ensures
        proxy@ == local_proxy(port, label@),
{
    ResolvedProxy {
        source: text::owned("clash"),
        protocol: text::owned("http"),
        host: text::owned("127.0.0.1"),
        port: Some(port),
        username: String::new(),
        password: String::new(),
        label,
    }
}

/// The first listener of a uid.
fn find_listener<'a>(listeners: &'a Vec<ClashListener>, uid: &str) -> (found: Option<
    &'a ClashListener,
>)
    ensures
        match found {
            Some(l) => listener_of(
                listeners@.map_values(|l: ClashListener| l@),
                uid@,
            ) == Some(l@),
            None => listener_of(listeners@.map_values(|l: ClashListener| l@), uid@) is None,
        },
{
    let ghost all = listeners@.map_values(|l: ClashListener| l@);
    let mut i: usize = 0;
    assert(all.skip(0) =~= all);
    while i < listeners.len()
        invariant
            all == listeners@.map_values(|l: ClashListener| l@),
            i <= listeners.len(),
            listener_of(all, uid@) == listener_of(all.skip(i as int), uid@),
        decreases listeners.len() - i,
    {
        assert(all.skip(i as int)[0] == listeners@[i as int]@);
        assert(all.skip(i as int).skip(1) =~= all.skip(i as int + 1));
        if text::same(listeners[i].uid.as_str(), uid) {
            return Some(&listeners[i]);
        }
        i += 1;
    }
    None
}

/// The proxy that the local proxy program gives for a uid.
pub fn resolve_clash(uid: &str, clash: &ClashSnapshot) -> (resolution: ProxyResolution)
    ensures
        resolution@ == clash_resolved(uid@, clash@),
{
    if !clash.available {
        let mut message = text::owned("Clash Verge 配置不可用");
        if let Some(error) = &clash.error {
            message.append("（");
            message.append(error.as_str());
            message.append("）");
        }
        assert(message@ =~= "Clash Verge 配置不可用"@ + (match clash@.error {
            Some(e) => "（"@ + e + "）"@,
            None => Seq::empty(),
        }));
        return ProxyResolution::Failed(message);
    }
    if text::same(uid, CLASH_MIXED_UID) {
        let port = match clash.mixed_port {
            Some(port) => port,
            None => return ProxyResolution::Failed(text::owned("Clash Verge 未启用混合端口")),
        };
        let mut label = text::owned("Clash 混合端口 ");
        label.append(text::decimal_text(port as u64).as_str());
        return ProxyResolution::Resolved(make_local(port, label));
    }
    let listener = match find_listener(&clash.listeners, uid) {
        Some(listener) => listener,
        None => {
            let mut message = text::owned("Clash Verge 中找不到监听器「");
            message.append(uid);
            message.append("」（可能已在 Clash 中删除）");
            return ProxyResolution::Failed(message);
        },
    };
    if !listener.enabled {
        let mut message = text::owned("Clash Verge 监听器「");
        message.append(listener.name.as_str());
        message.append("」已禁用");
        return ProxyResolution::Failed(message);
    }
    let mut label = text::owned(listener.name.as_str());
    label.append("（:");
    label.append(text::decimal_text(listener.port as u64).as_str());
    label.append("）");
    ProxyResolution::Resolved(make_local(listener.port, label))
}

/// The proxy that a stored proxy of its own gives.
fn resolve_custom(config: &Json) -> (proxy: ResolvedProxy)
    ensures
        custom_resolved(config@, proxy@),
{
    let socks = match config.text_at("protocol") {
        Some(s) => text::same(s, "socks5"),
        None => false,
    };
    let protocol = if socks {
        text::owned("socks5")
    } else {
        text::owned("http")
    };
    let label = if config.truthy_at("label") {
        js_interpolation(config.get("label"))
    } else {
        let mut made = js_interpolation(config.get("protocol"));
        made.append("://");
        made.append(js_interpolation(config.get("host")).as_str());
        made.append(":");
        made.append(js_interpolation(config.get("port")).as_str());
        made
    };
    ResolvedProxy {
        source: text::owned("custom"),
        protocol,
        host: entry_of(config, "host"),
        port: valid_port(config.get("port")),
        username: entry_of(config, "username"),
        password: entry_of(config, "password"),
        label,
    }
}

/// What the stored proxy of an account comes to: nothing, a proxy, or why there
/// is none. A record that was edited by hand is taken as it is.
pub fn resolve_account_proxy(config: Option<&Json>, clash: &ClashSnapshot) -> (resolution: Option<
    ProxyResolution,
>)
    ensures
        resolves_to(json::opt_view(config), clash@, resolution_view(resolution)),
{
    let config = match config {
        Some(config) => config,
        None => return None,
    };
    if config.is_null() {
        return None;
    }
    if !config.is_object() {
        return Some(ProxyResolution::Failed(text::owned("不支持的代理来源: undefined")));
    }
    let source = js_interpolation(config.get("source"));
    if text::same(source.as_str(), "custom") {
        return Some(ProxyResolution::Resolved(resolve_custom(config)));
    }
    if !text::same(source.as_str(), "clash") {
        let mut message = text::owned("不支持的代理来源: ");
        message.append(source.as_str());
        return Some(ProxyResolution::Failed(message));
    }
    let uid = entry_of(config, "listenerUid");
    Some(resolve_clash(uid.as_str(), clash))
}

/// How the proxy of an account is shown.
pub open spec fn description(config: JsonV, resolution: ResolutionV) -> JsonV {
    match resolution {
        ResolutionV::Failed(message) => JsonV::object().put(
            "source"@,
            JsonV::Str(entry(config, "source"@)),
        ).put("label"@, JsonV::Str("解析失败"@)).put("error"@, JsonV::Str(message)).put(
            "config"@,
            config,
        ),
        ResolutionV::Resolved(proxy) => JsonV::object().put(
            "source"@,
            JsonV::Str(proxy.source),
        ).put("protocol"@, JsonV::Str(proxy.protocol)).put("host"@, JsonV::Str(proxy.host)).put(
            "port"@,
            port_value(proxy.port),
        ).put("label"@, JsonV::Str(proxy.label)).put("error"@, JsonV::Null).put(
            "config"@,
            config,
        ),
    }
}

/// How the proxy of an account is shown; null for none.
pub fn describe_account_proxy(config: Option<&Json>, clash: &ClashSnapshot) -> (shown: Json)
    ensures
        exists|outcome: Option<ResolutionV>|
            #[trigger] resolves_to(json::opt_view(config), clash@, outcome) && shown@ == (
            match outcome {
                Some(r) => description(json::opt_view(config).unwrap(), r),
                None => JsonV::Null,
            }),
{
    let resolution = resolve_account_proxy(config, clash);
    assert(resolves_to(json::opt_view(config), clash@, resolution_view(resolution)));
    let config = match config {
        Some(config) => config,
        None => return Json::Null,
    };
    let mut shown = Json::object();
    match &resolution {
        None => return Json::Null,
        Some(resolution) => match resolution {
            ProxyResolution::Failed(message) => {
                shown.put("source", Json::Text(entry_of(config, "source")));
                shown.put("label", Json::text("解析失败"));
                shown.put("error", Json::text(message.as_str()));
                shown.put("config", config.clone());
            },
            ProxyResolution::Resolved(proxy) => {
                shown.put("source", Json::text(proxy.source.as_str()));
                shown.put("protocol", Json::text(proxy.protocol.as_str()));
                shown.put("host", Json::text(proxy.host.as_str()));
                shown.put("port", proxy.port_json());
                shown.put("label", Json::text(proxy.label.as_str()));
                shown.put("error", Json::Null);
                shown.put("config", config.clone());
            },
        },
    }
    shown
}

/// The keys of a proxy are seven different ones.
proof fn lemma_keys()
    ensures
        "source"@ != "protocol"@ && "source"@ != "host"@ && "source"@ != "port"@,
        "source"@ != "username"@ && "source"@ != "password"@ && "source"@ != "label"@,
        "protocol"@ != "host"@ && "protocol"@ != "port"@ && "protocol"@ != "username"@,
        "protocol"@ != "password"@ && "protocol"@ != "label"@ && "host"@ != "port"@,
        "host"@ != "username"@ && "host"@ != "password"@ && "host"@ != "label"@,
        "port"@ != "username"@ && "port"@ != "password"@ && "port"@ != "label"@,
        "username"@ != "password"@ && "username"@ != "label"@ && "password"@ != "label"@,
{
    reveal_strlit("source");
    reveal_strlit("protocol");
    reveal_strlit("host");
    reveal_strlit("port");
    reveal_strlit("username");
    reveal_strlit("password");
    reveal_strlit("label");
    assert("source"@.len() == 6 && "protocol"@.len() == 8 && "host"@.len() == 4);
    assert("port"@.len() == 4 && "username"@.len() == 8 && "password"@.len() == 8);
    assert("label"@.len() == 5);
    assert("host"@[0] == 'h' && "port"@[0] == 'p');
    assert("protocol"@[1] == 'r' && "username"@[1] == 's' && "password"@[1] == 'a');
}

/// What has been brought into form can be used: the proxy that comes of it has
/// the same host, port, protocol, user and label, and reading it back from its
/// own record gives it again.
pub proof fn formed_proxies_can_be_used(
    input: JsonV,
    form: JsonV,
    clash: ClashV,
    resolution: ResolutionV,
)
    requires
        normalized(input, Ok(Some(form))),
        form.field("source"@) == JsonV::Str("custom"@),
        resolves_to(Some(form), clash, Some(resolution)),
    ensures
        resolution matches ResolutionV::Resolved(proxy) && {
            &&& proxy.port is Some
            &&& JsonV::Str(proxy.protocol) == form.field("protocol"@)
            &&& JsonV::Str(proxy.host) == form.field("host"@)
            &&& port_value(proxy.port) == form.field("port"@)
            &&& JsonV::Str(proxy.username) == form.field("username"@)
            &&& JsonV::Str(proxy.password) == form.field("password"@)
            &&& JsonV::Str(proxy.label) == form.field("label"@)
            &&& stored(resolution_value(resolution), Ok(Some(proxy)))
        },
{
    lemma_keys();
    reveal_strlit("clash");
    reveal_strlit("custom");
    reveal_strlit("listenerUid");
    reveal_strlit("://");
    assert("clash"@.len() == 5 && "custom"@.len() == 6 && "listenerUid"@.len() == 11);
    assert("://"@.len() == 3);
    assert("http"@ != "socks5"@) by {
        reveal_strlit("http");
        reveal_strlit("socks5");
        assert("http"@.len() == 4 && "socks5"@.len() == 6);
    }
    if source_of(input) == "clash"@ {
        assert(form.field("source"@) == JsonV::Str("clash"@)) by {
            assert("source"@ != "listenerUid"@) by {
                reveal_strlit("source");
                assert("source"@.len() == 6);
            }
        }
        assert(false);
    }
    let n = choose|n: int| is_port(input.field("port"@), n) && form == #[trigger] custom_form(
        input,
        n,
    );
    assert(form.field("port"@) == JsonV::Int(n));
    assert(is_port(form.field("port"@), n));
    assert(form.field("label"@).truthy());
    assert(interpolated(form.get("source"@)) == "custom"@);
    if let ResolutionV::Resolved(proxy) = resolution {
        assert(proxy.port is Some);
        assert(proxy.port.unwrap() == n);
        let value = resolution_value(resolution);
        assert(value.field("port"@) == JsonV::Int(n));
        assert(is_port(value.field("port"@), n));
        assert(value.field("host"@) == JsonV::Str(proxy.host));
        assert(value.field("protocol"@) == JsonV::Str(proxy.protocol));
        assert(value.field("source"@) == JsonV::Str(proxy.source));
    }
}

/// What is written of a proxy is read back as it was: the proxy, where it can be
/// used, and otherwise that it is broken, which is not the same as none. A proxy
/// without a protocol is read back with the usual one.
pub proof fn written_proxies_are_read_back(
    proxy: ProxyV,
    outcome: Result<Option<ProxyV>, Seq<char>>,
)
    requires
        proxy.protocol.len() > 0,
        stored(resolution_value(ResolutionV::Resolved(proxy)), outcome),
    ensures
        if proxy.host.len() > 0 && proxy.port is Some && proxy.port.unwrap() > 0 {
            outcome == Ok::<Option<ProxyV>, Seq<char>>(Some(proxy))
        } else {
            outcome is Err
        },
{
    lemma_keys();
    let value = resolution_value(ResolutionV::Resolved(proxy));
    assert(value.field("port"@) == port_value(proxy.port));
    assert(entry(value, "host"@) == proxy.host);
    assert(entry(value, "source"@) == proxy.source);
    assert(entry(value, "protocol"@) == proxy.protocol);
    assert(entry(value, "username"@) == proxy.username);
    assert(entry(value, "password"@) == proxy.password);
    assert(entry(value, "label"@) == proxy.label);
    if proxy.port is Some && proxy.port.unwrap() > 0 {
        assert(is_port(value.field("port"@), proxy.port.unwrap() as int));
    }
}

/// Whether a text of a proxy that was entered is short enough to stay whole.
pub open spec fn stays_whole(input: JsonV, key: Seq<char>, max: int) -> bool {
    input.text_at(key) matches Some(s) ==> text::trimmed(s).len() <= max
}

/// Whether no text of a proxy that was entered is cut short.
pub open spec fn nothing_is_cut(input: JsonV) -> bool {
    &&& stays_whole(input, "listenerUid"@, MAX_LABEL_LENGTH as int)
    &&& stays_whole(input, "host"@, MAX_HOST_LENGTH as int)
    &&& stays_whole(input, "username"@, MAX_USER_LENGTH as int)
    &&& stays_whole(input, "password"@, MAX_USER_LENGTH as int)
    &&& stays_whole(input, "label"@, MAX_LABEL_LENGTH as int)
}

/// Cleaning a text that was not cut short leaves it as it is.
proof fn lemma_cleaned_again(input: JsonV, key: Seq<char>, max: int)
    requires
        stays_whole(input, key, max),
        0 <= max,
    ensures
        cleaned(JsonV::Str(cleaned(input.field(key), max)), max) == cleaned(input.field(key), max),
{
    let inner = cleaned(input.field(key), max);
    text::lemma_trimmed(inner);
    match input.field(key) {
        JsonV::Str(s) => {
            assert(input.text_at(key) == Some(s));
            text::lemma_trimmed(s);
        },
        _ => {},
    }
}

/// A word in small letters stays as it is.
proof fn lemma_word(word: Seq<char>, max: int)
    requires
        0 < word.len() <= max,
        forall|i: int|
            0 <= i < word.len() ==> 'a' <= #[trigger] word[i] <= 'z' || '0' <= word[i] <= '9',
    ensures
        text::lowercase(cleaned(JsonV::Str(word), max)) == word,
{
    text::lemma_trimmed(word);
    assert(is_ascii_chars(word));
    reveal(text::lowercase);
    assert(text::ascii_lowercase(word) =~= word);
}

proof fn lemma_digits_end(n: nat)
    ensures
        text::decimal(n).len() > 0,
        '0' <= text::decimal(n).last() <= '9',
{
}

/// What has been brought into form stays as it is when it is brought into form
/// again. This is said of proxies of which nothing was cut short, and whose label,
/// where it was made of the address, is no longer than a label may be.
pub proof fn forms_stay_as_they_are(
    input: JsonV,
    form: JsonV,
    again: Result<Option<JsonV>, Seq<char>>,
)
    requires
        normalized(input, Ok::<Option<JsonV>, Seq<char>>(Some(form))),
        nothing_is_cut(input),
        form.text_at("label"@) matches Some(label) ==> label.len() <= MAX_LABEL_LENGTH,
        normalized(form, again),
    ensures
        again == Ok::<Option<JsonV>, Seq<char>>(Some(form)),
{
    lemma_keys();
    reveal_strlit("clash");
    reveal_strlit("custom");
    reveal_strlit("http");
    reveal_strlit("socks5");
    reveal_strlit("listenerUid");
    reveal_strlit("source");
    assert("source"@.len() == 6);
    lemma_word("clash"@, 20);
    lemma_word("custom"@, 20);
    lemma_word("http"@, 10);
    lemma_word("socks5"@, 10);
    lemma_cleaned_again(input, "listenerUid"@, MAX_LABEL_LENGTH as int);
    lemma_cleaned_again(input, "host"@, MAX_HOST_LENGTH as int);
    lemma_cleaned_again(input, "username"@, MAX_USER_LENGTH as int);
    lemma_cleaned_again(input, "password"@, MAX_USER_LENGTH as int);
    lemma_cleaned_again(input, "label"@, MAX_LABEL_LENGTH as int);
    assert("clash"@.len() == 5 && "custom"@.len() == 6 && "listenerUid"@.len() == 11);
    if source_of(input) == "clash"@ {
        assert(form.field("source"@) == JsonV::Str("clash"@));
        assert(source_of(form) == "clash"@);
    } else {
        let n = choose|n: int|
            is_port(input.field("port"@), n) && form == #[trigger] custom_form(input, n);
        assert(form.field("source"@) == JsonV::Str("custom"@));
        assert(source_of(form) == "custom"@);
        assert(form.field("protocol"@) == JsonV::Str(protocol_of(input)));
        assert(protocol_of(form) == protocol_of(input));
        assert(form.field("port"@) == JsonV::Int(n));
        assert(is_port(form.field("port"@), n));
        let own = cleaned(input.field("label"@), MAX_LABEL_LENGTH as int);
        let host = cleaned(input.field("host"@), MAX_HOST_LENGTH as int);
        let made = address(protocol_of(input), host, text::decimal(n as nat));
        let label = if own.len() == 0 {
            made
        } else {
            own
        };
        assert(form.field("label"@) == JsonV::Str(label));
        assert(form.text_at("label"@) == Some(label));
        assert(cleaned(form.field("label"@), MAX_LABEL_LENGTH as int) == label) by {
            if own.len() == 0 {
                lemma_digits_end(n as nat);
                assert(made[0] == protocol_of(input)[0]);
                assert(made.last() == text::decimal(n as nat).last());
                text::lemma_trimmed(made);
            }
        }
        assert(label.len() > 0);
        assert(custom_form(form, n) =~= form);
        assert(again is Ok);
        let m = choose|m: int|
            is_port(form.field("port"@), m) && again->Ok_0->0 == #[trigger] custom_form(form, m);
        assert(m == n);
    }
}

} // verus!
