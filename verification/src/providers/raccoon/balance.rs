//! Raccoon's points: what is left of them, and fetching those of the day.
use super::balance_laws;
use super::credentials::RaccoonCredentials;
use super::jwt;
use super::models;
use crate::errors;
use crate::errors::{ErrorV, GatewayError};
use crate::http::{ApiRequest, ApiResponse, RequestV, ResponseV};
use crate::json;
use crate::json::{Json, JsonV};
use crate::text;
use crate::urls;
use vstd::prelude::*;
use vstd::string::*;
use vstd::utf8::*;

verus! {

/// How long to wait for an answer.
pub const REQUEST_TIMEOUT_MS: u64 = 20000;

/// How long to wait for the bills, which take longer.
pub const GRANT_CHECK_TIMEOUT_MS: u64 = 25000;

/// The site, where none is configured.
pub const DEFAULT_MAIN_SITE_URL: &'static str = "https://xiaohuanxiong.com";

pub const BALANCE_PATH: &'static str = "/api/web/points/v1/balance";
pub const ENTITLEMENT_PATH: &'static str = "/api/web/auth/v1/entitlement_info";
pub const DESKTOP_GRANT_PATH: &'static str = "/api/web/desktop/v1/login/points/grant";
pub const SETTINGS_PATH: &'static str = "/api/web/office/v3/setting_info";
pub const BILLS_PATH: &'static str = "/api/web/points/v1/bills?paging.limit=20&paging.offset=0";

/// A text without the slashes at its end.
pub open spec fn without_slashes(s: Seq<char>) -> Seq<char> {
    text::without_end(s, '/')
}

/// A text without the slashes at its end.
pub fn trim_slashes(content: &str) -> (out: &str)
    ensures
        out@ == without_slashes(content@),
{
    text::trim_end_of(content, '/')
}

/// A configured address without slashes at its end, or another where it is
/// missing or blank.
pub open spec fn configured_or(configured: Option<Seq<char>>, otherwise: Seq<char>) -> Seq<char> {
    if configured is Some && without_slashes(text::trimmed(configured.unwrap())).len() > 0 {
        without_slashes(text::trimmed(configured.unwrap()))
    } else {
        otherwise
    }
}

/// A configured address without slashes at its end, or another where it is
/// missing or blank.
pub fn site_or(configured: Option<&str>, otherwise: &str) -> (address: String)
    ensures
        address@ == configured_or(json::opt_text(configured), otherwise@),
{
    if let Some(configured) = configured {
        let inner = trim_slashes(text::trim(configured));
        if !inner.is_empty() {
            return text::owned(inner);
        }
    }
    text::owned(otherwise)
}

/// The site: the configured one, else the known one.
pub fn main_site_url(configured: Option<&str>) -> (address: String)
    ensures
        address@ == configured_or(json::opt_text(configured), DEFAULT_MAIN_SITE_URL@),
{
    site_or(configured, DEFAULT_MAIN_SITE_URL)
}

/// The headers of a call.
pub open spec fn call_headers(
    token: Seq<char>,
    more: Seq<(Seq<char>, Seq<char>)>,
) -> Seq<(Seq<char>, Seq<char>)> {
    Seq::empty().push(("Accept"@, "application/json"@)).push(
        ("Authorization"@, "Bearer "@ + jwt::bare(token)),
    ) + more
}

/// The headers that a desktop client sends.
pub open spec fn client_headers() -> Seq<(Seq<char>, Seq<char>)> {
    Seq::empty().push(("X-Client-Platform"@, "desktop-windows"@)).push(
        ("X-Client-Version"@, "v1.0.0"@),
    )
}

/// What a call of the site asks for.
#[derive(Debug, Clone, Copy, PartialEq, Eq, Structural)]
pub enum Ask {
    /// The points that are left.
    Balance,
    /// The subscription.
    Entitlement,
    /// The points for a login from the desktop.
    DesktopGrant,
    /// The settings, which give the points of the day.
    Settings,
    /// The last bills.
    Bills,
}

impl Ask {
    /// The path of the call.
    pub open spec fn path(self) -> Seq<char> {
        match self {
            Ask::Balance => BALANCE_PATH@,
            Ask::Entitlement => ENTITLEMENT_PATH@,
            Ask::DesktopGrant => DESKTOP_GRANT_PATH@,
            Ask::Settings => SETTINGS_PATH@,
            Ask::Bills => BILLS_PATH@,
        }
    }

    /// The headers that the call has of its own.
    pub open spec fn headers(self) -> Seq<(Seq<char>, Seq<char>)> {
        match self {
            Ask::DesktopGrant => client_headers(),
            Ask::Settings => client_headers().push(("X-Raccoon-Language"@, "zh"@)),
            _ => Seq::empty(),
        }
    }

    /// The call.
    pub open spec fn call(self, origin: Seq<char>, token: Seq<char>) -> RequestV {
        RequestV {
            method: if self == Ask::DesktopGrant {
                "POST"@
            } else {
                "GET"@
            },
            url: origin + self.path(),
            headers: call_headers(token, self.headers()),
            body: None,
        }
    }

    /// The call, with a token that may still have `Bearer` before it.
    pub fn request(self, origin: &str, token: &str) -> (request: ApiRequest)
        ensures
            request@ == self.call(origin@, token@),
    {
        let mut url = text::owned(origin);
        match self {
            Ask::Balance => url.append(BALANCE_PATH),
            Ask::Entitlement => url.append(ENTITLEMENT_PATH),
            Ask::DesktopGrant => url.append(DESKTOP_GRANT_PATH),
            Ask::Settings => url.append(SETTINGS_PATH),
            Ask::Bills => url.append(BILLS_PATH),
        }
        let mut headers = urls::no_pairs();
        urls::push_pair(&mut headers, "Accept", "application/json");
        let mut bearer = text::owned("Bearer ");
        bearer.append(jwt::strip_bearer(token).as_str());
        urls::push_pair(&mut headers, "Authorization", bearer.as_str());
        if matches!(self, Ask::DesktopGrant) || matches!(self, Ask::Settings) {
            urls::push_pair(&mut headers, "X-Client-Platform", "desktop-windows");
            urls::push_pair(&mut headers, "X-Client-Version", "v1.0.0");
        }
        if matches!(self, Ask::Settings) {
            urls::push_pair(&mut headers, "X-Raccoon-Language", "zh");
        }
        assert(urls::pairs_view(headers@) =~= call_headers(token@, self.headers()));
        let method = if matches!(self, Ask::DesktopGrant) {
            "POST"
        } else {
            "GET"
        };
        ApiRequest { method, url, headers, body: None }
    }

    /// How long to wait for the answer.
    pub fn timeout_ms(self) -> (millis: u64)
        ensures
            millis == if self == Ask::Bills {
                GRANT_CHECK_TIMEOUT_MS
            } else {
                REQUEST_TIMEOUT_MS
            },
    {
        if matches!(self, Ask::Bills) {
            GRANT_CHECK_TIMEOUT_MS
        } else {
            REQUEST_TIMEOUT_MS
        }
    }
}

/// The token to ask for the points of an account with, which is not blank.
pub fn usage_token(credentials: &RaccoonCredentials) -> (token: Result<String, GatewayError>)
    ensures
        errors::text_view(token) == if text::trimmed(credentials@.token).len() == 0 {
            errors::fail(401, "该账号没有可用凭证，无法查询积分"@)
        } else {
            Ok(credentials@.token)
        },
{
    if text::trim(credentials.token.as_str()).is_empty() {
        return Err(GatewayError::with_status(401, "该账号没有可用凭证，无法查询积分"));
    }
    Ok(text::owned(credentials.token.as_str()))
}

/// The token to collect the points of the day with, which is not blank.
pub fn grant_token(credentials: &RaccoonCredentials) -> (token: Result<String, GatewayError>)
    ensures
        errors::text_view(token) == if text::trimmed(credentials@.token).len() == 0 {
            errors::fail(401, "该账号没有可用凭证，无法签到"@)
        } else {
            Ok(credentials@.token)
        },
{
    if text::trim(credentials.token.as_str()).is_empty() {
        return Err(GatewayError::with_status(401, "该账号没有可用凭证，无法签到"));
    }
    Ok(text::owned(credentials.token.as_str()))
}

/// The error of a call that got no answer.
pub fn transport_error(timed_out: bool, reason: &str) -> (error: GatewayError)
    ensures
        error@ == if timed_out {
            ErrorV::plain(504, "积分查询超时"@)
        } else {
            ErrorV::plain(502, "积分查询失败: "@ + reason@)
        },
{
    if timed_out {
        return GatewayError::with_status(504, "积分查询超时");
    }
    let mut message = text::owned("积分查询失败: ");
    message.append(reason);
    GatewayError::with_status(502, message.as_str())
}

/// The value in an answer of the site: what it calls its data, else the whole.
pub open spec fn answer_in(response: ResponseV) -> Result<JsonV, ErrorV> {
    let payload = match response.payload {
        Some(v) => v,
        None => JsonV::Null,
    };
    let code = payload.field("code"@).as_int();
    if response.status == 401 {
        errors::fail(401, "登录态已过期，无法查询积分"@)
    } else if !response.ok {
        errors::fail(502, "积分查询返回 HTTP "@ + text::decimal(response.status as nat))
    } else if code is Some && code.unwrap() != 0 {
        errors::fail(
            502,
            match payload.text_at("message"@) {
                Some(s) => if s.len() > 0 {
                    s
                } else {
                    "积分查询返回异常 code="@ + text::decimal_int(code.unwrap())
                },
                None => "积分查询返回异常 code="@ + text::decimal_int(code.unwrap()),
            },
        )
    } else if payload.field("data"@) == JsonV::Null {
        Ok(payload)
    } else {
        Ok(payload.field("data"@))
    }
}

/// What a value or a failure means.
pub open spec fn value_view(outcome: Result<Json, GatewayError>) -> Result<JsonV, ErrorV> {
    match outcome {
        Ok(v) => Ok(v@),
        Err(e) => Err(e@),
    }
}

/// The value in an answer of the site: what it calls its data, else the whole.
pub fn request_json(response: ApiResponse) -> (outcome: Result<Json, GatewayError>)
    ensures
        value_view(outcome) == answer_in(response@),
{
    if response.status == 401 {
        return Err(GatewayError::with_status(401, "登录态已过期，无法查询积分"));
    }
    if !response.ok {
        let mut message = text::owned("积分查询返回 HTTP ");
        message.append(text::decimal_text(response.status as u64).as_str());
        return Err(GatewayError::with_status(502, message.as_str()));
    }
    let payload = match response.payload {
        Some(value) => value,
        None => Json::Null,
    };
    let code = match payload.get("code") {
        Some(value) => value.as_int(),
        None => None,
    };
    if let Some(code) = code {
        if code != 0 {
            if let Some(s) = payload.text_at("message") {
                if !s.is_empty() {
                    return Err(GatewayError::with_status(502, s));
                }
            }
            let mut message = text::owned("积分查询返回异常 code=");
            message.append(text::signed_text(code).as_str());
            return Err(GatewayError::with_status(502, message.as_str()));
        }
    }
    let data = payload.field("data");
    if data.is_null() {
        Ok(payload)
    } else {
        Ok(data)
    }
}

/// An optional integer as a value.
pub open spec fn int_value(n: Option<int>) -> JsonV {
    match n {
        Some(n) => JsonV::Int(n),
        None => JsonV::Null,
    }
}

/// A wallet, where the answer has one.
pub open spec fn wallet(points: JsonV, key: Seq<char>, label: Seq<char>) -> Option<JsonV> {
    match models::int_in(points.get(key)) {
        Some(n) => Some(
            JsonV::object().put("type"@, JsonV::Str(key)).put(
                "displayName"@,
                JsonV::Str(label),
            ).put("balance"@, JsonV::Int(n)),
        ),
        None => None,
    }
}

/// A list with one more item, where there is one.
pub open spec fn and_some(list: Seq<JsonV>, item: Option<JsonV>) -> Seq<JsonV> {
    match item {
        Some(v) => list.push(v),
        None => list,
    }
}

/// The wallets of an answer.
pub open spec fn wallets_in(points: JsonV) -> Seq<JsonV> {
    and_some(
        and_some(
            and_some(
                and_some(Seq::empty(), wallet(points, "daily_points"@, "每日积分"@)),
                wallet(points, "monthly_points"@, "每月会员积分"@),
            ),
            wallet(points, "reward_points"@, "奖励积分"@),
        ),
        wallet(points, "topup_points"@, "充值积分"@),
    )
}

/// Whether an integer is small enough to be a double-precision number.
pub open spec fn is_moderate(n: int) -> bool {
    -0x20_0000_0000_0000 <= n <= 0x20_0000_0000_0000
}

/// Whether a wallet is of a kind.
pub open spec fn is_wallet(wallet: JsonV, kind: Seq<char>) -> bool {
    wallet.get("type"@) == Some(JsonV::Str(kind))
}

/// Whether just one of the wallets is of a kind, and it holds a number of points.
pub open spec fn hold(wallets: Seq<JsonV>, kind: Seq<char>, n: int) -> bool {
    exists|i: int|
        0 <= i < wallets.len() && is_wallet(#[trigger] wallets[i], kind) && wallets[i].get(
            "balance"@,
        ) == Some(JsonV::Int(n)) && forall|j: int|
            0 <= j < wallets.len() && j != i ==> !is_wallet(#[trigger] wallets[j], kind)
}

/// One of the four kinds of wallets.
pub open spec fn is_kind(kind: Seq<char>) -> bool {
    kind == "daily_points"@ || kind == "monthly_points"@ || kind == "reward_points"@ || kind
        == "topup_points"@
}

/// Whether a usage shows the integers that the points of an account hold: each
/// kind in just one wallet, and all that is left.
pub open spec fn shows_points(usage: JsonV, points: JsonV) -> bool {
    &&& usage.get("wallets"@) matches Some(JsonV::Arr(wallets))
    &&& forall|kind: Seq<char>| #[trigger]
        is_kind(kind) ==> (points.get(kind) matches Some(JsonV::Int(n)) ==> is_moderate(n) ==> hold(
            wallets,
            kind,
            n,
        ))
    &&& points.get("available_points"@) matches Some(JsonV::Int(n)) ==> is_moderate(n) ==> usage.get(
        "available"@,
    ) == Some(JsonV::Int(n))
}

/// Appends a wallet, where the answer has one.
fn push_wallet(wallets: &mut Vec<Json>, points: &Json, key: &str, label: &str)
    ensures
        json::list_view(final(wallets)@) == and_some(
            json::list_view(old(wallets)@),
            wallet(points@, key@, label@),
        ),
        points@.get(key@) matches Some(JsonV::Int(n)) ==> is_moderate(n) ==> models::int_in(
            points@.get(key@),
        ) == Some(n),
{
    if let Some(n) = models::int_of(points.get(key)) {
        let mut item = Json::object();
        item.put("type", Json::text(key));
        item.put("displayName", Json::text(label));
        item.put("balance", Json::number(n));
        proof {
            json::lemma_list_push(wallets@, item);
        }
        wallets.push(item);
    }
}

/// A half of an entitlement, where it is one.
pub open spec fn half(data: JsonV, key: Seq<char>) -> Option<JsonV> {
    match data.field(key) {
        JsonV::Obj(m) => Some(JsonV::Obj(m)),
        _ => None,
    }
}

/// What an optional value has under a key.
pub open spec fn inner(value: Option<JsonV>, key: Seq<char>) -> Option<JsonV> {
    match value {
        Some(v) => v.get(key),
        None => None,
    }
}

/// What an entitlement says: the half for the office first, and the half for code
/// where that one says nothing; null says nothing, and does not ask the other.
pub open spec fn entitled(data: JsonV, key: Seq<char>) -> Option<JsonV> {
    let said = match inner(half(data, "office"@), key) {
        Some(v) => Some(v),
        None => inner(half(data, "code"@), key),
    };
    if said == Some(JsonV::Null) {
        None
    } else {
        said
    }
}

/// A flag, where a value is one.
pub open spec fn flag_in(value: Option<JsonV>) -> Option<bool> {
    match value {
        Some(JsonV::Bool(b)) => Some(b),
        _ => None,
    }
}

/// Whether an entitlement is a paid one.
pub open spec fn is_paid(data: JsonV) -> bool {
    match flag_in(inner(half(data, "office"@), "pro_enable"@)) {
        Some(b) => b,
        None => match flag_in(inner(half(data, "code"@), "pro_enable"@)) {
            Some(b) => b,
            None => false,
        },
    }
}

/// The subscription of an entitlement; null where it has neither half.
pub open spec fn subscription_in(data: JsonV) -> JsonV {
    let plan = match inner(entitled(data, "active_plan"@), "type"@) {
        Some(v) => Some(v),
        None => entitled(data, "plan_type"@),
    };
    let end = match entitled(data, "pro_expired_time"@) {
        Some(v) => Some(v),
        None => inner(entitled(data, "active_plan"@), "subscription_expired_at"@),
    };
    if half(data, "office"@) is None && half(data, "code"@) is None {
        JsonV::Null
    } else {
        JsonV::object().put(
            "planName"@,
            JsonV::Str(
                match plan {
                    Some(JsonV::Str(s)) => s,
                    _ => Seq::empty(),
                },
            ),
        ).put(
            "status"@,
            JsonV::Str(
                if is_paid(data) {
                    "active"@
                } else {
                    "none"@
                },
            ),
        ).put(
            "expireAt"@,
            match end {
                Some(v) => v,
                None => JsonV::Null,
            },
        ).put("remainQuota"@, JsonV::Null).put("totalQuota"@, JsonV::Null)
    }
}

/// A half of an entitlement, where it is one.
fn half_of<'a>(data: &'a Json, key: &str) -> (value: Option<&'a Json>)
    ensures
        json::opt_view(value) == half(data@, key@),
{
    match data.get(key) {
        Some(value) => if value.is_object() {
            Some(value)
        } else {
            None
        },
        None => None,
    }
}

/// What an optional value has under a key.
fn inner_of<'a>(value: Option<&'a Json>, key: &str) -> (found: Option<&'a Json>)
    ensures
        json::opt_view(found) == inner(json::opt_view(value), key@),
{
    match value {
        Some(value) => value.get(key),
        None => None,
    }
}

/// What an entitlement says.
fn entitled_of<'a>(data: &'a Json, key: &str) -> (found: Option<&'a Json>)
    ensures
        json::opt_view(found) == entitled(data@, key@),
{
    let said = match inner_of(half_of(data, "office"), key) {
        Some(value) => Some(value),
        None => inner_of(half_of(data, "code"), key),
    };
    match said {
        Some(value) => if value.is_null() {
            None
        } else {
            Some(value)
        },
        None => None,
    }
}

/// A flag, where a value is one.
fn flag_of(value: Option<&Json>) -> (flag: Option<bool>)
    ensures
        flag == flag_in(json::opt_view(value)),
{
    match value {
        Some(value) => match value {
            Json::Bool(b) => Some(*b),
            _ => None,
        },
        None => None,
    }
}

/// The subscription of an entitlement, in the form that all providers share; null
/// where it has neither half.
pub fn normalize_subscription(data: &Json) -> (subscription: Json)
    ensures
        subscription@ == subscription_in(data@),
{
    let office = half_of(data, "office");
    let code = half_of(data, "code");
    if office.is_none() && code.is_none() {
        return Json::Null;
    }
    let paid = match flag_of(inner_of(office, "pro_enable")) {
        Some(paid) => paid,
        None => match flag_of(inner_of(code, "pro_enable")) {
            Some(paid) => paid,
            None => false,
        },
    };
    let plan = match inner_of(entitled_of(data, "active_plan"), "type") {
        Some(value) => Some(value),
        None => entitled_of(data, "plan_type"),
    };
    let name = match plan {
        Some(value) => match value.as_text() {
            Some(s) => text::owned(s),
            None => String::new(),
        },
        None => String::new(),
    };
    let end = match entitled_of(data, "pro_expired_time") {
        Some(value) => Some(value),
        None => inner_of(entitled_of(data, "active_plan"), "subscription_expired_at"),
    };
    let mut subscription = Json::object();
    subscription.put("planName", Json::Text(name));
    subscription.put(
        "status",
        Json::text(
            if paid {
                "active"
            } else {
                "none"
            },
        ),
    );
    subscription.put(
        "expireAt",
        match end {
            Some(value) => value.clone(),
            None => Json::Null,
        },
    );
    subscription.put("remainQuota", Json::Null);
    subscription.put("totalQuota", Json::Null);
    subscription
}

/// What is left of an account's points.
pub open spec fn usage_in(points: JsonV, entitlement: Result<JsonV, ErrorV>) -> Result<
    JsonV,
    ErrorV,
> {
    let raw = JsonV::object().put("points"@, points);
    if !(points is Obj) {
        errors::fail(502, "积分余额响应结构异常（期望一个 JSON 对象）"@)
    } else {
        Ok(
            JsonV::object().put("available"@, int_value(models::int_in(points.get("available_points"@)))).put(
                "unit"@,
                JsonV::Str("积分"@),
            ).put("wallets"@, JsonV::Arr(wallets_in(points))).put(
                "subscription"@,
                match entitlement {
                    Ok(data) => subscription_in(data),
                    Err(_) => JsonV::Null,
                },
            ).put(
                "raw"@,
                match entitlement {
                    Ok(_) => raw,
                    Err(e) => raw.put("subscriptionError"@, JsonV::Str(e.message)),
                },
            ),
        )
    }
}

/// What is left of an account's points. A subscription that could not be had is
/// only noted.
pub fn query_usage(points: Json, entitlement: &Result<Json, GatewayError>) -> (outcome: Result<
    Json,
    GatewayError,
>)
    ensures
        value_view(outcome) == usage_in(points@, value_view(*entitlement)),
        points@ is Obj ==> outcome is Ok && shows_points(outcome->Ok_0@, points@),
{
    let ghost asked = points@;
    if !points.is_object() {
        return Err(
            GatewayError::with_status(502, "积分余额响应结构异常（期望一个 JSON 对象）"),
        );
    }
    let available = match models::int_of(points.get("available_points")) {
        Some(n) => Json::number(n),
        None => Json::Null,
    };
    let mut wallets: Vec<Json> = Vec::new();
    proof {
        json::lemma_list_empty(wallets@);
    }
    push_wallet(&mut wallets, &points, "daily_points", "每日积分");
    push_wallet(&mut wallets, &points, "monthly_points", "每月会员积分");
    push_wallet(&mut wallets, &points, "reward_points", "奖励积分");
    push_wallet(&mut wallets, &points, "topup_points", "充值积分");
    let mut raw = Json::object();
    raw.put("points", points);
    let subscription = match entitlement {
        Ok(data) => normalize_subscription(data),
        Err(error) => {
            raw.put("subscriptionError", Json::text(error.message.as_str()));
            Json::Null
        },
    };
    let mut usage = Json::object();
    usage.put("available", available);
    usage.put("unit", Json::text("积分"));
    usage.put("wallets", Json::list(wallets));
    usage.put("subscription", subscription);
    usage.put("raw", raw);
    proof {
        assert forall|kind: Seq<char>| #[trigger] is_kind(kind) implies (asked.get(
            kind,
        ) matches Some(JsonV::Int(n)) ==> is_moderate(n) ==> hold(wallets_in(asked), kind, n)) by {
            if let Some(JsonV::Int(n)) = asked.get(kind) {
                if is_moderate(n) {
                    balance_laws::wallets_hold_the_points(asked, kind, n);
                }
            }
        }
        balance_laws::usage_shows_the_points(
            asked,
            value_view(*entitlement),
            asked.field("available_points"@)->Int_0,
        );
    }
    Ok(usage)
}

/// A text with spaces for each `T`.
pub open spec fn spaced(s: Seq<char>) -> Seq<char> {
    s.map_values(
        |c: char|
            if c == 'T' {
                ' '
            } else {
                c
            },
    )
}

/// A text with spaces for each `T`.
fn space_out(content: &str) -> (out: String)
    ensures
        out@ == spaced(content@),
{
    let chars = text::chars_of(content);
    let mut out: Vec<char> = Vec::new();
    let mut i: usize = 0;
    while i < chars.len()
        invariant
            chars@ == content@,
            i <= chars.len(),
            out@.len() == i,
            forall|k: int| 0 <= k < i ==> out@[k] == #[trigger] spaced(content@)[k],
        decreases chars.len() - i,
    {
        if chars[i] == 'T' {
            out.push(' ');
        } else {
            out.push(chars[i]);
        }
        i += 1;
    }
    assert(out@ =~= spaced(content@));
    text::text_of(&out)
}

/// Whether a bill gives points on a day, and how many.
pub open spec fn granted_on(bill: JsonV, today: Seq<char>) -> Option<int> {
    let created = match bill.text_at("created_at"@) {
        Some(s) => s,
        None => Seq::empty(),
    };
    match models::int_in(bill.get("points"@)) {
        Some(n) => if n > 0 && encode_utf8(today).len() == 10 && today.is_prefix_of(created) {
            Some(n)
        } else {
            None
        },
        None => None,
    }
}

/// When a bill was made, with a space between day and time.
pub open spec fn made_at(bill: JsonV) -> Seq<char> {
    match bill.text_at("created_at"@) {
        Some(s) => spaced(s),
        None => spaced(Seq::empty()),
    }
}

/// Whether an entry of the result is what a bill gives.
pub open spec fn is_grant(bill: JsonV, n: int, grant: JsonV) -> bool {
    exists|time: Option<Seq<char>>|
        #[trigger] text::is_byte_part(made_at(bill), 11, 19, time) && grant == JsonV::object().put(
            "name"@,
            JsonV::Str(
                match bill.text_at("event_name"@) {
                    Some(s) => s,
                    None => "积分发放"@,
                },
            ),
        ).put("points"@, JsonV::Int(n)).put(
            "at"@,
            JsonV::Str(
                match time {
                    Some(t) => t,
                    None => Seq::empty(),
                },
            ),
        )
}

/// The places of the bills that give points on a day.
pub open spec fn granting(bills: Seq<JsonV>, today: Seq<char>) -> Seq<int>
    decreases bills.len(),
{
    if bills.len() == 0 {
        Seq::empty()
    } else {
        let known = granting(bills.drop_last(), today);
        if granted_on(bills.last(), today) is Some {
            known.push(bills.len() - 1)
        } else {
            known
        }
    }
}

/// The points that bills give on a day.
pub open spec fn total_on(bills: Seq<JsonV>, today: Seq<char>) -> int
    decreases bills.len(),
{
    if bills.len() == 0 {
        0
    } else {
        total_on(bills.drop_last(), today) + match granted_on(bills.last(), today) {
            Some(n) => n,
            None => 0,
        }
    }
}

/// The bills in an answer.
pub open spec fn bills_in(data: JsonV) -> Seq<JsonV> {
    match data.field("items"@).as_list() {
        Some(items) => items,
        None => Seq::empty(),
    }
}

/// The points that a bill gives on a day.
fn points_on(bill: &Json, today: &str) -> (points: Option<i64>)
    ensures
        match points {
            Some(n) => granted_on(bill@, today@) == Some(n as int),
            None => granted_on(bill@, today@) is None,
        },
{
    let n: i64 = match models::int_of(bill.get("points")) {
        Some(n) => n,
        None => return None,
    };
    let created = match bill.text_at("created_at") {
        Some(s) => s,
        None => "",
    };
    proof {
        reveal_strlit("");
        assert(""@ =~= Seq::empty());
    }
    if n > 0 && today.as_bytes().len() == 10 && text::starts_with(created, today) {
        Some(n)
    } else {
        None
    }
}

/// The entry of the result for a bill.
fn make_grant(bill: &Json, n: i64) -> (grant: Json)
    ensures
        is_grant(bill@, n as int, grant@),
{
    let created = match bill.text_at("created_at") {
        Some(s) => s,
        None => "",
    };
    proof {
        reveal_strlit("");
        assert(""@ =~= Seq::empty());
    }
    let line = space_out(created);
    assert(line@ == made_at(bill@));
    let time = text::byte_part(line.as_str(), 11, 19);
    assert(text::is_byte_part(made_at(bill@), 11, 19, json::opt_text(time)));
    let at = match time {
        Some(s) => text::owned(s),
        None => String::new(),
    };
    let name = match bill.text_at("event_name") {
        Some(s) => text::owned(s),
        None => text::owned("积分发放"),
    };
    let mut grant = Json::object();
    grant.put("name", Json::Text(name));
    grant.put("points", Json::number(n));
    grant.put("at", Json::Text(at));
    grant
}

/// Whether a list of entries is what bills give on a day.
pub open spec fn are_grants(bills: Seq<JsonV>, today: Seq<char>, grants: Seq<JsonV>) -> bool {
    let places = granting(bills, today);
    &&& grants.len() == places.len()
    &&& forall|i: int|
        0 <= i < grants.len() ==> is_grant(
            bills[places[i]],
            granted_on(bills[places[i]], today).unwrap(),
            #[trigger] grants[i],
        )
}

/// The points that came in on a day, each with its bill.
#[derive(Debug)]
pub struct Grants {
    pub list: Vec<Json>,
    pub total: i64,
}

proof fn lemma_granting(bills: Seq<JsonV>, today: Seq<char>)
    ensures
        forall|i: int|
            0 <= i < granting(bills, today).len() ==> 0 <= #[trigger] granting(bills, today)[i]
                < bills.len(),
    decreases bills.len(),
{
    if bills.len() > 0 {
        let known = granting(bills.drop_last(), today);
        lemma_granting(bills.drop_last(), today);
        assert forall|i: int| 0 <= i < granting(bills, today).len() implies 0
            <= #[trigger] granting(bills, today)[i] < bills.len() by {
            if i < known.len() {
                assert(granting(bills, today)[i] == known[i]);
            }
        }
    }
}

proof fn lemma_total_grows(bills: Seq<JsonV>, today: Seq<char>, i: int)
    requires
        0 <= i <= bills.len(),
    ensures
        0 <= total_on(bills.take(i), today) <= total_on(bills, today),
    decreases bills.len(),
{
    if i == bills.len() {
        assert(bills.take(i) =~= bills);
        if i > 0 {
            lemma_total_grows(bills.drop_last(), today, i - 1);
            assert(bills.drop_last().take(i - 1) =~= bills.drop_last());
        }
    } else {
        lemma_total_grows(bills.drop_last(), today, i);
        assert(bills.drop_last().take(i) =~= bills.take(i));
    }
}

/// The points that bills give on a day; nothing where their sum does not fit.
pub fn grants_on(data: &Json, today: &str) -> (grants: Option<Grants>)
    ensures
        match grants {
            Some(g) => are_grants(bills_in(data@), today@, json::list_view(g.list@)) && g.total
                == total_on(bills_in(data@), today@),
            None => total_on(bills_in(data@), today@) > i64::MAX,
        },
{
    let mut list: Vec<Json> = Vec::new();
    proof {
        json::lemma_list_empty(list@);
    }
    let none: Vec<Json> = Vec::new();
    proof {
        json::lemma_list_empty(none@);
    }
    let bills = match data.list_at("items") {
        Some(bills) => bills,
        None => &none,
    };
    let ghost all = json::list_view(bills@);
    assert(all =~= bills_in(data@));
    assert(all.take(0) =~= Seq::empty());
    let mut total: i64 = 0;
    let mut i: usize = 0;
    while i < bills.len()
        invariant
            all == json::list_view(bills@),
            all == bills_in(data@),
            i <= bills.len(),
            total >= 0,
            total == total_on(all.take(i as int), today@),
            are_grants(all.take(i as int), today@, json::list_view(list@)),
        decreases bills.len() - i,
    {
        let ghost upto = all.take(i as int + 1);
        assert(upto.drop_last() =~= all.take(i as int));
        assert(upto.last() == bills@[i as int]@);
        if let Some(n) = points_on(&bills[i], today) {
            if n > i64::MAX - total {
                proof {
                    lemma_total_grows(all, today@, i as int + 1);
                }
                return None;
            }
            total = total + n;
            let ghost before = json::list_view(list@);
            let grant = make_grant(&bills[i], n);
            proof {
                json::lemma_list_push(list@, grant);
                lemma_granting(all.take(i as int), today@);
                let known = granting(all.take(i as int), today@);
                let places = granting(upto, today@);
                assert forall|k: int| 0 <= k < before.push(grant@).len() implies is_grant(
                    upto[places[k]],
                    granted_on(upto[places[k]], today@).unwrap(),
                    #[trigger] before.push(grant@)[k],
                ) by {
                    if k < before.len() {
                        assert(places[k] == known[k]);
                        assert(upto[places[k]] == all.take(i as int)[known[k]]);
                        assert(is_grant(
                            all.take(i as int)[known[k]],
                            granted_on(all.take(i as int)[known[k]], today@).unwrap(),
                            before[k],
                        ));
                    }
                }
            }
            list.push(grant);
        } else {
            proof {
                lemma_granting(all.take(i as int), today@);
                let known = granting(all.take(i as int), today@);
                assert forall|k: int| 0 <= k < list@.len() implies is_grant(
                    upto[known[k]],
                    granted_on(upto[known[k]], today@).unwrap(),
                    #[trigger] json::list_view(list@)[k],
                ) by {
                    assert(upto[known[k]] == all.take(i as int)[known[k]]);
                }
            }
        }
        i += 1;
    }
    assert(all.take(all.len() as int) =~= all);
    Some(Grants { list, total })
}

/// What came of asking for the points of a login from the desktop.
pub open spec fn desktop_grant(outcome: Result<JsonV, ErrorV>) -> JsonV {
    match outcome {
        Ok(data) => JsonV::object().put(
            "granted"@,
            JsonV::Bool(data.field("granted"@) == JsonV::Bool(true)),
        ),
        Err(e) => JsonV::object().put("granted"@, JsonV::Bool(false)).put(
            "error"@,
            JsonV::Str(e.message),
        ),
    }
}

/// What came of asking for the settings.
pub open spec fn settings_note(outcome: Result<JsonV, ErrorV>) -> JsonV {
    match outcome {
        Ok(data) => JsonV::object().put("popups"@, data.field("point_grant_popups"@)).put(
            "toast"@,
            data.field("point_grant_toast"@),
        ),
        Err(e) => JsonV::object().put("popups"@, JsonV::Null).put("toast"@, JsonV::Null).put(
            "error"@,
            JsonV::Str(e.message),
        ),
    }
}

/// What the result says to people.
pub open spec fn claim_message(
    desktop: Result<JsonV, ErrorV>,
    total: int,
    bills_error: Option<Seq<char>>,
) -> Seq<char> {
    let first = if desktop is Ok && desktop->Ok_0.field("granted"@) == JsonV::Bool(true) {
        "桌面登录奖励已发放；"@
    } else {
        Seq::empty()
    };
    let second = if total > 0 {
        "今日积分 +"@ + text::decimal_int(total)
    } else if bills_error is Some {
        "未能核对今日入账"@
    } else {
        "今日未见积分入账（可能已领取）"@
    };
    let third = match bills_error {
        Some(e) => "；账单核对失败："@ + e,
        None => if desktop is Err {
            "；桌面登录奖励未领取"@
        } else {
            Seq::empty()
        },
    };
    first + second + third
}

/// The result of fetching the points of the day.
pub open spec fn claim_value(
    desktop: Result<JsonV, ErrorV>,
    settings: Result<JsonV, ErrorV>,
    grants: Seq<JsonV>,
    total: int,
    bills_error: Option<Seq<char>>,
) -> JsonV {
    JsonV::object().put("success"@, JsonV::Bool(total > 0)).put(
        "msg"@,
        JsonV::Str(claim_message(desktop, total, bills_error)),
    ).put("grantsToday"@, JsonV::Arr(grants)).put("desktopGrant"@, desktop_grant(desktop)).put(
        "settings"@,
        settings_note(settings),
    ).put(
        "grantsError"@,
        match bills_error {
            Some(e) => JsonV::Str(e),
            None => JsonV::Null,
        },
    )
}

/// Whether a result is that of fetching the points of the day: success is that
/// points did come in on the day, by the bills.
pub open spec fn is_claim(
    desktop: Result<JsonV, ErrorV>,
    settings: Result<JsonV, ErrorV>,
    bills: Result<JsonV, ErrorV>,
    today: Seq<char>,
    result: JsonV,
) -> bool {
    match bills {
        Ok(data) => exists|grants: Seq<JsonV>| #[trigger]
            are_grants(bills_in(data), today, grants) && result == claim_value(
                desktop,
                settings,
                grants,
                total_on(bills_in(data), today),
                None,
            ),
        Err(e) => result == claim_value(desktop, settings, Seq::empty(), 0, Some(e.message)),
    }
}

/// What came of asking for the points of a login from the desktop.
fn note_desktop(outcome: &Result<Json, GatewayError>) -> (note: (Json, bool))
    ensures
        note.0@ == desktop_grant(value_view(*outcome)),
        note.1 == (value_view(*outcome) is Ok && value_view(*outcome)->Ok_0.field("granted"@)
            == JsonV::Bool(true)),
{
    let mut note = Json::object();
    match outcome {
        Ok(data) => {
            let granted = match flag_of(data.get("granted")) {
                Some(granted) => granted,
                None => false,
            };
            note.put("granted", Json::Bool(granted));
            (note, granted)
        },
        Err(error) => {
            note.put("granted", Json::Bool(false));
            note.put("error", Json::text(error.message.as_str()));
            (note, false)
        },
    }
}

/// What came of asking for the settings.
fn note_settings(outcome: &Result<Json, GatewayError>) -> (note: Json)
    ensures
        note@ == settings_note(value_view(*outcome)),
{
    let mut note = Json::object();
    match outcome {
        Ok(data) => {
            note.put("popups", data.field("point_grant_popups"));
            note.put("toast", data.field("point_grant_toast"));
        },
        Err(error) => {
            note.put("popups", Json::Null);
            note.put("toast", Json::Null);
            note.put("error", Json::text(error.message.as_str()));
        },
    }
    note
}

/// What the result says to people.
fn message_of(
    desktop: &Result<Json, GatewayError>,
    granted: bool,
    total: i64,
    bills_error: Option<&str>,
) -> (message: String)
    requires
        granted == (value_view(*desktop) is Ok && value_view(*desktop)->Ok_0.field("granted"@)
            == JsonV::Bool(true)),
    ensures
        message@ == claim_message(
            value_view(*desktop),
            total as int,
            json::opt_text(bills_error),
        ),
{
    let mut message = String::new();
    if granted {
        message.append("桌面登录奖励已发放；");
    }
    let ghost first = message@;
    if total > 0 {
        message.append("今日积分 +");
        message.append(text::signed_text(total).as_str());
    } else if bills_error.is_some() {
        message.append("未能核对今日入账");
    } else {
        message.append("今日未见积分入账（可能已领取）");
    }
    let ghost second = message@;
    match bills_error {
        Some(error) => {
            message.append("；账单核对失败：");
            message.append(error);
        },
        None => if desktop.is_err() {
            message.append("；桌面登录奖励未领取");
        },
    }
    assert(message@ =~= claim_message(
        value_view(*desktop),
        total as int,
        json::opt_text(bills_error),
    ));
    message
}

/// The result of fetching the points of the day from what came of its three
/// calls. A call that failed does not stop the others; success is that points did
/// come in on the day, by the bills. Nothing where the sum of the points does not
/// fit.
pub fn claim_daily_grant(
    desktop: &Result<Json, GatewayError>,
    settings: &Result<Json, GatewayError>,
    bills: &Result<Json, GatewayError>,
    today: &str,
) -> (result: Option<Json>)
    ensures
        match result {
            Some(r) => is_claim(
                value_view(*desktop),
                value_view(*settings),
                value_view(*bills),
                today@,
                r@,
            ),
            None => value_view(*bills) is Ok && total_on(
                bills_in(value_view(*bills)->Ok_0),
                today@,
            ) > i64::MAX,
        },
{
    let (note, granted) = note_desktop(desktop);
    let found = match bills {
        Ok(data) => match grants_on(data, today) {
            Some(found) => found,
            None => return None,
        },
        Err(_) => {
            let list: Vec<Json> = Vec::new();
            proof {
                json::lemma_list_empty(list@);
            }
            Grants { list, total: 0 }
        },
    };
    let bills_error = match bills {
        Ok(_) => None,
        Err(error) => Some(error.message.as_str()),
    };
    let message = message_of(desktop, granted, found.total, bills_error);
    let ghost grants = json::list_view(found.list@);
    let mut result = Json::object();
    result.put("success", Json::Bool(found.total > 0));
    result.put("msg", Json::Text(message));
    result.put("grantsToday", Json::list(found.list));
    result.put("desktopGrant", note);
    result.put("settings", note_settings(settings));
    result.put(
        "grantsError",
        match bills_error {
            Some(error) => Json::text(error),
            None => Json::Null,
        },
    );
    proof {
        if value_view(*bills) is Ok {
            assert(are_grants(bills_in(value_view(*bills)->Ok_0), today@, grants));
        }
    }
    Some(result)
}

/// Whatever comes of asking for the subscription, the points are told all the
/// same.
pub proof fn subscriptions_leave_the_points_alone(
    points: JsonV,
    one: Result<JsonV, ErrorV>,
    two: Result<JsonV, ErrorV>,
)
    ensures
        ({
            let (first, second) = (usage_in(points, one), usage_in(points, two));
            &&& first is Ok == second is Ok
            &&& first is Err ==> first == second
            &&& first is Ok ==> {
                &&& first->Ok_0.get("available"@) == second->Ok_0.get("available"@)
                &&& first->Ok_0.get("unit"@) == second->Ok_0.get("unit"@)
                &&& first->Ok_0.get("wallets"@) == second->Ok_0.get("wallets"@)
            }
        }),
{
    reveal_strlit("available");
    reveal_strlit("unit");
    reveal_strlit("wallets");
    reveal_strlit("subscription");
    reveal_strlit("raw");
    assert("available"@.len() == 9 && "unit"@.len() == 4 && "wallets"@.len() == 7);
    assert("subscription"@.len() == 12 && "raw"@.len() == 3);
}

/// Success is claimed only where a bill of the day did give points.
pub proof fn success_is_never_made_up(
    desktop: Result<JsonV, ErrorV>,
    settings: Result<JsonV, ErrorV>,
    bills: Result<JsonV, ErrorV>,
    today: Seq<char>,
    result: JsonV,
)
    requires
        is_claim(desktop, settings, bills, today, result),
        result.field("success"@) == JsonV::Bool(true),
    ensures
        bills is Ok,
        exists|i: int|
            0 <= i < bills_in(bills->Ok_0).len() && granted_on(
                #[trigger] bills_in(bills->Ok_0)[i],
                today,
            ) is Some,
{
    lemma_success_key();
    if let Ok(data) = bills {
        lemma_some_grant(bills_in(data), today);
    }
}

proof fn lemma_success_key()
    ensures
        "success"@ != "msg"@ && "success"@ != "grantsToday"@ && "success"@ != "desktopGrant"@,
        "success"@ != "settings"@ && "success"@ != "grantsError"@,
{
    reveal_strlit("success");
    reveal_strlit("msg");
    reveal_strlit("grantsToday");
    reveal_strlit("desktopGrant");
    reveal_strlit("settings");
    reveal_strlit("grantsError");
    assert("success"@.len() == 7 && "msg"@.len() == 3 && "grantsToday"@.len() == 11);
    assert("desktopGrant"@.len() == 12 && "settings"@.len() == 8 && "grantsError"@.len() == 11);
}

proof fn lemma_some_grant(bills: Seq<JsonV>, today: Seq<char>)
    ensures
        total_on(bills, today) > 0 ==> exists|i: int|
            0 <= i < bills.len() && granted_on(#[trigger] bills[i], today) is Some,
    decreases bills.len(),
{
    if bills.len() > 0 {
        let front = bills.drop_last();
        lemma_some_grant(front, today);
        if total_on(bills, today) > 0 {
            if granted_on(bills.last(), today) is Some {
                assert(granted_on(bills[bills.len() - 1], today) is Some);
            } else {
                let i = choose|i: int|
                    0 <= i < front.len() && granted_on(#[trigger] front[i], today) is Some;
                assert(bills[i] == front[i]);
            }
        }
    }
}

} // verus!
