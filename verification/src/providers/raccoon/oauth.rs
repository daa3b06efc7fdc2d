//! Logging in to Raccoon in a browser: the page hands back a code, which is
//! exchanged for credentials. Only a page that was opened for this login may do
//! so: it hands back the login's state.
use super::adapter::DEFAULT_AUTH_ORIGIN;
use super::balance;
use super::jwt;
use crate::errors;
use crate::errors::{ErrorV, GatewayError};
use crate::http;
use crate::http::{ApiRequest, ApiResponse, RequestV, ResponseV};
use crate::json;
use crate::json::{Json, JsonV};
use crate::providers::adapter;
use crate::text;
use crate::upstream::request;
use crate::urls;
use vstd::prelude::*;
use vstd::string::*;

verus! {

pub const AUTHORIZE_PATH: &'static str = "/code/authorize";
pub const LOGIN_SOURCE: &'static str = "desktop";
pub const APP_NAME: &'static str = "办公小浣熊客户端";
pub const CALLBACK_SCHEME: &'static str = "office-raccoon";
pub const CALLBACK_HOST: &'static str = "auth";
pub const CALLBACK_PATH: &'static str = "/callback";

/// The longest state.
pub const MAX_STATE_LENGTH: usize = 512;

/// The longest code.
pub const MAX_CODE_LENGTH: usize = 8192;

/// The upstream's mark of a code that is no longer good.
pub const CODE_EXPIRED: i64 = 200035;

/// The site that logins begin at: the configured one, else the known one.
pub fn main_origin(configured: Option<&str>) -> (origin: String)
    ensures
        origin@ == balance::configured_or(json::opt_text(configured), DEFAULT_AUTH_ORIGIN@),
{
    balance::site_or(configured, DEFAULT_AUTH_ORIGIN)
}

/// The pairs of the address that a browser opens.
pub open spec fn authorize_pairs(state: Seq<char>) -> Seq<(Seq<char>, Seq<char>)> {
    Seq::empty().push(("login_source"@, LOGIN_SOURCE@)).push(("appname"@, APP_NAME@)).push(
        ("state"@, state),
    )
}

/// The address that a browser opens to log in.
pub open spec fn authorize_url(origin: Seq<char>, state: Seq<char>) -> Seq<char> {
    match urls::url_at_path(origin, AUTHORIZE_PATH@, authorize_pairs(state)) {
        Some(u) => u,
        None => origin + AUTHORIZE_PATH@ + "?login_source="@ + LOGIN_SOURCE@ + "&appname="@
            + APP_NAME@ + "&state="@ + state,
    }
}

/// The address that a browser opens to log in.
pub fn build_authorize_url(origin: &str, state: &str) -> (address: String)
    ensures
        address@ == authorize_url(origin@, state@),
{
    let mut pairs = urls::no_pairs();
    urls::push_pair(&mut pairs, "login_source", LOGIN_SOURCE);
    urls::push_pair(&mut pairs, "appname", APP_NAME);
    urls::push_pair(&mut pairs, "state", state);
    if let Some(address) = urls::at_path(origin, AUTHORIZE_PATH, &pairs) {
        return address;
    }
    let mut address = text::owned(origin);
    address.append(AUTHORIZE_PATH);
    address.append("?login_source=");
    address.append(LOGIN_SOURCE);
    address.append("&appname=");
    address.append(APP_NAME);
    address.append("&state=");
    address.append(state);
    address
}

/// The state of a new login, from two random numbers.
pub fn new_login_state(first: u64, second: u64) -> (state: String)
    ensures
        state@ == request::request_id(first, second),
{
    request::new_request_id(first, second)
}

/// Whether an address is the one that a login comes back to. Its parts are held
/// against the known ones one by one: no address that only begins like it is.
pub open spec fn is_callback(parts: urls::UrlV) -> bool {
    &&& parts.scheme == CALLBACK_SCHEME@
    &&& parts.host is Some
    &&& text::ascii_lowercase(parts.host.unwrap()) == CALLBACK_HOST@
    &&& parts.path == CALLBACK_PATH@
}

/// The code that a login came back with.
pub open spec fn callback_code(raw: Seq<char>, expected: Seq<char>) -> Result<Seq<char>, ErrorV> {
    match urls::parsed_url(text::trimmed(raw)) {
        None => errors::fail(400, "登录回调地址无效"@),
        Some(parts) => {
            let code = urls::first_value(parts.query, "code"@);
            let state = urls::first_value(parts.query, "state"@);
            if !is_callback(parts) {
                errors::fail(400, "登录回调地址无效"@)
            } else if code.len() == 0 {
                errors::fail(400, "登录回调里没有授权码"@)
            } else if code.len() > MAX_CODE_LENGTH {
                errors::fail(400, "授权码过长"@)
            } else if state.len() == 0 {
                errors::fail(
                    400,
                    "登录回调里没有 state，无法确认这次登录由本机发起，请重新发起网页登录"@,
                )
            } else if state.len() > MAX_STATE_LENGTH {
                errors::fail(400, "登录回调 state 过长"@)
            } else if state != expected {
                errors::fail(400, "登录回调 state 校验失败，请重新发起登录"@)
            } else {
                Ok(code)
            }
        },
    }
}

/// Whether an address is the one that a login comes back to.
fn matches_callback(parts: &urls::UrlParts) -> (yes: bool)
    ensures
        yes == is_callback(parts@),
{
    let host = match &parts.host {
        Some(host) => text::text_of(&text::lower_chars(host.as_str())),
        None => return false,
    };
    text::same(parts.scheme.as_str(), CALLBACK_SCHEME) && text::same(
        host.as_str(),
        CALLBACK_HOST,
    ) && text::same(parts.path.as_str(), CALLBACK_PATH)
}

/// The code that a login came back with, where it is the login that was begun.
pub fn parse_callback_code(raw_url: &str, expected_state: &str) -> (code: Result<
    String,
    GatewayError,
>)
    ensures
        errors::text_view(code) == callback_code(raw_url@, expected_state@),
{
    let parts = match urls::parse_url(text::trim(raw_url)) {
        Some(parts) => parts,
        None => return Err(GatewayError::with_status(400, "登录回调地址无效")),
    };
    if !matches_callback(&parts) {
        return Err(GatewayError::with_status(400, "登录回调地址无效"));
    }
    let code = urls::find_value(&parts.query, "code");
    if code.as_str().is_empty() {
        return Err(GatewayError::with_status(400, "登录回调里没有授权码"));
    }
    if code.as_str().unicode_len() > MAX_CODE_LENGTH {
        return Err(GatewayError::with_status(400, "授权码过长"));
    }
    let state = urls::find_value(&parts.query, "state");
    if state.as_str().is_empty() {
        return Err(
            GatewayError::with_status(
                400,
                "登录回调里没有 state，无法确认这次登录由本机发起，请重新发起网页登录",
            ),
        );
    }
    if state.as_str().unicode_len() > MAX_STATE_LENGTH {
        return Err(GatewayError::with_status(400, "登录回调 state 过长"));
    }
    if !text::same(state.as_str(), expected_state) {
        return Err(GatewayError::with_status(400, "登录回调 state 校验失败，请重新发起登录"));
    }
    Ok(code)
}

/// The call that exchanges a code.
pub open spec fn exchange_call(code: Seq<char>, state: Seq<char>, base: Seq<char>) -> Result<
    RequestV,
    ErrorV,
> {
    let inner = text::trimmed(code);
    if inner.len() == 0 {
        errors::fail(400, "缺少授权码"@)
    } else if inner.len() > MAX_CODE_LENGTH {
        errors::fail(400, "授权码过长"@)
    } else if text::trimmed(state).len() == 0 {
        errors::fail(400, "缺少登录 state"@)
    } else {
        Ok(
            RequestV {
                method: "POST"@,
                url: base + "/login_with_authorization_code"@,
                headers: Seq::empty().push(("Content-Type"@, "application/json"@)),
                body: Some(JsonV::object().put("authorization_code"@, JsonV::Str(inner))),
            },
        )
    }
}

/// The call that exchanges a code, at this base of the services for logins.
pub fn exchange_code(code: &str, state: &str, base: &str) -> (request: Result<
    ApiRequest,
    GatewayError,
>)
    ensures
        http::request_view(request) == exchange_call(code@, state@, base@),
{
    let inner = text::trim(code);
    if inner.is_empty() {
        return Err(GatewayError::with_status(400, "缺少授权码"));
    }
    if inner.unicode_len() > MAX_CODE_LENGTH {
        return Err(GatewayError::with_status(400, "授权码过长"));
    }
    if text::trim(state).is_empty() {
        return Err(GatewayError::with_status(400, "缺少登录 state"));
    }
    let mut url = text::owned(base);
    url.append("/login_with_authorization_code");
    let mut headers = urls::no_pairs();
    urls::push_pair(&mut headers, "Content-Type", "application/json");
    let mut body = Json::object();
    body.put("authorization_code", Json::text(inner));
    Ok(ApiRequest { method: "POST", url, headers, body: Some(body) })
}

/// The error of an exchange that got no answer.
pub fn exchange_transport_error(timed_out: bool, reason: &str) -> (error: GatewayError)
    ensures
        error@ == if timed_out {
            ErrorV::plain(504, "网页登录换取凭证超时，请重试"@)
        } else {
            ErrorV::plain(502, "网页登录换取凭证失败: "@ + reason@)
        },
{
    if timed_out {
        return GatewayError::with_status(504, "网页登录换取凭证超时，请重试");
    }
    let mut message = text::owned("网页登录换取凭证失败: ");
    message.append(reason);
    GatewayError::with_status(502, message.as_str())
}

/// The error with the code of an upstream.
pub open spec fn with_code(error: ErrorV, code: Option<i64>) -> ErrorV {
    match code {
        Some(n) => error.coded(text::decimal_int(n as int)),
        None => error,
    }
}

/// What the upstream says of a failure.
pub open spec fn said_in(payload: JsonV) -> Seq<char> {
    match payload.get("message"@) {
        Some(v) => v.shown(),
        None => payload.shown_at("msg"@),
    }
}

/// How an exchange that failed reads.
pub open spec fn refusal(payload: JsonV, status: u16) -> Seq<char> {
    let said = said_in(payload);
    if said.len() == 0 {
        "网页登录换取凭证失败（HTTP "@ + text::decimal(status as nat) + "）"@
    } else if said == "internal_server_error"@ {
        "登录服务异常，请稍后重试"@
    } else {
        said
    }
}

/// A record with one more entry, where what the data shows for it is not blank.
pub open spec fn with_shown(record: JsonV, data: JsonV, key: Seq<char>) -> JsonV {
    let shown = text::trimmed(data.shown_at(key));
    if shown.len() > 0 {
        record.put(key, JsonV::Str(shown))
    } else {
        record
    }
}

/// The record of the account that an exchange gives.
pub open spec fn exchanged(response: ResponseV) -> Result<JsonV, ErrorV> {
    let payload = match response.payload {
        Some(v) => v,
        None => JsonV::Null,
    };
    let data = payload.field("data"@);
    let access = jwt::bare(data.shown_at("access_token"@));
    let refresh = jwt::bare(data.shown_at("refresh_token"@));
    let code = adapter::code_at(payload, "code"@);
    if code == Some(CODE_EXPIRED) {
        Err(with_code(ErrorV::plain(400, "授权码已失效，请重新发起网页登录"@), code))
    } else if !response.ok || access.len() == 0 || refresh.len() == 0 {
        Err(
            with_code(
                ErrorV::plain(
                    if 400 <= response.status < 500 {
                        response.status as int
                    } else {
                        502
                    },
                    refusal(payload, response.status),
                ),
                code,
            ),
        )
    } else {
        let record = JsonV::object().put("access_token"@, JsonV::Str(access)).put(
            "refresh_token"@,
            JsonV::Str(refresh),
        );
        Ok(
            with_shown(
                with_shown(
                    with_shown(record, data, "office_identity"@),
                    data,
                    "office_org_name"@,
                ),
                data,
                "office_org_role"@,
            ),
        )
    }
}

/// What a value or a failure means.
pub open spec fn value_view(outcome: Result<Json, GatewayError>) -> Result<JsonV, ErrorV> {
    match outcome {
        Ok(v) => Ok(v@),
        Err(e) => Err(e@),
    }
}

/// Adds an entry to a record, where what the data shows for it is not blank.
fn put_shown(record: &mut Json, data: &Json, key: &str)
    requires
        old(record)@ is Obj,
    ensures
        final(record)@ == with_shown(old(record)@, data@, key@),
{
    let shown = data.shown_at(key);
    let inner = text::trim(shown.as_str());
    if !inner.is_empty() {
        record.put(key, Json::text(inner));
    }
}

/// How an exchange that failed reads.
fn refusal_text(payload: &Json, status: u16) -> (message: String)
    ensures
        message@ == refusal(payload@, status),
{
    let said = match payload.get("message") {
        Some(value) => value.shown(),
        None => payload.shown_at("msg"),
    };
    if said.as_str().is_empty() {
        let mut message = text::owned("网页登录换取凭证失败（HTTP ");
        message.append(text::decimal_text(status as u64).as_str());
        message.append("）");
        return message;
    }
    if text::same(said.as_str(), "internal_server_error") {
        return text::owned("登录服务异常，请稍后重试");
    }
    said
}

/// Reads the answer to an exchange: the record of the account to add, or why
/// there is none. A code that is no longer good blames the request.
pub fn read_exchange(response: ApiResponse) -> (record: Result<Json, GatewayError>)
    ensures
        value_view(record) == exchanged(response@),
{
    let payload = match response.payload {
        Some(value) => value,
        None => Json::Null,
    };
    let data = payload.field("data");
    let access = jwt::strip_bearer(data.shown_at("access_token").as_str());
    let refresh = jwt::strip_bearer(data.shown_at("refresh_token").as_str());
    let code = adapter::code_of(&payload, "code");
    if let Some(n) = code {
        if n == CODE_EXPIRED {
            return Err(
                GatewayError::with_status(
                    400,
                    "授权码已失效，请重新发起网页登录",
                ).with_optional_code(code),
            );
        }
    }
    if !response.ok || access.as_str().is_empty() || refresh.as_str().is_empty() {
        let message = refusal_text(&payload, response.status);
        let status: i32 = if 400 <= response.status && response.status < 500 {
            response.status as i32
        } else {
            502
        };
        return Err(
            GatewayError::with_status(status, message.as_str()).with_optional_code(code),
        );
    }
    let mut record = Json::object();
    record.put("access_token", Json::Text(access));
    record.put("refresh_token", Json::Text(refresh));
    put_shown(&mut record, &data, "office_identity");
    put_shown(&mut record, &data, "office_org_name");
    put_shown(&mut record, &data, "office_org_role");
    Ok(record)
}

/// The id of the account that was saved.
pub fn saved_id(saved: &Json) -> (id: Result<String, GatewayError>)
    ensures
        errors::text_view(id) == match saved@.text_at("id"@) {
            Some(s) => if s.len() > 0 {
                Ok(s)
            } else {
                errors::fail(500, "网页登录成功但账号未能写入（数据缺少 id），请重试"@)
            },
            None => errors::fail(500, "网页登录成功但账号未能写入（数据缺少 id），请重试"@),
        },
{
    if let Some(id) = saved.text_at("id") {
        if !id.is_empty() {
            return Ok(text::owned(id));
        }
    }
    Err(GatewayError::with_status(500, "网页登录成功但账号未能写入（数据缺少 id），请重试"))
}

/// A login that comes back with a state other than the one it was begun with
/// yields no code, whatever else it comes back with.
pub proof fn foreign_callbacks_are_refused(raw: Seq<char>, expected: Seq<char>)
    requires
        callback_code(raw, expected) is Ok,
    ensures
        urls::parsed_url(text::trimmed(raw)) is Some,
        ({
            let parts = urls::parsed_url(text::trimmed(raw)).unwrap();
            &&& is_callback(parts)
            &&& urls::first_value(parts.query, "state"@) == expected
        }),
{
}

} // verus!
