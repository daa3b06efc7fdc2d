//! WorkBuddy.
use crate::errors;
use crate::errors::{ErrorV, GatewayError};
use crate::json;
use crate::json::{Json, JsonV};
use crate::providers::adapter;
use crate::providers::adapter::{
    ChatRequestPlan,
    ClassV,
    ModelRefreshOutcome,
    PlanV,
    RefreshV,
    UpstreamErrorClass,
};
use crate::providers::kind::ProviderKind;
use crate::text;
use crate::urls;
use vstd::prelude::*;
use vstd::string::*;
use vstd::utf8::*;

verus! {

/// The upstream's code for content that it refuses.
pub const RATE_LIMIT_CODE: i64 = 11128;

/// The upstream's code for a used-up quota.
pub const QUOTA_LIMIT_CODE: i64 = 6004;

/// The prompt that stands first where a client gives none: the upstream wants one.
pub const DEFAULT_SYSTEM_PROMPT: &'static str = "你是一个得力助手";

/// What is added to the message of refused content.
pub const WAF_HINT: &'static str = "；提示词可能命中上游敏感词，请检查提示词";

/// How a client of an edition presents itself.
#[derive(Debug)]
pub struct Edition {
    pub user_agent: String,
    pub ua_platform: String,
    pub product_name: String,
    pub client_version: String,
}

/// The headers of a request, but for those of its account.
pub open spec fn client_headers(edition: Edition, id: Seq<char>) -> Seq<(Seq<char>, Seq<char>)> {
    Seq::empty().push(("Content-Type"@, "application/json"@)).push(
        ("User-Agent"@, edition.user_agent@),
    ).push(("X-IDE-Type"@, edition.ua_platform@)).push(("X-IDE-Name"@, edition.product_name@)).push(
        ("X-IDE-Version"@, edition.client_version@),
    ).push(("X-Product"@, edition.product_name@)).push(("X-Agent-Intent"@, "craft"@)).push(
        ("X-Request-ID"@, id),
    ).push(("X-Conversation-Request-ID"@, id)).push(("X-Conversation-ID"@, id)).push(
        ("X-Session-ID"@, id),
    )
}

/// The headers of a request: those of its client, those of its account and what
/// it accepts.
pub open spec fn headers_of(
    edition: Edition,
    id: Seq<char>,
    account: Seq<(Seq<char>, Seq<char>)>,
    accept: Option<Seq<char>>,
) -> Seq<(Seq<char>, Seq<char>)> {
    let known = client_headers(edition, id) + account;
    match accept {
        Some(a) => known.push(("Accept"@, a)),
        None => known,
    }
}

/// The headers of a request. One id stands for the request, its round and its
/// conversation.
fn chat_headers(
    edition: &Edition,
    request_id: &str,
    account: &Vec<(String, String)>,
    accept: Option<&str>,
) -> (headers: Vec<(String, String)>)
    ensures
        urls::pairs_view(headers@) == headers_of(
            *edition,
            request_id@,
            urls::pairs_view(account@),
            json::opt_text(accept),
        ),
{
    let mut headers = urls::no_pairs();
    urls::push_pair(&mut headers, "Content-Type", "application/json");
    urls::push_pair(&mut headers, "User-Agent", edition.user_agent.as_str());
    urls::push_pair(&mut headers, "X-IDE-Type", edition.ua_platform.as_str());
    urls::push_pair(&mut headers, "X-IDE-Name", edition.product_name.as_str());
    urls::push_pair(&mut headers, "X-IDE-Version", edition.client_version.as_str());
    urls::push_pair(&mut headers, "X-Product", edition.product_name.as_str());
    urls::push_pair(&mut headers, "X-Agent-Intent", "craft");
    urls::push_pair(&mut headers, "X-Request-ID", request_id);
    urls::push_pair(&mut headers, "X-Conversation-Request-ID", request_id);
    urls::push_pair(&mut headers, "X-Conversation-ID", request_id);
    urls::push_pair(&mut headers, "X-Session-ID", request_id);
    let ghost own = client_headers(*edition, request_id@);
    let ghost all = urls::pairs_view(account@);
    assert(own + all.take(0) =~= own);
    let mut i: usize = 0;
    while i < account.len()
        invariant
            all == urls::pairs_view(account@),
            i <= account.len(),
            urls::pairs_view(headers@) == own + all.take(i as int),
        decreases account.len() - i,
    {
        urls::push_pair(&mut headers, account[i].0.as_str(), account[i].1.as_str());
        assert(own + all.take(i as int + 1) =~= (own + all.take(i as int)).push(all[i as int]));
        i += 1;
    }
    assert(all.take(all.len() as int) =~= all);
    if let Some(accept) = accept {
        urls::push_pair(&mut headers, "Accept", accept);
    }
    headers
}

/// The endpoint of a session, or the known one where it names none.
pub open spec fn endpoint_in(session: JsonV, otherwise: Seq<char>) -> Seq<char> {
    match session.text_at("endpoint"@) {
        Some(s) => if s.len() > 0 {
            s
        } else {
            otherwise
        },
        None => otherwise,
    }
}

/// The endpoint of a session, or the known one where it names none.
pub fn endpoint_of(session: &Json, otherwise: &str) -> (endpoint: String)
    ensures
        endpoint@ == endpoint_in(session@, otherwise@),
{
    if let Some(s) = session.text_at("endpoint") {
        if !s.is_empty() {
            return text::owned(s);
        }
    }
    text::owned(otherwise)
}

/// The address for answers at an endpoint.
pub fn chat_completions_url(endpoint: &str) -> (url: String)
    ensures
        url@ == endpoint@ + "/v2/chat/completions"@,
{
    let mut url = text::owned(endpoint);
    url.append("/v2/chat/completions");
    url
}

/// The messages of a request.
pub open spec fn messages_in(body: JsonV) -> Seq<JsonV> {
    match body.field("messages"@).as_list() {
        Some(items) => items,
        None => Seq::empty(),
    }
}

/// Whether messages begin with a system prompt, whatever the case.
pub open spec fn begins_with_system(messages: Seq<JsonV>) -> bool {
    messages.len() > 0 && text::lowercase(messages[0].shown_at("role"@)) == "system"@
}

/// The system prompt that stands first where a client gives none.
pub open spec fn default_system() -> JsonV {
    JsonV::object().put("role"@, JsonV::Str("system"@)).put(
        "content"@,
        JsonV::Str(DEFAULT_SYSTEM_PROMPT@),
    )
}

/// A request with a system prompt first, where that changes it.
pub open spec fn with_system(body: JsonV) -> Option<JsonV> {
    let messages = messages_in(body);
    if messages.len() == 0 || begins_with_system(messages) {
        None
    } else {
        Some(body.put("messages"@, JsonV::Arr(seq![default_system()] + messages)))
    }
}

/// A request with a system prompt first; nothing where it has one already, or has
/// no messages, which the upstream refuses by itself.
pub fn ensure_leading_system_message(body: &Json) -> (next: Option<Json>)
    ensures
        json::owned_view(next) == with_system(body@),
{
    let messages = match body.list_at("messages") {
        Some(messages) => messages,
        None => return None,
    };
    if messages.len() == 0 {
        return None;
    }
    let ghost all = json::list_view(messages@);
    assert(all == messages_in(body@));
    assert(all[0] == messages@[0]@);
    let shown = messages[0].shown_at("role");
    let role = text::to_lowercase(shown.as_str());
    if text::same(role.as_str(), "system") {
        return None;
    }
    let mut first = Json::object();
    first.put("role", Json::text("system"));
    first.put("content", Json::text(DEFAULT_SYSTEM_PROMPT));
    let mut list: Vec<Json> = Vec::new();
    let ghost lead = seq![default_system()];
    proof {
        json::lemma_list_empty(list@);
        json::lemma_list_push(list@, first);
        assert(Seq::<JsonV>::empty().push(default_system()) =~= lead + all.take(0));
    }
    list.push(first);
    let mut i: usize = 0;
    while i < messages.len()
        invariant
            all == json::list_view(messages@),
            i <= messages.len(),
            json::list_view(list@) == lead + all.take(i as int),
        decreases messages.len() - i,
    {
        let copy = messages[i].clone();
        proof {
            json::lemma_list_push(list@, copy);
            assert(lead + all.take(i as int + 1) =~= (lead + all.take(i as int)).push(
                all[i as int],
            ));
        }
        list.push(copy);
        i += 1;
    }
    assert(all.take(all.len() as int) =~= all);
    let mut next = body.clone();
    next.put("messages", Json::list(list));
    Some(next)
}

/// The entry of a session's login.
pub open spec fn login_entry(session: JsonV, key: Seq<char>) -> Seq<char> {
    match session.at("auth"@, key) {
        Some(JsonV::Str(s)) => s,
        _ => Seq::empty(),
    }
}

/// The entry of a session's login.
fn login_entry_of(session: &Json, key: &str) -> (content: String)
    ensures
        content@ == login_entry(session@, key@),
{
    match session.at("auth", key) {
        Some(value) => match value.as_text() {
            Some(s) => text::owned(s),
            None => String::new(),
        },
        None => String::new(),
    }
}

/// The token of the environment.
pub open spec fn env_token(value: Option<Seq<char>>) -> Option<Seq<char>> {
    match value {
        Some(s) => if text::trimmed(s).len() > 0 {
            Some(text::trimmed(s))
        } else {
            None
        },
        None => None,
    }
}

/// The token of the environment, where it is set and not blank.
pub fn env_access_token(value: Option<&str>) -> (token: Option<String>)
    ensures
        json::owned_text(token) == env_token(json::opt_text(value)),
{
    match value {
        Some(s) => {
            let inner = text::trim(s);
            if inner.is_empty() {
                None
            } else {
                Some(text::owned(inner))
            }
        },
        None => None,
    }
}

/// The token of the login that is used where no account is named.
pub open spec fn default_token(
    env: Option<Seq<char>>,
    session: Result<Option<JsonV>, ErrorV>,
) -> Result<Seq<char>, ErrorV> {
    if env_token(env) is Some {
        Ok(env_token(env).unwrap())
    } else {
        match session {
            Err(e) => errors::fail(e.status, e.message),
            Ok(None) => errors::fail(401, "当前没有可用登录态：请先在桌面端完成登录"@),
            Ok(Some(s)) => if login_entry(s, "accessToken"@).len() > 0 {
                Ok(login_entry(s, "accessToken"@))
            } else {
                errors::fail(401, "当前没有可用登录态：请先在桌面端完成登录"@)
            },
        }
    }
}

/// What an optional session or a failure means.
pub open spec fn session_view(session: Result<Option<Json>, GatewayError>) -> Result<
    Option<JsonV>,
    ErrorV,
> {
    match session {
        Ok(s) => Ok(json::owned_view(s)),
        Err(e) => Err(e@),
    }
}

/// The token of the login that is used where no account is named: the
/// environment's, else that of the current session.
pub fn default_session_token(env: Option<&str>, session: &Result<Option<Json>, GatewayError>) -> (
    token: Result<String, GatewayError>)
    ensures
        errors::text_view(token) == default_token(json::opt_text(env), session_view(*session)),
{
    if let Some(token) = env_access_token(env) {
        return Ok(token);
    }
    match session {
        Ok(found) => match found {
            Some(session) => {
                let token = login_entry_of(session, "accessToken");
                if token.as_str().is_empty() {
                    Err(GatewayError::with_status(401, "当前没有可用登录态：请先在桌面端完成登录"))
                } else {
                    Ok(token)
                }
            },
            None => Err(
                GatewayError::with_status(401, "当前没有可用登录态：请先在桌面端完成登录"),
            ),
        },
        Err(error) => Err(
            GatewayError::with_status(error.status_code, error.message.as_str()),
        ),
    }
}

/// How an account is named in a message.
pub open spec fn about(account: Seq<char>, rest: Seq<char>) -> Seq<char> {
    "账号 "@ + account + rest
}

/// How an account is named in a message.
fn about_text(account: &str, rest: &str) -> (message: String)
    ensures
        message@ == about(account@, rest@),
{
    let mut message = text::owned("账号 ");
    message.append(account);
    message.append(rest);
    message
}

/// What to do for a token.
#[derive(Debug)]
pub enum TokenStep {
    /// Take that of the login that is used where no account is named.
    Default,
    /// Renew that of the account.
    Renew,
    /// Use this one.
    Use(String),
}

/// What such a step means.
#[verifier::ext_equal]
pub ghost enum TokenV {
    Default,
    Renew,
    Use(Seq<char>),
}

impl View for TokenStep {
    type V = TokenV;

    open spec fn view(&self) -> TokenV {
        match self {
            TokenStep::Default => TokenV::Default,
            TokenStep::Renew => TokenV::Renew,
            TokenStep::Use(token) => TokenV::Use(token@),
        }
    }
}

/// What a step or a failure means.
pub open spec fn step_view(outcome: Result<TokenStep, GatewayError>) -> Result<TokenV, ErrorV> {
    match outcome {
        Ok(s) => Ok(s@),
        Err(e) => Err(e@),
    }
}

/// When to try a request again, and why.
#[derive(Debug)]
pub struct RetryAdvice {
    pub delay_ms: u64,
    pub reason: String,
}

/// What WorkBuddy answers the gateway with.
#[derive(Debug, Clone, Copy, PartialEq, Eq, Structural)]
pub struct WorkBuddyAdapter;

impl WorkBuddyAdapter {
    pub fn kind(&self) -> (kind: ProviderKind)
        ensures
            kind == ProviderKind::WorkBuddy,
    {
        ProviderKind::WorkBuddy
    }

    /// Whether its list of models can be fetched.
    pub fn supports_model_refresh(&self) -> (yes: bool)
        ensures
            yes,
    {
        true
    }

    /// Whether it can answer without any account.
    pub fn allows_anonymous_default_session(&self) -> (yes: bool)
        ensures
            yes,
    {
        true
    }

    /// Whether a request without a model gets the default one.
    pub fn supports_default_model(&self) -> (yes: bool)
        ensures
            yes,
    {
        true
    }

    /// Whether its credentials can be renewed.
    pub fn supports_refresh(&self) -> (yes: bool)
        ensures
            yes,
    {
        true
    }

    /// Whether it tells what is left on an account.
    pub fn supports_usage(&self) -> (yes: bool)
        ensures
            yes,
    {
        true
    }

    /// Whether the environment holds a token.
    pub fn env_credentials_present(&self, env: Option<&str>) -> (yes: bool)
        ensures
            yes == env_token(json::opt_text(env)) is Some,
    {
        env_access_token(env).is_some()
    }

    /// The request for an answer.
    pub open spec fn plan(
        body: JsonV,
        endpoint: Seq<char>,
        edition: Edition,
        id: Seq<char>,
        account: Seq<(Seq<char>, Seq<char>)>,
    ) -> PlanV {
        PlanV {
            url: endpoint + "/v2/chat/completions"@,
            headers: headers_of(edition, id, account, Some("text/event-stream"@)),
            body: match with_system(body) {
                Some(next) => next,
                None => body,
            },
        }
    }

    /// The request for an answer, with a system prompt first.
    pub fn build_chat_request(
        &self,
        body: &Json,
        endpoint: &str,
        edition: &Edition,
        request_id: &str,
        account: &Vec<(String, String)>,
    ) -> (plan: ChatRequestPlan)
        ensures
            plan@ == Self::plan(
                body@,
                endpoint@,
                *edition,
                request_id@,
                urls::pairs_view(account@),
            ),
    {
        let sent = match ensure_leading_system_message(body) {
            Some(next) => next,
            None => body.clone(),
        };
        ChatRequestPlan {
            url: chat_completions_url(endpoint),
            headers: chat_headers(edition, request_id, account, Some("text/event-stream")),
            body: sent,
        }
    }

    /// What an error of the upstream asks for.
    pub open spec fn class_of(
        status: u16,
        body: JsonV,
        reset_at: int,
        refused: Option<Seq<char>>,
    ) -> ClassV {
        let code = adapter::code_at(body, "code"@);
        let message = adapter::returned(status, adapter::upstream_message(body));
        if status == 401 {
            ClassV::TokenExpired { message }
        } else if status == 429 || code == Some(QUOTA_LIMIT_CODE) {
            ClassV::QuotaLimited {
                reset_at: if reset_at > 0 {
                    Some(reset_at as i64)
                } else {
                    None
                },
                message,
                upstream_code: code,
                status,
            }
        } else if code == Some(RATE_LIMIT_CODE) {
            ClassV::ContentBlocked { status, message: message + WAF_HINT@, upstream_code: code }
        } else {
            adapter::refused_or_fatal(status, refused, message, code)
        }
    }

    /// What an error of the upstream asks for. `reset_at` is the time that its
    /// message names for the quota, 0 for none; `refused` the hint to add where the
    /// message speaks of refused content. Content that is refused by its code has a
    /// hint of its own.
    pub fn classify_error(&self, status: u16, body: &Json, reset_at: i64, refused: Option<&str>) -> (
        class: UpstreamErrorClass)
        ensures
            class@ == Self::class_of(status, body@, reset_at as int, json::opt_text(refused)),
    {
        let code = adapter::code_of(body, "code");
        let raw = adapter::message_of(body);
        let mut message = adapter::returned_text(status, raw.as_str());
        if status == 401 {
            return UpstreamErrorClass::TokenExpired { message };
        }
        let limited = match code {
            Some(n) => n == QUOTA_LIMIT_CODE,
            None => false,
        };
        if status == 429 || limited {
            let reset_at = if reset_at > 0 {
                Some(reset_at)
            } else {
                None
            };
            return UpstreamErrorClass::QuotaLimited {
                reset_at,
                message,
                upstream_code: code,
                status,
            };
        }
        let blocked = match code {
            Some(n) => n == RATE_LIMIT_CODE,
            None => false,
        };
        if blocked {
            message.append(WAF_HINT);
            return UpstreamErrorClass::ContentBlocked { status, message, upstream_code: code };
        }
        adapter::classify_or_fatal(status, refused, message, code)
    }

    /// What to do for the token of an account.
    pub open spec fn token_step(
        account_id: Seq<char>,
        session: Option<JsonV>,
        expiring: bool,
    ) -> Result<TokenV, ErrorV> {
        if account_id.len() == 0 {
            Ok(TokenV::Default)
        } else {
            match session {
                None => errors::fail(401, about(account_id, " 没有可用凭证"@)),
                Some(s) => if expiring && login_entry(s, "refreshToken"@).len() > 0 {
                    Ok(TokenV::Renew)
                } else if login_entry(s, "accessToken"@).len() == 0 {
                    errors::fail(401, about(account_id, " 的 accessToken 为空"@))
                } else {
                    Ok(TokenV::Use(login_entry(s, "accessToken"@)))
                },
            }
        }
    }

    /// What to do for the token of an account. `expiring` says whether the login of
    /// its session is about to end.
    pub fn ensure_access_token(&self, account_id: &str, session: Option<&Json>, expiring: bool) -> (
        step: Result<TokenStep, GatewayError>)
        ensures
            step_view(step) == Self::token_step(account_id@, json::opt_view(session), expiring),
    {
        if account_id.is_empty() {
            return Ok(TokenStep::Default);
        }
        let session = match session {
            Some(session) => session,
            None => {
                let message = about_text(account_id, " 没有可用凭证");
                return Err(GatewayError::with_status(401, message.as_str()));
            },
        };
        let refresh = login_entry_of(session, "refreshToken");
        if expiring && !refresh.as_str().is_empty() {
            return Ok(TokenStep::Renew);
        }
        let token = login_entry_of(session, "accessToken");
        if token.as_str().is_empty() {
            let message = about_text(account_id, " 的 accessToken 为空");
            return Err(GatewayError::with_status(401, message.as_str()));
        }
        Ok(TokenStep::Use(token))
    }

    /// Whether a token that was refused can be renewed: only that of an account.
    pub fn may_refresh(&self, account_id: &str) -> (outcome: Result<(), GatewayError>)
        ensures
            errors::check_view(outcome) == if account_id@.len() == 0 {
                errors::fail(
                    401,
                    "默认登录态的凭证无法续期（环境变量凭证是静态的），请重新登录"@,
                )
            } else {
                Ok(())
            },
    {
        if account_id.is_empty() {
            return Err(
                GatewayError::with_status(
                    401,
                    "默认登录态的凭证无法续期（环境变量凭证是静态的），请重新登录",
                ),
            );
        }
        Ok(())
    }

    /// The token after a renewal.
    pub open spec fn renewed(
        account_id: Seq<char>,
        outcome: Result<Seq<char>, ErrorV>,
        session: Option<JsonV>,
    ) -> Result<Seq<char>, ErrorV> {
        match outcome {
            Ok(token) => Ok(token),
            Err(e) => if e.status != 409 {
                errors::fail(e.status, e.message)
            } else if session is Some && login_entry(session.unwrap(), "accessToken"@).len() > 0 {
                Ok(login_entry(session.unwrap(), "accessToken"@))
            } else {
                errors::fail(409, about(account_id, " 的 token 正在刷新中"@))
            },
        }
    }

    /// The token after a renewal. Where another is under way, the stored token is
    /// taken: `session` is the session as it is now.
    pub fn refresh_access_token(
        &self,
        account_id: &str,
        outcome: Result<String, GatewayError>,
        session: Option<&Json>,
    ) -> (token: Result<String, GatewayError>)
        ensures
            errors::text_view(token) == Self::renewed(
                account_id@,
                errors::text_view(outcome),
                json::opt_view(session),
            ),
    {
        let error = match outcome {
            Ok(token) => return Ok(token),
            Err(error) => error,
        };
        if error.status_code != 409 {
            return Err(GatewayError::with_status(error.status_code, error.message.as_str()));
        }
        if let Some(session) = session {
            let token = login_entry_of(session, "accessToken");
            if !token.as_str().is_empty() {
                return Ok(token);
            }
        }
        let message = about_text(account_id, " 的 token 正在刷新中");
        Err(GatewayError::with_status(409, message.as_str()))
    }

    /// What came of refreshing the list of models: there is no list that is still
    /// good, so what was not refreshed has failed.
    pub fn refresh_models(&self, refreshed: bool, count: usize, reason: &str) -> (outcome:
        ModelRefreshOutcome)
        ensures
            outcome@ == if refreshed {
                RefreshV::Refreshed(count as int)
            } else {
                RefreshV::Failed(reason@)
            },
    {
        if refreshed {
            ModelRefreshOutcome::Refreshed(count)
        } else {
            ModelRefreshOutcome::failed(reason)
        }
    }

    /// Whether to try again after an error: refused content is tried again after a
    /// while, as often as the budget allows.
    pub fn retry_advice(&self, body: &Json, attempt: usize, budget: usize, delay_ms: u64) -> (advice:
        Option<RetryAdvice>)
        ensures
            match advice {
                Some(a) => adapter::code_at(body@, "code"@) == Some(RATE_LIMIT_CODE) && attempt
                    < budget && a.delay_ms == delay_ms && a.reason@
                    == "上游敏感词拦截（11128），请检查提示词中的敏感词（可在设置页「通用 → 指纹脱敏」开关）"@,
                None => adapter::code_at(body@, "code"@) != Some(RATE_LIMIT_CODE) || attempt
                    >= budget,
            },
    {
        match adapter::code_of(body, "code") {
            Some(code) => if code != RATE_LIMIT_CODE {
                return None;
            },
            None => return None,
        }
        if attempt >= budget {
            return None;
        }
        Some(
            RetryAdvice {
                delay_ms,
                reason: text::owned(
                    "上游敏感词拦截（11128），请检查提示词中的敏感词（可在设置页「通用 → 指纹脱敏」开关）",
                ),
            },
        )
    }

    /// Whether the login of an account should be renewed now. `expiring` says
    /// whether it is about to end.
    pub fn credentials_expiring(&self, account_id: &str, session: Option<&Json>, expiring: bool) -> (
        yes: bool)
        ensures
            yes == (account_id@.len() > 0 && expiring && match json::opt_view(session) {
                Some(s) => login_entry(s, "refreshToken"@).len() > 0,
                None => false,
            }),
    {
        if account_id.is_empty() {
            return false;
        }
        match session {
            Some(session) => expiring && !login_entry_of(
                session,
                "refreshToken",
            ).as_str().is_empty(),
            None => false,
        }
    }

    /// The session whose points are asked for.
    pub fn query_usage<'a>(&self, session: Option<&'a Json>) -> (found: Result<
        &'a Json,
        GatewayError,
    >)
        ensures
            match found {
                Ok(s) => json::opt_view(session) == Some(s@),
                Err(e) => session is None && e@ == ErrorV::plain(
                    401,
                    "该账号没有可用凭证，无法查询积分"@,
                ),
            },
    {
        match session {
            Some(session) => Ok(session),
            None => Err(GatewayError::with_status(401, "该账号没有可用凭证，无法查询积分")),
        }
    }
}

/// A request that has got a system prompt keeps its messages behind it and its
/// other entries, and gets no second one.
pub proof fn one_system_prompt_is_enough(body: JsonV, key: Seq<char>)
    requires
        body is Obj,
        with_system(body) is Some,
    ensures
        ({
            let next = with_system(body).unwrap();
            &&& messages_in(next).len() == messages_in(body).len() + 1
            &&& messages_in(next).skip(1) == messages_in(body)
            &&& key != "messages"@ ==> next.get(key) == body.get(key)
            &&& with_system(next) is None
        }),
{
    let next = with_system(body).unwrap();
    let all = messages_in(body);
    assert(messages_in(next) == seq![default_system()] + all);
    assert((seq![default_system()] + all).skip(1) =~= all);
    reveal_strlit("role");
    reveal_strlit("content");
    assert("role"@.len() == 4 && "content"@.len() == 7);
    assert(default_system().shown_at("role"@) == "system"@);
    reveal_strlit("system");
    reveal(text::lowercase);
    assert(is_ascii_chars("system"@));
    assert(text::ascii_lowercase("system"@) =~= "system"@);
}

} // verus!
