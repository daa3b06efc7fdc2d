//! What the gateway asks of Raccoon.
use super::balance;
use super::credentials::RaccoonCredentials;
use super::jwt;
use super::oauth;
use crate::errors;
use crate::errors::{ErrorV, GatewayError};
use crate::json;
use crate::json::{Json, JsonV};
use crate::providers::adapter;
use crate::providers::adapter::{ChatRequestPlan, ClassV, PlanV, UpstreamErrorClass};
use crate::providers::kind::ProviderKind;
use crate::proxies;
use crate::proxies::{ProxyV, ResolvedProxy};
use crate::text;
use crate::upstream::request;
use crate::urls;
use vstd::prelude::*;
use vstd::string::*;

verus! {

pub const DEFAULT_LLM_BASE_URL: &'static str = "https://xiaohuanxiong.com/api/web/llm/v2";
pub const DEFAULT_AUTH_ORIGIN: &'static str = "https://xiaohuanxiong.com";
pub const DEFAULT_AUTH_API_PREFIX: &'static str = "/api/web/auth/v1";

/// A configured base without slashes at its end, or another where it is missing
/// or blank.
pub open spec fn base_or(configured: Option<Seq<char>>, otherwise: Seq<char>) -> Seq<char> {
    if configured is Some && text::trimmed(configured.unwrap()).len() > 0 {
        balance::without_slashes(text::trimmed(configured.unwrap()))
    } else {
        otherwise
    }
}

/// A configured base without slashes at its end, or another where it is missing
/// or blank.
fn base_url_from(configured: Option<&str>, otherwise: &str) -> (base: String)
    ensures
        base@ == base_or(json::opt_text(configured), otherwise@),
{
    if let Some(configured) = configured {
        let inner = text::trim(configured);
        if !inner.is_empty() {
            return text::owned(balance::trim_slashes(inner));
        }
    }
    text::owned(otherwise)
}

/// The base of the service that answers: the configured one, else the known one.
pub fn llm_base_url(configured: Option<&str>) -> (base: String)
    ensures
        base@ == base_or(json::opt_text(configured), DEFAULT_LLM_BASE_URL@),
{
    base_url_from(configured, DEFAULT_LLM_BASE_URL)
}

/// The base of the services for logins: the configured one, else the known one.
pub fn auth_api_base(configured: Option<&str>) -> (base: String)
    ensures
        base@ == base_or(
            json::opt_text(configured),
            DEFAULT_AUTH_ORIGIN@ + DEFAULT_AUTH_API_PREFIX@,
        ),
{
    let mut otherwise = text::owned(DEFAULT_AUTH_ORIGIN);
    otherwise.append(DEFAULT_AUTH_API_PREFIX);
    base_url_from(configured, otherwise.as_str())
}

/// The token of the environment.
pub open spec fn env_token(value: Option<Seq<char>>) -> Option<Seq<char>> {
    match value {
        Some(s) => if jwt::bare(s).len() > 0 {
            Some(jwt::bare(s))
        } else {
            None
        },
        None => None,
    }
}

/// The token of the environment, where it is set and not blank.
pub fn env_access_token(value: Option<&str>) -> (token: Option<String>)
    ensures
        json::owned_text(token) == env_token(json::opt_text(value)),
{
    match value {
        Some(s) => {
            let token = jwt::strip_bearer(s);
            if token.as_str().is_empty() {
                None
            } else {
                Some(token)
            }
        },
        None => None,
    }
}

/// Whether a session goes by a proxy: a broken one is not used.
pub open spec fn proxy_in(session: Option<JsonV>, proxy: Option<ResolvedProxy>) -> bool {
    match session {
        None => proxy is None,
        Some(s) => match proxy {
            Some(p) => proxies::stored(
                s.field("proxy"@),
                Ok::<Option<ProxyV>, Seq<char>>(Some(p@)),
            ),
            None => proxies::stored(s.field("proxy"@), Ok::<Option<ProxyV>, Seq<char>>(None))
                || exists|reason: Seq<char>| #[trigger]
                proxies::stored(
                    s.field("proxy"@),
                    Err::<Option<ProxyV>, Seq<char>>(reason),
                ),
        },
    }
}

/// The proxy of the current session; one that is broken is not used.
fn proxy_of(current: Option<&Json>) -> (proxy: Option<ResolvedProxy>)
    ensures
        proxy_in(json::opt_view(current), proxy),
{
    match current {
        Some(session) => proxies::session_proxy(session).0,
        None => None,
    }
}

/// What to do for a token.
#[derive(Debug)]
pub enum TokenSource {
    /// Use this token.
    Env(String),
    /// Take the credentials of the account, and renew them where needed.
    Account,
}

/// What Raccoon answers the gateway with.
#[derive(Debug, Clone, Copy, PartialEq, Eq, Structural)]
pub struct RaccoonAdapter;

impl RaccoonAdapter {
    pub fn kind(&self) -> (kind: ProviderKind)
        ensures
            kind == ProviderKind::Raccoon,
    {
        ProviderKind::Raccoon
    }

    /// Whether its list of models can be fetched.
    pub fn supports_model_refresh(&self) -> (yes: bool)
        ensures
            yes,
    {
        true
    }

    /// Whether it can answer without any account.
    pub fn allows_anonymous_default_session(&self) -> (yes: bool)
        ensures
            yes,
    {
        true
    }

    /// Whether a request without a model gets the default one.
    pub fn supports_default_model(&self) -> (yes: bool)
        ensures
            !yes,
    {
        false
    }

    /// Whether the model in an answer is set back to the one that was asked for.
    pub fn sse_model_rewrite(&self) -> (yes: bool)
        ensures
            yes,
    {
        true
    }

    /// Whether its credentials can be renewed.
    pub fn supports_refresh(&self) -> (yes: bool)
        ensures
            yes,
    {
        true
    }

    /// Whether an account can log in on a page of its own.
    pub fn supports_web_login(&self) -> (yes: bool)
        ensures
            yes,
    {
        true
    }

    /// Whether it tells what is left on an account.
    pub fn supports_usage(&self) -> (yes: bool)
        ensures
            yes,
    {
        true
    }

    /// Whether the environment holds a token.
    pub fn env_credentials_present(&self, env: Option<&str>) -> (yes: bool)
        ensures
            yes == env_token(json::opt_text(env)) is Some,
    {
        env_access_token(env).is_some()
    }

    /// The request for an answer: the body goes on as it is.
    pub open spec fn plan(account: JsonV, body: JsonV, base: Seq<char>) -> Result<PlanV, ErrorV> {
        let token = match account.at("auth"@, "accessToken"@) {
            Some(JsonV::Str(s)) => s,
            _ => Seq::empty(),
        };
        if token.len() == 0 {
            errors::fail(401, "小浣熊账号缺少 accessToken，无法转发"@)
        } else {
            Ok(
                PlanV {
                    url: base + "/chat/completions"@,
                    headers: Seq::empty().push(("Content-Type"@, "application/json"@)).push(
                        ("Accept"@, "*/*"@),
                    ).push(("Authorization"@, "Bearer "@ + token)),
                    body,
                },
            )
        }
    }

    /// The request for an answer: the body goes on as it is.
    pub fn build_chat_request(&self, account: &Json, body: &Json, base: &str) -> (plan: Result<
        ChatRequestPlan,
        GatewayError,
    >)
        ensures
            adapter::plan_view(plan) == Self::plan(account@, body@, base@),
    {
        let token = match account.at("auth", "accessToken") {
            Some(value) => match value.as_text() {
                Some(s) => text::owned(s),
                None => String::new(),
            },
            None => String::new(),
        };
        if token.as_str().is_empty() {
            return Err(GatewayError::with_status(401, "小浣熊账号缺少 accessToken，无法转发"));
        }
        let mut headers = urls::no_pairs();
        urls::push_pair(&mut headers, "Content-Type", "application/json");
        urls::push_pair(&mut headers, "Accept", "*/*");
        let mut bearer = text::owned("Bearer ");
        bearer.append(token.as_str());
        urls::push_pair(&mut headers, "Authorization", bearer.as_str());
        let mut url = text::owned(base);
        url.append("/chat/completions");
        Ok(ChatRequestPlan { url, headers, body: body.clone() })
    }

    /// What an error of the upstream means.
    pub open spec fn class_of(status: u16, body: JsonV, refused: Option<Seq<char>>) -> ClassV {
        let message = adapter::returned(status, adapter::upstream_message(body));
        if status == 401 {
            ClassV::TokenExpired { message }
        } else if status == 429 {
            ClassV::QuotaLimited { reset_at: None, message, upstream_code: None, status }
        } else {
            adapter::refused_or_fatal(status, refused, message, adapter::code_at(body, "code"@))
        }
    }

    /// What an error of the upstream asks for: a refused login is renewed, too many
    /// requests take another account.
    pub fn classify_error(&self, status: u16, body: &Json, refused: Option<&str>) -> (class:
        UpstreamErrorClass)
        ensures
            class@ == Self::class_of(status, body@, json::opt_text(refused)),
    {
        let raw = adapter::message_of(body);
        let message = adapter::returned_text(status, raw.as_str());
        if status == 401 {
            return UpstreamErrorClass::TokenExpired { message };
        }
        if status == 429 {
            return UpstreamErrorClass::QuotaLimited {
                reset_at: None,
                message,
                upstream_code: None,
                status,
            };
        }
        let code = adapter::code_of(body, "code");
        adapter::classify_or_fatal(status, refused, message, code)
    }

    /// Where the token for a request comes from: the environment's only where no
    /// account is named.
    pub fn ensure_access_token(&self, account_id: &str, env: Option<&str>) -> (source: TokenSource)
        ensures
            match source {
                TokenSource::Env(token) => account_id@.len() == 0 && env_token(
                    json::opt_text(env),
                ) == Some(token@),
                TokenSource::Account => account_id@.len() > 0 || env_token(
                    json::opt_text(env),
                ) is None,
            },
    {
        if account_id.is_empty() {
            if let Some(token) = env_access_token(env) {
                return TokenSource::Env(token);
            }
        }
        TokenSource::Account
    }

    /// Whether a token that was refused can be renewed: the environment's cannot.
    pub fn refresh_access_token(&self, account_id: &str, env: Option<&str>) -> (outcome: Result<
        (),
        GatewayError,
    >)
        ensures
            errors::check_view(outcome) == if account_id@.len() == 0 && env_token(
                json::opt_text(env),
            ) is Some {
                errors::fail(
                    401,
                    "环境变量凭证（RACCOON_TOKEN）无法续期，请改用账号列表添加账号"@,
                )
            } else {
                Ok(())
            },
    {
        if account_id.is_empty() && env_access_token(env).is_some() {
            return Err(
                GatewayError::with_status(
                    401,
                    "环境变量凭证（RACCOON_TOKEN）无法续期，请改用账号列表添加账号",
                ),
            );
        }
        Ok(())
    }

    /// What the list of models is fetched with: the token as it is, by the proxy of
    /// the current session. Without credentials the list is fetched without a
    /// token, and directly.
    pub fn refresh_models(
        &self,
        credentials: Result<&RaccoonCredentials, &GatewayError>,
        current: Option<&Json>,
    ) -> (way: (String, Option<ResolvedProxy>))
        ensures
            match credentials {
                Ok(c) => way.0@ == c@.token && proxy_in(json::opt_view(current), way.1),
                Err(_) => way.0@ == Seq::<char>::empty() && way.1 is None,
            },
    {
        match credentials {
            Ok(credentials) => (text::owned(credentials.token.as_str()), proxy_of(current)),
            Err(_) => (String::new(), None),
        }
    }

    /// The address for a login at the configured site, and its state, from two
    /// random numbers.
    pub fn build_login_url(&self, configured: Option<&str>, first: u64, second: u64) -> (login: (
        String,
        String,
    ))
        ensures
            login.1@ == request::request_id(first, second),
            login.0@ == oauth::authorize_url(
                balance::configured_or(json::opt_text(configured), DEFAULT_AUTH_ORIGIN@),
                login.1@,
            ),
    {
        let state = oauth::new_login_state(first, second);
        let origin = oauth::main_origin(configured);
        (oauth::build_authorize_url(origin.as_str(), state.as_str()), state)
    }

    /// Whether the credentials of an account should be renewed now. An account
    /// that is not there has none.
    pub fn credentials_expiring(
        &self,
        account_id: &str,
        has_record: bool,
        credentials: Option<&RaccoonCredentials>,
        now_ms: u64,
    ) -> (yes: bool)
        ensures
            yes == (account_id@.len() > 0 && has_record && match credentials {
                Some(c) => c@.refresh_token.len() > 0 && c@.ending(now_ms as nat),
                None => false,
            }),
    {
        if account_id.is_empty() || !has_record {
            return false;
        }
        match credentials {
            Some(c) => c.can_refresh() && c.is_expiring(now_ms),
            None => false,
        }
    }
}

} // verus!
