//! What the gateway asks of Trae.
use crate::errors;
use crate::errors::{ErrorV, GatewayError};
use crate::json;
use crate::json::{Json, JsonV};
use crate::providers::adapter;
use crate::providers::adapter::{
    ChatRequestPlan, ClassV, ModelRefreshOutcome, PlanV, RefreshV, UpstreamErrorClass,
};
use crate::providers::kind::ProviderKind;
use crate::proxies;
use crate::proxies::{ClashSnapshot, ProxyResolution, ResolutionV, ResolvedProxy};
use crate::text;
use crate::urls;
use vstd::prelude::*;
use vstd::string::*;

verus! {

/// The path of the service that answers.
pub const CHAT_PATH: &'static str = "/api/agent/v3/llm_utils_chat";

/// Who sends a request, and from where.
#[derive(Debug)]
pub struct Sender {
    pub token: String,
    pub user_id: String,
    pub machine_id: String,
    pub device_id: String,
}

/// What a sender means.
#[verifier::ext_equal]
pub ghost struct SenderV {
    pub token: Seq<char>,
    pub user_id: Seq<char>,
    pub machine_id: Seq<char>,
    pub device_id: Seq<char>,
}

impl View for Sender {
    type V = SenderV;

    open spec fn view(&self) -> SenderV {
        SenderV {
            token: self.token@,
            user_id: self.user_id@,
            machine_id: self.machine_id@,
            device_id: self.device_id@,
        }
    }
}

/// What a sender or a failure means.
pub open spec fn sender_view(outcome: Result<Sender, GatewayError>) -> Result<SenderV, ErrorV> {
    match outcome {
        Ok(s) => Ok(s@),
        Err(e) => Err(e@),
    }
}

/// A request for an answer, and the model that it asks for.
#[derive(Debug)]
pub struct TraeChatPlan {
    pub url: String,
    pub headers: Vec<(String, String)>,
    pub body: Json,
    pub model: String,
}

/// What such a request means.
#[verifier::ext_equal]
pub ghost struct TraePlanV {
    pub url: Seq<char>,
    pub headers: Seq<(Seq<char>, Seq<char>)>,
    pub body: JsonV,
    pub model: Seq<char>,
}

impl View for TraeChatPlan {
    type V = TraePlanV;

    open spec fn view(&self) -> TraePlanV {
        TraePlanV {
            url: self.url@,
            headers: urls::pairs_view(self.headers@),
            body: self.body@,
            model: self.model@,
        }
    }
}

/// The text of an entry of an entry, empty where there is none.
pub open spec fn text_in(account: JsonV, outer: Seq<char>, inner: Seq<char>) -> Seq<char> {
    match account.at(outer, inner) {
        Some(JsonV::Str(s)) => s,
        _ => Seq::empty(),
    }
}

/// The text of an entry of an entry, empty where there is none.
fn text_at(account: &Json, outer: &str, inner: &str) -> (content: String)
    ensures
        content@ == text_in(account@, outer@, inner@),
{
    match account.at(outer, inner) {
        Some(value) => match value.as_text() {
            Some(s) => text::owned(s),
            None => String::new(),
        },
        None => String::new(),
    }
}

/// The record of an account, or that there is none.
pub fn credentials_for(record: Option<&Json>) -> (found: Result<&Json, GatewayError>)
    ensures
        match found {
            Ok(r) => json::opt_view(record) == Some(r@),
            Err(e) => record is None && e@ == ErrorV::plain(401, "没有可用的 Trae 账号"@),
        },
{
    match record {
        Some(record) => Ok(record),
        None => Err(GatewayError::with_status(401, "没有可用的 Trae 账号")),
    }
}

/// Whether to renew credentials: where that is asked for, or they are about to
/// end.
pub fn refresh_if_needed(force: bool, expiring: bool) -> (renew: bool)
    ensures
        renew == (force || expiring),
{
    force || expiring
}

/// The proxy of an account, or why it cannot be used.
pub fn account_proxy(record: Option<&Json>, clash: &ClashSnapshot) -> (outcome: Result<
    Option<ResolvedProxy>,
    GatewayError,
>)
    ensures
        match json::opt_view(record) {
            None => outcome is Err && outcome->Err_0@ == ErrorV::plain(
                401,
                "没有可用的 Trae 账号"@,
            ),
            Some(r) => match outcome {
                Ok(Some(proxy)) => proxies::resolves_to(
                    r.get("proxy"@),
                    clash@,
                    Some(ResolutionV::Resolved(proxy@)),
                ),
                Ok(None) => proxies::resolves_to(r.get("proxy"@), clash@, None),
                Err(e) => e@ == ErrorV::plain(400, e@.message) && proxies::resolves_to(
                    r.get("proxy"@),
                    clash@,
                    Some(ResolutionV::Failed(e@.message)),
                ),
            },
        },
{
    let record = match credentials_for(record) {
        Ok(record) => record,
        Err(error) => return Err(error),
    };
    match proxies::resolve_account_proxy(record.get("proxy"), clash) {
        Some(resolution) => match resolution {
            ProxyResolution::Resolved(proxy) => Ok(Some(proxy)),
            ProxyResolution::Failed(reason) => Err(
                GatewayError::with_status(400, reason.as_str()),
            ),
        },
        None => Ok(None),
    }
}

/// What Trae answers the gateway with.
#[derive(Debug, Clone, Copy, PartialEq, Eq, Structural)]
pub struct TraeAdapter;

impl TraeAdapter {
    pub fn kind(&self) -> (kind: ProviderKind)
        ensures
            kind == ProviderKind::Trae,
    {
        ProviderKind::Trae
    }

    /// Whether it answers conversations.
    pub fn supports_chat(&self) -> (yes: bool)
        ensures
            yes,
    {
        true
    }

    /// Whether it sends a conversation itself, and translates what comes back.
    pub fn is_stateful(&self) -> (yes: bool)
        ensures
            yes,
    {
        true
    }

    /// Whether its credentials can be renewed.
    pub fn supports_refresh(&self) -> (yes: bool)
        ensures
            yes,
    {
        true
    }

    /// Whether it tells what is left on an account.
    pub fn supports_usage(&self) -> (yes: bool)
        ensures
            yes,
    {
        true
    }

    /// Whether its list of models can be fetched.
    pub fn supports_model_refresh(&self) -> (yes: bool)
        ensures
            yes,
    {
        true
    }

    /// Whether a request without a model gets the default one.
    pub fn supports_default_model(&self) -> (yes: bool)
        ensures
            yes,
    {
        true
    }

    /// Whether the model in an answer is set back to the one that was asked for.
    pub fn sse_model_rewrite(&self) -> (yes: bool)
        ensures
            !yes,
    {
        false
    }

    /// Who sends a request: the login of a session.
    pub open spec fn sender_in(account: JsonV) -> Result<SenderV, ErrorV> {
        if text_in(account, "auth"@, "accessToken"@).len() == 0 {
            errors::fail(401, "Trae 账号缺少 accessToken，无法转发"@)
        } else {
            Ok(
                SenderV {
                    token: text_in(account, "auth"@, "accessToken"@),
                    user_id: text_in(account, "account"@, "uid"@),
                    machine_id: text_in(account, "auth"@, "machineId"@),
                    device_id: text_in(account, "auth"@, "deviceId"@),
                },
            )
        }
    }

    /// Who sends a request: the login of a session.
    pub fn sender(&self, account: &Json) -> (sender: Result<Sender, GatewayError>)
        ensures
            sender_view(sender) == Self::sender_in(account@),
    {
        let token = text_at(account, "auth", "accessToken");
        if token.as_str().is_empty() {
            return Err(GatewayError::with_status(401, "Trae 账号缺少 accessToken，无法转发"));
        }
        Ok(
            Sender {
                token,
                user_id: text_at(account, "account", "uid"),
                machine_id: text_at(account, "auth", "machineId"),
                device_id: text_at(account, "auth", "deviceId"),
            },
        )
    }

    /// The address of the service that answers.
    fn chat_url(&self, host: &str) -> (url: String)
        ensures
            url@ == host@ + CHAT_PATH@,
    {
        let mut url = text::owned(host);
        url.append(CHAT_PATH);
        url
    }

    /// The request for an answer, once its body is prepared.
    pub open spec fn plan(
        account: JsonV,
        host: Seq<char>,
        prepared: Result<JsonV, ErrorV>,
        headers: Seq<(Seq<char>, Seq<char>)>,
    ) -> Result<PlanV, ErrorV> {
        match Self::sender_in(account) {
            Err(e) => Err(e),
            Ok(_) => match prepared {
                Err(e) => Err(e),
                Ok(body) => Ok(PlanV { url: host + CHAT_PATH@, headers, body }),
            },
        }
    }

    /// The request for an answer: a session without a token sends none, and a body
    /// that could not be prepared is not sent. `headers` are those of the sender.
    pub fn build_chat_request(
        &self,
        account: &Json,
        host: &str,
        prepared: Result<Json, GatewayError>,
        headers: Vec<(String, String)>,
    ) -> (plan: Result<ChatRequestPlan, GatewayError>)
        ensures
            adapter::plan_view(plan) == Self::plan(
                account@,
                host@,
                match prepared {
                    Ok(body) => Ok(body@),
                    Err(e) => Err(e@),
                },
                urls::pairs_view(headers@),
            ),
    {
        match self.sender(account) {
            Ok(_) => {},
            Err(error) => return Err(error),
        }
        match prepared {
            Ok(body) => Ok(ChatRequestPlan { url: self.chat_url(host), headers, body }),
            Err(error) => Err(error),
        }
    }

    /// The model that a request asks for, else the default one.
    pub open spec fn model_in(body: JsonV, default: Seq<char>) -> Seq<char> {
        match body.text_at("model"@) {
            Some(s) => if text::trimmed(s).len() > 0 {
                text::trimmed(s)
            } else {
                default
            },
            None => default,
        }
    }

    /// The model that a request asks for, else the default one.
    fn model_of(&self, body: &Json, default: &str) -> (model: String)
        ensures
            model@ == Self::model_in(body@, default@),
    {
        if let Some(s) = body.text_at("model") {
            let inner = text::trim(s);
            if !inner.is_empty() {
                return text::owned(inner);
            }
        }
        text::owned(default)
    }

    /// The request for an answer, and the model that it asks for. A body that could
    /// not be prepared is not sent.
    pub fn chat_plan(
        &self,
        body: &Json,
        default: &str,
        host: &str,
        prepared: Result<Json, GatewayError>,
        headers: Vec<(String, String)>,
    ) -> (plan: Result<TraeChatPlan, GatewayError>)
        ensures
            match plan {
                Ok(p) => prepared is Ok && p@ == (TraePlanV {
                    url: host@ + CHAT_PATH@,
                    headers: urls::pairs_view(headers@),
                    body: prepared->Ok_0@,
                    model: Self::model_in(body@, default@),
                }),
                Err(e) => prepared is Err && e@ == prepared->Err_0@,
            },
    {
        let model = self.model_of(body, default);
        match prepared {
            Ok(body) => Ok(TraeChatPlan { url: self.chat_url(host), headers, body, model }),
            Err(error) => Err(error),
        }
    }

    /// What an error of the upstream means.
    pub open spec fn class_of(status: u16, body: JsonV) -> ClassV {
        let code = adapter::code_at(body, "code"@);
        let message = adapter::returned(status, adapter::spoken_message(body));
        if status == 401 || code == Some(1001i64) {
            ClassV::TokenExpired { message }
        } else if status == 429 || code == Some(4008i64) || code == Some(4010i64) {
            ClassV::QuotaLimited {
                reset_at: None,
                message,
                upstream_code: code,
                status: if status == 0 {
                    429
                } else {
                    status
                },
            }
        } else {
            ClassV::Fatal { status, message, upstream_code: code }
        }
    }

    /// What an error of the upstream asks for.
    pub fn classify_error(&self, status: u16, body: &Json) -> (class: UpstreamErrorClass)
        ensures
            class@ == Self::class_of(status, body@),
    {
        let code = adapter::code_of(body, "code");
        let raw = adapter::message_spoken(body);
        let message = adapter::returned_text(status, raw.as_str());
        let known: i64 = match code {
            Some(n) => n,
            None => 0,
        };
        if status == 401 || known == 1001 {
            return UpstreamErrorClass::TokenExpired { message };
        }
        if status == 429 || known == 4008 || known == 4010 {
            let status: u16 = if status == 0 {
                429
            } else {
                status
            };
            return UpstreamErrorClass::QuotaLimited {
                reset_at: None,
                message,
                upstream_code: code,
                status,
            };
        }
        UpstreamErrorClass::Fatal { status, message, upstream_code: code }
    }

    /// What refreshing the list of models ends with before anything is fetched:
    /// without an account nothing changes, and with bad credentials it fails.
    pub fn refresh_models(&self, has_record: bool, valid: bool) -> (ended: Option<
        ModelRefreshOutcome,
    >)
        ensures
            match ended {
                Some(outcome) => if !has_record {
                    outcome@ == RefreshV::Unchanged
                } else {
                    !valid && outcome@ == RefreshV::Failed("Trae 账号凭证无效，请重新登录"@)
                },
                None => has_record && valid,
            },
    {
        if !has_record {
            return Some(ModelRefreshOutcome::Unchanged);
        }
        if !valid {
            return Some(ModelRefreshOutcome::failed("Trae 账号凭证无效，请重新登录"));
        }
        None
    }

    /// The error of an answer that failed as a whole: the beginning of what it says.
    pub fn http_error(&self, status: u16, content: &str) -> (error: GatewayError)
        ensures
            error@ == ErrorV::plain(
                status as int,
                "Trae 上游返回 "@ + text::decimal(status as nat) + ": "@ + text::first_chars(
                    content@,
                    300,
                ),
            ),
    {
        let mut message = text::owned("Trae 上游返回 ");
        message.append(text::decimal_text(status as u64).as_str());
        message.append(": ");
        message.append(text::take_chars(content, 300));
        GatewayError::with_status(status as i32, message.as_str())
    }

    /// The error of a request that could not be sent.
    pub fn send_error(&self, reason: &str) -> (error: GatewayError)
        ensures
            error@ == ErrorV::plain(502, "Trae 上游请求失败："@ + reason@),
    {
        let mut message = text::owned("Trae 上游请求失败：");
        message.append(reason);
        GatewayError::with_status(502, message.as_str())
    }

    /// The error of an answer that broke off.
    pub fn broken_error(&self, reason: &str) -> (error: GatewayError)
        ensures
            error@ == ErrorV::plain(502, "Trae 上游流中断："@ + reason@),
    {
        let mut message = text::owned("Trae 上游流中断：");
        message.append(reason);
        GatewayError::with_status(502, message.as_str())
    }
}

} // verus!
