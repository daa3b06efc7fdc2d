//! What the gateway asks of ZCode.
use super::models;
use super::region;
use super::region::Region;
use crate::errors;
use crate::errors::{ErrorV, GatewayError};
use crate::json;
use crate::json::{Json, JsonV};
use crate::providers::adapter;
use crate::providers::adapter::{
    ChatRequestPlan, ClassV, ModelRefreshOutcome, PlanV, RefreshV, UpstreamErrorClass,
};
use crate::providers::kind::ProviderKind;
use crate::text;
use crate::urls;
use vstd::prelude::*;
use vstd::string::*;

verus! {

/// What ZCode answers the gateway with, in one region.
#[derive(Debug, Clone, Copy, PartialEq, Eq, Structural)]
pub struct ZcodeAdapter {
    region: Region,
}

/// The token for answers in a session, without space around it.
pub open spec fn token_in(session: JsonV) -> Seq<char> {
    match session.at("auth"@, "accessToken"@) {
        Some(JsonV::Str(s)) => text::trimmed(s),
        _ => Seq::empty(),
    }
}

/// The token for answers in a session, without space around it.
fn find_token(session: &Json) -> (token: String)
    ensures
        token@ == token_in(session@),
{
    match session.at("auth", "accessToken") {
        Some(value) => match value.as_text() {
            Some(s) => text::owned(text::trim(s)),
            None => String::new(),
        },
        None => String::new(),
    }
}

/// The token for answers of a session, where there is one.
pub open spec fn session_token(session: Option<JsonV>) -> Result<Seq<char>, ErrorV> {
    match session {
        None => errors::fail(401, "没有可用的 ZCode 账号，请先在「账号」页添加"@),
        Some(s) => if token_in(s).len() == 0 {
            errors::fail(401, "ZCode 账号缺少 accessToken，请重新登录"@)
        } else {
            Ok(token_in(s))
        },
    }
}

/// The token for answers of a session, where there is one.
fn session_access_token(session: Option<&Json>) -> (token: Result<String, GatewayError>)
    ensures
        errors::text_view(token) == session_token(json::opt_view(session)),
{
    let session = match session {
        Some(session) => session,
        None => return Err(
            GatewayError::with_status(401, "没有可用的 ZCode 账号，请先在「账号」页添加"),
        ),
    };
    let token = find_token(session);
    if token.as_str().is_empty() {
        return Err(GatewayError::with_status(401, "ZCode 账号缺少 accessToken，请重新登录"));
    }
    Ok(token)
}

/// The request for an answer.
pub open spec fn plan_for(base: Seq<char>, account: JsonV, body: JsonV) -> Result<PlanV, ErrorV> {
    if token_in(account).len() == 0 {
        errors::fail(401, "ZCode 账号缺少 accessToken，无法转发"@)
    } else {
        Ok(
            PlanV {
                url: base + "/chat/completions"@,
                headers: Seq::empty().push(("Content-Type"@, "application/json"@)).push(
                    ("Accept"@, "*/*"@),
                ).push(("Authorization"@, "Bearer "@ + token_in(account))),
                body,
            },
        )
    }
}

/// What an error of the upstream means.
pub open spec fn class_of(status: u16, body: JsonV, refused: Option<Seq<char>>) -> ClassV {
    let message = adapter::returned(status, adapter::spoken_message(body));
    if status == 401 {
        ClassV::TokenExpired { message }
    } else if status == 429 {
        ClassV::QuotaLimited { reset_at: None, message, upstream_code: None, status }
    } else {
        adapter::refused_or_fatal(status, refused, message, adapter::code_at(body, "code"@))
    }
}

impl ZcodeAdapter {
    pub closed spec fn spec_region(self) -> Region {
        self.region
    }

    pub fn new(region: Region) -> (adapter: Self)
        ensures
            adapter.spec_region() == region,
    {
        ZcodeAdapter { region }
    }

    pub fn region(&self) -> (region: Region)
        ensures
            region == self.spec_region(),
    {
        self.region
    }

    /// The base of the service that answers: the configured one, else the known
    /// one.
    pub open spec fn base(self, set: Option<Seq<char>>) -> Seq<char> {
        match region::override_in(set) {
            Some(s) => s,
            None => self.spec_region().spec_openai_base_url(),
        }
    }

    /// The base of the service that answers: the configured one, else the known
    /// one.
    pub fn openai_base_url(&self, set: Option<&str>) -> (base: String)
        ensures
            base@ == self.base(json::opt_text(set)),
    {
        match self.region.env_override(set) {
            Some(base) => base,
            None => text::owned(self.region.openai_base_url()),
        }
    }

    pub fn kind(&self) -> (kind: ProviderKind)
        ensures
            kind == self.spec_region().spec_kind(),
    {
        self.region.kind()
    }

    /// The models, as they are listed.
    pub fn list_models(&self) -> (items: Vec<Json>)
        ensures
            json::list_view(items@) == models::listing(),
    {
        models::list(self.region)
    }

    /// The request for an answer: the body goes on as it is.
    pub fn build_chat_request(&self, account: &Json, body: &Json, set: Option<&str>) -> (plan: Result<
        ChatRequestPlan,
        GatewayError,
    >)
        ensures
            adapter::plan_view(plan) == plan_for(
                self.base(json::opt_text(set)),
                account@,
                body@,
            ),
    {
        let token = find_token(account);
        if token.as_str().is_empty() {
            return Err(GatewayError::with_status(401, "ZCode 账号缺少 accessToken，无法转发"));
        }
        let mut bearer = text::owned("Bearer ");
        bearer.append(token.as_str());
        let mut headers = urls::no_pairs();
        urls::push_pair(&mut headers, "Content-Type", "application/json");
        urls::push_pair(&mut headers, "Accept", "*/*");
        urls::push_pair(&mut headers, "Authorization", bearer.as_str());
        let mut url = self.openai_base_url(set);
        url.append("/chat/completions");
        Ok(ChatRequestPlan { url, headers, body: body.clone() })
    }

    /// What an error of the upstream asks for. `refused` holds the hint to add
    /// where the upstream refused the content.
    pub fn classify_error(&self, status: u16, body: &Json, refused: Option<&str>) -> (class:
        UpstreamErrorClass)
        ensures
            class@ == class_of(status, body@, json::opt_text(refused)),
    {
        let raw = adapter::message_spoken(body);
        let message = adapter::returned_text(status, raw.as_str());
        if status == 401 {
            return UpstreamErrorClass::TokenExpired { message };
        }
        if status == 429 {
            return UpstreamErrorClass::QuotaLimited {
                reset_at: None,
                message,
                upstream_code: None,
                status,
            };
        }
        adapter::classify_or_fatal(status, refused, message, adapter::code_of(body, "code"))
    }

    /// The token for answers: of the account that is named, else of the current
    /// one. An account that is named and not there is not replaced by another.
    pub fn ensure_access_token(
        &self,
        account_id: &str,
        named: Option<&Json>,
        current: Option<&Json>,
    ) -> (token: Result<String, GatewayError>)
        ensures
            errors::text_view(token) == session_token(
                json::opt_view(
                    if text::trimmed(account_id@).len() == 0 {
                        current
                    } else {
                        named
                    },
                ),
            ),
    {
        let session = if text::trim(account_id).is_empty() {
            current
        } else {
            named
        };
        session_access_token(session)
    }

    /// A refused token cannot be renewed: the account has to log in again.
    pub fn refresh_access_token(&self) -> (token: Result<String, GatewayError>)
        ensures
            errors::text_view(token) == errors::fail::<Seq<char>>(
                401,
                "ZCode 的登录态无法自动续期，请在「账号」页重新登录该账号"@,
            ),
    {
        Err(
            GatewayError::with_status(
                401,
                "ZCode 的登录态无法自动续期，请在「账号」页重新登录该账号",
            ),
        )
    }

    /// The list of models is a table: there is nothing to fetch.
    pub fn refresh_models(&self) -> (outcome: ModelRefreshOutcome)
        ensures
            outcome@ == RefreshV::Unchanged,
    {
        ModelRefreshOutcome::Unchanged
    }

    /// Whether the model in an answer is set back to the one that was asked for.
    pub fn sse_model_rewrite(&self) -> (yes: bool)
        ensures
            yes,
    {
        true
    }
}

} // verus!
