//! What the gateway asks of Qoder.
use super::auth;
use super::chat;
use super::credentials;
use super::credentials::Credentials;
use super::oauth;
use super::machine;
use super::piping;
use super::protocol;
use super::protocol::UpstreamKind;
use crate::errors;
use crate::errors::{ErrorV, GatewayError};
use crate::json;
use crate::json::{Json, JsonV};
use crate::providers::adapter;
use crate::providers::adapter::{
    ClassV,
    ModelRefreshOutcome,
    PatchV,
    ReasoningPatch,
    RefreshV,
    UpstreamErrorClass,
};
use crate::providers::kind::ProviderKind;
use crate::proxies;
use crate::proxies::{ClashSnapshot, ResolutionV, ResolvedProxy};
use crate::text;
use vstd::prelude::*;
use vstd::string::*;

verus! {

/// The field of a request that holds the level of thinking.
pub const REASONING_FIELD: &'static str = "reasoning_effort";

/// Whether a text is the id of an answer: the first characters of a random id
/// without hyphens, or none where no random bytes could be had.
pub open spec fn is_response_id(id: Seq<char>) -> bool {
    ||| id == "chatcmpl-"@
    ||| exists|uuid: Seq<char>|
        machine::is_uuid(uuid) && id == "chatcmpl-"@ + text::first_chars(
            #[trigger] oauth::without_hyphens(uuid),
            24,
        )
}

/// The id of a new answer.
pub fn response_id() -> (id: String)
    ensures
        is_response_id(id@),
{
    match machine::random_uuid() {
        Ok(uuid) => {
            let id = response_id_from(Some(uuid.as_str()));
            assert(id@ == "chatcmpl-"@ + text::first_chars(oauth::without_hyphens(uuid@), 24));
            id
        },
        Err(_) => response_id_from(None),
    }
}

/// The id that a random id gives an answer: its first characters without hyphens,
/// and none where there is no random id.
pub fn response_id_from(uuid: Option<&str>) -> (id: String)
    ensures
        id@ == match json::opt_text(uuid) {
            Some(u) => "chatcmpl-"@ + text::first_chars(oauth::without_hyphens(u), 24),
            None => "chatcmpl-"@,
        },
{
    let mut id = text::owned("chatcmpl-");
    if let Some(uuid) = uuid {
        let short = oauth::drop_hyphens(uuid);
        id.append(text::take_chars(short.as_str(), 24));
    }
    id
}

/// What an account's list of models is refreshed with.
#[derive(Debug)]
pub enum RefreshStart {
    /// There is nothing to refresh, or no way to.
    Ended(ModelRefreshOutcome),
    /// Fetch the list with these credentials, by this proxy.
    Fetch(Credentials, Option<ResolvedProxy>),
}

/// What Qoder answers the gateway with.
#[derive(Debug, Clone, Copy, PartialEq, Eq, Structural)]
pub struct QoderAdapter;

impl QoderAdapter {
    pub fn kind(&self) -> (kind: ProviderKind)
        ensures
            kind == ProviderKind::Qoder,
    {
        ProviderKind::Qoder
    }

    /// Whether it answers conversations.
    pub fn supports_chat(&self) -> (yes: bool)
        ensures
            yes,
    {
        true
    }

    /// Whether it sends a conversation itself, and translates what comes back.
    pub fn is_stateful(&self) -> (yes: bool)
        ensures
            yes,
    {
        true
    }

    /// Whether its credentials can be renewed.
    pub fn supports_refresh(&self) -> (yes: bool)
        ensures
            yes,
    {
        true
    }

    /// Whether it tells what is left on an account.
    pub fn supports_usage(&self) -> (yes: bool)
        ensures
            yes,
    {
        true
    }

    /// Whether its list of models can be fetched.
    pub fn supports_model_refresh(&self) -> (yes: bool)
        ensures
            yes,
    {
        true
    }

    /// Whether a request without a model gets the default one.
    pub fn supports_default_model(&self) -> (yes: bool)
        ensures
            !yes,
    {
        false
    }

    /// Whether the model in an answer is set back to the one that was asked for.
    pub fn sse_model_rewrite(&self) -> (yes: bool)
        ensures
            !yes,
    {
        false
    }

    /// A request cannot be built without its body being signed: a conversation is
    /// forwarded as a whole.
    pub fn build_chat_request(&self) -> (error: GatewayError)
        ensures
            error@ == ErrorV::plain(
                503,
                "Qoder 走会话式转发，不走单请求路径（内部错误：编排层未按 is_stateful 分流）"@,
            ),
    {
        GatewayError::with_status(
            503,
            "Qoder 走会话式转发，不走单请求路径（内部错误：编排层未按 is_stateful 分流）",
        )
    }

    /// What an error of the upstream means.
    pub open spec fn class_of(status: u16, body: JsonV, refused: Option<Seq<char>>) -> ClassV {
        let raw = adapter::upstream_message(body);
        let message = adapter::returned(status, raw);
        let kind = protocol::classified(status as int, raw).kind;
        let code = adapter::code_at(body, "code"@);
        if kind == UpstreamKind::Auth {
            ClassV::TokenExpired { message }
        } else if kind == UpstreamKind::Quota || kind == UpstreamKind::Rate {
            ClassV::QuotaLimited {
                reset_at: None,
                message,
                upstream_code: code,
                status: if status == 0 {
                    429
                } else {
                    status
                },
            }
        } else {
            adapter::refused_or_fatal(status, refused, message, code)
        }
    }

    /// What an error of the upstream asks for.
    pub fn classify_error(&self, status: u16, body: &Json, refused: Option<&str>) -> (class:
        UpstreamErrorClass)
        ensures
            class@ == Self::class_of(status, body@, json::opt_text(refused)),
    {
        let raw = adapter::message_of(body);
        let kind = protocol::classify_upstream_error(status, raw.as_str()).kind;
        let message = adapter::returned_text(status, raw.as_str());
        let code = adapter::code_of(body, "code");
        if kind == UpstreamKind::Auth {
            return UpstreamErrorClass::TokenExpired { message };
        }
        if kind == UpstreamKind::Quota || kind == UpstreamKind::Rate {
            let status: u16 = if status == 0 {
                429
            } else {
                status
            };
            return UpstreamErrorClass::QuotaLimited {
                reset_at: None,
                message,
                upstream_code: code,
                status,
            };
        }
        adapter::classify_or_fatal(status, refused, message, code)
    }

    /// Whether the credentials of an account should be renewed now.
    pub fn credentials_expiring(&self, record: Option<&Json>, now_ms: i64, longest: usize) -> (yes:
        bool)
        ensures
            yes == match json::opt_view(record) {
                Some(r) => match credentials::credentials_in(r, longest as int) {
                    Ok(c) => c.renewable() && c.expires_at is Some && c.expires_at.unwrap()
                        <= now_ms + credentials::REFRESH_MARGIN_MS,
                    Err(_) => false,
                },
                None => false,
            },
    {
        match record {
            Some(record) => match Credentials::from_payload(record, longest) {
                Ok(c) => c.expiring(now_ms),
                Err(_) => false,
            },
            None => false,
        }
    }

    /// What an account's list of models is refreshed with. Without any account
    /// there is nothing to refresh, which is no failure; an account that was asked
    /// for and is not there is one, and so is a proxy that cannot be used.
    pub fn refresh_models(
        &self,
        record: Option<&Json>,
        account_id: &str,
        clash: &ClashSnapshot,
        longest: usize,
    ) -> (start: RefreshStart)
        ensures
            match json::opt_view(record) {
                None => start is Ended && start->Ended_0@ == if account_id@.len() == 0 {
                    RefreshV::Unchanged
                } else {
                    RefreshV::Failed("指定的账号不存在或不可用，请重新选择"@)
                },
                Some(r) => match credentials::credentials_in(r, longest as int) {
                    Err(_) => start is Ended && start->Ended_0@ == RefreshV::Failed(
                        "Qoder 账号凭证无效，请重新登录或更新 PAT"@,
                    ),
                    Ok(own) => match start {
                        RefreshStart::Ended(outcome) => outcome@ is Failed && proxies::resolves_to(
                            r.get("proxy"@),
                            clash@,
                            Some(ResolutionV::Failed(outcome@->Failed_0)),
                        ),
                        RefreshStart::Fetch(c, proxy) => c@ == own && proxies::resolves_to(
                            r.get("proxy"@),
                            clash@,
                            match proxy {
                                Some(p) => Some(ResolutionV::Resolved(p@)),
                                None => None,
                            },
                        ),
                    },
                },
            },
    {
        let record = match record {
            Some(record) => record,
            None => {
                if account_id.is_empty() {
                    return RefreshStart::Ended(ModelRefreshOutcome::Unchanged);
                }
                return RefreshStart::Ended(
                    ModelRefreshOutcome::failed("指定的账号不存在或不可用，请重新选择"),
                );
            },
        };
        let own = match Credentials::from_payload(record, longest) {
            Ok(own) => own,
            Err(_) => return RefreshStart::Ended(
                ModelRefreshOutcome::failed("Qoder 账号凭证无效，请重新登录或更新 PAT"),
            ),
        };
        match auth::account_proxy(record, clash) {
            Ok(proxy) => RefreshStart::Fetch(own, proxy),
            Err(error) => RefreshStart::Ended(ModelRefreshOutcome::failed(error.message.as_str())),
        }
    }

    /// What to do about a level of thinking that is bound to a model. `known` says
    /// whether the level is one of the common ones: only those the upstream may
    /// take. What the client asked for is not replaced.
    pub fn reasoning_patch(&self, level: &str, known: bool, body: &Json) -> (patch: ReasoningPatch)
        ensures
            patch@ == {
                let asked = protocol::reasoning_asked(body@);
                if asked is Some && asked != Some(JsonV::Null) {
                    PatchV::Skip("客户端请求体里已指定思考档位，绑定不覆盖"@)
                } else if !known {
                    PatchV::Skip(
                        "该等级不在通用候选表内，本家无法判断上游收不收（档位由各模型自己声明）"@,
                    )
                } else {
                    PatchV::Put(REASONING_FIELD@, JsonV::Str(text::trimmed(level@)))
                }
            },
    {
        if protocol::client_specified_reasoning(body) {
            return ReasoningPatch::Skip {
                reason: "客户端请求体里已指定思考档位，绑定不覆盖",
            };
        }
        if !known {
            return ReasoningPatch::Skip {
                reason: "该等级不在通用候选表内，本家无法判断上游收不收（档位由各模型自己声明）",
            };
        }
        ReasoningPatch::Put { field: REASONING_FIELD, value: Json::text(text::trim(level)) }
    }

    /// The level of thinking that a request asks for, as it was written; none for
    /// one that only switches thinking on or off.
    pub fn outbound_reasoning(&self, body: &Json) -> (level: Option<String>)
        ensures
            json::owned_text(level) == match protocol::reasoning_asked(body@) {
                Some(JsonV::Str(s)) => {
                    let level = text::lowercase(text::trimmed(s));
                    if level == "off"@ || level == "none"@ || level == "disabled"@ || level.len()
                        == 0 {
                        None
                    } else {
                        Some(level)
                    }
                },
                _ => None,
            },
    {
        let asked = match protocol::declared_reasoning(body) {
            Some(asked) => asked,
            None => return None,
        };
        let level = match &asked {
            Json::Text(s) => text::to_lowercase(text::trim(s.as_str())),
            _ => return None,
        };
        if text::same(level.as_str(), "off") || text::same(level.as_str(), "none") || text::same(
            level.as_str(),
            "disabled",
        ) || level.as_str().is_empty() {
            return None;
        }
        Some(level)
    }

    /// The model that a conversation asks for, or that there is no account to send
    /// it with.
    pub fn forward_conversation(&self, account_id: &str, body: &Json) -> (model: Result<
        String,
        GatewayError,
    >)
        ensures
            errors::text_view(model) == if account_id@.len() == 0 {
                errors::fail(503, "没有可用的 Qoder 账号：请在账号页添加并启用账号"@)
            } else {
                Ok(
                    match body@.text_at("model"@) {
                        Some(s) => s,
                        None => Seq::empty(),
                    },
                )
            },
    {
        if account_id.is_empty() {
            return Err(
                GatewayError::with_status(503, "没有可用的 Qoder 账号：请在账号页添加并启用账号"),
            );
        }
        Ok(
            match body.text_at("model") {
                Some(s) => text::owned(s),
                None => String::new(),
            },
        )
    }

    /// What an answer that failed as a whole comes to: the error, and the limit to
    /// record for the account.
    pub fn forward_failure(&self, status: u16, content: &str) -> (outcome: (
        GatewayError,
        Option<piping::Limited>,
    ))
        ensures
            ({
                let known = protocol::classified(status as int, content@);
                let error = chat::failure(
                    status as int,
                    known.kind,
                    content@,
                    known.message,
                    known.pricing_url,
                );
                &&& outcome.0@ == error
                &&& piping::limited_view(outcome.1) == if error.status == 429 {
                    piping::limit_of(status as int, UpstreamKind::Quota, error.message)
                } else {
                    None
                }
            }),
    {
        let error = chat::http_error(status, content);
        let limited = if error.status_code == 429 {
            piping::record_limited(status, UpstreamKind::Quota, error.message.as_str())
        } else {
            None
        };
        (error, limited)
    }
}

} // verus!
