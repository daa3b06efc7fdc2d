//! What every provider answers the gateway with.
use crate::errors::{ErrorV, GatewayError};
use crate::json;
use crate::json::{Double, Json, JsonV};
use crate::number;
use crate::text;
use crate::urls;
use vstd::prelude::*;
use vstd::string::*;

verus! {

/// What came of fetching a list of models.
#[derive(Debug)]
pub enum ModelRefreshOutcome {
    /// The list at hand is still good.
    Unchanged,
    /// So many models have been taken over.
    Refreshed(usize),
    Failed(String),
}

/// What an outcome means.
pub ghost enum RefreshV {
    Unchanged,
    Refreshed(int),
    Failed(Seq<char>),
}

impl View for ModelRefreshOutcome {
    type V = RefreshV;

    open spec fn view(&self) -> RefreshV {
        match self {
            ModelRefreshOutcome::Unchanged => RefreshV::Unchanged,
            ModelRefreshOutcome::Refreshed(n) => RefreshV::Refreshed(*n as int),
            ModelRefreshOutcome::Failed(message) => RefreshV::Failed(message@),
        }
    }
}

impl ModelRefreshOutcome {
    /// A failure.
    pub fn failed(message: &str) -> (outcome: Self)
        ensures
            outcome@ == RefreshV::Failed(message@),
    {
        ModelRefreshOutcome::Failed(text::owned(message))
    }
}

/// What an error of an upstream asks of the gateway.
#[derive(Debug)]
pub enum UpstreamErrorClass {
    /// Renew the credentials and try again.
    TokenExpired { message: String },
    /// Take another account.
    QuotaLimited {
        reset_at: Option<i64>,
        message: String,
        upstream_code: Option<i64>,
        status: u16,
    },
    /// The content was refused: the account is not to blame.
    ContentBlocked { status: u16, message: String, upstream_code: Option<i64> },
    /// Hand the error on.
    Fatal { status: u16, message: String, upstream_code: Option<i64> },
}

/// What a class of errors means.
pub ghost enum ClassV {
    TokenExpired { message: Seq<char> },
    QuotaLimited {
        reset_at: Option<i64>,
        message: Seq<char>,
        upstream_code: Option<i64>,
        status: u16,
    },
    ContentBlocked { status: u16, message: Seq<char>, upstream_code: Option<i64> },
    Fatal { status: u16, message: Seq<char>, upstream_code: Option<i64> },
}

impl View for UpstreamErrorClass {
    type V = ClassV;

    open spec fn view(&self) -> ClassV {
        match self {
            UpstreamErrorClass::TokenExpired { message } => ClassV::TokenExpired {
                message: message@,
            },
            UpstreamErrorClass::QuotaLimited { reset_at, message, upstream_code, status } =>
                ClassV::QuotaLimited {
                reset_at: *reset_at,
                message: message@,
                upstream_code: *upstream_code,
                status: *status,
            },
            UpstreamErrorClass::ContentBlocked { status, message, upstream_code } =>
                ClassV::ContentBlocked {
                status: *status,
                message: message@,
                upstream_code: *upstream_code,
            },
            UpstreamErrorClass::Fatal { status, message, upstream_code } => ClassV::Fatal {
                status: *status,
                message: message@,
                upstream_code: *upstream_code,
            },
        }
    }
}

/// The class of an error that is neither about the login nor about the quota:
/// refused content, with a hint for the client, or an error to hand on.
pub open spec fn refused_or_fatal(
    status: u16,
    refused: Option<Seq<char>>,
    message: Seq<char>,
    upstream_code: Option<i64>,
) -> ClassV {
    match refused {
        Some(hint) => ClassV::ContentBlocked { status, message: message + hint, upstream_code },
        None => ClassV::Fatal { status, message, upstream_code },
    }
}

/// The class of an error that is neither about the login nor about the quota.
/// `refused` holds the hint to add where the upstream refused the content.
pub fn classify_or_fatal(
    status: u16,
    refused: Option<&str>,
    message: String,
    upstream_code: Option<i64>,
) -> (class: UpstreamErrorClass)
    ensures
        class@ == refused_or_fatal(status, json::opt_text(refused), message@, upstream_code),
{
    match refused {
        Some(hint) => {
            let mut message = message;
            message.append(hint);
            UpstreamErrorClass::ContentBlocked { status, message, upstream_code }
        },
        None => UpstreamErrorClass::Fatal { status, message, upstream_code },
    }
}

/// The integer that an entry holds, as the code of an error.
pub open spec fn code_at(body: JsonV, key: Seq<char>) -> Option<i64> {
    match body.field(key).as_int() {
        Some(n) => Some(n as i64),
        None => None,
    }
}

/// The integer that an entry holds, as the code of an error.
pub fn code_of(body: &Json, key: &str) -> (code: Option<i64>)
    ensures
        code == code_at(body@, key@),
{
    match body.get(key) {
        Some(value) => value.as_int(),
        None => None,
    }
}

/// How an error of an upstream reads to a client.
pub open spec fn returned(status: u16, raw: Seq<char>) -> Seq<char> {
    "上游返回 "@ + text::decimal(status as nat) + ": "@ + raw
}

/// The message of an error holds its status and the words of the upstream, with a
/// hint behind it as without.
pub proof fn lemma_returned(status: u16, raw: Seq<char>, hint: Seq<char>)
    ensures
        text::has_part(returned(status, raw), raw),
        text::has_part(returned(status, raw), text::decimal(status as nat)),
        text::has_part(returned(status, raw) + hint, raw),
        text::has_part(returned(status, raw) + hint, hint),
{
    let number = text::decimal(status as nat);
    let head = "上游返回 "@ + number + ": "@;
    let message = returned(status, raw);
    text::lemma_has_part(head, raw, hint);
    assert(message =~= "上游返回 "@ + number + (": "@ + raw));
    text::lemma_has_part("上游返回 "@, number, ": "@ + raw);
    text::lemma_has_part(message, hint, Seq::empty());
}

/// How an error of an upstream reads to a client.
pub fn returned_text(status: u16, raw: &str) -> (message: String)
    ensures
        message@ == returned(status, raw@),
{
    let mut message = text::owned("上游返回 ");
    message.append(text::decimal_text(status as u64).as_str());
    message.append(": ");
    message.append(raw);
    message
}

/// What to do about a level of thinking that is bound to a model.
#[derive(Debug)]
pub enum ReasoningPatch {
    /// Leave the request as it is, for this reason.
    Skip { reason: &'static str },
    /// Set a field of the request.
    Put { field: &'static str, value: Json },
}

/// What a patch means.
pub ghost enum PatchV {
    Skip(Seq<char>),
    Put(Seq<char>, JsonV),
}

impl View for ReasoningPatch {
    type V = PatchV;

    open spec fn view(&self) -> PatchV {
        match self {
            ReasoningPatch::Skip { reason } => PatchV::Skip(reason@),
            ReasoningPatch::Put { field, value } => PatchV::Put(field@, value@),
        }
    }
}

/// A request for an answer, ready to be sent.
#[derive(Debug)]
pub struct ChatRequestPlan {
    pub url: String,
    pub headers: Vec<(String, String)>,
    pub body: Json,
}

/// What such a request means.
#[verifier::ext_equal]
pub ghost struct PlanV {
    pub url: Seq<char>,
    pub headers: Seq<(Seq<char>, Seq<char>)>,
    pub body: JsonV,
}

impl View for ChatRequestPlan {
    type V = PlanV;

    open spec fn view(&self) -> PlanV {
        PlanV {
            url: self.url@,
            headers: urls::pairs_view(self.headers@),
            body: self.body@,
        }
    }
}

/// What a request or a failure means.
pub open spec fn plan_view(outcome: Result<ChatRequestPlan, GatewayError>) -> Result<
    PlanV,
    ErrorV,
> {
    match outcome {
        Ok(p) => Ok(p@),
        Err(e) => Err(e@),
    }
}

/// The message of an upstream's error.
pub open spec fn upstream_message(body: JsonV) -> Seq<char> {
    match body.text_at("message"@) {
        Some(s) => if s.len() > 0 {
            s
        } else {
            "上游错误"@
        },
        None => "上游错误"@,
    }
}

/// The message of an upstream's error.
pub fn message_of(body: &Json) -> (message: String)
    ensures
        message@ == upstream_message(body@),
{
    if let Some(s) = body.text_at("message") {
        if !s.is_empty() {
            return text::owned(s);
        }
    }
    text::owned("上游错误")
}

/// The message of an upstream's error, under either of its names.
pub open spec fn spoken_message(body: JsonV) -> Seq<char> {
    let said = match body.get("message"@) {
        Some(v) => Some(v),
        None => body.get("msg"@),
    };
    match said {
        Some(JsonV::Str(s)) => if s.len() > 0 {
            s
        } else {
            "上游错误"@
        },
        _ => "上游错误"@,
    }
}

/// The message of an upstream's error, under either of its names.
pub fn message_spoken(body: &Json) -> (message: String)
    ensures
        message@ == spoken_message(body@),
{
    let said = match body.get("message") {
        Some(value) => Some(value),
        None => body.get("msg"),
    };
    if let Some(value) = said {
        if let Some(s) = value.as_text() {
            if !s.is_empty() {
                return text::owned(s);
            }
        }
    }
    text::owned("上游错误")
}

/// The bit pattern of the price factor that a value gives: a number, or a text
/// that writes one, that is not below zero.
pub open spec fn factor_in(value: Option<JsonV>) -> Option<u64> {
    match value {
        Some(v) => match json::read_number(v) {
            Some(bits) => if number::is_not_below_zero(bits) {
                Some(bits)
            } else {
                None
            },
            None => None,
        },
        None => None,
    }
}

/// The price factor that a value gives: a number, or a text that writes one, that
/// is not below zero. Zero is a factor.
pub fn factor_of(value: Option<&Json>) -> (factor: Option<Double>)
    ensures
        match factor {
            Some(d) => factor_in(json::opt_view(value)) == Some(d.pattern()) && d.written()
                == json::double_text(d.pattern()),
            None => factor_in(json::opt_view(value)) is None,
        },
{
    match value {
        Some(value) => match json::number_in(value) {
            Some(double) => if double.bits() <= 0x8000_0000_0000_0000 {
                Some(double)
            } else {
                None
            },
            None => None,
        },
        None => None,
    }
}

/// The bit pattern of an optional number.
pub open spec fn pattern_of(double: Option<Double>) -> Option<u64> {
    match double {
        Some(d) => Some(d.pattern()),
        None => None,
    }
}

} // verus!
