//! Logging in to Qoder with a personal access token, and the profile of a user.
//! No message holds a secret or an address that does.
use super::credentials;
use super::credentials::{Credentials, CredentialsV};
use super::endpoints;
use super::endpoints::Region;
use crate::errors;
use crate::errors::{ErrorV, GatewayError};
use crate::http::{ApiRequest, ApiResponse, RequestV, ResponseV};
use crate::json;
use crate::json::{Json, JsonV};
use crate::proxies;
use crate::proxies::{ClashSnapshot, ProxyResolution, ResolutionV, ResolvedProxy};
use crate::text;
use crate::time;
use vstd::prelude::*;
use vstd::string::*;

verus! {

/// How long to wait for an answer.
pub const REQUEST_TIMEOUT_MS: u64 = 15000;

/// How long a token holds where the answer does not say.
pub const PAT_TOKEN_MS: i64 = 86400000;

/// The error of a call that got no answer.
pub fn transport_error(timed_out: bool) -> (error: GatewayError)
    ensures
        error@ == if timed_out {
            ErrorV::plain(504, "Qoder 请求超时，请检查网络后重试"@).coded("qoder_transport"@)
        } else {
            ErrorV::plain(502, "无法连接 Qoder，请检查网络或账号代理设置"@).coded(
                "qoder_transport"@,
            )
        },
{
    if timed_out {
        GatewayError::with_status(504, "Qoder 请求超时，请检查网络后重试").with_code(
            "qoder_transport",
        )
    } else {
        GatewayError::with_status(502, "无法连接 Qoder，请检查网络或账号代理设置").with_code(
            "qoder_transport",
        )
    }
}

/// What a status advises.
pub open spec fn advice(status: u16) -> Seq<char> {
    if status == 401 || status == 403 {
        "，请确认凭证有效且地区选择正确"@
    } else if status == 429 {
        "，请稍后重试"@
    } else {
        Seq::empty()
    }
}

/// The value in an answer: an object, or why there is none.
pub open spec fn payload_in(response: ResponseV, action: Seq<char>) -> Result<JsonV, ErrorV> {
    if !response.ok {
        errors::fail(
            response.status as int,
            "Qoder "@ + action + "失败（HTTP "@ + text::decimal(response.status as nat) + "）"@
                + advice(response.status),
        )
    } else {
        match response.payload {
            Some(JsonV::Obj(m)) => Ok(JsonV::Obj(m)),
            _ => errors::fail(502, "Qoder "@ + action + "未返回有效 JSON 对象"@),
        }
    }
}

/// What a value or a failure means.
pub open spec fn value_view(outcome: Result<Json, GatewayError>) -> Result<JsonV, ErrorV> {
    match outcome {
        Ok(v) => Ok(v@),
        Err(e) => Err(e@),
    }
}

/// The value in an answer: an object, or why there is none.
pub fn payload(response: ApiResponse, action: &str) -> (outcome: Result<Json, GatewayError>)
    ensures
        value_view(outcome) == payload_in(response@, action@),
{
    let mut message = text::owned("Qoder ");
    message.append(action);
    if !response.ok {
        message.append("失败（HTTP ");
        message.append(text::decimal_text(response.status as u64).as_str());
        message.append("）");
        if response.status == 401 || response.status == 403 {
            message.append("，请确认凭证有效且地区选择正确");
        } else if response.status == 429 {
            message.append("，请稍后重试");
        }
        assert(message@ =~= "Qoder "@ + action@ + "失败（HTTP "@ + text::decimal(
            response.status as nat,
        ) + "）"@ + advice(response.status));
        return Err(GatewayError::with_status(response.status as i32, message.as_str()));
    }
    match response.payload {
        Some(value) => if value.is_object() {
            return Ok(value);
        },
        None => {},
    }
    message.append("未返回有效 JSON 对象");
    Err(GatewayError::with_status(502, message.as_str()))
}

/// The proxy of an account, or why it cannot be used. An account with a broken
/// proxy does not go out directly.
pub fn account_proxy(record: &Json, clash: &ClashSnapshot) -> (outcome: Result<
    Option<ResolvedProxy>,
    GatewayError,
>)
    ensures
        match outcome {
            Ok(Some(proxy)) => proxies::resolves_to(
                record@.get("proxy"@),
                clash@,
                Some(ResolutionV::Resolved(proxy@)),
            ),
            Ok(None) => proxies::resolves_to(record@.get("proxy"@), clash@, None),
            Err(e) => e@ == ErrorV::plain(400, e@.message) && proxies::resolves_to(
                record@.get("proxy"@),
                clash@,
                Some(ResolutionV::Failed(e@.message)),
            ),
        },
{
    match proxies::resolve_account_proxy(record.get("proxy"), clash) {
        Some(resolution) => match resolution {
            ProxyResolution::Resolved(proxy) => Ok(Some(proxy)),
            ProxyResolution::Failed(reason) => Err(
                GatewayError::with_status(400, reason.as_str()),
            ),
        },
        None => Ok(None),
    }
}

/// The call for the profile of a user.
pub open spec fn profile_call(token: Seq<char>, region: Region) -> RequestV {
    RequestV {
        method: "GET"@,
        url: region.spec_open_api() + endpoints::USER_INFO_PATH@,
        headers: endpoints::api_headers(Some(token)),
        body: None,
    }
}

/// The call for the profile of a user.
pub fn fetch_profile(token: &str, region: Region) -> (request: ApiRequest)
    ensures
        request@ == profile_call(token@, region),
{
    let mut url = text::owned(region.open_api());
    url.append(endpoints::USER_INFO_PATH);
    ApiRequest {
        method: "GET",
        url,
        headers: endpoints::open_api_headers(Some(token)),
        body: None,
    }
}

/// The profile in an answer.
pub fn read_profile(response: ApiResponse) -> (outcome: Result<Json, GatewayError>)
    ensures
        value_view(outcome) == payload_in(response@, "用户信息查询"@),
{
    payload(response, "用户信息查询")
}

impl CredentialsV {
    /// The credentials with what a profile adds; not where it is another user's.
    pub open spec fn profiled(self, profile: JsonV) -> Result<CredentialsV, ErrorV> {
        let user = credentials::text_of(profile, seq!["id", "userId", "user_id"]);
        let name = credentials::text_of(profile, seq!["name", "username"]);
        let email = credentials::text_of(profile, seq!["email"]);
        if user.len() > 0 && self.user_id.len() > 0 && self.user_id != user {
            errors::fail(400, "Qoder 凭证中的用户与账号资料不一致"@)
        } else {
            Ok(
                CredentialsV {
                    user_id: if user.len() > 0 {
                        user
                    } else {
                        self.user_id
                    },
                    name: if name.len() > 0 {
                        text::first_chars(name, 100)
                    } else {
                        self.name
                    },
                    email: if email.len() > 0 {
                        text::first_chars(email, 320)
                    } else {
                        self.email
                    },
                    ..self
                },
            )
        }
    }
}

/// Adds what a profile says to credentials; a profile of another user changes
/// nothing.
pub fn apply_profile(credentials: &mut Credentials, profile: &Json) -> (outcome: Result<
    (),
    GatewayError,
>)
    ensures
        match old(credentials)@.profiled(profile@) {
            Ok(c) => outcome is Ok && final(credentials)@ == c,
            Err(e) => outcome is Err && outcome->Err_0@ == e && final(credentials)@
                == old(credentials)@,
        },
{
    let user_id = credentials::text(profile, &["id", "userId", "user_id"]);
    let name = credentials::text(profile, &["name", "username"]);
    let email = credentials::text(profile, &["email"]);
    proof {
        assert(["id", "userId", "user_id"]@ =~= seq!["id", "userId", "user_id"]);
        assert(["name", "username"]@ =~= seq!["name", "username"]);
        assert(["email"]@ =~= seq!["email"]);
    }
    if !user_id.as_str().is_empty() {
        if !credentials.user_id.as_str().is_empty() && !text::same(
            credentials.user_id.as_str(),
            user_id.as_str(),
        ) {
            return Err(GatewayError::with_status(400, "Qoder 凭证中的用户与账号资料不一致"));
        }
        credentials.user_id = user_id;
    }
    if !name.as_str().is_empty() {
        credentials.name = text::owned(text::take_chars(name.as_str(), 100));
    }
    if !email.as_str().is_empty() {
        credentials.email = text::owned(text::take_chars(email.as_str(), 320));
    }
    Ok(())
}

/// The record of a personal access token as it was entered.
pub open spec fn pat_entry(pat: Seq<char>) -> JsonV {
    JsonV::object().put("pat"@, JsonV::Str(pat))
}

/// A personal access token as it was entered, without what is around it.
pub open spec fn entered_pat(pat: Seq<char>, longest: int) -> Result<Seq<char>, ErrorV> {
    match credentials::secret_of(pat_entry(pat), seq!["pat"], longest) {
        Err(e) => Err(e),
        Ok(token) => if token.len() == 0 || token.contains('|') {
            errors::fail(400, "请填写有效的 Qoder 个人访问令牌（PAT）"@)
        } else {
            Ok(token)
        },
    }
}

/// A personal access token as it was entered, without what is around it.
pub fn clean_pat(pat: &str, longest: usize) -> (outcome: Result<String, GatewayError>)
    ensures
        errors::text_view(outcome) == entered_pat(pat@, longest as int),
{
    let mut record = Json::object();
    record.put("pat", Json::text(pat));
    let token = match credentials::secret(&record, &["pat"], longest) {
        Ok(token) => token,
        Err(error) => {
            assert(["pat"]@ =~= seq!["pat"]);
            return Err(error);
        },
    };
    assert(["pat"]@ =~= seq!["pat"]);
    if token.as_str().is_empty() || text::has_char(token.as_str(), '|') {
        return Err(GatewayError::with_status(400, "请填写有效的 Qoder 个人访问令牌（PAT）"));
    }
    Ok(token)
}

/// The call that exchanges a personal access token.
pub open spec fn exchange_call(pat: Seq<char>, region: Region) -> RequestV {
    RequestV {
        method: "POST"@,
        url: region.spec_open_api() + endpoints::EXCHANGE_PATH@,
        headers: endpoints::api_headers(None),
        body: Some(JsonV::object().put("personal_token"@, JsonV::Str(pat))),
    }
}

/// The call that exchanges a personal access token, which `clean_pat` has given.
pub fn exchange_request(pat: &str, region: Region) -> (request: ApiRequest)
    ensures
        request@ == exchange_call(pat@, region),
{
    let mut url = text::owned(region.open_api());
    url.append(endpoints::EXCHANGE_PATH);
    let mut body = Json::object();
    body.put("personal_token", Json::text(pat));
    ApiRequest {
        method: "POST",
        url,
        headers: endpoints::open_api_headers(None),
        body: Some(body),
    }
}

/// What a personal access token was exchanged for.
#[derive(Debug)]
pub struct JobTokens {
    pub token: String,
    pub refresh_token: String,
    pub expires_at: Option<i64>,
}

/// What such tokens mean.
#[verifier::ext_equal]
pub ghost struct JobTokensV {
    pub token: Seq<char>,
    pub refresh_token: Seq<char>,
    pub expires_at: Option<int>,
}

impl View for JobTokens {
    type V = JobTokensV;

    open spec fn view(&self) -> JobTokensV {
        JobTokensV {
            token: self.token@,
            refresh_token: self.refresh_token@,
            expires_at: time::opt_time(self.expires_at),
        }
    }
}

/// The time that an answer gives for the end of its token.
pub open spec fn end_in(data: JsonV) -> Option<int> {
    match data.get("expires_at"@) {
        Some(v) => credentials::time_of(v),
        None => None,
    }
}

/// The tokens in what was given for an exchange.
pub open spec fn job_tokens_in(data: JsonV, longest: int) -> Result<JobTokensV, ErrorV> {
    match credentials::secret_of(data, seq!["token"], longest) {
        Err(e) => Err(e),
        Ok(token) => match credentials::secret_of(data, seq!["refresh_token"], longest) {
            Err(e) => Err(e),
            Ok(refresh) => if token.len() == 0 || refresh.contains('|') {
                errors::fail(502, "Qoder PAT 响应缺少有效 token 或 refresh_token 格式无效"@)
            } else {
                Ok(JobTokensV { token, refresh_token: refresh, expires_at: end_in(data) })
            },
        },
    }
}

/// What tokens or a failure mean.
pub open spec fn tokens_view(outcome: Result<JobTokens, GatewayError>) -> Result<
    JobTokensV,
    ErrorV,
> {
    match outcome {
        Ok(t) => Ok(t@),
        Err(e) => Err(e@),
    }
}

/// The tokens in the answer to an exchange.
pub fn read_job_tokens(response: ApiResponse, longest: usize) -> (outcome: Result<
    JobTokens,
    GatewayError,
>)
    ensures
        tokens_view(outcome) == match payload_in(response@, "PAT 换取令牌"@) {
            Err(e) => Err(e),
            Ok(data) => job_tokens_in(data, longest as int),
        },
{
    let data = match payload(response, "PAT 换取令牌") {
        Ok(data) => data,
        Err(error) => return Err(error),
    };
    assert(["token"]@ =~= seq!["token"]);
    assert(["refresh_token"]@ =~= seq!["refresh_token"]);
    let token = match credentials::secret(&data, &["token"], longest) {
        Ok(token) => token,
        Err(error) => return Err(error),
    };
    let refresh_token = match credentials::secret(&data, &["refresh_token"], longest) {
        Ok(token) => token,
        Err(error) => return Err(error),
    };
    if token.as_str().is_empty() || text::has_char(refresh_token.as_str(), '|') {
        return Err(
            GatewayError::with_status(502, "Qoder PAT 响应缺少有效 token 或 refresh_token 格式无效"),
        );
    }
    Ok(JobTokens { token, refresh_token, expires_at: credentials::timestamp(data.get("expires_at")) })
}

/// The refresh token that keeps a personal access token.
pub open spec fn pat_refresh(
    pat: Seq<char>,
    job: Seq<char>,
    user: Seq<char>,
    machine: Seq<char>,
) -> Seq<char> {
    "pat|"@ + pat + "|"@ + job + "|"@ + user + "|"@ + machine
}

/// An optional time, or one counted from now.
pub open spec fn end_or(end: Option<int>, now_ms: int, later: int) -> int {
    match end {
        Some(t) => t,
        None => now_ms + later,
    }
}

/// The record of an account that logged in with a personal access token.
pub open spec fn pat_record(
    pat: Seq<char>,
    region: Region,
    tokens: JobTokensV,
    profile: JsonV,
    machine: Seq<char>,
    now_ms: int,
) -> JsonV {
    let user = credentials::text_of(profile, seq!["id"]);
    JsonV::object().put("mode"@, JsonV::Str(region.spec_id())).put(
        "accessToken"@,
        JsonV::Str(tokens.token),
    ).put(
        "refreshToken"@,
        JsonV::Str(pat_refresh(pat, tokens.refresh_token, user, machine)),
    ).put(
        "expiresAt"@,
        JsonV::Int(end_or(tokens.expires_at, now_ms, PAT_TOKEN_MS as int)),
    ).put("userId"@, JsonV::Str(user)).put("machineId"@, JsonV::Str(machine))
}

/// The credentials of an account that logged in with a personal access token.
pub open spec fn pat_credentials(
    pat: Seq<char>,
    region: Region,
    tokens: JobTokensV,
    profile: JsonV,
    machine: Seq<char>,
    now_ms: int,
    longest: int,
) -> Result<CredentialsV, ErrorV> {
    match credentials::credentials_in(
        pat_record(pat, region, tokens, profile, machine, now_ms),
        longest,
    ) {
        Err(e) => Err(e),
        Ok(c) => match c.profiled(profile) {
            Err(e) => Err(e),
            Ok(c) => c.completed(machine, longest),
        },
    }
}

/// The record of an account that logged in with a personal access token.
fn make_pat_record(
    pat: &str,
    region: Region,
    tokens: &JobTokens,
    profile: &Json,
    machine: &str,
    now_ms: i64,
) -> (record: Json)
    requires
        now_ms + PAT_TOKEN_MS <= i64::MAX,
    ensures
        record@ == pat_record(pat@, region, tokens@, profile@, machine@, now_ms as int),
{
    let user = credentials::text(profile, &["id"]);
    assert(["id"]@ =~= seq!["id"]);
    let mut refresh = text::owned("pat|");
    refresh.append(pat);
    refresh.append("|");
    refresh.append(tokens.refresh_token.as_str());
    refresh.append("|");
    refresh.append(user.as_str());
    refresh.append("|");
    refresh.append(machine);
    let end: i64 = match tokens.expires_at {
        Some(end) => end,
        None => now_ms + PAT_TOKEN_MS,
    };
    let mut record = Json::object();
    record.put("mode", Json::text(region.id()));
    record.put("accessToken", Json::text(tokens.token.as_str()));
    record.put("refreshToken", Json::Text(refresh));
    record.put("expiresAt", Json::number(end));
    record.put("userId", Json::Text(user));
    record.put("machineId", Json::text(machine));
    record
}

/// The credentials of an account that logged in with a personal access token:
/// the token stays in the refresh token, so that it can be exchanged again.
pub fn exchange_pat(
    pat: &str,
    region: Region,
    tokens: &JobTokens,
    profile: &Json,
    machine: &str,
    now_ms: i64,
    longest: usize,
) -> (outcome: Result<Credentials, GatewayError>)
    requires
        now_ms + PAT_TOKEN_MS <= i64::MAX,
    ensures
        credentials::outcome_view(outcome) == pat_credentials(
            pat@,
            region,
            tokens@,
            profile@,
            machine@,
            now_ms as int,
            longest as int,
        ),
{
    let record = make_pat_record(pat, region, tokens, profile, machine, now_ms);
    let mut made = match Credentials::from_payload(&record, longest) {
        Ok(made) => made,
        Err(error) => return Err(error),
    };
    if let Err(error) = apply_profile(&mut made, profile) {
        return Err(error);
    }
    if let Err(error) = made.complete_identity(machine, longest) {
        return Err(error);
    }
    Ok(made)
}

/// What adding an account begins with.
#[derive(Debug)]
pub enum Preparation {
    /// Exchange a personal access token.
    ExchangePat { pat: String, region: Region },
    /// Ask for the profile of credentials that name no user.
    FetchProfile { credentials: Credentials, region: Region },
    /// Complete the credentials as they are.
    Complete(Credentials),
}

/// What such a beginning means.
#[verifier::ext_equal]
pub ghost enum PreparationV {
    ExchangePat { pat: Seq<char>, region: Region },
    FetchProfile { credentials: CredentialsV, region: Region },
    Complete(CredentialsV),
}

impl View for Preparation {
    type V = PreparationV;

    open spec fn view(&self) -> PreparationV {
        match self {
            Preparation::ExchangePat { pat, region } => PreparationV::ExchangePat {
                pat: pat@,
                region: *region,
            },
            Preparation::FetchProfile { credentials, region } => PreparationV::FetchProfile {
                credentials: credentials@,
                region: *region,
            },
            Preparation::Complete(credentials) => PreparationV::Complete(credentials@),
        }
    }
}

/// What adding an account begins with.
pub open spec fn preparation(payload: JsonV, longest: int) -> Result<PreparationV, ErrorV> {
    if payload.field("importDesktop"@) == JsonV::Bool(true) {
        errors::fail(400, "Qoder 请使用网页登录或个人访问令牌（PAT）添加"@)
    } else {
        match Region::in_payload(payload) {
            Err(e) => Err(e),
            Ok(region) => match credentials::secret_of(
                payload,
                seq!["pat", "personalAccessToken", "personal_token"],
                longest,
            ) {
                Err(e) => Err(e),
                Ok(pat) => if pat.len() > 0 {
                    Ok(PreparationV::ExchangePat { pat, region })
                } else {
                    match credentials::credentials_in(payload, longest) {
                        Err(e) => Err(e),
                        Ok(c) => if c.user_id.len() == 0 {
                            Ok(PreparationV::FetchProfile { credentials: c, region })
                        } else {
                            Ok(PreparationV::Complete(c))
                        },
                    }
                },
            },
        }
    }
}

/// What a beginning or a failure means.
pub open spec fn preparation_view(outcome: Result<Preparation, GatewayError>) -> Result<
    PreparationV,
    ErrorV,
> {
    match outcome {
        Ok(p) => Ok(p@),
        Err(e) => Err(e@),
    }
}

/// What adding an account begins with: a personal access token is exchanged, and
/// credentials without a user are asked for their profile.
pub fn prepare_account(payload: &Json, longest: usize) -> (outcome: Result<
    Preparation,
    GatewayError,
>)
    ensures
        preparation_view(outcome) == preparation(payload@, longest as int),
{
    let desktop = match payload.get("importDesktop") {
        Some(value) => match value {
            Json::Bool(yes) => *yes,
            _ => false,
        },
        None => false,
    };
    if desktop {
        return Err(
            GatewayError::with_status(400, "Qoder 请使用网页登录或个人访问令牌（PAT）添加"),
        );
    }
    let region = match Region::from_payload(payload) {
        Ok(region) => region,
        Err(error) => return Err(error),
    };
    assert(["pat", "personalAccessToken", "personal_token"]@ =~= seq![
        "pat",
        "personalAccessToken",
        "personal_token",
    ]);
    let pat = match credentials::secret(
        payload,
        &["pat", "personalAccessToken", "personal_token"],
        longest,
    ) {
        Ok(pat) => pat,
        Err(error) => return Err(error),
    };
    if !pat.as_str().is_empty() {
        return Ok(Preparation::ExchangePat { pat, region });
    }
    let credentials = match Credentials::from_payload(payload, longest) {
        Ok(credentials) => credentials,
        Err(error) => return Err(error),
    };
    if credentials.user_id.as_str().is_empty() {
        return Ok(Preparation::FetchProfile { credentials, region });
    }
    Ok(Preparation::Complete(credentials))
}

/// Credentials with their profile, ready for use.
pub fn finish_preparation(
    credentials: Credentials,
    profile: Option<&Json>,
    machine: &str,
    longest: usize,
) -> (outcome: Result<Credentials, GatewayError>)
    ensures
        credentials::outcome_view(outcome) == match json::opt_view(profile) {
            Some(p) => match credentials@.profiled(p) {
                Err(e) => Err(e),
                Ok(c) => c.completed(machine@, longest as int),
            },
            None => credentials@.completed(machine@, longest as int),
        },
{
    let mut credentials = credentials;
    if let Some(profile) = profile {
        if let Err(error) = apply_profile(&mut credentials, profile) {
            return Err(error);
        }
    }
    if let Err(error) = credentials.complete_identity(machine, longest) {
        return Err(error);
    }
    Ok(credentials)
}

/// A refresh token that keeps a personal access token gives it back.
pub proof fn pat_is_kept(pat: Seq<char>, job: Seq<char>, user: Seq<char>, machine: Seq<char>)
    requires
        pat.len() > 0,
        !pat.contains('|'),
    ensures
        credentials::pat_in(pat_refresh(pat, job, user, machine)) == Some(pat),
{
    reveal_strlit("pat|");
    reveal_strlit("|");
    let whole = pat_refresh(pat, job, user, machine);
    assert(whole.take(4) =~= "pat|"@);
    let rest = whole.skip(4);
    assert(rest.take(pat.len() as int) =~= pat);
    assert(rest[pat.len() as int] == '|');
    assert forall|i: int| 0 <= i < pat.len() implies rest[i] != '|' by {
        assert(rest[i] == pat[i]);
        assert(pat.contains(pat[i]));
    }
    text::lemma_place_is(rest, '|', pat.len() as int);
}

/// Completing credentials keeps their personal access token: whatever user and
/// machine a renewal brings, it can be exchanged again.
pub proof fn completed_credentials_keep_the_pat(
    credentials: CredentialsV,
    pat: Seq<char>,
    job: Seq<char>,
    user: Seq<char>,
    device: Seq<char>,
    machine: Seq<char>,
    longest: int,
)
    requires
        pat.len() > 0,
        !pat.contains('|'),
        credentials::is_identity(user),
        credentials::is_identity(device),
        credentials.refresh_token == pat_refresh(pat, job, user, device),
        credentials.completed(machine, longest) is Ok,
    ensures
        credentials::pat_in(credentials.completed(machine, longest)->Ok_0.refresh_token) == Some(
            pat,
        ),
        credentials.completed(machine, longest)->Ok_0.renewable(),
{
    reveal_strlit("pat|");
    let head = "pat|"@ + pat + "|"@ + job;
    assert(credentials.refresh_token =~= credentials::packed_token(head, user, device));
    credentials::packing_keeps_the_token(head, user, device);
    let done = credentials.completed(machine, longest)->Ok_0;
    assert(done.refresh_token =~= pat_refresh(pat, job, done.user_id, done.machine_id));
    pat_is_kept(pat, job, done.user_id, done.machine_id);
}

} // verus!
