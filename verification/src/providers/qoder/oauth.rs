//! Letting a device in to Qoder: the user agrees in a browser while the gateway
//! asks whether they have. The verifier never leaves the gateway.
use super::auth;
use super::credentials;
use super::credentials::{Credentials, CredentialsV};
use super::endpoints;
use super::endpoints::Region;
use super::machine;
use crate::digest;
use crate::errors;
use crate::errors::{ErrorV, GatewayError};
use crate::http::{ApiRequest, ApiResponse, RequestV, ResponseV};
use crate::json::{Json, JsonV};
use crate::text;
use crate::urls;
use vstd::prelude::*;
use vstd::string::*;
use vstd::utf8::*;

verus! {

/// How long a token holds where the answer does not say.
pub const DEVICE_TOKEN_MS: i64 = 2592000000;

/// A login that is under way.
#[derive(Debug)]
pub struct DeviceLogin {
    pub state: String,
    pub auth_url: String,
    poll_url: String,
    machine_id: String,
    region: Region,
}

/// The challenge of a verifier.
pub open spec fn challenge_of(verifier: Seq<char>) -> Seq<char> {
    digest::base64_url_of(digest::sha256_of(encode_utf8(verifier)))
}

/// The address that a browser opens.
pub open spec fn login_address(
    region: Region,
    verifier: Seq<char>,
    machine: Seq<char>,
    nonce: Seq<char>,
) -> Seq<char> {
    region.spec_web_origin() + endpoints::DEVICE_LOGIN_PATH@ + "?"@ + urls::query_text(
        Seq::empty().push(("challenge"@, challenge_of(verifier))).push(
            ("challenge_method"@, "S256"@),
        ).push(("machine_id"@, machine)).push(("nonce"@, nonce)),
    )
}

/// The address that tells whether the user has agreed.
pub open spec fn poll_address(region: Region, verifier: Seq<char>, nonce: Seq<char>) -> Seq<char> {
    region.spec_open_api() + endpoints::DEVICE_POLL_PATH@ + "?"@ + urls::query_text(
        Seq::empty().push(("nonce"@, nonce)).push(("verifier"@, verifier)).push(
            ("challenge_method"@, "S256"@),
        ),
    )
}

/// The pages of a login take any pairs.
proof fn lemma_pages(region: Region)
    ensures
        urls::is_plain_address(region.spec_web_origin() + endpoints::DEVICE_LOGIN_PATH@),
        urls::is_plain_address(region.spec_open_api() + endpoints::DEVICE_POLL_PATH@),
{
    reveal_strlit("https://");
    reveal_strlit("/device/selectAccounts");
    reveal_strlit("/api/v1/deviceToken/poll");
    let page = region.spec_web_origin() + endpoints::DEVICE_LOGIN_PATH@;
    let service = region.spec_open_api() + endpoints::DEVICE_POLL_PATH@;
    match region {
        Region::Global => {
            reveal_strlit("https://qoder.com");
            reveal_strlit("qoder.com");
            reveal_strlit("https://openapi.qoder.sh");
            reveal_strlit("openapi.qoder.sh");
            assert(page =~= "https://"@ + "qoder.com"@ + "/device/selectAccounts"@);
            assert(service =~= "https://"@ + "openapi.qoder.sh"@ + "/api/v1/deviceToken/poll"@);
            urls::lemma_plain_address(page, "qoder.com"@, "/device/selectAccounts"@);
            urls::lemma_plain_address(
                service,
                "openapi.qoder.sh"@,
                "/api/v1/deviceToken/poll"@,
            );
        },
        Region::Cn => {
            reveal_strlit("https://qoder.com.cn");
            reveal_strlit("qoder.com.cn");
            reveal_strlit("https://openapi.qoder.com.cn");
            reveal_strlit("openapi.qoder.com.cn");
            assert(page =~= "https://"@ + "qoder.com.cn"@ + "/device/selectAccounts"@);
            assert(service =~= "https://"@ + "openapi.qoder.com.cn"@
                + "/api/v1/deviceToken/poll"@);
            urls::lemma_plain_address(page, "qoder.com.cn"@, "/device/selectAccounts"@);
            urls::lemma_plain_address(
                service,
                "openapi.qoder.com.cn"@,
                "/api/v1/deviceToken/poll"@,
            );
        },
    }
}

/// A text without its hyphens.
pub open spec fn without_hyphens(s: Seq<char>) -> Seq<char>
    decreases s.len(),
{
    if s.len() == 0 {
        s
    } else if s.last() == '-' {
        without_hyphens(s.drop_last())
    } else {
        without_hyphens(s.drop_last()).push(s.last())
    }
}

/// A text without its hyphens.
pub fn drop_hyphens(content: &str) -> (out: String)
    ensures
        out@ == without_hyphens(content@),
{
    let chars = text::chars_of(content);
    let mut out: Vec<char> = Vec::new();
    let mut i: usize = 0;
    assert(content@.take(0) =~= Seq::empty());
    while i < chars.len()
        invariant
            chars@ == content@,
            i <= chars.len(),
            out@ == without_hyphens(content@.take(i as int)),
        decreases chars.len() - i,
    {
        assert(content@.take(i as int + 1).drop_last() =~= content@.take(i as int));
        if chars[i] != '-' {
            out.push(chars[i]);
        }
        i += 1;
    }
    assert(content@.take(content@.len() as int) =~= content@);
    text::text_of(&out)
}

/// Whether a login belongs to a verifier and a nonce.
pub open spec fn login_of(
    login: LoginV,
    region: Region,
    machine: Seq<char>,
    verifier: Seq<char>,
    nonce: Seq<char>,
) -> bool {
    &&& machine::is_secret(verifier)
    &&& exists|uuid: Seq<char>| machine::is_uuid(uuid) && nonce == #[trigger] without_hyphens(uuid)
    &&& login.auth_url == login_address(region, verifier, machine, nonce)
    &&& login.poll_url == poll_address(region, verifier, nonce)
}

/// What a login means.
#[verifier::ext_equal]
pub ghost struct LoginV {
    pub state: Seq<char>,
    pub auth_url: Seq<char>,
    pub poll_url: Seq<char>,
    pub machine_id: Seq<char>,
    pub region: Region,
}

impl View for DeviceLogin {
    type V = LoginV;

    closed spec fn view(&self) -> LoginV {
        LoginV {
            state: self.state@,
            auth_url: self.auth_url@,
            poll_url: self.poll_url@,
            machine_id: self.machine_id@,
            region: self.region,
        }
    }
}

/// Whether an error is one that beginning a login ends with: no random bytes.
pub open spec fn begin_error(e: ErrorV) -> bool {
    ||| e == ErrorV::plain(500, "无法生成安全的 Qoder 登录随机串"@)
    ||| e == ErrorV::plain(500, "无法生成 Qoder 机器标识"@)
}

/// The login of a verifier, a random id and a state.
pub open spec fn begun(
    region: Region,
    machine: Seq<char>,
    verifier: Seq<char>,
    uuid: Seq<char>,
    state: Seq<char>,
) -> LoginV {
    let nonce = without_hyphens(uuid);
    LoginV {
        state,
        auth_url: login_address(region, verifier, machine, nonce),
        poll_url: poll_address(region, verifier, nonce),
        machine_id: machine,
        region,
    }
}

/// The login of a verifier, a random id and a state on the machine with this
/// identity.
pub fn login_from(
    region: Region,
    machine_id: &str,
    verifier: &str,
    uuid: &str,
    state: &str,
) -> (login: Result<DeviceLogin, GatewayError>)
    ensures
        login is Ok,
        login->Ok_0@ == begun(region, machine_id@, verifier@, uuid@, state@),
{
    let challenge = digest::base64_url(&digest::sha256(verifier.as_bytes()));
    let nonce = drop_hyphens(uuid);
    let mut pairs = urls::no_pairs();
    urls::push_pair(&mut pairs, "challenge", challenge.as_str());
    urls::push_pair(&mut pairs, "challenge_method", "S256");
    urls::push_pair(&mut pairs, "machine_id", machine_id);
    urls::push_pair(&mut pairs, "nonce", nonce.as_str());
    let page = region.device_login_url();
    proof {
        lemma_pages(region);
        urls::plain_addresses_take_queries(page@, urls::pairs_view(pairs@));
    }
    let auth_url = match urls::with_query(page.as_str(), &pairs) {
        Some(address) => address,
        None => return Err(GatewayError::with_status(500, "Qoder 授权地址配置无效")),
    };
    let mut pairs = urls::no_pairs();
    urls::push_pair(&mut pairs, "nonce", nonce.as_str());
    urls::push_pair(&mut pairs, "verifier", verifier);
    urls::push_pair(&mut pairs, "challenge_method", "S256");
    let mut service = text::owned(region.open_api());
    service.append(endpoints::DEVICE_POLL_PATH);
    proof {
        urls::plain_addresses_take_queries(service@, urls::pairs_view(pairs@));
    }
    let poll_url = match urls::with_query(service.as_str(), &pairs) {
        Some(address) => address,
        None => return Err(GatewayError::with_status(500, "Qoder 轮询地址配置无效")),
    };
    Ok(
        DeviceLogin {
            state: text::owned(state),
            auth_url,
            poll_url,
            machine_id: text::owned(machine_id),
            region,
        },
    )
}

/// What an answer to the question whether the user has agreed asks for next.
#[derive(Debug)]
pub enum PollStep {
    /// Ask again later.
    Pending,
    /// Ask for the profile of these credentials, then complete them.
    FetchProfile(Credentials),
}

/// What such a step means.
#[verifier::ext_equal]
pub ghost enum PollV {
    Pending,
    FetchProfile(CredentialsV),
}

impl View for PollStep {
    type V = PollV;

    open spec fn view(&self) -> PollV {
        match self {
            PollStep::Pending => PollV::Pending,
            PollStep::FetchProfile(c) => PollV::FetchProfile(c@),
        }
    }
}

/// What a step or a failure means.
pub open spec fn poll_view(outcome: Result<PollStep, GatewayError>) -> Result<PollV, ErrorV> {
    match outcome {
        Ok(step) => Ok(step@),
        Err(e) => Err(e@),
    }
}

/// The record of an account whose device was let in.
pub open spec fn device_record(
    login: LoginV,
    token: Seq<char>,
    refresh: Seq<char>,
    data: JsonV,
    now_ms: int,
) -> JsonV {
    let user = credentials::text_of(data, seq!["user_id"]);
    JsonV::object().put("mode"@, JsonV::Str(login.region.spec_id())).put(
        "accessToken"@,
        JsonV::Str(token),
    ).put(
        "refreshToken"@,
        JsonV::Str(
            if refresh.len() == 0 {
                Seq::empty()
            } else {
                credentials::packed_token(refresh, user, login.machine_id)
            },
        ),
    ).put("userId"@, JsonV::Str(user)).put("machineId"@, JsonV::Str(login.machine_id)).put(
        "expiresAt"@,
        JsonV::Int(auth::end_or(auth::end_in(data), now_ms, DEVICE_TOKEN_MS as int)),
    )
}

/// The credentials in the answer to a device that was let in.
pub open spec fn device_credentials(
    login: LoginV,
    data: JsonV,
    now_ms: int,
    longest: int,
) -> Result<CredentialsV, ErrorV> {
    match credentials::secret_of(data, seq!["token"], longest) {
        Err(e) => Err(e),
        Ok(token) => if token.len() == 0 {
            errors::fail(502, "Qoder 设备授权响应缺少 token"@)
        } else {
            match credentials::secret_of(data, seq!["refresh_token"], longest) {
                Err(e) => Err(e),
                Ok(refresh) => if refresh.contains('|') {
                    errors::fail(502, "Qoder 设备授权响应的 refresh_token 格式无效"@)
                } else {
                    credentials::credentials_in(
                        device_record(login, token, refresh, data, now_ms),
                        longest,
                    )
                },
            }
        },
    }
}

/// What an answer asks for next.
pub open spec fn polled(login: LoginV, response: ResponseV, now_ms: int, longest: int) -> Result<
    PollV,
    ErrorV,
> {
    if response.status == 202 || response.status == 404 {
        Ok(PollV::Pending)
    } else {
        match auth::payload_in(response, "设备授权"@) {
            Err(e) => Err(e),
            Ok(data) => match device_credentials(login, data, now_ms, longest) {
                Err(e) => Err(e),
                Ok(c) => Ok(PollV::FetchProfile(c)),
            },
        }
    }
}

impl DeviceLogin {
    /// Begins a login on the machine with this identity.
    pub fn new(region: Region, machine_id: &str) -> (login: Result<Self, GatewayError>)
        ensures
            match login {
                Ok(l) => machine::is_secret(l@.state) && l@.region == region && l@.machine_id
                    == machine_id@ && exists|verifier: Seq<char>, nonce: Seq<char>| #[trigger]
                    login_of(l@, region, machine_id@, verifier, nonce),
                Err(e) => begin_error(e@),
            },
    {
        let verifier = match machine::random_secret() {
            Ok(verifier) => verifier,
            Err(error) => return Err(error),
        };
        let uuid = match machine::random_uuid() {
            Ok(uuid) => uuid,
            Err(error) => return Err(error),
        };
        let state = match machine::random_secret() {
            Ok(state) => state,
            Err(error) => return Err(error),
        };
        let login = login_from(
            region,
            machine_id,
            verifier.as_str(),
            uuid.as_str(),
            state.as_str(),
        );
        assert(login_of(
            login->Ok_0@,
            region,
            machine_id@,
            verifier@,
            without_hyphens(uuid@),
        ));
        login
    }

    /// The call that asks whether the user has agreed.
    pub fn poll_request(&self) -> (request: ApiRequest)
        ensures
            request@ == (RequestV {
                method: "GET"@,
                url: self@.poll_url,
                headers: endpoints::api_headers(None),
                body: None,
            }),
    {
        ApiRequest {
            method: "GET",
            url: text::owned(self.poll_url.as_str()),
            headers: endpoints::open_api_headers(None),
            body: None,
        }
    }

    /// The record of an account whose device was let in.
    fn record(&self, token: &str, refresh: &str, data: &Json, now_ms: i64) -> (record: Json)
        requires
            now_ms + DEVICE_TOKEN_MS <= i64::MAX,
        ensures
            record@ == device_record(self@, token@, refresh@, data@, now_ms as int),
    {
        let user = credentials::text(data, &["user_id"]);
        assert(["user_id"]@ =~= seq!["user_id"]);
        let packed = if refresh.is_empty() {
            String::new()
        } else {
            credentials::pack(refresh, user.as_str(), self.machine_id.as_str())
        };
        let end: i64 = match credentials::timestamp(data.get("expires_at")) {
            Some(end) => end,
            None => now_ms + DEVICE_TOKEN_MS,
        };
        let mut record = Json::object();
        record.put("mode", Json::text(self.region.id()));
        record.put("accessToken", Json::text(token));
        record.put("refreshToken", Json::Text(packed));
        record.put("userId", Json::Text(user));
        record.put("machineId", Json::text(self.machine_id.as_str()));
        record.put("expiresAt", Json::number(end));
        record
    }

    /// Reads the answer to the question whether the user has agreed.
    pub fn poll(&self, response: ApiResponse, now_ms: i64, longest: usize) -> (outcome: Result<
        PollStep,
        GatewayError,
    >)
        requires
            now_ms + DEVICE_TOKEN_MS <= i64::MAX,
        ensures
            poll_view(outcome) == polled(self@, response@, now_ms as int, longest as int),
    {
        if response.status == 202 || response.status == 404 {
            return Ok(PollStep::Pending);
        }
        assert(["token"]@ =~= seq!["token"]);
        assert(["refresh_token"]@ =~= seq!["refresh_token"]);
        let data = match auth::payload(response, "设备授权") {
            Ok(data) => data,
            Err(error) => return Err(error),
        };
        let token = match credentials::secret(&data, &["token"], longest) {
            Ok(token) => token,
            Err(error) => return Err(error),
        };
        if token.as_str().is_empty() {
            return Err(GatewayError::with_status(502, "Qoder 设备授权响应缺少 token"));
        }
        let refresh = match credentials::secret(&data, &["refresh_token"], longest) {
            Ok(token) => token,
            Err(error) => return Err(error),
        };
        if text::has_char(refresh.as_str(), '|') {
            return Err(
                GatewayError::with_status(502, "Qoder 设备授权响应的 refresh_token 格式无效"),
            );
        }
        let record = self.record(token.as_str(), refresh.as_str(), &data, now_ms);
        match Credentials::from_payload(&record, longest) {
            Ok(credentials) => Ok(PollStep::FetchProfile(credentials)),
            Err(error) => Err(error),
        }
    }
}

/// Completes the credentials of a device that was let in. A profile that could
/// not be had matters only where nothing else names the user.
pub fn finish_login(
    credentials: Credentials,
    profile: Result<Json, GatewayError>,
    machine: &str,
    longest: usize,
) -> (outcome: Result<Credentials, GatewayError>)
    ensures
        credentials::outcome_view(outcome) == match auth::value_view(profile) {
            Ok(p) => match credentials@.profiled(p) {
                Err(e) => Err(e),
                Ok(c) => c.completed(machine@, longest as int),
            },
            Err(e) => if credentials@.user_id.len() == 0 {
                Err(e)
            } else {
                credentials@.completed(machine@, longest as int)
            },
        },
{
    match profile {
        Ok(profile) => auth::finish_preparation(credentials, Some(&profile), machine, longest),
        Err(error) => {
            if credentials.user_id.as_str().is_empty() {
                return Err(error);
            }
            auth::finish_preparation(credentials, None, machine, longest)
        },
    }
}

} // verus!
