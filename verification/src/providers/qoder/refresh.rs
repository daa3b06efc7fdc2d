//! Renewing Qoder's credentials: once for each set of them, and never over those
//! of another account.
use super::auth;
use super::credentials;
use super::credentials::{Credentials, CredentialsV};
use super::endpoints;
use crate::errors;
use crate::errors::{ErrorV, GatewayError};
use crate::http::{ApiRequest, ApiResponse, RequestV};
use crate::json;
use crate::json::{Json, JsonV};
use crate::providers::refresh_flight;
use crate::text;
use vstd::prelude::*;
use vstd::string::*;

verus! {

/// How long a token holds where the answer does not say.
pub const RENEWED_TOKEN_MS: i64 = 2592000000;

/// The credentials of a stored account, ready for use.
pub open spec fn stored_credentials(record: Option<JsonV>, machine: Seq<char>, longest: int) -> Result<
    CredentialsV,
    ErrorV,
> {
    match record {
        None => errors::fail(404, "Qoder 账号不存在，请先添加账号"@),
        Some(r) => match credentials::credentials_in(r, longest) {
            Err(e) => Err(e),
            Ok(c) => c.completed(machine, longest),
        },
    }
}

/// The credentials of a stored account, ready for use.
pub fn snapshot(record: Option<&Json>, machine: &str, longest: usize) -> (outcome: Result<
    Credentials,
    GatewayError,
>)
    ensures
        credentials::outcome_view(outcome) == stored_credentials(
            json::opt_view(record),
            machine@,
            longest as int,
        ),
{
    let record = match record {
        Some(record) => record,
        None => return Err(GatewayError::with_status(404, "Qoder 账号不存在，请先添加账号")),
    };
    let mut stored = match Credentials::from_payload(record, longest) {
        Ok(stored) => stored,
        Err(error) => return Err(error),
    };
    if let Err(error) = stored.complete_identity(machine, longest) {
        return Err(error);
    }
    Ok(stored)
}

/// What to do to have fresh credentials.
#[derive(Debug, Clone, Copy, PartialEq, Eq, Structural)]
pub enum Freshness {
    /// Use them as they are.
    Fresh,
    /// Renew them.
    Renew,
}

/// Whether to renew credentials: where that is asked for, or they are about to
/// end.
pub fn ensure_fresh(credentials: &Credentials, force: bool, now_ms: i64) -> (outcome: Result<
    Freshness,
    GatewayError,
>)
    ensures
        ({
            let ending = credentials@.renewable() && credentials@.expires_at is Some
                && credentials@.expires_at.unwrap() <= now_ms + credentials::REFRESH_MARGIN_MS;
            match outcome {
                Ok(Freshness::Fresh) => !force && !ending,
                Ok(Freshness::Renew) => (force || ending) && credentials@.renewable(),
                Err(e) => force && !credentials@.renewable() && e@ == ErrorV::plain(
                    400,
                    "Qoder 账号没有刷新凭证，请重新登录或添加 PAT"@,
                ),
            }
        }),
{
    if !force && !credentials.expiring(now_ms) {
        return Ok(Freshness::Fresh);
    }
    if !credentials.can_refresh() {
        return Err(
            GatewayError::with_status(400, "Qoder 账号没有刷新凭证，请重新登录或添加 PAT"),
        );
    }
    Ok(Freshness::Renew)
}

/// The key under which a set of credentials is renewed once.
pub open spec fn key_of(store: Seq<char>, account: Seq<char>, c: CredentialsV) -> Seq<char> {
    store + ":"@ + account + ":"@ + c.region.spec_id() + ":"@ + refresh_flight::mark_of(
        c.access_token,
    ) + ":"@ + refresh_flight::mark_of(c.refresh_token)
}

/// The key under which a set of credentials is renewed once.
pub fn flight_key(store: &str, account_id: &str, credentials: &Credentials) -> (key: String)
    ensures
        key@ == key_of(store@, account_id@, credentials@),
{
    let mut key = text::owned(store);
    key.append(":");
    key.append(account_id);
    key.append(":");
    key.append(credentials.region.id());
    key.append(":");
    key.append(refresh_flight::fingerprint(credentials.access_token.as_str()).as_str());
    key.append(":");
    key.append(refresh_flight::fingerprint(credentials.refresh_token.as_str()).as_str());
    key
}

/// The call that renews the credentials of a login.
pub fn refresh_request(credentials: &Credentials) -> (request: ApiRequest)
    ensures
        request@ == (RequestV {
            method: "POST"@,
            url: credentials@.region.spec_center() + endpoints::REFRESH_PATH@,
            headers: endpoints::api_headers(Some(credentials@.access_token)),
            body: Some(
                JsonV::object().put(
                    "refreshToken"@,
                    JsonV::Str(credentials::login_refresh_in(credentials@.refresh_token)),
                ),
            ),
        }),
{
    let mut url = text::owned(credentials.region.center());
    url.append(endpoints::REFRESH_PATH);
    let mut body = Json::object();
    body.put("refreshToken", Json::text(credentials.oauth_refresh()));
    ApiRequest {
        method: "POST",
        url,
        headers: endpoints::open_api_headers(Some(credentials.access_token.as_str())),
        body: Some(body),
    }
}

/// The credentials that a renewal gives.
pub open spec fn renewed(
    known: CredentialsV,
    data: JsonV,
    now_ms: int,
    longest: int,
) -> Result<CredentialsV, ErrorV> {
    match credentials::secret_of(data, seq!["token"], longest) {
        Err(e) => Err(e),
        Ok(token) => if token.len() == 0 {
            errors::fail(502, "Qoder 续期响应缺少 token，旧凭证未被覆盖"@)
        } else {
            match credentials::secret_of(data, seq!["refresh_token"], longest) {
                Err(e) => Err(e),
                Ok(refresh) => if refresh.contains('|') {
                    errors::fail(502, "Qoder 续期响应的 refresh_token 格式无效"@)
                } else {
                    Ok(
                        CredentialsV {
                            access_token: token,
                            refresh_token: credentials::packed_token(
                                if refresh.len() == 0 {
                                    credentials::login_refresh_in(known.refresh_token)
                                } else {
                                    refresh
                                },
                                known.user_id,
                                known.machine_id,
                            ),
                            expires_at: Some(
                                auth::end_or(auth::end_in(data), now_ms, RENEWED_TOKEN_MS as int),
                            ),
                            ..known
                        },
                    )
                },
            }
        },
    }
}

/// The credentials that the answer to a renewal gives: a new access token, and
/// the refresh token that it names, else the known one.
pub fn renew(known: &Credentials, response: ApiResponse, now_ms: i64, longest: usize) -> (outcome:
    Result<Credentials, GatewayError>)
    requires
        now_ms + RENEWED_TOKEN_MS <= i64::MAX,
    ensures
        credentials::outcome_view(outcome) == match auth::payload_in(response@, "凭证续期"@) {
            Err(e) => Err(e),
            Ok(data) => renewed(known@, data, now_ms as int, longest as int),
        },
{
    let data = match auth::payload(response, "凭证续期") {
        Ok(data) => data,
        Err(error) => return Err(error),
    };
    assert(["token"]@ =~= seq!["token"]);
    assert(["refresh_token"]@ =~= seq!["refresh_token"]);
    let token = match credentials::secret(&data, &["token"], longest) {
        Ok(token) => token,
        Err(error) => return Err(error),
    };
    if token.as_str().is_empty() {
        return Err(
            GatewayError::with_status(502, "Qoder 续期响应缺少 token，旧凭证未被覆盖"),
        );
    }
    let refresh = match credentials::secret(&data, &["refresh_token"], longest) {
        Ok(token) => token,
        Err(error) => return Err(error),
    };
    if text::has_char(refresh.as_str(), '|') {
        return Err(GatewayError::with_status(502, "Qoder 续期响应的 refresh_token 格式无效"));
    }
    let mut fresh = known.clone();
    let kept = if refresh.as_str().is_empty() {
        text::owned(known.oauth_refresh())
    } else {
        refresh
    };
    fresh.access_token = token;
    fresh.refresh_token =
    credentials::pack(kept.as_str(), known.user_id.as_str(), known.machine_id.as_str());
    let end: i64 = match credentials::timestamp(data.get("expires_at")) {
        Some(end) => end,
        None => now_ms + RENEWED_TOKEN_MS,
    };
    fresh.expires_at = Some(end);
    Ok(fresh)
}

/// Credentials that may take the place of known ones: those of the same account.
pub open spec fn accepted(known: CredentialsV, fresh: CredentialsV, machine: Seq<char>, longest: int) -> Result<
    CredentialsV,
    ErrorV,
> {
    match fresh.completed(machine, longest) {
        Err(e) => Err(e),
        Ok(c) => if c.user_id != known.user_id || c.region != known.region {
            errors::fail(400, "Qoder 续期返回了不同账号，旧凭证未被覆盖"@)
        } else {
            Ok(c)
        },
    }
}

/// Credentials that may take the place of known ones: those of the same account.
/// Those from a personal access token keep the known machine.
pub fn accept(
    known: &Credentials,
    fresh: Credentials,
    from_pat: bool,
    machine: &str,
    longest: usize,
) -> (outcome: Result<Credentials, GatewayError>)
    ensures
        credentials::outcome_view(outcome) == accepted(
            known@,
            if from_pat {
                CredentialsV { machine_id: known@.machine_id, ..fresh@ }
            } else {
                fresh@
            },
            machine@,
            longest as int,
        ),
{
    let mut fresh = fresh;
    if from_pat {
        fresh.machine_id = text::owned(known.machine_id.as_str());
    }
    if let Err(error) = fresh.complete_identity(machine, longest) {
        return Err(error);
    }
    if !text::same(fresh.user_id.as_str(), known.user_id.as_str()) || fresh.region
        != known.region {
        return Err(GatewayError::with_status(400, "Qoder 续期返回了不同账号，旧凭证未被覆盖"));
    }
    Ok(fresh)
}

/// A renewal never changes the account: what takes the place of known credentials
/// has the same user and the same region.
pub proof fn renewals_keep_the_account(
    known: CredentialsV,
    fresh: CredentialsV,
    machine: Seq<char>,
    longest: int,
)
    requires
        accepted(known, fresh, machine, longest) is Ok,
    ensures
        accepted(known, fresh, machine, longest)->Ok_0.user_id == known.user_id,
        accepted(known, fresh, machine, longest)->Ok_0.region == known.region,
{
}

/// A renewed login can be renewed again: by the refresh token that the answer
/// names, or by the known one where it names none.
pub proof fn renewed_logins_stay_renewable(
    known: CredentialsV,
    data: JsonV,
    now_ms: int,
    longest: int,
)
    requires
        credentials::pat_in(known.refresh_token) is None,
        credentials::login_refresh_in(known.refresh_token).len() > 0,
        renewed(known, data, now_ms, longest) is Ok,
        ({
            let refresh = credentials::secret_of(data, seq!["refresh_token"], longest)->Ok_0;
            &&& refresh != "pat"@
            &&& credentials::login_refresh_in(known.refresh_token) != "pat"@
        }),
    ensures
        ({
            let refresh = credentials::secret_of(data, seq!["refresh_token"], longest)->Ok_0;
            let fresh = renewed(known, data, now_ms, longest)->Ok_0;
            &&& fresh.renewable()
            &&& credentials::login_refresh_in(fresh.refresh_token) == if refresh.len() == 0 {
                credentials::login_refresh_in(known.refresh_token)
            } else {
                refresh
            }
        }),
{
    let refresh = credentials::secret_of(data, seq!["refresh_token"], longest)->Ok_0;
    let old_token = credentials::login_refresh_in(known.refresh_token);
    let kept = if refresh.len() == 0 {
        old_token
    } else {
        refresh
    };
    let whole = credentials::packed_token(kept, known.user_id, known.machine_id);
    reveal_strlit("|");
    reveal_strlit("pat|");
    reveal_strlit("pat");
    text::lemma_place_of(known.refresh_token, '|');
    assert forall|i: int| 0 <= i < kept.len() implies kept[i] != '|' by {
        if refresh.len() > 0 {
            assert(refresh.contains(refresh[i]));
        }
    }
    assert forall|i: int| 0 <= i < kept.len() implies whole[i] != '|' by {
        assert(whole[i] == kept[i]);
    }
    assert(whole[kept.len() as int] == '|');
    text::lemma_place_is(whole, '|', kept.len() as int);
    assert(text::before_char(whole, '|') =~= kept);
    if "pat|"@.is_prefix_of(whole) {
        let tag = "pat|"@;
        assert(tag.len() == 4 && tag[0] == 'p' && tag[1] == 'a' && tag[2] == 't' && tag[3] == '|');
        assert forall|i: int| 0 <= i < 4 implies whole[i] == tag[i] by {
            assert(whole.subrange(0, 4)[i] == whole[i]);
        }
        assert(whole[kept.len() as int] == '|');
        assert(kept.len() == 3);
        assert forall|i: int| 0 <= i < 3 implies kept[i] == "pat"@[i] by {
            assert(whole[i] == "pat|"@[i]);
        }
        assert(kept =~= "pat"@);
    }
}

/// Accounts of a store do not share renewals: what is renewed under one key is one
/// account of one region, with one set of tokens by their marks.
pub proof fn accounts_do_not_share_renewals(
    store: Seq<char>,
    account: Seq<char>,
    other: Seq<char>,
    one: CredentialsV,
    two: CredentialsV,
)
    requires
        refresh_flight::is_mark(refresh_flight::mark_of(one.access_token)),
        refresh_flight::is_mark(refresh_flight::mark_of(one.refresh_token)),
        refresh_flight::is_mark(refresh_flight::mark_of(two.access_token)),
        refresh_flight::is_mark(refresh_flight::mark_of(two.refresh_token)),
        key_of(store, account, one) == key_of(store, other, two),
    ensures
        account == other,
        one.region == two.region,
        refresh_flight::mark_of(one.access_token) == refresh_flight::mark_of(two.access_token),
        refresh_flight::mark_of(one.refresh_token) == refresh_flight::mark_of(two.refresh_token),
{
    let a = refresh_flight::mark_of(one.access_token);
    let b = refresh_flight::mark_of(one.refresh_token);
    let c = refresh_flight::mark_of(two.access_token);
    let d = refresh_flight::mark_of(two.refresh_token);
    refresh_flight::lemma_mark(a);
    refresh_flight::lemma_mark(b);
    refresh_flight::lemma_mark(c);
    refresh_flight::lemma_mark(d);
    reveal_strlit(":");
    reveal_strlit("global");
    reveal_strlit("cn");
    let key = key_of(store, account, one);
    let n = key.len();
    assert(key.skip(n - 32) =~= b);
    assert(key.skip(n - 32) =~= d);
    assert(key.subrange(n - 65, n - 33) =~= a);
    assert(key.subrange(n - 65, n - 33) =~= c);
    assert(key[n - 67] == one.region.spec_id().last());
    assert(key[n - 67] == two.region.spec_id().last());
    assert(one.region == two.region);
    let from = store.len() + 1;
    let to = n - 67 - one.region.spec_id().len();
    assert(key.subrange(from as int, to) =~= account);
    assert(key.subrange(from as int, to) =~= other);
}

} // verus!
