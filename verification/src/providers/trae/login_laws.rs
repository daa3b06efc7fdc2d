//! What Trae's logins come to: the tokens and the user that are kept are those that
//! the service gave.
use super::oauth;
use super::oauth::{
    callback_in, end_in, exchange_call, exchanged, expire_of, first_plain, last_value, login_pairs,
    param_value, renewed, result_in, unescaped, with_user, CallbackV, ClientV, CredentialsV,
};
use crate::errors::ErrorV;
use crate::http::ResponseV;
use crate::json;
use crate::json::JsonV;
use crate::text;
use crate::urls;
use vstd::prelude::*;
use vstd::string::*;
use vstd::utf8::*;

verus! {

/// The words tell one another apart.
proof fn lemma_words()
    ensures
        "msg"@.len() == 3,
        "name"@.len() == 4,
        "Token"@.len() == 5,
        "Result"@.len() == 6,
        "UserID"@.len() == 6,
        "userId"@.len() == 6,
        "Result"@[0] == 'R',
        "UserID"@[0] == 'U',
        "userId"@[0] == 'u',
        "message"@.len() == 7,
        "ClientID"@.len() == 8,
        "TenantID"@.len() == 8,
        "tenantId"@.len() == 8,
        "ClientID"@[0] == 'C',
        "TenantID"@[0] == 'T',
        "tenantId"@[0] == 't',
        "ScreenName"@.len() == 10,
        "screenName"@.len() == 10,
        "ScreenName"@[0] == 'S',
        "screenName"@[0] == 's',
        "ClientSecret"@.len() == 12,
        "EnterpriseID"@.len() == 12,
        "RefreshToken"@.len() == 12,
        "ClientSecret"@[0] == 'C',
        "EnterpriseID"@[0] == 'E',
        "RefreshToken"@[0] == 'R',
        "TokenExpireAt"@.len() == 13,
        "TokenExpireDuration"@.len() == 19,
{
    reveal_strlit("msg");
    reveal_strlit("name");
    reveal_strlit("Token");
    reveal_strlit("Result");
    reveal_strlit("UserID");
    reveal_strlit("userId");
    reveal_strlit("message");
    reveal_strlit("ClientID");
    reveal_strlit("TenantID");
    reveal_strlit("tenantId");
    reveal_strlit("ScreenName");
    reveal_strlit("screenName");
    reveal_strlit("ClientSecret");
    reveal_strlit("EnterpriseID");
    reveal_strlit("RefreshToken");
    reveal_strlit("TokenExpireAt");
    reveal_strlit("TokenExpireDuration");
}

/// The page to log in on is told which client asks, on which machine and device, and
/// where to come back to.
pub proof fn logins_tell_the_client(
    client: ClientV,
    callback: Seq<char>,
    trace: Seq<char>,
    machine: Seq<char>,
    device: Seq<char>,
)
    ensures
        ({
            let pairs = login_pairs(client, callback, trace, machine, device);
            &&& pairs.contains(("client_id"@, client.client_id))
            &&& pairs.contains(("login_trace_id"@, trace))
            &&& pairs.contains(("auth_callback_url"@, callback))
            &&& pairs.contains(("machine_id"@, machine))
            &&& pairs.contains(("x_machine_id"@, machine))
            &&& pairs.contains(("device_id"@, device))
            &&& pairs.contains(("x_device_id"@, device))
            &&& pairs.contains(("x_app_version"@, client.ide_version))
        }),
{
    let pairs = login_pairs(client, callback, trace, machine, device);
    assert(pairs[5] == ("client_id"@, client.client_id));
    assert(pairs[7] == ("login_trace_id"@, trace));
    assert(pairs[8] == ("auth_callback_url"@, callback));
    assert(pairs[9] == ("machine_id"@, machine));
    assert(pairs[10] == ("device_id"@, device));
    assert(pairs[11] == ("x_device_id"@, device));
    assert(pairs[12] == ("x_machine_id"@, machine));
    assert(pairs[16] == ("x_app_version"@, client.ide_version));
}

/// Of the values of a name in an address the last counts.
pub proof fn the_last_value_counts(
    pairs: Seq<(Seq<char>, Seq<char>)>,
    name: Seq<char>,
    value: Seq<char>,
    other: Seq<char>,
)
    ensures
        last_value(pairs.push((name, value)), name) == Some(value),
        other != name ==> last_value(pairs.push((other, value)), name) == last_value(pairs, name),
        last_value(Seq::empty(), name) is None,
{
    assert(pairs.push((name, value)).drop_last() =~= pairs);
    assert(pairs.push((other, value)).drop_last() =~= pairs);
}

/// A callback that answers the login gives the tokens and the user that it carries.
pub proof fn callbacks_give_what_they_carry(
    raw: Seq<char>,
    expected: Seq<char>,
    parts: urls::UrlV,
    jwt: JsonV,
    info: JsonV,
    s: Seq<char>,
    n: int,
)
    requires
        urls::parsed_url(raw) == Some(parts),
        oauth::state_in(parts.query) == expected,
        param_value(last_value(parts.query, "userJwt"@)) == jwt,
        param_value(last_value(parts.query, "userInfo"@)) == info,
        s.len() > 0,
        1_000_000_000_000 < n <= i64::MAX,
    ensures
        jwt.get("Token"@) == Some(JsonV::Str(s)) ==> (callback_in(raw, expected) matches Ok(own)
            && own.access_token == s),
        last_value(parts.query, "refreshToken"@) == Some(s) ==> (callback_in(
            raw,
            expected,
        ) matches Ok(own) && own.refresh_token == s),
        last_value(parts.query, "refreshToken"@) is None && jwt.get("RefreshToken"@) == Some(
            JsonV::Str(s),
        ) ==> (callback_in(raw, expected) matches Ok(own) && own.refresh_token == s),
        callback_in(raw, expected) matches Ok(own) ==> {
            &&& info.get("UserID"@) == Some(JsonV::Str(s)) ==> own.user_id == s
            &&& info.get("ScreenName"@) == Some(JsonV::Str(s)) ==> own.nickname == s
            &&& info.get("TenantID"@) == Some(JsonV::Str(s)) ==> own.enterprise_id == s
            &&& jwt.get("TokenExpireAt"@) == Some(JsonV::Int(n)) ==> own.expires_at == Some(n)
            &&& jwt.get("TokenExpireAt"@) is None ==> own.expires_at is None
        },
{
    lemma_words();
    assert(seq!["Token"][0]@ == "Token"@);
    assert(seq!["RefreshToken"][0]@ == "RefreshToken"@);
    assert(seq!["UserID", "userId"][0]@ == "UserID"@);
    assert(seq!["ScreenName", "screenName", "name"][0]@ == "ScreenName"@);
    assert(seq!["TenantID", "tenantId"][0]@ == "TenantID"@);
    assert(first_plain(jwt, seq!["Token"]).len() >= 0);
}

/// A time in seconds is brought to thousandths, one in thousandths stays; a time of
/// zero or less is none.
pub proof fn times_are_in_thousandths(n: int)
    ensures
        0 < n <= 1_000_000_000_000 ==> expire_of(Some(n)) == Some(n * 1000),
        n > 1_000_000_000_000 ==> expire_of(Some(n)) == Some(n),
        n <= 0 ==> expire_of(Some(n)) is None,
        expire_of(None) is None,
{
}

/// A token ends when the service says, or after as many seconds as it says from now.
pub proof fn tokens_end_as_stated(result: JsonV, now_ms: int, n: int)
    requires
        0 < n <= i64::MAX,
    ensures
        n > 1_000_000_000_000 && result.get("TokenExpireAt"@) == Some(JsonV::Int(n)) ==> end_in(
            result,
            now_ms,
        ) == Some(n),
        result.get("TokenExpireAt"@) is None && result.get("TokenExpireDuration"@) == Some(
            JsonV::Int(n),
        ) ==> end_in(result, now_ms) == Some(now_ms + n * 1000),
        result.get("TokenExpireAt"@) is None && result.get("TokenExpireDuration"@) is None
            ==> end_in(result, now_ms) is None,
{
    lemma_words();
}

/// What a login is exchanged for, and what credentials are renewed with, are the
/// tokens of the answer; a token to renew that it does not hold stays.
pub proof fn answers_are_taken_over(
    callback: CallbackV,
    known: CredentialsV,
    result: JsonV,
    now_ms: int,
    token: Seq<char>,
    s: Seq<char>,
)
    requires
        result.get("Token"@) == Some(JsonV::Str(token)),
        s.len() > 0,
    ensures
        token.len() > 0 ==> {
            &&& exchanged(callback, result, now_ms) matches Ok(login)
            &&& login.access_token == token
            &&& login.expires_at == end_in(result, now_ms)
            &&& result.get("RefreshToken"@) == Some(JsonV::Str(s)) ==> login.refresh_token == s
            &&& result.get("RefreshToken"@) is None ==> login.refresh_token
                == callback.refresh_token
            &&& login.user_id == callback.user_id && login.nickname == callback.nickname
            &&& login.enterprise_id == callback.enterprise_id
        },
        token.len() > 0 ==> {
            &&& renewed(known, result, now_ms) matches Ok(next)
            &&& next.access_token == token
            &&& next.expires_at == end_in(result, now_ms)
            &&& result.get("RefreshToken"@) == Some(JsonV::Str(s)) ==> next.refresh_token == s
            &&& result.get("RefreshToken"@) is None ==> next.refresh_token == known.refresh_token
            &&& next.nickname == known.nickname && next.enterprise_id == known.enterprise_id
        },
        token.len() == 0 ==> (exchanged(callback, result, now_ms) matches Err(e) && e.status == 502),
        token.len() == 0 ==> (renewed(known, result, now_ms) matches Err(e) && e.status == 502),
{
    lemma_words();
}

/// Who logged in is filled in from the answer, but what was known before stays.
pub proof fn users_are_filled_in(callback: CallbackV, result: JsonV, user: Seq<char>, s: Seq<char>)
    requires
        result.get("UserID"@) == Some(JsonV::Str(user)),
    ensures
        user.len() > 0 ==> {
            &&& with_user(callback, result) matches Ok(login)
            &&& login.user_id == user
            &&& callback.nickname.len() > 0 ==> login.nickname == callback.nickname
            &&& callback.nickname.len() == 0 && result.get("ScreenName"@) == Some(JsonV::Str(s))
                ==> login.nickname == s
            &&& callback.enterprise_id.len() == 0 && result.get("EnterpriseID"@) == Some(
                JsonV::Str(s),
            ) ==> login.enterprise_id == s
            &&& login.access_token == callback.access_token
            &&& login.refresh_token == callback.refresh_token
            &&& login.expires_at == callback.expires_at
        },
        user.len() == 0 ==> with_user(callback, result) is Err,
{
    lemma_words();
}

/// The request to exchange or renew hands in the token and says which client asks.
pub proof fn tokens_are_handed_in(client: ClientV, token: Seq<char>)
    ensures
        ({
            let request = exchange_call(client, token);
            &&& request.body matches Some(body)
            &&& body.get("RefreshToken"@) == Some(JsonV::Str(token))
            &&& body.get("ClientID"@) == Some(JsonV::Str(client.client_id))
            &&& request.headers == client.headers
            &&& client.host.is_prefix_of(request.url)
            &&& request.method == "POST"@
        }),
{
    lemma_words();
    let request = exchange_call(client, token);
    assert(request.url.subrange(0, client.host.len() as int) =~= client.host);
}

/// The answer of the service is its result, or the whole object where it has none; a
/// failed call is told with its status, what was tried and the service's words.
pub proof fn answers_are_checked(
    response: ResponseV,
    action: Seq<char>,
    m: Map<Seq<char>, JsonV>,
    value: JsonV,
    s: Seq<char>,
)
    requires
        response.payload == Some(JsonV::Obj(m)),
    ensures
        response.ok && JsonV::Obj(m).get("Result"@) == Some(value) ==> result_in(response, action)
            == Ok::<JsonV, ErrorV>(value),
        response.ok && JsonV::Obj(m).get("Result"@) is None ==> result_in(response, action) == Ok::<
            JsonV,
            ErrorV,
        >(JsonV::Obj(m)),
        !response.ok ==> (result_in(response, action) matches Err(e) && e.status == response.status
            && action.is_prefix_of(e.message) && (JsonV::Obj(m).get("message"@) == Some(
            JsonV::Str(s),
        ) ==> s.is_suffix_of(e.message))),
{
    lemma_words();
    let said = oauth::failure_in(response.payload);
    let whole = action + "失败："@ + said;
    assert(whole.subrange(0, action.len() as int) =~= action);
    assert(whole.subrange(whole.len() - said.len(), whole.len() as int) =~= said);
}

/// What an address carries is read as JSON, as it is or with its escapes undone.
pub proof fn carried_values_are_read(s: Seq<char>, value: JsonV)
    ensures
        json::parsed_json(s) == Some(value) ==> param_value(Some(s)) == value,
        json::parsed_json(s) is None && json::parsed_json(unescaped(encode_utf8(s), 0)) == Some(
            value,
        ) ==> param_value(Some(s)) == value,
        param_value(None) == JsonV::Null,
{
}

/// Undoing escapes leaves alone what is none: a byte that is neither a mark nor a
/// plus stands for itself, a plus for a blank, and an escape for its number.
pub proof fn escapes_are_undone(bytes: Seq<u8>, from: int)
    requires
        0 <= from < bytes.len(),
    ensures
        bytes[from] != 37 && bytes[from] != 43 ==> unescaped(bytes, from) == seq![
            bytes[from] as char,
        ] + unescaped(bytes, from + 1),
        bytes[from] == 43 ==> unescaped(bytes, from) == seq![' '] + unescaped(bytes, from + 1),
        bytes[from] == 37 && from + 2 < bytes.len() && 48 <= bytes[from + 1] <= 57 && 48
            <= bytes[from + 2] <= 57 ==> unescaped(bytes, from) == seq![
            ((bytes[from + 1] - 48) * 16 + (bytes[from + 2] - 48)) as char,
        ] + unescaped(bytes, from + 3),
        unescaped(bytes, bytes.len() as int) == Seq::<char>::empty(),
{
}

/// A device is numbered with as many digits as there were bytes to make it from, and
/// bytes below ten are their own digits.
pub proof fn devices_are_numbered(bytes: Seq<u8>)
    ensures
        oauth::digits_of(bytes).len() == bytes.len(),
        bytes.len() > 0 ==> text::all_digits(oauth::digits_of(bytes)),
        forall|i: int|
            0 <= i < bytes.len() && bytes[i] < 10 ==> (#[trigger] oauth::digits_of(bytes)[i]) as int
                == '0' as int + bytes[i],
{
    let made = oauth::digits_of(bytes);
    assert forall|i: int| 0 <= i < made.len() implies text::is_digit(#[trigger] made[i]) by {
        assert(made[i] == (bytes[i] % 10 + 48) as char);
    }
}

} // verus!
