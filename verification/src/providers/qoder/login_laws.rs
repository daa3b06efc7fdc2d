//! What Qoder's logins come to: the credentials that are kept can be read again, and
//! those that are renewed are the ones that the service gave.
use super::adapter::QoderAdapter;
use super::auth;
use super::auth::{job_tokens_in, payload_in, JobTokensV};
use super::credentials;
use super::credentials::{
    bare_token, credentials_in, entry_text, first_text, first_time, has_control, is_identity,
    packed, secret_of, text_of, time_of, CredentialsV,
};
use super::endpoints;
use super::endpoints::Region;
use super::machine;
use super::oauth;
use super::oauth::LoginV;
use super::protocol;
use super::protocol::UpstreamKind;
use super::refresh;
use crate::errors::ErrorV;
use crate::http::ResponseV;
use crate::json::JsonV;
use crate::providers::adapter::{lemma_returned, ClassV};
use crate::text;
use vstd::prelude::*;
use vstd::string::*;
use vstd::utf8::*;

verus! {

/// The words tell one another apart.
proof fn lemma_words()
    ensures
        "cn"@.len() == 2,
        "id"@.len() == 2,
        "cn"@[0] == 'c',
        "id"@[0] == 'i',
        "pat"@.len() == 3,
        "uid"@.len() == 3,
        "pat"@[0] == 'p',
        "uid"@[0] == 'u',
        "code"@.len() == 4,
        "intl"@.len() == 4,
        "mode"@.len() == 4,
        "name"@.len() == 4,
        "code"@[0] == 'c',
        "intl"@[0] == 'i',
        "mode"@[0] == 'm',
        "name"@[0] == 'n',
        "email"@.len() == 5,
        "token"@.len() == 5,
        "email"@[0] == 'e',
        "token"@[0] == 't',
        "access"@.len() == 6,
        "global"@.len() == 6,
        "userId"@.len() == 6,
        "access"@[0] == 'a',
        "global"@[0] == 'g',
        "userId"@[0] == 'u',
        "edition"@.len() == 7,
        "expires"@.len() == 7,
        "message"@.len() == 7,
        "refresh"@.len() == 7,
        "user_id"@.len() == 7,
        "edition"@[0] == 'e',
        "edition"@[1] == 'd',
        "expires"@[0] == 'e',
        "expires"@[1] == 'x',
        "message"@[0] == 'm',
        "message"@[1] == 'e',
        "refresh"@[0] == 'r',
        "refresh"@[1] == 'e',
        "user_id"@[0] == 'u',
        "user_id"@[1] == 's',
        "nickname"@.len() == 8,
        "username"@.len() == 8,
        "nickname"@[0] == 'n',
        "username"@[0] == 'u',
        "expiresAt"@.len() == 9,
        "machineId"@.len() == 9,
        "expiresAt"@[0] == 'e',
        "machineId"@[0] == 'm',
        "expires_at"@.len() == 10,
        "machine_id"@.len() == 10,
        "expires_at"@[0] == 'e',
        "machine_id"@[0] == 'm',
        "accessToken"@.len() == 11,
        "access_token"@.len() == 12,
        "refreshToken"@.len() == 12,
        "access_token"@[0] == 'a',
        "refreshToken"@[0] == 'r',
        "refresh_token"@.len() == 13,
        "personal_token"@.len() == 14,
        "tokenExpiresAt"@.len() == 14,
        "personal_token"@[0] == 'p',
        "tokenExpiresAt"@[0] == 't',
{
    reveal_strlit("cn");
    reveal_strlit("id");
    reveal_strlit("pat");
    reveal_strlit("uid");
    reveal_strlit("code");
    reveal_strlit("intl");
    reveal_strlit("mode");
    reveal_strlit("name");
    reveal_strlit("email");
    reveal_strlit("token");
    reveal_strlit("access");
    reveal_strlit("global");
    reveal_strlit("userId");
    reveal_strlit("edition");
    reveal_strlit("expires");
    reveal_strlit("message");
    reveal_strlit("refresh");
    reveal_strlit("user_id");
    reveal_strlit("nickname");
    reveal_strlit("username");
    reveal_strlit("expiresAt");
    reveal_strlit("machineId");
    reveal_strlit("expires_at");
    reveal_strlit("machine_id");
    reveal_strlit("accessToken");
    reveal_strlit("access_token");
    reveal_strlit("refreshToken");
    reveal_strlit("refresh_token");
    reveal_strlit("personal_token");
    reveal_strlit("tokenExpiresAt");
}

/// Whether a text is a token as it stands: no blank in it, nothing that cannot be
/// written, and not too long.
pub open spec fn is_token(s: Seq<char>, longest: int) -> bool {
    &&& s.len() > 0
    &&& forall|i: int| 0 <= i < s.len() ==> !text::is_space(#[trigger] s[i])
    &&& !has_control(s)
    &&& encode_utf8(s).len() <= longest
}

proof fn lemma_token(s: Seq<char>, longest: int)
    requires
        is_token(s, longest),
    ensures
        text::trimmed(s) == s,
        bare_token(s) == s,
{
    reveal_strlit("bearer ");
    assert(!text::is_space(s[0]) && !text::is_space(s[s.len() - 1]));
    text::lemma_trimmed(s);
    if s.len() >= 7 && text::ascii_lowercase(s.take(7)) == "bearer "@ {
        assert(text::ascii_lowercase(s.take(7))[6] == text::ascii_lower(s[6]));
        assert("bearer "@[6] == ' ');
        assert(!text::is_space(s[6]));
    }
}

proof fn lemma_first_secret(payload: JsonV, keys: Seq<&str>, s: Seq<char>, longest: int)
    requires
        keys.len() > 0,
        payload.get(keys[0]@) == Some(JsonV::Str(s)),
        is_token(s, longest),
    ensures
        secret_of(payload, keys, longest) == Ok::<Seq<char>, ErrorV>(s),
{
    lemma_token(s, longest);
    assert(first_text(payload, keys) == s);
}

proof fn lemma_no_secret(payload: JsonV, keys: Seq<&str>, longest: int)
    requires
        longest >= 0,
        forall|i: int| 0 <= i < keys.len() ==> !(payload.field((#[trigger] keys[i])@) is Str),
    ensures
        secret_of(payload, keys, longest) == Ok::<Seq<char>, ErrorV>(Seq::empty()),
        first_text(payload, keys) == Seq::<char>::empty(),
    decreases keys.len(),
{
    let none = Seq::<char>::empty();
    assert(encode_utf8(none).len() == 0) by {
        reveal_with_fuel(encode_utf8, 1);
    }
    if keys.len() > 0 {
        assert(!(payload.field(keys[0]@) is Str));
        let rest = keys.skip(1);
        assert forall|i: int| 0 <= i < rest.len() implies !(payload.field((#[trigger] rest[i])@) is Str) by {
            assert(rest[i] == keys[i + 1]);
        }
        lemma_no_secret(payload, rest, longest);
    }
    assert(bare_token(none) =~= none);
    assert(!has_control(none));
}

proof fn lemma_no_text(payload: JsonV, keys: Seq<&str>)
    requires
        forall|i: int| 0 <= i < keys.len() ==> payload.field((#[trigger] keys[i])@) == JsonV::Null,
    ensures
        text_of(payload, keys) == Seq::<char>::empty(),
    decreases keys.len(),
{
    if keys.len() > 0 {
        assert(payload.field(keys[0]@) == JsonV::Null);
        let rest = keys.skip(1);
        assert forall|i: int| 0 <= i < rest.len() implies payload.field((#[trigger] rest[i])@)
            == JsonV::Null by {
            assert(rest[i] == keys[i + 1]);
        }
        lemma_no_text(payload, rest);
    }
}

proof fn lemma_no_time(payload: JsonV, keys: Seq<&str>)
    requires
        forall|i: int| 0 <= i < keys.len() ==> payload.field((#[trigger] keys[i])@) == JsonV::Null,
    ensures
        first_time(payload, keys) is None,
    decreases keys.len(),
{
    if keys.len() > 0 {
        assert(payload.field(keys[0]@) == JsonV::Null);
        let rest = keys.skip(1);
        assert forall|i: int| 0 <= i < rest.len() implies payload.field((#[trigger] rest[i])@)
            == JsonV::Null by {
            assert(rest[i] == keys[i + 1]);
        }
        lemma_no_time(payload, rest);
    }
}

/// Whether a text stands by itself: nothing, or without blanks around it.
pub open spec fn is_trim(s: Seq<char>) -> bool {
    text::trimmed(s) == s
}

proof fn lemma_kept_text(payload: JsonV, keys: Seq<&str>, s: Seq<char>)
    requires
        keys.len() > 0,
        payload.get(keys[0]@) == Some(credentials::or_null(s)),
        is_trim(s),
        s.len() == 0 ==> forall|i: int|
            0 <= i < keys.len() ==> payload.field((#[trigger] keys[i])@) == JsonV::Null,
    ensures
        text_of(payload, keys) == s,
{
    if s.len() == 0 {
        lemma_no_text(payload, keys);
        assert(s =~= Seq::empty());
    } else {
        assert(entry_text(JsonV::Str(s)) == Some(s));
    }
}

/// Whether credentials are complete as they stand: a token, whole identities that
/// agree with what is packed into the token for renewal, and a time in thousandths.
pub open spec fn is_kept(own: CredentialsV, longest: int) -> bool {
    &&& is_token(own.access_token, longest)
    &&& own.refresh_token.len() > 0 ==> is_token(own.refresh_token, longest)
    &&& own.refresh_token.len() > 0 ==> text::parts(own.refresh_token, '|').len() > 1
    &&& packed(own.refresh_token) matches Some(p)
    &&& p.0.len() > 0 ==> p.0 == own.user_id
    &&& p.1.len() > 0 ==> p.1 == own.machine_id
    &&& is_identity(own.user_id) && is_trim(own.user_id)
    &&& is_identity(own.machine_id) && is_trim(own.machine_id)
    &&& is_trim(own.email) && own.email.len() <= 320
    &&& is_trim(own.name) && own.name.len() <= 100
    &&& own.expires_at matches Some(t) ==> 100_000_000_000 <= t <= i64::MAX
}

/// Credentials that are kept are read again as they were.
pub proof fn kept_credentials_are_read_again(own: CredentialsV, longest: int)
    requires
        is_kept(own, longest),
        longest >= 0,
    ensures
        credentials_in(own.record(), longest) == Ok::<CredentialsV, ErrorV>(own),
{
    lemma_words();
    let record = own.record();
    endpoints::region_names_round_trip(own.region);
    assert(record.get("mode"@) == Some(JsonV::Str(own.region.spec_id())));
    assert(Region::in_payload(record) == Ok::<Region, ErrorV>(own.region));
    let access = seq!["accessToken", "access", "token", "access_token"];
    assert(record.get("accessToken"@) == Some(JsonV::Str(own.access_token)));
    lemma_first_secret(record, access, own.access_token, longest);
    let renewal = seq!["refreshToken", "refresh", "refresh_token"];
    assert(record.get("refresh"@) is None && record.get("refresh_token"@) is None);
    if own.refresh_token.len() > 0 {
        assert(record.get("refreshToken"@) == Some(JsonV::Str(own.refresh_token)));
        lemma_first_secret(record, renewal, own.refresh_token, longest);
    } else {
        assert(record.get("refreshToken"@) == Some(JsonV::Null));
        assert forall|i: int| 0 <= i < renewal.len() implies !(record.field(
            (#[trigger] renewal[i])@,
        ) is Str) by {
            assert(renewal[i]@ == "refreshToken"@ || renewal[i]@ == "refresh"@ || renewal[i]@
                == "refresh_token"@);
        }
        lemma_no_secret(record, renewal, longest);
        assert(own.refresh_token =~= Seq::empty());
    }
    lemma_kept_names(own);
    let p = packed(own.refresh_token).unwrap();
    assert(credentials::either(own.user_id, p.0) == own.user_id) by {
        if own.user_id.len() == 0 {
            assert(p.0 =~= own.user_id);
        }
    }
    assert(credentials::either(own.machine_id, p.1) == own.machine_id) by {
        if own.machine_id.len() == 0 {
            assert(p.1 =~= own.machine_id);
        }
    }
    assert(credentials::identified(record, own.region, own.access_token, own.refresh_token) == Ok::<
        CredentialsV,
        ErrorV,
    >(own));
}

proof fn lemma_kept_names(own: CredentialsV)
    requires
        is_trim(own.user_id) && is_trim(own.machine_id) && is_trim(own.email) && is_trim(own.name),
        own.expires_at matches Some(t) ==> 100_000_000_000 <= t <= i64::MAX,
    ensures
        text_of(own.record(), seq!["userId", "user_id", "uid"]) == own.user_id,
        text_of(own.record(), seq!["machineId", "machine_id"]) == own.machine_id,
        text_of(own.record(), seq!["email"]) == own.email,
        text_of(own.record(), seq!["nickname", "name"]) == own.name,
        first_time(
            own.record(),
            seq!["expiresAt", "expires", "expires_at", "tokenExpiresAt"],
        ) == own.expires_at,
{
    lemma_words();
    let record = own.record();
    let users = seq!["userId", "user_id", "uid"];
    assert(record.get("userId"@) == Some(credentials::or_null(own.user_id)));
    assert forall|i: int| 1 <= i < users.len() implies record.field((#[trigger] users[i])@)
        == JsonV::Null by {
        assert(users[i]@ == "user_id"@ || users[i]@ == "uid"@);
    }
    lemma_kept_text(record, users, own.user_id);
    let machines = seq!["machineId", "machine_id"];
    assert(record.get("machineId"@) == Some(credentials::or_null(own.machine_id)));
    assert(record.field("machine_id"@) == JsonV::Null);
    lemma_kept_text(record, machines, own.machine_id);
    let mails = seq!["email"];
    assert(record.get("email"@) == Some(credentials::or_null(own.email)));
    lemma_kept_text(record, mails, own.email);
    let names = seq!["nickname", "name"];
    assert(record.get("nickname"@) == Some(credentials::or_null(own.name)));
    assert(record.field("name"@) == JsonV::Null);
    lemma_kept_text(record, names, own.name);
    let ends = seq!["expiresAt", "expires", "expires_at", "tokenExpiresAt"];
    match own.expires_at {
        Some(t) => {
            assert(record.get("expiresAt"@) == Some(JsonV::Int(t)));
            assert(time_of(JsonV::Int(t)) == Some(t));
        },
        None => {
            assert(record.get("expiresAt"@) == Some(JsonV::Null));
            assert forall|i: int| 0 <= i < ends.len() implies record.field((#[trigger] ends[i])@)
                == JsonV::Null by {
                assert(ends[i]@ == "expiresAt"@ || ends[i]@ == "expires"@ || ends[i]@
                    == "expires_at"@ || ends[i]@ == "tokenExpiresAt"@);
            }
            lemma_no_time(record, ends);
        },
    }
}

/// The token of a record is read by the first of its names, and a record without one
/// is refused.
pub proof fn records_give_their_token(payload: JsonV, s: Seq<char>, longest: int)
    requires
        payload is Obj,
        longest >= 0,
    ensures
        payload.get("accessToken"@) == Some(JsonV::Str(s)) && is_token(s, longest) ==> (
        credentials_in(payload, longest) matches Ok(own) ==> own.access_token == s),
        payload.get("accessToken"@) is None && payload.get("access"@) is None && payload.get(
            "token"@,
        ) is None && payload.get("access_token"@) is None ==> credentials_in(payload, longest)
            is Err,
{
    lemma_words();
    let keys = seq!["accessToken", "access", "token", "access_token"];
    if payload.get("accessToken"@) == Some(JsonV::Str(s)) && is_token(s, longest) {
        lemma_first_secret(payload, keys, s, longest);
    }
    if payload.get("accessToken"@) is None && payload.get("access"@) is None && payload.get(
        "token"@,
    ) is None && payload.get("access_token"@) is None {
        assert forall|i: int| 0 <= i < keys.len() implies !(payload.field((#[trigger] keys[i])@) is Str) by {
            assert(keys[i]@ == "accessToken"@ || keys[i]@ == "access"@ || keys[i]@ == "token"@
                || keys[i]@ == "access_token"@);
        }
        lemma_no_secret(payload, keys, longest);
    }
}

/// A time in seconds is brought to thousandths, one in thousandths stays; a time of
/// zero or less is none.
pub proof fn times_are_in_thousandths(n: int)
    requires
        i64::MIN <= n <= i64::MAX,
    ensures
        0 < n < 100_000_000_000 ==> time_of(JsonV::Int(n)) == Some(n * 1000),
        n >= 100_000_000_000 ==> time_of(JsonV::Int(n)) == Some(n),
        n <= 0 ==> time_of(JsonV::Int(n)) is None,
{
}

/// A profile fills in who the account is of, and never makes it another's.
pub proof fn profiles_name_the_user(own: CredentialsV, profile: JsonV, s: Seq<char>)
    requires
        s.len() > 0,
        is_trim(s),
    ensures
        profile.get("id"@) == Some(JsonV::Str(s)) && own.user_id.len() > 0 && own.user_id != s
            ==> own.profiled(profile) is Err,
        profile.get("id"@) == Some(JsonV::Str(s)) && (own.user_id.len() == 0 || own.user_id == s)
            ==> (own.profiled(profile) matches Ok(named) && named.user_id == s),
        own.profiled(profile) matches Ok(named) ==> {
            &&& profile.get("name"@) == Some(JsonV::Str(s)) && s.len() <= 100 ==> named.name == s
            &&& profile.get("email"@) == Some(JsonV::Str(s)) && s.len() <= 320 ==> named.email == s
            &&& named.access_token == own.access_token && named.refresh_token == own.refresh_token
            &&& named.expires_at == own.expires_at && named.machine_id == own.machine_id
            &&& named.region == own.region
        },
{
    lemma_words();
    assert(entry_text(JsonV::Str(s)) == Some(s));
    assert(seq!["id", "userId", "user_id"][0]@ == "id"@);
    assert(seq!["name", "username"][0]@ == "name"@);
    assert(seq!["email"][0]@ == "email"@);
}

/// The answer of the service is an object or an error: a failed call with its status
/// and what was tried.
pub proof fn answers_are_checked(response: ResponseV, action: Seq<char>)
    ensures
        response.ok && response.payload is Some && response.payload.unwrap() is Obj ==> payload_in(
            response,
            action,
        ) == Ok::<JsonV, ErrorV>(response.payload.unwrap()),
        response.ok && (response.payload is None || !(response.payload.unwrap() is Obj)) ==> (
        payload_in(response, action) matches Err(e) && e.status == 502),
        !response.ok ==> (payload_in(response, action) matches Err(e) && e.status == response.status
            && text::has_part(e.message, action) && text::has_part(
            e.message,
            text::decimal(response.status as nat),
        )),
{
    let number = text::decimal(response.status as nat);
    let end = "）"@ + auth::advice(response.status);
    let whole = "Qoder "@ + action + "失败（HTTP "@ + number + "）"@ + auth::advice(
        response.status,
    );
    assert(whole =~= "Qoder "@ + action + ("失败（HTTP "@ + number + end));
    text::lemma_has_part("Qoder "@, action, "失败（HTTP "@ + number + end);
    let head = "Qoder "@ + action + "失败（HTTP "@;
    assert(whole =~= head + number + end);
    text::lemma_has_part(head, number, end);
}

/// The tokens that a personal access token is exchanged for are those of the answer.
pub proof fn exchanged_tokens_are_read(data: JsonV, token: Seq<char>, s: Seq<char>, longest: int, n: int)
    requires
        data.get("token"@) == Some(JsonV::Str(token)),
        is_token(token, longest),
        data.get("refresh_token"@) == Some(JsonV::Str(s)),
        is_token(s, longest),
        100_000_000_000 <= n <= i64::MAX,
    ensures
        !s.contains('|') ==> {
            &&& job_tokens_in(data, longest) matches Ok(tokens)
            &&& tokens.token == token
            &&& tokens.refresh_token == s
            &&& data.get("expires_at"@) == Some(JsonV::Int(n)) ==> tokens.expires_at == Some(n)
            &&& data.get("expires_at"@) is None ==> tokens.expires_at is None
        },
        s.contains('|') ==> (job_tokens_in(data, longest) matches Err(e) && e.status == 502),
{
    lemma_words();
    assert(seq!["token"][0]@ == "token"@);
    lemma_first_secret(data, seq!["token"], token, longest);
    lemma_first_secret(data, seq!["refresh_token"], s, longest);
}

/// The record of a personal access token holds what it was exchanged for, whose it
/// is and until when; where the service does not say, for a day.
pub proof fn exchanged_tokens_are_kept(
    pat: Seq<char>,
    region: Region,
    tokens: JobTokensV,
    profile: JsonV,
    machine: Seq<char>,
    now_ms: int,
    user: Seq<char>,
)
    requires
        profile.get("id"@) == Some(JsonV::Str(user)),
        user.len() > 0,
        is_trim(user),
    ensures
        ({
            let record = auth::pat_record(pat, region, tokens, profile, machine, now_ms);
            &&& record.get("mode"@) == Some(JsonV::Str(region.spec_id()))
            &&& record.get("accessToken"@) == Some(JsonV::Str(tokens.token))
            &&& record.get("userId"@) == Some(JsonV::Str(user))
            &&& record.get("machineId"@) == Some(JsonV::Str(machine))
            &&& tokens.expires_at matches Some(t) ==> record.get("expiresAt"@) == Some(
                JsonV::Int(t),
            )
            &&& tokens.expires_at is None ==> record.get("expiresAt"@) == Some(
                JsonV::Int(now_ms + auth::PAT_TOKEN_MS),
            )
            &&& record.get("refreshToken"@) == Some(
                JsonV::Str(auth::pat_refresh(pat, tokens.refresh_token, user, machine)),
            )
        }),
{
    lemma_words();
    assert(seq!["id"][0]@ == "id"@);
    assert(entry_text(JsonV::Str(user)) == Some(user));
}

/// A login on a device ends with the token that the service answers with, for the
/// region and the machine that it was begun for.
pub proof fn device_logins_give_the_token(
    login: LoginV,
    data: JsonV,
    token: Seq<char>,
    now_ms: int,
    longest: int,
)
    requires
        data.get("token"@) == Some(JsonV::Str(token)),
        is_token(token, longest),
        longest >= 0,
    ensures
        oauth::device_credentials(login, data, now_ms, longest) matches Ok(own) ==> {
            &&& own.access_token == token
            &&& own.region == login.region
        },
{
    lemma_words();
    assert(seq!["token"][0]@ == "token"@);
    lemma_first_secret(data, seq!["token"], token, longest);
    let renewal = secret_of(data, seq!["refresh_token"], longest);
    if renewal is Ok {
        let record = oauth::device_record(login, token, renewal->Ok_0, data, now_ms);
        endpoints::region_names_round_trip(login.region);
        assert(record.get("mode"@) == Some(JsonV::Str(login.region.spec_id())));
        assert(record.get("accessToken"@) == Some(JsonV::Str(token)));
        lemma_first_secret(
            record,
            seq!["accessToken", "access", "token", "access_token"],
            token,
            longest,
        );
    }
}

/// A login that the user has not finished is asked for again.
pub proof fn open_device_logins_go_on(
    login: LoginV,
    response: ResponseV,
    now_ms: int,
    longest: int,
)
    ensures
        response.status == 202 || response.status == 404 ==> oauth::polled(
            login,
            response,
            now_ms,
            longest,
        ) == Ok::<oauth::PollV, ErrorV>(oauth::PollV::Pending),
        response.status != 202 && response.status != 404 && !response.ok ==> (oauth::polled(
            login,
            response,
            now_ms,
            longest,
        ) matches Err(e) && e.status == response.status),
{
}

/// A renewal takes over the token that the service answers with and until when it
/// runs; where the service does not say, for a month.
pub proof fn renewals_take_over_the_answer(
    known: CredentialsV,
    data: JsonV,
    token: Seq<char>,
    now_ms: int,
    longest: int,
    n: int,
)
    requires
        data.get("token"@) == Some(JsonV::Str(token)),
        is_token(token, longest),
        100_000_000_000 <= n <= i64::MAX,
    ensures
        refresh::renewed(known, data, now_ms, longest) matches Ok(next) ==> {
            &&& next.access_token == token
            &&& data.get("expires_at"@) == Some(JsonV::Int(n)) ==> next.expires_at == Some(n)
            &&& data.get("expires_at"@) is None ==> next.expires_at == Some(
                now_ms + refresh::RENEWED_TOKEN_MS,
            )
            &&& next.user_id == known.user_id && next.machine_id == known.machine_id
            &&& next.region == known.region && next.email == known.email
            &&& next.name == known.name
        },
{
    lemma_words();
    assert(seq!["token"][0]@ == "token"@);
    lemma_first_secret(data, seq!["token"], token, longest);
}

/// Requests for an account bear its token, and those without an account none.
pub proof fn requests_bear_the_token(token: Seq<char>)
    ensures
        endpoints::api_headers(Some(token)).contains(("Authorization"@, "Bearer "@ + token)),
        endpoints::api_headers(Some(token)).drop_last() == endpoints::api_headers(None),
{
    let headers = endpoints::api_headers(Some(token));
    assert(headers[3] == ("Authorization"@, "Bearer "@ + token));
    assert(headers.drop_last() =~= endpoints::api_headers(None));
}

/// The other region is another one, and the other of that is the first.
pub proof fn regions_come_in_pairs(region: Region)
    ensures
        region.other() != region,
        region.other().other() == region,
        region.spec_id() != region.other().spec_id(),
        Region::named(Seq::empty()) == Some(Region::Global),
{
    lemma_words();
    text::lemma_trimmed(Seq::empty());
}

/// What an error means: a login that is not let in, a limit of the account, content
/// that was refused, or anything else as it is; its message holds the words of the
/// upstream.
pub proof fn errors_are_told_apart(
    status: u16,
    body: JsonV,
    refused: Option<Seq<char>>,
    s: Seq<char>,
    code: i64,
)
    requires
        s.len() > 0,
        body.get("message"@) == Some(JsonV::Str(s)),
        body.get("code"@) == Some(JsonV::Int(code as int)),
    ensures
        ({
            let class = QoderAdapter::class_of(status, body, refused);
            let kind = protocol::classified(status as int, s).kind;
            &&& kind == UpstreamKind::Auth ==> (class matches ClassV::TokenExpired { message }
                && text::has_part(message, s))
            &&& kind == UpstreamKind::Quota || kind == UpstreamKind::Rate ==> (
            class matches ClassV::QuotaLimited { message, upstream_code, status: told, .. }
                && upstream_code == Some(code) && text::has_part(message, s) && (status != 0 ==> told
                == status))
            &&& (kind == UpstreamKind::Server || kind == UpstreamKind::Unknown) && refused is None
                ==> (class matches ClassV::Fatal { status: told, message, upstream_code } && told
                == status && upstream_code == Some(code) && text::has_part(message, s))
            &&& (kind == UpstreamKind::Server || kind == UpstreamKind::Unknown) && refused is Some
                ==> (class matches ClassV::ContentBlocked { status: told, message, upstream_code }
                && told == status && upstream_code == Some(code) && text::has_part(message, s)
                && text::has_part(message, refused.unwrap()))
        }),
{
    lemma_words();
    assert(crate::providers::adapter::code_at(body, "code"@) == Some(code));
    lemma_returned(
        status,
        s,
        match refused {
            Some(hint) => hint,
            None => Seq::empty(),
        },
    );
}

/// Of the files that may name the machine the first with a usable name counts.
pub proof fn the_first_machine_counts(contents: Seq<Option<Seq<char>>>, own: Option<Seq<char>>)
    ensures
        machine::machine_id_in(own) is Some
            ==> machine::first_id(seq![own] + contents)
            == machine::machine_id_in(own),
        machine::machine_id_in(own) is None
            ==> machine::first_id(seq![own] + contents)
            == machine::first_id(contents),
        machine::first_id(Seq::empty()) is None,
{
    assert((seq![own] + contents).skip(1) =~= contents);
}

/// An account that is not stored cannot be used.
pub proof fn accounts_must_be_stored(machine: Seq<char>, longest: int)
    ensures
        refresh::stored_credentials(None, machine, longest) matches Err(e)
            && e.status == 404,
{
}

/// A profile is asked for at the account's region, with its token.
pub proof fn profiles_are_asked_for(
    token: Seq<char>,
    region: Region,
)
    ensures
        ({
            let request = auth::profile_call(token, region);
            &&& request.headers == endpoints::api_headers(Some(token))
            &&& region.spec_open_api().is_prefix_of(request.url)
            &&& request.method == "GET"@ && request.body is None
        }),
{
    let url = auth::profile_call(token, region).url;
    let home = region.spec_open_api();
    assert(url.subrange(0, home.len() as int) =~= home);
}

/// A personal token is taken as it was entered, but for one that is empty or that is
/// packed with others.
pub proof fn entered_tokens_are_taken(pat: Seq<char>, longest: int, token: Seq<char>)
    requires
        secret_of(auth::pat_entry(pat), seq!["pat"], longest) == Ok::<Seq<char>, ErrorV>(token),
    ensures
        token.len() > 0 && !token.contains('|') ==> auth::entered_pat(pat, longest) == Ok::<
            Seq<char>,
            ErrorV,
        >(token),
        token.len() == 0 || token.contains('|') ==> (auth::entered_pat(pat, longest) matches Err(e)
            && e.status == 400),
        auth::pat_entry(pat).get("pat"@) == Some(JsonV::Str(pat)),
{
}

/// A login with a personal token is exchanged, one whose user is not known yet is asked
/// for its profile, and one that is whole is kept; a desktop login is refused.
pub proof fn logins_are_prepared(
    payload: JsonV,
    longest: int,
    region: Region,
    token: Seq<char>,
    known: CredentialsV,
)
    requires
        Region::in_payload(payload) == Ok::<Region, ErrorV>(region),
        secret_of(payload, seq!["pat", "personalAccessToken", "personal_token"], longest) == Ok::<
            Seq<char>,
            ErrorV,
        >(token),
    ensures
        payload.get("importDesktop"@) == Some(JsonV::Bool(true)) ==> (auth::preparation(
            payload,
            longest,
        ) matches Err(e) && e.status == 400),
        payload.get("importDesktop"@) is None && token.len() > 0 ==> auth::preparation(
            payload,
            longest,
        ) == Ok::<auth::PreparationV, ErrorV>(
            auth::PreparationV::ExchangePat { pat: token, region },
        ),
        payload.get("importDesktop"@) is None && token.len() == 0 && credentials_in(
            payload,
            longest,
        ) == Ok::<CredentialsV, ErrorV>(known) ==> auth::preparation(payload, longest) == Ok::<
            auth::PreparationV,
            ErrorV,
        >(
            if known.user_id.len() > 0 {
                auth::PreparationV::Complete(known)
            } else {
                auth::PreparationV::FetchProfile { credentials: known, region }
            },
        ),
{
}

} // verus!
