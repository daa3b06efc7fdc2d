//! What a request to WorkBuddy carries, what its errors mean and which token is
//! used.
use super::adapter;
use super::adapter::ClassV;
use super::workbuddy;
use super::workbuddy::{
    default_token, endpoint_in, Edition, TokenV, WorkBuddyAdapter, DEFAULT_SYSTEM_PROMPT,
    QUOTA_LIMIT_CODE, RATE_LIMIT_CODE,
};
use crate::errors::ErrorV;
use crate::json::JsonV;
use crate::text;
use vstd::prelude::*;
use vstd::string::*;

verus! {

/// The words tell one another apart.
proof fn lemma_words()
    ensures
        "msg"@.len() == 3,
        "auth"@.len() == 4,
        "code"@.len() == 4,
        "role"@.len() == 4,
        "auth"@[0] == 'a',
        "code"@[0] == 'c',
        "role"@[0] == 'r',
        "error"@.len() == 5,
        "system"@.len() == 6,
        "content"@.len() == 7,
        "message"@.len() == 7,
        "content"@[0] == 'c',
        "message"@[0] == 'm',
        "endpoint"@.len() == 8,
        "messages"@.len() == 8,
        "endpoint"@[0] == 'e',
        "messages"@[0] == 'm',
        "accessToken"@.len() == 11,
        "refreshToken"@.len() == 12,
{
    reveal_strlit("msg");
    reveal_strlit("auth");
    reveal_strlit("code");
    reveal_strlit("role");
    reveal_strlit("error");
    reveal_strlit("system");
    reveal_strlit("content");
    reveal_strlit("message");
    reveal_strlit("endpoint");
    reveal_strlit("messages");
    reveal_strlit("accessToken");
    reveal_strlit("refreshToken");
}

/// A conversation without a system prompt in front gets the usual one there; all
/// that was said follows it as it was, and all else of the request stays. Any
/// other request goes out as it is.
pub proof fn conversations_are_led(
    body: JsonV,
    messages: Seq<JsonV>,
    key: Seq<char>,
    endpoint: Seq<char>,
    edition: Edition,
    id: Seq<char>,
    account: Seq<(Seq<char>, Seq<char>)>,
)
    requires
        body.get("messages"@) == Some(JsonV::Arr(messages)),
        key != "messages"@,
    ensures
        ({
            let sent = WorkBuddyAdapter::plan(body, endpoint, edition, id, account).body;
            let led = messages.len() > 0 && messages[0].get("role"@) == Some(
                JsonV::Str("system"@),
            );
            &&& sent.get(key) == body.get(key)
            &&& led || messages.len() == 0 ==> sent == body
            &&& messages.len() > 0 && !workbuddy::begins_with_system(messages) ==> {
                &&& sent.get("messages"@) matches Some(JsonV::Arr(all))
                &&& all.len() == messages.len() + 1
                &&& all.skip(1) == messages
                &&& all[0].get("role"@) == Some(JsonV::Str("system"@))
                &&& all[0].get("content"@) == Some(JsonV::Str(DEFAULT_SYSTEM_PROMPT@))
            }
        }),
{
    lemma_words();
    if messages.len() > 0 && messages[0].get("role"@) == Some(JsonV::Str("system"@)) {
        reveal(text::lowercase);
        assert(text::ascii_lowercase("system"@) =~= "system"@) by {
            reveal_strlit("system");
        }
        lemma_system_is_plain();
    }
    assert((seq![workbuddy::default_system()] + messages).skip(1) =~= messages);
}

proof fn lemma_system_is_plain()
    ensures
        text::lowercase("system"@) == "system"@,
{
    reveal(text::lowercase);
    reveal_strlit("system");
    assert(vstd::utf8::is_ascii_chars("system"@));
    assert(text::ascii_lowercase("system"@) =~= "system"@);
}

/// A request goes to the endpoint with the headers of the account, says which
/// client it is from, and bears its id.
pub proof fn requests_bear_the_account(
    body: JsonV,
    endpoint: Seq<char>,
    edition: Edition,
    id: Seq<char>,
    account: Seq<(Seq<char>, Seq<char>)>,
    i: int,
)
    ensures
        ({
            let plan = WorkBuddyAdapter::plan(body, endpoint, edition, id, account);
            &&& plan.url == endpoint + "/v2/chat/completions"@
            &&& 0 <= i < account.len() ==> plan.headers.contains(account[i])
            &&& plan.headers.contains(("X-Request-ID"@, id))
            &&& plan.headers.contains(("X-Conversation-ID"@, id))
            &&& plan.headers.contains(("X-Session-ID"@, id))
            &&& plan.headers.contains(("User-Agent"@, edition.user_agent@))
            &&& plan.headers.contains(("X-IDE-Type"@, edition.ua_platform@))
            &&& plan.headers.contains(("X-IDE-Name"@, edition.product_name@))
            &&& plan.headers.contains(("X-IDE-Version"@, edition.client_version@))
            &&& plan.headers.contains(("Accept"@, "text/event-stream"@))
            &&& plan.headers.contains(("Content-Type"@, "application/json"@))
        }),
{
    let plan = WorkBuddyAdapter::plan(body, endpoint, edition, id, account);
    let own = workbuddy::client_headers(edition, id);
    assert(own.len() == 11);
    assert(plan.headers.len() == 11 + account.len() + 1);
    if 0 <= i < account.len() {
        assert(plan.headers[11 + i] == account[i]);
    }
    assert(plan.headers[0] == ("Content-Type"@, "application/json"@));
    assert(plan.headers[1] == ("User-Agent"@, edition.user_agent@));
    assert(plan.headers[2] == ("X-IDE-Type"@, edition.ua_platform@));
    assert(plan.headers[3] == ("X-IDE-Name"@, edition.product_name@));
    assert(plan.headers[4] == ("X-IDE-Version"@, edition.client_version@));
    assert(plan.headers[7] == ("X-Request-ID"@, id));
    assert(plan.headers[9] == ("X-Conversation-ID"@, id));
    assert(plan.headers[10] == ("X-Session-ID"@, id));
    assert(plan.headers[plan.headers.len() - 1] == ("Accept"@, "text/event-stream"@));
}

/// The endpoint of an account is used where it has one.
pub proof fn accounts_have_their_endpoint(session: JsonV, otherwise: Seq<char>, s: Seq<char>)
    requires
        s.len() > 0,
    ensures
        session.get("endpoint"@) == Some(JsonV::Str(s)) ==> endpoint_in(session, otherwise) == s,
        session.get("endpoint"@) is None ==> endpoint_in(session, otherwise) == otherwise,
{
}

/// What an error means: a login that ran out, a spent quota with the time of its
/// return, content that was refused, or anything else as it is. Its message holds
/// the status and the words of the upstream.
pub proof fn errors_are_told_apart(
    status: u16,
    body: JsonV,
    reset_at: int,
    refused: Option<Seq<char>>,
    s: Seq<char>,
    code: i64,
)
    requires
        s.len() > 0,
        body.get("message"@) == Some(JsonV::Str(s)),
    ensures
        ({
            let class = WorkBuddyAdapter::class_of(status, body, reset_at, refused);
            let coded = body.get("code"@) == Some(JsonV::Int(code as int));
            &&& status == 401 ==> (class matches ClassV::TokenExpired { message } && text::has_part(
                message,
                s,
            ) && text::has_part(message, text::decimal(status as nat)))
            &&& status == 429 || (status != 401 && coded && code == QUOTA_LIMIT_CODE) ==> (
            class matches ClassV::QuotaLimited { reset_at: told, message, upstream_code, status: same }
                && same == status && (coded ==> upstream_code == Some(code)) && text::has_part(
                message,
                s,
            ) && (0 < reset_at <= i64::MAX ==> told == Some(reset_at as i64)) && (reset_at <= 0
                ==> told is None))
            &&& status != 401 && status != 429 && coded && code == RATE_LIMIT_CODE ==> (
            class matches ClassV::ContentBlocked { status: same, message, upstream_code } && same
                == status && upstream_code == Some(code) && text::has_part(message, s))
            &&& status != 401 && status != 429 && coded && code != QUOTA_LIMIT_CODE && code
                != RATE_LIMIT_CODE && refused is None ==> (class matches ClassV::Fatal {
                status: same,
                message,
                upstream_code,
            } && same == status && upstream_code == Some(code) && text::has_part(message, s))
            &&& status != 401 && status != 429 && coded && code != QUOTA_LIMIT_CODE && code
                != RATE_LIMIT_CODE && refused is Some ==> (class matches ClassV::ContentBlocked {
                status: same,
                message,
                upstream_code,
            } && same == status && upstream_code == Some(code) && text::has_part(message, s)
                && text::has_part(message, refused.unwrap()))
        }),
{
    lemma_words();
    adapter::lemma_returned(status, s, workbuddy::WAF_HINT@);
    if let Some(hint) = refused {
        adapter::lemma_returned(status, s, hint);
    }
}

/// The token that is used where no account is named: the one that is set, else
/// that of the login at hand; without either there is none.
pub proof fn default_tokens_are_found(
    env: Option<Seq<char>>,
    session: Result<Option<JsonV>, ErrorV>,
    s: Seq<char>,
)
    requires
        s.len() > 0,
    ensures
        env == Some(s) && text::trimmed(s).len() > 0 ==> default_token(env, session) == Ok::<
            _,
            ErrorV,
        >(text::trimmed(s)),
        env is None && session is Ok && session->Ok_0 is Some && session->Ok_0.unwrap().at(
            "auth"@,
            "accessToken"@,
        ) == Some(JsonV::Str(s)) ==> default_token(env, session) == Ok::<_, ErrorV>(s),
        env is None && session == Ok::<Option<JsonV>, ErrorV>(None) ==> (default_token(
            env,
            session,
        ) matches Err(e) && e.status == 401),
        env is None && session is Err ==> (default_token(env, session) matches Err(e) && e.status
            == session->Err_0.status && e.message == session->Err_0.message),
{
}

/// The token of an account is its own: renewed first where it runs out and can be,
/// else used as it is; without one the account cannot be used.
pub proof fn account_tokens_are_found(
    account_id: Seq<char>,
    session: JsonV,
    expiring: bool,
    token: Seq<char>,
    renewal: Seq<char>,
)
    requires
        account_id.len() > 0,
        token.len() > 0,
        renewal.len() > 0,
        session.at("auth"@, "accessToken"@) == Some(JsonV::Str(token)),
    ensures
        !expiring ==> WorkBuddyAdapter::token_step(account_id, Some(session), expiring) == Ok::<
            _,
            ErrorV,
        >(TokenV::Use(token)),
        expiring && session.at("auth"@, "refreshToken"@) == Some(JsonV::Str(renewal))
            ==> WorkBuddyAdapter::token_step(account_id, Some(session), expiring) == Ok::<
            _,
            ErrorV,
        >(TokenV::Renew),
        session.at("auth"@, "refreshToken"@) is None ==> WorkBuddyAdapter::token_step(
            account_id,
            Some(session),
            expiring,
        ) == Ok::<_, ErrorV>(TokenV::Use(token)),
        WorkBuddyAdapter::token_step(account_id, None, expiring) matches Err(e) && e.status == 401,
        WorkBuddyAdapter::token_step(Seq::empty(), Some(session), expiring) == Ok::<_, ErrorV>(
            TokenV::Default,
        ),
{
    lemma_words();
}

/// A renewed token is the one that is used; where another renewal is under way the
/// token at hand is, and any other failure is handed on.
pub proof fn renewed_tokens_are_used(
    account_id: Seq<char>,
    token: Seq<char>,
    error: ErrorV,
    session: JsonV,
    held: Seq<char>,
)
    requires
        held.len() > 0,
        session.at("auth"@, "accessToken"@) == Some(JsonV::Str(held)),
    ensures
        WorkBuddyAdapter::renewed(account_id, Ok(token), Some(session)) == Ok::<_, ErrorV>(token),
        error.status == 409 ==> WorkBuddyAdapter::renewed(account_id, Err(error), Some(session))
            == Ok::<_, ErrorV>(held),
        error.status == 409 ==> (WorkBuddyAdapter::renewed(account_id, Err(error), None) matches Err(
            e,
        ) && e.status == 409),
        error.status != 409 ==> (WorkBuddyAdapter::renewed(
            account_id,
            Err(error),
            Some(session),
        ) matches Err(e) && e.status == error.status && e.message == error.message),
{
}

/// The words of an error are the upstream's own, by either name where it has two.
pub proof fn upstreams_speak_for_themselves(body: JsonV, s: Seq<char>)
    requires
        s.len() > 0,
    ensures
        body.get("message"@) == Some(JsonV::Str(s)) ==> adapter::upstream_message(body) == s
            && adapter::spoken_message(body) == s,
        body.get("message"@) is None && body.get("msg"@) == Some(JsonV::Str(s))
            ==> adapter::spoken_message(body) == s,
{
}

} // verus!
