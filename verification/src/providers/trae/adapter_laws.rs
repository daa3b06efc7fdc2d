//! What a request to Trae carries, and what its errors mean.
use super::adapter::TraeAdapter;
use crate::errors::ErrorV;
use crate::json::JsonV;
use crate::providers::adapter::{lemma_returned, ClassV};
use crate::text;
use vstd::prelude::*;
use vstd::string::*;

verus! {

/// The words tell one another apart.
proof fn lemma_words()
    ensures
        "msg"@.len() == 3,
        "uid"@.len() == 3,
        "msg"@[0] == 'm',
        "uid"@[0] == 'u',
        "auth"@.len() == 4,
        "code"@.len() == 4,
        "auth"@[0] == 'a',
        "code"@[0] == 'c',
        "model"@.len() == 5,
        "account"@.len() == 7,
        "message"@.len() == 7,
        "account"@[0] == 'a',
        "message"@[0] == 'm',
        "deviceId"@.len() == 8,
        "machineId"@.len() == 9,
        "accessToken"@.len() == 11,
{
    reveal_strlit("msg");
    reveal_strlit("uid");
    reveal_strlit("auth");
    reveal_strlit("code");
    reveal_strlit("model");
    reveal_strlit("account");
    reveal_strlit("message");
    reveal_strlit("deviceId");
    reveal_strlit("machineId");
    reveal_strlit("accessToken");
}

/// A request is sent for the account: with its token, its user and its machine.
/// Without a token it is not sent.
pub proof fn senders_are_the_account(account: JsonV, token: Seq<char>, s: Seq<char>)
    ensures
        account.at("auth"@, "accessToken"@) == Some(JsonV::Str(token)) && token.len() > 0 ==> {
            &&& TraeAdapter::sender_in(account) matches Ok(sender)
            &&& sender.token == token
            &&& account.at("account"@, "uid"@) == Some(JsonV::Str(s)) ==> sender.user_id == s
            &&& account.at("auth"@, "machineId"@) == Some(JsonV::Str(s)) ==> sender.machine_id == s
            &&& account.at("auth"@, "deviceId"@) == Some(JsonV::Str(s)) ==> sender.device_id == s
        },
        account.at("auth"@, "accessToken"@) is None ==> (TraeAdapter::sender_in(account) matches Err(
            e,
        ) && e.status == 401),
{
    lemma_words();
}

/// A request carries what was prepared for it, with its headers, to the host.
pub proof fn requests_carry_what_was_prepared(
    account: JsonV,
    host: Seq<char>,
    body: JsonV,
    headers: Seq<(Seq<char>, Seq<char>)>,
    error: ErrorV,
    token: Seq<char>,
)
    requires
        account.at("auth"@, "accessToken"@) == Some(JsonV::Str(token)),
        token.len() > 0,
    ensures
        ({
            &&& TraeAdapter::plan(account, host, Ok(body), headers) matches Ok(plan)
            &&& plan.body == body && plan.headers == headers
            &&& host.is_prefix_of(plan.url)
        }),
        TraeAdapter::plan(account, host, Err(error), headers) == Err::<crate::providers::adapter::PlanV, ErrorV>(
            error,
        ),
{
    lemma_words();
    let plan = TraeAdapter::plan(account, host, Ok(body), headers)->Ok_0;
    assert(plan.url.subrange(0, host.len() as int) =~= host);
}

/// The model is the one that is asked for, and the usual one where none is.
pub proof fn models_are_asked_for(body: JsonV, default: Seq<char>, s: Seq<char>)
    ensures
        body.get("model"@) == Some(JsonV::Str(s)) && text::trimmed(s).len() > 0
            ==> TraeAdapter::model_in(body, default) == text::trimmed(s),
        body.get("model"@) is None ==> TraeAdapter::model_in(body, default) == default,
{
}

/// What an error means: a login that ran out by its status or its code, a spent
/// quota, or anything else as it is; its message holds the words of the upstream.
pub proof fn errors_are_told_apart(status: u16, body: JsonV, s: Seq<char>, code: i64)
    requires
        s.len() > 0,
        body.get("message"@) == Some(JsonV::Str(s)),
        body.get("code"@) == Some(JsonV::Int(code as int)),
    ensures
        ({
            let class = TraeAdapter::class_of(status, body);
            let ended = status == 401 || code == 1001;
            let spent = status == 429 || code == 4008 || code == 4010;
            &&& ended ==> (class matches ClassV::TokenExpired { message } && text::has_part(
                message,
                s,
            ))
            &&& !ended && spent ==> (class matches ClassV::QuotaLimited {
                message,
                upstream_code,
                status: told,
                ..
            } && upstream_code == Some(code) && text::has_part(message, s) && (status != 0 ==> told
                == status))
            &&& !ended && !spent ==> (class matches ClassV::Fatal {
                status: told,
                message,
                upstream_code,
            } && told == status && upstream_code == Some(code) && text::has_part(message, s)
                && text::has_part(message, text::decimal(status as nat)))
        }),
{
    lemma_words();
    lemma_returned(status, s, Seq::empty());
}

} // verus!
