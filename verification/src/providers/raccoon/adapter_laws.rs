//! What a request to Raccoon carries, and what its errors mean.
use super::adapter;
use super::adapter::RaccoonAdapter;
use super::balance;
use crate::json::JsonV;
use crate::providers::adapter::{lemma_returned, ClassV};
use crate::text;
use vstd::prelude::*;
use vstd::string::*;

verus! {

/// The words tell one another apart.
proof fn lemma_words()
    ensures
        "auth"@.len() == 4,
        "code"@.len() == 4,
        "auth"@[0] == 'a',
        "code"@[0] == 'c',
        "message"@.len() == 7,
        "accessToken"@.len() == 11,
{
    reveal_strlit("auth");
    reveal_strlit("code");
    reveal_strlit("message");
    reveal_strlit("accessToken");
}

/// A request for an answer goes to the service with the token of the account, and
/// says just what the client said; without a token none is sent.
pub proof fn requests_say_what_the_client_said(
    account: JsonV,
    body: JsonV,
    base: Seq<char>,
    token: Seq<char>,
)
    ensures
        account.at("auth"@, "accessToken"@) == Some(JsonV::Str(token)) && token.len() > 0 ==> {
            &&& RaccoonAdapter::plan(account, body, base) matches Ok(plan)
            &&& plan.body == body
            &&& plan.url == base + "/chat/completions"@
            &&& plan.headers.contains(("Authorization"@, "Bearer "@ + token))
            &&& plan.headers.contains(("Content-Type"@, "application/json"@))
        },
        account.at("auth"@, "accessToken"@) is None ==> (RaccoonAdapter::plan(
            account,
            body,
            base,
        ) matches Err(e) && e.status == 401),
{
    lemma_words();
    if account.at("auth"@, "accessToken"@) == Some(JsonV::Str(token)) && token.len() > 0 {
        let plan = RaccoonAdapter::plan(account, body, base)->Ok_0;
        assert(plan.headers[0] == ("Content-Type"@, "application/json"@));
        assert(plan.headers[2] == ("Authorization"@, "Bearer "@ + token));
    }
}

/// What an error means: a login that ran out, too many requests, content that was
/// refused, or anything else as it is; its message holds the status and the words
/// of the upstream.
pub proof fn errors_are_told_apart(
    status: u16,
    body: JsonV,
    refused: Option<Seq<char>>,
    s: Seq<char>,
    code: i64,
)
    requires
        s.len() > 0,
        body.get("message"@) == Some(JsonV::Str(s)),
        body.get("code"@) == Some(JsonV::Int(code as int)),
    ensures
        ({
            let class = RaccoonAdapter::class_of(status, body, refused);
            &&& status == 401 ==> (class matches ClassV::TokenExpired { message } && text::has_part(
                message,
                s,
            ))
            &&& status == 429 ==> (class matches ClassV::QuotaLimited {
                message,
                status: told,
                ..
            } && told == status && text::has_part(message, s))
            &&& status != 401 && status != 429 && refused is None ==> (class matches ClassV::Fatal {
                status: told,
                message,
                upstream_code,
            } && told == status && upstream_code == Some(code) && text::has_part(message, s)
                && text::has_part(message, text::decimal(status as nat)))
            &&& status != 401 && status != 429 && refused is Some ==> (
            class matches ClassV::ContentBlocked { status: told, message, upstream_code } && told
                == status && upstream_code == Some(code) && text::has_part(message, s)
                && text::has_part(message, refused.unwrap()))
        }),
{
    lemma_words();
    assert(crate::providers::adapter::code_at(body, "code"@) == Some(code));
    lemma_returned(
        status,
        s,
        match refused {
            Some(hint) => hint,
            None => Seq::empty(),
        },
    );
}

/// An address that is set takes the place of the usual one, without blanks around
/// it and slashes at its end.
pub proof fn addresses_can_be_set(s: Seq<char>, otherwise: Seq<char>)
    ensures
        adapter::base_or(None, otherwise) == otherwise,
        s.len() > 0 && text::trimmed(s) == s && s.last() != '/' ==> {
            &&& adapter::base_or(Some(s), otherwise) == s
            &&& balance::configured_or(Some(s), otherwise) == s
        },
        balance::configured_or(None, otherwise) == otherwise,
{
}

} // verus!
