//! What ZCode's logins, requests and models come to.
use super::adapter;
use super::credentials;
use super::credentials::CredentialsV;
use super::models;
use super::oauth;
use super::oauth::{handed_out, landed, opened, polled, LoginV};
use super::region;
use super::region::Region;
use crate::errors::ErrorV;
use crate::http::ResponseV;
use crate::json;
use crate::json::JsonV;
use crate::number;
use crate::providers::adapter::{lemma_returned, ClassV};
use crate::text;
use vstd::prelude::*;
use vstd::string::*;

verus! {

/// The words tell one another apart.
proof fn lemma_words()
    ensures
        "id"@.len() == 2,
        "msg"@.len() == 3,
        "zai"@.len() == 3,
        "msg"@[0] == 'm',
        "zai"@[0] == 'z',
        "auth"@.len() == 4,
        "code"@.len() == 4,
        "data"@.len() == 4,
        "name"@.len() == 4,
        "user"@.len() == 4,
        "auth"@[0] == 'a',
        "code"@[0] == 'c',
        "data"@[0] == 'd',
        "name"@[0] == 'n',
        "user"@[0] == 'u',
        "ready"@.len() == 5,
        "token"@.len() == 5,
        "ready"@[0] == 'r',
        "token"@[0] == 't',
        "failed"@.len() == 6,
        "status"@.len() == 6,
        "failed"@[0] == 'f',
        "status"@[0] == 's',
        "flow_id"@.len() == 7,
        "message"@.len() == 7,
        "user_id"@.len() == 7,
        "flow_id"@[0] == 'f',
        "message"@[0] == 'm',
        "user_id"@[0] == 'u',
        "bigmodel"@.len() == 8,
        "expires_at"@.len() == 10,
        "accessToken"@.len() == 11,
        "access_token"@.len() == 12,
        "authorize_url"@.len() == 13,
        "maxInputTokens"@.len() == 14,
        "supportsImages"@.len() == 14,
        "maxInputTokens"@[0] == 'm',
        "supportsImages"@[0] == 's',
        "maxOutputTokens"@.len() == 15,
        "supportsToolCall"@.len() == 16,
        "poll_interval_sec"@.len() == 17,
        "supportsReasoning"@.len() == 17,
        "poll_interval_sec"@[0] == 'p',
        "supportsReasoning"@[0] == 's',
{
    reveal_strlit("id");
    reveal_strlit("msg");
    reveal_strlit("zai");
    reveal_strlit("auth");
    reveal_strlit("code");
    reveal_strlit("data");
    reveal_strlit("name");
    reveal_strlit("user");
    reveal_strlit("ready");
    reveal_strlit("token");
    reveal_strlit("failed");
    reveal_strlit("status");
    reveal_strlit("flow_id");
    reveal_strlit("message");
    reveal_strlit("user_id");
    reveal_strlit("bigmodel");
    reveal_strlit("expires_at");
    reveal_strlit("accessToken");
    reveal_strlit("access_token");
    reveal_strlit("authorize_url");
    reveal_strlit("maxInputTokens");
    reveal_strlit("supportsImages");
    reveal_strlit("maxOutputTokens");
    reveal_strlit("supportsToolCall");
    reveal_strlit("poll_interval_sec");
    reveal_strlit("supportsReasoning");
}

/// Every model is offered under its id with its name, takes as much as its context
/// holds, gives no more than it takes, and sees or thinks as it can.
pub proof fn offers_keep_to_the_table(i: int)
    requires
        0 <= i < models::table().len(),
    ensures
        ({
            let (entry, known) = (models::listing()[i], models::table()[i]);
            &&& models::listing().len() == models::table().len()
            &&& entry.get("id"@) == Some(JsonV::Str(known.id))
            &&& entry.get("name"@) == Some(JsonV::Str(known.name))
            &&& entry.get("maxInputTokens"@) == Some(JsonV::Int(known.context))
            &&& entry.get("maxOutputTokens"@) == Some(JsonV::Int(known.max_output))
            &&& 0 < known.max_output < known.context
            &&& entry.get("supportsImages"@) == Some(JsonV::Bool(known.vision))
            &&& entry.get("supportsReasoning"@) == Some(JsonV::Bool(known.reasoning))
            &&& known.vision != known.reasoning
            &&& entry.get("supportsToolCall"@) == Some(JsonV::Bool(true))
        }),
{
    lemma_words();
    assert(i == 0 || i == 1 || i == 2 || i == 3 || i == 4 || i == 5 || i == 6 || i == 7 || i == 8
        || i == 9 || i == 10);
}

/// A request for an answer goes to the address of the region with the token of the
/// account, and says just what the client said; without a token none is sent.
pub proof fn requests_say_what_the_client_said(
    base: Seq<char>,
    account: JsonV,
    body: JsonV,
    token: Seq<char>,
)
    requires
        account.at("auth"@, "accessToken"@) == Some(JsonV::Str(token)),
    ensures
        text::trimmed(token).len() > 0 ==> {
            &&& adapter::plan_for(base, account, body) matches Ok(plan)
            &&& plan.body == body
            &&& plan.url == base + "/chat/completions"@
            &&& plan.headers.contains(("Authorization"@, "Bearer "@ + text::trimmed(token)))
            &&& plan.headers.contains(("Content-Type"@, "application/json"@))
        },
        text::trimmed(token).len() == 0 ==> (adapter::plan_for(base, account, body) matches Err(e)
            && e.status == 401),
        text::trimmed(token).len() > 0 ==> adapter::session_token(Some(account)) == Ok::<_, ErrorV>(
            text::trimmed(token),
        ),
        text::trimmed(token).len() == 0 ==> (adapter::session_token(Some(account)) matches Err(e)
            && e.status == 401),
{
    lemma_words();
    if text::trimmed(token).len() > 0 {
        let plan = adapter::plan_for(base, account, body)->Ok_0;
        assert(plan.headers[0] == ("Content-Type"@, "application/json"@));
        assert(plan.headers[2] == ("Authorization"@, "Bearer "@ + text::trimmed(token)));
    }
}

/// An address that is set takes the place of the region's own, without blanks
/// around it and slashes at its end.
pub proof fn addresses_can_be_set(own: adapter::ZcodeAdapter, s: Seq<char>)
    ensures
        own.base(None) == own.spec_region().spec_openai_base_url(),
        s.len() > 0 && s.last() != '/' && text::trimmed(s) == s ==> own.base(Some(s)) == s,
        region::override_in(Some(Seq::empty())) is None,
{
    text::lemma_trimmed(Seq::empty());
}

/// What an error means: a login that ran out, too many requests, content that was
/// refused, or anything else as it is; its message holds the status and the words
/// of the upstream.
pub proof fn errors_are_told_apart(
    status: u16,
    body: JsonV,
    refused: Option<Seq<char>>,
    s: Seq<char>,
    code: i64,
)
    requires
        s.len() > 0,
        body.get("message"@) == Some(JsonV::Str(s)),
    ensures
        ({
            let class = adapter::class_of(status, body, refused);
            let coded = body.get("code"@) == Some(JsonV::Int(code as int));
            &&& status == 401 ==> (class matches ClassV::TokenExpired { message } && text::has_part(
                message,
                s,
            ))
            &&& status == 429 ==> (class matches ClassV::QuotaLimited {
                message,
                status: same,
                ..
            } && same == status && text::has_part(message, s))
            &&& status != 401 && status != 429 && refused is None && coded ==> (
            class matches ClassV::Fatal { status: same, message, upstream_code } && same == status
                && upstream_code == Some(code) && text::has_part(message, s) && text::has_part(
                message,
                text::decimal(status as nat),
            ))
            &&& status != 401 && status != 429 && refused is Some && coded ==> (
            class matches ClassV::ContentBlocked { status: same, message, upstream_code } && same
                == status && upstream_code == Some(code) && text::has_part(message, s)
                && text::has_part(message, refused.unwrap()))
        }),
{
    lemma_words();
    lemma_returned(
        status,
        s,
        match refused {
            Some(hint) => hint,
            None => Seq::empty(),
        },
    );
}

/// A login is opened with what the service answers: the flow to ask for, the page
/// to log in on, when it ends and how often to ask.
pub proof fn logins_are_opened(
    region: Region,
    token: Seq<char>,
    payload: JsonV,
    data: JsonV,
    version: Seq<char>,
    device_mid: Option<Seq<char>>,
    flow: Seq<char>,
    address: Seq<char>,
    n: int,
)
    requires
        payload.get("code"@) is None || payload.get("code"@) == Some(JsonV::Int(0)),
        payload.get("data"@) == Some(data),
        data.get("flow_id"@) == Some(JsonV::Str(flow)),
        data.get("authorize_url"@) == Some(JsonV::Str(address)),
        text::trimmed(flow).len() > 0,
        text::trimmed(address).len() > 0,
        0 < n <= i64::MAX,
    ensures
        ({
            &&& opened(region, token, Some(payload), version, device_mid) matches Ok(login)
            &&& login.region == region
            &&& login.flow_id == text::trimmed(flow)
            &&& login.auth_url == landed(region, text::trimmed(address), version)
            &&& login.poll_token == token
            &&& login.device_mid == device_mid
            &&& data.get("expires_at"@) == Some(JsonV::Int(n)) ==> login.expires_at == n
            &&& data.get("poll_interval_sec"@) == Some(JsonV::Int(n)) ==> login.poll_interval_sec
                == n
            &&& login.poll_interval_sec > 0
        }),
{
    lemma_words();
}

/// An answer without a flow or a page, or with a code other than zero, opens no
/// login.
pub proof fn refused_logins_are_not_opened(
    region: Region,
    token: Seq<char>,
    payload: JsonV,
    version: Seq<char>,
    device_mid: Option<Seq<char>>,
    code: int,
    s: Seq<char>,
)
    requires
        i64::MIN <= code <= i64::MAX,
        code != 0,
        payload.get("code"@) == Some(JsonV::Int(code)),
        payload.get("msg"@) == Some(JsonV::Str(s)),
        text::trimmed(s).len() > 0,
    ensures
        opened(region, token, Some(payload), version, device_mid) matches Err(e) && e.status == 502
            && text::has_part(e.message, text::decimal_int(code)) && text::has_part(
            e.message,
            text::trimmed(s),
        ),
        opened(region, token, None, version, device_mid) is Err,
{
    lemma_words();
    let number = text::decimal_int(code);
    let said = text::trimmed(s);
    let whole = "ZCode 登录失败（"@ + number + "）："@ + said;
    assert(whole =~= "ZCode 登录失败（"@ + number + ("）："@ + said));
    text::lemma_has_part("ZCode 登录失败（"@, number, "）："@ + said);
    text::lemma_has_part("ZCode 登录失败（"@ + number + "）："@, said, Seq::empty());
}

/// A login that is done hands out what the service answers: the token of the
/// region's own provider, the token for plans, and who logged in.
pub proof fn logins_hand_out_the_answer(
    login: LoginV,
    response: ResponseV,
    payload: JsonV,
    data: JsonV,
    token: Seq<char>,
    s: Seq<char>,
)
    requires
        response.status < 400,
        response.payload == Some(payload),
        payload.get("code"@) is None || payload.get("code"@) == Some(JsonV::Int(0)),
        payload.get("data"@) == Some(data),
        data.get("status"@) == Some(JsonV::Str("ready"@)),
        login.region == Region::Cn ==> data.at("bigmodel"@, "access_token"@) == Some(
            JsonV::Str(token),
        ),
        login.region == Region::Intl ==> data.at("zai"@, "access_token"@) == Some(
            JsonV::Str(token),
        ),
        text::trimmed(token).len() > 0,
    ensures
        ({
            &&& polled(login, Some(response)) matches Ok(Some(own))
            &&& own.access_token == text::trimmed(token)
            &&& own.region == login.region
            &&& data.get("token"@) == Some(JsonV::Str(s)) ==> own.jwt == text::trimmed(s)
            &&& data.at("user"@, "user_id"@) == Some(JsonV::Str(s)) ==> own.user_id
                == text::trimmed(s)
            &&& login.device_mid is None ==> own.device_mid == Seq::<char>::empty()
        }),
{
    lemma_words();
    assert(handed_out(login, data) is Ok);
}

/// A login that is neither done nor refused goes on.
pub proof fn open_logins_go_on(login: LoginV, response: ResponseV, payload: JsonV, data: JsonV)
    requires
        response.status < 400,
        response.payload == Some(payload),
        payload.get("code"@) is None,
        payload.get("data"@) == Some(data),
    ensures
        data.get("status"@) == Some(JsonV::Str("failed"@)) ==> (polled(
            login,
            Some(response),
        ) matches Err(e) && e.status == 401),
        data.get("status"@) != Some(JsonV::Str("failed"@)) && data.get("status"@) != Some(
            JsonV::Str("ready"@),
        ) ==> polled(login, Some(response)) == Ok::<Option<CredentialsV>, ErrorV>(None),
{
    lemma_words();
}

/// The page to log in on stays the one that the service gave: its path comes first
/// and its end comes last.
pub proof fn landing_keeps_the_page(region: Region, address: Seq<char>, version: Seq<char>)
    ensures
        oauth::path_of(address).is_prefix_of(landed(region, address, version)),
        oauth::fragment_of(address).is_suffix_of(landed(region, address, version)),
        oauth::path_of(address).is_prefix_of(address),
        oauth::fragment_of(address).is_suffix_of(address),
{
    let whole = landed(region, address, version);
    let (path, end) = (oauth::path_of(address), oauth::fragment_of(address));
    text::lemma_place_of(address, '#');
    let head = text::before_char(address, '#');
    text::lemma_place_of(head, '?');
    assert(path =~= address.subrange(0, path.len() as int));
    assert(end =~= address.subrange(address.len() - end.len(), address.len() as int));
    assert(whole.subrange(0, path.len() as int) =~= path);
    assert(whole.subrange(whole.len() - end.len(), whole.len() as int) =~= end);
}

/// An account is shown with its region and its user, and known by its user.
pub proof fn accounts_show_their_user(own: CredentialsV)
    ensures
        text::has_part(own.shown(), own.region.spec_label()),
        text::trimmed(own.user_id).len() > 0 ==> {
            &&& text::trimmed(own.user_id).is_suffix_of(own.shown())
            &&& text::trimmed(own.user_id).is_suffix_of(own.id())
        },
        own.region.spec_account_id_prefix().is_prefix_of(own.id()),
{
    let user = text::trimmed(own.user_id);
    let label = own.region.spec_label();
    text::lemma_has_part("ZCode "@, label, Seq::empty());
    assert("ZCode "@ + label + Seq::<char>::empty() =~= "ZCode "@ + label);
    if user.len() > 0 {
        let shown = own.shown();
        assert(shown =~= "ZCode "@ + label + (" · "@ + user));
        text::lemma_has_part("ZCode "@, label, " · "@ + user);
        assert(shown.subrange(shown.len() - user.len(), shown.len() as int) =~= user);
        assert(own.id().subrange(own.id().len() - user.len(), own.id().len() as int) =~= user);
    }
    let prefix = own.region.spec_account_id_prefix();
    assert(own.id().subrange(0, prefix.len() as int) =~= prefix);
}

/// The two regions share neither an address for answers nor a provider, and both
/// log in with the same service.
pub proof fn regions_are_told_apart()
    ensures
        Region::Cn.spec_openai_base_url() != Region::Intl.spec_openai_base_url(),
        Region::Cn.spec_upstream_provider() != Region::Intl.spec_upstream_provider(),
        Region::Cn.spec_provider_id() != Region::Intl.spec_provider_id(),
        Region::Cn.spec_label() != Region::Intl.spec_label(),
        Region::Cn.spec_env_prefix() != Region::Intl.spec_env_prefix(),
        Region::Cn.spec_zcode_origin() == Region::Intl.spec_zcode_origin(),
{
    lemma_words();
    reveal_strlit("https://open.bigmodel.cn/api/coding/paas/v4");
    reveal_strlit("https://api.z.ai/api/coding/paas/v4");
    assert("https://open.bigmodel.cn/api/coding/paas/v4"@.len()
        != "https://api.z.ai/api/coding/paas/v4"@.len());
    reveal_strlit("zcode");
    reveal_strlit("zcode-intl");
    assert("zcode"@.len() != "zcode-intl"@.len());
    reveal_strlit("国内版");
    reveal_strlit("国际版");
    assert("国内版"@[1] == '内' && "国际版"@[1] == '际');
    reveal_strlit("ZCODE_");
    reveal_strlit("ZCODE_INTL_");
    assert("ZCODE_"@.len() != "ZCODE_INTL_"@.len());
}

/// A token that is made without chance has its full length, and ends with the numbers
/// it is made from where they fit.
pub proof fn made_up_tokens_are_whole(process: nat, now_ms: nat, nanos: nat)
    ensures
        ({
            let made = oauth::fallback_token(process, now_ms, nanos);
            let digits = oauth::hex_number(process)
                + oauth::hex_number(now_ms)
                + oauth::hex_number(nanos);
            &&& made.len() == 64
            &&& digits.len() + oauth::hex_number(now_ms / 8).len() <= 64
                ==> text::has_part(made, digits)
        }),
{
    let a = oauth::hex_number(process)
        + oauth::hex_number(now_ms)
        + oauth::hex_number(nanos);
    let b = oauth::hex_number(now_ms / 8);
    let made = oauth::fallback_token(process, now_ms, nanos);
    let all = a + b;
    if all.len() <= 64 {
        let zeros = Seq::new((64 - all.len()) as nat, |i: int| '0');
        assert(made =~= zeros + a + b);
        text::lemma_has_part(zeros, a, b);
    }
}

/// A token ends at the time that its second part states; a time in seconds is brought to
/// thousandths.
pub proof fn tokens_end_as_they_state(
    token: Seq<char>,
    bytes: Seq<u8>,
    claims: JsonV,
    value: JsonV,
    bits: u64,
)
    requires
        text::parts(text::trimmed(token), '.').len() >= 2,
        credentials::payload_bytes(text::parts(text::trimmed(token), '.')[1]) == Some(bytes),
        json::parsed_json_bytes(bytes) == Some(claims),
        claims.get("exp"@) == Some(value),
        json::number_bits(value) == Some(bits),
    ensures
        credentials::token_end(token) matches Some(end) && end.bits == if number::ceil_of(bits)
            > 1_000_000_000_000 {
            bits
        } else {
            number::thousandfold(bits)
        },
{
}

} // verus!
