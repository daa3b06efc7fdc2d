//! Logging in to ZCode: the upstream opens a flow, a browser lets the account in,
//! and the gateway asks until the upstream hands out the tokens.
use super::claim::{trimmed_at, urlencode};
use super::claim;
use super::credentials;
use super::credentials::{CredentialsV, ZcodeCredentials};
use super::region::Region;
use crate::digest;
use crate::errors;
use crate::errors::{ErrorV, GatewayError};
use crate::http::{ApiRequest, ApiResponse, RequestV, ResponseV};
use crate::json;
use crate::json::{Json, JsonV};
use crate::providers::qoder::machine;
use crate::text;
use crate::urls;
use vstd::prelude::*;
use vstd::string::*;

verus! {

/// How long to wait for an answer.
pub const REQUEST_TIMEOUT_MS: u64 = 15000;

/// How many seconds to wait between two questions where the upstream does not say.
pub const DEFAULT_POLL_INTERVAL_SEC: i64 = 3;

/// A number in hexadecimal.
pub open spec fn hex_number(n: nat) -> Seq<char>
    decreases n,
{
    if n < 16 {
        seq![digest::hex_digit(n as int)]
    } else {
        hex_number(n / 16).push(digest::hex_digit((n % 16) as int))
    }
}

/// The digits of a number in hexadecimal.
fn hex_digits(n: u64) -> (digits: Vec<char>)
    ensures
        digits@ == hex_number(n as nat),
    decreases n,
{
    let mut digits: Vec<char> = if n < 16 {
        Vec::new()
    } else {
        hex_digits(n / 16)
    };
    let low: u8 = (n % 16) as u8;
    let digit: char = if low < 10 {
        (48u8 + low) as char
    } else {
        (87u8 + low) as char
    };
    digits.push(digit);
    assert(digits@ =~= hex_number(n as nat));
    digits
}

/// A number in hexadecimal.
fn hex_text(n: u64) -> (shown: String)
    ensures
        shown@ == hex_number(n as nat),
{
    text::text_of(&hex_digits(n))
}

/// What names a flow where no random bytes can be had: the process and the time,
/// in 64 digits.
pub open spec fn fallback_token(process: nat, now_ms: nat, nanos: nat) -> Seq<char> {
    let digits = hex_number(process) + hex_number(now_ms) + hex_number(nanos) + hex_number(
        now_ms / 8,
    );
    if digits.len() < 64 {
        Seq::new((64 - digits.len()) as nat, |i: int| '0') + digits
    } else {
        digits.take(64)
    }
}

/// Whether a text is 32 bytes in hexadecimal.
pub open spec fn is_random_token(s: Seq<char>) -> bool {
    s.len() == 64 && exists|bytes: Seq<u8>| bytes.len() == 32 && s == #[trigger] digest::hex_of(
        bytes,
    )
}

/// The token of a new flow: 32 random bytes, or the process and the time where no
/// random bytes can be had.
pub fn new_poll_token(process: u32, now_ms: u64, nanos: u32) -> (token: String)
    ensures
        token@.len() == 64,
        is_random_token(token@) || token@ == fallback_token(
            process as nat,
            now_ms as nat,
            nanos as nat,
        ),
{
    let bytes = digest::random_bytes(32);
    proof {
        if bytes is Some {
            digest::lemma_hex_len(bytes->0@);
        }
    }
    poll_token_from(bytes, process, now_ms, nanos)
}

/// The token of a flow: the 32 random bytes in hexadecimal, and the process and
/// the time only where none could be had.
pub fn poll_token_from(bytes: Option<Vec<u8>>, process: u32, now_ms: u64, nanos: u32) -> (token:
    String)
    requires
        bytes matches Some(b) ==> b@.len() == 32,
    ensures
        token@ == match bytes {
            Some(b) => digest::hex_of(b@),
            None => fallback_token(process as nat, now_ms as nat, nanos as nat),
        },
{
    if let Some(bytes) = bytes {
        return digest::hex(&bytes);
    }
    let mut digits = hex_text(process as u64);
    digits.append(hex_text(now_ms).as_str());
    digits.append(hex_text(nanos as u64).as_str());
    digits.append(hex_text(now_ms / 8).as_str());
    let count: usize = digits.as_str().unicode_len();
    if count >= 64 {
        let head = digits.as_str().substring_char(0, 64);
        assert(head@ =~= digits@.take(64));
        return text::owned(head);
    }
    let mut zeros: Vec<char> = Vec::new();
    while zeros.len() < 64 - count
        invariant
            count < 64,
            zeros@.len() <= 64 - count,
            forall|k: int| 0 <= k < zeros@.len() ==> zeros@[k] == '0',
        decreases 64 - count - zeros@.len(),
    {
        zeros.push('0');
    }
    assert(zeros@ =~= Seq::new((64 - count) as nat, |i: int| '0'));
    let mut token = text::text_of(&zeros);
    token.append(digits.as_str());
    token
}

/// Whether some part of a query begins with a name.
pub open spec fn has_named(parts: Seq<Seq<char>>, name: Seq<char>) -> bool {
    exists|i: int| 0 <= i < parts.len() && name.is_prefix_of(#[trigger] parts[i])
}

/// The parts of a query, the first that begins with a name replaced, the others
/// that begin with it left out, and so the empty ones.
pub open spec fn with_replaced(parts: Seq<Seq<char>>, name: Seq<char>, replacement: Seq<char>) -> Seq<
    Seq<char>,
>
    decreases parts.len(),
{
    if parts.len() == 0 {
        Seq::empty()
    } else {
        let before = with_replaced(parts.drop_last(), name, replacement);
        let last = parts.last();
        if last.len() == 0 {
            before
        } else if !name.is_prefix_of(last) {
            before.push(last)
        } else if has_named(parts.drop_last(), name) {
            before
        } else {
            before.push(replacement)
        }
    }
}

/// The parts of a query in which a name has one value.
pub open spec fn with_value(parts: Seq<Seq<char>>, name: Seq<char>, replacement: Seq<char>) -> Seq<
    Seq<char>,
> {
    if has_named(parts, name) {
        with_replaced(parts, name, replacement)
    } else {
        with_replaced(parts, name, replacement).push(replacement)
    }
}

/// The name of the value in the address that a browser opens.
pub open spec fn landing_name(region: Region) -> Seq<char> {
    match region {
        Region::Intl => "redirect_uri"@,
        Region::Cn => "redirect"@,
    }
}

/// The page that a browser ends on.
pub open spec fn landing_page(region: Region, version: Seq<char>) -> Seq<char> {
    region.spec_zcode_origin()
        + "/app/oauth/login?redirect=zcode%3A%2F%2Foauth%2Fcallback&app_version="@ + version
}

/// What names the page that a browser ends on, in a query.
pub open spec fn landing_part(region: Region, version: Seq<char>) -> Seq<char> {
    landing_name(region) + "="@ + claim::encoded(landing_page(region, version))
}

/// The address without its query and what follows.
pub open spec fn path_of(address: Seq<char>) -> Seq<char> {
    text::before_char(text::before_char(address, '#'), '?')
}

/// The parts of the query of an address.
pub open spec fn query_of(address: Seq<char>) -> Seq<Seq<char>> {
    let head = text::before_char(address, '#');
    let at = text::place_of(head, '?');
    text::parts(
        if at < head.len() {
            head.skip(at + 1)
        } else {
            Seq::empty()
        },
        '&',
    )
}

/// What follows the query of an address, with the sign before it.
pub open spec fn fragment_of(address: Seq<char>) -> Seq<char> {
    address.skip(text::place_of(address, '#'))
}

/// The address that a browser opens: the upstream's, with the page to end on in
/// its query.
pub open spec fn landed(region: Region, address: Seq<char>, version: Seq<char>) -> Seq<char> {
    let name = landing_name(region) + "="@;
    path_of(address) + "?"@ + text::glued(
        with_value(query_of(address), name, landing_part(region, version)),
        '&',
    ) + fragment_of(address)
}

/// The parts of a query in which a name has one value.
fn set_value(parts: &Vec<String>, name: &str, replacement: &str) -> (list: Vec<String>)
    ensures
        text::views(list@) == with_value(text::views(parts@), name@, replacement@),
{
    let ghost all = text::views(parts@);
    let mut list: Vec<String> = Vec::new();
    let mut replaced = false;
    let mut i: usize = 0;
    assert(text::views(list@) =~= Seq::empty());
    assert(all.take(0) =~= Seq::empty());
    while i < parts.len()
        invariant
            all == text::views(parts@),
            i <= parts.len(),
            text::views(list@) == with_replaced(all.take(i as int), name@, replacement@),
            replaced == has_named(all.take(i as int), name@),
        decreases parts.len() - i,
    {
        let ghost before = list@;
        let ghost upto = all.take(i as int + 1);
        assert(upto.drop_last() =~= all.take(i as int));
        assert(upto.last() == parts@[i as int]@);
        let part = parts[i].as_str();
        let named = text::starts_with(part, name);
        proof {
            if has_named(all.take(i as int), name@) {
                let k = choose|k: int|
                    0 <= k < i && name@.is_prefix_of(#[trigger] all.take(i as int)[k]);
                assert(upto[k] == all.take(i as int)[k]);
                assert(has_named(upto, name@));
            }
            if named {
                assert(name@.is_prefix_of(upto[i as int]));
                assert(has_named(upto, name@));
            }
            if has_named(upto, name@) && !named {
                let k = choose|k: int| 0 <= k <= i && name@.is_prefix_of(#[trigger] upto[k]);
                assert(k < i);
                assert(all.take(i as int)[k] == upto[k]);
            }
        }
        if !part.is_empty() {
            if !named {
                list.push(text::owned(part));
                assert(text::views(list@) =~= text::views(before).push(part@));
            } else if !replaced {
                list.push(text::owned(replacement));
                assert(text::views(list@) =~= text::views(before).push(replacement@));
            }
        }
        if named {
            replaced = true;
        }
        i += 1;
    }
    assert(all.take(all.len() as int) =~= all);
    if !replaced {
        let ghost before = list@;
        list.push(text::owned(replacement));
        assert(text::views(list@) =~= text::views(before).push(replacement@));
    }
    list
}

/// The address that a browser opens: the upstream's, with the page to end on in
/// its query.
pub fn apply_interstitial(region: Region, authorize_url: &str, version: &str) -> (address: String)
    ensures
        address@ == landed(region, authorize_url@, version@),
{
    let mut name = text::owned(
        match region {
            Region::Intl => "redirect_uri",
            Region::Cn => "redirect",
        },
    );
    name.append("=");
    let mut page = text::owned(region.zcode_origin());
    page.append("/app/oauth/login?redirect=zcode%3A%2F%2Foauth%2Fcallback&app_version=");
    page.append(version);
    let mut replacement = text::owned(name.as_str());
    replacement.append(urlencode(page.as_str()).as_str());

    let ghost address = authorize_url@;
    let chars = text::chars_of(authorize_url);
    let count: usize = chars.len();
    assert(address.skip(0) =~= address);
    let hash = text::find_char(&chars, '#', 0);
    proof {
        text::lemma_place_of(address, '#');
    }
    let head = authorize_url.substring_char(0, hash);
    let fragment = authorize_url.substring_char(hash, count);
    assert(head@ =~= text::before_char(address, '#'));
    assert(fragment@ =~= fragment_of(address));
    let head_chars = text::chars_of(head);
    assert(head@.skip(0) =~= head@);
    let mark = text::find_char(&head_chars, '?', 0);
    proof {
        text::lemma_place_of(head@, '?');
    }
    let path = head.substring_char(0, mark);
    assert(path@ =~= path_of(address));
    let query = if mark < head_chars.len() {
        let rest = head.substring_char(mark + 1, hash);
        assert(rest@ =~= head@.skip(mark as int + 1));
        rest
    } else {
        let rest = head.substring_char(mark, mark);
        assert(rest@ =~= Seq::empty());
        rest
    };
    let parts = text::split(query, '&');
    assert(text::views(parts@) == query_of(address));
    let list = set_value(&parts, name.as_str(), replacement.as_str());
    let mut out = text::owned(path);
    out.append("?");
    proof {
        reveal_strlit("&");
    }
    out.append(text::glue(&list, "&").as_str());
    out.append(fragment);
    out
}

/// How many parts begin with a name.
pub open spec fn count_named(parts: Seq<Seq<char>>, name: Seq<char>) -> nat
    decreases parts.len(),
{
    if parts.len() == 0 {
        0
    } else {
        count_named(parts.drop_last(), name) + if name.is_prefix_of(parts.last()) {
            1nat
        } else {
            0nat
        }
    }
}

/// The parts that are not empty and do not begin with a name.
pub open spec fn others(parts: Seq<Seq<char>>, name: Seq<char>) -> Seq<Seq<char>>
    decreases parts.len(),
{
    if parts.len() == 0 {
        Seq::empty()
    } else if parts.last().len() == 0 || name.is_prefix_of(parts.last()) {
        others(parts.drop_last(), name)
    } else {
        others(parts.drop_last(), name).push(parts.last())
    }
}

proof fn lemma_push(parts: Seq<Seq<char>>, part: Seq<char>, name: Seq<char>)
    ensures
        count_named(parts.push(part), name) == count_named(parts, name) + if name.is_prefix_of(part) {
            1nat
        } else {
            0nat
        },
        others(parts.push(part), name) == if part.len() == 0 || name.is_prefix_of(part) {
            others(parts, name)
        } else {
            others(parts, name).push(part)
        },
{
    assert(parts.push(part).drop_last() =~= parts);
}

proof fn lemma_replaced(parts: Seq<Seq<char>>, name: Seq<char>, replacement: Seq<char>)
    requires
        name.len() > 0,
        name.is_prefix_of(replacement),
    ensures
        count_named(with_replaced(parts, name, replacement), name) == if has_named(parts, name) {
            1nat
        } else {
            0nat
        },
        others(with_replaced(parts, name, replacement), name) == others(parts, name),
    decreases parts.len(),
{
    if parts.len() > 0 {
        let first = parts.drop_last();
        let last = parts.last();
        lemma_replaced(first, name, replacement);
        let before = with_replaced(first, name, replacement);
        lemma_push(before, last, name);
        lemma_push(before, replacement, name);
        if has_named(first, name) {
            let k = choose|k: int| 0 <= k < first.len() && name.is_prefix_of(#[trigger] first[k]);
            assert(parts[k] == first[k]);
            assert(has_named(parts, name));
        }
        if name.is_prefix_of(last) {
            assert(parts[parts.len() - 1] == last);
            assert(has_named(parts, name));
        }
        if has_named(parts, name) && !name.is_prefix_of(last) {
            let k = choose|k: int| 0 <= k < parts.len() && name.is_prefix_of(#[trigger] parts[k]);
            assert(first[k] == parts[k]);
        }
    }
}

/// Setting the page to end on leaves one value of its name in the query, and
/// every other part as it was and where it was.
pub proof fn landing_replaces_only_its_own(region: Region, address: Seq<char>, version: Seq<char>)
    ensures
        ({
            let name = landing_name(region) + "="@;
            let parts = with_value(query_of(address), name, landing_part(region, version));
            &&& count_named(parts, name) == 1
            &&& parts.contains(landing_part(region, version))
            &&& others(parts, name) == others(query_of(address), name)
        }),
{
    reveal_strlit("=");
    let name = landing_name(region) + "="@;
    let part = landing_part(region, version);
    let parts = query_of(address);
    assert(name.is_prefix_of(part));
    lemma_replaced(parts, name, part);
    let kept = with_replaced(parts, name, part);
    lemma_push(kept, part, name);
    if has_named(parts, name) {
        lemma_keeps(parts, name, part);
    } else {
        assert(kept.push(part)[kept.len() as int] == part);
    }
}

proof fn lemma_keeps(parts: Seq<Seq<char>>, name: Seq<char>, replacement: Seq<char>)
    requires
        name.len() > 0,
        has_named(parts, name),
    ensures
        with_replaced(parts, name, replacement).contains(replacement),
    decreases parts.len(),
{
    let first = parts.drop_last();
    let before = with_replaced(first, name, replacement);
    let whole = with_replaced(parts, name, replacement);
    if has_named(first, name) {
        lemma_keeps(first, name, replacement);
        let k = choose|k: int| 0 <= k < before.len() && before[k] == replacement;
        assert(whole[k] == replacement);
    } else {
        let k = choose|k: int| 0 <= k < parts.len() && name.is_prefix_of(#[trigger] parts[k]);
        if k < first.len() {
            assert(first[k] == parts[k]);
        }
        assert(whole[before.len() as int] == replacement);
    }
}

/// What an answer of the upstream says of a failure, where it is one.
pub open spec fn envelope_failure(payload: JsonV) -> Option<Seq<char>> {
    match payload.field("code"@).as_int() {
        None => None,
        Some(code) => if code == 0 {
            None
        } else {
            let said = match payload.get("msg"@) {
                Some(v) => Some(v),
                None => payload.get("message"@),
            };
            let message = match said {
                Some(JsonV::Str(s)) => if text::trimmed(s).len() > 0 {
                    text::trimmed(s)
                } else {
                    "上游拒绝"@
                },
                _ => "上游拒绝"@,
            };
            Some("ZCode 登录失败（"@ + text::decimal_int(code) + "）："@ + message)
        },
    }
}

/// What an answer of the upstream says of a failure, where it is one.
fn envelope_error(payload: &Json) -> (message: Option<String>)
    ensures
        json::owned_text(message) == envelope_failure(payload@),
{
    let code: i64 = match payload.get("code") {
        Some(value) => match value.as_int() {
            Some(code) => code,
            None => return None,
        },
        None => return None,
    };
    if code == 0 {
        return None;
    }
    let said = match payload.get("msg") {
        Some(value) => Some(value),
        None => payload.get("message"),
    };
    let mut shown = text::owned("ZCode 登录失败（");
    shown.append(text::signed_text(code).as_str());
    shown.append("）：");
    if let Some(value) = said {
        if let Some(s) = value.as_text() {
            let inner = text::trim(s);
            if !inner.is_empty() {
                shown.append(inner);
                return Some(shown);
            }
        }
    }
    shown.append("上游拒绝");
    Some(shown)
}

/// A text entry without space around it, empty where there is none.
fn trim_at(value: &Json, key: &str) -> (content: String)
    ensures
        content@ == trimmed_at(value@, key@),
{
    match value.text_at(key) {
        Some(s) => text::owned(text::trim(s)),
        None => String::new(),
    }
}

/// A text entry that has to be there.
pub open spec fn required(data: JsonV, key: Seq<char>) -> Result<Seq<char>, ErrorV> {
    if trimmed_at(data, key).len() > 0 {
        Ok(trimmed_at(data, key))
    } else {
        errors::fail(502, "ZCode 登录响应缺少 "@ + key)
    }
}

/// A text entry that has to be there.
fn required_str(data: &Json, key: &str) -> (content: Result<String, GatewayError>)
    ensures
        errors::text_view(content) == required(data@, key@),
{
    let content = trim_at(data, key);
    if content.as_str().is_empty() {
        let mut message = text::owned("ZCode 登录响应缺少 ");
        message.append(key);
        return Err(GatewayError::with_status(502, message.as_str()));
    }
    Ok(content)
}

/// A login that has begun.
#[derive(Debug)]
pub struct CliLogin {
    region: Region,
    flow_id: String,
    auth_url: String,
    expires_at: i64,
    poll_interval_sec: i64,
    poll_token: String,
    device_mid: Option<String>,
}

/// What such a login means.
#[verifier::ext_equal]
pub ghost struct LoginV {
    pub region: Region,
    pub flow_id: Seq<char>,
    pub auth_url: Seq<char>,
    pub expires_at: int,
    pub poll_interval_sec: int,
    pub poll_token: Seq<char>,
    pub device_mid: Option<Seq<char>>,
}

impl View for CliLogin {
    type V = LoginV;

    closed spec fn view(&self) -> LoginV {
        LoginV {
            region: self.region,
            flow_id: self.flow_id@,
            auth_url: self.auth_url@,
            expires_at: self.expires_at as int,
            poll_interval_sec: self.poll_interval_sec as int,
            poll_token: self.poll_token@,
            device_mid: json::owned_text(self.device_mid),
        }
    }
}

/// What a login or a failure means.
pub open spec fn login_view(outcome: Result<CliLogin, GatewayError>) -> Result<LoginV, ErrorV> {
    match outcome {
        Ok(l) => Ok(l@),
        Err(e) => Err(e@),
    }
}

/// The flow that the upstream opened.
pub open spec fn opened(
    region: Region,
    token: Seq<char>,
    payload: Option<JsonV>,
    version: Seq<char>,
    device_mid: Option<Seq<char>>,
) -> Result<LoginV, ErrorV> {
    match payload {
        None => errors::fail(502, "ZCode 登录发起：上游响应不是 JSON"@),
        Some(payload) => match envelope_failure(payload) {
            Some(message) => errors::fail(502, message),
            None => match payload.get("data"@) {
                None => errors::fail(502, "ZCode 登录发起：响应缺少 data"@),
                Some(data) => match required(data, "flow_id"@) {
                    Err(e) => Err(e),
                    Ok(flow_id) => match required(data, "authorize_url"@) {
                        Err(e) => Err(e),
                        Ok(address) => Ok(
                            LoginV {
                                region,
                                flow_id,
                                auth_url: landed(region, address, version),
                                expires_at: claim::int_or_zero(data, "expires_at"@),
                                poll_interval_sec: match data.field("poll_interval_sec"@).as_int() {
                                    Some(n) => if n > 0 {
                                        n
                                    } else {
                                        DEFAULT_POLL_INTERVAL_SEC as int
                                    },
                                    None => DEFAULT_POLL_INTERVAL_SEC as int,
                                },
                                poll_token: token,
                                device_mid,
                            },
                        ),
                    },
                },
            },
        },
    }
}

/// What credentials, the need to wait or a failure mean.
pub open spec fn polled_view(outcome: Result<Option<ZcodeCredentials>, GatewayError>) -> Result<
    Option<CredentialsV>,
    ErrorV,
> {
    match outcome {
        Ok(Some(c)) => Ok(Some(c@)),
        Ok(None) => Ok(None),
        Err(e) => Err(e@),
    }
}

/// The text of an entry of an entry without space around it.
pub open spec fn trimmed_within(data: JsonV, outer: Seq<char>, inner: Seq<char>) -> Seq<char> {
    match data.at(outer, inner) {
        Some(JsonV::Str(s)) => text::trimmed(s),
        _ => Seq::empty(),
    }
}

/// The text of an entry of an entry without space around it.
fn trim_within(data: &Json, outer: &str, inner: &str) -> (content: String)
    ensures
        content@ == trimmed_within(data@, outer@, inner@),
{
    match data.at(outer, inner) {
        Some(value) => match value.as_text() {
            Some(s) => text::owned(text::trim(s)),
            None => String::new(),
        },
        None => String::new(),
    }
}

/// The credentials that the upstream hands out.
pub open spec fn handed_out(login: LoginV, data: JsonV) -> Result<CredentialsV, ErrorV> {
    let key = login.region.spec_upstream_provider();
    let token = trimmed_within(data, key, "access_token"@);
    if token.len() == 0 {
        errors::fail(502, "ZCode 登录响应缺少 "@ + key + ".access_token"@)
    } else {
        Ok(
            CredentialsV {
                region: login.region,
                access_token: token,
                jwt: trimmed_at(data, "token"@),
                user_id: trimmed_within(data, "user"@, "user_id"@),
                device_mid: match login.device_mid {
                    Some(mid) => mid,
                    None => Seq::empty(),
                },
            },
        )
    }
}

/// What an answer means for a login that waits: credentials, the need to go on
/// waiting, or its end.
pub open spec fn polled(login: LoginV, response: Option<ResponseV>) -> Result<
    Option<CredentialsV>,
    ErrorV,
> {
    match response {
        None => Ok(None),
        Some(response) => {
            if response.status >= 500 || response.status == 408 || response.status == 429 {
                Ok(None)
            } else if response.payload is Some && envelope_failure(response.payload.unwrap()) is Some {
                errors::fail(502, envelope_failure(response.payload.unwrap()).unwrap())
            } else if response.status >= 400 {
                errors::fail(
                    502,
                    "ZCode 登录轮询被拒（HTTP "@ + text::decimal(response.status as nat) + "）"@,
                )
            } else {
                match response.payload {
                    None => Ok(None),
                    Some(payload) => match payload.get("data"@) {
                        None => Ok(None),
                        Some(data) => {
                            let status = data.text_at("status"@);
                            if status == Some("ready"@) {
                                match handed_out(login, data) {
                                    Ok(c) => Ok(Some(c)),
                                    Err(e) => Err(e),
                                }
                            } else if status == Some("failed"@) {
                                errors::fail(401, "ZCode 授权被拒绝或已失效，请重新发起登录"@)
                            } else {
                                Ok(None)
                            }
                        },
                    },
                }
            }
        },
    }
}

/// The call that opens a flow.
pub fn start_request(region: Region, poll_token: &str) -> (request: ApiRequest)
    ensures
        request@ == (RequestV {
            method: "POST"@,
            url: region.spec_zcode_origin() + "/api/v1/oauth/cli/init"@,
            headers: Seq::empty().push(("authorization"@, "Bearer "@ + poll_token@)).push(
                ("content-type"@, "application/json"@),
            ),
            body: Some(
                JsonV::object().put("provider"@, JsonV::Str(region.spec_upstream_provider())),
            ),
        }),
{
    let mut url = text::owned(region.zcode_origin());
    url.append("/api/v1/oauth/cli/init");
    let mut bearer = text::owned("Bearer ");
    bearer.append(poll_token);
    let mut headers = urls::no_pairs();
    urls::push_pair(&mut headers, "authorization", bearer.as_str());
    urls::push_pair(&mut headers, "content-type", "application/json");
    let mut body = Json::object();
    body.put("provider", Json::text(region.upstream_provider()));
    ApiRequest { method: "POST", url, headers, body: Some(body) }
}

/// The error of a flow that could not be opened.
pub fn start_error(timed_out: bool, reason: &str) -> (error: GatewayError)
    ensures
        error@ == if timed_out {
            ErrorV::plain(504, "ZCode 登录发起超时"@)
        } else {
            ErrorV::plain(502, "ZCode 登录发起失败: "@ + reason@)
        },
{
    if timed_out {
        return GatewayError::with_status(504, "ZCode 登录发起超时");
    }
    let mut message = text::owned("ZCode 登录发起失败: ");
    message.append(reason);
    GatewayError::with_status(502, message.as_str())
}

impl CliLogin {
    /// The login in a flow that the upstream opened, on a device of a given name.
    pub fn on_device(
        region: Region,
        poll_token: String,
        response: ApiResponse,
        version: &str,
        device_mid: Option<String>,
    ) -> (login: Result<Self, GatewayError>)
        ensures
            login_view(login) == opened(
                region,
                poll_token@,
                response@.payload,
                version@,
                json::owned_text(device_mid),
            ),
    {
        let payload = match response.payload {
            Some(payload) => payload,
            None => return Err(
                GatewayError::with_status(502, "ZCode 登录发起：上游响应不是 JSON"),
            ),
        };
        if let Some(message) = envelope_error(&payload) {
            return Err(GatewayError::with_status(502, message.as_str()));
        }
        let data = match payload.get("data") {
            Some(data) => data,
            None => return Err(GatewayError::with_status(502, "ZCode 登录发起：响应缺少 data")),
        };
        let flow_id = match required_str(data, "flow_id") {
            Ok(flow_id) => flow_id,
            Err(error) => return Err(error),
        };
        let authorize_url = match required_str(data, "authorize_url") {
            Ok(address) => address,
            Err(error) => return Err(error),
        };
        let expires_at: i64 = match data.get("expires_at") {
            Some(value) => match value.as_int() {
                Some(at) => at,
                None => 0,
            },
            None => 0,
        };
        let named: i64 = match data.get("poll_interval_sec") {
            Some(value) => match value.as_int() {
                Some(n) => n,
                None => 0,
            },
            None => 0,
        };
        let poll_interval_sec: i64 = if named > 0 {
            named
        } else {
            DEFAULT_POLL_INTERVAL_SEC
        };
        let auth_url = apply_interstitial(region, authorize_url.as_str(), version);
        Ok(
            CliLogin {
                region,
                flow_id,
                auth_url,
                expires_at,
                poll_interval_sec,
                poll_token,
                device_mid,
            },
        )
    }

    /// The login in a flow that the upstream opened, on a new device.
    pub fn start(region: Region, poll_token: String, response: ApiResponse, version: &str) -> (login:
        Result<Self, GatewayError>)
        ensures
            match login {
                Ok(l) => opened(
                    region,
                    poll_token@,
                    response@.payload,
                    version@,
                    l@.device_mid,
                ) == Ok::<LoginV, ErrorV>(l@) && (l@.device_mid matches Some(mid)
                    ==> machine::is_uuid(mid)),
                Err(e) => opened(region, poll_token@, response@.payload, version@, None) == Err::<
                    LoginV,
                    ErrorV,
                >(e@),
            },
    {
        let device_mid = credentials::new_device_mid();
        Self::on_device(region, poll_token, response, version, device_mid)
    }

    /// The address for a browser.
    pub fn auth_url(&self) -> (address: &str)
        ensures
            address@ == self@.auth_url,
    {
        self.auth_url.as_str()
    }

    /// What tells this login from others.
    pub fn state(&self) -> (flow: &str)
        ensures
            flow@ == self@.flow_id,
    {
        self.flow_id.as_str()
    }

    pub fn region(&self) -> (region: Region)
        ensures
            region == self@.region,
    {
        self.region
    }

    /// How many seconds to wait between two questions: one at least.
    pub fn poll_interval(&self) -> (seconds: u64)
        ensures
            seconds == if self@.poll_interval_sec < 1 {
                1
            } else {
                self@.poll_interval_sec
            },
    {
        if self.poll_interval_sec < 1 {
            1
        } else {
            self.poll_interval_sec as u64
        }
    }

    /// When the upstream closes the flow, in seconds; zero where it does not say.
    pub fn expires_at(&self) -> (at: i64)
        ensures
            at == self@.expires_at,
    {
        self.expires_at
    }

    /// The call that asks for the tokens.
    pub fn poll_request(&self) -> (request: ApiRequest)
        ensures
            request@ == (RequestV {
                method: "GET"@,
                url: self@.region.spec_zcode_origin() + "/api/v1/oauth/cli/poll/"@
                    + self@.flow_id,
                headers: Seq::empty().push(("authorization"@, "Bearer "@ + self@.poll_token)),
                body: None,
            }),
    {
        let mut url = text::owned(self.region.zcode_origin());
        url.append("/api/v1/oauth/cli/poll/");
        url.append(self.flow_id.as_str());
        let mut bearer = text::owned("Bearer ");
        bearer.append(self.poll_token.as_str());
        let mut headers = urls::no_pairs();
        urls::push_pair(&mut headers, "authorization", bearer.as_str());
        ApiRequest { method: "GET", url, headers, body: None }
    }

    /// The credentials that the upstream hands out.
    fn parse_ready(&self, data: &Json) -> (outcome: Result<ZcodeCredentials, GatewayError>)
        ensures
            match outcome {
                Ok(c) => handed_out(self@, data@) == Ok::<CredentialsV, ErrorV>(c@),
                Err(e) => handed_out(self@, data@) == Err::<CredentialsV, ErrorV>(e@),
            },
    {
        let key = self.region.upstream_provider();
        let access_token = trim_within(data, key, "access_token");
        if access_token.as_str().is_empty() {
            let mut message = text::owned("ZCode 登录响应缺少 ");
            message.append(key);
            message.append(".access_token");
            return Err(GatewayError::with_status(502, message.as_str()));
        }
        let device_mid = match &self.device_mid {
            Some(mid) => text::owned(mid.as_str()),
            None => String::new(),
        };
        Ok(
            ZcodeCredentials {
                region: self.region,
                access_token,
                jwt: trim_at(data, "token"),
                user_id: trim_within(data, "user", "user_id"),
                device_mid,
            },
        )
    }

    /// What an answer means for the login, or that none came: credentials, nothing
    /// yet, or its end.
    pub fn poll(&self, response: Option<ApiResponse>) -> (outcome: Result<
        Option<ZcodeCredentials>,
        GatewayError,
    >)
        ensures
            polled_view(outcome) == polled(
                self@,
                match response {
                    Some(r) => Some(r@),
                    None => None,
                },
            ),
    {
        let response = match response {
            Some(response) => response,
            None => return Ok(None),
        };
        let status = response.status;
        if status >= 500 || status == 408 || status == 429 {
            return Ok(None);
        }
        if let Some(payload) = &response.payload {
            if let Some(message) = envelope_error(payload) {
                return Err(GatewayError::with_status(502, message.as_str()));
            }
        }
        if status >= 400 {
            let mut message = text::owned("ZCode 登录轮询被拒（HTTP ");
            message.append(text::decimal_text(status as u64).as_str());
            message.append("）");
            return Err(GatewayError::with_status(502, message.as_str()));
        }
        let payload = match &response.payload {
            Some(payload) => payload,
            None => return Ok(None),
        };
        let data = match payload.get("data") {
            Some(data) => data,
            None => return Ok(None),
        };
        let said = match data.text_at("status") {
            Some(said) => said,
            None => return Ok(None),
        };
        if text::same(said, "ready") {
            return match self.parse_ready(data) {
                Ok(credentials) => Ok(Some(credentials)),
                Err(error) => Err(error),
            };
        }
        if text::same(said, "failed") {
            return Err(
                GatewayError::with_status(401, "ZCode 授权被拒绝或已失效，请重新发起登录"),
            );
        }
        Ok(None)
    }
}

/// What a login hands out can be used for answers, belongs to the region that it
/// was begun for, and carries the device that it was begun on.
pub proof fn logins_hand_out_usable_credentials(login: LoginV, response: Option<ResponseV>)
    requires
        polled(login, response) matches Ok(Some(_)),
    ensures
        ({
            let own = polled(login, response)->Ok_0.unwrap();
            &&& own.region == login.region
            &&& own.access_token.len() > 0
            &&& login.device_mid matches Some(mid) ==> own.device_mid == mid
        }),
{
}

/// A question that went wrong on the way does not end a login: no answer at all,
/// a fault of the upstream, or a request to wait.
pub proof fn faults_do_not_end_a_login(login: LoginV, response: Option<ResponseV>)
    requires
        response matches Some(r) ==> r.status >= 500 || r.status == 408 || r.status == 429,
    ensures
        polled(login, response) == Ok::<Option<CredentialsV>, ErrorV>(None),
{
}

/// A refusal ends a login whatever came with it.
pub proof fn refusals_end_a_login(login: LoginV, response: ResponseV)
    requires
        400 <= response.status < 500,
        response.status != 408,
        response.status != 429,
    ensures
        polled(login, Some(response)) is Err,
{
}

} // verus!
