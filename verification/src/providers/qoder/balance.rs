//! What is left on a Qoder account.
use super::auth;
use super::credentials::Credentials;
use super::endpoints;
use crate::errors::GatewayError;
use crate::http::{ApiRequest, ApiResponse, RequestV};
use crate::json;
use crate::json::{Double, Json, JsonV};
use crate::number;
use crate::text;
use vstd::prelude::*;
use vstd::string::*;

verus! {

/// The bit pattern of the number that a value is, or that its text writes.
pub open spec fn amount_in(value: Option<JsonV>) -> Option<u64> {
    match value {
        Some(JsonV::Str(s)) => json::parsed_double(s),
        Some(v) => json::number_bits(v),
        None => None,
    }
}

/// The number that a value is, or that its text writes.
fn amount(value: Option<&Json>) -> (double: Option<Double>)
    ensures
        match double {
            Some(d) => amount_in(json::opt_view(value)) == Some(d.pattern()) && d.written()
                == json::double_text(d.pattern()),
            None => amount_in(json::opt_view(value)) is None,
        },
{
    match value {
        Some(value) => match value {
            Json::Text(s) => json::parse_double(s.as_str()),
            _ => json::to_double(value),
        },
        None => None,
    }
}

/// A number as a value.
pub open spec fn amount_value(bits: u64) -> JsonV {
    JsonV::Float { bits, text: json::double_text(bits) }
}

/// An optional number as a value.
pub open spec fn amount_or_null(bits: Option<u64>) -> JsonV {
    match bits {
        Some(b) => amount_value(b),
        None => JsonV::Null,
    }
}

/// A wallet, where there is an amount.
pub open spec fn plain_wallet(kind: Seq<char>, name: Seq<char>, bits: Option<u64>) -> Option<
    JsonV,
> {
    match bits {
        Some(b) => Some(
            JsonV::object().put("type"@, JsonV::Str(kind)).put("displayName"@, JsonV::Str(name)).put(
                "balance"@,
                amount_value(b),
            ),
        ),
        None => None,
    }
}

/// A wallet of an organisation, with its unit.
pub open spec fn shown_wallet(
    kind: Seq<char>,
    name: Seq<char>,
    bits: Option<u64>,
    unit: Seq<char>,
) -> Option<JsonV> {
    match bits {
        Some(b) => Some(
            JsonV::object().put("type"@, JsonV::Str(kind)).put("displayName"@, JsonV::Str(name)).put(
                "balance"@,
                amount_value(b),
            ).put("balanceView"@, JsonV::Str(json::double_shown(b) + " "@ + unit)),
        ),
        None => None,
    }
}

/// A list with one more item, where there is one.
pub open spec fn and_some(list: Seq<JsonV>, item: Option<JsonV>) -> Seq<JsonV> {
    match item {
        Some(v) => list.push(v),
        None => list,
    }
}

/// A unit, or another where it is not named.
pub open spec fn unit_in(quota: JsonV, otherwise: Seq<char>) -> Seq<char> {
    match quota.text_at("unit"@) {
        Some(s) => s,
        None => otherwise,
    }
}

/// The wallets of an organisation, where its total is above zero.
pub open spec fn with_package(wallets: Seq<JsonV>, package: JsonV, unit: Seq<char>) -> Seq<JsonV> {
    let total = amount_in(package.get("total"@));
    let own = unit_in(package, unit);
    if total is Some && number::is_positive(total.unwrap()) {
        and_some(
            and_some(wallets, shown_wallet("org_total"@, "组织总额"@, total, own)),
            shown_wallet("org_used"@, "组织已用"@, amount_in(package.get("used"@)), own),
        )
    } else {
        wallets
    }
}

/// The wallets of an account.
pub open spec fn wallets_in(raw: JsonV) -> Seq<JsonV> {
    let quota = raw.field("userQuota"@);
    with_package(
        and_some(
            and_some(
                Seq::empty(),
                plain_wallet("user_used"@, "个人已用"@, amount_in(quota.get("used"@))),
            ),
            plain_wallet("user_total"@, "个人总额"@, amount_in(quota.get("total"@))),
        ),
        raw.field("orgResourcePackage"@),
        unit_in(quota, "额度"@),
    )
}

/// What is left on an account, in the form that all providers share.
pub open spec fn usage_in(raw: JsonV) -> JsonV {
    let quota = raw.field("userQuota"@);
    JsonV::object().put("available"@, amount_or_null(amount_in(quota.get("remaining"@)))).put(
        "unit"@,
        JsonV::Str(unit_in(quota, "额度"@)),
    ).put("wallets"@, JsonV::Arr(wallets_in(raw))).put(
        "subscription"@,
        if raw.field("expiresAt"@) == JsonV::Null {
            JsonV::object()
        } else {
            JsonV::object().put("expireAt"@, raw.field("expiresAt"@))
        },
    )
}

/// Appends a wallet, where there is an amount; with a unit, its amount is also
/// shown.
fn push_wallet(
    wallets: &mut Vec<Json>,
    kind: &str,
    name: &str,
    double: Option<Double>,
    unit: Option<&str>,
)
    requires
        double matches Some(d) ==> d.written() == json::double_text(d.pattern()),
    ensures
        ({
            let bits = match double {
                Some(d) => Some(d.pattern()),
                None => None,
            };
            json::list_view(final(wallets)@) == and_some(
                json::list_view(old(wallets)@),
                match json::opt_text(unit) {
                    Some(u) => shown_wallet(kind@, name@, bits, u),
                    None => plain_wallet(kind@, name@, bits),
                },
            )
        }),
{
    if let Some(double) = double {
        let shown = json::show_double(&double);
        let mut item = Json::object();
        item.put("type", Json::text(kind));
        item.put("displayName", Json::text(name));
        item.put("balance", Json::Float(double));
        if let Some(unit) = unit {
            let mut line = shown;
            line.append(" ");
            line.append(unit);
            item.put("balanceView", Json::Text(line));
        }
        proof {
            json::lemma_list_push(wallets@, item);
        }
        wallets.push(item);
    }
}

/// A unit, or another where it is not named.
fn unit_of(quota: &Json, otherwise: &str) -> (unit: String)
    ensures
        unit@ == unit_in(quota@, otherwise@),
{
    match quota.text_at("unit") {
        Some(s) => text::owned(s),
        None => text::owned(otherwise),
    }
}

/// The call for what is left on an account.
pub fn usage_request(credentials: &Credentials) -> (request: ApiRequest)
    ensures
        request@ == (RequestV {
            method: "GET"@,
            url: credentials@.region.spec_open_api() + endpoints::USAGE_PATH@,
            headers: endpoints::api_headers(Some(credentials@.access_token)),
            body: None,
        }),
{
    let mut url = text::owned(credentials.region.open_api());
    url.append(endpoints::USAGE_PATH);
    ApiRequest {
        method: "GET",
        url,
        headers: endpoints::open_api_headers(Some(credentials.access_token.as_str())),
        body: None,
    }
}

/// Whether to renew the credentials and ask again.
pub fn should_retry(status: u16, credentials: &Credentials) -> (yes: bool)
    ensures
        yes == (status == 401 && credentials@.renewable()),
{
    status == 401 && credentials.can_refresh()
}

/// What is left on an account, in the form that all providers share.
pub fn query(response: ApiResponse) -> (usage: Result<Json, GatewayError>)
    ensures
        auth::value_view(usage) == match auth::payload_in(response@, "额度查询"@) {
            Err(e) => Err(e),
            Ok(raw) => Ok(usage_in(raw)),
        },
{
    match auth::payload(response, "额度查询") {
        Ok(raw) => Ok(usage_of(&raw)),
        Err(error) => Err(error),
    }
}

/// What is left on an account, in the form that all providers share.
fn usage_of(raw: &Json) -> (usage: Json)
    ensures
        usage@ == usage_in(raw@),
{
    let quota = raw.field("userQuota");
    let unit = unit_of(&quota, "额度");
    let mut wallets: Vec<Json> = Vec::new();
    proof {
        json::lemma_list_empty(wallets@);
    }
    push_wallet(&mut wallets, "user_used", "个人已用", amount(quota.get("used")), None);
    push_wallet(&mut wallets, "user_total", "个人总额", amount(quota.get("total")), None);
    let package = raw.field("orgResourcePackage");
    if let Some(total) = amount(package.get("total")) {
        let bits: u64 = total.bits();
        if 0 < bits && bits < 0x8000_0000_0000_0000 {
            let own = unit_of(&package, unit.as_str());
            push_wallet(
                &mut wallets,
                "org_total",
                "组织总额",
                Some(total),
                Some(own.as_str()),
            );
            push_wallet(
                &mut wallets,
                "org_used",
                "组织已用",
                amount(package.get("used")),
                Some(own.as_str()),
            );
        }
    }
    let available = match amount(quota.get("remaining")) {
        Some(double) => Json::Float(double),
        None => Json::Null,
    };
    let mut subscription = Json::object();
    let end = raw.field("expiresAt");
    if !end.is_null() {
        subscription.put("expireAt", end);
    }
    let mut usage = Json::object();
    usage.put("available", available);
    usage.put("unit", Json::Text(unit));
    usage.put("wallets", Json::list(wallets));
    usage.put("subscription", subscription);
    usage
}

} // verus!
