//! The plans that ZCode gives away for a while: which there are, how one is
//! claimed, and when to try again.
use super::region::Region;
use crate::errors;
use crate::errors::{ErrorV, GatewayError};
use crate::http::{ApiRequest, ApiResponse, RequestV, ResponseV};
use crate::json;
use crate::json::{Json, JsonV};
use crate::text;
use crate::time;
use crate::urls;
use vstd::prelude::*;
use vstd::string::*;
use vstd::utf8::*;

verus! {

/// How long to wait for an answer.
pub const REQUEST_TIMEOUT_MS: u64 = 15000;

/// The version of the client that the upstream takes the gateway for.
pub const DEFAULT_APP_VERSION: &'static str = "3.14.0";

pub const PREVIEW_PATH: &'static str = "/api/v1/zcode-plan/billing/preview";
pub const CLAIM_PATH: &'static str = "/api/v1/zcode-plan/billing/claim";
pub const CLIENT_CONFIGS_PATH: &'static str = "/api/v1/client/configs";

/// A text without space around it, where it is set and not blank.
pub open spec fn filled(set: Option<Seq<char>>) -> Option<Seq<char>> {
    match set {
        Some(s) => if text::trimmed(s).len() > 0 {
            Some(text::trimmed(s))
        } else {
            None
        },
        None => None,
    }
}

/// A text without space around it, where it is set and not blank.
fn fill<'a>(set: Option<&'a str>) -> (value: Option<&'a str>)
    ensures
        json::opt_text(value) == filled(json::opt_text(set)),
{
    match set {
        Some(s) => {
            let inner = text::trim(s);
            if inner.is_empty() {
                None
            } else {
                Some(inner)
            }
        },
        None => None,
    }
}

/// The version of the client: the configured one, else the known one.
pub open spec fn version_of(set: Option<Seq<char>>) -> Seq<char> {
    match filled(set) {
        Some(s) => s,
        None => DEFAULT_APP_VERSION@,
    }
}

/// The version of the client: the configured one, else the known one.
pub fn app_version(set: Option<&str>) -> (version: String)
    ensures
        version@ == version_of(json::opt_text(set)),
{
    match fill(set) {
        Some(s) => text::owned(s),
        None => text::owned(DEFAULT_APP_VERSION),
    }
}

/// The upstream's name of a platform.
pub open spec fn platform_of(os: Seq<char>, arch: Seq<char>) -> Seq<char> {
    let arm = arch == "aarch64"@;
    if os == "macos"@ {
        if arm {
            "darwin-arm64"@
        } else {
            "darwin-x64"@
        }
    } else if os == "linux"@ {
        if arm {
            "linux-arm64"@
        } else {
            "linux-x64"@
        }
    } else {
        "win32-x64"@
    }
}

/// The upstream's name of a platform; of one that it does not know, that of the
/// commonest.
pub fn platform(os: &str, arch: &str) -> (name: &'static str)
    ensures
        name@ == platform_of(os@, arch@),
{
    let arm = text::same(arch, "aarch64");
    if text::same(os, "macos") {
        if arm {
            "darwin-arm64"
        } else {
            "darwin-x64"
        }
    } else if text::same(os, "linux") {
        if arm {
            "linux-arm64"
        } else {
            "linux-x64"
        }
    } else {
        "win32-x64"
    }
}

/// Whether a byte stands for itself in a value of a query.
pub open spec fn is_unreserved(b: u8) -> bool {
    48 <= b <= 57 || 65 <= b <= 90 || 97 <= b <= 122 || b == 45 || b == 95 || b == 46 || b == 126
}

/// The hexadecimal digit for a number below sixteen, in capitals.
pub open spec fn capital_digit(n: int) -> char {
    if n < 10 {
        ('0' as int + n) as char
    } else {
        ('A' as int + n - 10) as char
    }
}

/// What stands for a byte in a value of a query.
pub open spec fn escaped(b: u8) -> Seq<char> {
    if is_unreserved(b) {
        seq![b as char]
    } else {
        seq!['%', capital_digit(b as int / 16), capital_digit(b as int % 16)]
    }
}

/// What stands for bytes in a value of a query.
pub open spec fn escaped_all(bytes: Seq<u8>) -> Seq<char>
    decreases bytes.len(),
{
    if bytes.len() == 0 {
        Seq::empty()
    } else {
        escaped_all(bytes.drop_last()) + escaped(bytes.last())
    }
}

/// What stands for a text in a value of a query.
pub open spec fn encoded(s: Seq<char>) -> Seq<char> {
    escaped_all(encode_utf8(s))
}

/// The hexadecimal digit for a number below sixteen, in capitals.
fn capital(n: u8) -> (c: char)
    requires
        n < 16,
    ensures
        c == capital_digit(n as int),
{
    if n < 10 {
        (48u8 + n) as char
    } else {
        (55u8 + n) as char
    }
}

/// What stands for a text in a value of a query.
pub fn urlencode(value: &str) -> (out: String)
    ensures
        out@ == encoded(value@),
{
    let bytes = value.as_bytes();
    let ghost all = encode_utf8(value@);
    let mut out: Vec<char> = Vec::new();
    let mut i: usize = 0;
    assert(all.take(0) =~= Seq::empty());
    while i < bytes.len()
        invariant
            bytes@ == all,
            i <= bytes.len(),
            out@ == escaped_all(all.take(i as int)),
        decreases bytes.len() - i,
    {
        let ghost before = out@;
        let b: u8 = bytes[i];
        if (48 <= b && b <= 57) || (65 <= b && b <= 90) || (97 <= b && b <= 122) || b == 45 || b
            == 95 || b == 46 || b == 126 {
            out.push(b as char);
        } else {
            out.push('%');
            out.push(capital(b / 16));
            out.push(capital(b % 16));
        }
        assert(out@ =~= before + escaped(b));
        assert(all.take(i as int + 1).drop_last() =~= all.take(i as int));
        i += 1;
    }
    assert(all.take(all.len() as int) =~= all);
    text::text_of(&out)
}

/// The address of a service that is told the client's version and platform.
pub open spec fn told_address(
    region: Region,
    path: Seq<char>,
    version: Seq<char>,
    platform: Seq<char>,
) -> Seq<char> {
    region.spec_zcode_origin() + path + "?app_version="@ + encoded(version) + "&platform="@
        + encoded(platform)
}

/// The address of a service that is told the client's version and platform.
fn told(region: Region, path: &str, version: &str, platform: &str) -> (address: String)
    ensures
        address@ == told_address(region, path@, version@, platform@),
{
    let mut address = text::owned(region.zcode_origin());
    address.append(path);
    address.append("?app_version=");
    address.append(urlencode(version).as_str());
    address.append("&platform=");
    address.append(urlencode(platform).as_str());
    address
}

/// How messages name the question how the puzzle is set up.
pub const CAPTCHA_ACTION: &'static str = "获取风控配置";

/// How messages name the question which plans can be claimed.
pub const PREVIEW_ACTION: &'static str = "套餐探测";

/// How messages name a claim.
pub const CLAIM_ACTION: &'static str = "套餐领取";

/// The error of a call that got no answer.
pub fn transport_error(what: &str, timed_out: bool, reason: &str) -> (error: GatewayError)
    ensures
        error@ == if timed_out {
            ErrorV::plain(504, what@ + "超时"@)
        } else {
            ErrorV::plain(502, what@ + "失败: "@ + reason@)
        },
{
    let mut message = text::owned(what);
    if timed_out {
        message.append("超时");
        return GatewayError::with_status(504, message.as_str());
    }
    message.append("失败: ");
    message.append(reason);
    GatewayError::with_status(502, message.as_str())
}

/// How the puzzle that a claim can need is set up.
#[derive(Debug)]
pub struct CaptchaConfig {
    /// Whether the upstream asks for it now.
    pub enabled: bool,
    pub prefix: String,
    pub scene_id: String,
    pub region: String,
}

/// What such a setup means.
#[verifier::ext_equal]
pub ghost struct CaptchaV {
    pub enabled: bool,
    pub prefix: Seq<char>,
    pub scene_id: Seq<char>,
    pub region: Seq<char>,
}

impl View for CaptchaConfig {
    type V = CaptchaV;

    open spec fn view(&self) -> CaptchaV {
        CaptchaV {
            enabled: self.enabled,
            prefix: self.prefix@,
            scene_id: self.scene_id@,
            region: self.region@,
        }
    }
}

/// What a setup means, where there is one.
pub open spec fn captcha_view(config: Option<CaptchaConfig>) -> Option<CaptchaV> {
    match config {
        Some(c) => Some(c@),
        None => None,
    }
}

/// A text entry without space around it, empty where there is none.
pub open spec fn trimmed_at(value: JsonV, key: Seq<char>) -> Seq<char> {
    match value.text_at(key) {
        Some(s) => text::trimmed(s),
        None => Seq::empty(),
    }
}

/// A text entry without space around it, empty where there is none.
fn trim_at(value: &Json, key: &str) -> (content: String)
    ensures
        content@ == trimmed_at(value@, key@),
{
    match value.text_at(key) {
        Some(s) => text::owned(text::trim(s)),
        None => String::new(),
    }
}

/// The call for the setup of the puzzle.
pub fn captcha_config_request(region: Region, version: &str, platform: &str) -> (request: ApiRequest)
    ensures
        request@ == (RequestV {
            method: "GET"@,
            url: told_address(region, CLIENT_CONFIGS_PATH@, version@, platform@),
            headers: Seq::empty(),
            body: None,
        }),
{
    ApiRequest {
        method: "GET",
        url: told(region, CLIENT_CONFIGS_PATH, version, platform),
        headers: urls::no_pairs(),
        body: None,
    }
}

/// The setup in a part of an answer.
pub open spec fn captcha_of(captcha: JsonV) -> Option<CaptchaV> {
    let prefix = trimmed_at(captcha, "prefix"@);
    let scene_id = trimmed_at(captcha, "sceneId"@);
    let region = trimmed_at(captcha, "region"@);
    if prefix.len() == 0 || scene_id.len() == 0 {
        None
    } else {
        Some(
            CaptchaV {
                enabled: match captcha.field("enabled"@) {
                    JsonV::Bool(flag) => flag,
                    _ => true,
                },
                prefix,
                scene_id,
                region: if region.len() == 0 {
                    "ga"@
                } else {
                    region
                },
            },
        )
    }
}

/// The setup of the puzzle in an answer; nothing where it is not all there.
pub open spec fn captcha_in(payload: JsonV) -> Option<CaptchaV> {
    match payload.at("data"@, "configs"@) {
        Some(configs) => match configs.get("captcha"@) {
            Some(captcha) => captcha_of(captcha),
            None => None,
        },
        None => None,
    }
}

/// The setup of the puzzle in an answer; nothing where it is not all there, so
/// that nobody is shown a puzzle that cannot be set up.
pub fn captcha_config(response: ApiResponse) -> (config: Option<CaptchaConfig>)
    ensures
        captcha_view(config) == match response@.payload {
            Some(payload) => captcha_in(payload),
            None => None,
        },
{
    let payload = match response.payload {
        Some(payload) => payload,
        None => return None,
    };
    let configs = match payload.at("data", "configs") {
        Some(configs) => configs,
        None => return None,
    };
    let captcha = match configs.get("captcha") {
        Some(captcha) => captcha,
        None => return None,
    };
    let prefix = trim_at(captcha, "prefix");
    let scene_id = trim_at(captcha, "sceneId");
    if prefix.as_str().is_empty() || scene_id.as_str().is_empty() {
        return None;
    }
    let enabled = match captcha.get("enabled") {
        Some(value) => match value {
            Json::Bool(flag) => *flag,
            _ => true,
        },
        None => true,
    };
    let named = trim_at(captcha, "region");
    let region = if named.as_str().is_empty() {
        text::owned("ga")
    } else {
        named
    };
    Some(CaptchaConfig { enabled, prefix, scene_id, region })
}

/// What to tell someone whose claim failed by the puzzle.
pub fn captcha_hint(config: &CaptchaConfig) -> (hint: String)
    ensures
        hint@ == if config@.enabled {
            "请重新完成验证码后再试"@
        } else {
            "上游当前未要求验证码，请直接重试一次领取"@
        },
{
    if config.enabled {
        text::owned("请重新完成验证码后再试")
    } else {
        text::owned("上游当前未要求验证码，请直接重试一次领取")
    }
}

/// Something that a plan grants.
#[derive(Debug)]
pub struct PlanEntitlement {
    /// Its name for people, else its id.
    pub show_name: String,
    pub unit_type: String,
    /// How much of it; zero where the upstream does not say.
    pub grant_units: i64,
    /// From when on, in seconds.
    pub effective_at: Option<i64>,
}

/// What a grant means.
#[verifier::ext_equal]
pub ghost struct EntitlementV {
    pub show_name: Seq<char>,
    pub unit_type: Seq<char>,
    pub grant_units: int,
    pub effective_at: Option<int>,
}

impl View for PlanEntitlement {
    type V = EntitlementV;

    open spec fn view(&self) -> EntitlementV {
        EntitlementV {
            show_name: self.show_name@,
            unit_type: self.unit_type@,
            grant_units: self.grant_units as int,
            effective_at: time::opt_time(self.effective_at),
        }
    }
}

/// A plan that can be claimed.
#[derive(Debug)]
pub struct ClaimablePlan {
    pub plan_id: String,
    pub name: String,
    pub description: String,
    pub priority: i64,
    /// From when on, in seconds.
    pub starts_at: Option<i64>,
    /// Until when, in seconds.
    pub ends_at: Option<i64>,
    pub entitlements: Vec<PlanEntitlement>,
}

/// What a plan means.
#[verifier::ext_equal]
pub ghost struct PlanV {
    pub plan_id: Seq<char>,
    pub name: Seq<char>,
    pub description: Seq<char>,
    pub priority: int,
    pub starts_at: Option<int>,
    pub ends_at: Option<int>,
    pub entitlements: Seq<EntitlementV>,
}

/// What grants mean.
pub open spec fn entitlements_view(list: Seq<PlanEntitlement>) -> Seq<EntitlementV> {
    list.map_values(|e: PlanEntitlement| e@)
}

impl View for ClaimablePlan {
    type V = PlanV;

    open spec fn view(&self) -> PlanV {
        PlanV {
            plan_id: self.plan_id@,
            name: self.name@,
            description: self.description@,
            priority: self.priority as int,
            starts_at: time::opt_time(self.starts_at),
            ends_at: time::opt_time(self.ends_at),
            entitlements: entitlements_view(self.entitlements@),
        }
    }
}

/// What plans mean.
pub open spec fn plans_view(list: Seq<ClaimablePlan>) -> Seq<PlanV> {
    list.map_values(|p: ClaimablePlan| p@)
}

/// An integer entry, zero where there is none.
pub open spec fn int_or_zero(value: JsonV, key: Seq<char>) -> int {
    match value.field(key).as_int() {
        Some(n) => n,
        None => 0,
    }
}

/// The integer of an entry.
fn int_at(value: &Json, key: &str) -> (n: Option<i64>)
    ensures
        time::opt_time(n) == value@.field(key@).as_int(),
{
    match value.get(key) {
        Some(found) => found.as_int(),
        None => None,
    }
}

/// An integer entry, zero where there is none.
fn int_or(value: &Json, key: &str) -> (n: i64)
    ensures
        n == int_or_zero(value@, key@),
{
    match int_at(value, key) {
        Some(n) => n,
        None => 0,
    }
}

/// The grant in an item; one with neither a name nor an id is left out.
pub open spec fn entitlement_of(item: JsonV) -> Option<EntitlementV> {
    let named = trimmed_at(item, "show_name"@);
    let id = trimmed_at(item, "id"@);
    if named.len() == 0 && id.len() == 0 {
        None
    } else {
        Some(
            EntitlementV {
                show_name: if named.len() > 0 {
                    named
                } else {
                    id
                },
                unit_type: trimmed_at(item, "unit_type"@),
                grant_units: int_or_zero(item, "grant_units"@),
                effective_at: item.field("effective_at"@).as_int(),
            },
        )
    }
}

/// The grants in a list of items.
pub open spec fn entitlements_of(items: Seq<JsonV>) -> Seq<EntitlementV>
    decreases items.len(),
{
    if items.len() == 0 {
        Seq::empty()
    } else {
        match entitlement_of(items.last()) {
            Some(e) => entitlements_of(items.drop_last()).push(e),
            None => entitlements_of(items.drop_last()),
        }
    }
}

/// The items of an entry that is a list.
pub open spec fn items_at(value: JsonV, key: Seq<char>) -> Seq<JsonV> {
    match value.field(key).as_list() {
        Some(items) => items,
        None => Seq::empty(),
    }
}

/// The plan in an item; one without an id is left out.
pub open spec fn plan_of(raw: JsonV) -> Option<PlanV> {
    let plan_id = trimmed_at(raw, "plan_id"@);
    let name = trimmed_at(raw, "name"@);
    if plan_id.len() == 0 {
        None
    } else {
        Some(
            PlanV {
                plan_id,
                name: if name.len() > 0 {
                    name
                } else {
                    plan_id
                },
                description: trimmed_at(raw, "description"@),
                priority: int_or_zero(raw, "priority"@),
                starts_at: raw.field("starts_at"@).as_int(),
                ends_at: raw.field("ends_at"@).as_int(),
                entitlements: entitlements_of(items_at(raw, "entitlements"@)),
            },
        )
    }
}

/// The plans in a list of items.
pub open spec fn plans_of(items: Seq<JsonV>) -> Seq<PlanV>
    decreases items.len(),
{
    if items.len() == 0 {
        Seq::empty()
    } else {
        match plan_of(items.last()) {
            Some(p) => plans_of(items.drop_last()).push(p),
            None => plans_of(items.drop_last()),
        }
    }
}

/// The grant in an item.
fn parse_entitlement(item: &Json) -> (entitlement: Option<PlanEntitlement>)
    ensures
        match entitlement {
            Some(e) => entitlement_of(item@) == Some(e@),
            None => entitlement_of(item@) is None,
        },
{
    let named = trim_at(item, "show_name");
    let show_name = if named.as_str().is_empty() {
        trim_at(item, "id")
    } else {
        named
    };
    if show_name.as_str().is_empty() {
        return None;
    }
    Some(
        PlanEntitlement {
            show_name,
            unit_type: trim_at(item, "unit_type"),
            grant_units: int_or(item, "grant_units"),
            effective_at: int_at(item, "effective_at"),
        },
    )
}

/// The grants of a plan.
fn parse_entitlements(raw: &Json) -> (list: Vec<PlanEntitlement>)
    ensures
        entitlements_view(list@) == entitlements_of(items_at(raw@, "entitlements"@)),
{
    let mut list: Vec<PlanEntitlement> = Vec::new();
    assert(entitlements_view(list@) =~= Seq::empty());
    let items = match raw.list_at("entitlements") {
        Some(items) => items,
        None => return list,
    };
    let ghost all = json::list_view(items@);
    let mut i: usize = 0;
    assert(all.take(0) =~= Seq::empty());
    while i < items.len()
        invariant
            all == json::list_view(items@),
            i <= items.len(),
            entitlements_view(list@) == entitlements_of(all.take(i as int)),
        decreases items.len() - i,
    {
        let ghost before = list@;
        assert(all.take(i as int + 1).drop_last() =~= all.take(i as int));
        assert(all.take(i as int + 1).last() == items@[i as int]@);
        if let Some(entitlement) = parse_entitlement(&items[i]) {
            list.push(entitlement);
            assert(entitlements_view(list@) =~= entitlements_view(before).push(entitlement@));
        }
        i += 1;
    }
    assert(all.take(all.len() as int) =~= all);
    list
}

/// The plan in an item.
fn parse_plan(raw: &Json) -> (plan: Option<ClaimablePlan>)
    ensures
        match plan {
            Some(p) => plan_of(raw@) == Some(p@),
            None => plan_of(raw@) is None,
        },
{
    let plan_id = trim_at(raw, "plan_id");
    if plan_id.as_str().is_empty() {
        return None;
    }
    let named = trim_at(raw, "name");
    let name = if named.as_str().is_empty() {
        text::owned(plan_id.as_str())
    } else {
        named
    };
    Some(
        ClaimablePlan {
            plan_id,
            name,
            description: trim_at(raw, "description"),
            priority: int_or(raw, "priority"),
            starts_at: int_at(raw, "starts_at"),
            ends_at: int_at(raw, "ends_at"),
            entitlements: parse_entitlements(raw),
        },
    )
}

/// The plans of an answer.
fn parse_plans(data: &Json) -> (list: Vec<ClaimablePlan>)
    ensures
        plans_view(list@) == plans_of(items_at(data@, "plans"@)),
{
    let mut list: Vec<ClaimablePlan> = Vec::new();
    assert(plans_view(list@) =~= Seq::empty());
    let items = match data.list_at("plans") {
        Some(items) => items,
        None => return list,
    };
    let ghost all = json::list_view(items@);
    let mut i: usize = 0;
    assert(all.take(0) =~= Seq::empty());
    while i < items.len()
        invariant
            all == json::list_view(items@),
            i <= items.len(),
            plans_view(list@) == plans_of(all.take(i as int)),
        decreases items.len() - i,
    {
        let ghost before = list@;
        assert(all.take(i as int + 1).drop_last() =~= all.take(i as int));
        assert(all.take(i as int + 1).last() == items@[i as int]@);
        if let Some(plan) = parse_plan(&items[i]) {
            list.push(plan);
            assert(plans_view(list@) =~= plans_view(before).push(plan@));
        }
        i += 1;
    }
    assert(all.take(all.len() as int) =~= all);
    list
}

/// What came of asking for plans.
#[derive(Debug)]
pub enum PreviewOutcome {
    /// The plans that can be claimed, perhaps none.
    Plans(Vec<ClaimablePlan>),
    /// The service is not there yet: nothing is wrong before it begins.
    NotDeployed,
}

/// What such an outcome means.
pub ghost enum PreviewV {
    Plans(Seq<PlanV>),
    NotDeployed,
}

impl View for PreviewOutcome {
    type V = PreviewV;

    open spec fn view(&self) -> PreviewV {
        match self {
            PreviewOutcome::Plans(list) => PreviewV::Plans(plans_view(list@)),
            PreviewOutcome::NotDeployed => PreviewV::NotDeployed,
        }
    }
}

/// What an outcome or a failure means.
pub open spec fn preview_view(outcome: Result<PreviewOutcome, GatewayError>) -> Result<
    PreviewV,
    ErrorV,
> {
    match outcome {
        Ok(o) => Ok(o@),
        Err(e) => Err(e@),
    }
}

/// The headers of asking for plans: none for someone unknown.
pub open spec fn preview_headers(jwt: Seq<char>, device_mid: Option<Seq<char>>) -> Seq<
    (Seq<char>, Seq<char>),
> {
    let login = if text::trimmed(jwt).len() > 0 {
        Seq::empty().push(("Authorization"@, "Bearer "@ + text::trimmed(jwt)))
    } else {
        Seq::empty()
    };
    match filled(device_mid) {
        Some(mid) => login.push(("X-Device-Mid"@, mid)),
        None => login,
    }
}

/// Adds the header of a login.
fn push_bearer(headers: &mut Vec<(String, String)>, token: &str)
    ensures
        urls::pairs_view(final(headers)@) == urls::pairs_view(old(headers)@).push(
            ("Authorization"@, "Bearer "@ + token@),
        ),
{
    let mut bearer = text::owned("Bearer ");
    bearer.append(token);
    urls::push_pair(headers, "Authorization", bearer.as_str());
}

/// The call that asks for the plans that can be claimed.
pub fn preview_request(
    region: Region,
    jwt: &str,
    device_mid: Option<&str>,
    version: &str,
    platform: &str,
) -> (request: ApiRequest)
    ensures
        request@ == (RequestV {
            method: "GET"@,
            url: told_address(region, PREVIEW_PATH@, version@, platform@),
            headers: preview_headers(jwt@, json::opt_text(device_mid)),
            body: None,
        }),
{
    let mut headers = urls::no_pairs();
    let token = text::trim(jwt);
    if !token.is_empty() {
        push_bearer(&mut headers, token);
    }
    if let Some(mid) = fill(device_mid) {
        urls::push_pair(&mut headers, "X-Device-Mid", mid);
    }
    ApiRequest {
        method: "GET",
        url: told(region, PREVIEW_PATH, version, platform),
        headers,
        body: None,
    }
}

/// What an answer says of a failure.
pub open spec fn failure_said(payload: JsonV, status: u16) -> Seq<char> {
    if trimmed_at(payload, "msg"@).len() > 0 {
        trimmed_at(payload, "msg"@)
    } else if trimmed_at(payload, "message"@).len() > 0 {
        trimmed_at(payload, "message"@)
    } else {
        "HTTP "@ + text::decimal(status as nat)
    }
}

/// What an answer says of a failure.
fn error_message(payload: &Json, status: u16) -> (message: String)
    ensures
        message@ == failure_said(payload@, status),
{
    let msg = trim_at(payload, "msg");
    if !msg.as_str().is_empty() {
        return msg;
    }
    let message = trim_at(payload, "message");
    if !message.as_str().is_empty() {
        return message;
    }
    let mut shown = text::owned("HTTP ");
    shown.append(text::decimal_text(status as u64).as_str());
    shown
}

/// Whether a status is one of success.
pub open spec fn is_success(status: u16) -> bool {
    200 <= status < 300
}

/// What came of asking for plans.
pub open spec fn previewed(response: ResponseV) -> Result<PreviewV, ErrorV> {
    if response.status == 404 {
        Ok(PreviewV::NotDeployed)
    } else if response.status == 401 {
        errors::fail(401, "登录态已失效，无法探测套餐"@)
    } else {
        match response.payload {
            None => errors::fail(502, "套餐探测：上游响应不是 JSON"@),
            Some(payload) => {
                let code = int_or_zero(payload, "code"@);
                if is_success(response.status) && code == 0 && payload.get("data"@) is Some {
                    Ok(PreviewV::Plans(plans_of(items_at(payload.field("data"@), "plans"@))))
                } else {
                    errors::fail(
                        502,
                        "套餐探测失败（"@ + text::decimal_int(code) + "）："@ + failure_said(
                            payload,
                            response.status,
                        ),
                    )
                }
            },
        }
    }
}

/// What came of asking for plans.
pub fn preview(response: ApiResponse) -> (outcome: Result<PreviewOutcome, GatewayError>)
    ensures
        preview_view(outcome) == previewed(response@),
{
    let status = response.status;
    if status == 404 {
        return Ok(PreviewOutcome::NotDeployed);
    }
    if status == 401 {
        return Err(GatewayError::with_status(401, "登录态已失效，无法探测套餐"));
    }
    let payload = match response.payload {
        Some(payload) => payload,
        None => return Err(GatewayError::with_status(502, "套餐探测：上游响应不是 JSON")),
    };
    let code = int_or(&payload, "code");
    if 200 <= status && status < 300 && code == 0 {
        if let Some(data) = payload.get("data") {
            return Ok(PreviewOutcome::Plans(parse_plans(data)));
        }
    }
    let mut message = text::owned("套餐探测失败（");
    message.append(text::signed_text(code).as_str());
    message.append("）：");
    message.append(error_message(&payload, status).as_str());
    Err(GatewayError::with_status(502, message.as_str()))
}

/// Why a claim failed.
#[derive(Debug, Clone, Copy, PartialEq, Eq, Structural)]
pub enum ClaimFailure {
    /// There is no such plan.
    NotFound,
    /// The plan is over or has not begun.
    Unavailable,
    /// The account has the plan.
    AlreadyClaimed,
    /// The account or the client may not have it.
    Ineligible,
    /// No more are given away today.
    QuotaExhausted,
    /// The request lacks something.
    InvalidRequest,
    /// The puzzle was not solved.
    Captcha,
    /// The login has ended.
    LoginRequired,
    HttpError,
    Unknown,
}

impl ClaimFailure {
    /// The failure for people.
    pub fn label(self) -> (label: &'static str)
        ensures
            label@ == match self {
                ClaimFailure::NotFound => "套餐不存在"@,
                ClaimFailure::Unavailable => "活动已结束或尚未开始"@,
                ClaimFailure::AlreadyClaimed => "该账号已领取过"@,
                ClaimFailure::Ineligible => "账号或客户端版本不符合活动资格"@,
                ClaimFailure::QuotaExhausted => "当日领取额度已用尽"@,
                ClaimFailure::InvalidRequest => "参数错误（常见成因：缺少设备标识）"@,
                ClaimFailure::Captcha => "验证码校验未通过"@,
                ClaimFailure::LoginRequired => "登录态已失效，请重新登录"@,
                ClaimFailure::HttpError => "上游 HTTP 错误"@,
                ClaimFailure::Unknown => "未知失败"@,
            },
    {
        match self {
            ClaimFailure::NotFound => "套餐不存在",
            ClaimFailure::Unavailable => "活动已结束或尚未开始",
            ClaimFailure::AlreadyClaimed => "该账号已领取过",
            ClaimFailure::Ineligible => "账号或客户端版本不符合活动资格",
            ClaimFailure::QuotaExhausted => "当日领取额度已用尽",
            ClaimFailure::InvalidRequest => "参数错误（常见成因：缺少设备标识）",
            ClaimFailure::Captcha => "验证码校验未通过",
            ClaimFailure::LoginRequired => "登录态已失效，请重新登录",
            ClaimFailure::HttpError => "上游 HTTP 错误",
            ClaimFailure::Unknown => "未知失败",
        }
    }

    /// The failure that a code of the upstream stands for.
    pub open spec fn of_code(code: int) -> ClaimFailure {
        if code == 1001 {
            ClaimFailure::NotFound
        } else if code == 1002 {
            ClaimFailure::Unavailable
        } else if code == 1003 {
            ClaimFailure::AlreadyClaimed
        } else if code == 1004 {
            ClaimFailure::Ineligible
        } else if code == 1005 {
            ClaimFailure::QuotaExhausted
        } else if code == 3001 {
            ClaimFailure::InvalidRequest
        } else if code == 3007 {
            ClaimFailure::Captcha
        } else if code == 401 {
            ClaimFailure::LoginRequired
        } else {
            ClaimFailure::Unknown
        }
    }

    /// The failure that a code of the upstream stands for.
    pub fn from_code(code: i64) -> (failure: Self)
        ensures
            failure == Self::of_code(code as int),
    {
        match code {
            1001 => ClaimFailure::NotFound,
            1002 => ClaimFailure::Unavailable,
            1003 => ClaimFailure::AlreadyClaimed,
            1004 => ClaimFailure::Ineligible,
            1005 => ClaimFailure::QuotaExhausted,
            3001 => ClaimFailure::InvalidRequest,
            3007 => ClaimFailure::Captcha,
            401 => ClaimFailure::LoginRequired,
            _ => ClaimFailure::Unknown,
        }
    }
}

/// What came of a claim.
#[derive(Debug)]
pub enum ClaimOutcome {
    /// The account has the plan, from when and until when in seconds.
    Claimed { plan_id: String, starts_at: Option<i64>, ends_at: Option<i64> },
    /// The claim was refused.
    Failed {
        plan_id: String,
        failure: ClaimFailure,
        code: i64,
        message: String,
        /// When the next window is, in seconds.
        failure_ends_at: Option<i64>,
    },
}

/// What such an outcome means.
pub ghost enum ClaimV {
    Claimed { plan_id: Seq<char>, starts_at: Option<int>, ends_at: Option<int> },
    Failed {
        plan_id: Seq<char>,
        failure: ClaimFailure,
        code: int,
        message: Seq<char>,
        failure_ends_at: Option<int>,
    },
}

impl View for ClaimOutcome {
    type V = ClaimV;

    open spec fn view(&self) -> ClaimV {
        match self {
            ClaimOutcome::Claimed { plan_id, starts_at, ends_at } => ClaimV::Claimed {
                plan_id: plan_id@,
                starts_at: time::opt_time(*starts_at),
                ends_at: time::opt_time(*ends_at),
            },
            ClaimOutcome::Failed { plan_id, failure, code, message, failure_ends_at } =>
                ClaimV::Failed {
                plan_id: plan_id@,
                failure: *failure,
                code: *code as int,
                message: message@,
                failure_ends_at: time::opt_time(*failure_ends_at),
            },
        }
    }
}

/// What an outcome or a failure to reach the upstream means.
pub open spec fn claim_view(outcome: Result<ClaimOutcome, GatewayError>) -> Result<ClaimV, ErrorV> {
    match outcome {
        Ok(o) => Ok(o@),
        Err(e) => Err(e@),
    }
}

/// When to try again, in seconds.
#[derive(Debug, Clone, Copy, PartialEq, Eq, Structural)]
pub enum NextAttempt {
    /// The account has what it can have until then.
    HoldUntil(i64),
    /// The next window is then.
    WaitWindow(i64),
    /// After the usual pause.
    Cooldown,
}

/// What says when to try again.
pub ghost enum AttemptV {
    HoldUntil(int),
    WaitWindow(int),
    Cooldown,
}

impl View for NextAttempt {
    type V = AttemptV;

    open spec fn view(&self) -> AttemptV {
        match self {
            NextAttempt::HoldUntil(at) => AttemptV::HoldUntil(*at as int),
            NextAttempt::WaitWindow(at) => AttemptV::WaitWindow(*at as int),
            NextAttempt::Cooldown => AttemptV::Cooldown,
        }
    }
}

/// A time, zero where there is none.
pub open spec fn time_or_zero(at: Option<int>) -> int {
    match at {
        Some(t) => t,
        None => 0,
    }
}

/// When to try again after a claim.
pub open spec fn attempt_after(outcome: ClaimV) -> AttemptV {
    match outcome {
        ClaimV::Claimed { plan_id, starts_at, ends_at } => AttemptV::HoldUntil(
            time_or_zero(ends_at),
        ),
        ClaimV::Failed { plan_id, failure, code, message, failure_ends_at } => {
            if failure == ClaimFailure::AlreadyClaimed {
                AttemptV::HoldUntil(time_or_zero(failure_ends_at))
            } else if failure == ClaimFailure::QuotaExhausted && failure_ends_at is Some {
                AttemptV::WaitWindow(failure_ends_at.unwrap())
            } else {
                AttemptV::Cooldown
            }
        },
    }
}

/// When to try again after a claim.
pub fn outcome_hold(outcome: &ClaimOutcome) -> (next: NextAttempt)
    ensures
        next@ == attempt_after(outcome@),
{
    match outcome {
        ClaimOutcome::Claimed { ends_at, .. } => match ends_at {
            Some(at) => NextAttempt::HoldUntil(*at),
            None => NextAttempt::HoldUntil(0),
        },
        ClaimOutcome::Failed { failure, failure_ends_at, .. } => match failure {
            ClaimFailure::AlreadyClaimed => match failure_ends_at {
                Some(at) => NextAttempt::HoldUntil(*at),
                None => NextAttempt::HoldUntil(0),
            },
            ClaimFailure::QuotaExhausted => match failure_ends_at {
                Some(at) => NextAttempt::WaitWindow(*at),
                None => NextAttempt::Cooldown,
            },
            _ => NextAttempt::Cooldown,
        },
    }
}

/// What a claim begins with.
#[derive(Debug)]
pub enum ClaimStart {
    /// There is no login: nothing is sent.
    Refused(ClaimOutcome),
    Send(ApiRequest),
}

/// The headers of a claim. What solved the puzzle goes along only where there is
/// something: an empty solution would count as a wrong one.
pub open spec fn claim_headers(
    jwt: Seq<char>,
    solution: Seq<char>,
    puzzle_region: Option<Seq<char>>,
    device_mid: Option<Seq<char>>,
    version: Seq<char>,
    platform: Seq<char>,
) -> Seq<(Seq<char>, Seq<char>)> {
    let login = Seq::empty().push(("Authorization"@, "Bearer "@ + text::trimmed(jwt))).push(
        ("Content-Type"@, "application/json"@),
    );
    let solved = match filled(Some(solution)) {
        Some(s) => login.push(("X-Aliyun-Captcha-Verify-Param"@, s)),
        None => login,
    };
    let placed = match filled(puzzle_region) {
        Some(s) => solved.push(("X-Aliyun-Captcha-Verify-Region"@, s)),
        None => solved,
    };
    let client = placed.push(("X-ZCode-App-Version"@, version)).push(("X-Platform"@, platform));
    match filled(device_mid) {
        Some(mid) => client.push(("X-Device-Mid"@, mid)),
        None => client,
    }
}

/// The call that claims a plan, or what comes of it without a login.
pub fn claim_request(
    region: Region,
    jwt: &str,
    plan_id: &str,
    captcha_verify_param: &str,
    captcha_region: Option<&str>,
    device_mid: Option<&str>,
    version: &str,
    platform: &str,
) -> (start: ClaimStart)
    ensures
        match start {
            ClaimStart::Refused(outcome) => text::trimmed(jwt@).len() == 0 && outcome@
                == (ClaimV::Failed {
                plan_id: plan_id@,
                failure: ClaimFailure::LoginRequired,
                code: 401,
                message: "领取需要登录态（本账号没有 ZCode JWT）"@,
                failure_ends_at: None,
            }),
            ClaimStart::Send(request) => text::trimmed(jwt@).len() > 0 && request@ == (RequestV {
                method: "POST"@,
                url: region.spec_zcode_origin() + CLAIM_PATH@,
                headers: claim_headers(
                    jwt@,
                    captcha_verify_param@,
                    json::opt_text(captcha_region),
                    json::opt_text(device_mid),
                    version@,
                    platform@,
                ),
                body: Some(JsonV::object().put("plan_id"@, JsonV::Str(plan_id@))),
            }),
        },
{
    let token = text::trim(jwt);
    if token.is_empty() {
        return ClaimStart::Refused(
            ClaimOutcome::Failed {
                plan_id: text::owned(plan_id),
                failure: ClaimFailure::LoginRequired,
                code: 401,
                message: text::owned("领取需要登录态（本账号没有 ZCode JWT）"),
                failure_ends_at: None,
            },
        );
    }
    let mut url = text::owned(region.zcode_origin());
    url.append(CLAIM_PATH);
    let mut headers = urls::no_pairs();
    push_bearer(&mut headers, token);
    urls::push_pair(&mut headers, "Content-Type", "application/json");
    if let Some(param) = fill(Some(captcha_verify_param)) {
        urls::push_pair(&mut headers, "X-Aliyun-Captcha-Verify-Param", param);
    }
    if let Some(value) = fill(captcha_region) {
        urls::push_pair(&mut headers, "X-Aliyun-Captcha-Verify-Region", value);
    }
    urls::push_pair(&mut headers, "X-ZCode-App-Version", version);
    urls::push_pair(&mut headers, "X-Platform", platform);
    if let Some(mid) = fill(device_mid) {
        urls::push_pair(&mut headers, "X-Device-Mid", mid);
    }
    let mut body = Json::object();
    body.put("plan_id", Json::text(plan_id));
    ClaimStart::Send(ApiRequest { method: "POST", url, headers, body: Some(body) })
}

/// What came of a claim. It is an error only where the upstream gave no answer
/// that can be read: a refusal is an outcome.
pub open spec fn claimed(plan_id: Seq<char>, response: ResponseV) -> Result<ClaimV, ErrorV> {
    match response.payload {
        None => errors::fail(502, "套餐领取：上游响应不是 JSON"@),
        Some(payload) => {
            let code = payload.field("code"@).as_int();
            let plan = payload.at("data"@, "plan"@);
            let ends_at = match plan {
                Some(p) => p.field("ends_at"@).as_int(),
                None => None,
            };
            if is_success(response.status) && code == Some(0int) && plan is Some {
                Ok(
                    ClaimV::Claimed {
                        plan_id,
                        starts_at: plan.unwrap().field("starts_at"@).as_int(),
                        ends_at,
                    },
                )
            } else {
                Ok(
                    ClaimV::Failed {
                        plan_id,
                        failure: match code {
                            Some(code) => ClaimFailure::of_code(code),
                            None => if response.status == 401 {
                                ClaimFailure::LoginRequired
                            } else {
                                ClaimFailure::HttpError
                            },
                        },
                        code: match code {
                            Some(code) => code,
                            None => response.status as int,
                        },
                        message: failure_said(payload, response.status),
                        failure_ends_at: ends_at,
                    },
                )
            }
        },
    }
}

/// What came of a claim.
pub fn claim(plan_id: &str, response: ApiResponse) -> (outcome: Result<ClaimOutcome, GatewayError>)
    ensures
        claim_view(outcome) == claimed(plan_id@, response@),
{
    let status = response.status;
    let payload = match response.payload {
        Some(payload) => payload,
        None => return Err(GatewayError::with_status(502, "套餐领取：上游响应不是 JSON")),
    };
    let biz_code = int_at(&payload, "code");
    let plan = payload.at("data", "plan");
    let ends_at = match plan {
        Some(plan) => int_at(plan, "ends_at"),
        None => None,
    };
    let known: i64 = match biz_code {
        Some(code) => code,
        None => -1,
    };
    if 200 <= status && status < 300 && known == 0 {
        if let Some(plan) = plan {
            return Ok(
                ClaimOutcome::Claimed {
                    plan_id: text::owned(plan_id),
                    starts_at: int_at(plan, "starts_at"),
                    ends_at,
                },
            );
        }
    }
    let failure = match biz_code {
        Some(code) => ClaimFailure::from_code(code),
        None => if status == 401 {
            ClaimFailure::LoginRequired
        } else {
            ClaimFailure::HttpError
        },
    };
    let code: i64 = match biz_code {
        Some(code) => code,
        None => status as i64,
    };
    Ok(
        ClaimOutcome::Failed {
            plan_id: text::owned(plan_id),
            failure,
            code,
            message: error_message(&payload, status),
            failure_ends_at: ends_at,
        },
    )
}

/// Whether a plan is the one to claim: the first of the wanted id, or, where none
/// is wanted, the first of the highest priority.
pub open spec fn is_target(plans: Seq<PlanV>, wanted: Seq<char>, i: int) -> bool {
    &&& 0 <= i < plans.len()
    &&& if wanted.len() > 0 {
        plans[i].plan_id == wanted && forall|j: int|
            0 <= j < i ==> (#[trigger] plans[j]).plan_id != wanted
    } else {
        (forall|j: int| 0 <= j < plans.len() ==> (#[trigger] plans[j]).priority <= plans[i].priority)
            && forall|j: int| 0 <= j < i ==> (#[trigger] plans[j]).priority < plans[i].priority
    }
}

/// The plan to claim: the one that is wanted, or, where none is, the first of
/// those with the highest priority.
pub fn pick_target<'a>(plans: &'a [ClaimablePlan], plan_id: &str) -> (target: Option<
    &'a ClaimablePlan,
>)
    ensures
        match target {
            Some(p) => exists|i: int| #[trigger]
                is_target(plans_view(plans@), text::trimmed(plan_id@), i) && *p == plans@[i],
            None => forall|i: int| !#[trigger]
                is_target(plans_view(plans@), text::trimmed(plan_id@), i),
        },
{
    let wanted = text::trim(plan_id);
    let ghost all = plans_view(plans@);
    assert(forall|j: int| 0 <= j < plans@.len() ==> all[j] == (#[trigger] plans@[j])@);
    if !wanted.is_empty() {
        let mut i: usize = 0;
        while i < plans.len()
            invariant
                wanted@ == text::trimmed(plan_id@),
                wanted@.len() > 0,
                all == plans_view(plans@),
                all.len() == plans@.len(),
                i <= plans.len(),
                forall|j: int| 0 <= j < i ==> (#[trigger] all[j]).plan_id != wanted@,
            decreases plans.len() - i,
        {
            assert(all[i as int] == plans@[i as int]@);
            if text::same(plans[i].plan_id.as_str(), wanted) {
                assert(is_target(all, wanted@, i as int));
                return Some(&plans[i]);
            }
            i += 1;
        }
        return None;
    }
    if plans.len() == 0 {
        return None;
    }
    let mut best: usize = 0;
    let mut i: usize = 1;
    while i < plans.len()
        invariant
            all == plans_view(plans@),
            all.len() == plans@.len(),
            best < i <= plans.len(),
            forall|j: int| 0 <= j < i ==> (#[trigger] all[j]).priority <= all[best as int].priority,
            forall|j: int|
                0 <= j < best ==> (#[trigger] all[j]).priority < all[best as int].priority,
        decreases plans.len() - i,
    {
        assert(all[i as int] == plans@[i as int]@);
        assert(all[best as int] == plans@[best as int]@);
        if plans[i].priority > plans[best].priority {
            best = i;
        }
        i += 1;
    }
    assert(is_target(all, wanted@, best as int));
    Some(&plans[best])
}

/// With no plan wanted there is one to claim wherever there is a plan at all.
pub proof fn some_plan_is_the_target(plans: Seq<PlanV>)
    requires
        plans.len() > 0,
    ensures
        exists|i: int| is_target(plans, Seq::empty(), i),
    decreases plans.len(),
{
    let none = Seq::<char>::empty();
    if plans.len() == 1 {
        assert(is_target(plans, none, 0));
    } else {
        let before = plans.drop_last();
        some_plan_is_the_target(before);
        let b = choose|i: int| is_target(before, none, i);
        let last = plans.len() - 1;
        assert(forall|j: int| 0 <= j < last ==> #[trigger] plans[j] == before[j]);
        if plans[last].priority > plans[b].priority {
            assert(is_target(plans, none, last));
        } else {
            assert(is_target(plans, none, b));
        }
    }
}

/// There is one plan to claim at most.
pub proof fn targets_are_unique(plans: Seq<PlanV>, wanted: Seq<char>, i: int, j: int)
    requires
        is_target(plans, wanted, i),
        is_target(plans, wanted, j),
    ensures
        i == j,
{
    if i < j {
        assert(plans[i].plan_id != wanted || wanted.len() == 0);
        assert(plans[i].priority <= plans[j].priority || wanted.len() > 0);
    } else if j < i {
        assert(plans[j].plan_id != wanted || wanted.len() == 0);
        assert(plans[j].priority <= plans[i].priority || wanted.len() > 0);
    }
}

/// An account rests exactly when it has the plan, be it by this claim or by an
/// earlier one; a refusal for any other reason is never taken for having it.
pub proof fn only_owners_rest(plan_id: Seq<char>, response: ResponseV)
    requires
        claimed(plan_id, response) is Ok,
    ensures
        attempt_after(claimed(plan_id, response)->Ok_0) is HoldUntil <==> (claimed(
            plan_id,
            response,
        )->Ok_0 is Claimed || response.payload.unwrap().field("code"@).as_int() == Some(1003int)),
{
}

/// What stands for a text in a query holds nothing that ends a value: no `&`,
/// no `#`, no `=`, no `?` and no space.
pub proof fn encoded_values_stay_whole(s: Seq<char>, i: int)
    requires
        0 <= i < encoded(s).len(),
    ensures
        encoded(s)[i] != '&',
        encoded(s)[i] != '#',
        encoded(s)[i] != '=',
        encoded(s)[i] != '?',
        encoded(s)[i] != ' ',
{
    lemma_escaped(encode_utf8(s), i);
}

proof fn lemma_escaped(bytes: Seq<u8>, i: int)
    requires
        0 <= i < escaped_all(bytes).len(),
    ensures
        ({
            let c = escaped_all(bytes)[i];
            c != '&' && c != '#' && c != '=' && c != '?' && c != ' '
        }),
    decreases bytes.len(),
{
    if bytes.len() > 0 {
        let before = escaped_all(bytes.drop_last());
        let b = bytes.last();
        if i < before.len() {
            lemma_escaped(bytes.drop_last(), i);
        } else {
            assert(escaped_all(bytes)[i] == escaped(b)[i - before.len()]);
            assert(0 <= b as int / 16 < 16 && 0 <= b as int % 16 < 16);
        }
    }
}

} // verus!
