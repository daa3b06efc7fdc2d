//! What the plans of ZCode come to: what can be claimed, what was claimed, and when
//! to try again.
use super::claim;
use super::claim::{
    attempt_after, captcha_in, claim_headers, claimed, encoded, entitlement_of, escaped,
    escaped_all, plan_of, plans_of, preview_headers, previewed, told_address, AttemptV,
    ClaimFailure, ClaimV, PreviewV,
};
use super::region::Region;
use crate::errors::ErrorV;
use crate::http::ResponseV;
use crate::json::JsonV;
use crate::text;
use vstd::prelude::*;
use vstd::string::*;

verus! {

/// The words tell one another apart.
proof fn lemma_words()
    ensures
        "id"@.len() == 2,
        "msg"@.len() == 3,
        "code"@.len() == 4,
        "data"@.len() == 4,
        "name"@.len() == 4,
        "plan"@.len() == 4,
        "code"@[0] == 'c',
        "data"@[0] == 'd',
        "name"@[0] == 'n',
        "plan"@[0] == 'p',
        "plans"@.len() == 5,
        "prefix"@.len() == 6,
        "region"@.len() == 6,
        "prefix"@[0] == 'p',
        "region"@[0] == 'r',
        "captcha"@.len() == 7,
        "configs"@.len() == 7,
        "enabled"@.len() == 7,
        "ends_at"@.len() == 7,
        "message"@.len() == 7,
        "plan_id"@.len() == 7,
        "sceneId"@.len() == 7,
        "captcha"@[0] == 'c',
        "captcha"@[1] == 'a',
        "captcha"@[2] == 'p',
        "configs"@[0] == 'c',
        "configs"@[1] == 'o',
        "configs"@[2] == 'n',
        "enabled"@[0] == 'e',
        "enabled"@[1] == 'n',
        "enabled"@[2] == 'a',
        "ends_at"@[0] == 'e',
        "ends_at"@[1] == 'n',
        "ends_at"@[2] == 'd',
        "message"@[0] == 'm',
        "message"@[1] == 'e',
        "message"@[2] == 's',
        "plan_id"@[0] == 'p',
        "plan_id"@[1] == 'l',
        "plan_id"@[2] == 'a',
        "sceneId"@[0] == 's',
        "sceneId"@[1] == 'c',
        "sceneId"@[2] == 'e',
        "priority"@.len() == 8,
        "show_name"@.len() == 9,
        "starts_at"@.len() == 9,
        "unit_type"@.len() == 9,
        "show_name"@[0] == 's',
        "show_name"@[1] == 'h',
        "starts_at"@[0] == 's',
        "starts_at"@[1] == 't',
        "unit_type"@[0] == 'u',
        "unit_type"@[1] == 'n',
        "description"@.len() == 11,
        "grant_units"@.len() == 11,
        "description"@[0] == 'd',
        "grant_units"@[0] == 'g',
        "effective_at"@.len() == 12,
        "entitlements"@.len() == 12,
        "effective_at"@[1] == 'f',
        "entitlements"@[1] == 'n',
{
    reveal_strlit("id");
    reveal_strlit("msg");
    reveal_strlit("code");
    reveal_strlit("data");
    reveal_strlit("name");
    reveal_strlit("plan");
    reveal_strlit("plans");
    reveal_strlit("prefix");
    reveal_strlit("region");
    reveal_strlit("captcha");
    reveal_strlit("configs");
    reveal_strlit("enabled");
    reveal_strlit("ends_at");
    reveal_strlit("message");
    reveal_strlit("plan_id");
    reveal_strlit("sceneId");
    reveal_strlit("priority");
    reveal_strlit("show_name");
    reveal_strlit("starts_at");
    reveal_strlit("unit_type");
    reveal_strlit("description");
    reveal_strlit("grant_units");
    reveal_strlit("effective_at");
    reveal_strlit("entitlements");
}

/// A plan is read as the service states it: its id, its name, how much it matters,
/// and from when until when it runs. One without an id is none.
pub proof fn plans_are_read(raw: JsonV, id: Seq<char>, s: Seq<char>, n: int)
    requires
        raw.get("plan_id"@) == Some(JsonV::Str(id)),
        text::trimmed(id).len() > 0,
        i64::MIN <= n <= i64::MAX,
    ensures
        ({
            &&& plan_of(raw) matches Some(plan)
            &&& plan.plan_id == text::trimmed(id)
            &&& raw.get("name"@) == Some(JsonV::Str(s)) && text::trimmed(s).len() > 0 ==> plan.name
                == text::trimmed(s)
            &&& raw.get("name"@) is None ==> plan.name == text::trimmed(id)
            &&& raw.get("description"@) == Some(JsonV::Str(s)) ==> plan.description
                == text::trimmed(s)
            &&& raw.get("priority"@) == Some(JsonV::Int(n)) ==> plan.priority == n
            &&& raw.get("priority"@) is None ==> plan.priority == 0
            &&& raw.get("starts_at"@) == Some(JsonV::Int(n)) ==> plan.starts_at == Some(n)
            &&& raw.get("starts_at"@) is None ==> plan.starts_at is None
            &&& raw.get("ends_at"@) == Some(JsonV::Int(n)) ==> plan.ends_at == Some(n)
            &&& raw.get("ends_at"@) is None ==> plan.ends_at is None
        }),
        plan_of(JsonV::object()) is None,
{
    lemma_words();
    text::lemma_trimmed(Seq::empty());
}

/// What a plan grants is read as the service states it: by its name, else by its
/// id, in its unit, how much, and from when on.
pub proof fn grants_are_read(item: JsonV, s: Seq<char>, n: int)
    requires
        text::trimmed(s).len() > 0,
        i64::MIN <= n <= i64::MAX,
    ensures
        item.get("show_name"@) == Some(JsonV::Str(s)) ==> {
            &&& entitlement_of(item) matches Some(grant)
            &&& grant.show_name == text::trimmed(s)
        },
        item.get("show_name"@) is None && item.get("id"@) == Some(JsonV::Str(s)) ==> {
            &&& entitlement_of(item) matches Some(grant)
            &&& grant.show_name == text::trimmed(s)
        },
        item.get("show_name"@) is None && item.get("id"@) is None ==> entitlement_of(item) is None,
        entitlement_of(item) matches Some(grant) ==> {
            &&& item.get("unit_type"@) == Some(JsonV::Str(s)) ==> grant.unit_type == text::trimmed(
                s,
            )
            &&& item.get("grant_units"@) == Some(JsonV::Int(n)) ==> grant.grant_units == n
            &&& item.get("grant_units"@) is None ==> grant.grant_units == 0
            &&& item.get("effective_at"@) == Some(JsonV::Int(n)) ==> grant.effective_at == Some(n)
            &&& item.get("effective_at"@) is None ==> grant.effective_at is None
        },
{
    lemma_words();
}

/// Every plan of a list is read, in its order, with all that it grants.
pub proof fn every_plan_is_read(items: Seq<JsonV>, raw: JsonV, grants: Seq<JsonV>, grant: JsonV)
    ensures
        plan_of(raw) matches Some(plan) ==> plans_of(items.push(raw)) == plans_of(items).push(plan),
        plan_of(raw) is None ==> plans_of(items.push(raw)) == plans_of(items),
        entitlement_of(grant) matches Some(e) ==> claim::entitlements_of(grants.push(grant))
            == claim::entitlements_of(grants).push(e),
        entitlement_of(grant) is None ==> claim::entitlements_of(grants.push(grant))
            == claim::entitlements_of(grants),
        raw.get("entitlements"@) == Some(JsonV::Arr(grants)) ==> (plan_of(raw) matches Some(plan)
            ==> plan.entitlements == claim::entitlements_of(grants)),
{
    assert(items.push(raw).drop_last() =~= items);
    assert(grants.push(grant).drop_last() =~= grants);
}

/// What there is to claim: the plans of an answer that succeeds, nothing to worry
/// about where the service is not there yet, and else why it could not be told.
pub proof fn previews_are_told(
    response: ResponseV,
    payload: JsonV,
    plans: Seq<JsonV>,
    code: int,
    s: Seq<char>,
)
    requires
        response.payload == Some(payload),
        i64::MIN <= code <= i64::MAX,
        text::trimmed(s).len() > 0,
    ensures
        response.status == 404 ==> previewed(response) == Ok::<_, ErrorV>(PreviewV::NotDeployed),
        response.status == 401 ==> (previewed(response) matches Err(e) && e.status == 401),
        200 <= response.status < 300 && (payload.get("code"@) is None || payload.get("code"@)
            == Some(JsonV::Int(0))) && payload.at("data"@, "plans"@) == Some(JsonV::Arr(plans))
            ==> previewed(response) == Ok::<_, ErrorV>(PreviewV::Plans(plans_of(plans))),
        response.status != 404 && response.status != 401 && payload.get("code"@) == Some(
            JsonV::Int(code),
        ) && code != 0 ==> (previewed(response) matches Err(e) && e.status == 502 && text::has_part(
            e.message,
            text::decimal_int(code),
        ) && (payload.get("msg"@) == Some(JsonV::Str(s)) ==> text::has_part(
            e.message,
            text::trimmed(s),
        ))),
{
    lemma_words();
    let said = claim::failure_said(payload, response.status);
    let number = text::decimal_int(claim::int_or_zero(payload, "code"@));
    let whole = "套餐探测失败（"@ + number + "）："@ + said;
    assert(whole =~= "套餐探测失败（"@ + number + ("）："@ + said));
    text::lemma_has_part("套餐探测失败（"@, number, "）："@ + said);
    text::lemma_has_part("套餐探测失败（"@ + number + "）："@, said, Seq::empty());
}

/// A claim that succeeds gives the plan that was asked for, from when until when it
/// runs; one that does not is told apart by its code, with the service's words and
/// the time of the next window.
pub proof fn claims_are_told(
    plan_id: Seq<char>,
    response: ResponseV,
    payload: JsonV,
    plan: JsonV,
    n: int,
    code: int,
    s: Seq<char>,
)
    requires
        response.payload == Some(payload),
        i64::MIN <= n <= i64::MAX,
        i64::MIN <= code <= i64::MAX,
        text::trimmed(s).len() > 0,
    ensures
        200 <= response.status < 300 && payload.get("code"@) == Some(JsonV::Int(0)) && payload.at(
            "data"@,
            "plan"@,
        ) == Some(plan) ==> {
            &&& claimed(plan_id, response) matches Ok(ClaimV::Claimed {
                plan_id: id,
                starts_at,
                ends_at,
            })
            &&& id == plan_id
            &&& plan.get("starts_at"@) == Some(JsonV::Int(n)) ==> starts_at == Some(n)
            &&& plan.get("ends_at"@) == Some(JsonV::Int(n)) ==> ends_at == Some(n)
            &&& plan.get("starts_at"@) is None ==> starts_at is None
            &&& plan.get("ends_at"@) is None ==> ends_at is None
        },
        payload.get("code"@) == Some(JsonV::Int(code)) && code != 0 ==> {
            &&& claimed(plan_id, response) matches Ok(ClaimV::Failed {
                plan_id: id,
                failure,
                code: told,
                message,
                failure_ends_at,
            })
            &&& id == plan_id && told == code
            &&& code == 1001 <==> failure == ClaimFailure::NotFound
            &&& code == 1002 <==> failure == ClaimFailure::Unavailable
            &&& code == 1003 <==> failure == ClaimFailure::AlreadyClaimed
            &&& code == 1004 <==> failure == ClaimFailure::Ineligible
            &&& code == 1005 <==> failure == ClaimFailure::QuotaExhausted
            &&& code == 3001 <==> failure == ClaimFailure::InvalidRequest
            &&& code == 3007 <==> failure == ClaimFailure::Captcha
            &&& code == 401 <==> failure == ClaimFailure::LoginRequired
            &&& payload.get("msg"@) == Some(JsonV::Str(s)) ==> message == text::trimmed(s)
            &&& payload.at("data"@, "plan"@) == Some(plan) && plan.get("ends_at"@) == Some(
                JsonV::Int(n),
            ) ==> failure_ends_at == Some(n)
        },
        payload.get("code"@) is None ==> {
            &&& claimed(plan_id, response) matches Ok(ClaimV::Failed { failure, code: told, .. })
            &&& told == response.status
            &&& response.status == 401 <==> failure == ClaimFailure::LoginRequired
            &&& response.status != 401 <==> failure == ClaimFailure::HttpError
        },
        claimed(plan_id, ResponseV { payload: None, ..response }) matches Err(e) && e.status == 502,
{
    lemma_words();
}

/// When to claim again: not before a plan that the account has runs out, at the
/// next window where today's are gone, and else after the usual pause.
pub proof fn attempts_follow_the_outcome(
    plan_id: Seq<char>,
    starts_at: Option<int>,
    t: int,
    failure: ClaimFailure,
    code: int,
    message: Seq<char>,
)
    ensures
        attempt_after(ClaimV::Claimed { plan_id, starts_at, ends_at: Some(t) })
            == AttemptV::HoldUntil(t),
        ({
            let outcome = ClaimV::Failed {
                plan_id,
                failure,
                code,
                message,
                failure_ends_at: Some(t),
            };
            &&& failure == ClaimFailure::AlreadyClaimed ==> attempt_after(outcome)
                == AttemptV::HoldUntil(t)
            &&& failure == ClaimFailure::QuotaExhausted ==> attempt_after(outcome)
                == AttemptV::WaitWindow(t)
            &&& failure != ClaimFailure::AlreadyClaimed && failure != ClaimFailure::QuotaExhausted
                ==> attempt_after(outcome) == AttemptV::Cooldown
        }),
        failure != ClaimFailure::AlreadyClaimed ==> attempt_after(
            ClaimV::Failed { plan_id, failure, code, message, failure_ends_at: None },
        ) == AttemptV::Cooldown,
{
}

/// The puzzle that guards a claim is read as the service states it; one without a
/// name or a scene is none, and one that is not said to be off is on.
pub proof fn puzzles_are_read(
    payload: JsonV,
    configs: JsonV,
    puzzle: JsonV,
    prefix: Seq<char>,
    scene: Seq<char>,
    s: Seq<char>,
)
    requires
        payload.at("data"@, "configs"@) == Some(configs),
        configs.get("captcha"@) == Some(puzzle),
        puzzle.get("prefix"@) == Some(JsonV::Str(prefix)),
        puzzle.get("sceneId"@) == Some(JsonV::Str(scene)),
        text::trimmed(s).len() > 0,
    ensures
        text::trimmed(prefix).len() > 0 && text::trimmed(scene).len() > 0 ==> {
            &&& captcha_in(payload) matches Some(read)
            &&& read.prefix == text::trimmed(prefix)
            &&& read.scene_id == text::trimmed(scene)
            &&& puzzle.get("region"@) == Some(JsonV::Str(s)) ==> read.region == text::trimmed(s)
            &&& puzzle.get("region"@) is None ==> read.region == "ga"@
            &&& puzzle.get("enabled"@) == Some(JsonV::Bool(false)) <==> !read.enabled
        },
        text::trimmed(prefix).len() == 0 || text::trimmed(scene).len() == 0 ==> captcha_in(payload)
            is None,
{
    lemma_words();
}

/// A claim bears the login, the solved puzzle and where it was solved, the device,
/// and which client it is from.
pub proof fn claims_bear_the_login(
    jwt: Seq<char>,
    solution: Seq<char>,
    place: Seq<char>,
    mid: Seq<char>,
    version: Seq<char>,
    platform: Seq<char>,
)
    requires
        text::trimmed(solution).len() > 0,
        text::trimmed(place).len() > 0,
        text::trimmed(mid).len() > 0,
        text::trimmed(jwt).len() > 0,
    ensures
        ({
            let headers = claim_headers(jwt, solution, Some(place), Some(mid), version, platform);
            &&& headers.contains(("Authorization"@, "Bearer "@ + text::trimmed(jwt)))
            &&& headers.contains(("X-Aliyun-Captcha-Verify-Param"@, text::trimmed(solution)))
            &&& headers.contains(("X-Aliyun-Captcha-Verify-Region"@, text::trimmed(place)))
            &&& headers.contains(("X-ZCode-App-Version"@, version))
            &&& headers.contains(("X-Platform"@, platform))
            &&& headers.contains(("X-Device-Mid"@, text::trimmed(mid)))
            &&& headers.len() == 7
        }),
        ({
            let headers = preview_headers(jwt, Some(mid));
            &&& headers.contains(("Authorization"@, "Bearer "@ + text::trimmed(jwt)))
            &&& headers.contains(("X-Device-Mid"@, text::trimmed(mid)))
            &&& headers.len() == 2
        }),
{
    let headers = claim_headers(jwt, solution, Some(place), Some(mid), version, platform);
    assert(headers[0] == ("Authorization"@, "Bearer "@ + text::trimmed(jwt)));
    assert(headers[2] == ("X-Aliyun-Captcha-Verify-Param"@, text::trimmed(solution)));
    assert(headers[3] == ("X-Aliyun-Captcha-Verify-Region"@, text::trimmed(place)));
    assert(headers[4] == ("X-ZCode-App-Version"@, version));
    assert(headers[5] == ("X-Platform"@, platform));
    assert(headers[6] == ("X-Device-Mid"@, text::trimmed(mid)));
    let asked = preview_headers(jwt, Some(mid));
    assert(asked[0] == ("Authorization"@, "Bearer "@ + text::trimmed(jwt)));
    assert(asked[1] == ("X-Device-Mid"@, text::trimmed(mid)));
}

proof fn lemma_digit(n: int)
    requires
        0 <= n < 16,
    ensures
        claim::capital_digit(n) as int == if n < 10 {
            48 + n
        } else {
            55 + n
        },
{
}

/// In an address a value is written so that it can be read back: what needs no
/// escape stands for itself, and no two bytes are written alike.
pub proof fn escapes_can_be_undone(a: u8, b: u8)
    ensures
        claim::is_unreserved(a) ==> escaped(a) == seq![a as char],
        !claim::is_unreserved(a) ==> escaped(a).len() == 3 && escaped(a)[0] == '%',
        escaped(a) == escaped(b) ==> a == b,
{
    lemma_digit(a as int / 16);
    lemma_digit(a as int % 16);
    lemma_digit(b as int / 16);
    lemma_digit(b as int % 16);
    if escaped(a) == escaped(b) {
        assert(escaped(a)[0] == escaped(b)[0]);
        if claim::is_unreserved(a) {
            assert(escaped(a).len() == 1);
            assert(claim::is_unreserved(b));
            assert(a as char == b as char);
        } else {
            assert(escaped(a).len() == 3);
            assert(!claim::is_unreserved(b));
            assert(escaped(a)[1] == escaped(b)[1]);
            assert(escaped(a)[2] == escaped(b)[2]);
        }
    }
}

/// Bytes are written one behind the other.
pub proof fn escapes_are_joined(one: Seq<u8>, two: Seq<u8>)
    ensures
        escaped_all(one + two) == escaped_all(one) + escaped_all(two),
    decreases two.len(),
{
    if two.len() == 0 {
        assert(one + two =~= one);
        assert(escaped_all(one) + escaped_all(two) =~= escaped_all(one));
    } else {
        escapes_are_joined(one, two.drop_last());
        assert((one + two).drop_last() =~= one + two.drop_last());
        assert(escaped_all(one + two) =~= escaped_all(one) + escaped_all(two));
    }
}

/// The address that is asked tells the version and the platform, and begins with
/// that of the service.
pub proof fn addresses_tell_the_client(
    region: Region,
    path: Seq<char>,
    version: Seq<char>,
    platform: Seq<char>,
)
    ensures
        ({
            let address = told_address(region, path, version, platform);
            &&& (region.spec_zcode_origin() + path).is_prefix_of(address)
            &&& text::has_part(address, "?app_version="@ + encoded(version))
            &&& ("&platform="@ + encoded(platform)).is_suffix_of(address)
        }),
{
    let address = told_address(region, path, version, platform);
    let head = region.spec_zcode_origin() + path;
    let middle = "?app_version="@ + encoded(version);
    let end = "&platform="@ + encoded(platform);
    assert(address =~= head + middle + end);
    text::lemma_has_part(head, middle, end);
    assert(address.subrange(0, head.len() as int) =~= head);
    assert(address.subrange(address.len() - end.len(), address.len() as int) =~= end);
}

/// Which client it is from is told by the system and the machine that it runs on.
pub proof fn platforms_are_told_apart(os: Seq<char>, arch: Seq<char>)
    ensures
        os == "macos"@ <==> "darwin"@.is_prefix_of(claim::platform_of(os, arch)),
        os == "linux"@ <==> "linux"@.is_prefix_of(claim::platform_of(os, arch)),
        (os == "macos"@ || os == "linux"@) && arch == "aarch64"@ <==> "arm64"@.is_suffix_of(
            claim::platform_of(os, arch),
        ),
{
    reveal_strlit("macos");
    reveal_strlit("linux");
    reveal_strlit("darwin");
    reveal_strlit("arm64");
    reveal_strlit("darwin-arm64");
    reveal_strlit("darwin-x64");
    reveal_strlit("linux-arm64");
    reveal_strlit("linux-x64");
    reveal_strlit("win32-x64");
    assert("macos"@[0] == 'm' && "linux"@[0] == 'l');
    let told = claim::platform_of(os, arch);
    assert(told[0] == 'd' || told[0] == 'l' || told[0] == 'w');
    assert("darwin"@[0] == 'd');
    assert("arm64"@[4] == '4' && "arm64"@[1] == 'r');
    assert("darwin-arm64"@.subrange(0, 6) =~= "darwin"@);
    assert("darwin-x64"@.subrange(0, 6) =~= "darwin"@);
    assert("linux-arm64"@.subrange(0, 5) =~= "linux"@);
    assert("linux-x64"@.subrange(0, 5) =~= "linux"@);
    assert("darwin-arm64"@.subrange(7, 12) =~= "arm64"@);
    assert("linux-arm64"@.subrange(6, 11) =~= "arm64"@);
    assert("darwin-x64"@.subrange(5, 10)[1] == '-');
    assert("linux-x64"@.subrange(4, 9)[1] == '-');
    assert("win32-x64"@.subrange(4, 9)[1] == '-');
    if os == "macos"@ {
        assert("darwin"@.is_prefix_of(told));
        assert(!("linux"@.is_prefix_of(told))) by {
            assert(told.subrange(0, 5)[0] == 'd');
            assert("linux"@[0] == 'l');
        }
    } else if os == "linux"@ {
        assert("linux"@.is_prefix_of(told));
        assert(!("darwin"@.is_prefix_of(told))) by {
            assert(told.subrange(0, 6)[0] == 'l');
        }
    } else {
        assert(told.subrange(0, 6)[0] == 'w');
        assert(told.subrange(0, 5)[0] == 'w');
    }
}

/// The version that is set is the one that is told.
pub proof fn the_version_that_is_set_is_told(s: Seq<char>)
    requires
        text::trimmed(s) == s,
        s.len() > 0,
    ensures
        claim::version_of(Some(s)) == s,
        claim::version_of(Some(Seq::empty()))
            == claim::version_of(None),
{
    text::lemma_trimmed(Seq::empty());
}

} // verus!
