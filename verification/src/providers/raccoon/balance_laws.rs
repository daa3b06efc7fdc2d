//! What is left on an account and what it was granted: the answers of the service
//! come out with the numbers that they hold.
use super::balance;
use super::balance::{
    answer_in, hold, is_claim, is_grant, is_kind, is_wallet, subscription_in, total_on, usage_in,
    wallets_in,
};
use crate::errors::ErrorV;
use crate::http::ResponseV;
use crate::json;
use crate::json::JsonV;
use crate::number;
use crate::text;
use vstd::prelude::*;
use vstd::string::*;

verus! {

/// The words tell one another apart.
proof fn lemma_words()
    ensures
        "at"@.len() == 2,
        "msg"@.len() == 3,
        "raw"@.len() == 3,
        "msg"@[0] == 'm',
        "raw"@[0] == 'r',
        "code"@.len() == 4,
        "data"@.len() == 4,
        "name"@.len() == 4,
        "none"@.len() == 4,
        "type"@.len() == 4,
        "unit"@.len() == 4,
        "code"@[0] == 'c',
        "code"@[1] == 'o',
        "data"@[0] == 'd',
        "data"@[1] == 'a',
        "name"@[0] == 'n',
        "name"@[1] == 'a',
        "none"@[0] == 'n',
        "none"@[1] == 'o',
        "type"@[0] == 't',
        "type"@[1] == 'y',
        "unit"@[0] == 'u',
        "unit"@[1] == 'n',
        "error"@.len() == 5,
        "toast"@.len() == 5,
        "error"@[0] == 'e',
        "toast"@[0] == 't',
        "active"@.len() == 6,
        "office"@.len() == 6,
        "points"@.len() == 6,
        "popups"@.len() == 6,
        "status"@.len() == 6,
        "active"@[0] == 'a',
        "active"@[2] == 't',
        "office"@[0] == 'o',
        "office"@[2] == 'f',
        "points"@[0] == 'p',
        "points"@[2] == 'i',
        "popups"@[0] == 'p',
        "popups"@[2] == 'p',
        "status"@[0] == 's',
        "status"@[2] == 'a',
        "balance"@.len() == 7,
        "granted"@.len() == 7,
        "message"@.len() == 7,
        "success"@.len() == 7,
        "wallets"@.len() == 7,
        "balance"@[0] == 'b',
        "granted"@[0] == 'g',
        "message"@[0] == 'm',
        "success"@[0] == 's',
        "wallets"@[0] == 'w',
        "expireAt"@.len() == 8,
        "planName"@.len() == 8,
        "settings"@.len() == 8,
        "expireAt"@[0] == 'e',
        "planName"@[0] == 'p',
        "settings"@[0] == 's',
        "available"@.len() == 9,
        "plan_type"@.len() == 9,
        "available"@[0] == 'a',
        "plan_type"@[0] == 'p',
        "pro_enable"@.len() == 10,
        "totalQuota"@.len() == 10,
        "pro_enable"@[0] == 'p',
        "totalQuota"@[0] == 't',
        "active_plan"@.len() == 11,
        "displayName"@.len() == 11,
        "grantsError"@.len() == 11,
        "grantsToday"@.len() == 11,
        "remainQuota"@.len() == 11,
        "active_plan"@[0] == 'a',
        "active_plan"@[6] == '_',
        "displayName"@[0] == 'd',
        "displayName"@[6] == 'y',
        "grantsError"@[0] == 'g',
        "grantsError"@[6] == 'E',
        "grantsToday"@[0] == 'g',
        "grantsToday"@[6] == 'T',
        "remainQuota"@[0] == 'r',
        "remainQuota"@[6] == 'Q',
        "daily_points"@.len() == 12,
        "desktopGrant"@.len() == 12,
        "subscription"@.len() == 12,
        "topup_points"@.len() == 12,
        "daily_points"@[0] == 'd',
        "daily_points"@[1] == 'a',
        "desktopGrant"@[0] == 'd',
        "desktopGrant"@[1] == 'e',
        "subscription"@[0] == 's',
        "subscription"@[1] == 'u',
        "topup_points"@[0] == 't',
        "topup_points"@[1] == 'o',
        "reward_points"@.len() == 13,
        "monthly_points"@.len() == 14,
        "available_points"@.len() == 16,
        "pro_expired_time"@.len() == 16,
        "available_points"@[0] == 'a',
        "pro_expired_time"@[0] == 'p',
        "subscriptionError"@.len() == 17,
        "subscription_expired_at"@.len() == 23,
{
    reveal_strlit("at");
    reveal_strlit("msg");
    reveal_strlit("raw");
    reveal_strlit("code");
    reveal_strlit("data");
    reveal_strlit("name");
    reveal_strlit("none");
    reveal_strlit("type");
    reveal_strlit("unit");
    reveal_strlit("error");
    reveal_strlit("toast");
    reveal_strlit("active");
    reveal_strlit("office");
    reveal_strlit("points");
    reveal_strlit("popups");
    reveal_strlit("status");
    reveal_strlit("balance");
    reveal_strlit("granted");
    reveal_strlit("message");
    reveal_strlit("success");
    reveal_strlit("wallets");
    reveal_strlit("expireAt");
    reveal_strlit("planName");
    reveal_strlit("settings");
    reveal_strlit("available");
    reveal_strlit("plan_type");
    reveal_strlit("pro_enable");
    reveal_strlit("totalQuota");
    reveal_strlit("active_plan");
    reveal_strlit("displayName");
    reveal_strlit("grantsError");
    reveal_strlit("grantsToday");
    reveal_strlit("remainQuota");
    reveal_strlit("daily_points");
    reveal_strlit("desktopGrant");
    reveal_strlit("subscription");
    reveal_strlit("topup_points");
    reveal_strlit("reward_points");
    reveal_strlit("monthly_points");
    reveal_strlit("available_points");
    reveal_strlit("pro_expired_time");
    reveal_strlit("subscriptionError");
    reveal_strlit("subscription_expired_at");
}

/// Whether a value counts as a whole number: as that which it is or writes,
/// rounded down, as far as it fits.
pub open spec fn counts(value: JsonV, n: int) -> bool {
    json::read_number(value) matches Some(bits) && n == number::clipped(number::floor_of(bits))
}

/// Points of a kind that the service counts are shown in just one wallet of that
/// kind, with just that number; points that it does not count are in none.
pub proof fn wallets_hold_the_points(points: JsonV, kind: Seq<char>, n: int)
    requires
        is_kind(kind),
    ensures
        points.get(kind) is Some && counts(points.field(kind), n) ==> hold(
            wallets_in(points),
            kind,
            n,
        ),
        points.get(kind) is None || json::read_number(points.field(kind)) is None ==> forall|i: int|
            0 <= i < wallets_in(points).len() ==> !is_wallet(
                #[trigger] wallets_in(points)[i],
                kind,
            ),
{
    lemma_words();
    let one = balance::and_some(
        Seq::empty(),
        balance::wallet(points, "daily_points"@, "每日积分"@),
    );
    let two = balance::and_some(
        one,
        balance::wallet(points, "monthly_points"@, "每月会员积分"@),
    );
    let three = balance::and_some(two, balance::wallet(points, "reward_points"@, "奖励积分"@));
    let four = balance::and_some(three, balance::wallet(points, "topup_points"@, "充值积分"@));
    assert(four == wallets_in(points));
    if points.get(kind) is Some && counts(points.field(kind), n) {
        if kind == "daily_points"@ {
            assert(is_wallet(four[0], kind));
        } else if kind == "monthly_points"@ {
            assert(is_wallet(four[one.len() as int], kind));
        } else if kind == "reward_points"@ {
            assert(is_wallet(four[two.len() as int], kind));
        } else {
            assert(is_wallet(four[three.len() as int], kind));
        }
    }
}

/// Every wallet is of one of the four kinds, which stand in one order.
pub proof fn wallets_are_of_four_kinds(points: JsonV, i: int)
    requires
        0 <= i < wallets_in(points).len(),
    ensures
        exists|kind: Seq<char>| is_kind(kind) && #[trigger] is_wallet(wallets_in(points)[i], kind),
        wallets_in(points)[i].get("displayName"@) is Some,
        wallets_in(points).len() <= 4,
{
    lemma_words();
    let w = wallets_in(points)[i];
    assert(is_wallet(w, "daily_points"@) || is_wallet(w, "monthly_points"@) || is_wallet(
        w,
        "reward_points"@,
    ) || is_wallet(w, "topup_points"@));
}

/// The usage shows the points that are left in all, the wallets, the subscription
/// and what the service answered; why there is no subscription is not hidden.
pub proof fn usage_shows_the_points(points: JsonV, entitlement: Result<JsonV, ErrorV>, n: int)
    requires
        points is Obj,
    ensures
        ({
            &&& usage_in(points, entitlement) matches Ok(usage)
            &&& points.get("available_points"@) is Some && counts(
                points.field("available_points"@),
                n,
            ) ==> usage.get("available"@) == Some(JsonV::Int(n))
            &&& points.get("available_points"@) is None ==> usage.get("available"@) == Some(
                JsonV::Null,
            )
            &&& usage.get("wallets"@) == Some(JsonV::Arr(wallets_in(points)))
            &&& usage.get("unit"@) == Some(JsonV::Str("积分"@))
            &&& usage.at("raw"@, "points"@) == Some(points)
            &&& entitlement matches Ok(data) ==> usage.get("subscription"@) == Some(
                subscription_in(data),
            ) && usage.at("raw"@, "subscriptionError"@) is None
            &&& entitlement matches Err(e) ==> usage.get("subscription"@) == Some(JsonV::Null)
                && usage.at("raw"@, "subscriptionError"@) == Some(JsonV::Str(e.message))
        }),
{
    lemma_words();
}

/// What does not answer with an object is no balance.
pub proof fn balances_are_objects(points: JsonV, entitlement: Result<JsonV, ErrorV>)
    requires
        !(points is Obj),
    ensures
        usage_in(points, entitlement) matches Err(e) && e.status == 502,
{
}

/// A subscription names the plan and its end as the service does, the office half
/// before the other, and is active only where the service says that it is paid.
pub proof fn subscriptions_are_read(data: JsonV, office: JsonV, plan: Seq<char>, end: JsonV)
    requires
        data.get("office"@) == Some(office),
        office is Obj,
        end != JsonV::Null,
    ensures
        ({
            let read = subscription_in(data);
            &&& read is Obj
            &&& office.get("active_plan"@) is Some && office.at("active_plan"@, "type"@) == Some(
                JsonV::Str(plan),
            ) ==> read.get("planName"@) == Some(JsonV::Str(plan))
            &&& office.get("active_plan"@) == Some(JsonV::Null) && office.get("plan_type"@) == Some(
                JsonV::Str(plan),
            ) ==> read.get("planName"@) == Some(JsonV::Str(plan))
            &&& office.get("pro_expired_time"@) == Some(end) ==> read.get("expireAt"@) == Some(end)
            &&& office.get("pro_enable"@) == Some(JsonV::Bool(true)) ==> read.get("status"@)
                == Some(JsonV::Str("active"@))
            &&& office.get("pro_enable"@) == Some(JsonV::Bool(false)) ==> read.get("status"@)
                == Some(JsonV::Str("none"@))
            &&& office.get("pro_enable"@) is None && !(data.get("code"@) is Some) ==> read.get(
                "status"@,
            ) == Some(JsonV::Str("none"@))
        }),
{
    lemma_words();
}

/// Where the office half is missing the other half speaks in its place.
pub proof fn halves_stand_in(data: JsonV, half: JsonV)
    requires
        half is Obj,
        data.get("office"@) is None,
        data.get("code"@) is None,
    ensures
        data is Obj ==> subscription_in(data.put("office"@, half)) == subscription_in(
            data.put("code"@, half),
        ),
        subscription_in(data) == JsonV::Null,
{
    lemma_words();
}

/// An answer is let through only where it succeeded: the data in it, or all of it
/// where it has none. A refused login, a failed call and a code other than zero
/// are errors, each with its own words.
pub proof fn answers_are_checked(response: ResponseV, payload: JsonV, data: JsonV, code: int)
    requires
        response.payload == Some(payload),
        i64::MIN <= code <= i64::MAX,
        data != JsonV::Null,
    ensures
        response.status == 401 ==> (answer_in(response) matches Err(e) && e.status == 401),
        response.status != 401 && !response.ok ==> (answer_in(response) matches Err(e) && e.status
            == 502 && text::has_part(e.message, text::decimal(response.status as nat))),
        response.status != 401 && response.ok && payload.get("code"@) == Some(JsonV::Int(code))
            && code != 0 ==> (answer_in(response) matches Err(e) && e.status == 502),
        response.status != 401 && response.ok && (payload.get("code"@) is None || payload.get(
            "code"@,
        ) == Some(JsonV::Int(0))) ==> {
            &&& payload.get("data"@) == Some(data) ==> answer_in(response) == Ok::<_, ErrorV>(data)
            &&& payload.get("data"@) is None ==> answer_in(response) == Ok::<_, ErrorV>(payload)
        },
{
    lemma_words();
    text::lemma_has_part(
        "积分查询返回 HTTP "@,
        text::decimal(response.status as nat),
        Seq::empty(),
    );
}

/// A code that the service explains comes with its explanation.
pub proof fn refusals_are_explained(response: ResponseV, payload: JsonV, code: int, s: Seq<char>)
    requires
        response.payload == Some(payload),
        response.ok && response.status != 401,
        payload.get("code"@) == Some(JsonV::Int(code)),
        i64::MIN <= code <= i64::MAX && code != 0,
        payload.get("message"@) == Some(JsonV::Str(s)),
        s.len() > 0,
    ensures
        answer_in(response) matches Err(e) && e.message == s,
{
    lemma_words();
}

/// A bill counts toward a day where it was made on it and granted something; what
/// it granted is added to what the day granted before it.
pub proof fn grants_add_up(bills: Seq<JsonV>, bill: JsonV, today: Seq<char>, made: Seq<char>, n: int)
    requires
        vstd::utf8::encode_utf8(today).len() == 10,
        bill.get("created_at"@) == Some(JsonV::Str(made)),
        bill.get("points"@) is Some && counts(bill.field("points"@), n),
    ensures
        n > 0 && today.is_prefix_of(made) ==> total_on(bills.push(bill), today) == total_on(
            bills,
            today,
        ) + n,
        n <= 0 || !today.is_prefix_of(made) ==> total_on(bills.push(bill), today) == total_on(
            bills,
            today,
        ),
{
    assert(bills.push(bill).drop_last() =~= bills);
}

/// A grant is listed with the name and the points of its bill.
pub proof fn grants_are_listed(bill: JsonV, n: int, grant: JsonV, s: Seq<char>)
    requires
        is_grant(bill, n, grant),
    ensures
        grant.get("points"@) == Some(JsonV::Int(n)),
        bill.get("event_name"@) == Some(JsonV::Str(s)) ==> grant.get("name"@) == Some(
            JsonV::Str(s),
        ),
        grant.get("at"@) is Some,
{
    lemma_words();
}

/// What a claim reports: success just where the bills show points of the day, the
/// grants that they show, what was answered to the desktop login, and why the
/// bills could not be read.
pub proof fn claims_report_what_was_granted(
    desktop: Result<JsonV, ErrorV>,
    settings: Result<JsonV, ErrorV>,
    bills: Result<JsonV, ErrorV>,
    today: Seq<char>,
    result: JsonV,
)
    requires
        is_claim(desktop, settings, bills, today, result),
    ensures
        bills matches Ok(data) ==> {
            let total = total_on(balance::bills_in(data), today);
            &&& result.get("success"@) == Some(JsonV::Bool(total > 0))
            &&& result.get("grantsError"@) == Some(JsonV::Null)
            &&& result.get("grantsToday"@) matches Some(JsonV::Arr(grants))
            &&& balance::are_grants(balance::bills_in(data), today, grants)
            &&& total > 0 ==> (result.get("msg"@) matches Some(JsonV::Str(msg)) && text::has_part(
                msg,
                text::decimal_int(total),
            ))
        },
        bills matches Err(e) ==> {
            &&& result.get("success"@) == Some(JsonV::Bool(false))
            &&& result.get("grantsError"@) == Some(JsonV::Str(e.message))
            &&& result.get("grantsToday"@) == Some(JsonV::Arr(Seq::empty()))
            &&& result.get("msg"@) matches Some(JsonV::Str(msg))
            &&& text::has_part(msg, e.message)
        },
        desktop matches Ok(data) ==> result.at("desktopGrant"@, "granted"@) == Some(
            JsonV::Bool(data.get("granted"@) == Some(JsonV::Bool(true))),
        ),
        desktop matches Err(e) ==> result.at("desktopGrant"@, "granted"@) == Some(
            JsonV::Bool(false),
        ) && result.at("desktopGrant"@, "error"@) == Some(JsonV::Str(e.message)),
        settings matches Ok(data) ==> result.at("settings"@, "popups"@) == Some(
            data.field("point_grant_popups"@),
        ) && result.at("settings"@, "toast"@) == Some(data.field("point_grant_toast"@)),
        settings matches Err(e) ==> result.at("settings"@, "error"@) == Some(
            JsonV::Str(e.message),
        ),
{
    lemma_words();
    let total = match bills {
        Ok(data) => total_on(balance::bills_in(data), today),
        Err(_) => 0,
    };
    let problem = match bills {
        Ok(_) => None,
        Err(e) => Some(e.message),
    };
    let first = if desktop is Ok && desktop->Ok_0.field("granted"@) == JsonV::Bool(true) {
        "桌面登录奖励已发放；"@
    } else {
        Seq::empty()
    };
    let msg = balance::claim_message(desktop, total, problem);
    if total > 0 && bills is Ok {
        let third = if desktop is Err {
            "；桌面登录奖励未领取"@
        } else {
            Seq::empty()
        };
        let head = first + "今日积分 +"@;
        assert(msg =~= head + text::decimal_int(total) + third);
        text::lemma_has_part(head, text::decimal_int(total), third);
    }
    if let Err(e) = bills {
        let head = first + "未能核对今日入账"@ + "；账单核对失败："@;
        assert(msg =~= head + e.message + Seq::<char>::empty());
        text::lemma_has_part(head, e.message, Seq::empty());
    }
}

/// Each request asks for what it is for, with the token of the account.
pub proof fn requests_bear_the_token(ask: balance::Ask, origin: Seq<char>, token: Seq<char>)
    ensures
        ({
            let call = ask.call(origin, token);
            &&& origin.is_prefix_of(call.url)
            &&& call.headers.contains(("Authorization"@, "Bearer "@ + super::jwt::bare(token)))
            &&& call.method == "POST"@ || call.method == "GET"@
            &&& call.method == "POST"@ ==> ask == balance::Ask::DesktopGrant
            &&& call.body is None
        }),
{
    reveal_strlit("POST");
    reveal_strlit("GET");
    let call = ask.call(origin, token);
    assert(call.url.subrange(0, origin.len() as int) =~= origin);
    assert(origin.is_prefix_of(call.url));
    assert(ask != balance::Ask::DesktopGrant ==> call.method == "GET"@);
    assert("POST"@ != "GET"@) by {
        assert("POST"@.len() == 4);
    }
    assert(call.headers[1] == ("Authorization"@, "Bearer "@ + super::jwt::bare(token)));
}

} // verus!
