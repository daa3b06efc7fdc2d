//! What is left on a Qoder account: the usage shows the amounts that the service
//! states.
use super::balance;
use super::balance::{amount_in, usage_in, wallets_in};
use crate::json::JsonV;
use crate::number;
use vstd::prelude::*;
use vstd::string::*;

verus! {

/// The words tell one another apart.
proof fn lemma_words()
    ensures
        "type"@.len() == 4,
        "unit"@.len() == 4,
        "used"@.len() == 4,
        "type"@[0] == 't',
        "type"@[1] == 'y',
        "unit"@[0] == 'u',
        "unit"@[1] == 'n',
        "used"@[0] == 'u',
        "used"@[1] == 's',
        "total"@.len() == 5,
        "balance"@.len() == 7,
        "wallets"@.len() == 7,
        "balance"@[0] == 'b',
        "wallets"@[0] == 'w',
        "expireAt"@.len() == 8,
        "org_used"@.len() == 8,
        "expireAt"@[0] == 'e',
        "org_used"@[0] == 'o',
        "available"@.len() == 9,
        "expiresAt"@.len() == 9,
        "org_total"@.len() == 9,
        "remaining"@.len() == 9,
        "userQuota"@.len() == 9,
        "user_used"@.len() == 9,
        "available"@[0] == 'a',
        "available"@[4] == 'l',
        "expiresAt"@[0] == 'e',
        "expiresAt"@[4] == 'r',
        "org_total"@[0] == 'o',
        "org_total"@[4] == 't',
        "remaining"@[0] == 'r',
        "remaining"@[4] == 'i',
        "userQuota"@[0] == 'u',
        "userQuota"@[4] == 'Q',
        "user_used"@[0] == 'u',
        "user_used"@[4] == '_',
        "user_total"@.len() == 10,
        "balanceView"@.len() == 11,
        "displayName"@.len() == 11,
        "balanceView"@[0] == 'b',
        "displayName"@[0] == 'd',
        "subscription"@.len() == 12,
        "orgResourcePackage"@.len() == 18,
{
    reveal_strlit("type");
    reveal_strlit("unit");
    reveal_strlit("used");
    reveal_strlit("total");
    reveal_strlit("balance");
    reveal_strlit("wallets");
    reveal_strlit("expireAt");
    reveal_strlit("org_used");
    reveal_strlit("available");
    reveal_strlit("expiresAt");
    reveal_strlit("org_total");
    reveal_strlit("remaining");
    reveal_strlit("userQuota");
    reveal_strlit("user_used");
    reveal_strlit("user_total");
    reveal_strlit("balanceView");
    reveal_strlit("displayName");
    reveal_strlit("subscription");
    reveal_strlit("orgResourcePackage");
}

/// Whether a wallet is of a kind and holds an amount.
pub open spec fn holds(wallet: JsonV, kind: Seq<char>, bits: u64) -> bool {
    &&& wallet.get("type"@) == Some(JsonV::Str(kind))
    &&& wallet.get("balance"@) matches Some(JsonV::Float { bits: told, .. })
    &&& told == bits
}

/// What is left, and the unit that it is counted in, are told as the service
/// states them; an amount that it does not state is not made up.
pub proof fn the_rest_is_told(raw: JsonV, quota: JsonV, bits: u64, s: Seq<char>, end: JsonV)
    requires
        raw.get("userQuota"@) == Some(quota),
        end != JsonV::Null,
    ensures
        amount_in(quota.get("remaining"@)) == Some(bits) ==> (usage_in(raw).get(
            "available"@,
        ) matches Some(JsonV::Float { bits: told, .. }) && told == bits),
        amount_in(quota.get("remaining"@)) is None ==> usage_in(raw).get("available"@) == Some(
            JsonV::Null,
        ),
        quota.get("unit"@) == Some(JsonV::Str(s)) ==> usage_in(raw).get("unit"@) == Some(
            JsonV::Str(s),
        ),
        usage_in(raw).get("wallets"@) == Some(JsonV::Arr(wallets_in(raw))),
        raw.get("expiresAt"@) == Some(end) ==> usage_in(raw).at("subscription"@, "expireAt"@)
            == Some(end),
        raw.get("expiresAt"@) is None ==> usage_in(raw).at("subscription"@, "expireAt"@) is None,
{
    lemma_words();
}

/// The amounts that an account has used and may use are each in a wallet of their
/// kind, and so are those of its organisation where it has any.
pub proof fn wallets_hold_the_amounts(raw: JsonV, quota: JsonV, package: JsonV, bits: u64, total: u64)
    requires
        raw.get("userQuota"@) == Some(quota),
        raw.get("orgResourcePackage"@) == Some(package),
    ensures
        amount_in(quota.get("used"@)) == Some(bits) ==> exists|i: int|
            0 <= i < wallets_in(raw).len() && holds(
                #[trigger] wallets_in(raw)[i],
                "user_used"@,
                bits,
            ),
        amount_in(quota.get("total"@)) == Some(bits) ==> exists|i: int|
            0 <= i < wallets_in(raw).len() && holds(
                #[trigger] wallets_in(raw)[i],
                "user_total"@,
                bits,
            ),
        amount_in(package.get("total"@)) == Some(total) && number::is_positive(total) ==> exists|
            i: int,
        |
            0 <= i < wallets_in(raw).len() && holds(
                #[trigger] wallets_in(raw)[i],
                "org_total"@,
                total,
            ),
        amount_in(package.get("total"@)) == Some(total) && number::is_positive(total) && amount_in(
            package.get("used"@),
        ) == Some(bits) ==> exists|i: int|
            0 <= i < wallets_in(raw).len() && holds(
                #[trigger] wallets_in(raw)[i],
                "org_used"@,
                bits,
            ),
{
    lemma_words();
    let unit = balance::unit_in(quota, "额度"@);
    let own = balance::unit_in(package, unit);
    let one = balance::and_some(
        Seq::empty(),
        balance::plain_wallet("user_used"@, "个人已用"@, amount_in(quota.get("used"@))),
    );
    let two = balance::and_some(
        one,
        balance::plain_wallet("user_total"@, "个人总额"@, amount_in(quota.get("total"@))),
    );
    let all = wallets_in(raw);
    assert(all == balance::with_package(two, package, unit));
    if amount_in(quota.get("used"@)) == Some(bits) {
        assert(holds(all[0], "user_used"@, bits));
    }
    if amount_in(quota.get("total"@)) == Some(bits) {
        assert(holds(all[one.len() as int], "user_total"@, bits));
    }
    if amount_in(package.get("total"@)) == Some(total) && number::is_positive(total) {
        assert(holds(all[two.len() as int], "org_total"@, total));
        if amount_in(package.get("used"@)) == Some(bits) {
            assert(holds(all[two.len() as int + 1], "org_used"@, bits));
        }
    }
}

/// Every wallet is of one of four kinds, no two of one kind, and holds the amount
/// that the service states for that kind.
pub proof fn wallets_are_of_four_kinds(raw: JsonV, i: int, j: int, bits: u64)
    requires
        0 <= i < j < wallets_in(raw).len(),
    ensures
        wallets_in(raw)[i].get("type"@) is Some,
        wallets_in(raw)[i].get("type"@) != wallets_in(raw)[j].get("type"@),
        holds(wallets_in(raw)[i], "user_used"@, bits) ==> amount_in(
            raw.field("userQuota"@).get("used"@),
        ) == Some(bits),
        holds(wallets_in(raw)[i], "user_total"@, bits) ==> amount_in(
            raw.field("userQuota"@).get("total"@),
        ) == Some(bits),
        holds(wallets_in(raw)[i], "org_total"@, bits) ==> amount_in(
            raw.field("orgResourcePackage"@).get("total"@),
        ) == Some(bits),
{
    lemma_words();
}

} // verus!
