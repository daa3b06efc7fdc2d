//! What is told of the balances of many accounts: every account that was asked has
//! its own row, and nothing is counted that was not told.
use crate::errors::ErrorV;
use crate::json::JsonV;
use crate::usage_query::{
    accounts_named, asked, batch, kept_report, provider_of, report_of, row, rows_in, stage_after,
    step_on, successes, targets_among, StepV, UsageStage, UsageV,
};
use vstd::prelude::*;
use vstd::string::*;

verus! {

/// The words tell one another apart.
proof fn lemma_words()
    ensures
        "at"@.len() == 2,
        "id"@.len() == 2,
        "at"@[0] == 'a',
        "id"@[0] == 'i',
        "code"@.len() == 4,
        "name"@.len() == 4,
        "code"@[0] == 'c',
        "name"@[0] == 'n',
        "error"@.len() == 5,
        "usage"@.len() == 5,
        "error"@[0] == 'e',
        "usage"@[0] == 'u',
        "enabled"@.len() == 7,
        "results"@.len() == 7,
        "skipped"@.len() == 7,
        "enabled"@[0] == 'e',
        "results"@[0] == 'r',
        "skipped"@[0] == 's',
        "accounts"@.len() == 8,
        "provider"@.len() == 8,
        "accounts"@[0] == 'a',
        "provider"@[0] == 'p',
        "available"@.len() == 9,
{
    reveal_strlit("at");
    reveal_strlit("id");
    reveal_strlit("code");
    reveal_strlit("name");
    reveal_strlit("error");
    reveal_strlit("usage");
    reveal_strlit("enabled");
    reveal_strlit("results");
    reveal_strlit("skipped");
    reveal_strlit("accounts");
    reveal_strlit("provider");
    reveal_strlit("available");
}

/// The row of an account bears its id, and its usage or why there is none; never
/// both.
pub proof fn rows_tell_the_usage(account: JsonV, outcome: UsageV, id: Seq<char>, name: JsonV)
    ensures
        ({
            let told = row(account, outcome);
            &&& account.get("id"@) == Some(JsonV::Str(id)) ==> told.get("id"@) == Some(
                JsonV::Str(id),
            )
            &&& outcome matches UsageV::Usage(usage) ==> {
                &&& told.get("usage"@) == Some(usage)
                &&& told.get("error"@) == Some(JsonV::Null)
                &&& account.get("name"@) == Some(name) ==> told.get("name"@) == Some(name)
            }
            &&& outcome is NoCredentials ==> {
                &&& told.get("usage"@) == Some(JsonV::Null)
                &&& told.get("error"@) matches Some(JsonV::Str(_))
            }
            &&& outcome matches UsageV::Failed { message, code } ==> {
                &&& told.get("usage"@) == Some(JsonV::Null)
                &&& told.get("error"@) == Some(JsonV::Str(message))
                &&& account.get("name"@) == Some(name) ==> told.get("name"@) == Some(name)
                &&& code matches Some(mark) ==> told.get("code"@) == Some(JsonV::Str(mark))
                &&& code is None ==> told.get("code"@) == Some(JsonV::Null)
            }
        }),
{
    lemma_words();
}

/// The report holds every row and how many accounts were left out, and is kept with
/// the time; as many rows count as successes as tell a usage.
pub proof fn reports_hold_the_rows(rows: Seq<JsonV>, skipped: int, now_ms: int, account: JsonV, outcome: UsageV)
    ensures
        ({
            let report = report_of(rows, skipped);
            let kept = kept_report(report, now_ms);
            &&& rows_in(report) == rows
            &&& rows_in(kept) == rows
            &&& kept.get("at"@) == Some(JsonV::Int(now_ms))
            &&& kept.get("skipped"@) == Some(JsonV::Int(skipped))
            &&& report.get("skipped"@) == Some(JsonV::Int(skipped))
        }),
        successes(Seq::empty()) == 0,
        outcome matches UsageV::Usage(usage) && usage != JsonV::Null ==> successes(
            rows.push(row(account, outcome)),
        ) == successes(rows) + 1,
        !(outcome is Usage) ==> successes(rows.push(row(account, outcome))) == successes(rows),
{
    lemma_words();
    assert(rows.push(row(account, outcome)).drop_last() =~= rows);
}

/// An account is asked where it is of the provider, can be used and is on; one that
/// is off is counted as left out, and any other is passed over.
pub proof fn accounts_are_chosen(
    accounts: Seq<JsonV>,
    account: JsonV,
    provider: Option<Seq<char>>,
    otherwise: Seq<char>,
    own: Seq<char>,
)
    requires
        account.get("provider"@) == Some(JsonV::Str(own)) || account.get("provider"@) is None && own
            == otherwise,
    ensures
        ({
            let before = targets_among(accounts, provider, otherwise);
            let after = targets_among(accounts.push(account), provider, otherwise);
            let meant = (provider is None || provider == Some(own)) && account.get("available"@)
                != Some(JsonV::Bool(false));
            let on = account.get("enabled"@) != Some(JsonV::Bool(false));
            &&& meant && on ==> after.targets == before.targets.push(account) && after.skipped
                == before.skipped
            &&& meant && !on ==> after.targets == before.targets && after.skipped == before.skipped
                + 1
            &&& !meant ==> after == before
        }),
        provider_of(account, otherwise) == own,
{
    lemma_words();
    assert(accounts.push(account).drop_last() =~= accounts);
}

/// A named account is asked whatever its state; a name that no account has is an
/// error, and without a name all accounts are looked at.
pub proof fn named_accounts_are_asked(
    snapshot: JsonV,
    accounts: Seq<JsonV>,
    provider: Option<Seq<char>>,
    id: Seq<char>,
    otherwise: Seq<char>,
    i: int,
)
    requires
        snapshot.get("accounts"@) == Some(JsonV::Arr(accounts)),
        id.len() > 0,
    ensures
        0 <= i < accounts.len() && accounts[i].get("id"@) == Some(JsonV::Str(id)) ==> {
            &&& batch(snapshot, provider, Some(id), otherwise) matches Some(found)
            &&& found.targets.contains(accounts[i])
            &&& found.skipped == 0
        },
        (forall|k: int|
            0 <= k < accounts.len() ==> (#[trigger] accounts[k]).get("id"@) != Some(JsonV::Str(id)))
            ==> batch(snapshot, provider, Some(id), otherwise) is None,
        batch(snapshot, provider, None, otherwise) == Some(
            targets_among(accounts, provider, otherwise),
        ),
{
    lemma_words();
    lemma_named(accounts, id);
    let found = accounts_named(accounts, id);
    if found.len() > 0 {
        assert(found.contains(found[0]));
        let k = choose|k: int| 0 <= k < accounts.len() && accounts[k] == found[0];
        assert(accounts[k].get("id"@) == Some(JsonV::Str(id)));
    }
    if 0 <= i < accounts.len() && accounts[i].get("id"@) == Some(JsonV::Str(id)) {
        assert(accounts.contains(accounts[i]));
        assert(found.contains(accounts[i]));
    }
}

proof fn lemma_named(accounts: Seq<JsonV>, id: Seq<char>)
    ensures
        forall|account: JsonV| #[trigger]
            accounts_named(accounts, id).contains(account) <==> accounts.contains(account)
                && account.get("id"@) == Some(JsonV::Str(id)),
    decreases accounts.len(),
{
    if accounts.len() > 0 {
        let head = accounts.drop_last();
        lemma_named(head, id);
        let (known, all) = (accounts_named(head, id), accounts_named(accounts, id));
        assert forall|account: JsonV| #[trigger] all.contains(account) <==> accounts.contains(
            account,
        ) && account.get("id"@) == Some(JsonV::Str(id)) by {
            if all.contains(account) {
                let k = choose|k: int| 0 <= k < all.len() && all[k] == account;
                if k < known.len() {
                    assert(known[k] == account);
                    assert(known.contains(account));
                    let m = choose|m: int| 0 <= m < head.len() && head[m] == account;
                    assert(accounts[m] == account);
                } else {
                    assert(accounts[accounts.len() - 1] == account);
                }
            }
            if accounts.contains(account) && account.get("id"@) == Some(JsonV::Str(id)) {
                let m = choose|m: int| 0 <= m < accounts.len() && accounts[m] == account;
                if m < head.len() {
                    assert(head[m] == account);
                    assert(known.contains(account));
                    let k = choose|k: int| 0 <= k < known.len() && known[k] == account;
                    assert(all[k] == account);
                } else {
                    assert(all[all.len() - 1] == account);
                }
            }
        }
    }
}

/// Of the accounts to ask those are asked whose provider can tell a balance, in
/// their order; one that was named is asked in any case.
pub proof fn providers_that_tell_are_asked(
    targets: Seq<JsonV>,
    account: JsonV,
    named: bool,
    telling: Seq<Seq<char>>,
    otherwise: Seq<char>,
)
    ensures
        ({
            let before = asked(targets, named, telling, otherwise);
            let after = asked(targets.push(account), named, telling, otherwise);
            if named || telling.contains(provider_of(account, otherwise)) {
                after == before.push(account)
            } else {
                after == before
            }
        }),
{
    assert(targets.push(account).drop_last() =~= targets);
}

/// What is answered is told: a usage as it is, at once or after a renewal, and a
/// failure with its words and its mark. Only a login that ran out is renewed.
pub proof fn answers_are_told(usage: JsonV, error: ErrorV, supports_refresh: bool)
    ensures
        step_on(UsageStage::First, Ok(usage), supports_refresh) == StepV::Done(
            UsageV::Usage(usage),
        ),
        step_on(UsageStage::Second, Ok(usage), supports_refresh) == StepV::Done(
            UsageV::Usage(usage),
        ),
        step_on(UsageStage::Renewing, Ok(usage), supports_refresh) == StepV::Again,
        error.status == 401 && supports_refresh <==> step_on(
            UsageStage::First,
            Err(error),
            supports_refresh,
        ) == StepV::Renew,
        error.status != 401 || !supports_refresh ==> step_on(
            UsageStage::First,
            Err(error),
            supports_refresh,
        ) == StepV::Done(UsageV::Failed { message: error.message, code: error.code }),
        step_on(UsageStage::Second, Err(error), supports_refresh) == StepV::Done(
            UsageV::Failed { message: error.message, code: error.code },
        ),
        step_on(UsageStage::Renewing, Err(error), supports_refresh) matches StepV::Done(
            UsageV::Failed { message, .. },
        ) && message == error.message,
{
}

/// A query that has to renew waits for the renewal, asks a second time after it, and
/// stays where it is once it is done.
pub proof fn queries_go_on(stage: UsageStage, outcome: StepV)
    ensures
        outcome is Renew ==> stage_after(stage, outcome) is Renewing,
        outcome is Again ==> stage_after(stage, outcome) is Second,
        outcome is Done ==> stage_after(stage, outcome) == stage,
{
}

} // verus!
