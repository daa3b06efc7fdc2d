//! Asking for what is left on the accounts.
use crate::errors::{ErrorV, GatewayError};
use crate::json;
use crate::json::{Json, JsonV};
use crate::text;
use vstd::prelude::*;
use vstd::string::*;

verus! {

/// Accounts that cannot be found.
#[derive(Debug)]
pub struct TargetError {
    pub message: String,
    pub status_code: u16,
}

/// A flag of an account, set where it is not said.
pub open spec fn flag(account: JsonV, key: Seq<char>) -> bool {
    account.field(key) != JsonV::Bool(false)
}

/// A flag of an account, set where it is not said.
fn flag_of(account: &Json, key: &str) -> (set: bool)
    ensures
        set == flag(account@, key@),
{
    match account.get(key) {
        Some(value) => match value {
            Json::Bool(set) => *set,
            _ => true,
        },
        None => true,
    }
}

/// The provider of an account.
pub open spec fn provider_of(account: JsonV, otherwise: Seq<char>) -> Seq<char> {
    match account.text_at("provider"@) {
        Some(s) => s,
        None => otherwise,
    }
}

/// The provider of an account; one without belongs to `otherwise`.
pub fn account_provider(account: &Json, otherwise: &str) -> (provider: String)
    ensures
        provider@ == provider_of(account@, otherwise@),
{
    match account.text_at("provider") {
        Some(s) => text::owned(s),
        None => text::owned(otherwise),
    }
}

/// Whether an account belongs to the provider asked for.
pub open spec fn in_scope(
    account: JsonV,
    provider: Option<Seq<char>>,
    otherwise: Seq<char>,
) -> bool {
    provider is None || provider_of(account, otherwise) == provider.unwrap()
}

/// The accounts to be worked on, and how many are available but switched off.
#[verifier::ext_equal]
pub ghost struct TargetsV {
    pub targets: Seq<JsonV>,
    pub skipped: int,
}

/// The accounts that are available and switched on, and how many are not
/// switched on.
pub open spec fn targets_among(
    accounts: Seq<JsonV>,
    provider: Option<Seq<char>>,
    otherwise: Seq<char>,
) -> TargetsV
    decreases accounts.len(),
{
    if accounts.len() == 0 {
        TargetsV { targets: Seq::empty(), skipped: 0 }
    } else {
        let known = targets_among(accounts.drop_last(), provider, otherwise);
        let account = accounts.last();
        if !in_scope(account, provider, otherwise) || !flag(account, "available"@) {
            known
        } else if flag(account, "enabled"@) {
            TargetsV { targets: known.targets.push(account), ..known }
        } else {
            TargetsV { skipped: known.skipped + 1, ..known }
        }
    }
}

/// The accounts with an id.
pub open spec fn accounts_named(accounts: Seq<JsonV>, id: Seq<char>) -> Seq<JsonV>
    decreases accounts.len(),
{
    if accounts.len() == 0 {
        Seq::empty()
    } else if accounts.last().text_at("id"@) == Some(id) {
        accounts_named(accounts.drop_last(), id).push(accounts.last())
    } else {
        accounts_named(accounts.drop_last(), id)
    }
}

/// The accounts of a list of accounts.
pub open spec fn accounts_in(snapshot: JsonV) -> Seq<JsonV> {
    match snapshot.field("accounts"@).as_list() {
        Some(items) => items,
        None => Seq::empty(),
    }
}

/// What a batch works on: the account asked for by its id, whatever its state,
/// else all that are available and switched on.
pub open spec fn batch(
    snapshot: JsonV,
    provider: Option<Seq<char>>,
    id: Option<Seq<char>>,
    otherwise: Seq<char>,
) -> Option<TargetsV> {
    if id is Some && id.unwrap().len() > 0 {
        let found = accounts_named(accounts_in(snapshot), id.unwrap());
        if found.len() == 0 {
            None
        } else {
            Some(TargetsV { targets: found, skipped: 0 })
        }
    } else {
        Some(targets_among(accounts_in(snapshot), provider, otherwise))
    }
}

/// Whether an optional text is there and reads so.
fn reads(content: Option<&str>, wanted: &str) -> (yes: bool)
    ensures
        yes == (json::opt_text(content) == Some(wanted@)),
{
    match content {
        Some(s) => text::same(s, wanted),
        None => false,
    }
}

/// What a batch works on: the account asked for by its id, whatever its state,
/// else all that are available and switched on, with the number of those that
/// are only available. Accounts without a provider belong to `otherwise`.
pub fn resolve_batch_targets(
    snapshot: &Json,
    provider: Option<&str>,
    id: Option<&str>,
    otherwise: &str,
) -> (outcome: Result<(Vec<Json>, usize), TargetError>)
    ensures
        match batch(snapshot@, json::opt_text(provider), json::opt_text(id), otherwise@) {
            Some(b) => outcome is Ok && json::list_view(outcome->Ok_0.0@) == b.targets
                && outcome->Ok_0.1 == b.skipped,
            None => outcome is Err && outcome->Err_0.message@ == "账号不存在"@
                && outcome->Err_0.status_code == 404,
        },
{
    let mut targets: Vec<Json> = Vec::new();
    proof {
        json::lemma_list_empty(targets@);
    }
    let none: Vec<Json> = Vec::new();
    proof {
        json::lemma_list_empty(none@);
    }
    let accounts = match snapshot.list_at("accounts") {
        Some(accounts) => accounts,
        None => &none,
    };
    let ghost all = json::list_view(accounts@);
    assert(all =~= accounts_in(snapshot@));
    assert(all.take(0) =~= Seq::empty());
    let mut i: usize = 0;
    if let Some(id) = id {
        if !id.is_empty() {
            while i < accounts.len()
                invariant
                    all == json::list_view(accounts@),
                    i <= accounts.len(),
                    json::list_view(targets@) == accounts_named(all.take(i as int), id@),
                decreases accounts.len() - i,
            {
                assert(all.take(i as int + 1).drop_last() =~= all.take(i as int));
                assert(all.take(i as int + 1).last() == accounts@[i as int]@);
                if reads(accounts[i].text_at("id"), id) {
                    let copy = accounts[i].clone();
                    proof {
                        json::lemma_list_push(targets@, copy);
                    }
                    targets.push(copy);
                }
                i += 1;
            }
            assert(all.take(all.len() as int) =~= all);
            if targets.len() == 0 {
                return Err(TargetError { message: text::owned("账号不存在"), status_code: 404 });
            }
            return Ok((targets, 0));
        }
    }
    let mut skipped: usize = 0;
    while i < accounts.len()
        invariant
            all == json::list_view(accounts@),
            i <= accounts.len(),
            skipped <= i,
            json::list_view(targets@) == targets_among(
                all.take(i as int),
                json::opt_text(provider),
                otherwise@,
            ).targets,
            skipped == targets_among(
                all.take(i as int),
                json::opt_text(provider),
                otherwise@,
            ).skipped,
        decreases accounts.len() - i,
    {
        let account = &accounts[i];
        assert(all.take(i as int + 1).drop_last() =~= all.take(i as int));
        assert(all.take(i as int + 1).last() == account@);
        let own = account_provider(account, otherwise);
        let scoped = match provider {
            Some(provider) => text::same(own.as_str(), provider),
            None => true,
        };
        if scoped && flag_of(account, "available") {
            if flag_of(account, "enabled") {
                let copy = account.clone();
                proof {
                    json::lemma_list_push(targets@, copy);
                }
                targets.push(copy);
            } else {
                skipped += 1;
            }
        }
        i += 1;
    }
    assert(all.take(all.len() as int) =~= all);
    Ok((targets, skipped))
}

/// Every account that is worked on without being named is in scope, available
/// and switched on.
pub proof fn batches_hold_usable_accounts(
    accounts: Seq<JsonV>,
    provider: Option<Seq<char>>,
    otherwise: Seq<char>,
    i: int,
)
    requires
        0 <= i < targets_among(accounts, provider, otherwise).targets.len(),
    ensures
        ({
            let account = targets_among(accounts, provider, otherwise).targets[i];
            &&& accounts.contains(account)
            &&& in_scope(account, provider, otherwise)
            &&& flag(account, "available"@)
            &&& flag(account, "enabled"@)
        }),
    decreases accounts.len(),
{
    let front = accounts.drop_last();
    let known = targets_among(front, provider, otherwise);
    let account = targets_among(accounts, provider, otherwise).targets[i];
    if i < known.targets.len() {
        batches_hold_usable_accounts(front, provider, otherwise, i);
        let k = choose|k: int| 0 <= k < front.len() && front[k] == account;
        assert(accounts[k] == account);
    } else {
        assert(accounts[accounts.len() - 1] == account);
    }
}

/// What came of asking for an account.
#[derive(Debug)]
pub enum UsageOutcome {
    Usage(Json),
    /// The account has no credentials.
    NoCredentials,
    /// The request failed, with a mark for the interface.
    Failed { message: String, code: Option<String> },
}

/// What such an outcome means.
pub ghost enum UsageV {
    Usage(JsonV),
    NoCredentials,
    Failed { message: Seq<char>, code: Option<Seq<char>> },
}

impl View for UsageOutcome {
    type V = UsageV;

    open spec fn view(&self) -> UsageV {
        match self {
            UsageOutcome::Usage(usage) => UsageV::Usage(usage@),
            UsageOutcome::NoCredentials => UsageV::NoCredentials,
            UsageOutcome::Failed { message, code } => UsageV::Failed {
                message: message@,
                code: json::owned_text(*code),
            },
        }
    }
}

/// Whether an account has credentials; it has where nothing is said.
pub fn has_credentials(account: &Json) -> (yes: bool)
    ensures
        yes == flag(account@, "hasCredentials"@),
{
    flag_of(account, "hasCredentials")
}

/// Whether to renew the credentials and ask again: only where the login was
/// refused and the provider can renew it.
pub fn should_refresh(status_code: i32, supports_refresh: bool) -> (yes: bool)
    ensures
        yes == (status_code == 401 && supports_refresh),
{
    status_code == 401 && supports_refresh
}

/// The failure of an account whose provider is not known.
pub fn unknown_provider(provider_id: &str) -> (outcome: UsageOutcome)
    ensures
        outcome@ == (UsageV::Failed {
            message: "未知的提供商 "@ + provider_id@ + "，无法查询余额"@,
            code: None,
        }),
{
    let mut message = text::owned("未知的提供商 ");
    message.append(provider_id);
    message.append("，无法查询余额");
    UsageOutcome::Failed { message, code: None }
}

/// Whether an account is asked: always where it was named, else only where its
/// provider can tell what is left.
pub open spec fn is_asked(
    account: JsonV,
    named: bool,
    telling: Seq<Seq<char>>,
    otherwise: Seq<char>,
) -> bool {
    named || telling.contains(provider_of(account, otherwise))
}

/// The accounts that are asked, in their order.
pub open spec fn asked(
    targets: Seq<JsonV>,
    named: bool,
    telling: Seq<Seq<char>>,
    otherwise: Seq<char>,
) -> Seq<JsonV>
    decreases targets.len(),
{
    if targets.len() == 0 {
        Seq::empty()
    } else {
        let before = asked(targets.drop_last(), named, telling, otherwise);
        if is_asked(targets.last(), named, telling, otherwise) {
            before.push(targets.last())
        } else {
            before
        }
    }
}

/// Whether a text is in a list.
fn is_in(list: &Vec<String>, wanted: &str) -> (yes: bool)
    ensures
        yes == text::views(list@).contains(wanted@),
{
    let mut i: usize = 0;
    while i < list.len()
        invariant
            i <= list.len(),
            forall|k: int| 0 <= k < i ==> (#[trigger] list@[k])@ != wanted@,
        decreases list.len() - i,
    {
        if text::same(list[i].as_str(), wanted) {
            assert(text::views(list@)[i as int] == wanted@);
            return true;
        }
        i += 1;
    }
    assert(forall|k: int| 0 <= k < list@.len() ==> text::views(list@)[k] == (#[trigger] list@[k])@);
    false
}

/// The accounts that are asked, in their order: one that was named in any case,
/// others only where their provider is among those that can tell what is left.
pub fn supports_usage(
    targets: &Vec<Json>,
    named: bool,
    telling: &Vec<String>,
    otherwise: &str,
) -> (list: Vec<Json>)
    ensures
        json::list_view(list@) == asked(
            json::list_view(targets@),
            named,
            text::views(telling@),
            otherwise@,
        ),
{
    broadcast use {json::lemma_list_push, json::lemma_list_empty};

    let ghost all = json::list_view(targets@);
    let mut list: Vec<Json> = Vec::new();
    let mut i: usize = 0;
    assert(all.take(0) =~= Seq::empty());
    while i < targets.len()
        invariant
            all == json::list_view(targets@),
            i <= targets.len(),
            json::list_view(list@) == asked(
                all.take(i as int),
                named,
                text::views(telling@),
                otherwise@,
            ),
        decreases targets.len() - i,
    {
        assert(all.take(i as int + 1).drop_last() =~= all.take(i as int));
        assert(all.take(i as int + 1).last() == targets@[i as int]@);
        let own = account_provider(&targets[i], otherwise);
        if named || is_in(telling, own.as_str()) {
            list.push(targets[i].clone());
        }
        i += 1;
    }
    assert(all.take(all.len() as int) =~= all);
    list
}

/// How far asking for one account has got.
#[derive(Debug, Clone, Copy, PartialEq, Eq, Structural)]
pub enum UsageStage {
    /// The first answer is awaited.
    First,
    /// The renewal of the credentials is awaited.
    Renewing,
    /// The answer after the renewal is awaited.
    Second,
}

/// What is to be done next for one account.
#[derive(Debug)]
pub enum UsageStep {
    /// Renew the credentials.
    Renew,
    /// Ask again.
    Again,
    Done(UsageOutcome),
}

/// What that means.
pub ghost enum StepV {
    Renew,
    Again,
    Done(UsageV),
}

impl View for UsageStep {
    type V = StepV;

    open spec fn view(&self) -> StepV {
        match self {
            UsageStep::Renew => StepV::Renew,
            UsageStep::Again => StepV::Again,
            UsageStep::Done(outcome) => StepV::Done(outcome@),
        }
    }
}

/// What an answer means.
pub open spec fn answer_view(answer: Result<Json, GatewayError>) -> Result<JsonV, ErrorV> {
    match answer {
        Ok(usage) => Ok(usage@),
        Err(e) => Err(e@),
    }
}

/// What is to be done once something that was awaited is there. What a renewal
/// answers with does not matter, only whether it failed.
pub open spec fn step_on(
    stage: UsageStage,
    answer: Result<JsonV, ErrorV>,
    supports_refresh: bool,
) -> StepV {
    match answer {
        Ok(usage) => match stage {
            UsageStage::Renewing => StepV::Again,
            _ => StepV::Done(UsageV::Usage(usage)),
        },
        Err(e) => match stage {
            UsageStage::First => if e.status == 401 && supports_refresh {
                StepV::Renew
            } else {
                StepV::Done(UsageV::Failed { message: e.message, code: e.code })
            },
            UsageStage::Renewing => StepV::Done(UsageV::Failed { message: e.message, code: None }),
            UsageStage::Second => StepV::Done(UsageV::Failed { message: e.message, code: e.code }),
        },
    }
}

/// What is awaited after a step.
pub open spec fn stage_after(stage: UsageStage, step: StepV) -> UsageStage {
    match step {
        StepV::Renew => UsageStage::Renewing,
        StepV::Again => UsageStage::Second,
        StepV::Done(_) => stage,
    }
}

/// What is to be done once something that was awaited is there, and what is
/// awaited then. The credentials are renewed only where the login was refused
/// and the provider can renew it, and only once.
pub fn query_usage_inner(
    stage: UsageStage,
    answer: Result<Json, GatewayError>,
    supports_refresh: bool,
) -> (next: (UsageStage, UsageStep))
    ensures
        next.1@ == step_on(stage, answer_view(answer), supports_refresh),
        next.0 == stage_after(stage, next.1@),
{
    match answer {
        Ok(usage) => match stage {
            UsageStage::Renewing => (UsageStage::Second, UsageStep::Again),
            _ => (stage, UsageStep::Done(UsageOutcome::Usage(usage))),
        },
        Err(error) => match stage {
            UsageStage::First => if should_refresh(error.status_code, supports_refresh) {
                (UsageStage::Renewing, UsageStep::Renew)
            } else {
                (
                    stage,
                    UsageStep::Done(
                        UsageOutcome::Failed { message: error.message, code: error.code },
                    ),
                )
            },
            UsageStage::Renewing => (
                stage,
                UsageStep::Done(UsageOutcome::Failed { message: error.message, code: None }),
            ),
            UsageStage::Second => (
                stage,
                UsageStep::Done(UsageOutcome::Failed { message: error.message, code: error.code }),
            ),
        },
    }
}

/// Asking for an account comes to an end: after a renewal only one more answer is
/// awaited, and that ends it.
pub proof fn credentials_are_renewed_once(
    first: Result<JsonV, ErrorV>,
    renewal: Result<JsonV, ErrorV>,
    second: Result<JsonV, ErrorV>,
    supports_refresh: bool,
)
    requires
        step_on(UsageStage::First, first, supports_refresh) is Renew,
    ensures
        supports_refresh,
        first matches Err(e) && e.status == 401,
        !(step_on(UsageStage::Renewing, renewal, supports_refresh) is Renew),
        step_on(UsageStage::Second, second, supports_refresh) is Done,
{
}

/// The row of an account in the report.
pub open spec fn row(account: JsonV, outcome: UsageV) -> JsonV {
    let id = match account.text_at("id"@) {
        Some(s) => s,
        None => Seq::empty(),
    };
    let name = account.field("name"@);
    match outcome {
        UsageV::Usage(usage) => JsonV::object().put("id"@, JsonV::Str(id)).put("name"@, name).put(
            "usage"@,
            usage,
        ).put("error"@, JsonV::Null),
        UsageV::NoCredentials => JsonV::object().put("id"@, JsonV::Str(id)).put(
            "usage"@,
            JsonV::Null,
        ).put("error"@, JsonV::Str("没有可用凭证"@)),
        UsageV::Failed { message, code } => JsonV::object().put("id"@, JsonV::Str(id)).put(
            "name"@,
            name,
        ).put("usage"@, JsonV::Null).put("error"@, JsonV::Str(message)).put(
            "code"@,
            match code {
                Some(c) => JsonV::Str(c),
                None => JsonV::Null,
            },
        ),
    }
}

/// The row of an account in the report. A failure is a row too: it does not stop
/// the others.
pub fn usage_row(account: &Json, outcome: &UsageOutcome) -> (out: Json)
    ensures
        out@ == row(account@, outcome@),
{
    let id = match account.text_at("id") {
        Some(s) => text::owned(s),
        None => String::new(),
    };
    let mut out = Json::object();
    out.put("id", Json::Text(id));
    match outcome {
        UsageOutcome::Usage(usage) => {
            out.put("name", account.field("name"));
            out.put("usage", usage.clone());
            out.put("error", Json::Null);
        },
        UsageOutcome::NoCredentials => {
            out.put("usage", Json::Null);
            out.put("error", Json::text("没有可用凭证"));
        },
        UsageOutcome::Failed { message, code } => {
            out.put("name", account.field("name"));
            out.put("usage", Json::Null);
            out.put("error", Json::text(message.as_str()));
            out.put(
                "code",
                match code {
                    Some(c) => Json::text(c.as_str()),
                    None => Json::Null,
                },
            );
        },
    }
    out
}

/// The report on many accounts.
pub open spec fn report_of(rows: Seq<JsonV>, skipped: int) -> JsonV {
    JsonV::object().put("results"@, JsonV::Arr(rows)).put("skipped"@, JsonV::Int(skipped))
}

/// The report on the accounts that were asked for.
pub fn query_all(results: Vec<Json>, skipped: usize) -> (report: Json)
    ensures
        report@ == report_of(json::list_view(results@), skipped as int),
{
    let mut report = Json::object();
    report.put("results", Json::list(results));
    report.put("skipped", Json::Natural(skipped as u64));
    report
}

/// How many rows of a report hold a usage.
pub open spec fn successes(rows: Seq<JsonV>) -> int
    decreases rows.len(),
{
    if rows.len() == 0 {
        0
    } else {
        successes(rows.drop_last()) + if rows.last().field("usage"@) == JsonV::Null {
            0int
        } else {
            1int
        }
    }
}

/// The rows of a report.
pub open spec fn rows_in(report: JsonV) -> Seq<JsonV> {
    match report.field("results"@).as_list() {
        Some(rows) => rows,
        None => Seq::empty(),
    }
}

/// What is kept of a report.
pub open spec fn kept_report(report: JsonV, now_ms: int) -> JsonV {
    JsonV::object().put("at"@, JsonV::Int(now_ms)).put("results"@, JsonV::Arr(rows_in(report))).put(
        "skipped"@,
        match report.get("skipped"@) {
            Some(v) => v,
            None => JsonV::Int(0),
        },
    )
}

/// What is kept of a report, and how many of its rows hold a usage and how many
/// do not. Failures are kept too.
pub fn store_snapshot(report: &Json, now_ms: i64) -> (kept: (Json, usize, usize))
    ensures
        kept.0@ == kept_report(report@, now_ms as int),
        kept.1 == successes(rows_in(report@)),
        kept.1 + kept.2 == rows_in(report@).len(),
{
    let rows = match report.list_at("results") {
        Some(rows) => json::clone_list(rows),
        None => Vec::new(),
    };
    let ghost all = json::list_view(rows@);
    assert(all =~= rows_in(report@));
    let mut ok: usize = 0;
    let mut i: usize = 0;
    assert(all.take(0) =~= Seq::empty());
    while i < rows.len()
        invariant
            all == json::list_view(rows@),
            i <= rows.len(),
            ok <= i,
            ok == successes(all.take(i as int)),
        decreases rows.len() - i,
    {
        assert(all.take(i as int + 1).drop_last() =~= all.take(i as int));
        assert(all.take(i as int + 1).last() == rows@[i as int]@);
        if !rows[i].field("usage").is_null() {
            ok += 1;
        }
        i += 1;
    }
    assert(all.take(all.len() as int) =~= all);
    let failed: usize = rows.len() - ok;
    let mut kept = Json::object();
    kept.put("at", Json::number(now_ms));
    kept.put("results", Json::list(rows));
    kept.put(
        "skipped",
        match report.get("skipped") {
            Some(value) => value.clone(),
            None => Json::number(0),
        },
    );
    (kept, ok, failed)
}

/// The report kept last, or an empty one.
pub fn snapshot(kept: Option<&Json>) -> (report: Json)
    ensures
        report@ == match json::opt_view(kept) {
            Some(v) => v,
            None => JsonV::object().put("at"@, JsonV::Int(0)).put(
                "results"@,
                JsonV::Arr(Seq::empty()),
            ).put("skipped"@, JsonV::Int(0)),
        },
{
    match kept {
        Some(report) => report.clone(),
        None => {
            let rows: Vec<Json> = Vec::new();
            proof {
                json::lemma_list_empty(rows@);
            }
            let mut report = Json::object();
            report.put("at", Json::number(0));
            report.put("results", Json::list(rows));
            report.put("skipped", Json::number(0));
            report
        },
    }
}

} // verus!
