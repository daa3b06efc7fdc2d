//! Reaching the place where updates are published.
use crate::json;
use crate::json::{Json, JsonV};
use crate::proxies;
use crate::proxies::{ClashSnapshot, ClashV, ProxyV, ResolvedProxy, CLASH_MIXED_UID};
use crate::text;
use crate::urls;
use vstd::prelude::*;
use vstd::string::*;

verus! {

/// The first of two tokens that is not blank.
pub open spec fn token_of(own: Option<Seq<char>>, common: Option<Seq<char>>) -> Option<Seq<char>> {
    if own is Some && text::trimmed(own.unwrap()).len() > 0 {
        Some(text::trimmed(own.unwrap()))
    } else if common is Some && text::trimmed(common.unwrap()).len() > 0 {
        Some(text::trimmed(common.unwrap()))
    } else {
        None
    }
}

/// The headers of a request.
pub open spec fn headers_with(token: Option<Seq<char>>) -> Seq<(Seq<char>, Seq<char>)> {
    let plain = Seq::empty().push(("Accept"@, "application/vnd.github+json"@)).push(
        ("User-Agent"@, "workbuddy-local-proxy"@),
    ).push(("X-GitHub-Api-Version"@, "2022-11-28"@));
    match token {
        Some(t) => plain.push(("Authorization"@, "Bearer "@ + t)),
        None => plain,
    }
}

/// A text that is not blank, trimmed.
fn not_blank(content: Option<&str>) -> (inner: Option<&str>)
    ensures
        match content {
            Some(s) => json::opt_text(inner) == if text::trimmed(s@).len() > 0 {
                Some(text::trimmed(s@))
            } else {
                None
            },
            None => inner is None,
        },
{
    match content {
        Some(s) => {
            let inner = text::trim(s);
            if inner.is_empty() {
                None
            } else {
                Some(inner)
            }
        },
        None => None,
    }
}

/// The headers of a request, with the program's own token, else the common one.
pub fn github_headers(own: Option<&str>, common: Option<&str>) -> (headers: Vec<(String, String)>)
    ensures
        urls::pairs_view(headers@) == headers_with(
            token_of(json::opt_text(own), json::opt_text(common)),
        ),
{
    let mut headers = urls::no_pairs();
    urls::push_pair(&mut headers, "Accept", "application/vnd.github+json");
    urls::push_pair(&mut headers, "User-Agent", "workbuddy-local-proxy");
    urls::push_pair(&mut headers, "X-GitHub-Api-Version", "2022-11-28");
    let token = match not_blank(own) {
        Some(token) => Some(token),
        None => not_blank(common),
    };
    if let Some(token) = token {
        let mut bearer = text::owned("Bearer ");
        bearer.append(token);
        urls::push_pair(&mut headers, "Authorization", bearer.as_str());
    }
    headers
}

/// A way out.
#[derive(Debug)]
pub struct Candidate {
    pub label: String,
    /// Nothing is the direct way.
    pub proxy: Option<ResolvedProxy>,
}

/// What a way out means.
#[verifier::ext_equal]
pub ghost struct CandidateV {
    pub label: Seq<char>,
    pub proxy: Option<ProxyV>,
}

impl View for Candidate {
    type V = CandidateV;

    open spec fn view(&self) -> CandidateV {
        CandidateV {
            label: self.label@,
            proxy: match self.proxy {
                Some(p) => Some(p@),
                None => None,
            },
        }
    }
}

/// The ways out: directly, then by the mixed port of the local proxy program.
pub open spec fn ways_out(clash: ClashV) -> Seq<CandidateV> {
    let direct = Seq::empty().push(CandidateV { label: "直连"@, proxy: None });
    match proxies::clash_resolved(CLASH_MIXED_UID@, clash) {
        proxies::ResolutionV::Resolved(proxy) => direct.push(
            CandidateV { label: proxy.label, proxy: Some(proxy) },
        ),
        _ => direct,
    }
}

/// The ways out: directly, then by the mixed port of the local proxy program,
/// where it is open.
pub fn resolve_egress_candidates(clash: &ClashSnapshot) -> (candidates: Vec<Candidate>)
    ensures
        candidates@.map_values(|c: Candidate| c@) == ways_out(clash@),
{
    let mut candidates: Vec<Candidate> = Vec::new();
    candidates.push(Candidate { label: text::owned("直连"), proxy: None });
    let ghost direct = candidates@;
    if let proxies::ProxyResolution::Resolved(proxy) = proxies::resolve_clash(
        CLASH_MIXED_UID,
        clash,
    ) {
        let label = text::owned(proxy.label.as_str());
        candidates.push(Candidate { label, proxy: Some(proxy) });
    }
    assert(candidates@.map_values(|c: Candidate| c@) =~= ways_out(clash@));
    candidates
}

/// How it reads that no way out led anywhere.
pub fn unreachable_text(last_error: Option<&str>) -> (message: String)
    ensures
        message@ == "无法连接 GitHub："@ + (match json::opt_text(last_error) {
            Some(e) => e,
            None => "未知错误"@,
        }),
{
    let mut message = text::owned("无法连接 GitHub：");
    match last_error {
        Some(error) => message.append(error),
        None => message.append("未知错误"),
    }
    message
}

/// How far a request has got in trying the ways out, one after the other.
#[derive(Debug)]
pub struct EgressRun {
    tried: usize,
    last_error: Option<String>,
}

/// What is to be done next.
#[derive(Debug)]
pub enum EgressStep {
    /// Try the way out at this place.
    Try(usize),
    /// Give up, with this message.
    GiveUp(String),
}

/// What that means.
pub ghost enum StepV {
    Try(int),
    GiveUp(Seq<char>),
}

impl View for EgressStep {
    type V = StepV;

    open spec fn view(&self) -> StepV {
        match self {
            EgressStep::Try(i) => StepV::Try(*i as int),
            EgressStep::GiveUp(message) => StepV::GiveUp(message@),
        }
    }
}

/// What is to be done after so many ways out have failed, for these reasons.
pub open spec fn step_after(failures: Seq<Seq<char>>, ways: int) -> StepV {
    if failures.len() < ways {
        StepV::Try(failures.len() as int)
    } else {
        StepV::GiveUp(
            "无法连接 GitHub："@ + if failures.len() > 0 {
                failures.last()
            } else {
                "未知错误"@
            },
        )
    }
}

impl EgressRun {
    /// Whether these are the ways out that have failed so far, by their reasons.
    pub closed spec fn has_failed(&self, failures: Seq<Seq<char>>) -> bool {
        &&& self.tried == failures.len()
        &&& json::owned_text(self.last_error) == if failures.len() > 0 {
            Some(failures.last())
        } else {
            None
        }
    }

    /// A run in which nothing has been tried.
    pub fn new() -> (run: Self)
        ensures
            run.has_failed(Seq::empty()),
    {
        EgressRun { tried: 0, last_error: None }
    }

    /// What is to be done: every way out is tried once, in order, until one
    /// leads somewhere.
    pub fn next(&self, candidates: &Vec<Candidate>) -> (step: EgressStep)
        ensures
            forall|failures: Seq<Seq<char>>| #[trigger]
                self.has_failed(failures) ==> step@ == step_after(
                    failures,
                    candidates@.len() as int,
                ),
    {
        if self.tried < candidates.len() {
            return EgressStep::Try(self.tried);
        }
        let reason = match &self.last_error {
            Some(error) => Some(error.as_str()),
            None => None,
        };
        EgressStep::GiveUp(unreachable_text(reason))
    }

    /// Takes note that the way out that was to be tried failed.
    pub fn failed(&mut self, candidates: &Vec<Candidate>, reason: &str)
        requires
            old(self).has_more(candidates@.len()),
        ensures
            forall|failures: Seq<Seq<char>>| #[trigger]
                old(self).has_failed(failures) ==> final(self).has_failed(
                    failures.push(reason@),
                ),
    {
        assert(self.tried < candidates.len());
        self.tried = self.tried + 1;
        self.last_error = Some(text::owned(reason));
    }

    /// Whether there is a way out that has not been tried.
    pub closed spec fn has_more(&self, ways: nat) -> bool {
        self.tried < ways
    }

    /// Whether there is a way out that has not been tried.
    pub fn has_untried(&self, candidates: &Vec<Candidate>) -> (yes: bool)
        ensures
            yes == self.has_more(candidates@.len()),
    {
        self.tried < candidates.len()
    }
}

/// The ways out for people, given how each proxy is shown.
pub open spec fn candidates_shown(candidates: Seq<CandidateV>, shown: Seq<JsonV>) -> Seq<JsonV> {
    Seq::new(
        candidates.len(),
        |i: int|
            JsonV::object().put("label"@, JsonV::Str(candidates[i].label)).put("proxy"@, shown[i]),
    )
}

/// The ways out for people, given how each proxy is shown.
pub fn describe_candidates(candidates: &Vec<Candidate>, shown: &Vec<Json>) -> (list: Json)
    requires
        shown@.len() == candidates@.len(),
    ensures
        list@ == JsonV::Arr(
            candidates_shown(
                candidates@.map_values(|c: Candidate| c@),
                json::list_view(shown@),
            ),
        ),
{
    broadcast use {json::lemma_list_push, json::lemma_list_empty};

    let ghost wanted = candidates_shown(
        candidates@.map_values(|c: Candidate| c@),
        json::list_view(shown@),
    );
    let mut list: Vec<Json> = Vec::new();
    let mut i: usize = 0;
    assert(wanted.take(0) =~= Seq::empty());
    while i < candidates.len()
        invariant
            shown@.len() == candidates@.len(),
            i <= candidates.len(),
            wanted == candidates_shown(
                candidates@.map_values(|c: Candidate| c@),
                json::list_view(shown@),
            ),
            json::list_view(list@) == wanted.take(i as int),
        decreases candidates.len() - i,
    {
        let mut item = Json::object();
        item.put("label", Json::text(candidates[i].label.as_str()));
        item.put("proxy", shown[i].clone());
        assert(item@ == wanted[i as int]);
        list.push(item);
        assert(wanted.take(i as int + 1) =~= wanted.take(i as int).push(wanted[i as int]));
        i += 1;
    }
    assert(wanted.take(wanted.len() as int) =~= wanted);
    Json::list(list)
}

/// The direct way comes first, and behind it stands at most one more, by a proxy.
pub proof fn the_direct_way_comes_first(clash: ClashV)
    ensures
        ({
            let ways = ways_out(clash);
            &&& 1 <= ways.len() <= 2
            &&& ways[0].proxy is None
            &&& ways.len() == 2 ==> ways[1].proxy is Some
        }),
{
}

} // verus!
