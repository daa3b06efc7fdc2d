//! Ending a request by hand.
use super::stall::InnerPoll;
use crate::errors::{ErrorV, GatewayError};
use crate::text;
use vstd::hash_map::StringHashMap;
use vstd::prelude::*;
use vstd::string::*;

verus! {

/// How a request ended by hand reads.
pub const MANUAL_TERMINATED: &'static str = "请求已被手动终止";

/// The status of a request ended by hand.
pub const MANUAL_TERMINATED_STATUS: i64 = 408;

/// The error of a request ended by hand.
pub fn cancelled_error() -> (error: GatewayError)
    ensures
        error@ == ErrorV::plain(MANUAL_TERMINATED_STATUS as int, MANUAL_TERMINATED@),
{
    GatewayError::with_status(MANUAL_TERMINATED_STATUS as i32, MANUAL_TERMINATED)
}

/// Whether a request has been ended by hand. It goes one way only.
#[derive(Debug)]
pub struct CancelToken {
    flag: bool,
}

impl CancelToken {
    /// Whether the request has been ended.
    pub closed spec fn ended(&self) -> bool {
        self.flag
    }

    /// A token of a request that goes on.
    pub fn new() -> (token: Self)
        ensures
            !token.ended(),
    {
        CancelToken { flag: false }
    }

    /// Ends the request; ending it again does nothing.
    pub fn cancel(&mut self)
        ensures
            final(self).ended(),
            old(self).ended() ==> *final(self) == *old(self),
    {
        self.flag = true;
    }

    /// Whether the request has been ended.
    pub fn is_cancelled(&self) -> (yes: bool)
        ensures
            yes == self.ended(),
    {
        self.flag
    }
}

/// What a stream that can be ended by hand does next.
#[derive(Debug, Clone, Copy, PartialEq, Eq, Structural)]
pub enum CancellableStep {
    /// Hand the item on.
    Pass,
    /// The stream is over.
    End,
    /// Hand on the error of a request ended by hand; the stream is over.
    Cancelled,
    /// Wait.
    Wait,
}

/// What a stream does about what the one behind offers. Ending by hand goes before
/// what it offers.
pub open spec fn step_of(over: bool, cancelled: bool, inner: InnerPoll) -> CancellableStep {
    if over {
        CancellableStep::End
    } else if cancelled {
        CancellableStep::Cancelled
    } else {
        match inner {
            InnerPoll::Item => CancellableStep::Pass,
            InnerPoll::End => CancellableStep::End,
            InnerPoll::Pending => CancellableStep::Wait,
        }
    }
}

/// Whether a stream is over after so many polls, each with whether the request had
/// been ended by then and what the stream behind offered.
pub open spec fn over_after(polls: Seq<(bool, InnerPoll)>) -> bool
    decreases polls.len(),
{
    polls.len() > 0 && (over_after(polls.drop_last()) || polls.last().0 || polls.last().1
        == InnerPoll::End)
}

/// What a stream does at one of its polls.
pub open spec fn step_at(polls: Seq<(bool, InnerPoll)>, i: int) -> CancellableStep {
    step_of(over_after(polls.take(i)), polls[i].0, polls[i].1)
}

proof fn lemma_over_stays(polls: Seq<(bool, InnerPoll)>, i: int)
    requires
        0 <= i <= polls.len(),
        over_after(polls.take(i)),
    ensures
        over_after(polls),
    decreases polls.len(),
{
    if i < polls.len() {
        assert(polls.drop_last().take(i) =~= polls.take(i));
        lemma_over_stays(polls.drop_last(), i);
    } else {
        assert(polls.take(i) =~= polls);
    }
}

/// A stream that was ended by hand says so once, and whatever ended it, it stays
/// ended. The end of the stream behind ends it at once: it does not wait to be
/// ended by hand.
pub proof fn ended_streams_stay_ended(polls: Seq<(bool, InnerPoll)>, i: int, j: int)
    requires
        0 <= i < j < polls.len(),
    ensures
        step_at(polls, i) == CancellableStep::Cancelled ==> step_at(polls, j)
            == CancellableStep::End,
        step_at(polls, i) == CancellableStep::End ==> step_at(polls, j) == CancellableStep::End,
        polls[i].1 == InnerPoll::End ==> step_at(polls, i) == CancellableStep::End || step_at(
            polls,
            i,
        ) == CancellableStep::Cancelled,
{
    if step_at(polls, i) == CancellableStep::Cancelled || step_at(polls, i)
        == CancellableStep::End {
        let known = polls.take(i + 1);
        assert(known.drop_last() =~= polls.take(i));
        assert(over_after(known));
        assert(polls.take(j).take(i + 1) =~= known);
        lemma_over_stays(polls.take(j), i + 1);
    }
}

/// A stream that can be ended by hand.
#[derive(Debug)]
pub struct CancellableStream {
    done: bool,
}

impl CancellableStream {
    /// Whether the stream is over.
    pub closed spec fn over(&self) -> bool {
        self.done
    }

    /// A stream that has not begun.
    pub fn cancellable() -> (stream: Self)
        ensures
            !stream.over(),
    {
        CancellableStream { done: false }
    }

    /// What to do about what the stream behind offers. Ending by hand goes
    /// before what it offers, and its own end ends the stream at once.
    pub fn poll(&mut self, cancelled: bool, inner: InnerPoll) -> (step: CancellableStep)
        ensures
            final(self).over() == (old(self).over() || cancelled || inner == InnerPoll::End),
            step == step_of(old(self).over(), cancelled, inner),
    {
        if self.done {
            return CancellableStep::End;
        }
        if cancelled {
            self.done = true;
            return CancellableStep::Cancelled;
        }
        match inner {
            InnerPoll::Item => CancellableStep::Pass,
            InnerPoll::End => {
                self.done = true;
                CancellableStep::End
            },
            InnerPoll::Pending => CancellableStep::Wait,
        }
    }
}

/// The requests under way, each with its token, by their ids without the white
/// space around them.
#[verifier::reject_recursive_types(T)]
pub struct Registry<T> {
    tokens: StringHashMap<T>,
}

impl<T> View for Registry<T> {
    type V = Map<Seq<char>, T>;

    closed spec fn view(&self) -> Map<Seq<char>, T> {
        self.tokens@
    }
}

/// The requests under way with one more; one without an id is not taken in.
pub open spec fn with_request<T>(known: Map<Seq<char>, T>, id: Seq<char>, token: T) -> Map<
    Seq<char>,
    T,
> {
    if text::trimmed(id).len() > 0 {
        known.insert(text::trimmed(id), token)
    } else {
        known
    }
}

/// The requests under way without one.
pub open spec fn without_request<T>(known: Map<Seq<char>, T>, id: Seq<char>) -> Map<Seq<char>, T> {
    if text::trimmed(id).len() > 0 {
        known.remove(text::trimmed(id))
    } else {
        known
    }
}

/// The token of a request under way.
pub open spec fn token_of<T>(known: Map<Seq<char>, T>, id: Seq<char>) -> Option<T> {
    if text::trimmed(id).len() > 0 && known.contains_key(text::trimmed(id)) {
        Some(known[text::trimmed(id)])
    } else {
        None
    }
}

/// A request can be ended from when it is taken in until it is taken out, and no
/// longer. The last one taken in under an id counts, and other requests are left
/// alone.
pub proof fn requests_under_way_can_be_ended<T>(
    known: Map<Seq<char>, T>,
    id: Seq<char>,
    token: T,
    other: Seq<char>,
)
    requires
        text::trimmed(id).len() > 0,
    ensures
        token_of(with_request(known, id, token), id) == Some(token),
        token_of(without_request(known, id), id) is None,
        without_request(without_request(known, id), id) == without_request(known, id),
        text::trimmed(other) != text::trimmed(id) ==> {
            &&& token_of(with_request(known, id, token), other) == token_of(known, other)
            &&& token_of(without_request(known, id), other) == token_of(known, other)
        },
{
    assert(without_request(without_request(known, id), id) =~= without_request(known, id));
}

impl<T> Registry<T> {
    /// No requests.
    pub fn new() -> (registry: Self)
        ensures
            registry@ == Map::<Seq<char>, T>::empty(),
    {
        Registry { tokens: StringHashMap::new() }
    }

    /// Takes a request in; one without an id is not. A token of the same id is
    /// replaced.
    pub fn register(&mut self, id: &str, token: T) -> (taken: bool)
        ensures
            taken == (text::trimmed(id@).len() > 0),
            final(self)@ == with_request(old(self)@, id@, token),
    {
        let id = text::trim(id);
        if id.is_empty() {
            return false;
        }
        self.tokens.insert(text::owned(id), token);
        true
    }

    /// Takes a request out; one that is not there does no harm.
    pub fn unregister(&mut self, id: &str)
        ensures
            final(self)@ == without_request(old(self)@, id@),
    {
        let id = text::trim(id);
        if id.is_empty() {
            return;
        }
        self.tokens.remove(id);
    }

    /// The token of a request that is to be ended, or nothing where no such
    /// request is under way.
    pub fn cancel(&self, id: &str) -> (token: Option<&T>)
        ensures
            match token {
                Some(t) => token_of(self@, id@) == Some(*t),
                None => token_of(self@, id@) is None,
            },
    {
        let id = text::trim(id);
        if id.is_empty() {
            return None;
        }
        self.tokens.get(id)
    }
}

} // verus!
