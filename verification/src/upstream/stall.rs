//! Giving up on a stream that has gone silent.
use crate::text;
use vstd::prelude::*;
use vstd::string::*;

verus! {

/// How the message of a stream given up begins.
pub const IDLE_TIMEOUT_PREFIX: &'static str = "流式响应空闲超时";

/// What the stream behind the guard has to offer.
#[derive(Debug, Clone, Copy, PartialEq, Eq, Structural)]
pub enum InnerPoll {
    Item,
    End,
    Pending,
}

/// What the guard does about it.
#[derive(Debug)]
pub enum GuardStep {
    /// Hand the item on and start the clock anew.
    Pass,
    /// The stream is over.
    End,
    /// Hand on this error; the stream is over.
    TimedOut(String),
    /// Wait.
    Wait,
}

/// The message of a stream given up after so many seconds.
pub open spec fn idle_text(seconds: nat) -> Seq<char> {
    IDLE_TIMEOUT_PREFIX@ + "("@ + text::decimal(seconds) + "秒)"@
}

/// What a step means.
#[verifier::ext_equal]
pub ghost enum GuardV {
    Pass,
    End,
    TimedOut(Seq<char>),
    Wait,
}

impl View for GuardStep {
    type V = GuardV;

    open spec fn view(&self) -> GuardV {
        match self {
            GuardStep::Pass => GuardV::Pass,
            GuardStep::End => GuardV::End,
            GuardStep::TimedOut(message) => GuardV::TimedOut(message@),
            GuardStep::Wait => GuardV::Wait,
        }
    }
}

/// What a guard does about what the stream offers.
pub open spec fn step_of(over: bool, inner: InnerPoll, elapsed: bool, seconds: nat) -> GuardV {
    if over {
        GuardV::End
    } else {
        match inner {
            InnerPoll::Item => GuardV::Pass,
            InnerPoll::End => GuardV::End,
            InnerPoll::Pending => if elapsed {
                GuardV::TimedOut(idle_text(seconds))
            } else {
                GuardV::Wait
            },
        }
    }
}

/// Whether a stream is over after so many polls, each with what it offered and
/// whether the clock had run out.
pub open spec fn over_after(polls: Seq<(InnerPoll, bool)>) -> bool
    decreases polls.len(),
{
    polls.len() > 0 && (over_after(polls.drop_last()) || polls.last().0 == InnerPoll::End || (
    polls.last().0 == InnerPoll::Pending && polls.last().1))
}

/// What a guard does at one of its polls.
pub open spec fn step_at(polls: Seq<(InnerPoll, bool)>, i: int, seconds: nat) -> GuardV {
    step_of(over_after(polls.take(i)), polls[i].0, polls[i].1, seconds)
}

proof fn lemma_over_stays(polls: Seq<(InnerPoll, bool)>, i: int)
    requires
        0 <= i <= polls.len(),
        over_after(polls.take(i)),
    ensures
        over_after(polls),
    decreases polls.len(),
{
    if i < polls.len() {
        assert(polls.drop_last().take(i) =~= polls.take(i));
        lemma_over_stays(polls.drop_last(), i);
    } else {
        assert(polls.take(i) =~= polls);
    }
}

/// A stream is given up once, and only in silence: what it offers is handed on
/// even where the clock has run out. Whatever ended it, it stays ended.
pub proof fn silence_is_told_once(polls: Seq<(InnerPoll, bool)>, i: int, j: int, seconds: nat)
    requires
        0 <= i < j < polls.len(),
    ensures
        step_at(polls, i, seconds) is TimedOut ==> polls[i].0 == InnerPoll::Pending && polls[i].1,
        step_at(polls, i, seconds) is TimedOut ==> step_at(polls, j, seconds) == GuardV::End,
        step_at(polls, i, seconds) is End ==> step_at(polls, j, seconds) == GuardV::End,
{
    if step_at(polls, i, seconds) is TimedOut || step_at(polls, i, seconds) is End {
        let known = polls.take(i + 1);
        assert(known.drop_last() =~= polls.take(i));
        assert(over_after(known));
        assert(polls.take(j).take(i + 1) =~= known);
        lemma_over_stays(polls.take(j), i + 1);
    }
}

/// Guards a stream against silence.
#[derive(Debug)]
pub struct IdleGuard {
    idle_secs: u64,
    done: bool,
}

impl IdleGuard {
    /// How long the stream may be silent.
    pub closed spec fn seconds(&self) -> nat {
        self.idle_secs as nat
    }

    /// Whether the stream is over.
    pub closed spec fn over(&self) -> bool {
        self.done
    }

    /// A guard for a stream that may be silent for so long.
    pub fn idle_guard(idle_secs: u64) -> (guard: Self)
        ensures
            guard.seconds() == idle_secs,
            !guard.over(),
    {
        IdleGuard { idle_secs, done: false }
    }

    /// What to do about what the stream offers; `elapsed` says that the clock has
    /// run out. Once the stream is over it stays so.
    pub fn poll(&mut self, inner: InnerPoll, elapsed: bool) -> (step: GuardStep)
        ensures
            final(self).seconds() == old(self).seconds(),
            final(self).over() == (old(self).over() || inner == InnerPoll::End || (inner
                == InnerPoll::Pending && elapsed)),
            step@ == step_of(old(self).over(), inner, elapsed, old(self).seconds()),
    {
        if self.done {
            return GuardStep::End;
        }
        match inner {
            InnerPoll::Item => GuardStep::Pass,
            InnerPoll::End => {
                self.done = true;
                GuardStep::End
            },
            InnerPoll::Pending => {
                if elapsed {
                    self.done = true;
                    let mut message = text::owned(IDLE_TIMEOUT_PREFIX);
                    message.append("(");
                    message.append(text::decimal_text(self.idle_secs).as_str());
                    message.append("秒)");
                    GuardStep::TimedOut(message)
                } else {
                    GuardStep::Wait
                }
            },
        }
    }
}

/// How a broken stream reads: the guard's own message as it is, any other after
/// `lead`.
pub open spec fn broken_text(lead: Seq<char>, reason: Seq<char>) -> Seq<char> {
    if IDLE_TIMEOUT_PREFIX@.is_prefix_of(reason) {
        reason
    } else {
        lead + reason
    }
}

/// How a broken stream reads: the guard's own message as it is, any other after
/// `lead`.
pub fn describe_broken(lead: &str, reason: &str) -> (message: String)
    ensures
        message@ == broken_text(lead@, reason@),
{
    if text::starts_with(reason, IDLE_TIMEOUT_PREFIX) {
        text::owned(reason)
    } else {
        let mut message = text::owned(lead);
        message.append(reason);
        message
    }
}

/// The message of a stream given up is told from that of any other.
pub proof fn idle_message_is_recognised(lead: Seq<char>, seconds: nat)
    ensures
        broken_text(lead, idle_text(seconds)) == idle_text(seconds),
{
    let whole = idle_text(seconds);
    assert(IDLE_TIMEOUT_PREFIX@ =~= whole.subrange(0, IDLE_TIMEOUT_PREFIX@.len() as int));
}

} // verus!
