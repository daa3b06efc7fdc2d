//! One renewal at a time for each set of credentials.
//!
//! The first to ask for a key leads and does the work; whoever asks while it is
//! under way waits for the same outcome. Only what is under way is kept: once it
//! has ended, the next to ask leads anew.
use crate::digest;
use crate::errors::{ErrorV, GatewayError};
use crate::text;
use vstd::hash_map::StringHashMap;
use vstd::prelude::*;
use vstd::utf8::*;

verus! {

/// How often to look for the outcome.
pub const WAIT_STEPS: usize = 150;

/// How long to wait between two looks.
pub const WAIT_STEP_MS: u64 = 200;

/// What those who wait are told where the leader was stopped.
pub const CANCELLED_MESSAGE: &'static str = "刷新已被取消，请稍后重试";

/// What those are told who have waited too long.
pub const WAIT_TIMEOUT_MESSAGE: &'static str = "token 正在刷新中，请稍后重试";

/// The mark of a secret: the first half of its digest.
pub open spec fn mark_of(secret: Seq<char>) -> Seq<char> {
    digest::hex_of(digest::sha256_of(encode_utf8(secret)).take(16))
}

/// Whether a text has the form of a mark: sixteen bytes in hexadecimal.
pub open spec fn is_mark(s: Seq<char>) -> bool {
    exists|bytes: Seq<u8>| bytes.len() == 16 && s == #[trigger] digest::hex_of(bytes)
}

/// A mark has 32 characters, all of them hexadecimal digits.
pub proof fn lemma_mark(s: Seq<char>)
    requires
        is_mark(s),
    ensures
        s.len() == 32,
        forall|i: int| 0 <= i < 32 ==> '0' <= #[trigger] s[i] <= 'f',
{
    let bytes = choose|bytes: Seq<u8>| bytes.len() == 16 && s == #[trigger] digest::hex_of(bytes);
    digest::lemma_hex_len(bytes);
    assert forall|i: int| 0 <= i < 32 implies '0' <= #[trigger] s[i] <= 'f' by {
        digest::lemma_hex_at(bytes, i / 2);
        assert(i == 2 * (i / 2) || i == 2 * (i / 2) + 1);
    }
}

/// The mark of a secret: the first half of its digest. It is as secret as the
/// secret.
pub fn fingerprint(secret: &str) -> (mark: String)
    ensures
        mark@ == mark_of(secret@),
        is_mark(mark@),
{
    let whole = digest::sha256(secret.as_bytes());
    let mut half: Vec<u8> = Vec::new();
    let mut i: usize = 0;
    while i < 16
        invariant
            whole@.len() == 32,
            i <= 16,
            half@ == whole@.take(i as int),
        decreases 16 - i,
    {
        half.push(whole[i]);
        i += 1;
        assert(half@ =~= whole@.take(i as int));
    }
    proof {
        digest::lemma_hex_len(half@);
    }
    digest::hex(&half)
}

/// A renewal under way, and its outcome once it has one.
pub struct Flight<T> {
    done: Option<Result<T, GatewayError>>,
}

impl<T> Flight<T> {
    /// The outcome.
    pub closed spec fn result(&self) -> Option<Result<T, GatewayError>> {
        self.done
    }

    /// A renewal that has begun.
    pub fn new() -> (flight: Self)
        ensures
            flight.result() is None,
    {
        Flight { done: None }
    }

    /// The outcome, where there is one.
    pub fn outcome(&self) -> (outcome: Option<&Result<T, GatewayError>>)
        ensures
            match outcome {
                Some(r) => self.result() == Some(*r),
                None => self.result() is None,
            },
    {
        match &self.done {
            Some(result) => Some(result),
            None => None,
        }
    }

    /// Sets the outcome; the first one stays.
    pub fn set_outcome(&mut self, result: Result<T, GatewayError>)
        ensures
            final(self).result() == match old(self).result() {
                Some(known) => Some(known),
                None => Some(result),
            },
    {
        if self.done.is_none() {
            self.done = Some(result);
        }
    }

    /// Ends a renewal whose leader was stopped.
    pub fn cancel(&mut self)
        ensures
            match old(self).result() {
                Some(known) => final(self).result() == Some(known),
                None => final(self).result() matches Some(Err(e)) && e@ == ErrorV::plain(
                    409,
                    CANCELLED_MESSAGE@,
                ),
            },
    {
        self.set_outcome(Err(GatewayError::with_status(409, CANCELLED_MESSAGE)));
    }
}

/// The renewals under way, each by its key and with a number of its own.
pub struct Table {
    entries: StringHashMap<u64>,
    next: u64,
}

/// What a table means.
pub ghost struct TableV {
    /// The renewals under way.
    pub entries: Map<Seq<char>, u64>,
    /// The number of the next one.
    pub next: u64,
}

impl View for Table {
    type V = TableV;

    closed spec fn view(&self) -> TableV {
        TableV { entries: self.entries@, next: self.next }
    }
}

/// What became of asking for a renewal.
#[derive(Debug, Clone, Copy, PartialEq, Eq, Structural)]
pub enum Join {
    /// Do the work, and say when it has ended.
    Leader(u64),
    /// Wait for the work with this number.
    Waiter(u64),
}

impl TableV {
    /// Every number given out is below the next.
    pub open spec fn wf(self) -> bool {
        forall|key: Seq<char>| #[trigger]
            self.entries.contains_key(key) ==> self.entries[key] < self.next
    }

    /// What becomes of asking for a key.
    pub open spec fn joined(self, key: Seq<char>) -> (TableV, Join) {
        if self.entries.contains_key(key) {
            (self, Join::Waiter(self.entries[key]))
        } else {
            (
                TableV {
                    entries: self.entries.insert(key, self.next),
                    next: (self.next + 1) as u64,
                },
                Join::Leader(self.next),
            )
        }
    }

    /// Without the work of a number; that of another number stays.
    pub open spec fn detached(self, key: Seq<char>, number: u64) -> TableV {
        if self.entries.contains_key(key) && self.entries[key] == number {
            TableV { entries: self.entries.remove(key), ..self }
        } else {
            self
        }
    }
}

impl Table {
    /// No renewals.
    pub fn new() -> (table: Self)
        ensures
            table@.wf(),
            table@ == (TableV { entries: Map::empty(), next: 0 }),
    {
        Table { entries: StringHashMap::new(), next: 0 }
    }

    /// Joins the renewal of a key, or leads a new one.
    pub fn join(&mut self, key: &str) -> (role: Join)
        requires
            old(self)@.wf(),
            old(self)@.next < u64::MAX,
        ensures
            final(self)@.wf(),
            (final(self)@, role) == old(self)@.joined(key@),
    {
        match self.entries.get(key) {
            Some(number) => return Join::Waiter(*number),
            None => {},
        }
        let number: u64 = self.next;
        self.entries.insert(text::owned(key), number);
        self.next = number + 1;
        assert forall|other: Seq<char>| #[trigger]
            self@.entries.contains_key(other) implies self@.entries[other] < self@.next by {
            if other != key@ {
                assert(old(self)@.entries.contains_key(other));
            }
        }
        Join::Leader(number)
    }

    /// Takes a renewal that has ended out, before its outcome is set: whoever
    /// asks from now on leads anew. One that began later stays.
    pub fn detach(&mut self, key: &str, number: u64)
        requires
            old(self)@.wf(),
        ensures
            final(self)@.wf(),
            final(self)@ == old(self)@.detached(key@, number),
    {
        let own = match self.entries.get(key) {
            Some(current) => *current == number,
            None => false,
        };
        if own {
            self.entries.remove(key);
        }
        assert forall|other: Seq<char>| #[trigger]
            self@.entries.contains_key(other) implies self@.entries[other] < self@.next by {
            assert(old(self)@.entries.contains_key(other));
        }
    }
}

impl Default for Table {
    fn default() -> (table: Self)
        ensures
            table@.wf(),
            table@ == (TableV { entries: Map::empty(), next: 0 }),
    {
        Self::new()
    }
}

/// What someone who waits does next.
#[derive(Debug, Clone, Copy, PartialEq, Eq, Structural)]
pub enum WaitStep {
    /// Take the outcome.
    Ready,
    /// Wait a while and look again.
    Again,
    /// Give up.
    TimedOut,
}

/// What someone who waits does at the look of this number.
pub fn wait_step(has_outcome: bool, look: usize) -> (step: WaitStep)
    ensures
        step == if look >= WAIT_STEPS {
            WaitStep::TimedOut
        } else if has_outcome {
            WaitStep::Ready
        } else {
            WaitStep::Again
        },
{
    if look >= WAIT_STEPS {
        WaitStep::TimedOut
    } else if has_outcome {
        WaitStep::Ready
    } else {
        WaitStep::Again
    }
}

/// The error of someone who has waited too long.
pub fn wait_timeout() -> (error: GatewayError)
    ensures
        error@ == ErrorV::plain(409, WAIT_TIMEOUT_MESSAGE@),
{
    GatewayError::with_status(409, WAIT_TIMEOUT_MESSAGE)
}

/// While a renewal is under way everyone who asks for its key waits for it.
pub proof fn one_renewal_at_a_time(table: TableV, key: Seq<char>)
    requires
        table.wf(),
        table.next < u64::MAX,
        !table.entries.contains_key(key),
    ensures
        table.joined(key).1 == Join::Leader(table.next),
        table.joined(key).0.joined(key) == (table.joined(key).0, Join::Waiter(table.next)),
{
}

/// Once a renewal has ended, the next to ask for its key leads a new one: no
/// outcome is used twice.
pub proof fn ended_renewals_are_not_reused(table: TableV, key: Seq<char>)
    requires
        table.wf(),
        table.next < u64::MAX - 1,
        !table.entries.contains_key(key),
    ensures
        ({
            let (begun, _) = table.joined(key);
            let ended = begun.detached(key, table.next);
            ended.joined(key).1 == Join::Leader((table.next + 1) as u64)
        }),
{
}

/// Renewals of different keys do not touch each other.
pub proof fn keys_are_independent(table: TableV, key: Seq<char>, other: Seq<char>, number: u64)
    requires
        table.wf(),
        key != other,
    ensures
        table.joined(key).0.entries.contains_key(other) == table.entries.contains_key(other),
        table.detached(key, number).entries.contains_key(other) == table.entries.contains_key(
            other,
        ),
        table.entries.contains_key(other) ==> table.joined(key).0.entries[other]
            == table.entries[other] && table.detached(key, number).entries[other]
            == table.entries[other],
{
}

/// A leader that ends late takes no one else's renewal out.
pub proof fn late_leaders_do_no_harm(table: TableV, key: Seq<char>, number: u64)
    requires
        table.wf(),
        table.entries.contains_key(key),
        table.entries[key] != number,
    ensures
        table.detached(key, number) == table,
{
}

} // verus!
