//! Deduplication of captured addresses and the scan-session loop policy.
//!
//! `MacSet` is the per-session unique-address collection: insertion is
//! idempotent and order-independent by construction. `ScanSession` is the
//! decision core of the cooperative aggregation loop: each tick it takes
//! the clock and the result of one non-blocking queue poll, folds a
//! received address into the set, and says whether to carry on, push a
//! status update to the display, or end the session (budget elapsed, or
//! producer side torn down).

use vstd::prelude::*;

use crate::mac::MacAddress;

verus! {

/// A set of unique addresses, insertion order retained internally but
/// irrelevant to the result.
pub struct MacSet {
    macs: Vec<MacAddress>,
}

/// What one insertion does: nothing for a known address, append for a new
/// one.
pub open spec fn spec_insert(contents: Seq<MacAddress>, mac: MacAddress) -> Seq<MacAddress> {
    if contents.contains(mac) {
        contents
    } else {
        contents.push(mac)
    }
}

impl View for MacSet {
    type V = Seq<MacAddress>;

    closed spec fn view(&self) -> Seq<MacAddress> {
        self.macs@
    }
}

impl MacSet {
    /// No address occurs twice.
    pub open spec fn wf(&self) -> bool {
        forall|i: int, j: int| 0 <= i < j < self@.len() ==> self@[i] != self@[j]
    }

    /// An empty session set.
    pub fn new() -> (s: MacSet)
        ensures
            s.wf(),
            s@ =~= Seq::<MacAddress>::empty(),
    {
        MacSet { macs: Vec::new() }
    }

    /// Number of unique addresses seen.
    pub fn len(&self) -> (n: usize)
        ensures
            n == self@.len(),
    {
        self.macs.len()
    }

    /// Whether `mac` has been seen.
    pub fn contains(&self, mac: &MacAddress) -> (r: bool)
        ensures
            r == self@.contains(*mac),
    {
        let mut i: usize = 0;
        while i < self.macs.len()
            invariant
                i <= self@.len(),
                forall|k: int| 0 <= k < i ==> self@[k] != *mac,
            decreases self@.len() - i,
        {
            if self.macs[i] == *mac {
                return true;
            }
            i += 1;
        }
        false
    }

    /// Record `mac`: a no-op if it has been seen, an append otherwise.
    pub fn insert(&mut self, mac: MacAddress)
        requires
            old(self).wf(),
        ensures
            final(self).wf(),
            final(self)@ == spec_insert(old(self)@, mac),
            final(self)@.contains(mac),
            old(self)@.contains(mac) ==> *final(self) == *old(self),
    {
        if !self.contains(&mac) {
            self.macs.push(mac);
            proof {
                assert(self@[old(self)@.len() as int] == mac);
            }
        }
    }

    /// The unique addresses, in insertion order.
    pub fn addresses(&self) -> (macs: &Vec<MacAddress>)
        ensures
            macs@ == self@,
    {
        &self.macs
    }
}

/// Folding a whole sequence of received addresses into set contents.
pub open spec fn spec_insert_all(contents: Seq<MacAddress>, macs: Seq<MacAddress>) -> Seq<
    MacAddress,
>
    decreases macs.len(),
{
    if macs.len() == 0 {
        contents
    } else {
        spec_insert_all(spec_insert(contents, macs[0]), macs.drop_first())
    }
}

/// Inserting an address a second time changes nothing: deduplication is
/// idempotent.
pub proof fn lemma_insert_idempotent(contents: Seq<MacAddress>, mac: MacAddress)
    ensures
        spec_insert(spec_insert(contents, mac), mac) == spec_insert(contents, mac),
{
    lemma_insert_membership(contents, mac, mac);
}

/// Membership after an insertion: exactly the old members plus the new
/// address.
pub proof fn lemma_insert_membership(contents: Seq<MacAddress>, mac: MacAddress, x: MacAddress)
    ensures
        spec_insert(contents, mac).contains(x) <==> (contents.contains(x) || x == mac),
{
    if !contents.contains(mac) {
        assert(contents.push(mac)[contents.len() as int] == mac);
        if contents.contains(x) {
            let i = choose|i: int| 0 <= i < contents.len() && contents[i] == x;
            assert(contents.push(mac)[i] == x);
        }
        if contents.push(mac).contains(x) {
            let i = choose|i: int| 0 <= i < contents.push(mac).len() && contents.push(mac)[i] == x;
            if i < contents.len() {
                assert(contents[i] == x);
            }
        }
    }
}

/// Folding `macs` into `contents` when none of them is already present and
/// no address repeats grows the contents by exactly `macs.len()`:
/// `N` distinct addresses yield a set of size `N`.
pub proof fn lemma_insert_all_distinct_len(contents: Seq<MacAddress>, macs: Seq<MacAddress>)
    requires
        forall|i: int| 0 <= i < macs.len() ==> !contents.contains(#[trigger] macs[i]),
        forall|i: int, j: int| 0 <= i < j < macs.len() ==> macs[i] != macs[j],
    ensures
        spec_insert_all(contents, macs).len() == contents.len() + macs.len(),
    decreases macs.len(),
{
    if macs.len() > 0 {
        let first = macs[0];
        let rest = macs.drop_first();
        let grown = spec_insert(contents, first);
        assert(macs.contains(first));
        assert(grown.len() == contents.len() + 1);
        assert forall|i: int| 0 <= i < rest.len() implies !grown.contains(#[trigger] rest[i]) by {
            assert(rest[i] == macs[i + 1]);
            lemma_insert_membership(contents, first, rest[i]);
        }
        assert forall|i: int, j: int| 0 <= i < j < rest.len() implies rest[i] != rest[j] by {
            assert(rest[i] == macs[i + 1]);
            assert(rest[j] == macs[j + 1]);
        }
        lemma_insert_all_distinct_len(grown, rest);
    }
}

/// Fixed scan budget: one session lasts this many milliseconds.
pub const SCAN_SESSION_BUDGET_MS: u64 = 30000;

/// A status update is pushed to the display this often while scanning.
pub const STATUS_UPDATE_INTERVAL_MS: u64 = 3000;

/// Outcome of one non-blocking poll of the hand-off queue, as seen by the
/// session loop.
#[derive(Clone, Copy, Debug, PartialEq, Eq, Structural)]
pub enum QueuePoll {
    Received(MacAddress),
    Empty,
    Disconnected,
}

/// What the cooperative loop should do after one session tick.
#[derive(Clone, Copy, Debug, PartialEq, Eq, Structural)]
pub enum SessionStep {
    Carry,
    StatusUpdate { seconds_remaining: u64, unique_count: usize },
    Finished,
}

/// One scan session: a fixed wall-clock budget, the unique addresses seen
/// so far, and the time of the last status update.
pub struct ScanSession {
    pub budget_ms: u64,
    pub started_at_ms: u64,
    pub last_status_ms: u64,
    pub macs: MacSet,
}

impl ScanSession {
    /// The session's collection stays duplicate-free and the status clock
    /// never runs ahead of the session clock's last reading.
    pub open spec fn wf(&self) -> bool {
        &&& self.macs.wf()
        &&& self.started_at_ms <= self.last_status_ms
    }

    /// Whether the budget has elapsed at `now_ms`.
    pub open spec fn spec_expired(&self, now_ms: u64) -> bool {
        now_ms - self.started_at_ms >= self.budget_ms
    }

    /// Seconds left of the budget at `now_ms`, as shown to the user.
    pub open spec fn spec_seconds_remaining(&self, now_ms: u64) -> int {
        self.budget_ms as int / 1000 - (now_ms - self.started_at_ms) / 1000
    }

    /// Start a session of `budget_ms` at clock reading `now_ms`.
    pub fn new(budget_ms: u64, now_ms: u64) -> (session: ScanSession)
        ensures
            session.wf(),
            session.budget_ms == budget_ms,
            session.started_at_ms == now_ms,
            session.last_status_ms == now_ms,
            session.macs@ =~= Seq::<MacAddress>::empty(),
    {
        ScanSession { budget_ms, started_at_ms: now_ms, last_status_ms: now_ms, macs: MacSet::new() }
    }

    /// One tick of the aggregation loop.
    ///
    /// An elapsed budget or a torn-down producer ends the session at once,
    /// before the poll result is looked at. Otherwise a received address is
    /// folded into the set, and every `STATUS_UPDATE_INTERVAL_MS` the
    /// caller is told to redraw the display with the remaining seconds and
    /// the unique count.
    pub fn step(&mut self, now_ms: u64, poll: QueuePoll) -> (action: SessionStep)
        requires
            old(self).wf(),
            now_ms >= old(self).last_status_ms,
        ensures
            final(self).wf(),
            final(self).budget_ms == old(self).budget_ms,
            final(self).started_at_ms == old(self).started_at_ms,
            action is Finished <==> (old(self).spec_expired(now_ms) || poll is Disconnected),
            action is Finished ==> *final(self) == *old(self),
            !(action is Finished) ==> final(self).macs@ == (
            match poll {
                QueuePoll::Received(mac) => spec_insert(old(self).macs@, mac),
                _ => old(self).macs@,
            }),
            !(action is Finished) && now_ms - old(self).last_status_ms
                >= STATUS_UPDATE_INTERVAL_MS ==> action == (SessionStep::StatusUpdate {
                seconds_remaining: old(self).spec_seconds_remaining(now_ms) as u64,
                unique_count: final(self).macs@.len() as usize,
            }) && final(self).last_status_ms == now_ms,
            !(action is Finished) && now_ms - old(self).last_status_ms
                < STATUS_UPDATE_INTERVAL_MS ==> action is Carry && final(self).last_status_ms
                == old(self).last_status_ms,
    {
        if now_ms - self.started_at_ms >= self.budget_ms {
            return SessionStep::Finished;
        }
        match poll {
            QueuePoll::Disconnected => SessionStep::Finished,
            QueuePoll::Received(mac) => {
                self.macs.insert(mac);
                self.maybe_status(now_ms)
            },
            QueuePoll::Empty => self.maybe_status(now_ms),
        }
    }

    /// Issue the periodic status update when its interval has passed.
    fn maybe_status(&mut self, now_ms: u64) -> (action: SessionStep)
        requires
            old(self).wf(),
            now_ms >= old(self).last_status_ms,
            !old(self).spec_expired(now_ms),
        ensures
            final(self).wf(),
            final(self).budget_ms == old(self).budget_ms,
            final(self).started_at_ms == old(self).started_at_ms,
            final(self).macs == old(self).macs,
            !(action is Finished),
            now_ms - old(self).last_status_ms >= STATUS_UPDATE_INTERVAL_MS ==> action == (
            SessionStep::StatusUpdate {
                seconds_remaining: old(self).spec_seconds_remaining(now_ms) as u64,
                unique_count: old(self).macs@.len() as usize,
            }) && final(self).last_status_ms == now_ms,
            now_ms - old(self).last_status_ms < STATUS_UPDATE_INTERVAL_MS ==> action is Carry
                && final(self).last_status_ms == old(self).last_status_ms,
    {
        if now_ms - self.last_status_ms >= STATUS_UPDATE_INTERVAL_MS {
            let seconds_remaining = self.budget_ms / 1000 - (now_ms - self.started_at_ms) / 1000;
            let unique_count = self.macs.len();
            self.last_status_ms = now_ms;
            SessionStep::StatusUpdate { seconds_remaining, unique_count }
        } else {
            SessionStep::Carry
        }
    }
}

} // verus!
