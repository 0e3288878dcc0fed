//! The sequence allocator: for each reading of the clock it hands out a
//! (timestamp, sequence) slot that it has not handed out before, or says why
//! it cannot.
//!
//! The allocator owns its state and changes it only through `next`, which
//! takes it by exclusive reference. Callers that share one allocator put it
//! behind a lock and hold the lock for one call of `next` at a time; every
//! interleaving of their calls is then one order of calls, and what is proved
//! here of every order holds of it.

use vstd::prelude::*;
use crate::layout::MAX_SEQUENCE;

verus! {

/// A place in a worker's stream of identifiers: a millisecond and a sequence
/// number within it.
#[derive(Clone, Copy, Debug, PartialEq, Eq, Structural)]
pub struct Slot {
    /// Milliseconds since 1970-01-01T00:00:00Z.
    pub timestamp_ms: u64,
    pub sequence: u16,
}

/// Why the allocator handed out no slot.
#[derive(Clone, Copy, Debug, PartialEq, Eq, Structural)]
pub enum AllocError {
    /// The clock reads earlier than the latest reading the allocator has
    /// accepted.
    ClockRegression,
    /// Every sequence number of this millisecond is taken. The caller waits
    /// until the clock reads later, then asks again.
    SequenceExhausted,
}

/// What an allocator remembers.
pub struct AllocatorState {
    /// The latest clock reading for which a slot was handed out; 0 before
    /// the first.
    pub last_timestamp: u64,
    /// How many slots were handed out at `last_timestamp`. They carry the
    /// sequence numbers below this count.
    pub issued: nat,
}

/// Whether the first slot comes before the second in the order of a worker's
/// stream: by millisecond, then by sequence number.
pub open spec fn slot_before(a: Slot, b: Slot) -> bool {
    a.timestamp_ms < b.timestamp_ms || (a.timestamp_ms == b.timestamp_ms && a.sequence
        < b.sequence)
}

/// Whether a slot lies behind the frontier of a state: no slot handed out
/// from that state on comes before it or equals it.
pub open spec fn slot_behind(slot: Slot, state: AllocatorState) -> bool {
    slot.timestamp_ms < state.last_timestamp || (slot.timestamp_ms == state.last_timestamp
        && slot.sequence < state.issued)
}

/// The state of an allocator that has handed out nothing.
pub open spec fn fresh() -> AllocatorState {
    AllocatorState { last_timestamp: 0, issued: 0 }
}

/// What the allocator answers in a state when the clock reads `now_ms`.
pub open spec fn outcome(state: AllocatorState, now_ms: u64) -> Result<Slot, AllocError> {
    if now_ms < state.last_timestamp {
        Err(AllocError::ClockRegression)
    } else if now_ms > state.last_timestamp {
        Ok(Slot { timestamp_ms: now_ms, sequence: 0 })
    } else if state.issued <= MAX_SEQUENCE {
        Ok(Slot { timestamp_ms: now_ms, sequence: state.issued as u16 })
    } else {
        Err(AllocError::SequenceExhausted)
    }
}

/// The state after the allocator has answered in a state when the clock
/// reads `now_ms`. An answer that hands out no slot leaves the state as it was.
pub open spec fn successor(state: AllocatorState, now_ms: u64) -> AllocatorState {
    if now_ms < state.last_timestamp {
        state
    } else if now_ms > state.last_timestamp {
        AllocatorState { last_timestamp: now_ms, issued: 1 }
    } else if state.issued <= MAX_SEQUENCE {
        AllocatorState { last_timestamp: now_ms, issued: state.issued + 1 }
    } else {
        state
    }
}

/// The sequence allocator of one worker.
#[derive(Debug)]
pub struct SequenceAllocator {
    last_timestamp: u64,
    next_sequence: u16,
}

impl View for SequenceAllocator {
    type V = AllocatorState;

    closed spec fn view(&self) -> AllocatorState {
        AllocatorState { last_timestamp: self.last_timestamp, issued: self.next_sequence as nat }
    }
}

impl SequenceAllocator {
    /// An allocator that has handed out nothing.
    pub fn new() -> (allocator: SequenceAllocator)
        ensures
            allocator@ == fresh(),
    {
        SequenceAllocator { last_timestamp: 0, next_sequence: 0 }
    }

    /// The latest clock reading for which a slot was handed out.
    pub fn last_timestamp(&self) -> (timestamp_ms: u64)
        ensures
            timestamp_ms == self@.last_timestamp,
    {
        self.last_timestamp
    }

    /// How many slots were handed out at `last_timestamp`.
    pub fn issued(&self) -> (count: u16)
        ensures
            count == self@.issued,
    {
        self.next_sequence
    }

    /// Hands out the next slot for a clock reading.
    ///
    /// A later reading than the last opens a new millisecond, whose first slot
    /// has sequence 0. The same reading continues the millisecond, until its
    /// `MAX_SEQUENCE + 1` slots are gone. An earlier reading is an error. On an
    /// error the allocator is left as it was.
    pub fn next(&mut self, now_ms: u64) -> (result: Result<Slot, AllocError>)
        ensures
            result == outcome(old(self)@, now_ms),
            final(self)@ == successor(old(self)@, now_ms),
        no_unwind
    {
        if now_ms < self.last_timestamp {
            return Err(AllocError::ClockRegression);
        }
        if now_ms > self.last_timestamp {
            self.last_timestamp = now_ms;
            self.next_sequence = 1;
            return Ok(Slot { timestamp_ms: now_ms, sequence: 0 });
        }
        if self.next_sequence > MAX_SEQUENCE {
            return Err(AllocError::SequenceExhausted);
        }
        let sequence: u16 = self.next_sequence;
        self.next_sequence = sequence + 1;
        Ok(Slot { timestamp_ms: now_ms, sequence })
    }
}

/// The state an allocator reaches from `start` after one call of `next` for
/// each reading of `clock`, in order.
pub open spec fn state_after(start: AllocatorState, clock: Seq<u64>) -> AllocatorState
    decreases clock.len(),
{
    if clock.len() == 0 {
        start
    } else {
        successor(state_after(start, clock.drop_last()), clock.last())
    }
}

/// What the call for reading `i` of `clock` answers, when an allocator in
/// state `start` is called once for each reading in order.
pub open spec fn outcome_at(start: AllocatorState, clock: Seq<u64>, i: int) -> Result<
    Slot,
    AllocError,
> {
    outcome(state_after(start, clock.take(i)), clock[i])
}

/// A slot that is handed out carries the clock reading it was asked for and
/// a sequence number that fits its field, lies at or past the frontier of the
/// state before, and behind the frontier of the state after.
pub proof fn lemma_slot_issued(state: AllocatorState, now_ms: u64)
    requires
        outcome(state, now_ms) is Ok,
    ensures
        outcome(state, now_ms)->Ok_0.timestamp_ms == now_ms,
        outcome(state, now_ms)->Ok_0.sequence <= MAX_SEQUENCE,
        !slot_behind(outcome(state, now_ms)->Ok_0, state),
        slot_behind(outcome(state, now_ms)->Ok_0, successor(state, now_ms)),
{
}

/// The frontier never moves back: a slot behind it stays behind it whatever
/// the clock reads next.
pub proof fn lemma_frontier_advances(slot: Slot, state: AllocatorState, now_ms: u64)
    requires
        slot_behind(slot, state),
    ensures
        slot_behind(slot, successor(state, now_ms)),
{
}

/// A clock reading earlier than the last accepted one is refused, and the
/// allocator is left as it was.
pub proof fn lemma_regression_refused(state: AllocatorState, now_ms: u64)
    requires
        now_ms < state.last_timestamp,
    ensures
        outcome(state, now_ms) == Err::<Slot, AllocError>(AllocError::ClockRegression),
        successor(state, now_ms) == state,
{
}

/// The first `k + 1` readings of a clock are its first `k` readings and
/// reading `k` after them.
pub proof fn lemma_take_prefix(clock: Seq<u64>, k: int)
    requires
        0 <= k < clock.len(),
    ensures
        clock.take(k + 1).drop_last() == clock.take(k),
        clock.take(k + 1).last() == clock[k],
{
    assert(clock.take(k + 1).drop_last() =~= clock.take(k));
}

/// A slot handed out by call `i` lies behind the frontier after any `k > i`
/// calls.
proof fn lemma_behind_after(start: AllocatorState, clock: Seq<u64>, i: int, k: int)
    requires
        0 <= i < k <= clock.len(),
        outcome_at(start, clock, i) is Ok,
    ensures
        slot_behind(outcome_at(start, clock, i)->Ok_0, state_after(start, clock.take(k))),
    decreases k - i,
{
    let slot = outcome_at(start, clock, i)->Ok_0;
    lemma_take_prefix(clock, k - 1);
    let before = state_after(start, clock.take(k - 1));
    if k == i + 1 {
        lemma_slot_issued(before, clock[i]);
    } else {
        lemma_behind_after(start, clock, i, k - 1);
        lemma_frontier_advances(slot, before, clock[k - 1]);
    }
}

/// Whatever the clock reads, and in whatever order callers are served, the
/// slots that one allocator hands out come in strictly rising order: no slot
/// is handed out twice, and a later call never gets an earlier slot.
pub proof fn lemma_slots_rise(start: AllocatorState, clock: Seq<u64>, i: int, j: int)
    requires
        0 <= i < j < clock.len(),
        outcome_at(start, clock, i) is Ok,
        outcome_at(start, clock, j) is Ok,
    ensures
        slot_before(outcome_at(start, clock, i)->Ok_0, outcome_at(start, clock, j)->Ok_0),
{
    lemma_behind_after(start, clock, i, j);
    lemma_slot_issued(state_after(start, clock.take(j)), clock[j]);
}

/// A clock that is read `count` times and reads `now_ms` each time.
pub open spec fn stalled_clock(now_ms: u64, count: nat) -> Seq<u64> {
    Seq::new(count, |i: int| now_ms)
}

/// Whether a reading opens its millisecond in a state: it is no earlier than
/// the last accepted reading, and no slot of its millisecond is handed out yet.
pub open spec fn opens_millisecond(state: AllocatorState, now_ms: u64) -> bool {
    state.last_timestamp < now_ms || (state.last_timestamp == now_ms && state.issued == 0)
}

/// After `count` calls at one reading that opened its millisecond, `count`
/// slots of that millisecond are handed out, as long as it has that many.
pub proof fn lemma_stalled_state(start: AllocatorState, now_ms: u64, count: nat)
    requires
        opens_millisecond(start, now_ms),
        1 <= count <= MAX_SEQUENCE + 1,
    ensures
        state_after(start, stalled_clock(now_ms, count)) == (AllocatorState {
            last_timestamp: now_ms,
            issued: count,
        }),
    decreases count,
{
    let clock = stalled_clock(now_ms, count);
    assert(clock.drop_last() =~= stalled_clock(now_ms, (count - 1) as nat));
    if count > 1 {
        lemma_stalled_state(start, now_ms, (count - 1) as nat);
    } else {
        assert(state_after(start, clock.drop_last()) == start);
    }
}

/// While the clock stands still, a millisecond gives out its sequence numbers
/// in order and then no more: of `MAX_SEQUENCE + 2` calls at one reading that
/// opened its millisecond, call `k` gets sequence `k` for every `k` up to
/// `MAX_SEQUENCE`, and the last call is told that the millisecond is
/// exhausted and changes nothing.
pub proof fn lemma_sequential_exhaustion(start: AllocatorState, now_ms: u64, k: int)
    requires
        opens_millisecond(start, now_ms),
        0 <= k <= MAX_SEQUENCE,
    ensures
        outcome_at(start, stalled_clock(now_ms, MAX_SEQUENCE as nat + 2), k) == Ok::<
            Slot,
            AllocError,
        >(Slot { timestamp_ms: now_ms, sequence: k as u16 }),
        outcome_at(start, stalled_clock(now_ms, MAX_SEQUENCE as nat + 2), MAX_SEQUENCE + 1) == Err::<
            Slot,
            AllocError,
        >(AllocError::SequenceExhausted),
        state_after(start, stalled_clock(now_ms, MAX_SEQUENCE as nat + 2)) == state_after(
            start,
            stalled_clock(now_ms, MAX_SEQUENCE as nat + 1),
        ),
        state_after(start, stalled_clock(now_ms, MAX_SEQUENCE as nat + 2)) == (AllocatorState {
            last_timestamp: now_ms,
            issued: MAX_SEQUENCE as nat + 1,
        }),
{
    let clock = stalled_clock(now_ms, MAX_SEQUENCE as nat + 2);
    assert(clock.take(k) =~= stalled_clock(now_ms, k as nat));
    if k > 0 {
        lemma_stalled_state(start, now_ms, k as nat);
    } else {
        assert(state_after(start, clock.take(k)) == start);
    }
    assert(clock.take(MAX_SEQUENCE + 1) =~= stalled_clock(now_ms, MAX_SEQUENCE as nat + 1));
    assert(clock.drop_last() =~= stalled_clock(now_ms, MAX_SEQUENCE as nat + 1));
    lemma_stalled_state(start, now_ms, MAX_SEQUENCE as nat + 1);
}

/// Once the clock moves on, an exhausted millisecond is left behind: after
/// `MAX_SEQUENCE + 2` calls at one reading that opened its millisecond, a
/// call at any later reading gets sequence 0 of that reading.
pub proof fn lemma_later_reading_restarts(start: AllocatorState, now_ms: u64, later_ms: u64)
    requires
        opens_millisecond(start, now_ms),
        now_ms < later_ms,
    ensures
        outcome(state_after(start, stalled_clock(now_ms, MAX_SEQUENCE as nat + 2)), later_ms) == Ok::<
            Slot,
            AllocError,
        >(Slot { timestamp_ms: later_ms, sequence: 0 }),
{
    lemma_sequential_exhaustion(start, now_ms, 0);
}

} // verus!
