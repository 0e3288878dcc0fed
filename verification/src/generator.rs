//! The generator: one worker's allocator and worker id, and the step that
//! mints an identifier for a reading of the clock.
//!
//! The step neither reads the clock nor waits. Its caller reads the clock,
//! hands the reading in, and on `SequenceExhausted` waits until the clock
//! reads later before it calls again; callers that share a generator hold
//! their lock for the step only, not for the wait.

use vstd::prelude::*;
use crate::allocator::{
    fresh, lemma_frontier_advances, lemma_sequential_exhaustion, lemma_slot_issued,
    lemma_stalled_state, lemma_take_prefix, opens_millisecond, outcome, slot_behind,
    stalled_clock, state_after, successor, AllocError, AllocatorState, SequenceAllocator, Slot,
};
use crate::codec::{encode, lemma_packed_order, packed};
use crate::decoder::{decoded, lemma_round_trip, DecodeError, Fields};
use crate::layout::{MAX_SEQUENCE, MAX_TIMESTAMP_DELTA, MAX_WORKER_ID, TIMESTAMP_CEILING};

verus! {

/// Why no identifier was minted.
#[derive(Clone, Copy, Debug, PartialEq, Eq, Structural)]
pub enum GenerateError {
    /// The clock reads earlier than the latest reading the generator has
    /// accepted. Identifiers minted now could repeat earlier ones.
    ClockRegression,
    /// The clock reading lies before the epoch, or so long after it that the
    /// distance does not fit the timestamp field.
    EpochOutOfRange,
    /// Every sequence number of this millisecond is taken. The caller waits
    /// until the clock reads later, then asks again.
    SequenceExhausted,
}

/// What a generator holds.
pub struct GeneratorState {
    pub worker_id: u16,
    pub allocator: AllocatorState,
}

impl GeneratorState {
    /// Whether the worker id fits its field.
    pub open spec fn valid(self) -> bool {
        self.worker_id <= MAX_WORKER_ID
    }
}

/// Whether a clock reading, counted from an epoch, fits the timestamp field.
pub open spec fn epoch_in_range(epoch: u64, now_ms: u64) -> bool {
    epoch <= now_ms && now_ms - epoch <= MAX_TIMESTAMP_DELTA
}

/// What a generator answers in a state, for an epoch, when the clock reads
/// `now_ms`.
pub open spec fn generated(state: GeneratorState, epoch: u64, now_ms: u64) -> Result<
    u64,
    GenerateError,
> {
    if now_ms < state.allocator.last_timestamp {
        Err(GenerateError::ClockRegression)
    } else if !epoch_in_range(epoch, now_ms) {
        Err(GenerateError::EpochOutOfRange)
    } else {
        match outcome(state.allocator, now_ms) {
            Ok(slot) => Ok(
                packed((now_ms - epoch) as nat, state.worker_id as nat, slot.sequence as nat) as u64,
            ),
            Err(AllocError::ClockRegression) => Err(GenerateError::ClockRegression),
            Err(AllocError::SequenceExhausted) => Err(GenerateError::SequenceExhausted),
        }
    }
}

/// The state of a generator after it has answered in a state, for an epoch,
/// when the clock reads `now_ms`. An answer without an identifier leaves the
/// state as it was.
pub open spec fn advanced(state: GeneratorState, epoch: u64, now_ms: u64) -> GeneratorState {
    if generated(state, epoch, now_ms) is Ok {
        GeneratorState { worker_id: state.worker_id, allocator: successor(state.allocator, now_ms) }
    } else {
        state
    }
}

/// One worker's generator of identifiers.
#[derive(Debug)]
pub struct Generator {
    worker_id: u16,
    allocator: SequenceAllocator,
}

impl View for Generator {
    type V = GeneratorState;

    closed spec fn view(&self) -> GeneratorState {
        GeneratorState { worker_id: self.worker_id, allocator: self.allocator@ }
    }
}

impl Generator {
    #[verifier::type_invariant]
    spec fn worker_id_fits(self) -> bool {
        self.worker_id <= MAX_WORKER_ID
    }

    /// A generator for a worker, which has minted nothing yet. There is none
    /// for a worker id that does not fit its field.
    pub fn new(worker_id: u16) -> (generator: Option<Generator>)
        ensures
            generator is Some <==> worker_id <= MAX_WORKER_ID,
            generator matches Some(g) ==> g@ == (GeneratorState {
                worker_id,
                allocator: fresh(),
            }),
    {
        if worker_id <= MAX_WORKER_ID {
            Some(Generator { worker_id, allocator: SequenceAllocator::new() })
        } else {
            None
        }
    }

    /// The worker that this generator mints for.
    pub fn worker_id(&self) -> (worker_id: u16)
        ensures
            worker_id == self@.worker_id,
            self@.valid(),
    {
        proof {
            use_type_invariant(self);
        }
        self.worker_id
    }

    /// The latest clock reading for which an identifier was minted.
    pub fn last_timestamp(&self) -> (timestamp_ms: u64)
        ensures
            timestamp_ms == self@.allocator.last_timestamp,
    {
        self.allocator.last_timestamp()
    }
}

/// Mints the generator's next identifier for an epoch and a clock reading.
///
/// The identifier holds the reading counted from the epoch, the generator's
/// worker id, and the sequence number that the allocator hands out for the
/// reading. A reading earlier than the last accepted one is refused first,
/// then one that the epoch puts outside the timestamp field, then one in
/// whose millisecond no sequence number is left. A refusal leaves the
/// generator as it was.
pub fn generate_snowflake(generator: &mut Generator, epoch: u64, now_ms: u64) -> (result: Result<
    u64,
    GenerateError,
>)
    ensures
        old(generator)@.valid(),
        result == generated(old(generator)@, epoch, now_ms),
        final(generator)@ == advanced(old(generator)@, epoch, now_ms),
{
    proof {
        use_type_invariant(&*generator);
    }
    if now_ms < generator.allocator.last_timestamp() {
        return Err(GenerateError::ClockRegression);
    }
    if now_ms < epoch || now_ms - epoch > MAX_TIMESTAMP_DELTA {
        return Err(GenerateError::EpochOutOfRange);
    }
    match generator.allocator.next(now_ms) {
        Ok(slot) => Ok(encode(slot.timestamp_ms - epoch, generator.worker_id, slot.sequence)),
        Err(AllocError::ClockRegression) => Err(GenerateError::ClockRegression),
        Err(AllocError::SequenceExhausted) => Err(GenerateError::SequenceExhausted),
    }
}

/// The state a generator reaches from `start` after one call of
/// `generate_snowflake`, with one epoch, for each reading of `clock`, in order.
pub open spec fn generator_after(start: GeneratorState, epoch: u64, clock: Seq<u64>) -> GeneratorState
    decreases clock.len(),
{
    if clock.len() == 0 {
        start
    } else {
        advanced(generator_after(start, epoch, clock.drop_last()), epoch, clock.last())
    }
}

/// What the call for reading `i` of `clock` answers, when a generator in
/// state `start` is called with one epoch, once for each reading in order.
pub open spec fn id_at(start: GeneratorState, epoch: u64, clock: Seq<u64>, i: int) -> Result<
    u64,
    GenerateError,
> {
    generated(generator_after(start, epoch, clock.take(i)), epoch, clock[i])
}

/// The slot that stands behind an identifier minted in a state for a reading.
pub open spec fn minted_slot(state: GeneratorState, now_ms: u64) -> Slot {
    outcome(state.allocator, now_ms)->Ok_0
}

/// A minted identifier decodes, under the epoch it was minted for, to the
/// clock reading, the generator's worker id and the sequence number of its
/// slot, as long as the reading is a plausible instant; where it is not,
/// decoding fails.
pub proof fn lemma_minted_decodes(state: GeneratorState, epoch: u64, now_ms: u64)
    requires
        state.valid(),
        generated(state, epoch, now_ms) is Ok,
    ensures
        outcome(state.allocator, now_ms) is Ok,
        decoded(generated(state, epoch, now_ms)->Ok_0, epoch) == if now_ms <= TIMESTAMP_CEILING {
            Ok::<Fields, DecodeError>(
                Fields {
                    timestamp_ms: now_ms,
                    worker_id: state.worker_id,
                    sequence: minted_slot(state, now_ms).sequence,
                },
            )
        } else {
            Err::<Fields, DecodeError>(DecodeError::DecodeOverflow)
        },
{
    lemma_slot_issued(state.allocator, now_ms);
    lemma_round_trip(
        (now_ms - epoch) as u64,
        state.worker_id,
        minted_slot(state, now_ms).sequence,
        epoch,
    );
}

/// A clock reading earlier than the last accepted one mints nothing: the call
/// fails with `ClockRegression`, whatever the epoch, and the generator is
/// left as it was.
pub proof fn lemma_regression_is_refused(state: GeneratorState, epoch: u64, now_ms: u64)
    requires
        now_ms < state.allocator.last_timestamp,
    ensures
        generated(state, epoch, now_ms) == Err::<u64, GenerateError>(
            GenerateError::ClockRegression,
        ),
        advanced(state, epoch, now_ms) == state,
{
}

/// Calls do not change the worker id.
proof fn lemma_worker_kept(start: GeneratorState, epoch: u64, clock: Seq<u64>)
    ensures
        generator_after(start, epoch, clock).worker_id == start.worker_id,
    decreases clock.len(),
{
    if clock.len() > 0 {
        lemma_worker_kept(start, epoch, clock.drop_last());
    }
}

/// The slot behind an identifier minted by call `i` lies behind the
/// allocator's frontier after any `k > i` calls.
proof fn lemma_minted_behind(start: GeneratorState, epoch: u64, clock: Seq<u64>, i: int, k: int)
    requires
        0 <= i < k <= clock.len(),
        id_at(start, epoch, clock, i) is Ok,
    ensures
        slot_behind(
            minted_slot(generator_after(start, epoch, clock.take(i)), clock[i]),
            generator_after(start, epoch, clock.take(k)).allocator,
        ),
    decreases k - i,
{
    let slot = minted_slot(generator_after(start, epoch, clock.take(i)), clock[i]);
    lemma_take_prefix(clock, k - 1);
    let before = generator_after(start, epoch, clock.take(k - 1));
    if k == i + 1 {
        lemma_slot_issued(before.allocator, clock[i]);
    } else {
        lemma_minted_behind(start, epoch, clock, i, k - 1);
        lemma_frontier_advances(slot, before.allocator, clock[k - 1]);
    }
}

/// Whatever the clock reads, and in whatever order callers are served, the
/// identifiers that one generator mints for one epoch rise strictly: each is
/// greater than all minted before it, so no two are equal. Calls that fail,
/// as those at a clock reading that went back, mint nothing and are passed
/// over.
pub proof fn lemma_ids_rise(start: GeneratorState, epoch: u64, clock: Seq<u64>, i: int, j: int)
    requires
        start.valid(),
        0 <= i < j < clock.len(),
        id_at(start, epoch, clock, i) is Ok,
        id_at(start, epoch, clock, j) is Ok,
    ensures
        id_at(start, epoch, clock, i)->Ok_0 < id_at(start, epoch, clock, j)->Ok_0,
{
    let earlier = generator_after(start, epoch, clock.take(i));
    let later = generator_after(start, epoch, clock.take(j));
    lemma_worker_kept(start, epoch, clock.take(i));
    lemma_worker_kept(start, epoch, clock.take(j));
    lemma_minted_behind(start, epoch, clock, i, j);
    lemma_slot_issued(earlier.allocator, clock[i]);
    lemma_slot_issued(later.allocator, clock[j]);
    lemma_packed_order(
        (clock[i] - epoch) as nat,
        start.worker_id as nat,
        minted_slot(earlier, clock[i]).sequence as nat,
        (clock[j] - epoch) as nat,
        start.worker_id as nat,
        minted_slot(later, clock[j]).sequence as nat,
    );
}

/// As long as every call mints, the generator's allocator moves as an
/// allocator called on its own does.
proof fn lemma_stalled_generator(start: GeneratorState, epoch: u64, now_ms: u64, count: nat)
    requires
        opens_millisecond(start.allocator, now_ms),
        epoch_in_range(epoch, now_ms),
        count <= MAX_SEQUENCE + 1,
    ensures
        generator_after(start, epoch, stalled_clock(now_ms, count)) == (GeneratorState {
            worker_id: start.worker_id,
            allocator: state_after(start.allocator, stalled_clock(now_ms, count)),
        }),
    decreases count,
{
    let clock = stalled_clock(now_ms, count);
    if count > 0 {
        assert(clock.drop_last() =~= stalled_clock(now_ms, (count - 1) as nat));
        lemma_stalled_generator(start, epoch, now_ms, (count - 1) as nat);
        if count > 1 {
            lemma_stalled_state(start.allocator, now_ms, (count - 1) as nat);
        }
    }
}

/// While the clock stands still, a generator mints the identifiers of one
/// millisecond in the order of their sequence numbers and then no more: of
/// `MAX_SEQUENCE + 2` calls at one reading that opened its millisecond and
/// that the epoch puts inside the timestamp field, call `k` mints the
/// identifier with sequence `k` for every `k` up to `MAX_SEQUENCE`, and the
/// last call is told that the millisecond is exhausted and changes nothing.
pub proof fn lemma_stalled_clock_exhausts(start: GeneratorState, epoch: u64, now_ms: u64, k: int)
    requires
        opens_millisecond(start.allocator, now_ms),
        epoch_in_range(epoch, now_ms),
        0 <= k <= MAX_SEQUENCE,
    ensures
        id_at(start, epoch, stalled_clock(now_ms, MAX_SEQUENCE as nat + 2), k) == Ok::<
            u64,
            GenerateError,
        >(packed((now_ms - epoch) as nat, start.worker_id as nat, k as nat) as u64),
        id_at(start, epoch, stalled_clock(now_ms, MAX_SEQUENCE as nat + 2), MAX_SEQUENCE + 1)
            == Err::<u64, GenerateError>(GenerateError::SequenceExhausted),
        generator_after(start, epoch, stalled_clock(now_ms, MAX_SEQUENCE as nat + 2))
            == generator_after(start, epoch, stalled_clock(now_ms, MAX_SEQUENCE as nat + 1)),
        generator_after(start, epoch, stalled_clock(now_ms, MAX_SEQUENCE as nat + 2))
            == (GeneratorState {
            worker_id: start.worker_id,
            allocator: AllocatorState { last_timestamp: now_ms, issued: MAX_SEQUENCE as nat + 1 },
        }),
{
    let clock = stalled_clock(now_ms, MAX_SEQUENCE as nat + 2);
    let full = stalled_clock(now_ms, MAX_SEQUENCE as nat + 1);
    assert(clock.take(k) =~= stalled_clock(now_ms, k as nat));
    assert(clock.take(MAX_SEQUENCE + 1) =~= full);
    assert(clock.drop_last() =~= full);
    lemma_stalled_generator(start, epoch, now_ms, k as nat);
    lemma_stalled_generator(start, epoch, now_ms, MAX_SEQUENCE as nat + 1);
    lemma_sequential_exhaustion(start.allocator, now_ms, k);
}

/// Once the clock moves on, an exhausted millisecond is left behind: after
/// `MAX_SEQUENCE + 2` calls at one reading that opened its millisecond and
/// that the epoch puts inside the timestamp field, a call at any later
/// reading mints the identifier with sequence 0 of that reading. The one
/// exception is a later reading that the epoch puts outside the timestamp
/// field: for it there is no identifier, and the call says so.
pub proof fn lemma_later_reading_mints_first(
    start: GeneratorState,
    epoch: u64,
    now_ms: u64,
    later_ms: u64,
)
    requires
        opens_millisecond(start.allocator, now_ms),
        epoch_in_range(epoch, now_ms),
        now_ms < later_ms,
    ensures
        generated(
            generator_after(start, epoch, stalled_clock(now_ms, MAX_SEQUENCE as nat + 2)),
            epoch,
            later_ms,
        ) == if epoch_in_range(epoch, later_ms) {
            Ok::<u64, GenerateError>(
                packed((later_ms - epoch) as nat, start.worker_id as nat, 0) as u64,
            )
        } else {
            Err::<u64, GenerateError>(GenerateError::EpochOutOfRange)
        },
{
    lemma_stalled_clock_exhausts(start, epoch, now_ms, 0);
}

} // verus!
