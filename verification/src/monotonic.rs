//! The sequencer: identifiers in strictly increasing order, up to 1024 of
//! them in one millisecond.

use vstd::prelude::*;
use crate::SmallUid;
use crate::error::SmallUidError;
use crate::generation::{
    assemble, law_order, law_parts, packed, random_below, timestamp_gen, TAIL_SPAN, TIMESTAMP_SPAN,
};

verus! {

/// Number of seeds, and of counter values: 2^10.
pub const SEED_SPAN: u64 = 0x400;

/// The highest counter value.
pub const COUNTER_LIMIT: u16 = 0x3FF;

/// How often `generate` reads the clock, while the millisecond is spent,
/// before it gives up.
pub const MAX_ATTEMPTS: u64 = 0xFFFF_FFFF_FFFF_FFFF;

/// What a sequencer holds, as numbers.
pub struct SequencerState {
    /// The millisecond of the identifier issued last; zero before the first.
    pub last_ms: nat,
    /// The random part of the tails of that millisecond.
    pub seed: nat,
    /// How many identifiers have followed the first of that millisecond.
    pub counter: nat,
}

impl SequencerState {
    /// The ranges of the three numbers.
    pub open spec fn wf(self) -> bool {
        self.last_ms <= u64::MAX && self.seed < SEED_SPAN && self.counter <= COUNTER_LIMIT
    }

    /// The state of a sequencer that has issued nothing.
    pub open spec fn fresh() -> SequencerState {
        SequencerState { last_ms: 0, seed: 0, counter: 0 }
    }

    /// The tail of the identifier issued last: the counter above the seed.
    pub open spec fn tail(self) -> nat {
        self.counter * SEED_SPAN as nat + self.seed
    }

    /// The identifier issued last: the millisecond above the tail.
    pub open spec fn uid(self) -> nat {
        packed(self.last_ms, self.tail())
    }

    /// Whether no identifier can be issued at `timestamp`: the clock has not
    /// passed the last millisecond and the counter is spent.
    pub open spec fn exhausted_at(self, timestamp: nat) -> bool {
        timestamp <= self.last_ms && self.counter >= COUNTER_LIMIT
    }

    /// The state after a request at `timestamp`. A later millisecond starts
    /// with the lower ten bits of `fresh_seed` and counter zero. Otherwise,
    /// also where the clock has gone back, the counter goes up by one while
    /// it can, and nothing changes once it cannot.
    pub open spec fn advance(self, timestamp: nat, fresh_seed: nat) -> SequencerState {
        if timestamp > self.last_ms {
            SequencerState { last_ms: timestamp, seed: fresh_seed % SEED_SPAN as nat, counter: 0 }
        } else if self.counter < COUNTER_LIMIT {
            SequencerState { counter: self.counter + 1, ..self }
        } else {
            self
        }
    }

    /// Whether this state is reached from `before` by issuing one
    /// identifier: in a later millisecond with counter zero, or in the same
    /// millisecond with the same seed and the next counter.
    pub open spec fn follows(self, before: SequencerState) -> bool {
        ||| self.last_ms > before.last_ms && self.counter == 0
        ||| self.last_ms == before.last_ms && self.seed == before.seed && self.counter
            == before.counter + 1
    }
}

/// The last of `states`, or `start` where there is none.
pub open spec fn last_state(start: SequencerState, states: Seq<SequencerState>) -> SequencerState {
    if states.len() == 0 {
        start
    } else {
        states.last()
    }
}

/// Whether a sequencer that issues `ids` one after another from `start`
/// passes through `states`: each state follows the one before it and has the
/// identifier at its place as the one issued last.
pub open spec fn issue_run(
    start: SequencerState,
    ids: Seq<SmallUid>,
    states: Seq<SequencerState>,
) -> bool {
    &&& states.len() == ids.len()
    &&& forall|i: int|
        0 <= i < ids.len() ==> (#[trigger] states[i]).wf() && states[i].follows(
            last_state(start, states.take(i)),
        ) && ids[i]@ == states[i].uid()
}

/// Whether `ids` are what a sequencer issues, one after another, on its way
/// from `start` to `end`.
pub open spec fn issued_in_turn(
    start: SequencerState,
    ids: Seq<SmallUid>,
    end: SequencerState,
) -> bool {
    exists|states: Seq<SequencerState>|
        #[trigger] issue_run(start, ids, states) && end == last_state(start, states)
}

/// Issues identifiers whose order is the order of issue. It is owned by one
/// caller at a time.
#[derive(Debug, Clone, Copy, PartialEq, Eq)]
pub struct MonotonicGenerator {
    last_ms: u64,
    lower_bits: u16,
    upper_counter: u16,
}

impl View for MonotonicGenerator {
    type V = SequencerState;

    closed spec fn view(&self) -> SequencerState {
        SequencerState {
            last_ms: self.last_ms as nat,
            seed: self.lower_bits as nat,
            counter: self.upper_counter as nat,
        }
    }
}

impl Default for MonotonicGenerator {
    /// A sequencer that has issued nothing.
    fn default() -> (generator: MonotonicGenerator)
        ensures
            generator@ == SequencerState::fresh(),
    {
        MonotonicGenerator { last_ms: 0, lower_bits: 0, upper_counter: 0 }
    }
}

/// A random seed: 10 bits.
pub fn random_gen() -> (seed: u16)
    ensures
        seed < SEED_SPAN,
{
    random_below(SEED_SPAN) as u16
}

/// One request at `timestamp`, with a random seed where a new millisecond
/// starts: the tail of the identifier to issue, or `MonotonicCounterLimit`
/// where the millisecond is spent.
pub fn monotonic_random_gen(generator: &mut MonotonicGenerator, timestamp: u64) -> (r: Result<
    u32,
    SmallUidError,
>)
    ensures
        final(generator)@ == old(generator)@.advance(timestamp as nat, final(generator)@.seed),
        final(generator)@.wf(),
        r == if old(generator)@.exhausted_at(timestamp as nat) {
            Err::<u32, SmallUidError>(SmallUidError::MonotonicCounterLimit)
        } else {
            Ok::<u32, SmallUidError>(final(generator)@.tail() as u32)
        },
{
    proof {
        use_type_invariant(&*generator);
    }
    let fresh_seed: u16 = if timestamp > generator.last_ms {
        random_gen()
    } else {
        generator.lower_bits
    };
    generator.step(timestamp, fresh_seed)
}

/// The next identifier of `generator`. While the millisecond is spent the
/// clock is read again, until it has moved on: the identifier then carries a
/// later millisecond. The sequencer is left as it was where the clock fails,
/// or has not moved on after `MAX_ATTEMPTS` readings.
pub fn generate(generator: &mut MonotonicGenerator) -> (r: Result<SmallUid, SmallUidError>)
    ensures
        final(generator)@.wf(),
        match r {
            Ok(id) => {
                &&& final(generator)@.follows(old(generator)@)
                &&& id@ == final(generator)@.uid()
                &&& id.timestamp() == final(generator)@.last_ms % TIMESTAMP_SPAN as nat
                &&& id.tail() == final(generator)@.tail()
                &&& old(generator)@.counter == COUNTER_LIMIT ==> {
                    &&& final(generator)@.last_ms > old(generator)@.last_ms
                    &&& final(generator)@.counter == 0
                    &&& id.tail() == final(generator)@.seed
                }
            },
            Err(e) => {
                &&& final(generator)@ == old(generator)@
                &&& e == SmallUidError::ClockError || (e == SmallUidError::MonotonicCounterLimit
                    && old(generator)@.counter == COUNTER_LIMIT)
            },
        },
{
    proof {
        use_type_invariant(&*generator);
    }
    let mut attempts: u64 = 0;
    while attempts < MAX_ATTEMPTS
        invariant
            generator@ == old(generator)@,
            generator@.wf(),
            attempts > 0 ==> generator@.counter == COUNTER_LIMIT,
        decreases MAX_ATTEMPTS - attempts,
    {
        let timestamp: u64 = timestamp_gen()?;
        match generator.generate_at(timestamp) {
            Ok(id) => {
                return Ok(id);
            },
            Err(_) => {},
        }
        attempts = attempts + 1;
    }
    Err(SmallUidError::MonotonicCounterLimit)
}

impl MonotonicGenerator {
    /// Seed and counter hold ten bits each.
    #[verifier::type_invariant]
    spec fn in_range(self) -> bool {
        self.lower_bits < SEED_SPAN && self.upper_counter <= COUNTER_LIMIT
    }

    /// One request at `timestamp`, with the seed to use if a new
    /// millisecond starts: the tail of the identifier to issue, or
    /// `MonotonicCounterLimit` where the millisecond is spent.
    pub fn step(&mut self, timestamp: u64, fresh_seed: u16) -> (r: Result<u32, SmallUidError>)
        ensures
            final(self)@ == old(self)@.advance(timestamp as nat, fresh_seed as nat),
            final(self)@.wf(),
            r == if old(self)@.exhausted_at(timestamp as nat) {
                Err::<u32, SmallUidError>(SmallUidError::MonotonicCounterLimit)
            } else {
                Ok::<u32, SmallUidError>(final(self)@.tail() as u32)
            },
    {
        proof {
            use_type_invariant(&*self);
        }
        if timestamp > self.last_ms {
            assert(fresh_seed & 0x3FF == fresh_seed % 0x400) by (bit_vector);
            self.last_ms = timestamp;
            self.lower_bits = fresh_seed & 0x3FF;
            self.upper_counter = 0;
        } else {
            if self.upper_counter >= COUNTER_LIMIT {
                return Err(SmallUidError::MonotonicCounterLimit);
            }
            self.upper_counter = self.upper_counter + 1;
        }
        let counter: u16 = self.upper_counter;
        let seed: u16 = self.lower_bits;
        assert(((counter as u32) << 10) | (seed as u32) == counter * 0x400 + seed) by (bit_vector)
            requires
                counter < 0x400,
                seed < 0x400,
        ;
        Ok(((counter as u32) << 10) | seed as u32)
    }

    /// One request at `timestamp`: the next identifier, or
    /// `MonotonicCounterLimit` where the millisecond is spent. The
    /// identifier carries the sequencer's millisecond, which is `timestamp`
    /// unless the clock has gone back.
    pub fn generate_at(&mut self, timestamp: u64) -> (r: Result<SmallUid, SmallUidError>)
        ensures
            final(self)@ == old(self)@.advance(timestamp as nat, final(self)@.seed),
            final(self)@.wf(),
            match r {
                Ok(id) => {
                    &&& !old(self)@.exhausted_at(timestamp as nat)
                    &&& final(self)@.follows(old(self)@)
                    &&& id@ == final(self)@.uid()
                    &&& id.timestamp() == final(self)@.last_ms % TIMESTAMP_SPAN as nat
                    &&& id.tail() == final(self)@.tail()
                },
                Err(e) => {
                    &&& old(self)@.exhausted_at(timestamp as nat)
                    &&& e == SmallUidError::MonotonicCounterLimit
                },
            },
    {
        match monotonic_random_gen(self, timestamp) {
            Ok(tail) => Ok(assemble(self.last_ms, tail as u64)),
            Err(e) => Err(e),
        }
    }

    /// The next identifier. While the millisecond is spent the clock is
    /// read again, until it has moved on: the identifier then carries a
    /// later millisecond. The sequencer is left as it was where the clock
    /// fails, or has not moved on after `MAX_ATTEMPTS` readings.
    pub fn generate(&mut self) -> (r: Result<SmallUid, SmallUidError>)
        ensures
            final(self)@.wf(),
            match r {
                Ok(id) => {
                    &&& final(self)@.follows(old(self)@)
                    &&& id@ == final(self)@.uid()
                    &&& id.timestamp() == final(self)@.last_ms % TIMESTAMP_SPAN as nat
                    &&& id.tail() == final(self)@.tail()
                    &&& old(self)@.counter == COUNTER_LIMIT ==> {
                        &&& final(self)@.last_ms > old(self)@.last_ms
                        &&& final(self)@.counter == 0
                        &&& id.tail() == final(self)@.seed
                    }
                },
                Err(e) => {
                    &&& final(self)@ == old(self)@
                    &&& e == SmallUidError::ClockError || (e
                        == SmallUidError::MonotonicCounterLimit && old(self)@.counter
                        == COUNTER_LIMIT)
                },
            },
    {
        generate(self)
    }

    /// `count` identifiers, one after another; in strictly increasing order
    /// as long as the millisecond fits 44 bits. At the first that cannot be
    /// issued the error is returned, and the sequencer stays where the
    /// identifiers before it have brought it.
    pub fn generate_batch(&mut self, count: usize) -> (r: Result<Vec<SmallUid>, SmallUidError>)
        ensures
            final(self)@.wf(),
            match r {
                Ok(ids) => {
                    &&& ids@.len() == count
                    &&& issued_in_turn(old(self)@, ids@, final(self)@)
                    &&& final(self)@.last_ms < TIMESTAMP_SPAN ==> forall|i: int, j: int|
                        0 <= i < j < ids@.len() ==> ids@[i]@ < ids@[j]@
                },
                Err(e) => {
                    &&& e == SmallUidError::ClockError || (e
                        == SmallUidError::MonotonicCounterLimit && final(self)@.counter
                        == COUNTER_LIMIT)
                    &&& exists|ids: Seq<SmallUid>|
                        ids.len() < count && #[trigger] issued_in_turn(
                            old(self)@,
                            ids,
                            final(self)@,
                        )
                },
            },
    {
        proof {
            use_type_invariant(&*self);
        }
        let mut smalluids: Vec<SmallUid> = Vec::new();
        let ghost mut states: Seq<SequencerState> = Seq::empty();
        for issued in 0..count
            invariant
                self@.wf(),
                smalluids@.len() == issued,
                issue_run(old(self)@, smalluids@, states),
                self@ == last_state(old(self)@, states),
        {
            match self.generate() {
                Ok(id) => {
                    smalluids.push(id);
                    proof {
                        states = states.push(self@);
                    }
                },
                Err(e) => {
                    assert(issued_in_turn(old(self)@, smalluids@, self@));
                    return Err(e);
                },
            }
        }
        proof {
            if self@.last_ms < TIMESTAMP_SPAN {
                law_issue_order(old(self)@, smalluids@, states);
            }
        }
        Ok(smalluids)
    }

    /// The 1024 identifiers of `timestamp` that the sequencer's seed
    /// allows, by counter. The sequencer is left as it was.
    pub fn generate_full(&mut self, timestamp: u64) -> (ids: [SmallUid; 1024])
        ensures
            final(self)@ == old(self)@,
            forall|i: int|
                0 <= i < 1024 ==> (#[trigger] ids@[i])@ == packed(
                    timestamp as nat,
                    (i * SEED_SPAN + old(self)@.seed) as nat,
                ),
            forall|i: int|
                0 <= i < 1024 ==> (#[trigger] ids@[i]).timestamp() == timestamp % TIMESTAMP_SPAN
                    && ids@[i].tail() == i * SEED_SPAN + old(self)@.seed,
            forall|i: int, j: int| 0 <= i < j < 1024 ==> ids@[i]@ < ids@[j]@,
    {
        proof {
            use_type_invariant(&*self);
        }
        let seed: u16 = self.lower_bits;
        let mut ids: [SmallUid; 1024] = [SmallUid(0);1024];
        let mut i: usize = 0;
        while i < 1024
            invariant
                i <= 1024,
                seed < SEED_SPAN,
                forall|k: int|
                    0 <= k < i ==> (#[trigger] ids@[k])@ == packed(
                        timestamp as nat,
                        (k * SEED_SPAN + seed) as nat,
                    ),
            decreases 1024 - i,
        {
            let counter: u32 = i as u32;
            assert((counter << 10) | (seed as u32) == counter * 0x400 + seed) by (bit_vector)
                requires
                    counter < 0x400,
                    seed < 0x400,
            ;
            let tail: u32 = (counter << 10) | seed as u32;
            ids[i] = assemble(timestamp, tail as u64);
            i = i + 1;
        }
        proof {
            assert forall|k: int| 0 <= k < 1024 implies (#[trigger] ids@[k]).timestamp()
                == timestamp % TIMESTAMP_SPAN && ids@[k].tail() == k * SEED_SPAN + seed by {
                law_parts(timestamp as nat, (k * SEED_SPAN + seed) as nat);
            }
            assert forall|a: int, b: int| 0 <= a < b < 1024 implies ids@[a]@ < ids@[b]@ by {
                law_order(ids@[a], ids@[b]);
            }
        }
        ids
    }
}

/// The identifier issued last carries the sequencer's millisecond, as far as
/// 44 bits hold it, and its tail.
pub proof fn law_uid_parts(state: SequencerState)
    requires
        state.wf(),
    ensures
        state.uid() <= u64::MAX,
        state.tail() < TAIL_SPAN,
        SmallUid(state.uid() as u64).timestamp() == state.last_ms % TIMESTAMP_SPAN as nat,
        SmallUid(state.uid() as u64).tail() == state.tail(),
{
    law_parts(state.last_ms, state.tail());
}

/// A request to a sequencer whose millisecond is spent. While the clock has
/// not passed that millisecond the request fails and changes nothing. Once
/// the clock has passed it, the request is served: the identifier carries
/// the clock's millisecond, as far as 44 bits hold it, and as its tail the
/// new seed under counter zero.
pub proof fn law_spent_request(state: SequencerState, timestamp: nat, fresh_seed: nat)
    requires
        state.wf(),
        state.counter == COUNTER_LIMIT,
        timestamp <= u64::MAX,
    ensures
        state.advance(timestamp, fresh_seed).wf(),
        timestamp <= state.last_ms ==> state.exhausted_at(timestamp) && state.advance(
            timestamp,
            fresh_seed,
        ) == state,
        timestamp > state.last_ms ==> {
            let after = state.advance(timestamp, fresh_seed);
            &&& !state.exhausted_at(timestamp)
            &&& after.follows(state)
            &&& after.last_ms == timestamp
            &&& after.counter == 0
            &&& SmallUid(after.uid() as u64).timestamp() == timestamp % TIMESTAMP_SPAN as nat
            &&& SmallUid(after.uid() as u64).tail() == fresh_seed % SEED_SPAN as nat
        },
{
    law_uid_parts(state.advance(timestamp, fresh_seed));
}

/// An identifier issued after the last of a millisecond carries a later
/// millisecond.
pub proof fn law_spent_millisecond(before: SequencerState, after: SequencerState)
    requires
        after.wf(),
        after.follows(before),
        before.counter == COUNTER_LIMIT,
    ensures
        after.last_ms > before.last_ms,
{
}

/// An identifier is greater than the one issued before it, as long as the
/// millisecond fits 44 bits.
pub proof fn law_step_order(before: SequencerState, after: SequencerState)
    requires
        before.wf(),
        after.wf(),
        after.follows(before),
        after.last_ms < TIMESTAMP_SPAN,
    ensures
        before.uid() < after.uid(),
{
    law_uid_parts(before);
    law_uid_parts(after);
    law_order(SmallUid(before.uid() as u64), SmallUid(after.uid() as u64));
}

/// Identifiers issued one after another are in strictly increasing order,
/// and above the one issued before them, as long as the millisecond fits
/// 44 bits.
pub proof fn law_issue_order(start: SequencerState, ids: Seq<SmallUid>, states: Seq<SequencerState>)
    requires
        start.wf(),
        issue_run(start, ids, states),
        last_state(start, states).last_ms < TIMESTAMP_SPAN,
    ensures
        forall|i: int| 0 <= i < ids.len() ==> start.uid() < (#[trigger] ids[i])@,
        forall|i: int, j: int| 0 <= i < j < ids.len() ==> ids[i]@ < ids[j]@,
{
    let floor: nat = start.uid();
    assert forall|i: int| 0 <= i < ids.len() implies (if i == 0 {
        floor
    } else {
        ids[i - 1]@
    }) < (#[trigger] ids[i])@ by {
        let before = last_state(start, states.take(i));
        lemma_run_clock(start, ids, states, i, ids.len() - 1);
        law_step_order(before, states[i]);
    }
    lemma_increasing(ids, floor, ids.len() as int);
}

/// Along a run the millisecond never goes back.
proof fn lemma_run_clock(
    start: SequencerState,
    ids: Seq<SmallUid>,
    states: Seq<SequencerState>,
    i: int,
    j: int,
)
    requires
        issue_run(start, ids, states),
        0 <= i <= j < states.len(),
    ensures
        start.last_ms <= states[i].last_ms <= states[j].last_ms,
    decreases j,
{
    if i < j {
        lemma_run_clock(start, ids, states, i, j - 1);
    } else if i > 0 {
        lemma_run_clock(start, ids, states, i - 1, i - 1);
    }
}

/// Identifiers of which each is above the one before it, and the first
/// above `floor`, are in strictly increasing order above `floor`.
proof fn lemma_increasing(ids: Seq<SmallUid>, floor: nat, n: int)
    requires
        0 <= n <= ids.len(),
        forall|i: int|
            0 <= i < ids.len() ==> (if i == 0 {
                floor
            } else {
                ids[i - 1]@
            }) < (#[trigger] ids[i])@,
    ensures
        forall|i: int| 0 <= i < n ==> floor < (#[trigger] ids[i])@,
        forall|i: int, j: int| 0 <= i < j < n ==> ids[i]@ < ids[j]@,
    decreases n,
{
    if n > 0 {
        lemma_increasing(ids, floor, n - 1);
        assert((if n - 1 == 0 {
            floor
        } else {
            ids[n - 2]@
        }) < ids[n - 1]@);
    }
}

} // verus!
