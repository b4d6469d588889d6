//! Compact, sortable 64-bit identifiers: 44 bits of millisecond timestamp
//! above 20 bits of tail, with a text form of eleven URL-safe characters.
//!
//! - [`generation`] packs a timestamp and a tail, and reads the clock and
//!   the random source.
//! - [`monotonic`] issues identifiers in strictly increasing order.
//! - [`codec`] turns identifiers into text and back.
//! - [`rng`] draws random tails in number.
//!
//! Contracts speak of an identifier by its view, the number it is, and of a
//! sequencer by the three numbers it holds.

use vstd::prelude::*;

pub mod codec;
pub mod error;
pub mod generation;
pub mod monotonic;
pub mod rng;

pub use error::SmallUidError;
pub use generation::timestamp_gen;
pub use monotonic::MonotonicGenerator;
use generation::{assemble, packed, TAIL_SPAN, TIMESTAMP_SPAN};

verus! {

/// A 64-bit identifier. The upper 44 bits hold a millisecond timestamp, the
/// lower 20 bits the tail. Identifiers are ordered as numbers: by
/// timestamp, then by tail.
#[derive(Hash, Debug, Clone, Copy, PartialEq, Eq, PartialOrd, Ord, Structural)]
pub struct SmallUid(pub u64);

impl View for SmallUid {
    type V = nat;

    /// The identifier as a number.
    open spec fn view(&self) -> nat {
        self.0 as nat
    }
}

impl Default for SmallUid {
    /// The identifier zero.
    fn default() -> (id: SmallUid)
        ensures
            id@ == 0,
    {
        SmallUid(0)
    }
}

impl SmallUid {
    /// The timestamp that the identifier carries.
    pub open spec fn timestamp(self) -> nat {
        self@ / TAIL_SPAN as nat
    }

    /// The tail that the identifier carries.
    pub open spec fn tail(self) -> nat {
        self@ % TAIL_SPAN as nat
    }

    /// An identifier of the current millisecond with a random tail.
    pub fn new() -> (r: Result<SmallUid, SmallUidError>)
        ensures
            r matches Err(e) ==> e == SmallUidError::ClockError,
    {
        generation::generate()
    }

    /// `count` identifiers, each made as `new` makes one. An empty batch
    /// reads neither the clock nor the random source, and is always given.
    pub fn batch_new(count: usize) -> (r: Result<Vec<SmallUid>, SmallUidError>)
        ensures
            count == 0 ==> r is Ok,
            match r {
                Ok(ids) => ids@.len() == count,
                Err(e) => e == SmallUidError::ClockError,
            },
    {
        let mut smalluids: Vec<SmallUid> = Vec::new();
        for made in 0..count
            invariant
                smalluids@.len() == made,
        {
            let id = generation::generate()?;
            smalluids.push(id);
        }
        Ok(smalluids)
    }

    /// A sequencer that has issued nothing.
    pub fn init_monotonic() -> (generator: MonotonicGenerator)
        ensures
            generator@ == monotonic::SequencerState::fresh(),
    {
        MonotonicGenerator::default()
    }

    /// `timestamp` above the lower 20 bits of `random`. A timestamp of up
    /// to 44 bits and a tail of up to 20 bits are read back as they went in.
    pub fn from_parts(timestamp: u64, random: u64) -> (id: SmallUid)
        ensures
            id@ == packed(timestamp as nat, random as nat),
            id.timestamp() == timestamp % TIMESTAMP_SPAN,
            id.tail() == random % TAIL_SPAN,
    {
        assemble(timestamp, random)
    }

    /// `timestamp` above a random tail.
    pub fn from_timestamp(timestamp: u64) -> (id: SmallUid)
        ensures
            id.timestamp() == timestamp % TIMESTAMP_SPAN,
    {
        let random: u64 = generation::random_gen();
        assemble(timestamp, random)
    }

    /// The current millisecond above the lower 20 bits of `random`.
    pub fn from_random(random: u64) -> (r: Result<SmallUid, SmallUidError>)
        ensures
            match r {
                Ok(id) => id.tail() == random % TAIL_SPAN,
                Err(e) => e == SmallUidError::ClockError,
            },
    {
        let timestamp: u64 = generation::timestamp_gen()?;
        Ok(assemble(timestamp, random))
    }

    /// The timestamp: the upper 44 bits.
    pub fn get_timestamp(&self) -> (timestamp: u64)
        ensures
            timestamp == self.timestamp(),
    {
        let raw: u64 = self.0;
        assert(raw >> 20u64 == raw / 0x10_0000u64) by (bit_vector);
        self.0 >> 20
    }

    /// The tail: the lower 20 bits.
    pub fn get_random(&self) -> (tail: u64)
        ensures
            tail == self.tail(),
    {
        let raw: u64 = self.0;
        assert(raw & 0xFFFFFu64 == raw % 0x10_0000u64) by (bit_vector);
        self.0 & 0xFFFFF
    }

    /// The identifier as a number.
    pub fn to_u64(&self) -> (raw: u64)
        ensures
            raw == self@,
    {
        self.0
    }

    /// The identifier as text: eleven URL-safe characters.
    pub fn to_string(&self) -> (text: String)
        ensures
            text@ == codec::token(self.0),
    {
        codec::encode(*self)
    }
}

impl From<u64> for SmallUid {
    fn from(value: u64) -> (id: SmallUid) {
        SmallUid(value)
    }
}

impl vstd::std_specs::convert::FromSpecImpl<u64> for SmallUid {
    open spec fn obeys_from_spec() -> bool {
        true
    }

    open spec fn from_spec(value: u64) -> SmallUid {
        SmallUid(value)
    }
}

impl From<SmallUid> for u64 {
    fn from(value: SmallUid) -> (raw: u64) {
        value.0
    }
}

impl vstd::std_specs::convert::FromSpecImpl<SmallUid> for u64 {
    open spec fn obeys_from_spec() -> bool {
        true
    }

    open spec fn from_spec(value: SmallUid) -> u64 {
        value.0
    }
}

impl TryFrom<String> for SmallUid {
    type Error = SmallUidError;

    /// The identifier that `value` holds as text.
    fn try_from(value: String) -> (r: Result<SmallUid, SmallUidError>) {
        codec::decode(value.as_str())
    }
}

impl vstd::std_specs::convert::TryFromSpecImpl<String> for SmallUid {
    open spec fn obeys_try_from_spec() -> bool {
        true
    }

    open spec fn try_from_spec(value: String) -> Result<SmallUid, SmallUidError> {
        codec::parsed(value@)
    }
}

impl From<SmallUid> for String {
    /// The identifier as text.
    fn from(value: SmallUid) -> (text: String)
        ensures
            text@ == codec::token(value.0),
    {
        codec::encode(value)
    }
}

impl vstd::std_specs::convert::FromSpecImpl<SmallUid> for String {
    /// A `String` is known by its characters alone, which `from` states.
    open spec fn obeys_from_spec() -> bool {
        false
    }

    open spec fn from_spec(value: SmallUid) -> String {
        arbitrary()
    }
}

} // verus!
