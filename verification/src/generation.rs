//! Packing a timestamp and a tail into one identifier, and the clock and
//! the random source that supply them.

use vstd::prelude::*;
use crate::SmallUid;
use crate::error::SmallUidError;
use rand::Rng;
use std::time::{Duration, SystemTime, SystemTimeError, UNIX_EPOCH};

verus! {

/// Number of distinct tails: 2^20.
pub const TAIL_SPAN: u64 = 0x10_0000;

/// Number of distinct timestamps that an identifier can carry: 2^44.
pub const TIMESTAMP_SPAN: u64 = 0x1000_0000_0000;

/// The number that carries `timestamp` above `tail`. A timestamp beyond 44
/// bits loses its upper bits; a tail beyond 20 bits keeps its lower 20.
pub open spec fn packed(timestamp: nat, tail: nat) -> nat {
    ((timestamp % TIMESTAMP_SPAN as nat) * TAIL_SPAN + tail % TAIL_SPAN as nat) as nat
}

/// A point of the system clock.
#[verifier::external_type_specification]
#[verifier::external_body]
pub struct ExSystemTime(SystemTime);

/// The error of a clock that stands before the point it is measured from.
#[verifier::external_type_specification]
#[verifier::external_body]
pub struct ExSystemTimeError(SystemTimeError);

/// `SystemTime::now`: the system clock at the time of the call.
#[verifier::external_body]
fn clock_now() -> SystemTime {
    SystemTime::now()
}

/// `SystemTime::duration_since` from `UNIX_EPOCH`: the time elapsed since
/// the epoch, or an error where `now` lies before it.
#[verifier::external_body]
fn since_epoch(now: &SystemTime) -> Result<Duration, SystemTimeError> {
    now.duration_since(UNIX_EPOCH)
}

/// `Duration::as_millis`: the whole milliseconds of `elapsed`.
#[verifier::external_body]
fn whole_millis(elapsed: &Duration) -> u128 {
    elapsed.as_millis()
}

/// `Rng::random_range` on the generator that `rand::rng` hands out: a
/// number drawn from `0..bound`. On an empty range the call panics, so
/// `bound` is positive. Seeding the generator needs entropy from the
/// operating system.
#[verifier::external_body]
pub(crate) fn random_below(bound: u64) -> (drawn: u64)
    requires
        bound > 0,
    ensures
        drawn < bound,
{
    rand::rng().random_range(0..bound)
}

/// The timestamp of a clock that stands `millis` milliseconds after the
/// epoch: the lower 64 bits of that count.
pub fn timestamp_of_millis(millis: u128) -> (timestamp: u64)
    ensures
        timestamp == millis % 0x1_0000_0000_0000_0000,
{
    assert(millis as u64 == millis % 0x1_0000_0000_0000_0000u128) by (bit_vector);
    millis as u64
}

/// Milliseconds since the Unix epoch by the system clock, in 64 bits. The
/// clock decides the outcome: an error where it stands before the epoch,
/// else the timestamp of the milliseconds it has counted.
pub fn timestamp_gen() -> (r: Result<u64, SmallUidError>)
    ensures
        r matches Err(e) ==> e == SmallUidError::ClockError,
{
    let now = clock_now();
    match since_epoch(&now) {
        Ok(elapsed) => Ok(timestamp_of_millis(whole_millis(&elapsed))),
        Err(_) => Err(SmallUidError::ClockError),
    }
}

/// A random tail: 20 bits.
pub fn random_gen() -> (tail: u64)
    ensures
        tail < TAIL_SPAN,
{
    random_below(TAIL_SPAN)
}

/// `timestamp` in the upper 44 bits, the lower 20 bits of `random` below
/// them. What goes beyond 44 or 20 bits is cut off.
pub fn assemble(timestamp: u64, random: u64) -> (id: SmallUid)
    ensures
        id@ == packed(timestamp as nat, random as nat),
        id.timestamp() == timestamp % TIMESTAMP_SPAN,
        id.tail() == random % TAIL_SPAN,
{
    let high: u64 = timestamp << 20;
    let low: u64 = random & 0xFFFFF;
    proof {
        assert((timestamp << 20u64) | (random & 0xFFFFFu64) == (timestamp % 0x1000_0000_0000u64)
            * 0x10_0000u64 + random % 0x10_0000u64) by (bit_vector);
        law_parts(timestamp as nat, random as nat);
    }
    SmallUid(high | low)
}

/// An identifier of the current millisecond with a random tail.
pub fn generate() -> (r: Result<SmallUid, SmallUidError>)
    ensures
        r matches Err(e) ==> e == SmallUidError::ClockError,
{
    let timestamp: u64 = timestamp_gen()?;
    let random: u64 = random_gen();
    Ok(assemble(timestamp, random))
}

/// The timestamp and the tail of what `packed` gives: the timestamp as far
/// as 44 bits hold it, the tail as far as 20 bits hold it.
pub proof fn law_parts(timestamp: nat, tail: nat)
    ensures
        packed(timestamp, tail) <= u64::MAX,
        SmallUid(packed(timestamp, tail) as u64).timestamp() == timestamp % TIMESTAMP_SPAN as nat,
        SmallUid(packed(timestamp, tail) as u64).tail() == tail % TAIL_SPAN as nat,
{
    let high: int = (timestamp % TIMESTAMP_SPAN as nat) as int;
    let low: int = (tail % TAIL_SPAN as nat) as int;
    let span: int = TAIL_SPAN as int;
    assert(high * span <= 0xFFF_FFFF_FFFF * span) by (nonlinear_arith)
        requires
            high <= 0xFFF_FFFF_FFFF,
            span > 0,
    ;
    assert((high * span + low) / span == high && (high * span + low) % span == low)
        by (nonlinear_arith)
        requires
            0 <= low < span,
    ;
}

/// Round trip of the parts: a timestamp of at most 44 bits and a tail of at
/// most 20 bits are read back from their identifier as they went in.
pub proof fn law_parts_round_trip(timestamp: u64, tail: u64)
    requires
        timestamp < TIMESTAMP_SPAN,
        tail < TAIL_SPAN,
    ensures
        SmallUid(packed(timestamp as nat, tail as nat) as u64).timestamp() == timestamp,
        SmallUid(packed(timestamp as nat, tail as nat) as u64).tail() == tail,
{
    law_parts(timestamp as nat, tail as nat);
}

/// Every identifier is made of its own timestamp and tail.
pub proof fn law_reassemble(id: SmallUid)
    ensures
        id.timestamp() < TIMESTAMP_SPAN,
        id.tail() < TAIL_SPAN,
        packed(id.timestamp(), id.tail()) == id@,
{
}

/// The order of identifiers is that of their timestamps, and of their tails
/// where the timestamps are equal.
pub proof fn law_order(a: SmallUid, b: SmallUid)
    ensures
        a@ < b@ <==> a.timestamp() < b.timestamp() || (a.timestamp() == b.timestamp() && a.tail()
            < b.tail()),
{
}

} // verus!
