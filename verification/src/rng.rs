//! Random tails in number.

use vstd::prelude::*;
use crate::generation::{random_gen, TAIL_SPAN};

verus! {

/// `count` random tails, or one where no count is given.
pub fn generate(count: Option<usize>) -> (tails: Vec<u64>)
    ensures
        tails@.len() == (match count {
            Some(n) => n,
            None => 1,
        }),
        forall|i: int| 0 <= i < tails@.len() ==> tails@[i] < TAIL_SPAN,
{
    let count: usize = match count {
        Some(n) => n,
        None => 1,
    };
    let mut randoms: Vec<u64> = Vec::new();
    for drawn in 0..count
        invariant
            randoms@.len() == drawn,
            forall|i: int| 0 <= i < randoms@.len() ==> randoms@[i] < TAIL_SPAN,
    {
        randoms.push(random_gen());
    }
    randoms
}

} // verus!
