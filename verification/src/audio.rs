//! The spectrum display of the player: a fixed number of bars, each a byte.

use vstd::prelude::*;

verus! {

/// The number of bars of the spectrum display.
pub const FREQUENCY_BANDS: usize = 64;

/// The spectrum display when nothing has played yet: every bar at zero.
pub fn initial_frequency_data() -> (r: Vec<u8>)
    ensures
        r@.len() == FREQUENCY_BANDS,
        forall|i: int| 0 <= i < r@.len() ==> r@[i] == 0,
{
    let mut r: Vec<u8> = Vec::new();
    let mut i: usize = 0;
    while i < FREQUENCY_BANDS
        invariant
            i <= FREQUENCY_BANDS,
            r@.len() == i,
            forall|j: int| 0 <= j < r@.len() ==> r@[j] == 0,
        decreases FREQUENCY_BANDS - i,
    {
        r.push(0);
        i = i + 1;
    }
    r
}

/// Sets every bar of the display to zero, as when playback is paused or stopped.
pub fn silence(data: &mut Vec<u8>)
    ensures
        final(data)@.len() == old(data)@.len(),
        forall|i: int| 0 <= i < final(data)@.len() ==> final(data)@[i] == 0,
{
    let n = data.len();
    let mut i: usize = 0;
    while i < n
        invariant
            n == data@.len(),
            i <= n,
            forall|j: int| 0 <= j < i ==> data@[j] == 0,
        decreases n - i,
    {
        data.set(i, 0);
        i = i + 1;
    }
}

} // verus!
