//! The shuffle permutation: a Fisher-Yates shuffle driven by a linear
//! congruential generator, seeded from the clock each time shuffle is
//! switched on.

use vstd::prelude::*;
use core::time::Duration;

verus! {

/// The order `0, 1, .., len - 1`.
pub open spec fn identity_order(len: nat) -> Seq<usize> {
    Seq::new(len, |k: int| k as usize)
}

/// `order` with the items at places `i` and `j` exchanged.
pub open spec fn swapped(order: Seq<usize>, i: int, j: int) -> Seq<usize> {
    order.update(i, order[j]).update(j, order[i])
}

/// True if `order` holds each of `0, 1, .., len - 1` once.
pub open spec fn is_permutation(order: Seq<usize>, len: nat) -> bool {
    &&& order.len() == len
    &&& forall|k: int| 0 <= k < len ==> (#[trigger] order[k]) < len
    &&& forall|a: int, b: int| 0 <= a < b < len ==> #[trigger] order[a] != #[trigger] order[b]
}

/// The state of the generator after one step.
pub open spec fn lcg_next(state: u64) -> u64 {
    state.wrapping_mul(6364136223846793005u64).wrapping_add(1442695040888963407u64)
}

/// The place that a generator state picks among `0 .. bound`: its upper 31 bits, modulo the bound.
pub open spec fn lcg_pick(state: u64, bound: int) -> int {
    ((state >> 33) as int) % bound
}

/// The order after the exchanges for the places `i`, `i - 1`, .., `1`:
/// each place is exchanged with a place at or below it that the generator picks.
pub open spec fn shuffle_steps(order: Seq<usize>, state: u64, i: int) -> Seq<usize>
    decreases i,
{
    if i < 1 {
        order
    } else {
        let stepped = lcg_next(state);
        shuffle_steps(swapped(order, i, lcg_pick(stepped, i + 1)), stepped, i - 1)
    }
}

/// The shuffle of `len` tracks that belongs to a seed.
pub open spec fn shuffled(len: nat, seed: u64) -> Seq<usize> {
    shuffle_steps(identity_order(len), seed, len - 1)
}

proof fn lemma_upper_bits(state: u64)
    by (bit_vector)
    ensures
        (state >> 33) < 0x8000_0000u64,
{
}

/// The shuffle for a given seed.
pub fn shuffle_with_seed(len: usize, seed: u64) -> (order: Vec<usize>)
    ensures
        order@ == shuffled(len as nat, seed),
        is_permutation(order@, len as nat),
{
    let mut order: Vec<usize> = Vec::new();
    let mut k: usize = 0;
    while k < len
        invariant
            k <= len,
            order@ == identity_order(k as nat),
        decreases len - k,
    {
        order.push(k);
        proof {
            assert(order@ =~= identity_order((k + 1) as nat));
        }
        k += 1;
    }
    if len < 2 {
        proof {
            reveal_with_fuel(shuffle_steps, 1);
        }
        return order;
    }
    let mut state: u64 = seed;
    let mut i: usize = len - 1;
    while i >= 1
        invariant
            i < len,
            is_permutation(order@, len as nat),
            shuffle_steps(order@, state, i as int) == shuffled(len as nat, seed),
        decreases i,
    {
        state = state.wrapping_mul(6364136223846793005u64).wrapping_add(1442695040888963407u64);
        proof {
            lemma_upper_bits(state);
        }
        let j: usize = ((state >> 33) as usize) % (i + 1);
        let at_i = order[i];
        let at_j = order[j];
        let ghost before = order@;
        order.set(i, at_j);
        order.set(j, at_i);
        proof {
            assert(order@ =~= swapped(before, i as int, j as int));
        }
        i -= 1;
    }
    order
}

/// Calls `SystemTime::elapsed` on `UNIX_EPOCH`. Trusted: nothing is
/// claimed of the result, which is the time of the call.
#[verifier::external_body]
fn since_epoch() -> Option<Duration> {
    std::time::UNIX_EPOCH.elapsed().ok()
}

/// Calls `Duration::as_nanos`. Trusted: nothing is claimed of the result.
#[verifier::external_body]
fn nanos_of(d: &Duration) -> u128 {
    d.as_nanos()
}

/// The low 64 bits of a number: what is left of it after division by 2^64.
fn low_bits(n: u128) -> (low: u64)
    ensures
        low == n % 0x1_0000_0000_0000_0000,
{
    let kept: u128 = n & 0xFFFF_FFFF_FFFF_FFFF;
    assert(kept == n % 0x1_0000_0000_0000_0000 && kept <= 0xFFFF_FFFF_FFFF_FFFF) by (bit_vector)
        requires
            kept == n & 0xFFFF_FFFF_FFFF_FFFF,
    ;
    kept as u64
}

/// A fresh shuffle of `len` tracks, seeded with the nanoseconds of the
/// clock. Whatever the clock says, it is the shuffle of some seed, and so
/// a permutation of the tracks.
pub fn shuffle_indices(len: usize) -> (order: Vec<usize>)
    ensures
        is_permutation(order@, len as nat),
        exists|seed: u64| order@ == shuffled(len as nat, seed),
{
    let seed: u64 = match since_epoch() {
        Some(d) => low_bits(nanos_of(&d)),
        None => 0,
    };
    shuffle_with_seed(len, seed)
}

} // verus!
