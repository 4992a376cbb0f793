//! The workload of the map benchmarks: a stream of pseudo-random keys, looked up in a
//! map of which a quarter of the keys hits. Every run has to print the same sink, so that
//! two runs are known to have done the same work.

use std::collections::HashMap;
use vstd::arithmetic::power2::{lemma2_to64, pow2};
use vstd::prelude::*;

verus! {

/// Keys are drawn from below this.
pub const KEY_RANGE: i64 = 4096;

/// How many entries the map holds, four keys apart.
pub const LIVE: i64 = 1024;

/// The state that the stream starts from.
pub const SEED: i64 = 12345;

/// The state behind `s`: a linear congruence modulo two to the thirty-first.
pub open spec fn next_state(s: int) -> int {
    (s * 1103515245 + 12345) % 0x8000_0000
}

/// The state after `n` steps.
pub open spec fn state_at(n: nat) -> int
    decreases n,
{
    if n == 0 {
        SEED as int
    } else {
        next_state(state_at((n - 1) as nat))
    }
}

/// The key that a state gives.
pub open spec fn key_of(s: int) -> int {
    (s / 65536) % (KEY_RANGE as int)
}

/// What the map holds under a key: a quarter of it, if it is a multiple of four.
pub open spec fn entry(key: int) -> Option<int> {
    if key % 4 == 0 && 0 <= key / 4 < LIVE {
        Some(key / 4)
    } else {
        None
    }
}

/// The sum of the first `n` keys.
pub open spec fn key_sum(n: nat) -> int
    decreases n,
{
    if n == 0 {
        0
    } else {
        key_sum((n - 1) as nat) + key_of(state_at(n))
    }
}

/// The sum of the first `n` lookups, of which a hit counts one more than its value and a
/// miss counts nothing.
pub open spec fn hit_sum(n: nat) -> int
    decreases n,
{
    if n == 0 {
        0
    } else {
        hit_sum((n - 1) as nat) + match entry(key_of(state_at(n))) {
            Some(v) => v + 1,
            None => 0,
        }
    }
}

/// One step of the stream.
pub fn step(state: i64) -> (next: i64)
    requires
        0 <= state < 0x8000_0000,
    ensures
        next == next_state(state as int),
        0 <= next < 0x8000_0000,
{
    let x: i64 = state * 1103515245 + 12345;
    assert(x >= 0 ==> x & 0x7fff_ffff == x % 0x8000_0000) by (bit_vector);
    x & 0x7fff_ffff
}

/// The key that a state of the stream gives.
pub fn key(state: i64) -> (k: i64)
    requires
        0 <= state < 0x8000_0000,
    ensures
        k == key_of(state as int),
{
    (state / 65536) % KEY_RANGE
}

/// The sink of the bare loop: the keys are drawn and added up, and nothing is looked up.
pub fn loop_sink(ops: u32) -> (sink: i64)
    ensures
        sink == key_sum(ops as nat),
{
    let mut sink: i64 = 0;
    let mut state: i64 = SEED;
    let mut i: u32 = 0;
    while i < ops
        invariant
            i <= ops,
            0 <= state < 0x8000_0000,
            state == state_at(i as nat),
            sink == key_sum(i as nat),
            0 <= sink <= i * KEY_RANGE,
        decreases ops - i,
    {
        state = step(state);
        sink += key(state);
        i += 1;
    }
    sink
}

/// The map that the keys are looked up in.
pub fn live_map() -> (map: HashMap<i64, i64>)
    ensures
        forall|k: i64| #[trigger]
            map@.contains_key(k) <==> entry(k as int) is Some,
        forall|k: i64| #[trigger]
            map@.contains_key(k) ==> map@[k] == entry(k as int)->0,
{
    let mut map: HashMap<i64, i64> = HashMap::new();
    let mut i: i64 = 0;
    while i < LIVE
        invariant
            0 <= i <= LIVE,
            forall|k: i64| #[trigger]
                map@.contains_key(k) <==> entry(k as int) is Some && k < i * 4,
            forall|k: i64| #[trigger]
                map@.contains_key(k) ==> map@[k] == entry(k as int)->0,
        decreases LIVE - i,
    {
        map.insert(i * 4, i);
        i += 1;
    }
    map
}

/// The sink of the lookups.
pub fn get_sink(ops: u32) -> (sink: i64)
    ensures
        sink == hit_sum(ops as nat),
{
    let map = live_map();
    let mut sink: i64 = 0;
    let mut state: i64 = SEED;
    let mut i: u32 = 0;
    while i < ops
        invariant
            i <= ops,
            0 <= state < 0x8000_0000,
            state == state_at(i as nat),
            sink == hit_sum(i as nat),
            0 <= sink <= i * LIVE,
            forall|k: i64| #[trigger]
                map@.contains_key(k) <==> entry(k as int) is Some,
            forall|k: i64| #[trigger]
                map@.contains_key(k) ==> map@[k] == entry(k as int)->0,
        decreases ops - i,
    {
        state = step(state);
        let idx: i64 = match map.get(&key(state)) {
            Some(v) => *v,
            None => -1,
        };
        sink += idx + 1;
        i += 1;
    }
    sink
}

/// The stream starts from its seed, and each state is the one before it times a factor plus
/// an increment, cut down to thirty-one bits.
pub proof fn stream_is_a_linear_congruence(n: nat)
    ensures
        state_at(0) == 12345,
        state_at(n + 1) == (1103515245 * state_at(n) + 12345) % (pow2(31) as int),
        0 <= state_at(n) < pow2(31),
    decreases n,
{
    lemma2_to64();
    if n > 0 {
        stream_is_a_linear_congruence((n - 1) as nat);
    }
}

/// A key is made of the twelve bits above the low sixteen of a state.
pub proof fn key_is_twelve_bits_of_the_state(state: int)
    requires
        0 <= state,
    ensures
        0 <= key_of(state) < 4096,
        key_of(state) == (state / (pow2(16) as int)) % (pow2(12) as int),
{
    lemma2_to64();
}

/// The map holds every fourth key below 4096, with its place among them as the value.
pub proof fn every_fourth_key_is_live(key: int)
    ensures
        0 <= key < 1024 ==> entry(4 * key) == Some(key),
        key % 4 != 0 || key < 0 || key >= 4096 ==> entry(key) is None,
{
}

/// Each key adds itself to the sink of the bare loop, and to the sink of the lookups one
/// more than its place where it is live and nothing where it is not.
pub proof fn sinks_grow_key_by_key(n: nat)
    ensures
        ({
            let key = (state_at(n + 1) / 65536) % 4096;
            &&& key_sum(0) == 0
            &&& hit_sum(0) == 0
            &&& key_sum(n + 1) == key_sum(n) + key
            &&& key % 4 == 0 ==> hit_sum(n + 1) == hit_sum(n) + key / 4 + 1
            &&& key % 4 != 0 ==> hit_sum(n + 1) == hit_sum(n)
        }),
{
}

} // verus!
