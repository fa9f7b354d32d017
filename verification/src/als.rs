//! Ambient light: from a raw reading to the lux label that the predictor
//! works with.

pub mod cmd;
pub mod iio;
pub mod none;
pub mod time;
pub mod webcam;

use itertools::Itertools;
use std::collections::HashMap;
use vstd::prelude::*;
use vstd::std_specs::iter::IteratorSpec;

verus! {

/// Whether `bucket` is where `raw` falls among `thresholds`: at the last
/// threshold that `raw` reaches, and at the first of all where it reaches
/// none.
pub open spec fn spec_is_bucket(raw: u64, thresholds: Seq<u64>, bucket: int) -> bool {
    if exists|index: int| 0 <= index < thresholds.len() && thresholds[index] <= raw {
        &&& 0 <= bucket < thresholds.len()
        &&& thresholds[bucket] <= raw
        &&& forall|later: int| bucket < later < thresholds.len() ==> thresholds[later] > raw
    } else {
        bucket == 0
    }
}

/// The bucket into which `raw` falls among `thresholds`. With ascending
/// thresholds that is the greatest one that `raw` reaches; below all of
/// them, and without any, it is the first bucket.
pub fn smoothen(raw: u64, thresholds: &[u64]) -> (bucket: usize)
    ensures
        spec_is_bucket(raw, thresholds@, bucket as int),
{
    let mut index: usize = thresholds.len();
    while index > 0
        invariant
            index <= thresholds@.len(),
            forall|later: int| index <= later < thresholds@.len() ==> thresholds@[later] > raw,
        decreases index,
    {
        if thresholds[index - 1] <= raw {
            return index - 1;
        }
        index -= 1;
    }
    0
}

/// Whether `key` is the threshold under which `raw` falls: the greatest of
/// `thresholds` that `raw` reaches, and the least of all where it reaches
/// none.
pub open spec fn spec_is_profile_key(raw: u64, thresholds: Set<u64>, key: u64) -> bool {
    &&& thresholds.contains(key)
    &&& if exists|other: u64| thresholds.contains(other) && other <= raw {
        key <= raw && forall|other: u64|
            thresholds.contains(other) && other <= raw ==> other <= key
    } else {
        forall|other: u64| thresholds.contains(other) ==> key <= other
    }
}

/// Whether `profile` is the label under which `raw` falls.
pub open spec fn spec_is_profile(raw: u64, thresholds: Map<u64, String>, profile: Seq<char>) -> bool {
    exists|key: u64| #[trigger]
        spec_is_profile_key(raw, thresholds.dom(), key) && thresholds[key]@ == profile
}

/// At most one threshold is the one under which `raw` falls.
pub proof fn lemma_profile_key_unique(raw: u64, thresholds: Set<u64>, first: u64, second: u64)
    requires
        spec_is_profile_key(raw, thresholds, first),
        spec_is_profile_key(raw, thresholds, second),
    ensures
        first == second,
{
}

/// `Itertools::sorted` on numbers: the same numbers, each as often as
/// before, in ascending order.
#[verifier::external_body]
fn sorted(values: Vec<u64>) -> (sorted: Vec<u64>)
    ensures
        sorted@.to_multiset() == values@.to_multiset(),
        forall|low: int, high: int|
            0 <= low < high < sorted@.len() ==> sorted@[low] <= sorted@[high],
{
    values.into_iter().sorted().collect()
}

/// The label under which `raw` falls: that of the greatest threshold that
/// `raw` reaches, and that of the least threshold where it reaches none.
pub fn find_profile(raw: u64, thresholds: &HashMap<u64, String>) -> (profile: String)
    requires
        thresholds@.len() > 0,
    ensures
        spec_is_profile(raw, thresholds@, profile@),
{
    let mut keys: Vec<u64> = Vec::new();
    for key in iter: thresholds.keys()
        invariant
            keys@.len() == iter.index(),
            forall|index: int| 0 <= index < keys@.len() ==> keys@[index] == *iter.seq()[index],
    {
        keys.push(*key);
    }
    proof {
        let all = thresholds.keys().remaining();
        assert(keys@ =~= all.unref());
        assert(all.unref().to_set() == thresholds@.dom());
    }
    let ghost collected = keys@;
    let ascending = sorted(keys);
    proof {
        assert forall|key: u64| #![trigger thresholds@.dom().contains(key)]
            ascending@.contains(key) <==> thresholds@.dom().contains(key) by {
            vstd::seq_lib::to_multiset_contains(ascending@, key);
            vstd::seq_lib::to_multiset_contains(collected, key);
        }
        vstd::seq_lib::to_multiset_len(ascending@);
        vstd::seq_lib::to_multiset_len(collected);
    }
    let bucket = smoothen(raw, ascending.as_slice());
    let key = ascending[bucket];
    proof {
        assert(ascending@.contains(key));
        assert(spec_is_profile_key(raw, thresholds@.dom(), key)) by {
            if exists|index: int| 0 <= index < ascending@.len() && ascending@[index] <= raw {
                assert forall|other: u64|
                    thresholds@.dom().contains(other) && other <= raw implies other <= key by {
                    assert(ascending@.contains(other));
                    let at = choose|at: int| 0 <= at < ascending@.len() && ascending@[at] == other;
                    if at > bucket {
                        assert(ascending@[at] > raw);
                    }
                }
            } else {
                assert forall|other: u64| thresholds@.dom().contains(other) implies key <= other by {
                    assert(ascending@.contains(other));
                    let at = choose|at: int| 0 <= at < ascending@.len() && ascending@[at] == other;
                    assert(ascending@[0] <= ascending@[at] || at == 0);
                }
                if exists|other: u64| thresholds@.dom().contains(other) && other <= raw {
                    let other = choose|other: u64|
                        thresholds@.dom().contains(other) && other <= raw;
                    assert(ascending@.contains(other));
                    let at = choose|at: int| 0 <= at < ascending@.len() && ascending@[at] == other;
                    assert(false);
                }
            }
        }
    }
    match thresholds.get(&key) {
        Some(profile) => profile.clone(),
        None => String::new(),
    }
}

} // verus!
