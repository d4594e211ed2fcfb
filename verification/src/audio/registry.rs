//! The analysis handles of a session, by microphone index.

use crate::error::AppError;
use std::collections::HashMap;
use vstd::prelude::*;

verus! {

broadcast use vstd::std_specs::hash::group_hash_axioms;

/// The registry after the first `upto` of `handles` were registered, each
/// under its index, one after the other: a later handle takes the place of
/// an earlier one of the same index.
pub open spec fn with_handles<H>(before: Map<usize, H>, handles: Seq<(usize, H)>, upto: int) -> Map<
    usize,
    H,
>
    decreases upto,
{
    if upto <= 0 {
        before
    } else {
        with_handles(before, handles, upto - 1).insert(handles[upto - 1].0, handles[upto - 1].1)
    }
}

/// Registering handles adds their indices to the indices that are
/// registered, and takes none away.
pub proof fn lemma_registered_indices<H>(before: Map<usize, H>, handles: Seq<(usize, H)>, upto: int)
    requires
        0 <= upto <= handles.len(),
    ensures
        forall|index: usize|
            #![trigger with_handles(before, handles, upto).contains_key(index)]
            with_handles(before, handles, upto).contains_key(index) <==> (before.contains_key(
                index,
            ) || exists|k: int| 0 <= k < upto && (#[trigger] handles[k]).0 == index),
    decreases upto,
{
    if upto > 0 {
        lemma_registered_indices(before, handles, upto - 1);
        let earlier = with_handles(before, handles, upto - 1);
        assert forall|index: usize|
            #![trigger with_handles(before, handles, upto).contains_key(index)]
            with_handles(before, handles, upto).contains_key(index) <==> (before.contains_key(
                index,
            ) || exists|k: int| 0 <= k < upto && (#[trigger] handles[k]).0 == index) by {
            if handles[upto - 1].0 == index {
            } else if earlier.contains_key(index) && !before.contains_key(index) {
                let k = choose|k: int| 0 <= k < upto - 1 && (#[trigger] handles[k]).0 == index;
                assert(handles[k].0 == index);
            } else if exists|k: int| 0 <= k < upto && (#[trigger] handles[k]).0 == index {
                let k = choose|k: int| 0 <= k < upto && (#[trigger] handles[k]).0 == index;
                assert(k < upto - 1);
                assert(handles[k].0 == index);
            }
        }
    }
}

/// Registers analysis handles, each under its microphone's index, in
/// order.
pub fn register<H>(registry: &mut HashMap<usize, H>, handles: Vec<(usize, H)>)
    ensures
        final(registry)@ == with_handles(old(registry)@, handles@, handles.len() as int),
{
    let ghost all = handles@;
    let mut handles = handles;
    let mut rest: Vec<(usize, H)> = Vec::new();
    while handles.len() > 0
        invariant
            all == handles@ + rest@.reverse(),
            registry@ == old(registry)@,
        decreases handles.len(),
    {
        let ghost before = handles@;
        let ghost stacked = rest@;
        match handles.pop() {
            Some(pair) => {
                rest.push(pair);
                assert(rest@.reverse() =~= seq![pair] + stacked.reverse());
                assert(before =~= handles@ + seq![pair]);
                assert(all =~= handles@ + rest@.reverse());
            },
            None => {},
        }
    }
    assert(rest@.reverse() =~= all);
    let ghost count = rest.len() as int;
    while rest.len() > 0
        invariant
            count == all.len(),
            rest.len() <= count,
            forall|k: int| 0 <= k < rest.len() ==> rest[k] == all[count - 1 - k],
            registry@ == with_handles(old(registry)@, all, count - rest.len()),
        decreases rest.len(),
    {
        match rest.pop() {
            Some((index, handle)) => {
                registry.insert(index, handle);
            },
            None => {},
        }
    }
}

/// The handle that is registered under `index`.
///
/// Fails if none is. A negative index is taken as the unsigned number of
/// the same bits.
pub fn get_handle<H>(registry: &HashMap<usize, H>, index: i32) -> (found: Result<&H, AppError>)
    ensures
        match found {
            Ok(handle) => registry@.contains_key(index as usize) && *handle == registry@[index
                as usize],
            Err(error) => {
                &&& !registry@.contains_key(index as usize)
                &&& error is ProcessorError
                &&& error.message()@ == "processor not found"@
            },
        },
{
    let key = #[verifier::truncate] (index as usize);
    match registry.get(&key) {
        Some(handle) => Ok(handle),
        None => Err(AppError::ProcessorError(String::from_str("processor not found"))),
    }
}

} // verus!
