//! Parsing many song files: the events sent on the way, and how the work is
//! split into batches.

use crate::chars::chars_of;
use crate::ultrastar::local::LocalSong;
use vstd::prelude::*;

verus! {

/// Sent after each song file that was handled.
#[derive(Debug, Clone)]
pub struct ProgressEvent {
    /// Path of the song file.
    pub song: String,
}

/// Sent once, before the first song file is parsed.
#[derive(Debug, Clone)]
pub struct StartParsingEvent {
    /// How many song files were found.
    pub total_songs: i32,
}

impl ProgressEvent {
    /// The event that reports the song file at `song` as handled.
    pub fn new(song: &str) -> (event: Self)
        ensures
            event.song@ == song@,
    {
        ProgressEvent { song: String::from_str(song) }
    }
}

impl StartParsingEvent {
    /// The event that announces `count` song files. A count that a 32-bit
    /// integer cannot hold is cut down to its low bits.
    pub fn new(count: usize) -> (event: Self)
        ensures
            event.total_songs == count as i32,
            count <= i32::MAX ==> event.total_songs == count,
    {
        StartParsingEvent { total_songs: #[verifier::truncate] (count as i32) }
    }
}

/// The number of songs in each batch but the last, when `count` songs are
/// split among `workers` workers: `count / workers`, rounded up.
pub open spec fn batch_size_of(count: nat, workers: nat) -> nat
    recommends
        workers > 0,
{
    ((count + workers - 1) / (workers as int)) as nat
}

/// The number of songs in each batch but the last, when `count` songs are
/// split among `workers` workers. With that size there are at most
/// `workers` batches, and together they hold every song.
pub fn batch_size(count: usize, workers: usize) -> (size: usize)
    requires
        workers > 0,
    ensures
        size == batch_size_of(count as nat, workers as nat),
        size * workers >= count,
        count > 0 ==> (size - 1) * workers < count,
{
    let size = if count == 0 {
        0
    } else {
        (count - 1) / workers + 1
    };
    proof {
        let c = count as int;
        let w = workers as int;
        if count > 0 {
            assert((c + w - 1) / w == (c - 1) / w + 1) by (nonlinear_arith)
                requires
                    w > 0,
                    c > 0,
            ;
            assert(((c - 1) / w + 1) * w >= c && ((c - 1) / w) * w < c) by (nonlinear_arith)
                requires
                    w > 0,
                    c > 0,
            ;
        } else {
            assert((w - 1) / w == 0) by (nonlinear_arith)
                requires
                    w > 0,
            ;
            assert(0 * w == 0) by (nonlinear_arith);
        }
    }
    size
}

/// The songs that were found under one of the paths that were asked for.
#[derive(Debug, Clone)]
pub struct SongGroup<F, G> {
    /// The path that was asked for.
    pub path: String,
    /// The songs under it that could be parsed.
    pub songs: Vec<LocalSong<F, G>>,
}

/// `path` begins with `start`.
pub open spec fn begins_with(path: Seq<char>, start: Seq<char>) -> bool {
    start.len() <= path.len() && path.take(start.len() as int) == start
}

/// `chosen` are the positions, among the first `upto` of `paths`, of the
/// paths that begin with `start`, in increasing order.
pub open spec fn are_paths_under(
    chosen: Seq<usize>,
    paths: Seq<String>,
    start: Seq<char>,
    upto: int,
) -> bool {
    &&& forall|k: int|
        0 <= k < chosen.len() ==> (#[trigger] chosen[k]) < upto && begins_with(
            paths[chosen[k] as int]@,
            start,
        )
    &&& forall|j: int, k: int| 0 <= j < k < chosen.len() ==> chosen[j] < chosen[k]
    &&& forall|i: int|
        0 <= i < upto && begins_with((#[trigger] paths[i])@, start) ==> chosen.contains(i as usize)
}

/// Where batch `k` ends when `count` songs are split into runs of `size`.
pub open spec fn batch_end(k: int, size: int, count: int) -> int {
    if (k + 1) * size < count {
        (k + 1) * size
    } else {
        count
    }
}

/// `ranges` split the positions `0` to `count - 1` into runs of `size`, in
/// order and without gaps; only the last run may be shorter.
pub open spec fn are_batches(ranges: Seq<(usize, usize)>, count: int, size: int) -> bool {
    &&& forall|k: int|
        0 <= k < ranges.len() ==> (#[trigger] ranges[k]).0 == k * size && ranges[k].1 == batch_end(
            k,
            size,
            count,
        ) && ranges[k].0 < ranges[k].1
    &&& ranges.len() * size >= count
    &&& count > 0 ==> (ranges.len() - 1) * size < count
    &&& count <= 0 ==> ranges.len() == 0
}

/// Whether `path` begins with `start`.
pub fn starts_with(path: &str, start: &str) -> (yes: bool)
    ensures
        yes == begins_with(path@, start@),
{
    let whole = chars_of(path);
    let head = chars_of(start);
    if head.len() > whole.len() {
        return false;
    }
    let mut i: usize = 0;
    while i < head.len()
        invariant
            i <= head.len(),
            head.len() <= whole.len(),
            whole@ == path@,
            head@ == start@,
            forall|k: int| 0 <= k < i ==> whole[k] == head[k],
        decreases head.len() - i,
    {
        if whole[i] != head[i] {
            assert(whole@.take(head.len() as int)[i as int] == whole@[i as int]);
            return false;
        }
        i += 1;
    }
    assert(whole@.take(head.len() as int) =~= head@);
    true
}

/// The positions of the song files that lie under `start_path`: those whose
/// path begins with it.
pub fn songs_under(txt_paths: &Vec<String>, start_path: &str) -> (chosen: Vec<usize>)
    ensures
        are_paths_under(chosen@, txt_paths@, start_path@, txt_paths.len() as int),
{
    let mut chosen: Vec<usize> = Vec::new();
    let mut i: usize = 0;
    while i < txt_paths.len()
        invariant
            i <= txt_paths.len(),
            are_paths_under(chosen@, txt_paths@, start_path@, i as int),
        decreases txt_paths.len() - i,
    {
        if starts_with(txt_paths[i].as_str(), start_path) {
            let ghost before = chosen@;
            chosen.push(i);
            proof {
                assert(chosen@[before.len() as int] == i);
                assert forall|m: int|
                    0 <= m < i + 1 && begins_with(
                        (#[trigger] txt_paths@[m])@,
                        start_path@,
                    ) implies chosen@.contains(m as usize) by {
                    if m < i {
                        let k = choose|k: int| 0 <= k < before.len() && before[k] == m as usize;
                        assert(chosen@[k] == m as usize);
                    }
                }
            }
        }
        i += 1;
    }
    chosen
}

/// Splits `count` songs into batches for `workers` workers: runs of
/// positions of the batch size, of which only the last may be shorter.
/// There are at most `workers` batches, and none is empty.
pub fn batches(count: usize, workers: usize) -> (ranges: Vec<(usize, usize)>)
    requires
        workers > 0,
    ensures
        are_batches(ranges@, count as int, batch_size_of(count as nat, workers as nat) as int),
        ranges.len() <= workers,
{
    let size = batch_size(count, workers);
    let mut ranges: Vec<(usize, usize)> = Vec::new();
    let mut from: usize = 0;
    proof {
        assert(0 * (size as int) == 0) by (nonlinear_arith);
        if count > 0 {
            assert(size >= 1) by (nonlinear_arith)
                requires
                    size * workers >= count,
                    count > 0,
            ;
        }
    }
    while from < count
        invariant
            from <= count,
            count > 0 ==> size >= 1,
            from < count ==> from == ranges.len() * size,
            ranges.len() * size >= from,
            forall|k: int|
                0 <= k < ranges.len() ==> (#[trigger] ranges[k]).0 == k * size && ranges[k].1
                    == batch_end(k, size as int, count as int) && ranges[k].0 < ranges[k].1,
            ranges.len() > 0 ==> (ranges.len() - 1) * size < count,
        decreases count - from,
    {
        let to = if count - from > size {
            from + size
        } else {
            count
        };
        let ghost n = ranges.len() as int;
        proof {
            assert((n + 1) * size == n * size + size) by (nonlinear_arith);
        }
        ranges.push((from, to));
        from = to;
    }
    proof {
        let n = ranges.len() as int;
        let s = size as int;
        let w = workers as int;
        let c = count as int;
        if count > 0 {
            assert(n >= 1);
            assert(n <= w) by (nonlinear_arith)
                requires
                    (n - 1) * s < c,
                    c <= s * w,
                    s >= 1,
                    n >= 1,
                    w >= 1,
            ;
        }
    }
    ranges
}

} // verus!
