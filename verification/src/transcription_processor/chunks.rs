//! Splitting a long recording into chunks, at pauses where possible.

use vstd::prelude::*;

verus! {

/// The shortest chunk worth transcribing on its own, in seconds.
pub const MIN_CHUNK_SECONDS: usize = 2;

/// The longest chunk that a merge may produce, in seconds.
pub const MERGE_LIMIT_SECONDS: usize = 45;

/// The largest of `pauses` that lies above `lo` and not above `hi`.
pub open spec fn latest_pause(pauses: Seq<usize>, lo: int, hi: int) -> Option<int>
    decreases pauses.len(),
{
    if pauses.len() == 0 {
        None
    } else {
        let before = latest_pause(pauses.drop_last(), lo, hi);
        let p = pauses.last() as int;
        if lo < p <= hi && (before is None || before->0 <= p) {
            Some(p)
        } else {
            before
        }
    }
}

/// Where the chunk that begins at `start` ends: at the latest pause that
/// leaves it longer than `min` and no longer than `max`, or else after `max`.
pub open spec fn chunk_end(start: int, max: int, pauses: Seq<usize>, min: int) -> int {
    match latest_pause(pauses, start + min, start + max) {
        Some(p) => p,
        None => start + max,
    }
}

/// The chunks of the samples `start..total`, before the last is considered
/// for merging.
pub open spec fn split_from(
    start: int,
    total: int,
    max: int,
    pauses: Seq<usize>,
    min: int,
) -> Seq<(int, int)>
    decreases total - start,
    when max > 0 && min >= 0
    via split_from_decreases
{
    if start >= total {
        Seq::empty()
    } else if total - start <= max {
        seq![(start, total)]
    } else {
        let end = chunk_end(start, max, pauses, min);
        seq![(start, end)] + split_from(end, total, max, pauses, min)
    }
}

#[via_fn]
proof fn split_from_decreases(start: int, total: int, max: int, pauses: Seq<usize>, min: int) {
    lemma_chunk_end(start, max, pauses, min);
}

/// `chunks` with its last chunk joined to the one before where it is shorter
/// than `min` and the two together are no longer than `limit`.
pub open spec fn merge_tail(chunks: Seq<(int, int)>, min: int, limit: int) -> Seq<(int, int)> {
    let n = chunks.len() as int;
    if n > 1 && chunks[n - 1].1 - chunks[n - 1].0 < min && chunks[n - 1].1 - chunks[n - 2].0
        <= limit {
        chunks.take(n - 2).push((chunks[n - 2].0, chunks[n - 1].1))
    } else {
        chunks
    }
}

/// The chunk ranges of a recording.
pub open spec fn guided_chunks(
    total: int,
    max: int,
    pauses: Seq<usize>,
    sample_rate: int,
) -> Seq<(int, int)> {
    merge_tail(
        split_from(0, total, max, pauses, sample_rate * MIN_CHUNK_SECONDS),
        sample_rate * MIN_CHUNK_SECONDS,
        sample_rate * MERGE_LIMIT_SECONDS,
    )
}

/// Ranges as pairs of integers.
pub open spec fn ranges(v: Seq<(usize, usize)>) -> Seq<(int, int)> {
    v.map_values(|r: (usize, usize)| (r.0 as int, r.1 as int))
}

/// Whether `chunks` cuts `start..end` into consecutive, non-empty pieces.
pub open spec fn partitions(chunks: Seq<(int, int)>, start: int, end: int) -> bool {
    if start >= end {
        chunks.len() == 0
    } else {
        &&& chunks.len() > 0
        &&& chunks[0].0 == start
        &&& chunks.last().1 == end
        &&& forall|i: int| 0 <= i < chunks.len() ==> #[trigger] chunks[i].0 < chunks[i].1
        &&& forall|i: int| 0 <= i < chunks.len() - 1 ==> #[trigger] chunks[i].1 == chunks[i + 1].0
    }
}

/// The latest pause is one of the pauses in the window, and no pause in the
/// window is later; there is none exactly where the window holds no pause.
pub proof fn law_latest_pause(pauses: Seq<usize>, lo: int, hi: int)
    ensures
        match latest_pause(pauses, lo, hi) {
            Some(p) => {
                &&& lo < p <= hi
                &&& exists|i: int| 0 <= i < pauses.len() && #[trigger] pauses[i] == p
                &&& forall|i: int|
                    0 <= i < pauses.len() && lo < #[trigger] pauses[i] <= hi ==> pauses[i] <= p
            },
            None => forall|i: int|
                0 <= i < pauses.len() ==> !(lo < #[trigger] pauses[i] <= hi),
        },
    decreases pauses.len(),
{
    if pauses.len() > 0 {
        let rest = pauses.drop_last();
        law_latest_pause(rest, lo, hi);
        assert forall|i: int| 0 <= i < rest.len() implies rest[i] == pauses[i] by {}
        match latest_pause(pauses, lo, hi) {
            Some(p) => {
                if p == pauses.last() {
                    assert(pauses[pauses.len() - 1] == p);
                } else {
                    let i = choose|i: int| 0 <= i < rest.len() && #[trigger] rest[i] == p;
                    assert(pauses[i] == p);
                }
            },
            None => {},
        }
    }
}

/// A chunk ends after it begins, within `max`, and past `min` when it ends at
/// a pause.
proof fn lemma_chunk_end(start: int, max: int, pauses: Seq<usize>, min: int)
    requires
        max > 0,
        min >= 0,
    ensures
        start < chunk_end(start, max, pauses, min) <= start + max,
{
    law_latest_pause(pauses, start + min, start + max);
}

/// Splitting cuts the range into consecutive pieces no longer than `max`.
proof fn lemma_split_partitions(start: int, total: int, max: int, pauses: Seq<usize>, min: int)
    requires
        max > 0,
        min >= 0,
    ensures
        partitions(split_from(start, total, max, pauses, min), start, total),
        forall|i: int|
            #![trigger split_from(start, total, max, pauses, min)[i]]
            0 <= i < split_from(start, total, max, pauses, min).len() ==> split_from(
                start,
                total,
                max,
                pauses,
                min,
            )[i].1 - split_from(start, total, max, pauses, min)[i].0 <= max,
    decreases total - start,
{
    let all = split_from(start, total, max, pauses, min);
    if start < total && total - start > max {
        let end = chunk_end(start, max, pauses, min);
        lemma_chunk_end(start, max, pauses, min);
        lemma_split_partitions(end, total, max, pauses, min);
        let rest = split_from(end, total, max, pauses, min);
        assert(all == seq![(start, end)] + rest);
        assert forall|i: int| 0 < i < all.len() implies #[trigger] all[i] == rest[i - 1] by {}
        assert(all.last() == rest.last());
        assert forall|i: int| 0 <= i < all.len() - 1 implies #[trigger] all[i].1 == all[i + 1].0 by {
            if i > 0 {
                assert(rest[i - 1].1 == rest[i].0);
            }
        }
    }
}

/// The chunks of a recording cover it from the first sample to the last
/// without gap or overlap, and none is empty.
pub proof fn law_chunks_partition(total: int, max: int, pauses: Seq<usize>, sample_rate: int)
    requires
        max > 0,
        sample_rate >= 0,
    ensures
        partitions(guided_chunks(total, max, pauses, sample_rate), 0, total),
{
    let min = sample_rate * MIN_CHUNK_SECONDS;
    let whole = split_from(0, total, max, pauses, min);
    lemma_split_partitions(0, total, max, pauses, min);
    let out = guided_chunks(total, max, pauses, sample_rate);
    let n = whole.len() as int;
    if out != whole {
        assert(whole[n - 2].1 == whole[n - 1].0);
        assert forall|i: int| 0 <= i < out.len() implies #[trigger] out[i].0 < out[i].1 by {
            assert(whole[i].0 < whole[i].1);
        }
        assert forall|i: int| 0 <= i < out.len() - 1 implies #[trigger] out[i].1 == out[i + 1].0 by {
            assert(whole[i].1 == whole[i + 1].0);
        }
        assert(whole[0].0 == 0);
        assert(out[0].0 == 0);
    }
}

/// No chunk is longer than `max`, but for a last chunk that took in a short
/// tail, which is no longer than the merge limit.
pub proof fn law_chunks_bounded(
    total: int,
    max: int,
    pauses: Seq<usize>,
    sample_rate: int,
    i: int,
)
    requires
        max > 0,
        sample_rate >= 0,
        0 <= i < guided_chunks(total, max, pauses, sample_rate).len(),
    ensures
        ({
            let c = guided_chunks(total, max, pauses, sample_rate);
            c[i].1 - c[i].0 <= max || (i == c.len() - 1 && c[i].1 - c[i].0 <= sample_rate
                * MERGE_LIMIT_SECONDS)
        }),
{
    let min = sample_rate * MIN_CHUNK_SECONDS;
    let whole = split_from(0, total, max, pauses, min);
    lemma_split_partitions(0, total, max, pauses, min);
    assert(i < whole.len());
    assert(whole[i].1 - whole[i].0 <= max);
}

/// Whether a chunk from `start` to `end` is cut where it should be: where any
/// pause leaves it longer than `min` and no longer than `max`, at the latest such
/// pause, and only where none does after `max`.
pub open spec fn well_cut(start: int, end: int, max: int, pauses: Seq<usize>, min: int) -> bool {
    let in_window = |p: int| start + min < p <= start + max;
    if exists|i: int| 0 <= i < pauses.len() && in_window(#[trigger] pauses[i] as int) {
        &&& in_window(end)
        &&& exists|i: int| 0 <= i < pauses.len() && #[trigger] pauses[i] == end
        &&& forall|i: int|
            0 <= i < pauses.len() && in_window(#[trigger] pauses[i] as int) ==> pauses[i] <= end
    } else {
        end == start + max
    }
}

proof fn lemma_split_well_cut(start: int, total: int, max: int, pauses: Seq<usize>, min: int, k: int)
    requires
        max > 0,
        min >= 0,
        0 <= k < split_from(start, total, max, pauses, min).len() - 1,
    ensures
        ({
            let c = split_from(start, total, max, pauses, min)[k];
            &&& well_cut(c.0, c.1, max, pauses, min)
            &&& total - c.0 > max
        }),
    decreases k,
{
    let end = chunk_end(start, max, pauses, min);
    let all = split_from(start, total, max, pauses, min);
    let rest = split_from(end, total, max, pauses, min);
    assert(all == seq![(start, end)] + rest);
    if k == 0 {
        law_latest_pause(pauses, start + min, start + max);
    } else {
        assert(all[k] == rest[k - 1]);
        lemma_split_well_cut(end, total, max, pauses, min, k - 1);
    }
}

/// Every chunk but the last is cut at a natural pause where it can be: where some
/// pause lies more than two seconds and no more than `max` after its start, it
/// ends at the latest of these; only where there is none does it end after
/// `max`. And a recording is cut only where the rest of it does not fit in a
/// chunk.
pub proof fn law_chunks_end_at_the_latest_pause(
    total: int,
    max: int,
    pauses: Seq<usize>,
    sample_rate: int,
    k: int,
)
    requires
        max > 0,
        sample_rate >= 0,
        0 <= k < guided_chunks(total, max, pauses, sample_rate).len() - 1,
    ensures
        ({
            let (start, end) = guided_chunks(total, max, pauses, sample_rate)[k];
            &&& well_cut(start, end, max, pauses, sample_rate * 2)
            &&& total - start > max
        }),
{
    let min = sample_rate * 2;
    let whole = split_from(0, total, max, pauses, min);
    assert(guided_chunks(total, max, pauses, sample_rate)[k] == whole[k]);
    lemma_split_well_cut(0, total, max, pauses, min, k);
}

/// The last chunk is the rest of the recording, where that fits in a chunk; or
/// it took in a tail of less than two seconds after such a cut, and is no longer
/// than 45 seconds. A tail of less than two seconds stands alone only where it
/// is the whole recording, or would make the chunk before it longer than that.
pub proof fn law_last_chunk_takes_in_a_short_tail(
    total: int,
    max: int,
    pauses: Seq<usize>,
    sample_rate: int,
)
    requires
        total > 0,
        max > 0,
        sample_rate >= 0,
    ensures
        ({
            let c = guided_chunks(total, max, pauses, sample_rate);
            let n = c.len() as int;
            let start = c[n - 1].0;
            &&& n > 0
            &&& total - start > max ==> total - start <= sample_rate * 45 && exists|q: int|
                #![trigger well_cut(start, q, max, pauses, sample_rate * 2)]
                start < q < total && total - q < sample_rate * 2 && well_cut(
                    start,
                    q,
                    max,
                    pauses,
                    sample_rate * 2,
                )
            &&& n > 1 && total - start <= max && total - start < sample_rate * 2 ==> total
                - c[n - 2].0 > sample_rate * 45
        }),
{
    let min = sample_rate * 2;
    let whole = split_from(0, total, max, pauses, min);
    let c = guided_chunks(total, max, pauses, sample_rate);
    let w = whole.len() as int;
    lemma_split_partitions(0, total, max, pauses, min);
    assert(whole[w - 1].1 == total);
    assert(whole[w - 1].1 - whole[w - 1].0 <= max);
    if c != whole {
        lemma_split_well_cut(0, total, max, pauses, min, w - 2);
        assert(whole[w - 2].1 == whole[w - 1].0);
        assert(whole[w - 2].0 < whole[w - 2].1);
        assert(whole[w - 1].0 < whole[w - 1].1);
        assert(c[c.len() - 1].0 == whole[w - 2].0);
        assert(well_cut(whole[w - 2].0, whole[w - 2].1, max, pauses, min));
    }
}

/// A recording that fits in one chunk is one chunk.
pub proof fn law_short_recording_is_one_chunk(
    total: int,
    max: int,
    pauses: Seq<usize>,
    sample_rate: int,
)
    requires
        0 < total <= max,
        sample_rate >= 0,
    ensures
        guided_chunks(total, max, pauses, sample_rate) == seq![(0int, total)],
{
}

/// The latest pause above `lo` and not above `hi`, as a running maximum.
fn find_latest_pause(pauses: &[usize], start: usize, min: usize, max_end: usize) -> (r: Option<
    usize,
>)
    requires
        start <= max_end,
    ensures
        match r {
            Some(p) => latest_pause(pauses@, start + min, max_end as int) == Some(p as int),
            None => latest_pause(pauses@, start + min, max_end as int) is None,
        },
{
    let mut best: Option<usize> = None;
    let mut i: usize = 0;
    while i < pauses.len()
        invariant
            start <= max_end,
            i <= pauses@.len(),
            match best {
                Some(p) => latest_pause(pauses@.take(i as int), start + min, max_end as int)
                    == Some(p as int),
                None => latest_pause(pauses@.take(i as int), start + min, max_end as int) is None,
            },
        decreases pauses@.len() - i,
    {
        let p = pauses[i];
        assert(pauses@.take(i + 1).drop_last() == pauses@.take(i as int));
        assert(pauses@.take(i + 1).last() == p);
        if p > start && p - start > min && p <= max_end {
            best = match best {
                Some(b) => if b <= p {
                    Some(p)
                } else {
                    Some(b)
                },
                None => Some(p),
            };
        }
        i += 1;
    }
    assert(pauses@.take(i as int) == pauses@);
    best
}

/// Chunk ranges for a recording of `total_len` samples: each as long as
/// `max_chunk_samples` allows, ended at the latest pause that leaves it longer
/// than two seconds where there is one; a last chunk under two seconds is
/// merged into the one before if the result stays within 45 seconds.
pub fn build_vad_guided_chunks(
    total_len: usize,
    max_chunk_samples: usize,
    pause_points: &[usize],
    sample_rate: usize,
) -> (r: Vec<(usize, usize)>)
    requires
        max_chunk_samples > 0,
    ensures
        ranges(r@) == guided_chunks(
            total_len as int,
            max_chunk_samples as int,
            pause_points@,
            sample_rate as int,
        ),
{
    let ghost min = sample_rate * MIN_CHUNK_SECONDS;
    let ghost max = max_chunk_samples as int;
    let ghost total = total_len as int;
    // A product beyond the machine's range exceeds every length.
    let min_chunk: Option<usize> = sample_rate.checked_mul(MIN_CHUNK_SECONDS);
    let merge_limit: Option<usize> = sample_rate.checked_mul(MERGE_LIMIT_SECONDS);

    let mut chunk_ranges: Vec<(usize, usize)> = Vec::new();
    let mut start_idx: usize = 0;
    assert(ranges(chunk_ranges@) + split_from(0, total, max, pause_points@, min) == split_from(
        0,
        total,
        max,
        pause_points@,
        min,
    ));
    while start_idx < total_len
        invariant
            min == sample_rate * MIN_CHUNK_SECONDS,
            max == max_chunk_samples,
            max > 0,
            total == total_len,
            start_idx <= total_len,
            match min_chunk {
                Some(m) => m == min,
                None => min > usize::MAX,
            },
            ranges(chunk_ranges@) + split_from(start_idx as int, total, max, pause_points@, min)
                == split_from(0, total, max, pause_points@, min),
        decreases total_len - start_idx,
    {
        let remaining: usize = total_len - start_idx;
        let ghost before = ranges(chunk_ranges@);
        proof {
            lemma_chunk_end(start_idx as int, max, pause_points@, min);
            law_latest_pause(pause_points@, start_idx + min, start_idx + max);
        }
        let end_idx: usize = if remaining <= max_chunk_samples {
            total_len
        } else {
            let max_end: usize = start_idx + max_chunk_samples;
            let pause = match min_chunk {
                Some(m) => find_latest_pause(pause_points, start_idx, m, max_end),
                None => None,
            };
            match pause {
                Some(p) => p,
                None => max_end,
            }
        };
        chunk_ranges.push((start_idx, end_idx));
        assert(ranges(chunk_ranges@) == before.push((start_idx as int, end_idx as int)));
        let ghost rest = split_from(end_idx as int, total, max, pause_points@, min);
        assert(split_from(start_idx as int, total, max, pause_points@, min) == seq![
            (start_idx as int, end_idx as int),
        ] + rest);
        assert(before.push((start_idx as int, end_idx as int)) + rest == before + (seq![
            (start_idx as int, end_idx as int),
        ] + rest));
        start_idx = end_idx;
    }
    let ghost whole = split_from(0, total, max, pause_points@, min);
    assert(ranges(chunk_ranges@) == whole);
    proof {
        lemma_split_partitions(0, total, max, pause_points@, min);
    }
    let n = chunk_ranges.len();
    if n > 1 {
        let (last_start, last_end) = chunk_ranges[n - 1];
        let (prev_start, prev_end) = chunk_ranges[n - 2];
        assert(whole[n - 1] == (last_start as int, last_end as int));
        assert(whole[n - 2] == (prev_start as int, prev_end as int));
        let short = match min_chunk {
            Some(m) => last_end - last_start < m,
            None => true,
        };
        let fits = match merge_limit {
            Some(m) => last_end - prev_start <= m,
            None => true,
        };
        if short && fits {
            chunk_ranges.pop();
            chunk_ranges.pop();
            chunk_ranges.push((prev_start, last_end));
            assert(ranges(chunk_ranges@) == whole.take(n - 2).push(
                (prev_start as int, last_end as int),
            ));
        }
    }
    chunk_ranges
}

} // verus!
