//! The files of a Nemotron model, and how its encoder goes through the frames
//! of a recording.

use vstd::prelude::*;

use crate::backend::files::{has_file, is_present};
use crate::text::strings::{concat, lines, split_lines, views};

verus! {

/// New frames in a chunk.
pub const CHUNK_NEW: usize = 56;

/// Frames carried over from before a chunk.
pub const PRE_ENCODE_CACHE: usize = 9;

/// Frames of a chunk as it goes into the encoder.
pub const CHUNK_IN: usize = 65;

/// A chunk of a recording's frames: those from `start` on, of which the first
/// are carried over and `new_frames` are new.
#[derive(Debug, Clone, Copy, PartialEq, Eq, Structural)]
pub struct EncoderChunk {
    pub start: usize,
    pub new_frames: usize,
}

/// The `c`-th chunk of `total` frames.
pub open spec fn chunk_at(c: int, total: int) -> (int, int) {
    let left = total - c * CHUNK_NEW;
    (c * CHUNK_NEW, if left < CHUNK_NEW { left } else { CHUNK_NEW as int })
}

/// How many chunks of `total` frames are encoded: the full ones, and with
/// `flush` the rest too.
pub open spec fn chunk_target(total: int, flush: bool) -> int {
    if flush {
        (total + CHUNK_NEW - 1) / CHUNK_NEW as int
    } else {
        total / CHUNK_NEW as int
    }
}

/// The chunks from the `done`-th on that are encoded of `total` frames.
pub open spec fn pending_chunks(done: int, total: int, flush: bool) -> Seq<(int, int)> {
    let target = chunk_target(total, flush);
    Seq::new(
        if target > done { (target - done) as nat } else { 0 },
        |i: int| chunk_at(done + i, total),
    )
}

/// Chunks as pairs of integers.
pub open spec fn chunk_views(v: Seq<EncoderChunk>) -> Seq<(int, int)> {
    v.map_values(|c: EncoderChunk| (c.start as int, c.new_frames as int))
}

/// The chunks to be encoded, after `done` of them, of `total` frames.
pub fn plan_chunks(done: usize, total: usize, flush: bool) -> (r: Vec<EncoderChunk>)
    requires
        total + CHUNK_NEW <= usize::MAX,
    ensures
        chunk_views(r@) == pending_chunks(done as int, total as int, flush),
{
    let target: usize = if flush {
        (total + CHUNK_NEW - 1) / CHUNK_NEW
    } else {
        total / CHUNK_NEW
    };
    let mut r: Vec<EncoderChunk> = Vec::new();
    let mut c: usize = done;
    while c < target
        invariant
            total + CHUNK_NEW <= usize::MAX,
            target == chunk_target(total as int, flush),
            done <= c,
            c <= target || c == done,
            r@.len() == c - done,
            forall|i: int|
                0 <= i < r@.len() ==> ((#[trigger] r@[i]).start as int, r@[i].new_frames as int)
                    == chunk_at(done + i, total as int),
        decreases target - c,
    {
        assert(c * CHUNK_NEW < total);
        let start: usize = c * CHUNK_NEW;
        let left: usize = total - start;
        r.push(
            EncoderChunk { start, new_frames: if left < CHUNK_NEW { left } else { CHUNK_NEW } },
        );
        c += 1;
    }
    assert(chunk_views(r@) =~= pending_chunks(done as int, total as int, flush));
    r
}

/// Encoding a whole recording takes each of its frames once, in order: chunk
/// by chunk, every chunk but the last is full and none is empty.
pub proof fn law_chunks_cover_the_frames(total: int, c: int)
    requires
        total >= 0,
        0 <= c < chunk_target(total, true),
    ensures
        ({
            let (start, new) = chunk_at(c, total);
            &&& start == c * CHUNK_NEW
            &&& 0 < new <= CHUNK_NEW
            &&& start + new <= total
            &&& (c + 1 < chunk_target(total, true) ==> new == CHUNK_NEW)
            &&& (c + 1 == chunk_target(total, true) ==> start + new == total)
        }),
{
}

/// Chunks that were encoded while a recording went on are those that the whole
/// recording is encoded in.
pub proof fn law_streaming_encodes_the_same_chunks(early: int, total: int, c: int)
    requires
        0 <= early <= total,
        0 <= c < chunk_target(early, false),
    ensures
        chunk_at(c, early) == chunk_at(c, total),
        c < chunk_target(total, true),
{
}

/// The chunks encoded while a recording goes on, after `done` of them: at each
/// push those that are full among the frames there are by then, and at the
/// end the rest of all `total` frames.
pub open spec fn streamed_chunks(done: int, pushes: Seq<int>, total: int) -> Seq<(int, int)>
    decreases pushes.len(),
{
    if pushes.len() == 0 {
        pending_chunks(done, total, true)
    } else {
        let here = pending_chunks(done, pushes[0], false);
        here + streamed_chunks(done + here.len(), pushes.skip(1), total)
    }
}

/// However a recording is pushed, streaming encodes the chunks that encoding
/// it whole does, each once and in the same order.
pub proof fn law_streaming_encodes_what_offline_does(pushes: Seq<int>, total: int)
    requires
        total >= 0,
        forall|i: int| 0 <= i < pushes.len() ==> 0 <= #[trigger] pushes[i] <= total,
    ensures
        streamed_chunks(0, pushes, total) == pending_chunks(0, total, true),
{
    lemma_streamed_from(0, pushes, total);
}

proof fn lemma_streamed_from(done: int, pushes: Seq<int>, total: int)
    requires
        0 <= done <= chunk_target(total, true),
        forall|i: int| 0 <= i < pushes.len() ==> 0 <= #[trigger] pushes[i] <= total,
    ensures
        streamed_chunks(done, pushes, total) == pending_chunks(done, total, true),
    decreases pushes.len(),
{
    if pushes.len() > 0 {
        let early = pushes[0];
        let here = pending_chunks(done, early, false);
        let next = done + here.len();
        assert(next <= chunk_target(total, true)) by {
            if here.len() > 0 {
                law_streaming_encodes_the_same_chunks(early, total, next - 1);
            }
        }
        lemma_streamed_from(next, pushes.skip(1), total);
        assert forall|i: int| 0 <= i < here.len() implies #[trigger] here[i] == chunk_at(
            done + i,
            total,
        ) by {
            law_streaming_encodes_the_same_chunks(early, total, done + i);
        }
        assert(here + pending_chunks(next, total, true) =~= pending_chunks(done, total, true));
    }
}

/// What a Nemotron model directory lacks, if anything.
pub open spec fn nemotron_fault(present: Seq<Seq<char>>) -> Option<Seq<char>> {
    if !is_present(present, "encoder.onnx"@) {
        Some("Missing Nemotron model file: "@ + "encoder.onnx"@)
    } else if !is_present(present, "decoder.onnx"@) {
        Some("Missing Nemotron model file: "@ + "decoder.onnx"@)
    } else if !is_present(present, "joint.onnx"@) {
        Some("Missing Nemotron model file: "@ + "joint.onnx"@)
    } else if !is_present(present, "vocab.txt"@) {
        Some("Missing Nemotron model file: "@ + "vocab.txt"@)
    } else {
        None
    }
}

/// The Nemotron model as a set of files.
pub struct NemotronModel {}

impl NemotronModel {
    /// Checks that the files of a model are all there.
    pub fn validate_model_dir(present: &Vec<String>) -> (r: Result<(), String>)
        ensures
            match nemotron_fault(views(present@)) {
                Some(m) => r matches Err(e) && e@ == m,
                None => r is Ok,
            },
    {
        if !has_file(present, "encoder.onnx") {
            return Err(concat("Missing Nemotron model file: ", "encoder.onnx"));
        }
        if !has_file(present, "decoder.onnx") {
            return Err(concat("Missing Nemotron model file: ", "decoder.onnx"));
        }
        if !has_file(present, "joint.onnx") {
            return Err(concat("Missing Nemotron model file: ", "joint.onnx"));
        }
        if !has_file(present, "vocab.txt") {
            return Err(concat("Missing Nemotron model file: ", "vocab.txt"));
        }
        Ok(())
    }
}

/// The vocabulary of a file: one token per line, its number its id.
pub fn load_vocab(contents: &str) -> (r: Vec<String>)
    ensures
        views(r@) == lines(contents@),
{
    split_lines(contents)
}

} // verus!
