//! The files of a Parakeet model.

use vstd::prelude::*;

use crate::backend::files::{has_file, is_present};
use crate::text::paths::{join_path, path_join};
use crate::text::strings::{concat, concat3, join, joined, views};

verus! {

/// The first of `candidates` that is there.
pub open spec fn first_present(present: Seq<Seq<char>>, candidates: Seq<Seq<char>>) -> Option<
    Seq<char>,
>
    decreases candidates.len(),
{
    if candidates.len() == 0 {
        None
    } else if is_present(present, candidates[0]) {
        Some(candidates[0])
    } else {
        first_present(present, candidates.skip(1))
    }
}

/// The path of a component: that of the first candidate that is there.
pub fn resolve_model_file(
    model_dir: &str,
    component: &str,
    candidates: &Vec<String>,
    present: &Vec<String>,
) -> (r: Result<String, String>)
    ensures
        match first_present(views(present@), views(candidates@)) {
            Some(name) => r matches Ok(path) && path@ == join_path(model_dir@, name),
            None => r matches Err(e) && e@ == "Missing Parakeet "@ + component@
                + " model. Tried: "@ + join(views(candidates@), ", "@),
        },
{
    let ghost all = views(candidates@);
    let mut i: usize = 0;
    assert(all.skip(0) =~= all);
    while i < candidates.len()
        invariant
            all == views(candidates@),
            i <= candidates@.len(),
            first_present(views(present@), all) == first_present(
                views(present@),
                all.skip(i as int),
            ),
        decreases candidates@.len() - i,
    {
        assert(all.skip(i as int)[0] == candidates@[i as int]@);
        if has_file(present, candidates[i].as_str()) {
            return Ok(path_join(model_dir, candidates[i].as_str()));
        }
        assert(all.skip(i as int).skip(1) =~= all.skip(i + 1));
        i += 1;
    }
    assert(all.skip(i as int).len() == 0);
    let tried = joined(candidates, ", ");
    let start = concat3("Missing Parakeet ", component, " model. Tried: ");
    Err(concat(start.as_str(), tried.as_str()))
}

/// What a Parakeet model directory lacks, if anything: an encoder, a decoder,
/// a joiner (quantized or not), or the vocabulary.
pub open spec fn parakeet_fault(present: Seq<Seq<char>>) -> Option<Seq<char>> {
    if !is_present(present, "encoder.int8.onnx"@) && !is_present(present, "encoder.onnx"@) {
        Some("Missing Parakeet encoder model (encoder.int8.onnx or encoder.onnx)"@)
    } else if !is_present(present, "decoder.int8.onnx"@) && !is_present(present, "decoder.onnx"@) {
        Some("Missing Parakeet decoder model (decoder.int8.onnx or decoder.onnx)"@)
    } else if !is_present(present, "joiner.int8.onnx"@) && !is_present(present, "joiner.onnx"@) {
        Some("Missing Parakeet joiner model (joiner.int8.onnx or joiner.onnx)"@)
    } else if !is_present(present, "tokens.txt"@) {
        Some("Missing Parakeet tokens.txt"@)
    } else {
        None
    }
}

/// The Parakeet model as a set of files.
pub struct ParakeetModel {}

impl ParakeetModel {
    /// Checks that the files of a model are all there.
    pub fn validate_model_dir(present: &Vec<String>) -> (r: Result<(), String>)
        ensures
            match parakeet_fault(views(present@)) {
                Some(m) => r matches Err(e) && e@ == m,
                None => r is Ok,
            },
    {
        if !has_file(present, "encoder.int8.onnx") && !has_file(present, "encoder.onnx") {
            return Err(
                "Missing Parakeet encoder model (encoder.int8.onnx or encoder.onnx)".to_owned(),
            );
        }
        if !has_file(present, "decoder.int8.onnx") && !has_file(present, "decoder.onnx") {
            return Err(
                "Missing Parakeet decoder model (decoder.int8.onnx or decoder.onnx)".to_owned(),
            );
        }
        if !has_file(present, "joiner.int8.onnx") && !has_file(present, "joiner.onnx") {
            return Err(
                "Missing Parakeet joiner model (joiner.int8.onnx or joiner.onnx)".to_owned(),
            );
        }
        if !has_file(present, "tokens.txt") {
            return Err("Missing Parakeet tokens.txt".to_owned());
        }
        Ok(())
    }

    /// The candidates for a component: quantized first.
    pub fn candidates(component: &str) -> (r: Vec<String>)
        ensures
            views(r@) == seq![component@ + ".int8.onnx"@, component@ + ".onnx"@],
    {
        let mut r: Vec<String> = Vec::new();
        r.push(concat(component, ".int8.onnx"));
        r.push(concat(component, ".onnx"));
        assert(views(r@) =~= seq![component@ + ".int8.onnx"@, component@ + ".onnx"@]);
        r
    }
}

/// Of the candidates for a component the first that is there is taken: the
/// quantized one where both are; and there is one wherever any is.
pub proof fn law_first_candidate_is_taken(
    present: Seq<Seq<char>>,
    quantized: Seq<char>,
    full: Seq<char>,
)
    ensures
        first_present(present, seq![quantized, full]) == (if present.contains(quantized) {
            Some(quantized)
        } else if present.contains(full) {
            Some(full)
        } else {
            None
        }),
{
    reveal_with_fuel(first_present, 3);
    let c = seq![quantized, full];
    assert(c.skip(1)[0] == full);
    assert(c.skip(1).skip(1).len() == 0);
}

} // verus!
