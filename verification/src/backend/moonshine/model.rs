//! The files of a Moonshine model, in either of its two layouts, the names of
//! its networks' inputs and outputs, and its flavors.

use vstd::prelude::*;

use crate::backend::factory::lemma_path_name;
use crate::backend::files::{has_file, is_present};
use crate::backend::moonshine::names::{
    first_pair, fits, found, found_name, found_tensor, input_names, law_the_best_name_is_found,
    names_of, names_with_state, nothing_fits, resolve_name, resolve_optional_input_name,
    resolve_optional_input_type, resolved, state_names, ElementType, SessionInfo, UnresolvedName,
};
use crate::download::moonshine_dir;
use crate::text::paths::{file_name, join_path, path_file_name, path_join};
use crate::text::strings::{
    concat, list1, list2, list3, list4, opt_view, same_ignoring_ascii_case, str_eq, strip_prefix,
    strip_suffix, views, without_prefix, without_suffix,
};

verus! {

/// How the networks of a model are split over files.
#[derive(Debug, Clone, Copy, PartialEq, Eq, Structural)]
pub enum MoonshineLayout {
    /// Preprocessor, encoder and decoder in a file each.
    Legacy,
    /// Encoder and merged decoder, with the preprocessor as configuration.
    Merged,
}

/// Settings of the preprocessor. The padding value, of type `F`, is only
/// carried.
#[derive(Debug, Clone)]
pub struct MoonshinePreprocessorConfig<F> {
    pub do_normalize: bool,
    pub feature_extractor_type: String,
    pub feature_size: usize,
    pub padding_side: String,
    pub padding_value: F,
    pub return_attention_mask: bool,
    pub sampling_rate: usize,
}

/// The paths of a model in the legacy layout, and of the preprocessor's
/// configuration.
#[derive(Debug, Clone)]
pub struct MoonshineModelPaths {
    pub preprocess: String,
    pub encoder: String,
    pub decoder: String,
    pub decoder_cached: String,
    pub preprocessor_config: String,
}

/// Which files of a model are loaded.
#[derive(Debug, Clone)]
pub struct MoonshineLoadPlan {
    pub layout: MoonshineLayout,
    pub encoder: String,
    pub decoder: String,
    /// The preprocessor network, in the legacy layout.
    pub preprocess: Option<String>,
    /// The preprocessor's configuration, in the merged layout.
    pub preprocessor_config: Option<String>,
    /// The cached decoder, where there is one.
    pub decoder_cached: Option<String>,
}

/// Whether the merged networks are there.
pub open spec fn is_merged(present: Seq<Seq<char>>) -> bool {
    is_present(present, "encoder_model.onnx"@) && is_present(present, "decoder_model_merged.onnx"@)
}

/// What a directory in the legacy layout lacks of its networks, if anything.
pub open spec fn legacy_fault(dir: Seq<char>, present: Seq<Seq<char>>) -> Option<Seq<char>> {
    if !is_present(present, "preprocess.onnx"@) {
        Some("Missing Moonshine preprocessor model: "@ + join_path(dir, "preprocess.onnx"@))
    } else if !is_present(present, "encode.onnx"@) {
        Some("Missing Moonshine encoder model: "@ + join_path(dir, "encode.onnx"@))
    } else if !is_present(present, "uncached_decode.onnx"@) {
        Some("Missing Moonshine decoder model: "@ + join_path(dir, "uncached_decode.onnx"@))
    } else {
        None
    }
}

/// What a directory lacks of its networks and tokenizer, if anything.
pub open spec fn files_fault(dir: Seq<char>, present: Seq<Seq<char>>) -> Option<Seq<char>> {
    if !is_merged(present) && legacy_fault(dir, present) is Some {
        legacy_fault(dir, present)
    } else if !is_present(present, "tokenizer.json"@) {
        Some("Missing Moonshine tokenizer: "@ + join_path(dir, "tokenizer.json"@))
    } else {
        None
    }
}

/// What a directory lacks for its model to be loaded, if anything. In the
/// merged layout the preprocessor's configuration is read first.
pub open spec fn load_fault(dir: Seq<char>, present: Seq<Seq<char>>) -> Option<Seq<char>> {
    if is_merged(present) && !is_present(present, "preprocessor_config.json"@) {
        Some(
            "Failed to read Moonshine preprocessor config: "@ + join_path(
                dir,
                "preprocessor_config.json"@,
            ),
        )
    } else {
        files_fault(dir, present)
    }
}

/// What a model directory lacks, if anything.
pub open spec fn moonshine_fault(dir: Seq<char>, present: Seq<Seq<char>>) -> Option<Seq<char>> {
    if is_merged(present) && !is_present(present, "preprocessor_config.json"@) {
        Some(
            "Missing Moonshine preprocessor config: "@ + join_path(
                dir,
                "preprocessor_config.json"@,
            ),
        )
    } else {
        files_fault(dir, present)
    }
}

fn missing(what: &str, dir: &str, name: &str) -> (r: String)
    ensures
        r@ == what@ + join_path(dir@, name@),
{
    concat(what, path_join(dir, name).as_str())
}

/// Whether the merged networks are there.
pub fn has_merged_layout(present: &Vec<String>) -> (r: bool)
    ensures
        r == is_merged(views(present@)),
{
    has_file(present, "encoder_model.onnx") && has_file(present, "decoder_model_merged.onnx")
}

fn check_files(dir: &str, present: &Vec<String>) -> (r: Result<(), String>)
    ensures
        match files_fault(dir@, views(present@)) {
            Some(m) => r matches Err(e) && e@ == m,
            None => r is Ok,
        },
{
    if !has_merged_layout(present) {
        if !has_file(present, "preprocess.onnx") {
            return Err(missing("Missing Moonshine preprocessor model: ", dir, "preprocess.onnx"));
        }
        if !has_file(present, "encode.onnx") {
            return Err(missing("Missing Moonshine encoder model: ", dir, "encode.onnx"));
        }
        if !has_file(present, "uncached_decode.onnx") {
            return Err(missing("Missing Moonshine decoder model: ", dir, "uncached_decode.onnx"));
        }
    }
    if !has_file(present, "tokenizer.json") {
        return Err(missing("Missing Moonshine tokenizer: ", dir, "tokenizer.json"));
    }
    Ok(())
}

/// The Moonshine model as a set of files.
pub struct MoonshineModel {}

impl MoonshineModel {
    /// The paths of a model in a directory.
    pub fn resolve_paths(model_dir: &str) -> (r: MoonshineModelPaths)
        ensures
            r.preprocess@ == join_path(model_dir@, "preprocess.onnx"@),
            r.encoder@ == join_path(model_dir@, "encode.onnx"@),
            r.decoder@ == join_path(model_dir@, "uncached_decode.onnx"@),
            r.decoder_cached@ == join_path(model_dir@, "cached_decode.onnx"@),
            r.preprocessor_config@ == join_path(model_dir@, "preprocessor_config.json"@),
    {
        MoonshineModelPaths {
            preprocess: path_join(model_dir, "preprocess.onnx"),
            encoder: path_join(model_dir, "encode.onnx"),
            decoder: path_join(model_dir, "uncached_decode.onnx"),
            decoder_cached: path_join(model_dir, "cached_decode.onnx"),
            preprocessor_config: path_join(model_dir, "preprocessor_config.json"),
        }
    }

    /// Decides which files are loaded: the merged layout where its networks
    /// are there, else the legacy one.
    pub fn plan_load(model_dir: &str, present: &Vec<String>) -> (r: Result<
        MoonshineLoadPlan,
        String,
    >)
        ensures
            match load_fault(model_dir@, views(present@)) {
                Some(m) => r matches Err(e) && e@ == m,
                None => {
                    let merged = is_merged(views(present@));
                    &&& r matches Ok(plan)
                    &&& plan.layout == (if merged {
                        MoonshineLayout::Merged
                    } else {
                        MoonshineLayout::Legacy
                    })
                    &&& plan.encoder@ == join_path(
                        model_dir@,
                        if merged {
                            "encoder_model.onnx"@
                        } else {
                            "encode.onnx"@
                        },
                    )
                    &&& plan.decoder@ == join_path(
                        model_dir@,
                        if merged {
                            "decoder_model_merged.onnx"@
                        } else {
                            "uncached_decode.onnx"@
                        },
                    )
                    &&& opt_view(plan.preprocess) == (if merged {
                        None
                    } else {
                        Some(join_path(model_dir@, "preprocess.onnx"@))
                    })
                    &&& opt_view(plan.preprocessor_config) == (if merged {
                        Some(join_path(model_dir@, "preprocessor_config.json"@))
                    } else {
                        None
                    })
                    &&& opt_view(plan.decoder_cached) == (if is_present(
                        views(present@),
                        "cached_decode.onnx"@,
                    ) {
                        Some(join_path(model_dir@, "cached_decode.onnx"@))
                    } else {
                        None
                    })
                },
            },
    {
        if has_merged_layout(present) && !has_file(present, "preprocessor_config.json") {
            return Err(
                missing(
                    "Failed to read Moonshine preprocessor config: ",
                    model_dir,
                    "preprocessor_config.json",
                ),
            );
        }
        match check_files(model_dir, present) {
            Err(e) => return Err(e),
            Ok(_) => {},
        }
        let decoder_cached = if has_file(present, "cached_decode.onnx") {
            Some(path_join(model_dir, "cached_decode.onnx"))
        } else {
            None
        };
        if has_merged_layout(present) {
            Ok(
                MoonshineLoadPlan {
                    layout: MoonshineLayout::Merged,
                    encoder: path_join(model_dir, "encoder_model.onnx"),
                    decoder: path_join(model_dir, "decoder_model_merged.onnx"),
                    preprocess: None,
                    preprocessor_config: Some(path_join(model_dir, "preprocessor_config.json")),
                    decoder_cached,
                },
            )
        } else {
            Ok(
                MoonshineLoadPlan {
                    layout: MoonshineLayout::Legacy,
                    encoder: path_join(model_dir, "encode.onnx"),
                    decoder: path_join(model_dir, "uncached_decode.onnx"),
                    preprocess: Some(path_join(model_dir, "preprocess.onnx")),
                    preprocessor_config: None,
                    decoder_cached,
                },
            )
        }
    }

    /// Checks that the files of a model are all there.
    pub fn validate_model_dir(model_dir: &str, present: &Vec<String>) -> (r: Result<(), String>)
        ensures
            match moonshine_fault(model_dir@, views(present@)) {
                Some(m) => r matches Err(e) && e@ == m,
                None => r is Ok,
            },
    {
        if has_merged_layout(present) && !has_file(present, "preprocessor_config.json") {
            return Err(
                missing(
                    "Missing Moonshine preprocessor config: ",
                    model_dir,
                    "preprocessor_config.json",
                ),
            );
        }
        check_files(model_dir, present)
    }
}

/// The models that are found complete are those whose files can be loaded.
pub proof fn law_valid_models_load(dir: Seq<char>, present: Seq<Seq<char>>)
    ensures
        moonshine_fault(dir, present) is None <==> load_fault(dir, present) is None,
        load_fault(dir, present) is None && is_merged(present) ==> is_present(
            present,
            "preprocessor_config.json"@,
        ),
{
}

/// The size of a Moonshine model.
#[derive(Debug, Clone, Copy, PartialEq, Eq, Structural)]
pub struct MoonshineFlavor {
    /// Most tokens per second of audio.
    pub token_rate: usize,
    pub num_layers: usize,
    pub num_key_value_heads: usize,
    pub head_dim: usize,
}

/// The small model, with a token rate.
pub open spec fn tiny(token_rate: usize) -> MoonshineFlavor {
    MoonshineFlavor { token_rate, num_layers: 6, num_key_value_heads: 8, head_dim: 36 }
}

/// The large model.
pub open spec fn base() -> MoonshineFlavor {
    MoonshineFlavor { token_rate: 6, num_layers: 8, num_key_value_heads: 8, head_dim: 52 }
}

/// The flavor that a model's name stands for.
pub open spec fn named_flavor(id: Seq<char>) -> Option<MoonshineFlavor> {
    if id == "tiny"@ {
        Some(tiny(6))
    } else if id == "base"@ || id == "base-es"@ {
        Some(base())
    } else if id == "tiny-ar"@ || id == "tiny-zh"@ || id == "tiny-ja"@ || id == "tiny-ko"@ || id
        == "tiny-vi"@ {
        Some(tiny(13))
    } else if id == "tiny-uk"@ {
        Some(tiny(8))
    } else {
        None
    }
}

/// A directory's name without the `moonshine-` and `-onnx` around the model's
/// name, where it has both.
pub open spec fn bare_id(name: Seq<char>) -> Seq<char> {
    match strip_prefix(name, "moonshine-"@) {
        Some(rest) => match strip_suffix(rest, "-onnx"@) {
            Some(id) => id,
            None => name,
        },
        None => name,
    }
}

/// The flavor of the model in a directory, told by the directory's name.
pub open spec fn flavor_of(dir: Seq<char>) -> Option<MoonshineFlavor> {
    match file_name(dir) {
        Some(name) => named_flavor(bare_id(name)),
        None => None,
    }
}

/// The flavor of the model in a directory.
pub fn resolve_flavor(model_dir: &str) -> (r: Option<MoonshineFlavor>)
    ensures
        r == flavor_of(model_dir@),
{
    let name = match path_file_name(model_dir) {
        Some(name) => name,
        None => return None,
    };
    let bare = match without_prefix(name.as_str(), "moonshine-") {
        Some(rest) => without_suffix(rest.as_str(), "-onnx"),
        None => None,
    };
    let owned = match bare {
        Some(id) => id,
        None => name,
    };
    let id = owned.as_str();
    let small = |token_rate: usize| -> (f: MoonshineFlavor)
        ensures
            f == tiny(token_rate),
        {
            MoonshineFlavor { token_rate, num_layers: 6, num_key_value_heads: 8, head_dim: 36 }
        };
    if str_eq(id, "tiny") {
        Some(small(6))
    } else if str_eq(id, "base") || str_eq(id, "base-es") {
        Some(
            MoonshineFlavor { token_rate: 6, num_layers: 8, num_key_value_heads: 8, head_dim: 52 },
        )
    } else if str_eq(id, "tiny-ar") || str_eq(id, "tiny-zh") || str_eq(id, "tiny-ja")
        || str_eq(id, "tiny-ko") || str_eq(id, "tiny-vi") {
        Some(small(13))
    } else if str_eq(id, "tiny-uk") {
        Some(small(8))
    } else {
        None
    }
}

/// The names of the inputs and outputs of a model's networks.
#[derive(Debug, Clone)]
pub struct MoonshineNames {
    pub preprocess_input: String,
    pub preprocess_output: String,
    pub encoder_input: String,
    pub encoder_attention_mask: Option<String>,
    pub encoder_output: String,
    pub decoder_input_ids: String,
    pub decoder_encoder_states: String,
    pub decoder_encoder_attention_mask: Option<String>,
    pub decoder_logits: String,
    pub decoder_use_cache_branch: Option<(String, ElementType)>,
    /// Those of the cached decoder, where there is one.
    pub cached: Option<CachedNames>,
}

/// The names of the inputs and outputs of the cached decoder.
#[derive(Debug, Clone)]
pub struct CachedNames {
    pub input_ids: String,
    pub encoder_states: String,
    pub past_inputs: Vec<String>,
    pub logits: String,
    pub present_outputs: Vec<String>,
}

/// A name to be resolved.
pub struct Lookup {
    pub names: Seq<Seq<char>>,
    pub candidates: Seq<Seq<char>>,
    pub label: Seq<char>,
}

/// What a name is looked up to.
pub open spec fn looked_up(l: Lookup) -> Option<Seq<char>> {
    resolved(l.names, l.candidates)
}

/// The lookup of the preprocessor's input.
pub open spec fn preprocess_input(s: SessionInfo) -> Lookup {
    Lookup {
        names: input_names(s.inputs@),
        candidates: seq!["input_values"@, "audio"@, "input"@],
        label: "preprocess input"@,
    }
}

/// The lookup of the preprocessor's output.
pub open spec fn preprocess_output(s: SessionInfo) -> Lookup {
    Lookup {
        names: views(s.outputs@),
        candidates: seq!["input_features"@, "features"@, "output"@],
        label: "preprocess output"@,
    }
}

/// The lookup of the encoder's input.
pub open spec fn encoder_input(s: SessionInfo) -> Lookup {
    Lookup {
        names: input_names(s.inputs@),
        candidates: seq!["input_features"@, "input_values"@, "features"@, "input"@],
        label: "encoder input"@,
    }
}

/// The lookup of the encoder's output.
pub open spec fn encoder_output(s: SessionInfo) -> Lookup {
    Lookup {
        names: views(s.outputs@),
        candidates: seq!["encoder_hidden_states"@, "last_hidden_state"@, "output"@],
        label: "encoder output"@,
    }
}

/// The lookup of a decoder's token input.
pub open spec fn decoder_ids(s: SessionInfo, label: Seq<char>) -> Lookup {
    Lookup {
        names: input_names(s.inputs@),
        candidates: seq!["input_ids"@, "tokens"@, "decoder_input_ids"@],
        label,
    }
}

/// The lookup of a decoder's input for the encoder's output.
pub open spec fn decoder_states(s: SessionInfo, label: Seq<char>) -> Lookup {
    Lookup {
        names: input_names(s.inputs@),
        candidates: seq!["encoder_hidden_states"@, "encoder_outputs"@, "encoder_hidden_state"@],
        label,
    }
}

/// The lookup of a decoder's scores.
pub open spec fn decoder_logits(s: SessionInfo, label: Seq<char>) -> Lookup {
    Lookup { names: views(s.outputs@), candidates: seq!["logits"@, "output"@], label }
}

/// The first lookup of a model that fails, if any.
pub open spec fn failing_lookup(
    preprocess: Option<SessionInfo>,
    encoder: SessionInfo,
    decoder: SessionInfo,
    cached: Option<SessionInfo>,
) -> Option<Lookup> {
    if preprocess is Some && looked_up(preprocess_input(preprocess->0)) is None {
        Some(preprocess_input(preprocess->0))
    } else if preprocess is Some && looked_up(preprocess_output(preprocess->0)) is None {
        Some(preprocess_output(preprocess->0))
    } else if looked_up(encoder_input(encoder)) is None {
        Some(encoder_input(encoder))
    } else if looked_up(encoder_output(encoder)) is None {
        Some(encoder_output(encoder))
    } else if looked_up(decoder_ids(decoder, "decoder input_ids"@)) is None {
        Some(decoder_ids(decoder, "decoder input_ids"@))
    } else if looked_up(decoder_states(decoder, "decoder encoder_hidden_states"@)) is None {
        Some(decoder_states(decoder, "decoder encoder_hidden_states"@))
    } else if looked_up(decoder_logits(decoder, "decoder logits"@)) is None {
        Some(decoder_logits(decoder, "decoder logits"@))
    } else if cached is Some {
        failing_cached_lookup(cached->0)
    } else {
        None
    }
}

/// The first lookup of a cached decoder that fails, if any.
pub open spec fn failing_cached_lookup(cached: SessionInfo) -> Option<Lookup> {
    if looked_up(decoder_ids(cached, "cached decoder input_ids"@)) is None {
        Some(decoder_ids(cached, "cached decoder input_ids"@))
    } else if looked_up(decoder_states(cached, "cached decoder encoder_hidden_states"@)) is None {
        Some(decoder_states(cached, "cached decoder encoder_hidden_states"@))
    } else if looked_up(decoder_logits(cached, "cached decoder logits"@)) is None {
        Some(decoder_logits(cached, "cached decoder logits"@))
    } else {
        None
    }
}

/// Whether an error reports that a lookup failed.
pub open spec fn reports(e: UnresolvedName, l: Lookup) -> bool {
    &&& e.label@ == l.label
    &&& views(e.candidates@) == l.candidates
    &&& views(e.available@) == l.names
}

fn find_ids(s: &SessionInfo, label: &str) -> (r: Result<String, UnresolvedName>)
    ensures
        match looked_up(decoder_ids(*s, label@)) {
            Some(n) => r matches Ok(m) && m@ == n,
            None => r matches Err(e) && reports(e, decoder_ids(*s, label@)),
        },
{
    resolve_name(&names_of(&s.inputs), &list3("input_ids", "tokens", "decoder_input_ids"), label)
}

fn find_states(s: &SessionInfo, label: &str) -> (r: Result<String, UnresolvedName>)
    ensures
        match looked_up(decoder_states(*s, label@)) {
            Some(n) => r matches Ok(m) && m@ == n,
            None => r matches Err(e) && reports(e, decoder_states(*s, label@)),
        },
{
    resolve_name(
        &names_of(&s.inputs),
        &list3("encoder_hidden_states", "encoder_outputs", "encoder_hidden_state"),
        label,
    )
}

fn find_logits(s: &SessionInfo, label: &str) -> (r: Result<String, UnresolvedName>)
    ensures
        match looked_up(decoder_logits(*s, label@)) {
            Some(n) => r matches Ok(m) && m@ == n,
            None => r matches Err(e) && reports(e, decoder_logits(*s, label@)),
        },
{
    resolve_name(&s.outputs, &list2("logits", "output"), label)
}

/// Whether the names of a cached decoder are those looked up.
pub open spec fn cached_names_are(n: CachedNames, s: SessionInfo) -> bool {
    &&& looked_up(decoder_ids(s, "cached decoder input_ids"@)) == Some(n.input_ids@)
    &&& looked_up(decoder_states(s, "cached decoder encoder_hidden_states"@)) == Some(
        n.encoder_states@,
    )
    &&& looked_up(decoder_logits(s, "cached decoder logits"@)) == Some(n.logits@)
    &&& views(n.past_inputs@) == state_names(input_names(s.inputs@), true)
    &&& views(n.present_outputs@) == state_names(views(s.outputs@), false)
}

fn resolve_cached_names(s: &SessionInfo) -> (r: Result<CachedNames, UnresolvedName>)
    ensures
        match failing_cached_lookup(*s) {
            Some(l) => r matches Err(e) && reports(e, l),
            None => r matches Ok(n) && cached_names_are(n, *s),
        },
{
    let input_ids = match find_ids(s, "cached decoder input_ids") {
        Ok(n) => n,
        Err(e) => return Err(e),
    };
    let encoder_states = match find_states(s, "cached decoder encoder_hidden_states") {
        Ok(n) => n,
        Err(e) => return Err(e),
    };
    let past_inputs = names_with_state(&names_of(&s.inputs), true);
    let present_outputs = names_with_state(&s.outputs, false);
    let logits = match find_logits(s, "cached decoder logits") {
        Ok(n) => n,
        Err(e) => return Err(e),
    };
    Ok(CachedNames { input_ids, encoder_states, past_inputs, logits, present_outputs })
}

/// Resolves the names of the inputs and outputs of a model's networks. Without
/// a preprocessor network its names are the usual ones.
pub fn resolve_names(
    preprocess: &Option<SessionInfo>,
    encoder: &SessionInfo,
    decoder: &SessionInfo,
    cached: &Option<SessionInfo>,
) -> (r: Result<MoonshineNames, UnresolvedName>)
    ensures
        match failing_lookup(*preprocess, *encoder, *decoder, *cached) {
            Some(l) => r matches Err(e) && reports(e, l),
            None => {
                &&& r matches Ok(n)
                &&& Some(n.preprocess_input@) == (match preprocess {
                    Some(s) => looked_up(preprocess_input(*s)),
                    None => Some("input_values"@),
                })
                &&& Some(n.preprocess_output@) == (match preprocess {
                    Some(s) => looked_up(preprocess_output(*s)),
                    None => Some("input_features"@),
                })
                &&& looked_up(encoder_input(*encoder)) == Some(n.encoder_input@)
                &&& opt_view(n.encoder_attention_mask) == found_name(
                    input_names(encoder.inputs@),
                    seq!["attention_mask"@],
                )
                &&& looked_up(encoder_output(*encoder)) == Some(n.encoder_output@)
                &&& looked_up(decoder_ids(*decoder, "decoder input_ids"@)) == Some(
                    n.decoder_input_ids@,
                )
                &&& looked_up(decoder_states(*decoder, "decoder encoder_hidden_states"@)) == Some(
                    n.decoder_encoder_states@,
                )
                &&& opt_view(n.decoder_encoder_attention_mask) == found_name(
                    input_names(decoder.inputs@),
                    seq!["encoder_attention_mask"@],
                )
                &&& match found_tensor(
                    decoder.inputs@,
                    seq!["use_cache_branch"@, "use_cache"@],
                ) {
                    Some(i) => n.decoder_use_cache_branch matches Some((name, element)) && name@
                        == decoder.inputs@[i].name@ && element@
                        == decoder.inputs@[i].tensor->0.element@,
                    None => n.decoder_use_cache_branch is None,
                }
                &&& looked_up(decoder_logits(*decoder, "decoder logits"@)) == Some(
                    n.decoder_logits@,
                )
                &&& match cached {
                    Some(s) => n.cached matches Some(c) && cached_names_are(c, *s),
                    None => n.cached is None,
                }
            },
        },
{
    let (preprocess_input, preprocess_output) = match preprocess {
        Some(s) => {
            let input = match resolve_name(
                &names_of(&s.inputs),
                &list3("input_values", "audio", "input"),
                "preprocess input",
            ) {
                Ok(n) => n,
                Err(e) => return Err(e),
            };
            let output = match resolve_name(
                &s.outputs,
                &list3("input_features", "features", "output"),
                "preprocess output",
            ) {
                Ok(n) => n,
                Err(e) => return Err(e),
            };
            (input, output)
        },
        None => ("input_values".to_owned(), "input_features".to_owned()),
    };
    let encoder_input = match resolve_name(
        &names_of(&encoder.inputs),
        &list4("input_features", "input_values", "features", "input"),
        "encoder input",
    ) {
        Ok(n) => n,
        Err(e) => return Err(e),
    };
    let encoder_attention_mask = resolve_optional_input_name(
        &encoder.inputs,
        &list1("attention_mask"),
    );
    let encoder_output = match resolve_name(
        &encoder.outputs,
        &list3("encoder_hidden_states", "last_hidden_state", "output"),
        "encoder output",
    ) {
        Ok(n) => n,
        Err(e) => return Err(e),
    };
    let decoder_input_ids = match find_ids(decoder, "decoder input_ids") {
        Ok(n) => n,
        Err(e) => return Err(e),
    };
    let decoder_encoder_states = match find_states(decoder, "decoder encoder_hidden_states") {
        Ok(n) => n,
        Err(e) => return Err(e),
    };
    let decoder_encoder_attention_mask = resolve_optional_input_name(
        &decoder.inputs,
        &list1("encoder_attention_mask"),
    );
    let decoder_use_cache_branch = resolve_optional_input_type(
        &decoder.inputs,
        &list2("use_cache_branch", "use_cache"),
    );
    let decoder_logits = match find_logits(decoder, "decoder logits") {
        Ok(n) => n,
        Err(e) => return Err(e),
    };
    let cached = match cached {
        Some(s) => match resolve_cached_names(s) {
            Ok(n) => Some(n),
            Err(e) => return Err(e),
        },
        None => None,
    };
    Ok(
        MoonshineNames {
            preprocess_input,
            preprocess_output,
            encoder_input,
            encoder_attention_mask,
            encoder_output,
            decoder_input_ids,
            decoder_encoder_states,
            decoder_encoder_attention_mask,
            decoder_logits,
            decoder_use_cache_branch,
            cached,
        },
    )
}

/// A model's flavor is told from the directory that it is kept in, which is named
/// by its id.
pub proof fn law_flavor_is_told_from_the_directory(models_dir: Seq<char>, id: Seq<char>)
    requires
        !id.contains('/'),
    ensures
        flavor_of(moonshine_dir(models_dir, id)) == named_flavor(id),
{
    reveal_strlit("moonshine-");
    reveal_strlit("-onnx");
    let p = "moonshine-"@;
    let q = "-onnx"@;
    let name = p + id + q;
    assert(!name.contains('/')) by {
        if name.contains('/') {
            let k = choose|k: int| 0 <= k < name.len() && name[k] == '/';
            if p.len() <= k < p.len() + id.len() {
                assert(id[k - p.len()] == '/');
                assert(id.contains('/'));
            }
        }
    }
    lemma_path_name(models_dir, name);
    assert(name.subrange(0, p.len() as int) =~= p);
    let rest = name.skip(p.len() as int);
    assert(rest =~= id + q);
    assert(rest.subrange(rest.len() - q.len(), rest.len() as int) =~= q);
    assert(rest.take(rest.len() - q.len()) =~= id);
}

/// Models of one size have networks of one shape, whatever their language: six
/// layers of heads of 36 for a tiny one, eight of 52 for a base one.
pub proof fn law_flavors_of_one_size_have_one_shape(id: Seq<char>)
    ensures
        named_flavor(id) matches Some(f) ==> {
            &&& f.num_key_value_heads == 8
            &&& id.len() >= 4
            &&& id.take(4) == "tiny"@ ==> f.num_layers == 6 && f.head_dim == 36
            &&& id.take(4) == "base"@ ==> f.num_layers == 8 && f.head_dim == 52
            &&& id.take(4) == "tiny"@ || id.take(4) == "base"@
        },
{
    reveal_strlit("tiny");
    reveal_strlit("base");
    reveal_strlit("base-es");
    reveal_strlit("tiny-ar");
    reveal_strlit("tiny-zh");
    reveal_strlit("tiny-ja");
    reveal_strlit("tiny-ko");
    reveal_strlit("tiny-vi");
    reveal_strlit("tiny-uk");
    if named_flavor(id) is Some {
        let front = id.take(4);
        if id[0] == 't' {
            assert(front =~= "tiny"@);
            assert("base"@[0] == 'b');
        } else {
            assert(front =~= "base"@);
            assert("tiny"@[0] == 't');
        }
    }
}

proof fn lemma_first_candidate(l: Lookup, j: int)
    requires
        l.candidates.len() > 0,
        0 <= j < l.names.len(),
        l.names[j] == l.candidates[0],
    ensures
        looked_up(l) matches Some(n) && same_ignoring_ascii_case(n, l.candidates[0]),
{
    law_the_best_name_is_found(l.names, l.candidates);
    assert(fits(l.names[j], l.candidates[0], true));
    if l.names.len() != 1 {
        assert(!nothing_fits(l.names, l.candidates, true));
        let i = found(l.names, l.candidates)->0;
        let k = choose|k: int| first_pair(l.names, l.candidates, true, i, k);
        if k > 0 {
            assert(!fits(l.names[j], l.candidates[0], true));
        }
        assert(fits(l.names[i], l.candidates[0], true));
    }
}

/// A network whose tensor has its usual name is used by that name: whatever other
/// inputs or outputs there are, it is found, up to the case of its letters.
pub proof fn law_usual_names_are_found(s: SessionInfo, label: Seq<char>, j: int)
    ensures
        0 <= j < s.inputs@.len() && s.inputs@[j].name@ == "input_ids"@ ==> (looked_up(
            decoder_ids(s, label),
        ) matches Some(n) && same_ignoring_ascii_case(n, "input_ids"@)),
        0 <= j < s.inputs@.len() && s.inputs@[j].name@ == "encoder_hidden_states"@ ==> (looked_up(
            decoder_states(s, label),
        ) matches Some(n) && same_ignoring_ascii_case(n, "encoder_hidden_states"@)),
        0 <= j < s.outputs@.len() && s.outputs@[j]@ == "logits"@ ==> (looked_up(
            decoder_logits(s, label),
        ) matches Some(n) && same_ignoring_ascii_case(n, "logits"@)),
        0 <= j < s.inputs@.len() && s.inputs@[j].name@ == "input_features"@ ==> (looked_up(
            encoder_input(s),
        ) matches Some(n) && same_ignoring_ascii_case(n, "input_features"@)),
        0 <= j < s.outputs@.len() && s.outputs@[j]@ == "encoder_hidden_states"@ ==> (looked_up(
            encoder_output(s),
        ) matches Some(n) && same_ignoring_ascii_case(n, "encoder_hidden_states"@)),
        0 <= j < s.inputs@.len() && s.inputs@[j].name@ == "input_values"@ ==> (looked_up(
            preprocess_input(s),
        ) matches Some(n) && same_ignoring_ascii_case(n, "input_values"@)),
        0 <= j < s.outputs@.len() && s.outputs@[j]@ == "input_features"@ ==> (looked_up(
            preprocess_output(s),
        ) matches Some(n) && same_ignoring_ascii_case(n, "input_features"@)),
{
    if 0 <= j < s.inputs@.len() {
        assert(input_names(s.inputs@)[j] == s.inputs@[j].name@);
        if s.inputs@[j].name@ == "input_ids"@ {
            lemma_first_candidate(decoder_ids(s, label), j);
        }
        if s.inputs@[j].name@ == "encoder_hidden_states"@ {
            lemma_first_candidate(decoder_states(s, label), j);
        }
        if s.inputs@[j].name@ == "input_features"@ {
            lemma_first_candidate(encoder_input(s), j);
        }
        if s.inputs@[j].name@ == "input_values"@ {
            lemma_first_candidate(preprocess_input(s), j);
        }
    }
    if 0 <= j < s.outputs@.len() {
        assert(views(s.outputs@)[j] == s.outputs@[j]@);
        if s.outputs@[j]@ == "logits"@ {
            lemma_first_candidate(decoder_logits(s, label), j);
        }
        if s.outputs@[j]@ == "encoder_hidden_states"@ {
            lemma_first_candidate(encoder_output(s), j);
        }
        if s.outputs@[j]@ == "input_features"@ {
            lemma_first_candidate(preprocess_output(s), j);
        }
    }
}

} // verus!
