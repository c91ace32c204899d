//! Model provisioning: where models are kept, what they are called, which
//! files they consist of, and where those come from. Files are looked at,
//! fetched and converted outside.

use vstd::prelude::*;

use crate::backend::factory::{
    backend_feature, feature_name, quant_suffix, whisper_cpp_file, whisper_cpp_filename,
};
use crate::backend::files::{has_file, is_present};
use crate::backend::{has_backend, BackendFeatures, BackendType, QuantizationLevel};
use crate::text::paths::{join_path, law_relative_paths_keep_apart, path_join};
use crate::text::strings::{
    chars_of, concat, concat3, join, joined, last_index_of, lemma_space, owned, position_of_last,
    starts_with, str_eq, str_views, string_of_range, strip_prefix, views, without_prefix,
};

verus! {

/// The kinds of models an application needs.
#[derive(Debug, Clone, Copy, PartialEq, Eq, Structural)]
pub enum ModelType {
    Whisper,
    Silero,
}

/// What the environment says of where models are kept.
#[derive(Debug, Clone)]
pub struct CacheEnvironment {
    /// `SPEECHCORE_MODEL_DIR`
    pub model_dir: Option<String>,
    /// `XDG_CACHE_HOME`
    pub cache_home: Option<String>,
    /// `HOME`
    pub home: Option<String>,
}

/// The directory models are kept in: the one that is set, else under the cache
/// directory, else under the home directory.
pub open spec fn cache_dir(env: CacheEnvironment) -> Option<Seq<char>> {
    match (env.model_dir, env.cache_home, env.home) {
        (Some(dir), _, _) => Some(dir@),
        (None, Some(cache), _) => Some(join_path(join_path(cache@, "speechcore"@), "models"@)),
        (None, None, Some(home)) => Some(
            join_path(join_path(join_path(home@, ".cache"@), "speechcore"@), "models"@),
        ),
        (None, None, None) => None,
    }
}

/// The directory models are kept in.
pub fn model_cache_dir(env: &CacheEnvironment) -> (r: Result<String, String>)
    ensures
        match cache_dir(*env) {
            Some(dir) => r matches Ok(d) && d@ == dir,
            None => r matches Err(e) && e@ == "Failed to get HOME directory"@,
        },
{
    match &env.model_dir {
        Some(dir) => Ok(dir.clone()),
        None => match &env.cache_home {
            Some(cache) => Ok(
                path_join(path_join(cache.as_str(), "speechcore").as_str(), "models"),
            ),
            None => match &env.home {
                Some(home) => {
                    let cache = path_join(home.as_str(), ".cache");
                    Ok(path_join(path_join(cache.as_str(), "speechcore").as_str(), "models"))
                },
                None => Err("Failed to get HOME directory".to_owned()),
            },
        },
    }
}

/// The name of a backend in the error that it was not built.
pub open spec fn spoken_name(b: BackendType) -> Seq<char> {
    match b {
        BackendType::CTranslate2 => "CTranslate2"@,
        BackendType::WhisperCpp => "Whisper.cpp"@,
        BackendType::Moonshine => "Moonshine"@,
        BackendType::Parakeet => "Parakeet"@,
        BackendType::Nemotron => "Nemotron"@,
    }
}

/// Checks that a backend was built.
pub fn ensure_backend_available(backend_type: BackendType, features: BackendFeatures) -> (r: Result<
    (),
    String,
>)
    ensures
        if has_backend(features, backend_type) {
            r is Ok
        } else {
            r matches Err(e) && e@ == spoken_name(backend_type)
                + " backend is disabled; enable speechcore feature `"@ + feature_name(backend_type)
                + "`"@
        },
{
    if features.has(backend_type) {
        return Ok(());
    }
    let name = match backend_type {
        BackendType::CTranslate2 => "CTranslate2",
        BackendType::WhisperCpp => "Whisper.cpp",
        BackendType::Moonshine => "Moonshine",
        BackendType::Parakeet => "Parakeet",
        BackendType::Nemotron => "Nemotron",
    };
    let start = concat(name, " backend is disabled; enable speechcore feature `");
    Err(concat3(start.as_str(), backend_feature(backend_type).as_str(), "`"))
}

/// What follows the last slash of a name: the name without its organization.
pub open spec fn simple_name(name: Seq<char>) -> Seq<char> {
    match last_index_of(name, '/') {
        Some(i) => name.skip(i + 1),
        None => name,
    }
}

/// A model's name without its organization.
pub fn simple_model_name(name: &str) -> (r: String)
    ensures
        r@ == simple_name(name@),
{
    match position_of_last(name, '/') {
        Some(i) => {
            let chars = chars_of(name);
            let t = string_of_range(&chars, i + 1, chars.len());
            assert(t@ =~= name@.skip(i + 1));
            t
        },
        None => name.to_owned(),
    }
}

/// The repository of a Parakeet model.
pub open spec fn parakeet_repo(model: Seq<char>) -> Seq<char> {
    if model == "parakeet-tdt-0.6b-v2"@ {
        "csukuangfj/sherpa-onnx-nemo-parakeet-tdt-0.6b-v2-int8"@
    } else {
        "csukuangfj/sherpa-onnx-nemo-parakeet-tdt-0.6b-v3-int8"@
    }
}

/// The directory name of a Parakeet model.
pub open spec fn parakeet_dir(model: Seq<char>) -> Seq<char> {
    if model == "parakeet-tdt-0.6b-v2"@ {
        "parakeet-tdt-v2-int8"@
    } else {
        "parakeet-tdt-v3-int8"@
    }
}

/// The repository of a Parakeet model.
pub fn parakeet_hf_repo(model_name: &str) -> (r: &'static str)
    ensures
        r@ == parakeet_repo(model_name@),
{
    if str_eq(model_name, "parakeet-tdt-0.6b-v2") {
        "csukuangfj/sherpa-onnx-nemo-parakeet-tdt-0.6b-v2-int8"
    } else {
        "csukuangfj/sherpa-onnx-nemo-parakeet-tdt-0.6b-v3-int8"
    }
}

/// The directory name of a Parakeet model.
pub fn parakeet_dir_name(model_name: &str) -> (r: &'static str)
    ensures
        r@ == parakeet_dir(model_name@),
{
    if str_eq(model_name, "parakeet-tdt-0.6b-v2") {
        "parakeet-tdt-v2-int8"
    } else {
        "parakeet-tdt-v3-int8"
    }
}

/// The id of a Moonshine model: its simple name without `moonshine-`.
pub open spec fn moonshine_id(model: Seq<char>) -> Seq<char> {
    let simple = simple_name(model);
    match strip_prefix(simple, "moonshine-"@) {
        Some(rest) => rest,
        None => simple,
    }
}

/// The id of a Moonshine model.
pub fn moonshine_model_id(model_name: &str) -> (r: String)
    ensures
        r@ == moonshine_id(model_name@),
{
    let simple = simple_model_name(model_name);
    match without_prefix(simple.as_str(), "moonshine-") {
        Some(rest) => rest,
        None => simple,
    }
}

/// The directory of a Moonshine model.
pub open spec fn moonshine_dir(models_dir: Seq<char>, id: Seq<char>) -> Seq<char> {
    join_path(models_dir, "moonshine-"@ + id + "-onnx"@)
}

/// The directory of a Moonshine model.
pub fn moonshine_model_dir(models_dir: &str, model_id: &str) -> (r: String)
    ensures
        r@ == moonshine_dir(models_dir@, model_id@),
{
    let name = concat3("moonshine-", model_id, "-onnx");
    path_join(models_dir, name.as_str())
}

/// The directory of a Parakeet model.
pub fn parakeet_model_dir(models_dir: &str, model_name: &str) -> (r: String)
    ensures
        r@ == join_path(models_dir@, parakeet_dir(model_name@)),
{
    path_join(models_dir, parakeet_dir_name(model_name))
}

/// The files of a converted CTranslate2 model.
pub open spec fn ct2_files() -> Seq<Seq<char>> {
    seq!["model.bin"@, "config.json"@, "tokenizer.json"@, "preprocessor_config.json"@]
}

/// The files of a Moonshine model.
pub open spec fn moonshine_files() -> Seq<Seq<char>> {
    seq![
        "encoder_model.onnx"@,
        "decoder_model_merged.onnx"@,
        "tokenizer.json"@,
        "preprocessor_config.json"@,
    ]
}

/// The files of a Parakeet model.
pub open spec fn parakeet_files() -> Seq<Seq<char>> {
    seq!["encoder.int8.onnx"@, "decoder.int8.onnx"@, "joiner.int8.onnx"@, "tokens.txt"@]
}

/// The files of a Nemotron model.
pub open spec fn nemotron_files() -> Seq<Seq<char>> {
    seq![
        "encoder.onnx"@,
        "encoder.onnx.data"@,
        "decoder.onnx"@,
        "decoder.onnx.data"@,
        "joint.onnx"@,
        "joint.onnx.data"@,
        "vocab.txt"@,
    ]
}

/// The files of a backend's models; whisper.cpp has a single file of varying
/// name.
pub open spec fn required_files(b: BackendType) -> Seq<Seq<char>> {
    match b {
        BackendType::CTranslate2 => ct2_files(),
        BackendType::WhisperCpp => seq![],
        BackendType::Moonshine => moonshine_files(),
        BackendType::Parakeet => parakeet_files(),
        BackendType::Nemotron => nemotron_files(),
    }
}

/// The files of a backend's models.
pub fn model_files(backend_type: BackendType) -> (r: Vec<String>)
    ensures
        views(r@) == required_files(backend_type),
{
    match backend_type {
        BackendType::CTranslate2 => {
            let names: [&'static str; 4] = [
                "model.bin",
                "config.json",
                "tokenizer.json",
                "preprocessor_config.json",
            ];
            assert(str_views(names@) =~= ct2_files());
            owned(names)
        },
        BackendType::WhisperCpp => {
            let r: Vec<String> = Vec::new();
            assert(views(r@) =~= seq![]);
            r
        },
        BackendType::Moonshine => {
            let names: [&'static str; 4] = [
                "encoder_model.onnx",
                "decoder_model_merged.onnx",
                "tokenizer.json",
                "preprocessor_config.json",
            ];
            assert(str_views(names@) =~= moonshine_files());
            owned(names)
        },
        BackendType::Parakeet => {
            let names: [&'static str; 4] = [
                "encoder.int8.onnx",
                "decoder.int8.onnx",
                "joiner.int8.onnx",
                "tokens.txt",
            ];
            assert(str_views(names@) =~= parakeet_files());
            owned(names)
        },
        BackendType::Nemotron => {
            let names: [&'static str; 7] = [
                "encoder.onnx",
                "encoder.onnx.data",
                "decoder.onnx",
                "decoder.onnx.data",
                "joint.onnx",
                "joint.onnx.data",
                "vocab.txt",
            ];
            assert(str_views(names@) =~= nemotron_files());
            owned(names)
        },
    }
}

/// Whether all of the files are there.
pub open spec fn all_present(files: Seq<Seq<char>>, present: Seq<Seq<char>>) -> bool {
    forall|i: int| 0 <= i < files.len() ==> is_present(present, #[trigger] files[i])
}

/// Tests whether the files of a backend's model are all there.
pub fn is_model_complete(backend_type: BackendType, present: &Vec<String>) -> (r: bool)
    ensures
        r == all_present(required_files(backend_type), views(present@)),
{
    let files = model_files(backend_type);
    let ghost all = views(files@);
    let mut i: usize = 0;
    while i < files.len()
        invariant
            all == views(files@),
            all == required_files(backend_type),
            i <= files@.len(),
            forall|j: int| 0 <= j < i ==> is_present(views(present@), #[trigger] all[j]),
        decreases files@.len() - i,
    {
        assert(all[i as int] == files@[i as int]@);
        if !has_file(present, files[i].as_str()) {
            return false;
        }
        i += 1;
    }
    true
}

/// Smallest size of a detector model that is taken for whole, in bytes, less
/// one.
pub const SILERO_SIZE_LIMIT: u64 = 10_000;

/// Tests whether a detector model is there and whole, given its size.
pub fn is_silero_model_valid(size: Option<u64>) -> (r: bool)
    ensures
        r == (size is Some && size->0 > 10_000),
{
    match size {
        Some(len) => len > SILERO_SIZE_LIMIT,
        None => false,
    }
}

/// The path of the detector model.
pub fn silero_model_path(models_dir: &str) -> (r: String)
    ensures
        r@ == join_path(models_dir@, "silero_vad.onnx"@),
{
    path_join(models_dir, "silero_vad.onnx")
}

/// Where the detector model comes from. The release is pinned: later exports
/// have been broken.
pub fn silero_vad_url() -> (r: &'static str)
    ensures
        r@
            == "https://github.com/snakers4/silero-vad/raw/v5.1.2/src/silero_vad/data/silero_vad.onnx"@,
{
    "https://github.com/snakers4/silero-vad/raw/v5.1.2/src/silero_vad/data/silero_vad.onnx"
}

/// A file to be downloaded.
#[derive(Debug, Clone)]
pub struct Download {
    pub url: String,
    pub path: String,
}

/// What a list of downloads holds: addresses and paths.
pub open spec fn download_views(v: Seq<Download>) -> Seq<(Seq<char>, Seq<char>)> {
    v.map_values(|d: Download| (d.url@, d.path@))
}

/// The address of a file of a repository.
pub open spec fn repo_url(repo: Seq<char>, file: Seq<char>) -> Seq<char> {
    "https://huggingface.co/"@ + repo + "/resolve/main/"@ + file
}

/// The address of a file of a Moonshine model: networks come from the common
/// repository, the rest from the model's own.
pub open spec fn moonshine_url(id: Seq<char>, file: Seq<char>) -> Seq<char> {
    if file == "encoder_model.onnx"@ || file == "decoder_model_merged.onnx"@ {
        repo_url("UsefulSensors/moonshine"@, "onnx/merged/"@ + id + "/float/"@ + file)
    } else {
        repo_url("UsefulSensors/moonshine-"@ + id, file)
    }
}

/// The repository of the Nemotron model.
pub open spec fn nemotron_repo() -> Seq<char> {
    "onnx-community/nemotron-3.5-asr-streaming-0.6b-onnx-int4"@
}

/// The address of a file of a backend's model. CTranslate2 models have none:
/// they are converted.
pub open spec fn model_url(b: BackendType, model: Seq<char>, file: Seq<char>) -> Seq<char> {
    match b {
        BackendType::Moonshine => moonshine_url(model, file),
        BackendType::Parakeet => repo_url(parakeet_repo(model), file),
        BackendType::Nemotron => repo_url(nemotron_repo(), file),
        BackendType::WhisperCpp => repo_url("ggerganov/whisper.cpp"@, file),
        BackendType::CTranslate2 => Seq::empty(),
    }
}

/// The files that are missing, in order, each with its address and path.
pub open spec fn missing_downloads(
    b: BackendType,
    dir: Seq<char>,
    model: Seq<char>,
    files: Seq<Seq<char>>,
    present: Seq<Seq<char>>,
) -> Seq<(Seq<char>, Seq<char>)>
    decreases files.len(),
{
    if files.len() == 0 {
        Seq::empty()
    } else {
        let before = missing_downloads(b, dir, model, files.drop_last(), present);
        let file = files.last();
        if is_present(present, file) {
            before
        } else {
            before.push((model_url(b, model, file), join_path(dir, file)))
        }
    }
}

fn repository_url(repo: &str, file: &str) -> (r: String)
    ensures
        r@ == repo_url(repo@, file@),
{
    let start = concat3("https://huggingface.co/", repo, "/resolve/main/");
    concat(start.as_str(), file)
}

/// The address of a file of a backend's model.
pub fn file_url(backend_type: BackendType, model: &str, file: &str) -> (r: String)
    requires
        backend_type != BackendType::CTranslate2,
    ensures
        r@ == model_url(backend_type, model@, file@),
{
    match backend_type {
        BackendType::Moonshine => if str_eq(file, "encoder_model.onnx") || str_eq(
            file,
            "decoder_model_merged.onnx",
        ) {
            let inner = concat(concat3("onnx/merged/", model, "/float/").as_str(), file);
            repository_url("UsefulSensors/moonshine", inner.as_str())
        } else {
            repository_url(concat("UsefulSensors/moonshine-", model).as_str(), file)
        },
        BackendType::Parakeet => repository_url(parakeet_hf_repo(model), file),
        BackendType::Nemotron => repository_url(
            "onnx-community/nemotron-3.5-asr-streaming-0.6b-onnx-int4",
            file,
        ),
        BackendType::WhisperCpp => repository_url("ggerganov/whisper.cpp", file),
        BackendType::CTranslate2 => String::new(),
    }
}

/// The files of a model that are to be downloaded: those that are missing.
pub fn plan_downloads(
    backend_type: BackendType,
    model_dir: &str,
    model: &str,
    present: &Vec<String>,
) -> (r: Vec<Download>)
    requires
        backend_type != BackendType::CTranslate2,
    ensures
        download_views(r@) == missing_downloads(
            backend_type,
            model_dir@,
            model@,
            required_files(backend_type),
            views(present@),
        ),
{
    let files = model_files(backend_type);
    let ghost all = views(files@);
    let mut r: Vec<Download> = Vec::new();
    let mut i: usize = 0;
    assert(download_views(r@) =~= missing_downloads(
        backend_type,
        model_dir@,
        model@,
        all.take(0),
        views(present@),
    ));
    while i < files.len()
        invariant
            backend_type != BackendType::CTranslate2,
            all == views(files@),
            i <= files@.len(),
            download_views(r@) == missing_downloads(
                backend_type,
                model_dir@,
                model@,
                all.take(i as int),
                views(present@),
            ),
        decreases files@.len() - i,
    {
        assert(all.take(i + 1).drop_last() =~= all.take(i as int));
        assert(all.take(i + 1).last() == files@[i as int]@);
        if !has_file(present, files[i].as_str()) {
            let ghost before = download_views(r@);
            let d = Download {
                url: file_url(backend_type, model, files[i].as_str()),
                path: path_join(model_dir, files[i].as_str()),
            };
            r.push(d);
            assert(download_views(r@) =~= before.push((d.url@, d.path@)));
        }
        i += 1;
    }
    assert(all.take(i as int) =~= all);
    r
}

proof fn lemma_nothing_missing(
    b: BackendType,
    dir: Seq<char>,
    model: Seq<char>,
    files: Seq<Seq<char>>,
    present: Seq<Seq<char>>,
)
    ensures
        missing_downloads(b, dir, model, files, present).len() == 0 <==> all_present(
            files,
            present,
        ),
    decreases files.len(),
{
    if files.len() > 0 {
        let head = files.drop_last();
        lemma_nothing_missing(b, dir, model, head, present);
        if all_present(files, present) {
            assert(all_present(head, present)) by {
                assert forall|i: int| 0 <= i < head.len() implies is_present(
                    present,
                    #[trigger] head[i],
                ) by {
                    assert(is_present(present, files[i]));
                }
            }
            assert(is_present(present, files[files.len() - 1]));
        } else if all_present(head, present) && is_present(present, files.last()) {
            assert(all_present(files, present)) by {
                assert forall|i: int| 0 <= i < files.len() implies is_present(
                    present,
                    #[trigger] files[i],
                ) by {
                    if i < head.len() {
                        assert(is_present(present, head[i]));
                    }
                }
            }
        }
    }
}

/// A complete model has nothing to be downloaded, and one with nothing to be
/// downloaded is complete.
pub proof fn law_complete_models_need_no_downloads(
    b: BackendType,
    dir: Seq<char>,
    model: Seq<char>,
    present: Seq<Seq<char>>,
)
    ensures
        missing_downloads(b, dir, model, required_files(b), present).len() == 0 <==> all_present(
            required_files(b),
            present,
        ),
{
    lemma_nothing_missing(b, dir, model, required_files(b), present);
}

/// The model that a simple name stands for with CTranslate2.
pub open spec fn ct2_model(name: Seq<char>) -> Seq<char> {
    if name == "tiny"@ || name == "tiny.en"@ {
        "openai/whisper-tiny.en"@
    } else if name == "base"@ || name == "base.en"@ {
        "openai/whisper-base.en"@
    } else if name == "small"@ || name == "small.en"@ {
        "distil-whisper/distil-small.en"@
    } else if name == "medium"@ || name == "medium.en"@ {
        "distil-whisper/distil-medium.en"@
    } else if name == "large"@ || name == "large-v1"@ || name == "large-v2"@ || name
        == "large-v3"@ {
        "distil-whisper/distil-large-v3"@
    } else {
        name
    }
}

/// The model that a name stands for with a backend: a name with an
/// organization stands for itself; of simple names CTranslate2 maps those it
/// knows, and whisper.cpp drops `distil-`.
pub open spec fn normalized_name(name: Seq<char>, b: BackendType) -> Seq<char> {
    if name.contains('/') {
        name
    } else {
        match b {
            BackendType::CTranslate2 => ct2_model(name),
            BackendType::WhisperCpp => match strip_prefix(name, "distil-"@) {
                Some(rest) => rest,
                None => name,
            },
            _ => name,
        }
    }
}

fn ct2_mapping(name: &str) -> (r: String)
    ensures
        r@ == ct2_model(name@),
{
    if str_eq(name, "tiny") || str_eq(name, "tiny.en") {
        "openai/whisper-tiny.en".to_owned()
    } else if str_eq(name, "base") || str_eq(name, "base.en") {
        "openai/whisper-base.en".to_owned()
    } else if str_eq(name, "small") || str_eq(name, "small.en") {
        "distil-whisper/distil-small.en".to_owned()
    } else if str_eq(name, "medium") || str_eq(name, "medium.en") {
        "distil-whisper/distil-medium.en".to_owned()
    } else if str_eq(name, "large") || str_eq(name, "large-v1") || str_eq(name, "large-v2")
        || str_eq(name, "large-v3") {
        "distil-whisper/distil-large-v3".to_owned()
    } else {
        name.to_owned()
    }
}

/// Normalizes a model's name for a backend.
pub fn normalize_model_name(model_name: &str, backend_type: BackendType) -> (r: String)
    ensures
        r@ == normalized_name(model_name@, backend_type),
{
    let slash = position_of_last(model_name, '/');
    proof {
        lemma_last_index_contains(model_name@, '/');
    }
    if slash.is_some() {
        return model_name.to_owned();
    }
    match backend_type {
        BackendType::CTranslate2 => ct2_mapping(model_name),
        BackendType::WhisperCpp => match without_prefix(model_name, "distil-") {
            Some(rest) => rest,
            None => model_name.to_owned(),
        },
        BackendType::Parakeet => model_name.to_owned(),
        BackendType::Moonshine => model_name.to_owned(),
        BackendType::Nemotron => model_name.to_owned(),
    }
}

proof fn lemma_last_index_contains(s: Seq<char>, c: char)
    ensures
        last_index_of(s, c) is Some <==> s.contains(c),
    decreases s.len(),
{
    if s.len() > 0 {
        lemma_last_index_contains(s.drop_last(), c);
        if s.last() == c {
            assert(s[s.len() - 1] == c);
        } else if s.drop_last().contains(c) {
            let k = choose|k: int| 0 <= k < s.drop_last().len() && s.drop_last()[k] == c;
            assert(s[k] == c);
        } else if s.contains(c) {
            let k = choose|k: int| 0 <= k < s.len() && s[k] == c;
            assert(s.drop_last()[k] == c);
        }
    }
}

/// What is to be done to have a model at hand.
#[derive(Debug)]
pub enum ProvisionPlan {
    /// Convert the model into the directory, unless it is complete there.
    Convert { model: String, dir: String },
    /// Download the file, unless it is there.
    SingleFile { download: Download },
    /// Download what is missing of the model in the directory.
    Directory { model: String, dir: String },
}

/// What a [`ProvisionPlan`] holds.
pub enum PlanModel {
    Convert { model: Seq<char>, dir: Seq<char> },
    SingleFile { url: Seq<char>, path: Seq<char> },
    Directory { model: Seq<char>, dir: Seq<char> },
}

impl View for ProvisionPlan {
    type V = PlanModel;

    open spec fn view(&self) -> PlanModel {
        match self {
            ProvisionPlan::Convert { model, dir } => PlanModel::Convert {
                model: model@,
                dir: dir@,
            },
            ProvisionPlan::SingleFile { download } => PlanModel::SingleFile {
                url: download.url@,
                path: download.path@,
            },
            ProvisionPlan::Directory { model, dir } => PlanModel::Directory {
                model: model@,
                dir: dir@,
            },
        }
    }
}

/// The directory of a converted model: named by the model without its
/// organization.
pub open spec fn converted_dir(models_dir: Seq<char>, model: Seq<char>) -> Seq<char> {
    join_path(models_dir, simple_name(model) + "-ct2"@)
}

/// What is to be done to have a model at hand, by its normalized name.
pub open spec fn provision(
    b: BackendType,
    name: Seq<char>,
    q: QuantizationLevel,
    models_dir: Seq<char>,
) -> PlanModel {
    match b {
        BackendType::CTranslate2 => PlanModel::Convert {
            model: name,
            dir: converted_dir(models_dir, name),
        },
        BackendType::WhisperCpp => PlanModel::SingleFile {
            url: model_url(b, name, whisper_cpp_file(name, q)),
            path: join_path(models_dir, whisper_cpp_file(name, q)),
        },
        BackendType::Moonshine => PlanModel::Directory {
            model: moonshine_id(name),
            dir: moonshine_dir(models_dir, moonshine_id(name)),
        },
        BackendType::Parakeet => PlanModel::Directory {
            model: name,
            dir: join_path(models_dir, parakeet_dir(name)),
        },
        BackendType::Nemotron => PlanModel::Directory {
            model: name,
            dir: join_path(models_dir, "nemotron-3.5-asr-streaming-0.6b-int4"@),
        },
    }
}

/// The path of a whisper.cpp model file.
pub fn get_whisper_cpp_model_path(
    models_dir: &str,
    model_name: &str,
    quantization: QuantizationLevel,
) -> (r: String)
    ensures
        r@ == join_path(models_dir@, whisper_cpp_file(model_name@, quantization)),
{
    let name = whisper_cpp_filename(model_name, quantization);
    path_join(models_dir, name.as_str())
}

/// Plans the initialization of a converted model under its full name, or of
/// the default one where none is given.
pub fn init_model(model_name: Option<&str>, models_dir: &str) -> (r: ProvisionPlan)
    ensures
        ({
            let model = match model_name {
                Some(name) => name@,
                None => "openai/whisper-base.en"@,
            };
            r@ == (PlanModel::Convert { model, dir: converted_dir(models_dir@, model) })
        }),
{
    let model = match model_name {
        Some(name) => name,
        None => default_whisper_model(),
    };
    ProvisionPlan::Convert {
        model: model.to_owned(),
        dir: converted_model_dir(models_dir, model),
    }
}

/// The directory of a converted model.
fn converted_model_dir(models_dir: &str, model: &str) -> (r: String)
    ensures
        r@ == converted_dir(models_dir@, model@),
{
    let dir_name = concat(simple_model_name(model).as_str(), "-ct2");
    path_join(models_dir, dir_name.as_str())
}

/// Resolves a model's name: what is to be done to have it at hand, or why it
/// cannot be had.
pub fn resolve_model_path(
    model_name: &str,
    backend_type: BackendType,
    quantization: QuantizationLevel,
    models_dir: &str,
    features: BackendFeatures,
) -> (r: Result<ProvisionPlan, String>)
    ensures
        if has_backend(features, backend_type) {
            r matches Ok(plan) && plan@ == provision(
                backend_type,
                normalized_name(model_name@, backend_type),
                quantization,
                models_dir@,
            )
        } else {
            r matches Err(e) && e@ == spoken_name(backend_type)
                + " backend is disabled; enable speechcore feature `"@ + feature_name(backend_type)
                + "`"@
        },
{
    match ensure_backend_available(backend_type, features) {
        Ok(_) => {},
        Err(e) => return Err(e),
    }
    let name = normalize_model_name(model_name, backend_type);
    let plan = match backend_type {
        BackendType::CTranslate2 => {
            let dir = converted_model_dir(models_dir, name.as_str());
            ProvisionPlan::Convert { model: name, dir }
        },
        BackendType::WhisperCpp => {
            let file = whisper_cpp_filename(name.as_str(), quantization);
            ProvisionPlan::SingleFile {
                download: Download {
                    url: file_url(backend_type, name.as_str(), file.as_str()),
                    path: path_join(models_dir, file.as_str()),
                },
            }
        },
        BackendType::Moonshine => {
            let model = moonshine_model_id(name.as_str());
            let dir = moonshine_model_dir(models_dir, model.as_str());
            ProvisionPlan::Directory { model, dir }
        },
        BackendType::Parakeet => {
            let dir = parakeet_model_dir(models_dir, name.as_str());
            ProvisionPlan::Directory { model: name, dir }
        },
        BackendType::Nemotron => {
            let dir = path_join(models_dir, "nemotron-3.5-asr-streaming-0.6b-int4");
            ProvisionPlan::Directory { model: name, dir }
        },
    };
    Ok(plan)
}

/// The name of the model that is initialized where none is given.
pub fn default_model_name() -> (r: &'static str)
    ensures
        r@ == "base.en"@,
{
    "base.en"
}

/// The whisper model that is converted where none is given.
pub fn default_whisper_model() -> (r: &'static str)
    ensures
        r@ == "openai/whisper-base.en"@,
{
    "openai/whisper-base.en"
}

/// The arguments of the converter.
pub open spec fn converter_arguments(model: Seq<char>, output_dir: Seq<char>) -> Seq<Seq<char>> {
    seq![
        "--force"@,
        "--model"@,
        model,
        "--output_dir"@,
        output_dir,
        "--copy_files"@,
        "preprocessor_config.json"@,
        "tokenizer.json"@,
    ]
}

/// The arguments of the converter.
pub fn converter_args(model_name: &str, output_dir: &str) -> (r: Vec<String>)
    ensures
        views(r@) == converter_arguments(model_name@, output_dir@),
{
    let mut r: Vec<String> = Vec::new();
    r.push("--force".to_owned());
    r.push("--model".to_owned());
    r.push(model_name.to_owned());
    r.push("--output_dir".to_owned());
    r.push(output_dir.to_owned());
    r.push("--copy_files".to_owned());
    r.push("preprocessor_config.json".to_owned());
    r.push("tokenizer.json".to_owned());
    assert(views(r@) =~= converter_arguments(model_name@, output_dir@));
    r
}

/// A text with each single quote ended, escaped and reopened.
pub open spec fn escaped(s: Seq<char>) -> Seq<char>
    decreases s.len(),
{
    if s.len() == 0 {
        Seq::empty()
    } else if s.last() == '\'' {
        escaped(s.drop_last()) + seq!['\'', '\\', '\'', '\'']
    } else {
        escaped(s.drop_last()).push(s.last())
    }
}

/// An argument in single quotes, for a shell.
pub open spec fn quoted(s: Seq<char>) -> Seq<char> {
    seq!['\''] + escaped(s) + seq!['\'']
}

/// An argument in single quotes, for a shell.
pub fn quote_argument(arg: &str) -> (r: String)
    ensures
        r@ == quoted(arg@),
{
    let chars = chars_of(arg);
    let mut r = String::new();
    r.push('\'');
    let mut i: usize = 0;
    assert(r@ =~= seq!['\''] + escaped(chars@.take(0)));
    while i < chars.len()
        invariant
            i <= chars@.len(),
            r@ == seq!['\''] + escaped(chars@.take(i as int)),
        decreases chars@.len() - i,
    {
        let ghost before = r@;
        assert(chars@.take(i + 1).drop_last() =~= chars@.take(i as int));
        assert(chars@.take(i + 1).last() == chars@[i as int]);
        if chars[i] == '\'' {
            r.push('\'');
            r.push('\\');
            r.push('\'');
            r.push('\'');
        } else {
            r.push(chars[i]);
        }
        assert(r@ =~= seq!['\''] + escaped(chars@.take(i + 1)));
        i += 1;
    }
    assert(chars@.take(i as int) =~= chars@);
    r.push('\'');
    assert(r@ =~= quoted(arg@));
    r
}

/// The quoted forms of a list of arguments.
pub open spec fn all_quoted(args: Seq<Seq<char>>) -> Seq<Seq<char>> {
    args.map_values(|a: Seq<char>| quoted(a))
}

/// The command line of the converter, for a shell.
pub open spec fn conversion_line(model: Seq<char>, output_dir: Seq<char>) -> Seq<char> {
    "ct2-transformers-converter "@ + join(
        all_quoted(converter_arguments(model, output_dir)),
        seq![' '],
    )
}

/// The command line of the converter, for a shell.
pub fn conversion_script(model_name: &str, output_dir: &str) -> (r: String)
    ensures
        r@ == conversion_line(model_name@, output_dir@),
{
    let args = converter_args(model_name, output_dir);
    let ghost all = views(args@);
    let mut list: Vec<String> = Vec::new();
    let mut i: usize = 0;
    while i < args.len()
        invariant
            all == views(args@),
            i <= args@.len(),
            list@.len() == i,
            forall|j: int| 0 <= j < i ==> (#[trigger] list@[j])@ == quoted(args@[j]@),
        decreases args@.len() - i,
    {
        list.push(quote_argument(args[i].as_str()));
        i += 1;
    }
    assert(views(list@) =~= all_quoted(all)) by {
        assert forall|j: int| 0 <= j < views(list@).len() implies views(list@)[j] == all_quoted(
            all,
        )[j] by {
            assert(views(list@)[j] == list@[j]@);
            assert(all[j] == args@[j]@);
        }
    }
    proof {
        lemma_space();
    }
    let line = joined(&list, " ");
    concat("ct2-transformers-converter ", line.as_str())
}

/// How a shell reads a word made of single-quoted parts and escaped
/// characters; nothing where a character stands outside both.
pub open spec fn shell_word(s: Seq<char>, in_quotes: bool) -> Option<Seq<char>>
    decreases s.len(),
{
    if s.len() == 0 {
        if in_quotes {
            None
        } else {
            Some(Seq::empty())
        }
    } else if in_quotes {
        if s[0] == '\'' {
            shell_word(s.skip(1), false)
        } else {
            match shell_word(s.skip(1), true) {
                Some(rest) => Some(seq![s[0]] + rest),
                None => None,
            }
        }
    } else if s[0] == '\'' {
        shell_word(s.skip(1), true)
    } else if s[0] == '\\' && s.len() > 1 {
        match shell_word(s.skip(2), false) {
            Some(rest) => Some(seq![s[1]] + rest),
            None => None,
        }
    } else {
        None
    }
}

proof fn lemma_escaped_reads_back(s: Seq<char>, tail: Seq<char>, rest: Seq<char>)
    requires
        shell_word(tail, true) == Some(rest),
    ensures
        shell_word(escaped(s) + tail, true) == Some(s + rest),
    decreases s.len(),
{
    if s.len() == 0 {
        assert(escaped(s) + tail =~= tail);
        assert(s + rest =~= rest);
    } else {
        let head = s.drop_last();
        let c = s.last();
        if c == '\'' {
            let more = seq!['\'', '\\', '\'', '\''] + tail;
            let a = more.skip(1);
            let b = a.skip(2);
            assert(b =~= seq!['\''] + tail);
            assert(b.skip(1) =~= tail);
            assert(shell_word(b, false) == Some(rest));
            assert(a[0] == '\\' && a[1] == '\'');
            assert(shell_word(a, false) == Some(seq!['\''] + rest));
            assert(shell_word(more, true) == Some(seq!['\''] + rest));
            lemma_escaped_reads_back(head, more, seq!['\''] + rest);
            assert(escaped(s) + tail =~= escaped(head) + more);
            assert(head + (seq!['\''] + rest) =~= s + rest);
        } else {
            let more = seq![c] + tail;
            assert(more.skip(1) =~= tail);
            assert(shell_word(more, true) == Some(seq![c] + rest));
            lemma_escaped_reads_back(head, more, seq![c] + rest);
            assert(escaped(s) + tail =~= escaped(head) + more);
            assert(head + (seq![c] + rest) =~= s + rest);
        }
    }
}

/// A shell reads a quoted argument back as the argument, whatever it holds.
pub proof fn law_quoting_is_safe(arg: Seq<char>)
    ensures
        shell_word(quoted(arg), false) == Some(arg),
{
    let tail = seq!['\''];
    assert(tail.skip(1).len() == 0);
    assert(shell_word(tail.skip(1), false) == Some(Seq::<char>::empty()));
    assert(shell_word(tail, true) == Some(Seq::<char>::empty()));
    lemma_escaped_reads_back(arg, tail, Seq::empty());
    assert(quoted(arg).skip(1) =~= escaped(arg) + tail);
    assert(arg + Seq::<char>::empty() =~= arg);
}

/// The converter as a program with arguments.
#[derive(Debug, Clone)]
pub struct ConversionCommand {
    pub program: String,
    pub args: Vec<String>,
}

/// The command that converts a model: in a nix shell on NixOS, with the
/// project's shell file where there is one; directly elsewhere.
pub fn conversion_command(
    on_nixos: bool,
    shell_nix: &Option<String>,
    model_name: &str,
    output_dir: &str,
) -> (r: ConversionCommand)
    ensures
        on_nixos ==> r.program@ == "nix-shell"@,
        !on_nixos ==> r.program@ == "ct2-transformers-converter"@,
        views(r.args@) == (if !on_nixos {
            converter_arguments(model_name@, output_dir@)
        } else {
            (match shell_nix {
                Some(path) => seq![path@],
                None => seq![],
            }) + seq!["--command"@, conversion_line(model_name@, output_dir@)]
        }),
{
    if !on_nixos {
        return ConversionCommand {
            program: "ct2-transformers-converter".to_owned(),
            args: converter_args(model_name, output_dir),
        };
    }
    let mut args: Vec<String> = Vec::new();
    if let Some(path) = shell_nix {
        args.push(path.clone());
    }
    args.push("--command".to_owned());
    args.push(conversion_script(model_name, output_dir));
    assert(views(args@) =~= (match shell_nix {
        Some(path) => seq![path@],
        None => seq![],
    }) + seq!["--command"@, conversion_line(model_name@, output_dir@)]);
    ConversionCommand { program: "nix-shell".to_owned(), args }
}

/// What a conversion comes to: it failed, it left files out, or it succeeded.
pub fn conversion_result(converted: bool, complete: bool) -> (r: Result<(), String>)
    ensures
        if !converted {
            r matches Err(e) && e@
                == "Model conversion failed. Please follow the manual instructions."@
        } else if !complete {
            r matches Err(e) && e@ == "Model conversion failed or is incomplete"@
        } else {
            r is Ok
        },
{
    if !converted {
        Err("Model conversion failed. Please follow the manual instructions.".to_owned())
    } else if !complete {
        Err("Model conversion failed or is incomplete".to_owned())
    } else {
        Ok(())
    }
}

/// Checks a detector model that was downloaded, given its size.
pub fn check_silero_download(size: Option<u64>) -> (r: Result<(), String>)
    ensures
        if size is Some && size->0 > 10_000 {
            r is Ok
        } else {
            r matches Err(e) && e@ == "Downloaded Silero model is invalid or corrupted"@
        },
{
    if is_silero_model_valid(size) {
        Ok(())
    } else {
        Err("Downloaded Silero model is invalid or corrupted".to_owned())
    }
}

/// The path that a plan puts its model at.
pub open spec fn place_of(plan: PlanModel) -> Seq<char> {
    match plan {
        PlanModel::Convert { model, dir } => dir,
        PlanModel::SingleFile { url, path } => path,
        PlanModel::Directory { model, dir } => dir,
    }
}

/// A Parakeet model is planned to be where [`parakeet_model_dir`] says, and models
/// from different repositories never share a directory.
pub proof fn law_parakeet_models_keep_apart(
    a: &str,
    b: &str,
    q: QuantizationLevel,
    models_dir: &str,
    features: BackendFeatures,
    repo_a: &'static str,
    repo_b: &'static str,
    dir_a: String,
    plan_a: ProvisionPlan,
    plan_b: ProvisionPlan,
)
    requires
        call_ensures(parakeet_hf_repo, (a,), repo_a),
        call_ensures(parakeet_hf_repo, (b,), repo_b),
        call_ensures(parakeet_model_dir, (models_dir, a), dir_a),
        call_ensures(
            resolve_model_path,
            (a, BackendType::Parakeet, q, models_dir, features),
            Ok(plan_a),
        ),
        call_ensures(
            resolve_model_path,
            (b, BackendType::Parakeet, q, models_dir, features),
            Ok(plan_b),
        ),
    ensures
        plan_a@ == (PlanModel::Directory { model: a@, dir: dir_a@ }),
        repo_a@ != repo_b@ ==> place_of(plan_a@) != place_of(plan_b@),
        repo_a@ == repo_b@ ==> place_of(plan_a@) == place_of(plan_b@),
{
    reveal_strlit("parakeet-tdt-v2-int8");
    reveal_strlit("parakeet-tdt-v3-int8");
    assert("parakeet-tdt-v2-int8"@[14] == '2');
    assert("parakeet-tdt-v3-int8"@[14] == '3');
    law_relative_paths_keep_apart(
        models_dir@,
        "parakeet-tdt-v2-int8"@,
        "parakeet-tdt-v3-int8"@,
    );
    reveal_strlit("csukuangfj/sherpa-onnx-nemo-parakeet-tdt-0.6b-v2-int8");
    reveal_strlit("csukuangfj/sherpa-onnx-nemo-parakeet-tdt-0.6b-v3-int8");
    assert("csukuangfj/sherpa-onnx-nemo-parakeet-tdt-0.6b-v2-int8"@[47] == '2');
    assert("csukuangfj/sherpa-onnx-nemo-parakeet-tdt-0.6b-v3-int8"@[47] == '3');
}

/// The models of different backends never share a file or a directory, whatever
/// their names.
pub proof fn law_backends_keep_apart(
    a: &str,
    b: &str,
    backend_a: BackendType,
    backend_b: BackendType,
    qa: QuantizationLevel,
    qb: QuantizationLevel,
    models_dir: &str,
    features: BackendFeatures,
    plan_a: ProvisionPlan,
    plan_b: ProvisionPlan,
)
    requires
        backend_a != backend_b,
        call_ensures(resolve_model_path, (a, backend_a, qa, models_dir, features), Ok(plan_a)),
        call_ensures(resolve_model_path, (b, backend_b, qb, models_dir, features), Ok(plan_b)),
    ensures
        place_of(plan_a@) != place_of(plan_b@),
{
    let pa = provision(backend_a, normalized_name(a@, backend_a), qa, models_dir@);
    let pb = provision(backend_b, normalized_name(b@, backend_b), qb, models_dir@);
    lemma_place_ends(backend_a, normalized_name(a@, backend_a), qa, models_dir@);
    lemma_place_ends(backend_b, normalized_name(b@, backend_b), qb, models_dir@);
    assert(place_of(pa).last() != place_of(pb).last());
}

spec fn last_char(b: BackendType) -> char {
    match b {
        BackendType::CTranslate2 => '2',
        BackendType::WhisperCpp => 'n',
        BackendType::Moonshine => 'x',
        BackendType::Parakeet => '8',
        BackendType::Nemotron => '4',
    }
}

proof fn lemma_place_ends(b: BackendType, name: Seq<char>, q: QuantizationLevel, dir: Seq<char>)
    ensures
        place_of(provision(b, name, q, dir)).len() > 0,
        place_of(provision(b, name, q, dir)).last() == last_char(b),
{
    reveal_strlit("-ct2");
    reveal_strlit(".bin");
    reveal_strlit("ggml-");
    reveal_strlit("moonshine-");
    reveal_strlit("-onnx");
    reveal_strlit("parakeet-tdt-v2-int8");
    reveal_strlit("parakeet-tdt-v3-int8");
    reveal_strlit("nemotron-3.5-asr-streaming-0.6b-int4");
    let simple = simple_name(name);
    lemma_simple_name(name);
    assert((simple + "-ct2"@).last() == '2');
    assert((simple + "-ct2"@)[0] != '/') by {
        if simple.len() > 0 {
            assert((simple + "-ct2"@)[0] == simple[0]);
            assert(simple.contains(simple[0]));
        }
    }
    assert(whisper_cpp_file(name, q).last() == 'n');
    assert(whisper_cpp_file(name, q)[0] == 'g');
    let id = moonshine_id(name);
    assert(("moonshine-"@ + id + "-onnx"@).last() == 'x');
    assert(("moonshine-"@ + id + "-onnx"@)[0] == 'm');
}

proof fn lemma_simple_name(name: Seq<char>)
    ensures
        !simple_name(name).contains('/'),
        exists|i: int| 0 <= i <= name.len() && simple_name(name) == #[trigger] name.skip(i) && (i == 0
            || name[i - 1] == '/'),
    decreases name.len(),
{
    lemma_last_index_contains(name, '/');
    if last_index_of(name, '/') is Some {
        lemma_last_index_is_last(name, '/');
        let i = last_index_of(name, '/')->0;
        let rest = name.skip(i + 1);
        assert(simple_name(name) == name.skip(i + 1));
        if rest.contains('/') {
            let k = choose|k: int| 0 <= k < rest.len() && rest[k] == '/';
            assert(name[i + 1 + k] == '/');
        }
    } else {
        assert(name.skip(0) =~= name);
    }
}

proof fn lemma_last_index_is_last(s: Seq<char>, c: char)
    requires
        last_index_of(s, c) is Some,
    ensures
        ({
            let i = last_index_of(s, c)->0;
            &&& 0 <= i < s.len()
            &&& s[i] == c
            &&& forall|k: int| i < k < s.len() ==> #[trigger] s[k] != c
        }),
    decreases s.len(),
{
    if s.len() > 0 && s.last() != c {
        lemma_last_index_is_last(s.drop_last(), c);
        let i = last_index_of(s, c)->0;
        assert forall|k: int| i < k < s.len() implies #[trigger] s[k] != c by {
            if k < s.len() - 1 {
                assert(s.drop_last()[k] == s[k]);
            }
        }
    }
}

/// A model's name without its organization is what follows the last slash, and
/// the whole name where there is none.
pub proof fn law_simple_name(organization: Seq<char>, name: Seq<char>)
    requires
        !name.contains('/'),
    ensures
        simple_name(organization.push('/') + name) == name,
        simple_name(name) == name,
{
    let full = organization.push('/') + name;
    lemma_last_index_contains(full, '/');
    lemma_last_index_contains(name, '/');
    assert(full[organization.len() as int] == '/');
    assert(full.contains('/'));
    lemma_last_index_is_last(full, '/');
    let i = last_index_of(full, '/')->0;
    if i > organization.len() {
        assert(name[i - organization.len() - 1] == '/');
        assert(name.contains('/'));
    }
    assert(full.skip(i + 1) =~= name);
}

/// Moonshine models of different ids never share a directory.
pub proof fn law_moonshine_models_keep_apart(models_dir: Seq<char>, a: Seq<char>, b: Seq<char>)
    requires
        a != b,
    ensures
        moonshine_dir(models_dir, a) != moonshine_dir(models_dir, b),
{
    reveal_strlit("moonshine-");
    let p = "moonshine-"@;
    let q = "-onnx"@;
    assert((p + a + q)[0] == 'm');
    assert((p + b + q)[0] == 'm');
    assert((p + a + q).subrange(p.len() as int, (p + a + q).len() - q.len()) =~= a);
    assert((p + b + q).subrange(p.len() as int, (p + b + q).len() - q.len()) =~= b);
    law_relative_paths_keep_apart(models_dir, p + a + q, p + b + q);
}

/// A whisper.cpp model is one file: it is kept under the name that it is
/// downloaded by, and models of one quantization never share it.
pub proof fn law_whisper_cpp_models_keep_apart(
    a: &str,
    b: &str,
    q: QuantizationLevel,
    models_dir: &str,
    features: BackendFeatures,
    plan_a: ProvisionPlan,
    plan_b: ProvisionPlan,
)
    requires
        call_ensures(
            resolve_model_path,
            (a, BackendType::WhisperCpp, q, models_dir, features),
            Ok(plan_a),
        ),
        call_ensures(
            resolve_model_path,
            (b, BackendType::WhisperCpp, q, models_dir, features),
            Ok(plan_b),
        ),
    ensures
        ({
            let name = normalized_name(a@, BackendType::WhisperCpp);
            let file = whisper_cpp_file(name, q);
            plan_a@ == (PlanModel::SingleFile {
                url: "https://huggingface.co/ggerganov/whisper.cpp/resolve/main/"@ + file,
                path: join_path(models_dir@, file),
            })
        }),
        normalized_name(a@, BackendType::WhisperCpp) != normalized_name(
            b@,
            BackendType::WhisperCpp,
        ) ==> place_of(plan_a@) != place_of(plan_b@),
{
    reveal_strlit("https://huggingface.co/");
    reveal_strlit("ggerganov/whisper.cpp");
    reveal_strlit("/resolve/main/");
    reveal_strlit("https://huggingface.co/ggerganov/whisper.cpp/resolve/main/");
    assert("https://huggingface.co/ggerganov/whisper.cpp/resolve/main/"@
        =~= "https://huggingface.co/"@ + "ggerganov/whisper.cpp"@ + "/resolve/main/"@);
    reveal_strlit("ggml-");
    let x = normalized_name(a@, BackendType::WhisperCpp);
    let y = normalized_name(b@, BackendType::WhisperCpp);
    let p = "ggml-"@;
    let t = quant_suffix(q) + ".bin"@;
    let fx = whisper_cpp_file(x, q);
    let fy = whisper_cpp_file(y, q);
    assert(fx[0] == 'g' && fy[0] == 'g');
    assert(fx.subrange(p.len() as int, fx.len() - t.len()) =~= x);
    assert(fy.subrange(p.len() as int, fy.len() - t.len()) =~= y);
    if x != y {
        law_relative_paths_keep_apart(models_dir@, fx, fy);
    }
}

proof fn lemma_missing_filtered(
    b: BackendType,
    dir: Seq<char>,
    model: Seq<char>,
    files: Seq<Seq<char>>,
    present: Seq<Seq<char>>,
)
    ensures
        missing_downloads(b, dir, model, files, present) == files.filter(
            |f: Seq<char>| !present.contains(f),
        ).map_values(|f: Seq<char>| (model_url(b, model, f), join_path(dir, f))),
    decreases files.len(),
{
    let keep = |f: Seq<char>| !present.contains(f);
    let entry = |f: Seq<char>| (model_url(b, model, f), join_path(dir, f));
    reveal(Seq::filter);
    if files.len() > 0 {
        lemma_missing_filtered(b, dir, model, files.drop_last(), present);
        let before = files.drop_last().filter(keep);
        assert(is_present(present, files.last()) == present.contains(files.last()));
        assert(before.push(files.last()).map_values(entry) =~= before.map_values(entry).push(
            entry(files.last()),
        ));
    } else {
        assert(files.filter(keep).map_values(entry) =~= Seq::empty());
    }
}

/// What is downloaded is what is missing of a model, file by file: each of its
/// files that is not there yet, under its own name in the model's directory, and
/// no other.
pub proof fn law_downloads_are_what_is_missing(
    b: BackendType,
    dir: Seq<char>,
    model: Seq<char>,
    present: Seq<Seq<char>>,
)
    ensures
        missing_downloads(b, dir, model, required_files(b), present) == required_files(b).filter(
            |f: Seq<char>| !present.contains(f),
        ).map_values(|f: Seq<char>| (model_url(b, model, f), join_path(dir, f))),
{
    lemma_missing_filtered(b, dir, model, required_files(b), present);
}

/// The address of a file names its repository and ends with its name: a Parakeet
/// file comes from the repository that [`parakeet_hf_repo`] names, a Moonshine
/// file from below the model's id.
pub proof fn law_addresses_tell_the_model(model: &str, repo: &'static str, file: Seq<char>)
    requires
        call_ensures(parakeet_hf_repo, (model,), repo),
    ensures
        model_url(BackendType::Parakeet, model@, file) == "https://huggingface.co/"@ + repo@
            + "/resolve/main/"@ + file,
        forall|a: Seq<char>, b: Seq<char>|
            a != b && !a.contains('/') && !b.contains('/') ==> #[trigger] model_url(
                BackendType::Moonshine,
                a,
                file,
            ) != #[trigger] model_url(BackendType::Moonshine, b, file),
{
    assert forall|a: Seq<char>, b: Seq<char>|
        a != b && !a.contains('/') && !b.contains('/') implies #[trigger] model_url(
        BackendType::Moonshine,
        a,
        file,
    ) != #[trigger] model_url(BackendType::Moonshine, b, file) by {
        let net = file == "encoder_model.onnx"@ || file == "decoder_model_merged.onnx"@;
        let x = model_url(BackendType::Moonshine, a, file);
        let y = model_url(BackendType::Moonshine, b, file);
        if net {
            let front = "https://huggingface.co/"@ + "UsefulSensors/moonshine"@
                + "/resolve/main/"@ + "onnx/merged/"@;
            let tail = "/float/"@ + file;
            assert(x =~= front + a + tail);
            assert(y =~= front + b + tail);
            assert((front + a + tail).subrange(
                front.len() as int,
                (front + a + tail).len() - tail.len(),
            ) =~= a);
            assert((front + b + tail).subrange(
                front.len() as int,
                (front + b + tail).len() - tail.len(),
            ) =~= b);
        } else {
            let front = "https://huggingface.co/"@ + "UsefulSensors/moonshine-"@;
            let tail = "/resolve/main/"@ + file;
            assert(x =~= front + a + tail);
            assert(y =~= front + b + tail);
            assert((front + a + tail).subrange(
                front.len() as int,
                (front + a + tail).len() - tail.len(),
            ) =~= a);
            assert((front + b + tail).subrange(
                front.len() as int,
                (front + b + tail).len() - tail.len(),
            ) =~= b);
        }
    }
}

/// Models are kept where `SPEECHCORE_MODEL_DIR` says; else below the cache
/// directory, and where that is not set below the home directory's, as
/// `speechcore/models`.
pub proof fn law_model_directory(env: CacheEnvironment)
    ensures
        env.model_dir matches Some(d) ==> cache_dir(env) == Some(d@),
        env.model_dir is None ==> (env.cache_home matches Some(c) ==> cache_dir(env) == Some(
            join_path(c@, "speechcore/models"@),
        )),
        env.model_dir is None && env.cache_home is None ==> (env.home matches Some(h) ==> cache_dir(
            env,
        ) == Some(join_path(h@, ".cache/speechcore/models"@))),
        cache_dir(env) is None <==> env.model_dir is None && env.cache_home is None && env.home
            is None,
{
    reveal_strlit("speechcore");
    reveal_strlit("models");
    reveal_strlit(".cache");
    reveal_strlit("speechcore/models");
    reveal_strlit(".cache/speechcore/models");
    if let Some(c) = env.cache_home {
        assert(join_path(join_path(c@, "speechcore"@), "models"@) =~= join_path(
            c@,
            "speechcore/models"@,
        ));
    }
    if let Some(h) = env.home {
        assert(join_path(join_path(join_path(h@, ".cache"@), "speechcore"@), "models"@)
            =~= join_path(h@, ".cache/speechcore/models"@));
    }
}

/// A name with an organization, and one that CTranslate2 has no model of its own
/// for, stand for themselves; a name with and without `.en` stand for the same
/// model there, and a name that was normalized stands for itself.
pub proof fn law_normalized_names_settle(name: Seq<char>, b: BackendType)
    ensures
        name.contains('/') ==> normalized_name(name, b) == name,
        b == BackendType::Moonshine || b == BackendType::Parakeet || b == BackendType::Nemotron
            ==> normalized_name(name, b) == name,
        b == BackendType::CTranslate2 ==> normalized_name(normalized_name(name, b), b)
            == normalized_name(name, b),
        b == BackendType::WhisperCpp && !name.contains('/') ==> normalized_name(
            "distil-"@ + name,
            b,
        ) == name,
        ct2_model("tiny"@) == ct2_model("tiny.en"@),
        ct2_model("base"@) == ct2_model("base.en"@),
        ct2_model("small"@) == ct2_model("small.en"@),
        ct2_model("medium"@) == ct2_model("medium.en"@),
        ct2_model("large"@) == ct2_model("large-v3"@),
{
    reveal_strlit("openai/whisper-tiny.en");
    reveal_strlit("openai/whisper-base.en");
    reveal_strlit("distil-whisper/distil-small.en");
    reveal_strlit("distil-whisper/distil-medium.en");
    reveal_strlit("distil-whisper/distil-large-v3");
    reveal_strlit("tiny");
    reveal_strlit("tiny.en");
    reveal_strlit("base");
    reveal_strlit("base.en");
    reveal_strlit("small");
    reveal_strlit("small.en");
    reveal_strlit("medium");
    reveal_strlit("medium.en");
    reveal_strlit("large");
    reveal_strlit("large-v3");
    reveal_strlit("large-v1");
    reveal_strlit("large-v2");
    reveal_strlit("distil-");
    assert("tiny"@[0] == 't');
    assert("tiny.en"@[0] == 't');
    assert("base"@[0] == 'b');
    assert("base.en"@[0] == 'b');
    assert("small"@[0] == 's');
    assert("small.en"@[0] == 's');
    assert("medium"@[0] == 'm');
    assert("medium.en"@[0] == 'm');
    assert("large"@[0] == 'l');
    assert("large-v1"@[0] == 'l');
    assert("large-v2"@[0] == 'l');
    assert("large-v3"@[0] == 'l');
    assert("openai/whisper-tiny.en"@[6] == '/');
    assert("openai/whisper-base.en"@[6] == '/');
    assert("distil-whisper/distil-small.en"@[14] == '/');
    assert("distil-whisper/distil-medium.en"@[14] == '/');
    assert("distil-whisper/distil-large-v3"@[14] == '/');
    let p = "distil-"@;
    assert((p + name).subrange(0, p.len() as int) =~= p);
    assert((p + name).skip(p.len() as int) =~= name);
    if b == BackendType::WhisperCpp && !name.contains('/') {
        assert(!(p + name).contains('/')) by {
            if (p + name).contains('/') {
                let k = choose|k: int| 0 <= k < (p + name).len() && (p + name)[k] == '/';
                if k >= p.len() {
                    assert(name[k - p.len()] == '/');
                    assert(name.contains('/'));
                }
            }
        }
    }
}

/// A converted model is kept under its name without its organization, and models
/// of different such names never share a directory.
pub proof fn law_converted_models_keep_apart(
    a: &str,
    b: &str,
    q: QuantizationLevel,
    models_dir: &str,
    features: BackendFeatures,
    plan_a: ProvisionPlan,
    plan_b: ProvisionPlan,
)
    requires
        call_ensures(
            resolve_model_path,
            (a, BackendType::CTranslate2, q, models_dir, features),
            Ok(plan_a),
        ),
        call_ensures(
            resolve_model_path,
            (b, BackendType::CTranslate2, q, models_dir, features),
            Ok(plan_b),
        ),
    ensures
        ({
            let model = normalized_name(a@, BackendType::CTranslate2);
            plan_a@ == (PlanModel::Convert {
                model,
                dir: join_path(models_dir@, simple_name(model) + "-ct2"@),
            })
        }),
        simple_name(normalized_name(a@, BackendType::CTranslate2)) != simple_name(
            normalized_name(b@, BackendType::CTranslate2),
        ) ==> place_of(plan_a@) != place_of(plan_b@),
{
    reveal_strlit("-ct2");
    let x = simple_name(normalized_name(a@, BackendType::CTranslate2));
    let y = simple_name(normalized_name(b@, BackendType::CTranslate2));
    let t = "-ct2"@;
    lemma_simple_name(normalized_name(a@, BackendType::CTranslate2));
    lemma_simple_name(normalized_name(b@, BackendType::CTranslate2));
    assert((x + t).take((x + t).len() - t.len()) =~= x);
    assert((y + t).take((y + t).len() - t.len()) =~= y);
    if x.len() > 0 {
        assert(x.contains(x[0]));
        assert((x + t)[0] == x[0]);
    }
    if y.len() > 0 {
        assert(y.contains(y[0]));
        assert((y + t)[0] == y[0]);
    }
    if x != y {
        law_relative_paths_keep_apart(models_dir@, x + t, y + t);
    }
}

/// The converter is told the model and where to put it, each right after its
/// option, and to copy the files that a complete model needs besides.
pub proof fn law_converter_is_told_what_to_do(model: Seq<char>, output_dir: Seq<char>)
    ensures
        ({
            let a = converter_arguments(model, output_dir);
            &&& exists|i: int| 0 < i < a.len() && a[i - 1] == "--model"@ && #[trigger] a[i] == model
            &&& exists|i: int|
                0 < i < a.len() && a[i - 1] == "--output_dir"@ && #[trigger] a[i] == output_dir
            &&& a.contains("preprocessor_config.json"@)
            &&& a.contains("tokenizer.json"@)
            &&& ct2_files().contains("preprocessor_config.json"@)
            &&& ct2_files().contains("tokenizer.json"@)
        }),
{
    let a = converter_arguments(model, output_dir);
    assert(a[2] == model);
    assert(a[4] == output_dir);
    assert(a[6] == "preprocessor_config.json"@);
    assert(a[7] == "tokenizer.json"@);
    assert(ct2_files()[2] == "tokenizer.json"@);
    assert(ct2_files()[3] == "preprocessor_config.json"@);
}

/// The command line has the arguments one after the other, each quoted.
pub proof fn law_command_line_quotes_each_argument(model: Seq<char>, output_dir: Seq<char>)
    ensures
        ({
            let a = converter_arguments(model, output_dir);
            conversion_line(model, output_dir) == "ct2-transformers-converter "@ + join(
                Seq::new(a.len(), |i: int| quoted(a[i])),
                seq![' '],
            )
        }),
{
    let a = converter_arguments(model, output_dir);
    assert(all_quoted(a) =~= Seq::new(a.len(), |i: int| quoted(a[i])));
}

/// The Nemotron model has a directory and a repository of its own.
pub proof fn law_nemotron_model_has_its_place(
    name: Seq<char>,
    q: QuantizationLevel,
    models_dir: Seq<char>,
    file: Seq<char>,
)
    ensures
        provision(BackendType::Nemotron, name, q, models_dir) == (PlanModel::Directory {
            model: name,
            dir: join_path(models_dir, "nemotron-3.5-asr-streaming-0.6b-int4"@),
        }),
        model_url(BackendType::Nemotron, name, file) == "https://huggingface.co/"@
            + "onnx-community/nemotron-3.5-asr-streaming-0.6b-onnx-int4"@ + "/resolve/main/"@
            + file,
{
}

/// A Moonshine model is planned under its id, in the directory that
/// [`moonshine_model_dir`] says, and models of different ids never share one.
pub proof fn law_moonshine_plans_go_by_id(
    a: &str,
    b: &str,
    q: QuantizationLevel,
    models_dir: &str,
    features: BackendFeatures,
    id_a: String,
    id_b: String,
    dir_a: String,
    plan_a: ProvisionPlan,
    plan_b: ProvisionPlan,
)
    requires
        call_ensures(moonshine_model_id, (a,), id_a),
        call_ensures(moonshine_model_id, (b,), id_b),
        dir_a@ == moonshine_dir(models_dir@, id_a@),
        call_ensures(
            resolve_model_path,
            (a, BackendType::Moonshine, q, models_dir, features),
            Ok(plan_a),
        ),
        call_ensures(
            resolve_model_path,
            (b, BackendType::Moonshine, q, models_dir, features),
            Ok(plan_b),
        ),
    ensures
        plan_a@ == (PlanModel::Directory { model: id_a@, dir: dir_a@ }),
        id_a@ != id_b@ ==> place_of(plan_a@) != place_of(plan_b@),
{
    if id_a@ != id_b@ {
        law_moonshine_models_keep_apart(models_dir@, id_a@, id_b@);
    }
}

/// The id of a Moonshine model is its name without the organization and without
/// `moonshine-`, whichever of them it is given with.
pub proof fn law_moonshine_ids(organization: Seq<char>, id: Seq<char>)
    requires
        !id.contains('/'),
    ensures
        !starts_with(id, "moonshine-"@) ==> moonshine_id(id) == id,
        moonshine_id("moonshine-"@ + id) == id,
        moonshine_id(organization.push('/') + ("moonshine-"@ + id)) == id,
{
    reveal_strlit("moonshine-");
    let p = "moonshine-"@;
    let name = p + id;
    assert(!name.contains('/')) by {
        if name.contains('/') {
            let k = choose|k: int| 0 <= k < name.len() && name[k] == '/';
            if k >= p.len() {
                assert(id[k - p.len()] == '/');
                assert(id.contains('/'));
            }
        }
    }
    law_simple_name(organization, name);
    law_simple_name(organization, id);
    assert(name.subrange(0, p.len() as int) =~= p);
    assert(name.skip(p.len() as int) =~= id);
}

} // verus!
