//! Choosing and checking what a backend is created from.

use vstd::prelude::*;

use crate::backend::files::{has_file, is_present};
use crate::backend::moonshine::model::{moonshine_fault, MoonshineModel};
use crate::backend::nemotron::model::{nemotron_fault, NemotronModel};
use crate::backend::parakeet::model::{parakeet_fault, ParakeetModel};
use crate::backend::traits::{outcome_is, ErrorModel, TranscriptionError};
use crate::backend::{
    backend_text, has_backend, BackendFeatures, BackendType, QuantizationLevel,
};
use crate::download::{all_present, required_files};
use crate::text::chars::{ascii_digit, is_ascii_digit};
use crate::text::paths::{
    extension, file_name, file_stem, join_path, last_name, path_extension, path_file_stem, stem,
};
use crate::text::strings::{
    chars_of, concat, concat3, last_index_of, last_occurrence, lemma_last_index_before,
    lemma_last_occurrence, occurs_at, position_of_last_str, starts_with,
    str_eq, string_of_range, strip_prefix, views, without_prefix,
};

verus! {

/// The name of the build feature that a backend comes with.
pub open spec fn feature_name(b: BackendType) -> Seq<char> {
    match b {
        BackendType::CTranslate2 => "backend-ctranslate2"@,
        BackendType::WhisperCpp => "backend-whisper-cpp"@,
        BackendType::Moonshine => "backend-moonshine"@,
        BackendType::Parakeet => "backend-parakeet"@,
        BackendType::Nemotron => "backend-nemotron"@,
    }
}

/// The error that a backend was not built.
pub open spec fn disabled_error(b: BackendType) -> ErrorModel {
    ErrorModel::BackendNotImplemented(
        backend_text(b) + " backend is disabled; enable speechcore feature `"@ + feature_name(b)
            + "`"@,
    )
}

/// The name of the build feature that a backend comes with.
pub fn backend_feature(b: BackendType) -> (r: String)
    ensures
        r@ == feature_name(b),
{
    match b {
        BackendType::CTranslate2 => "backend-ctranslate2".to_owned(),
        BackendType::WhisperCpp => "backend-whisper-cpp".to_owned(),
        BackendType::Moonshine => "backend-moonshine".to_owned(),
        BackendType::Parakeet => "backend-parakeet".to_owned(),
        BackendType::Nemotron => "backend-nemotron".to_owned(),
    }
}

/// The error that a backend was not built.
pub fn disabled_backend_error(backend: BackendType) -> (r: TranscriptionError)
    ensures
        r@ == disabled_error(backend),
{
    let start = concat(
        backend.to_string().as_str(),
        " backend is disabled; enable speechcore feature `",
    );
    TranscriptionError::BackendNotImplemented(
        concat3(start.as_str(), backend_feature(backend).as_str(), "`"),
    )
}

/// What is to be done to create a backend.
#[derive(Debug)]
pub enum CreatePlan {
    /// Load the model.
    Load,
    /// Download the whisper.cpp model of this name, then load it.
    DownloadAndLoad(String),
}

/// The name of a whisper.cpp model without what its quantization adds: the
/// last `-q` and all after it, where a digit follows.
pub open spec fn without_quantization(name: Seq<char>) -> Seq<char> {
    match last_occurrence(name, "-q"@) {
        Some(i) => if i + 2 < name.len() && ascii_digit(name[i + 2]) {
            name.take(i)
        } else {
            name
        },
        None => name,
    }
}

/// The name of the whisper.cpp model in a file.
pub open spec fn whisper_cpp_name(path: Seq<char>) -> Option<Seq<char>> {
    match file_stem(path) {
        Some(stem) => Some(
            without_quantization(
                match strip_prefix(stem, "ggml-"@) {
                    Some(rest) => rest,
                    None => stem,
                },
            ),
        ),
        None => None,
    }
}

/// The error that a path has no file name.
pub open spec fn invalid_path(path: Seq<char>) -> ErrorModel {
    ErrorModel::ConfigurationError("Invalid model path: "@ + path)
}

/// Extracts the model's name from a whisper.cpp model path.
pub fn extract_whisper_cpp_model_name(path: &str) -> (r: Result<String, TranscriptionError>)
    ensures
        match whisper_cpp_name(path@) {
            Some(name) => r matches Ok(n) && n@ == name,
            None => r matches Err(e) && e@ == invalid_path(path@),
        },
{
    let stem = match path_file_stem(path) {
        Some(stem) => stem,
        None => return Err(
            TranscriptionError::ConfigurationError(concat("Invalid model path: ", path)),
        ),
    };
    let name = match without_prefix(stem.as_str(), "ggml-") {
        Some(rest) => rest,
        None => stem,
    };
    proof {
        reveal_strlit("-q");
    }
    match position_of_last_str(name.as_str(), "-q") {
        Some(i) => {
            let chars = chars_of(name.as_str());
            if chars.len() - i > 2 && is_ascii_digit(chars[i + 2]) {
                let t = string_of_range(&chars, 0, i);
                assert(t@ =~= name@.take(i as int));
                Ok(t)
            } else {
                Ok(name)
            }
        },
        None => Ok(name),
    }
}

/// Decides how a backend is created: refused where it was not built; a
/// whisper.cpp model that is not there is downloaded first.
pub fn create_backend(
    backend_type: BackendType,
    model_path: &str,
    model_exists: bool,
    features: BackendFeatures,
) -> (r: Result<CreatePlan, TranscriptionError>)
    ensures
        ({
            let download = backend_type == BackendType::WhisperCpp && !model_exists;
            if !has_backend(features, backend_type) {
                r matches Err(e) && e@ == disabled_error(backend_type)
            } else if download && whisper_cpp_name(model_path@) is None {
                r matches Err(e) && e@ == invalid_path(model_path@)
            } else if download {
                r matches Ok(CreatePlan::DownloadAndLoad(name)) && Some(name@) == whisper_cpp_name(
                    model_path@,
                )
            } else {
                r matches Ok(plan) && plan is Load
            }
        }),
{
    if !features.has(backend_type) {
        return Err(disabled_backend_error(backend_type));
    }
    if backend_type == BackendType::WhisperCpp && !model_exists {
        match extract_whisper_cpp_model_name(model_path) {
            Ok(name) => Ok(CreatePlan::DownloadAndLoad(name)),
            Err(e) => Err(e),
        }
    } else {
        Ok(CreatePlan::Load)
    }
}

/// The error that a whisper.cpp model cannot be downloaded.
pub fn download_error(reason: &str) -> (r: TranscriptionError)
    ensures
        r@ == ErrorModel::ModelNotAvailable("Failed to download whisper.cpp model: "@ + reason@),
{
    TranscriptionError::ModelNotAvailable(concat("Failed to download whisper.cpp model: ", reason))
}

/// What is found at a model path.
#[derive(Debug, Clone)]
pub struct ModelFacts {
    pub exists: bool,
    pub is_dir: bool,
    pub is_file: bool,
    /// The files in the directory, where it is one.
    pub present: Vec<String>,
}

/// Why a path is no model of a backend, if it is not.
pub open spec fn path_fault(
    backend: BackendType,
    path: Seq<char>,
    facts: ModelFacts,
    features: BackendFeatures,
) -> Option<ErrorModel> {
    let present = views(facts.present@);
    if !facts.exists {
        Some(ErrorModel::IoError("Model path does not exist: "@ + path))
    } else if !has_backend(features, backend) {
        Some(disabled_error(backend))
    } else {
        match backend {
            BackendType::CTranslate2 => if !facts.is_dir {
                Some(
                    ErrorModel::ConfigurationError(
                        "CTranslate2 models must be directories containing model files"@,
                    ),
                )
            } else if !is_present(present, "model.bin"@) {
                Some(
                    ErrorModel::ConfigurationError(
                        "CTranslate2 model directory missing model.bin file"@,
                    ),
                )
            } else {
                None
            },
            BackendType::WhisperCpp => if !facts.is_file {
                Some(
                    ErrorModel::ConfigurationError(
                        "whisper.cpp models must be .bin files in GGML format"@,
                    ),
                )
            } else if extension(path) != Some("bin"@) {
                Some(
                    ErrorModel::ConfigurationError("whisper.cpp models must have .bin extension"@),
                )
            } else {
                None
            },
            BackendType::Parakeet => if !facts.is_dir {
                Some(ErrorModel::ConfigurationError("Parakeet models must be directories"@))
            } else {
                in_directory("Parakeet model directory invalid: "@, parakeet_fault(present))
            },
            BackendType::Moonshine => if !facts.is_dir {
                Some(ErrorModel::ConfigurationError("Moonshine models must be directories"@))
            } else {
                in_directory("Moonshine model directory invalid: "@, moonshine_fault(path, present))
            },
            BackendType::Nemotron => if !facts.is_dir {
                Some(ErrorModel::ConfigurationError("Nemotron models must be directories"@))
            } else {
                in_directory("Nemotron model directory invalid: "@, nemotron_fault(present))
            },
        }
    }
}

/// The error that a model directory is at fault, if it is.
pub open spec fn in_directory(what: Seq<char>, fault: Option<Seq<char>>) -> Option<ErrorModel> {
    match fault {
        Some(m) => Some(ErrorModel::ConfigurationError(what + m)),
        None => None,
    }
}

fn directory_error(what: &str, result: Result<(), String>) -> (r: Result<(), TranscriptionError>)
    ensures
        match result {
            Ok(_) => r is Ok,
            Err(m) => r matches Err(e) && e@ == ErrorModel::ConfigurationError(what@ + m@),
        },
{
    match result {
        Ok(_) => Ok(()),
        Err(m) => Err(TranscriptionError::ConfigurationError(concat(what, m.as_str()))),
    }
}

fn configuration_error(text: &str) -> (r: Result<(), TranscriptionError>)
    ensures
        r matches Err(e) && e@ == ErrorModel::ConfigurationError(text@),
{
    Err(TranscriptionError::ConfigurationError(text.to_owned()))
}

/// Checks that a path holds a model of a backend.
pub fn validate_model_path(
    backend_type: BackendType,
    path: &str,
    facts: &ModelFacts,
    features: BackendFeatures,
) -> (r: Result<(), TranscriptionError>)
    ensures
        outcome_is(r, path_fault(backend_type, path@, *facts, features)),
{
    if !facts.exists {
        return Err(TranscriptionError::IoError(concat("Model path does not exist: ", path)));
    }
    if !features.has(backend_type) {
        return Err(disabled_backend_error(backend_type));
    }
    match backend_type {
        BackendType::CTranslate2 => {
            if !facts.is_dir {
                return configuration_error(
                    "CTranslate2 models must be directories containing model files",
                );
            }
            if !has_file(&facts.present, "model.bin") {
                return configuration_error("CTranslate2 model directory missing model.bin file");
            }
            Ok(())
        },
        BackendType::WhisperCpp => {
            if !facts.is_file {
                return configuration_error("whisper.cpp models must be .bin files in GGML format");
            }
            let bin = match path_extension(path) {
                Some(e) => str_eq(e.as_str(), "bin"),
                None => false,
            };
            if !bin {
                return configuration_error("whisper.cpp models must have .bin extension");
            }
            Ok(())
        },
        BackendType::Parakeet => {
            if !facts.is_dir {
                return configuration_error("Parakeet models must be directories");
            }
            directory_error(
                "Parakeet model directory invalid: ",
                ParakeetModel::validate_model_dir(&facts.present),
            )
        },
        BackendType::Moonshine => {
            if !facts.is_dir {
                return configuration_error("Moonshine models must be directories");
            }
            directory_error(
                "Moonshine model directory invalid: ",
                MoonshineModel::validate_model_dir(path, &facts.present),
            )
        },
        BackendType::Nemotron => {
            if !facts.is_dir {
                return configuration_error("Nemotron models must be directories");
            }
            directory_error(
                "Nemotron model directory invalid: ",
                NemotronModel::validate_model_dir(&facts.present),
            )
        },
    }
}

/// What a quantization level adds to the name of a whisper.cpp model file.
pub open spec fn quant_suffix(q: QuantizationLevel) -> Seq<char> {
    match q {
        QuantizationLevel::High => ""@,
        QuantizationLevel::Medium => "-q8_0"@,
        QuantizationLevel::Low => "-q5_1"@,
    }
}

/// The name of a whisper.cpp model file.
pub open spec fn whisper_cpp_file(model: Seq<char>, q: QuantizationLevel) -> Seq<char> {
    "ggml-"@ + model + quant_suffix(q) + ".bin"@
}

/// The name of a whisper.cpp model file.
pub fn whisper_cpp_filename(model_name: &str, quantization: QuantizationLevel) -> (r: String)
    ensures
        r@ == whisper_cpp_file(model_name@, quantization),
{
    let suffix = match quantization {
        QuantizationLevel::High => "",
        QuantizationLevel::Medium => "-q8_0",
        QuantizationLevel::Low => "-q5_1",
    };
    concat(concat3("ggml-", model_name, suffix).as_str(), ".bin")
}

/// The file name of a name joined to a directory is that name.
pub proof fn lemma_path_name(dir: Seq<char>, name: Seq<char>)
    requires
        name.len() > 2,
        !name.contains('/'),
    ensures
        file_name(join_path(dir, name)) == Some(name),
{
    assert(name.contains(name[0]));
    let base = if dir.len() == 0 || dir.last() == '/' { dir } else { dir.push('/') };
    let path = join_path(dir, name);
    assert(path == base + name);
    lemma_last_index_before(base, name, '/');
    assert(path.skip(base.len() as int) =~= name);
    if base.len() == 0 {
        assert(path =~= name);
        assert(last_index_of(base, '/') is None);
    } else {
        assert(last_index_of(base, '/') == Some(base.len() - 1));
    }
    assert(last_name(path) == Some(name));
}

proof fn lemma_quantized(model: Seq<char>, suffix: Seq<char>)
    requires
        suffix.len() == 5,
        suffix[0] == '-',
        suffix[1] == 'q',
        ascii_digit(suffix[2]),
        suffix[3] == '_',
        ascii_digit(suffix[4]),
    ensures
        without_quantization(model + suffix) == model,
{
    let s = model + suffix;
    let n = model.len() as int;
    reveal_strlit("-q");
    assert(s.subrange(n, n + 2) =~= "-q"@);
    assert forall|j: int| n < j <= s.len() - 2 implies !occurs_at(s, "-q"@, j) by {
        if occurs_at(s, "-q"@, j) {
            assert(s.subrange(j, j + 2)[0] == s[j]);
            assert("-q"@[0] == '-');
            assert(s[j] == suffix[j - n]);
        }
    }
    lemma_last_occurrence(s, "-q"@, n, s.len() - 2);
    assert(s.take(n) =~= model);
}

/// A model's name can be told from the path of its file, whatever the
/// directory and the quantization. The own name of an unquantized model must
/// not look quantized: no digit follows the last `-q` in it.
pub proof fn law_model_name_is_told_from_its_file(
    dir: Seq<char>,
    model: Seq<char>,
    q: QuantizationLevel,
)
    requires
        !model.contains('/'),
        q == QuantizationLevel::High ==> (last_occurrence(model, "-q"@) matches Some(i) ==> !(i + 2
            < model.len() && ascii_digit(model[i + 2]))),
    ensures
        whisper_cpp_name(join_path(dir, whisper_cpp_file(model, q))) == Some(model),
{
    reveal_strlit("ggml-");
    reveal_strlit(".bin");
    reveal_strlit("");
    reveal_strlit("-q8_0");
    reveal_strlit("-q5_1");
    let suffix = quant_suffix(q);
    let head = "ggml-"@ + model + suffix;
    let file = whisper_cpp_file(model, q);
    assert(!file.contains('/')) by {
        if file.contains('/') {
            let k = choose|k: int| 0 <= k < file.len() && file[k] == '/';
            if 5 <= k < 5 + model.len() {
                assert(model[k - 5] == '/');
            }
        }
    }
    lemma_path_name(dir, file);
    let dotted = head.push('.');
    let ext = seq!['b', 'i', 'n'];
    assert(file =~= dotted + ext);
    assert(!ext.contains('.'));
    lemma_last_index_before(dotted, ext, '.');
    assert(last_index_of(dotted, '.') == Some(head.len() as int));
    assert(file.take(head.len() as int) =~= head);
    assert(stem(file) == head);
    assert(head.subrange(0, 5) =~= "ggml-"@);
    assert(starts_with(head, "ggml-"@));
    assert(head.skip(5) =~= model + suffix);
    match q {
        QuantizationLevel::High => {
            assert(model + suffix =~= model);
        },
        _ => {
            lemma_quantized(model, suffix);
        },
    }
}

/// A path is a model of a backend exactly where the backend was built and what
/// it needs is there: a directory with the backend's files, or for whisper.cpp a
/// file whose name ends in `.bin`.
pub proof fn law_valid_paths_are_models(
    backend: BackendType,
    path: Seq<char>,
    facts: ModelFacts,
    features: BackendFeatures,
)
    ensures
        ({
            let has = |f: Seq<char>| views(facts.present@).contains(f);
            path_fault(backend, path, facts, features) is None <==> facts.exists && has_backend(
                features,
                backend,
            ) && match backend {
                BackendType::CTranslate2 => facts.is_dir && has("model.bin"@),
                BackendType::WhisperCpp => facts.is_file && extension(path) == Some("bin"@),
                BackendType::Parakeet => {
                    &&& facts.is_dir
                    &&& has("encoder.int8.onnx"@) || has("encoder.onnx"@)
                    &&& has("decoder.int8.onnx"@) || has("decoder.onnx"@)
                    &&& has("joiner.int8.onnx"@) || has("joiner.onnx"@)
                    &&& has("tokens.txt"@)
                },
                BackendType::Moonshine => {
                    &&& facts.is_dir
                    &&& has("tokenizer.json"@)
                    &&& if has("encoder_model.onnx"@) && has("decoder_model_merged.onnx"@) {
                        has("preprocessor_config.json"@)
                    } else {
                        has("preprocess.onnx"@) && has("encode.onnx"@) && has(
                            "uncached_decode.onnx"@,
                        )
                    }
                },
                BackendType::Nemotron => {
                    &&& facts.is_dir
                    &&& has("encoder.onnx"@) && has("decoder.onnx"@) && has("joint.onnx"@)
                    &&& has("vocab.txt"@)
                },
            }
        }),
{
}

/// A directory in which every file of a backend's model is there is a model of
/// that backend.
pub proof fn law_complete_models_are_valid(
    backend: BackendType,
    path: Seq<char>,
    facts: ModelFacts,
    features: BackendFeatures,
)
    requires
        backend != BackendType::WhisperCpp,
        has_backend(features, backend),
        facts.exists,
        facts.is_dir,
        all_present(required_files(backend), views(facts.present@)),
    ensures
        path_fault(backend, path, facts, features) is None,
{
    let files = required_files(backend);
    assert forall|i: int| 0 <= i < files.len() implies is_present(
        views(facts.present@),
        #[trigger] files[i],
    ) by {}
    assert(is_present(views(facts.present@), files[0]));
    assert(is_present(views(facts.present@), files[1]));
    assert(is_present(views(facts.present@), files[2]));
    assert(is_present(views(facts.present@), files[3]));
    if backend == BackendType::Nemotron {
        assert(is_present(views(facts.present@), files[4]));
        assert(is_present(views(facts.present@), files[6]));
    }
}

/// The name of a model is what stands between `ggml-` and its quantization: a
/// name that holds neither is told as it is.
pub proof fn law_quantization_is_cut_off(name: Seq<char>, tail: Seq<char>, digit: char)
    requires
        ascii_digit(digit),
        forall|i: int|
            name.len() < i ==> !occurs_at(name + "-q"@ + seq![digit] + tail, "-q"@, i),
    ensures
        without_quantization(name + "-q"@ + seq![digit] + tail) == name,
{
    reveal_strlit("-q");
    let all = name + "-q"@ + seq![digit] + tail;
    let i = name.len() as int;
    assert(all.subrange(i, i + 2) =~= "-q"@);
    assert(occurs_at(all, "-q"@, i));
    lemma_last_occurrence(all, "-q"@, i, all.len() - 2);
    assert(all[i + 2] == digit);
    assert(all.take(i) =~= name);
}

/// A model's file is named by the model, and by its quantization unless it is in
/// full precision; so a quantized file is never taken for another.
pub proof fn law_files_are_named_by_quantization(model: Seq<char>, a: QuantizationLevel, b:
    QuantizationLevel)
    ensures
        whisper_cpp_file(model, QuantizationLevel::High) == "ggml-"@ + model + ".bin"@,
        whisper_cpp_file(model, QuantizationLevel::Medium) == "ggml-"@ + model + "-q8_0.bin"@,
        whisper_cpp_file(model, QuantizationLevel::Low) == "ggml-"@ + model + "-q5_1.bin"@,
        a != b ==> whisper_cpp_file(model, a) != whisper_cpp_file(model, b),
{
    reveal_strlit("");
    reveal_strlit("-q8_0");
    reveal_strlit("-q5_1");
    reveal_strlit(".bin");
    reveal_strlit("-q8_0.bin");
    reveal_strlit("-q5_1.bin");
    let front = "ggml-"@ + model;
    assert(whisper_cpp_file(model, QuantizationLevel::High) =~= front + ".bin"@);
    assert(whisper_cpp_file(model, QuantizationLevel::Medium) =~= front + "-q8_0.bin"@);
    assert(whisper_cpp_file(model, QuantizationLevel::Low) =~= front + "-q5_1.bin"@);
    assert((front + "-q8_0.bin"@)[front.len() as int + 2] == '8');
    assert((front + "-q5_1.bin"@)[front.len() as int + 2] == '5');
    assert((front + ".bin"@).len() == front.len() + 4);
}

/// A file in a directory is known by its name: what stands before the last dot
/// is its stem, and what follows it its extension.
pub proof fn law_file_names_come_apart(dir: Seq<char>, name: Seq<char>, ext: Seq<char>)
    requires
        name.len() > 0,
        name.len() + ext.len() >= 2,
        !name.contains('/'),
        !ext.contains('/'),
        !ext.contains('.'),
    ensures
        ({
            let path = join_path(dir, name.push('.') + ext);
            &&& file_name(path) == Some(name.push('.') + ext)
            &&& file_stem(path) == Some(name)
            &&& extension(path) == Some(ext)
        }),
{
    let file = name.push('.') + ext;
    assert(!file.contains('/')) by {
        if file.contains('/') {
            let k = choose|k: int| 0 <= k < file.len() && file[k] == '/';
            if k < name.len() {
                assert(name[k] == '/');
                assert(name.contains('/'));
            } else if k > name.len() {
                assert(ext[k - name.len() - 1] == '/');
                assert(ext.contains('/'));
            }
        }
    }
    lemma_path_name(dir, file);
    lemma_last_index_before(name.push('.'), ext, '.');
    assert(file.take(name.len() as int) =~= name);
    assert(file.skip(name.len() as int + 1) =~= ext);
}

/// A backend that was not built is never created; a whisper.cpp model that is
/// not there is downloaded, by the name that its path tells; and any other is
/// loaded as it is.
pub proof fn law_creation_downloads_only_what_is_missing(
    backend: BackendType,
    path: &str,
    exists_there: bool,
    features: BackendFeatures,
    r: Result<CreatePlan, TranscriptionError>,
)
    requires
        call_ensures(create_backend, (backend, path, exists_there, features), r),
    ensures
        !has_backend(features, backend) ==> r is Err,
        has_backend(features, backend) && (exists_there || backend != BackendType::WhisperCpp)
            ==> (r matches Ok(plan) && plan is Load),
        r matches Ok(CreatePlan::DownloadAndLoad(name)) ==> backend == BackendType::WhisperCpp
            && !exists_there && whisper_cpp_name(path@) == Some(name@),
        has_backend(features, backend) && backend == BackendType::WhisperCpp && !exists_there ==> (
        r is Ok <==> whisper_cpp_name(path@) is Some),
{
}

} // verus!
