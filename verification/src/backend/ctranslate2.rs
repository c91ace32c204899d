//! CTranslate2 backend: its configuration.

use vstd::prelude::*;

use crate::backend::{
    capped_threads, cpu_count, threads_for, BackendCapabilities, BackendConfig, BackendType,
    QuantizationLevel,
};
use crate::text::chars::{all_ascii, ascii_uppercase, to_uppercase_text, uppercase_text};
use crate::text::strings::{
    contains, contains_str, lemma_same_upper_case, same_ignoring_ascii_case, str_eq,
};

verus! {

/// Where CTranslate2 computes.
#[derive(Debug, Clone, Copy, PartialEq, Eq, Structural)]
pub enum Device {
    CPU,
    CUDA,
}

/// The number format CTranslate2 computes in.
#[derive(Debug, Clone, Copy, PartialEq, Eq, Structural)]
pub enum ComputeType {
    FLOAT16,
    INT8,
}

/// CTranslate2's own configuration.
#[derive(Debug, Clone)]
pub struct Config {
    pub device: Device,
    pub device_indices: Vec<i32>,
    pub compute_type: ComputeType,
    pub tensor_parallel: bool,
    pub num_threads_per_replica: usize,
    /// Zero leaves the limit to the engine.
    pub max_queued_batches: i32,
    /// A negative offset leaves placement to the engine.
    pub cpu_core_offset: i32,
}

/// Options of a CTranslate2 transcription. Those of type `P` are only carried.
#[derive(Debug, Clone, Copy)]
pub struct WhisperOptions<P> {
    pub beam_size: usize,
    pub patience: P,
    pub repetition_penalty: P,
}

/// CTranslate2 backend.
#[derive(Debug, Clone)]
pub struct CT2Backend {
    /// Configuration used to create this backend.
    pub config: BackendConfig,
}

impl CT2Backend {
    /// Maps the backend-agnostic configuration to CTranslate2's.
    pub fn map_config(backend_config: &BackendConfig) -> (r: Config)
        ensures
            r.device == (if backend_config.gpu_enabled { Device::CUDA } else { Device::CPU }),
            r.device_indices@ == seq![0i32],
            r.compute_type == (if backend_config.quantization_level == QuantizationLevel::High {
                ComputeType::FLOAT16
            } else {
                ComputeType::INT8
            }),
            !r.tensor_parallel,
            r.num_threads_per_replica == backend_config.threads,
            r.max_queued_batches == 0,
            r.cpu_core_offset == -1,
    {
        let device = if backend_config.gpu_enabled { Device::CUDA } else { Device::CPU };
        let compute_type = match backend_config.quantization_level {
            QuantizationLevel::High => ComputeType::FLOAT16,
            QuantizationLevel::Medium => ComputeType::INT8,
            QuantizationLevel::Low => ComputeType::INT8,
        };
        let mut device_indices: Vec<i32> = Vec::new();
        device_indices.push(0);
        Config {
            device,
            device_indices,
            compute_type,
            tensor_parallel: false,
            num_threads_per_replica: backend_config.threads,
            max_queued_batches: 0,
            cpu_core_offset: -1,
        }
    }

    /// What the backend can do: segments of up to a minute, any language.
    pub fn capabilities(&self) -> (r: BackendCapabilities)
        ensures
            r.name@ == "CTranslate2"@,
            r.max_audio_duration == Some(60u32),
            r.supported_languages is None,
            !r.supports_streaming,
            r.gpu_available == self.config.gpu_enabled,
    {
        BackendCapabilities {
            name: "CTranslate2",
            max_audio_duration: Some(60),
            supported_languages: None,
            supports_streaming: false,
            gpu_available: self.config.gpu_enabled,
        }
    }

    /// The transcript: the first of the texts generated, if any.
    pub fn transcript(results: &Vec<String>) -> (r: String)
        ensures
            r@ == (if results@.len() == 0 {
                Seq::<char>::empty()
            } else {
                results@[0]@
            }),
    {
        if results.len() == 0 {
            let r = String::new();
            assert(r@ =~= Seq::empty());
            r
        } else {
            results[0].clone()
        }
    }
}

/// The quantization level that a legacy compute type stands for.
pub open spec fn legacy_level(compute_type: Seq<char>) -> QuantizationLevel {
    let name = uppercase_text(compute_type);
    if name == "FLOAT32"@ || name == "FLOAT16"@ || name == "AUTO"@ {
        QuantizationLevel::High
    } else if name == "INT16"@ {
        QuantizationLevel::Low
    } else {
        QuantizationLevel::Medium
    }
}

/// Whether a legacy device name stands for a GPU.
pub open spec fn legacy_gpu(device: Seq<char>) -> bool {
    contains(uppercase_text(device), "CUDA"@) || contains(uppercase_text(device), "GPU"@)
}

/// The configuration that legacy fields stand for.
pub open spec fn legacy_config(
    compute_type: Seq<char>,
    device: Seq<char>,
    threads: usize,
) -> BackendConfig {
    BackendConfig {
        backend: BackendType::CTranslate2,
        threads,
        gpu_enabled: legacy_gpu(device),
        quantization_level: legacy_level(compute_type),
    }
}

/// The configuration that legacy fields stand for on a machine with `cpus`
/// CPUs: without a number of threads, one per CPU and at most four.
pub open spec fn legacy_config_on(
    compute_type: Seq<char>,
    device: Seq<char>,
    threads: Option<usize>,
    cpus: usize,
) -> BackendConfig {
    legacy_config(
        compute_type,
        device,
        match threads {
            Some(n) => n,
            None => threads_for(cpus),
        },
    )
}

/// What legacy fields in ASCII stand for, field by field: a compute type is
/// High, Low or Medium by its name, and a device is a GPU where CUDA or GPU
/// occurs in its name, all in upper case.
pub proof fn law_legacy_fields(
    compute_type: Seq<char>,
    device: Seq<char>,
    threads: Option<usize>,
    cpus: usize,
)
    requires
        all_ascii(compute_type),
        all_ascii(device),
    ensures
        ({
            let config = legacy_config_on(compute_type, device, threads, cpus);
            let name = ascii_uppercase(compute_type);
            let high = name == "FLOAT32"@ || name == "FLOAT16"@ || name == "AUTO"@;
            &&& config.backend == BackendType::CTranslate2
            &&& config.quantization_level == QuantizationLevel::High <==> high
            &&& config.quantization_level == QuantizationLevel::Low <==> name == "INT16"@
            &&& config.quantization_level == QuantizationLevel::Medium <==> !high && name
                != "INT16"@
            &&& config.gpu_enabled == (contains(ascii_uppercase(device), "CUDA"@) || contains(
                ascii_uppercase(device),
                "GPU"@,
            ))
            &&& config.threads == (match threads {
                Some(n) => n,
                None => threads_for(cpus),
            })
        }),
{
    reveal_strlit("INT16");
    reveal_strlit("AUTO");
    reveal_strlit("FLOAT16");
    reveal_strlit("FLOAT32");
    let name = ascii_uppercase(compute_type);
    if name == "INT16"@ {
        assert(name[0] == 'I');
        assert("AUTO"@[0] == 'A');
        assert("FLOAT16"@[0] == 'F');
        assert("FLOAT32"@[0] == 'F');
    }
}

/// What legacy fields in ASCII stand for does not change with the case of
/// their letters.
pub proof fn law_legacy_case_does_not_matter(
    compute_type: Seq<char>,
    other_type: Seq<char>,
    device: Seq<char>,
    other_device: Seq<char>,
    threads: Option<usize>,
    cpus: usize,
)
    requires
        all_ascii(compute_type),
        all_ascii(other_type),
        all_ascii(device),
        all_ascii(other_device),
        same_ignoring_ascii_case(compute_type, other_type),
        same_ignoring_ascii_case(device, other_device),
    ensures
        legacy_config_on(compute_type, device, threads, cpus) == legacy_config_on(
            other_type,
            other_device,
            threads,
            cpus,
        ),
{
    lemma_same_upper_case(compute_type, other_type);
    lemma_same_upper_case(device, other_device);
}

/// Legacy configuration migration, on a machine with `cpus` CPUs.
pub fn migrate_legacy_config_on(
    compute_type: &str,
    device: &str,
    threads: Option<usize>,
    cpus: usize,
) -> (r: BackendConfig)
    ensures
        r == legacy_config_on(compute_type@, device@, threads, cpus),
{
    let name = to_uppercase_text(compute_type);
    let quantization_level = if str_eq(name.as_str(), "FLOAT32") || str_eq(name.as_str(), "FLOAT16")
        || str_eq(name.as_str(), "AUTO") {
        QuantizationLevel::High
    } else if str_eq(name.as_str(), "INT16") {
        QuantizationLevel::Low
    } else {
        QuantizationLevel::Medium
    };
    proof {
        reveal_strlit("INT16");
        reveal_strlit("AUTO");
        reveal_strlit("FLOAT16");
        reveal_strlit("FLOAT32");
    }
    let device_name = to_uppercase_text(device);
    let gpu_enabled = contains_str(device_name.as_str(), "CUDA") || contains_str(
        device_name.as_str(),
        "GPU",
    );
    BackendConfig {
        backend: BackendType::CTranslate2,
        threads: match threads {
            Some(n) => n,
            None => capped_threads(cpus),
        },
        gpu_enabled,
        quantization_level,
    }
}

/// Legacy configuration migration on this machine: without a number of
/// threads, one per CPU and at most four.
pub fn migrate_legacy_config(compute_type: &str, device: &str, threads: Option<usize>) -> (r:
    BackendConfig)
    ensures
        threads matches Some(n) ==> r == legacy_config(compute_type@, device@, n),
        exists|cpus: usize|
            cpus >= 1 && r == #[trigger] legacy_config_on(compute_type@, device@, threads, cpus),
{
    migrate_legacy_config_on(compute_type, device, threads, cpu_count())
}

/// CTranslate2 computes on the GPU exactly where it is enabled, with the threads
/// that were configured, and in half precision only at the highest level.
pub proof fn law_configuration_is_mapped(config: &BackendConfig, r: Config)
    requires
        call_ensures(CT2Backend::map_config, (config,), r),
    ensures
        r.device == Device::CUDA <==> config.gpu_enabled,
        r.compute_type == ComputeType::FLOAT16 <==> config.quantization_level
            == QuantizationLevel::High,
        r.num_threads_per_replica == config.threads,
{
}

} // verus!
