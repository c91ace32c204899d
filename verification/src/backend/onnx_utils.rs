//! Options for ONNX sessions.

use vstd::prelude::*;

use crate::backend::BackendConfig;

verus! {

/// Execution provider preference for ONNX sessions.
#[derive(Debug, Clone, Copy, PartialEq, Eq, Structural)]
pub enum ExecutionProviderPreference {
    /// Use CPU only.
    CpuOnly,
    /// Prefer GPU, fall back to CPU if unavailable.
    PreferGpu,
}

impl Default for ExecutionProviderPreference {
    fn default() -> (r: Self)
        ensures
            r == ExecutionProviderPreference::CpuOnly,
    {
        ExecutionProviderPreference::CpuOnly
    }
}

/// Threads and execution provider of an ONNX session.
#[derive(Debug, Clone, Copy, PartialEq, Eq, Structural)]
pub struct OnnxSessionOptions {
    pub intra_threads: usize,
    pub inter_threads: usize,
    pub execution_provider: ExecutionProviderPreference,
}

impl Default for OnnxSessionOptions {
    fn default() -> (r: Self)
        ensures
            r == (OnnxSessionOptions {
                intra_threads: 1,
                inter_threads: 1,
                execution_provider: ExecutionProviderPreference::CpuOnly,
            }),
    {
        OnnxSessionOptions {
            intra_threads: 1,
            inter_threads: 1,
            execution_provider: ExecutionProviderPreference::CpuOnly,
        }
    }
}

/// The options that a backend configuration calls for: its threads within an
/// operator, one across operators, and a GPU where it is enabled.
pub open spec fn options_for(config: BackendConfig) -> OnnxSessionOptions {
    OnnxSessionOptions {
        intra_threads: config.threads,
        inter_threads: 1,
        execution_provider: if config.gpu_enabled {
            ExecutionProviderPreference::PreferGpu
        } else {
            ExecutionProviderPreference::CpuOnly
        },
    }
}

impl OnnxSessionOptions {
    /// The options that a backend configuration calls for.
    pub fn from_config(config: &BackendConfig) -> (r: Self)
        ensures
            r == options_for(*config),
    {
        OnnxSessionOptions {
            intra_threads: config.threads,
            inter_threads: 1,
            execution_provider: if config.gpu_enabled {
                ExecutionProviderPreference::PreferGpu
            } else {
                ExecutionProviderPreference::CpuOnly
            },
        }
    }
}

/// A session uses the threads that were configured, one operator at a time, and
/// a GPU exactly where it is enabled.
pub proof fn law_options_follow_the_configuration(config: BackendConfig)
    ensures
        options_for(config).intra_threads == config.threads,
        options_for(config).inter_threads == 1,
        options_for(config).execution_provider == ExecutionProviderPreference::PreferGpu
            <==> config.gpu_enabled,
{
}

} // verus!
