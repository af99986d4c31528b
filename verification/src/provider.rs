//! Acceleration providers and the build-time fallback rule.
//!
//! The inference engine can sit on one of several execution providers.
//! Only those compiled into the running binary are usable; a request for
//! any other falls back to the CPU with a warning.  The fallback decision
//! is verified here; the application crate reports which providers its
//! build carries.

use vstd::prelude::*;

verus! {

/// The execution providers a build may offer.
#[derive(Clone, Copy, Debug, PartialEq, Eq, Structural)]
pub enum AccelerationProvider {
    Cpu,
    Cuda,
    CoreML,
    DirectML,
    TensorRT,
    ROCm,
    OpenVINO,
    OneDNN,
    WebGPU,
}

/// The provider actually used for a request: the requested one when the
/// build carries it, else the CPU.  Only CUDA and CoreML can be compiled
/// in; the CPU provider is always available.
pub open spec fn resolved_provider(
    requested: AccelerationProvider,
    cuda_built: bool,
    coreml_built: bool,
) -> AccelerationProvider {
    match requested {
        AccelerationProvider::Cpu => AccelerationProvider::Cpu,
        AccelerationProvider::Cuda => if cuda_built {
            AccelerationProvider::Cuda
        } else {
            AccelerationProvider::Cpu
        },
        AccelerationProvider::CoreML => if coreml_built {
            AccelerationProvider::CoreML
        } else {
            AccelerationProvider::Cpu
        },
        _ => AccelerationProvider::Cpu,
    }
}

/// Picks the provider for a request and says whether that meant falling
/// back.  `cuda_built` and `coreml_built` state what the running binary
/// was compiled with.
pub fn resolve_provider(
    requested: AccelerationProvider,
    cuda_built: bool,
    coreml_built: bool,
) -> (r: (AccelerationProvider, bool))
    ensures
        r.0 == resolved_provider(requested, cuda_built, coreml_built),
        r.1 <==> (r.0 != requested),
{
    match requested {
        AccelerationProvider::Cpu => (AccelerationProvider::Cpu, false),
        AccelerationProvider::Cuda => {
            if cuda_built {
                (AccelerationProvider::Cuda, false)
            } else {
                (AccelerationProvider::Cpu, true)
            }
        }
        AccelerationProvider::CoreML => {
            if coreml_built {
                (AccelerationProvider::CoreML, false)
            } else {
                (AccelerationProvider::Cpu, true)
            }
        }
        AccelerationProvider::DirectML => (AccelerationProvider::Cpu, true),
        AccelerationProvider::TensorRT => (AccelerationProvider::Cpu, true),
        AccelerationProvider::ROCm => (AccelerationProvider::Cpu, true),
        AccelerationProvider::OpenVINO => (AccelerationProvider::Cpu, true),
        AccelerationProvider::OneDNN => (AccelerationProvider::Cpu, true),
        AccelerationProvider::WebGPU => (AccelerationProvider::Cpu, true),
    }
}

} // verus!
