//! Choice of the compute device and of the numeric precision that suits it.
use vstd::prelude::*;
use crate::error::ModelError;

verus! {

#[verifier::external_type_specification]
#[verifier::external_body]
pub struct ExDevice(candle_core::Device);

#[verifier::external_type_specification]
#[verifier::external_body]
pub struct ExCandleError(candle_core::Error);

/// The kind of compute device, with its ordinal for GPUs.
#[derive(Debug, Clone, Copy, PartialEq, Eq, Structural)]
pub enum DeviceKind {
    Cpu,
    Cuda(usize),
    Metal(usize),
}

/// The floating-point format in which the weights are held.
#[derive(Debug, Clone, Copy, PartialEq, Eq, Structural)]
pub enum Precision {
    /// 16-bit brain floating point.
    BF16,
    /// 32-bit floating point.
    F32,
}

/// A device that was opened: what it is, and the handle to it.
pub struct SelectedDevice {
    pub kind: DeviceKind,
    pub handle: candle_core::Device,
}

/// The device policy: an explicit request for the CPU wins; then CUDA, then
/// Metal, each at ordinal 0, when present; the CPU otherwise.
pub open spec fn selected(force_cpu: bool, cuda_available: bool, metal_available: bool) -> DeviceKind {
    if force_cpu {
        DeviceKind::Cpu
    } else if cuda_available {
        DeviceKind::Cuda(0)
    } else if metal_available {
        DeviceKind::Metal(0)
    } else {
        DeviceKind::Cpu
    }
}

/// The precision policy: 16-bit on CUDA, 32-bit elsewhere.
pub open spec fn precision_of(d: DeviceKind) -> Precision {
    if d is Cuda {
        Precision::BF16
    } else {
        Precision::F32
    }
}

/// Decides the device from the request and from what hardware was found.
pub fn select_device(force_cpu: bool, cuda_available: bool, metal_available: bool) -> (r: DeviceKind)
    ensures
        r == selected(force_cpu, cuda_available, metal_available),
{
    if force_cpu {
        DeviceKind::Cpu
    } else if cuda_available {
        DeviceKind::Cuda(0)
    } else if metal_available {
        DeviceKind::Metal(0)
    } else {
        DeviceKind::Cpu
    }
}

/// The precision in which to load the weights on a device.
pub fn precision_for(d: DeviceKind) -> (r: Precision)
    ensures
        r == precision_of(d),
{
    match d {
        DeviceKind::Cuda(_) => Precision::BF16,
        _ => Precision::F32,
    }
}

/// An explicit request for the CPU gives the CPU, whatever hardware is present.
pub proof fn lemma_force_cpu(cuda_available: bool, metal_available: bool)
    ensures
        selected(true, cuda_available, metal_available) == DeviceKind::Cpu,
        precision_of(selected(true, cuda_available, metal_available)) == Precision::F32,
{
}

/// Relies on candle_core::utils::cuda_is_available: whether this build of
/// candle can drive CUDA hardware.
#[verifier::external_body]
fn cuda_available() -> bool {
    candle_core::utils::cuda_is_available()
}

/// Relies on candle_core::utils::metal_is_available: whether this build of
/// candle can drive Metal hardware.
#[verifier::external_body]
fn metal_available() -> bool {
    candle_core::utils::metal_is_available()
}

/// Relies on candle_core::Device::Cpu: the handle of the host CPU.
#[verifier::external_body]
fn cpu_handle() -> candle_core::Device {
    candle_core::Device::Cpu
}

/// Relies on candle_core::Device::new_cuda: opens the CUDA device of this
/// ordinal, or reports why it could not.
#[verifier::external_body]
fn cuda_handle(ordinal: usize) -> candle_core::Result<candle_core::Device> {
    candle_core::Device::new_cuda(ordinal)
}

/// Relies on candle_core::Device::new_metal: opens the Metal device of this
/// ordinal, or reports why it could not.
#[verifier::external_body]
fn metal_handle(ordinal: usize) -> candle_core::Result<candle_core::Device> {
    candle_core::Device::new_metal(ordinal)
}

/// Opens a device of the given kind. The CPU always opens; a GPU that fails
/// to initialise gives `DeviceInitError`.
pub fn open_device(kind: DeviceKind) -> (r: Result<SelectedDevice, ModelError>)
    ensures
        kind is Cpu ==> r is Ok,
        r matches Ok(d) ==> d.kind == kind,
        r matches Err(e) ==> e is DeviceInitError && !(kind is Cpu),
{
    match kind {
        DeviceKind::Cpu => Ok(SelectedDevice { kind, handle: cpu_handle() }),
        DeviceKind::Cuda(o) => match cuda_handle(o) {
            Ok(handle) => Ok(SelectedDevice { kind, handle }),
            Err(_) => Err(ModelError::DeviceInitError),
        },
        DeviceKind::Metal(o) => match metal_handle(o) {
            Ok(handle) => Ok(SelectedDevice { kind, handle }),
            Err(_) => Err(ModelError::DeviceInitError),
        },
    }
}

/// Selects and opens the compute device: the CPU when `cpu` is set, else the
/// first GPU backend that this build supports, else the CPU.
pub fn device(cpu: bool) -> (r: Result<SelectedDevice, ModelError>)
    ensures
        cpu ==> (r matches Ok(d) && d.kind == DeviceKind::Cpu),
        r matches Ok(d) ==> exists|c: bool, m: bool| d.kind == selected(cpu, c, m),
        r matches Err(e) ==> e is DeviceInitError && !cpu,
{
    let kind = if cpu {
        select_device(true, false, false)
    } else {
        let c = cuda_available();
        let m = if c {
            false
        } else {
            metal_available()
        };
        select_device(false, c, m)
    };
    let r = open_device(kind);
    proof {
        if !cpu && r is Ok {
            let c = kind is Cuda;
            let m = kind is Metal;
            assert(kind == selected(cpu, c, m));
        }
    }
    r
}

} // verus!
