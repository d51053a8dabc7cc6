use vstd::prelude::*;
use vstd::string::*;

use crate::config::model_paths::ascii_lower_eq;
use crate::documents::graph_types::opt_view;
use crate::text::chars_of;

verus! {

/// Whether CUDA is built in and usable.
#[derive(Clone, Debug)]
pub struct CudaStatus {
    /// The binary was built with CUDA support.
    pub compiled: bool,
    /// At least one CUDA GPU was found.
    pub available: bool,
    /// The description of the first CUDA device.
    pub device_name: Option<String>,
}

/// The kinds of backend devices.
#[derive(Clone, Copy, Debug, PartialEq, Eq, Structural)]
pub enum DeviceKind {
    Cpu,
    Gpu,
    Accelerator,
    Other,
}

/// A backend device as the inference backend lists it.
#[derive(Clone, Debug)]
pub struct BackendDevice {
    pub backend: String,
    pub kind: DeviceKind,
    pub description: String,
}

/// A CUDA device: its backend is `cuda` in any case and it is a GPU or an accelerator.
pub open spec fn spec_is_cuda_device(d: BackendDevice) -> bool {
    ascii_lower_eq(d.backend@, "cuda"@) && (d.kind == DeviceKind::Gpu || d.kind
        == DeviceKind::Accelerator)
}

/// Whether the device is a CUDA device.
pub fn is_cuda_device(device: &BackendDevice) -> (r: bool)
    ensures
        r == spec_is_cuda_device(*device),
{
    let b = chars_of(device.backend.as_str());
    let c = chars_of("cuda");
    let is_cuda = crate::config::model_paths::eq_ignore_ascii_case_chars(b.as_slice(), c.as_slice());
    is_cuda && (device.kind == DeviceKind::Gpu || device.kind == DeviceKind::Accelerator)
}

/// The first CUDA device from the `i`-th on.
pub open spec fn first_cuda_from(ds: Seq<BackendDevice>, i: int) -> Option<int>
    decreases ds.len() - i,
{
    if i < 0 || i >= ds.len() {
        None
    } else if spec_is_cuda_device(ds[i]) {
        Some(i)
    } else {
        first_cuda_from(ds, i + 1)
    }
}

/// The CUDA status: not compiled in gives nothing; compiled with a backend that did not start
/// gives nothing available; otherwise CUDA is available when a CUDA device is listed, named
/// after the first.
pub fn detect_cuda_status(compiled: bool, backend_ready: bool, devices: &[BackendDevice]) -> (r: CudaStatus)
    ensures
        r.compiled == compiled,
        !compiled || !backend_ready ==> !r.available && r.device_name is None,
        compiled && backend_ready ==> match first_cuda_from(devices@, 0) {
            Some(i) => r.available && opt_view(r.device_name) == Some(devices@[i].description@),
            None => !r.available && r.device_name is None,
        },
{
    if !compiled {
        return CudaStatus { compiled: false, available: false, device_name: None };
    }
    if !backend_ready {
        return CudaStatus { compiled: true, available: false, device_name: None };
    }
    let mut i: usize = 0;
    while i < devices.len()
        invariant
            i <= devices@.len(),
            compiled && backend_ready,
            first_cuda_from(devices@, 0) == first_cuda_from(devices@, i as int),
        decreases devices@.len() - i,
    {
        if is_cuda_device(&devices[i]) {
            return CudaStatus {
                compiled: true,
                available: true,
                device_name: Some(devices[i].description.clone()),
            };
        }
        i += 1;
    }
    CudaStatus { compiled: true, available: false, device_name: None }
}

/// The GPU layers to offload: an explicit positive count as given; 0 means all layers (999)
/// when CUDA is available, none otherwise.
pub fn resolve_gpu_layers(config_layers: u32, cuda_available: bool) -> (r: u32)
    ensures
        r == (if config_layers > 0 {
            config_layers
        } else if cuda_available {
            999
        } else {
            0
        }),
{
    if config_layers > 0 {
        return config_layers;
    }
    if cuda_available {
        999
    } else {
        0
    }
}

} // verus!
