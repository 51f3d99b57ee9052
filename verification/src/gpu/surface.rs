use vstd::prelude::*;

verus! {

/// GPU surface management: device, queue and swap chain live in the
/// windowing layer.
pub struct GpuSurface {
    _placeholder: (),
}

impl GpuSurface {
    pub fn new() -> Self {
        GpuSurface { _placeholder: () }
    }
}

impl Default for GpuSurface {
    fn default() -> Self {
        GpuSurface::new()
    }
}

} // verus!
