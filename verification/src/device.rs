//! Where tensors live and what they hold.
use vstd::prelude::*;

verus! {

/// The kind of device a model runs on.
#[derive(Clone, Copy, Debug, PartialEq, Eq, Structural)]
pub enum Device {
    Cpu,
    Cuda,
    Metal,
}

/// The element type of a tensor.
#[derive(Clone, Copy, Debug, PartialEq, Eq, Structural)]
pub enum DType {
    U8,
    U32,
    I16,
    I32,
    I64,
    BF16,
    F16,
    F32,
    F64,
    F8E4M3,
    F6E2M3,
    F6E3M2,
    F4,
    F8E8M0,
}

impl DType {
    /// Elements are floating-point numbers.
    pub open spec fn float(self) -> bool {
        !(self is U8 || self is U32 || self is I16 || self is I32 || self is I64)
    }

    /// Whether elements are floating-point numbers.
    pub fn is_float(self) -> (yes: bool)
        ensures
            yes == self.float(),
    {
        match self {
            DType::U8 | DType::U32 | DType::I16 | DType::I32 | DType::I64 => false,
            _ => true,
        }
    }
}

} // verus!
