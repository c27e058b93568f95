//! Independent projections of one input, taken side by side.
use crate::device::{DType, Device};
use crate::error::{tensor_error, Failure, SystemOneError};
use crate::gemm_cuda::{
    lay_out_product, multiplies, Product, DEVICE_NAME, LIBRARY_VERSION,
};
use crate::tensor::{binary_failure, check_binary, rank_error, rank_failure, TensorInfo};
use crate::text::same;
use vstd::prelude::*;

verus! {

/// The operation that takes a projection.
pub const KERNEL: &'static str = "vs1_parallel_projection";

/// How many streams there are.
pub const LANES: usize = 3;

/// Whether the context that was asked about last is on a device that
/// projections were compared on.
#[derive(Clone, Copy, Debug)]
pub struct Supported {
    pub context: usize,
    pub value: bool,
}

/// The device and the library are those that projections were compared on.
pub open spec fn measured(name: Seq<char>, version: int) -> bool {
    name == DEVICE_NAME@ && version == LIBRARY_VERSION
}

/// The input may be projected side by side, device aside. Queries, keys and
/// values are worth it from fewer rows on than other projections.
pub open spec fn worthwhile(kind: Seq<char>, xs: &TensorInfo, reduced_precision: bool) -> bool {
    &&& xs.device == Device::Cuda
    &&& xs.dtype == DType::BF16
    &&& xs.dims@.len() == 2
    &&& xs.contiguous
    &&& !reduced_precision
    &&& xs.dims@[0] >= if kind == "qkv"@ {
        1536int
    } else {
        2048int
    }
    &&& xs.dims@[1] == 1024
}

/// Whether the input may be projected side by side, device aside.
pub fn enabled(kind: &str, xs: &TensorInfo, reduced_precision: bool) -> (yes: bool)
    ensures
        yes == worthwhile(kind@, xs, reduced_precision),
{
    if xs.device != Device::Cuda || xs.dtype != DType::BF16 || xs.dims.len() != 2 || !xs.contiguous
        || reduced_precision {
        return false;
    }
    let minimum_rows: usize = if same(kind, "qkv") {
        1536
    } else {
        2048
    };
    xs.dims[0] >= minimum_rows && xs.dims[1] == 1024
}

/// Whether a context is known to be on a measured device. Without an answer
/// the device has to be inspected.
pub fn known_support(last: Option<Supported>, context: usize) -> (answer: Option<bool>)
    ensures
        answer == match last {
            Some(s) => if s.context == context {
                Some(s.value)
            } else {
                None
            },
            None => None,
        },
{
    match last {
        Some(s) => if s.context == context {
            Some(s.value)
        } else {
            None
        },
        None => None,
    }
}

/// Remembers what was found out of a context's device. A device that could not
/// be inspected is not a measured one.
pub fn supported_device(context: usize, inspection: Option<(&str, usize)>) -> (supported: Supported)
    ensures
        supported.context == context,
        supported.value == match inspection {
            Some((name, version)) => measured(name@, version as int),
            None => false,
        },
{
    let value = match inspection {
        Some((name, version)) => same(name, DEVICE_NAME) && version == LIBRARY_VERSION,
        None => false,
    };
    Supported { context, value }
}

/// Why a projection cannot be taken.
pub open spec fn projection_failure(x: &TensorInfo, weight: &TensorInfo) -> Option<Failure> {
    if binary_failure(KERNEL@, "CUDA only"@, x, weight) is Some {
        binary_failure(KERNEL@, "CUDA only"@, x, weight)
    } else if x.dims@.len() != 2 {
        Some(rank_failure(2, x.dims@))
    } else if weight.dims@.len() != 2 {
        Some(rank_failure(2, weight.dims@))
    } else if weight.dims@[1] != x.dims@[1] || !x.contiguous || !weight.contiguous {
        Some(Failure::Candle("projection layout"@))
    } else if x.dtype != DType::BF16 || weight.dtype != DType::BF16 {
        Some(Failure::Candle("BF16 only"@))
    } else {
        None
    }
}

/// Lays out a projection.
pub fn cuda_fwd(x: &TensorInfo, weight: &TensorInfo) -> (result: Result<Product, SystemOneError>)
    requires
        x.wf(),
        weight.wf(),
        x.dims@.len() == 2 && weight.dims@.len() == 2 ==> x.dims@[0] * weight.dims@[0]
            <= usize::MAX,
    ensures
        match result {
            Ok(product) => projection_failure(x, weight) is None && multiplies(x, weight, product),
            Err(e) => projection_failure(x, weight) == Some(e@),
        },
{
    match check_binary(KERNEL, "CUDA only", x, weight) {
        Ok(_) => {},
        Err(e) => {
            return Err(e);
        },
    }
    if x.dims.len() != 2 {
        return Err(rank_error(2, &x.dims));
    }
    if weight.dims.len() != 2 {
        return Err(rank_error(2, &weight.dims));
    }
    if weight.dims[1] != x.dims[1] || !x.contiguous || !weight.contiguous {
        return Err(tensor_error("projection layout"));
    }
    if x.dtype != DType::BF16 || weight.dtype != DType::BF16 {
        return Err(tensor_error("BF16 only"));
    }
    Ok(lay_out_product(x, weight))
}

/// A weight of a projection, and whether it comes with a bias.
#[derive(Debug)]
pub struct Projection {
    pub weight: TensorInfo,
    pub has_bias: bool,
}

/// The weights can be measured and multiplied.
pub open spec fn multipliable(xs: &TensorInfo, weights: Seq<Projection>) -> bool {
    &&& xs.wf()
    &&& forall|i: int|
        0 <= i < weights.len() ==> (#[trigger] weights[i]).weight.wf() && (xs.dims@.len() == 2
            && weights[i].weight.dims@.len() == 2 ==> xs.dims@[0] * weights[i].weight.dims@[0]
            <= usize::MAX)
}

/// Why the first `n` projections cannot be taken: the first that cannot be
/// decides.
pub open spec fn first_failure(xs: &TensorInfo, weights: Seq<Projection>, n: nat) -> Option<Failure>
    decreases n,
{
    if n == 0 {
        None
    } else {
        let before = first_failure(xs, weights, (n - 1) as nat);
        if before is Some {
            before
        } else if weights[n - 1].has_bias {
            Some(Failure::Candle("bias unsupported"@))
        } else {
            projection_failure(xs, &weights[n - 1].weight)
        }
    }
}

/// Why a group of projections cannot be taken.
pub open spec fn group_failure(xs: &TensorInfo, weights: Seq<Projection>) -> Option<Failure> {
    if !(1 <= weights.len() <= LANES) {
        Some(Failure::Candle("projection group must contain one to three matrices"@))
    } else if xs.device == Device::Cpu {
        Some(Failure::Candle("expected a cuda device, got cpu"@))
    } else if xs.device == Device::Metal {
        Some(Failure::Candle("expected a cuda device, got Metal"@))
    } else {
        first_failure(xs, weights, weights.len())
    }
}

proof fn failure_stays(xs: &TensorInfo, weights: Seq<Projection>, m: nat, n: nat)
    requires
        m <= n,
        first_failure(xs, weights, m) is Some,
    ensures
        first_failure(xs, weights, n) == first_failure(xs, weights, m),
    decreases n,
{
    if m < n {
        failure_stays(xs, weights, m, (n - 1) as nat);
    }
}

/// Whether streams have to be made for a context: those of another context
/// are of no use.
pub fn needs_lanes(pool: Option<usize>, context: usize) -> (yes: bool)
    ensures
        yes == (pool != Some(context)),
{
    match pool {
        Some(c) => c != context,
        None => true,
    }
}

/// Lays out a group of projections, one for each stream.
pub fn project(xs: &TensorInfo, weights: &Vec<Projection>) -> (result: Result<
    Vec<Product>,
    SystemOneError,
>)
    requires
        multipliable(xs, weights@),
    ensures
        match result {
            Ok(products) => {
                &&& group_failure(xs, weights@) is None
                &&& products@.len() == weights@.len()
                &&& forall|i: int|
                    0 <= i < products@.len() ==> multiplies(
                        xs,
                        &weights@[i].weight,
                        #[trigger] products@[i],
                    )
            },
            Err(e) => group_failure(xs, weights@) == Some(e@),
        },
{
    if weights.len() == 0 || weights.len() > LANES {
        return Err(tensor_error("projection group must contain one to three matrices"));
    }
    match xs.device {
        Device::Cpu => {
            return Err(tensor_error("expected a cuda device, got cpu"));
        },
        Device::Cuda => {},
        Device::Metal => {
            return Err(tensor_error("expected a cuda device, got Metal"));
        },
    }
    let mut products: Vec<Product> = Vec::new();
    let mut i: usize = 0;
    while i < weights.len()
        invariant
            i <= weights.len(),
            1 <= weights.len() <= LANES,
            xs.device == Device::Cuda,
            multipliable(xs, weights@),
            first_failure(xs, weights@, i as nat) is None,
            products.len() == i,
            forall|k: int|
                0 <= k < i ==> multiplies(xs, &weights@[k].weight, #[trigger] products@[k]),
        decreases weights.len() - i,
    {
        let projection = &weights[i];
        assert(weights@[i as int].weight.wf());
        if projection.has_bias {
            proof {
                failure_stays(xs, weights@, (i + 1) as nat, weights@.len());
            }
            return Err(tensor_error("bias unsupported"));
        }
        match cuda_fwd(xs, &projection.weight) {
            Ok(product) => {
                products.push(product);
            },
            Err(e) => {
                proof {
                    failure_stays(xs, weights@, (i + 1) as nat, weights@.len());
                }
                return Err(e);
            },
        }
        i += 1;
    }
    Ok(products)
}

} // verus!
