//! Gated delta-rule attention: shapes of its projections, its convolution and
//! its recurrence.
use crate::cua_s1::attention::type_of;
use crate::cua_s1::config::{is_positive_multiple, positive_multiple, LayerType, TextConfig};
use crate::error::{config_error, tensor_error, Failure, SystemOneError};
use crate::tensor::{rank_error, rank_failure, TensorInfo};
use crate::text::{decimal, decimal_text};
use vstd::prelude::*;
use vstd::string::StringExecFns;

verus! {

/// The shape of a delta-rule layer.
#[derive(Clone, Copy, Debug)]
pub struct GatedDeltaNet {
    pub num_key_heads: usize,
    pub num_value_heads: usize,
    pub key_head_dim: usize,
    pub value_head_dim: usize,
}

/// Where query, key and value stand in the joint projection.
#[derive(Clone, Copy, Debug, PartialEq, Eq, Structural)]
pub struct MixPlan {
    pub key_start: usize,
    pub value_start: usize,
    pub channels: usize,
    /// How many value heads share a key head.
    pub groups: usize,
}

/// How many channels the joint projection has: queries, keys, values.
pub open spec fn channels(config: &TextConfig) -> nat {
    2 * config.linear_num_key_heads as nat * config.linear_key_head_dim as nat
        + config.linear_num_value_heads as nat * config.linear_value_head_dim as nat
}

impl GatedDeltaNet {
    /// Why a layer cannot be loaded, looked at before its weights are.
    pub open spec fn config_failure(config: &TextConfig, layer: usize) -> Option<Failure> {
        if type_of(config, layer) != Some(LayerType::LinearAttention) {
            Some(
                Failure::Config(
                    "layer "@ + decimal(layer as nat) + " is not a linear-attention layer"@,
                ),
            )
        } else if !positive_multiple(config.linear_num_value_heads, config.linear_num_key_heads)
            || config.linear_key_head_dim == 0 || config.linear_value_head_dim == 0
            || config.linear_conv_kernel_dim == 0 {
            Some(
                Failure::Config(
                    "DeltaNet requires positive dimensions and value heads divisible by key heads"@,
                ),
            )
        } else {
            None
        }
    }

    /// Why a layer with a convolution of this shape cannot be loaded.
    pub open spec fn load_failure(config: &TextConfig, layer: usize, conv: Seq<usize>) -> Option<
        Failure,
    > {
        if Self::config_failure(config, layer) is Some {
            Self::config_failure(config, layer)
        } else if !(conv.len() == 3 && conv[0] as nat == channels(config) && conv[1] == 1 && conv[2]
            == config.linear_conv_kernel_dim) {
            Some(
                Failure::Config(
                    "DeltaNet convolution dimensions do not match the text config"@,
                ),
            )
        } else {
            None
        }
    }

    /// Accepts the settings of a layer.
    pub fn check_config(config: &TextConfig, layer: usize) -> (result: Result<(), SystemOneError>)
        ensures
            match result {
                Ok(_) => Self::config_failure(config, layer) is None,
                Err(e) => Self::config_failure(config, layer) == Some(e@),
            },
    {
        let linear = layer < config.layer_types.len() && config.layer_types[layer]
            == LayerType::LinearAttention;
        if !linear {
            let mut message = "layer ".to_owned();
            message.append(decimal_text(layer).as_str());
            message.append(" is not a linear-attention layer");
            return Err(config_error(message.as_str()));
        }
        if !is_positive_multiple(config.linear_num_value_heads, config.linear_num_key_heads)
            || config.linear_key_head_dim == 0 || config.linear_value_head_dim == 0
            || config.linear_conv_kernel_dim == 0 {
            return Err(
                config_error(
                    "DeltaNet requires positive dimensions and value heads divisible by key heads",
                ),
            );
        }
        Ok(())
    }

    /// Takes up a layer whose convolution has this shape.
    pub fn load(config: &TextConfig, layer: usize, conv: &Vec<usize>) -> (result: Result<
        Self,
        SystemOneError,
    >)
        requires
            channels(config) <= usize::MAX,
        ensures
            match result {
                Ok(net) => {
                    &&& Self::load_failure(config, layer, conv@) is None
                    &&& net.num_key_heads == config.linear_num_key_heads
                    &&& net.num_value_heads == config.linear_num_value_heads
                    &&& net.key_head_dim == config.linear_key_head_dim
                    &&& net.value_head_dim == config.linear_value_head_dim
                    &&& net.wf()
                },
                Err(e) => Self::load_failure(config, layer, conv@) == Some(e@),
            },
    {
        match Self::check_config(config, layer) {
            Ok(_) => {},
            Err(e) => {
                return Err(e);
            },
        }
        let net = GatedDeltaNet {
            num_key_heads: config.linear_num_key_heads,
            num_value_heads: config.linear_num_value_heads,
            key_head_dim: config.linear_key_head_dim,
            value_head_dim: config.linear_value_head_dim,
        };
        assert(net.total() == channels(config)) by {
            assert(2 * config.linear_num_key_heads as nat * config.linear_key_head_dim as nat == 2
                * (config.linear_num_key_heads as nat * config.linear_key_head_dim as nat))
                by (nonlinear_arith);
        }
        let plan = net.plan();
        if conv.len() != 3 || conv[0] != plan.channels || conv[1] != 1 || conv[2]
            != config.linear_conv_kernel_dim {
            return Err(
                config_error("DeltaNet convolution dimensions do not match the text config"),
            );
        }
        Ok(net)
    }

    /// The channels of the joint projection.
    pub open spec fn total(&self) -> nat {
        2 * (self.num_key_heads as nat * self.key_head_dim as nat) + self.num_value_heads as nat
            * self.value_head_dim as nat
    }

    /// The heads can be shared out and the channels counted.
    pub open spec fn wf(&self) -> bool {
        &&& positive_multiple(self.num_value_heads, self.num_key_heads)
        &&& self.total() <= usize::MAX
    }

    /// Where query, key and value stand: queries first, as many keys, then
    /// the values.
    pub fn plan(&self) -> (plan: MixPlan)
        requires
            self.wf(),
        ensures
            plan.key_start == self.num_key_heads * self.key_head_dim,
            plan.value_start == 2 * plan.key_start,
            plan.channels == self.total(),
            plan.groups as int == self.num_value_heads as int / self.num_key_heads as int,
    {
        assert(0 <= self.num_key_heads * self.key_head_dim) by (nonlinear_arith)
            requires
                self.num_key_heads >= 0,
                self.key_head_dim >= 0,
        ;
        assert(0 <= self.num_value_heads * self.value_head_dim) by (nonlinear_arith)
            requires
                self.num_value_heads >= 0,
                self.value_head_dim >= 0,
        ;
        let key_dim: usize = self.num_key_heads * self.key_head_dim;
        let value_dim: usize = self.num_value_heads * self.value_head_dim;
        MixPlan {
            key_start: key_dim,
            value_start: 2 * key_dim,
            channels: 2 * key_dim + value_dim,
            groups: self.num_value_heads / self.num_key_heads,
        }
    }
}

/// Why weights of this shape cannot serve a depthwise convolution over these
/// inputs.
pub open spec fn convolution_failure(x: Seq<usize>, weight: Seq<usize>) -> Option<Failure> {
    if x.len() != 2 {
        Some(rank_failure(2, x))
    } else if weight.len() != 3 {
        Some(rank_failure(3, weight))
    } else if weight[0] != x[1] || weight[1] != 1 || weight[2] == 0 {
        Some(
            Failure::Candle(
                "causal depthwise convolution requires [channels, 1, kernel] weights"@,
            ),
        )
    } else {
        None
    }
}

/// Accepts the weights of a causal depthwise convolution, and says how many
/// empty positions go before the sequence: one fewer than there are taps.
pub fn convolve_causally(x: &TensorInfo, weight: &TensorInfo) -> (result: Result<
    usize,
    SystemOneError,
>)
    ensures
        match result {
            Ok(padding) => convolution_failure(x.dims@, weight.dims@) is None && padding
                == weight.dims@[2] - 1,
            Err(e) => convolution_failure(x.dims@, weight.dims@) == Some(e@),
        },
{
    if x.dims.len() != 2 {
        return Err(rank_error(2, &x.dims));
    }
    if weight.dims.len() != 3 {
        return Err(rank_error(3, &weight.dims));
    }
    if weight.dims[0] != x.dims[1] || weight.dims[1] != 1 || weight.dims[2] == 0 {
        return Err(
            tensor_error("causal depthwise convolution requires [channels, 1, kernel] weights"),
        );
    }
    Ok(weight.dims[2] - 1)
}

/// The position that a tap of the convolution reads for position `t`, where
/// it is one of the sequence.
pub open spec fn tap_position(t: int, tap: int, kernel: int) -> int {
    t + tap - (kernel - 1)
}

/// Finds the position that a tap reads; taps that reach before the sequence
/// read nothing.
pub fn tap_source(t: usize, tap: usize, kernel: usize) -> (source: Option<usize>)
    requires
        tap < kernel,
        t + tap <= usize::MAX,
    ensures
        match source {
            Some(s) => s == tap_position(t as int, tap as int, kernel as int) && s <= t,
            None => tap_position(t as int, tap as int, kernel as int) < 0,
        },
{
    let reach: usize = t + tap;
    if reach < kernel - 1 {
        None
    } else {
        Some(reach - (kernel - 1))
    }
}

/// No tap looks ahead, and the last one reads the position itself.
pub proof fn taps_are_causal(t: int, tap: int, kernel: int)
    requires
        0 <= tap < kernel,
    ensures
        tap_position(t, tap, kernel) <= t,
        tap == kernel - 1 ==> tap_position(t, tap, kernel) == t,
{
}

/// Why query, key, value and gates of a recurrence do not belong together.
pub open spec fn recurrence_failure(
    query: Seq<usize>,
    key: Seq<usize>,
    value: Seq<usize>,
    beta: Seq<usize>,
    decay: Seq<usize>,
) -> Option<Failure> {
    if query.len() != 3 {
        Some(rank_failure(3, query))
    } else if value.len() != 3 {
        Some(rank_failure(3, value))
    } else if key != query || value[0] != query[0] || value[1] != query[1] || beta
        != seq![query[0], query[1]] || decay != seq![query[0], query[1]] {
        Some(Failure::Candle("delta-rule query, key, value and gate dimensions do not match"@))
    } else {
        None
    }
}

/// Accepts the inputs of a recurrence, and says how many output values there
/// are.
pub fn apply_delta_rule(
    query: &TensorInfo,
    key: &TensorInfo,
    value: &TensorInfo,
    beta: &TensorInfo,
    decay: &TensorInfo,
) -> (result: Result<usize, SystemOneError>)
    requires
        value.wf(),
    ensures
        match result {
            Ok(count) => recurrence_failure(
                query.dims@,
                key.dims@,
                value.dims@,
                beta.dims@,
                decay.dims@,
            ) is None && count == value.count(),
            Err(e) => recurrence_failure(
                query.dims@,
                key.dims@,
                value.dims@,
                beta.dims@,
                decay.dims@,
            ) == Some(e@),
        },
{
    if query.dims.len() != 3 {
        return Err(rank_error(3, &query.dims));
    }
    if value.dims.len() != 3 {
        return Err(rank_error(3, &value.dims));
    }
    let seq: usize = query.dims[0];
    let heads: usize = query.dims[1];
    if !key.same_dims(query) || value.dims[0] != seq || value.dims[1] != heads || !beta.is_matrix(
        seq,
        heads,
    ) || !decay.is_matrix(seq, heads) {
        return Err(tensor_error("delta-rule query, key, value and gate dimensions do not match"));
    }
    Ok(value.elem_count())
}

/// Where the values of a head at a position start in the output.
pub fn output_offset(t: usize, head: usize, heads: usize, value_dim: usize) -> (offset: usize)
    requires
        head < heads,
        (t + 1) * heads * value_dim <= usize::MAX,
    ensures
        offset == (t * heads + head) * value_dim,
        offset + value_dim <= (t + 1) * heads * value_dim,
{
    proof {
        assert((t + 1) * heads == t * heads + heads) by (nonlinear_arith);
        assert(t * heads + head + 1 <= (t + 1) * heads);
        assert((t * heads + head) * value_dim + value_dim == (t * heads + head + 1) * value_dim)
            by (nonlinear_arith);
        assert((t * heads + head + 1) * value_dim <= (t + 1) * heads * value_dim) by (nonlinear_arith)
            requires
                t * heads + head + 1 <= (t + 1) * heads,
        ;
        assert(0 <= t * heads) by (nonlinear_arith)
            requires
                t >= 0,
                heads >= 0,
        ;
        if value_dim > 0 {
            assert(t * heads + head <= (t * heads + head) * value_dim) by (nonlinear_arith)
                requires
                    value_dim > 0,
                    t * heads + head >= 0,
            ;
        }
        assert(0 <= (t * heads + head) * value_dim) by (nonlinear_arith)
            requires
                t * heads + head >= 0,
                value_dim >= 0,
        ;
    }
    if value_dim == 0 {
        assert((t * heads + head) * 0 == 0);
        return 0;
    }
    (t * heads + head) * value_dim
}

} // verus!
