//! What is said where something is refused.
use crate::cua_s1::attention::FullAttention;
use crate::cua_s1::config::{LayerType, TextConfig};
use crate::cua_s1::delta_net::{convolution_failure, recurrence_failure, GatedDeltaNet};
use crate::cua_s1::lora::{
    factor, module_failure, part_of, tensor_failure, LoraAdapter, LoraModule, LoraTensor,
};
use crate::cua_s1::model::TextModel;
use crate::cua_s1::prompt::may_fail_letters;
use crate::cutlass_geglu::{dual_failure, fused_failure};
use crate::device::{DType, Device};
use crate::error::Failure;
use crate::gemm_cuda::{op_failure, Shape};
use crate::gliner_decide::settings::GlinerDecideBuilder;
use crate::modernbert::config::ModernBert;
use crate::modernbert::forward::query_failure;
use crate::openjev::model::{EncoderConfig, OpenJevBuilder, OpenJevConfig};
use crate::parallel_cuda::projection_failure;
use crate::residual_norm_cuda;
use crate::rope_cuda;
use crate::tensor::{dim_failure, place_failure, rank_failure, TensorInfo};
use crate::text::{decimal, joined_texts, list_text};
use crate::tokens::encoding;
use tokenizers::Tokenizer;
use vstd::prelude::*;

verus! {

/// A list of numbers is written in brackets, with commas between.
pub proof fn lists_are_written_in_brackets(a: usize, b: usize, c: usize)
    ensures
        list_text(seq![a]) == "["@ + decimal(a as nat) + "]"@,
        list_text(seq![a, b]) == "["@ + decimal(a as nat) + ", "@ + decimal(b as nat) + "]"@,
        list_text(seq![a, b, c]) == "["@ + decimal(a as nat) + ", "@ + decimal(b as nat) + ", "@
            + decimal(c as nat) + "]"@,
{
    let f = |n: usize| decimal(n as nat);
    let one = seq![a].map_values(f);
    let two = seq![a, b].map_values(f);
    let three = seq![a, b, c].map_values(f);
    reveal_with_fuel(joined_texts, 4);
    assert(two.drop_last() =~= one);
    assert(three.drop_last() =~= two);
    assert(one.drop_last() =~= Seq::<Seq<char>>::empty());
    assert(list_text(seq![a]) =~= "["@ + decimal(a as nat) + "]"@);
    assert(list_text(seq![a, b]) =~= "["@ + decimal(a as nat) + ", "@ + decimal(b as nat) + "]"@);
    assert(list_text(seq![a, b, c]) =~= "["@ + decimal(a as nat) + ", "@ + decimal(b as nat)
        + ", "@ + decimal(c as nat) + "]"@);
}

/// A wrong number of dimensions is named beside the shape, and so is a
/// dimension that is not there.
pub proof fn ranks_are_named(expected: nat, dims: Seq<usize>)
    ensures
        rank_failure(expected, dims) == Failure::Candle(
            "unexpected rank, expected: "@ + decimal(expected) + ", got: "@ + decimal(dims.len())
                + " ("@ + list_text(dims) + ")"@,
        ),
        dim_failure(expected, dims) == Failure::Candle(
            "dim: dimension index "@ + decimal(expected) + " out of range for shape "@ + list_text(
                dims,
            ),
        ),
{
}

/// Tensors at different places are named with their places, the first operand
/// first.
pub proof fn places_are_named(op: Seq<char>, x: &TensorInfo, y: &TensorInfo)
    ensures
        place_failure(op, x, y) matches Some(failure) ==> failure == Failure::Candle(
            "device mismatch in "@ + op + ", lhs: "@ + x.place_text() + ", rhs: "@
                + y.place_text(),
        ),
        x.device is Cpu ==> x.place_text() == "Cpu"@,
        x.device is Cuda ==> x.place_text() == "Cuda { gpu_id: "@ + decimal(x.gpu as nat) + " }"@,
        x.device is Metal ==> x.place_text() == "Metal { gpu_id: "@ + decimal(x.gpu as nat)
            + " }"@,
{
}

/// A tensor of an adapter is refused for its name first, and then for its
/// type.
pub proof fn adapter_tensors_are_refused_by_name(t: &LoraTensor)
    ensures
        part_of(t.name@) is None ==> tensor_failure(t) == Some(
            Failure::Config("unsupported LoRA tensor name: "@ + t.name@),
        ),
        part_of(t.name@) is Some && !t.is_float ==> tensor_failure(t) == Some(
            Failure::Config("LoRA tensor must be floating point: "@ + t.name@),
        ),
        part_of(t.name@) is Some && t.is_float ==> tensor_failure(t) is None,
{
}

/// A change that lacks a factor is refused, and so is one whose factors do not
/// fit together: both shapes are named, the first factor's first.
pub proof fn changes_are_refused_by_weight(tensors: Seq<LoraTensor>, r: usize, weight: Seq<char>)
    ensures
        ({
            let a = factor(tensors, tensors.len(), weight, true);
            let b = factor(tensors, tensors.len(), weight, false);
            &&& a is None || b is None ==> module_failure(tensors, r, weight) == Some(
                Failure::Config("LoRA module requires both A and B: "@ + weight),
            )
            &&& a is Some && b is Some && module_failure(tensors, r, weight) is Some
                ==> module_failure(tensors, r, weight) == Some(
                Failure::Config(
                    "LoRA shape mismatch for "@ + weight + ": A "@ + list_text(
                        tensors[a->0 as int].dims@,
                    ) + ", B "@ + list_text(tensors[b->0 as int].dims@) + ", r "@ + decimal(
                        r as nat,
                    ),
                ),
            )
        }),
{
}

/// A weight that a change does not fit is refused: for its shape first, and
/// then for its type.
pub proof fn weights_are_refused_by_shape(
    name: Seq<char>,
    dims: Seq<usize>,
    is_float: bool,
    module: LoraModule,
)
    ensures
        !(dims.len() == 2 && dims[0] == module.rows && dims[1] == module.columns)
            ==> LoraAdapter::merge_failure(name, dims, is_float, module) == Some(
            Failure::Config(
                "LoRA base shape mismatch for "@ + name + ": expected "@ + list_text(
                    seq![module.rows, module.columns],
                ) + ", got "@ + list_text(dims),
            ),
        ),
        dims.len() == 2 && dims[0] == module.rows && dims[1] == module.columns && !is_float
            ==> LoraAdapter::merge_failure(name, dims, is_float, module) == Some(
            Failure::Config("LoRA base weight must be floating point: "@ + name),
        ),
{
    if dims.len() == 2 && dims[0] == module.rows && dims[1] == module.columns {
        assert(dims =~= seq![module.rows, module.columns]);
    }
}

/// The kind of the layer at a place.
pub open spec fn is_layer(config: &TextConfig, layer: usize, kind: LayerType) -> bool {
    layer < config.layer_types@.len() && config.layer_types@[layer as int] == kind
}

/// A layer of another kind is refused by its number, and then what cannot be
/// rotated, or what the convolution does not match.
pub proof fn layers_are_refused_by_number(
    config: &TextConfig,
    layer: usize,
    rotary_dim: usize,
    conv: Seq<usize>,
)
    ensures
        !is_layer(config, layer, LayerType::FullAttention) ==> FullAttention::load_failure(
            config,
            layer,
            rotary_dim,
        ) == Some(
            Failure::Config(
                "layer "@ + decimal(layer as nat) + " is not a full-attention layer"@,
            ),
        ),
        is_layer(config, layer, LayerType::FullAttention) ==> (FullAttention::load_failure(
            config,
            layer,
            rotary_dim,
        ) is Some <==> rotary_dim == 0 || rotary_dim % 2 == 1 || rotary_dim > config.head_dim),
        is_layer(config, layer, LayerType::FullAttention) && FullAttention::load_failure(
            config,
            layer,
            rotary_dim,
        ) is Some ==> FullAttention::load_failure(config, layer, rotary_dim) == Some(
            Failure::Config("rotary dimension must be positive, even and at most head_dim"@),
        ),
        !is_layer(config, layer, LayerType::LinearAttention) ==> GatedDeltaNet::load_failure(
            config,
            layer,
            conv,
        ) == Some(
            Failure::Config(
                "layer "@ + decimal(layer as nat) + " is not a linear-attention layer"@,
            ),
        ),
        GatedDeltaNet::load_failure(config, layer, conv) is None ==> {
            &&& config.linear_num_value_heads > 0 && config.linear_num_key_heads > 0
            &&& config.linear_num_value_heads as int % config.linear_num_key_heads as int == 0
            &&& config.linear_key_head_dim > 0 && config.linear_value_head_dim > 0
            &&& config.linear_conv_kernel_dim > 0
            &&& conv.len() == 3 && conv[1] == 1 && conv[2] == config.linear_conv_kernel_dim
        },
        GatedDeltaNet::config_failure(config, layer) is None && GatedDeltaNet::load_failure(
            config,
            layer,
            conv,
        ) is Some ==> GatedDeltaNet::load_failure(config, layer, conv) == Some(
            Failure::Config("DeltaNet convolution dimensions do not match the text config"@),
        ),
        is_layer(config, layer, LayerType::LinearAttention) && GatedDeltaNet::config_failure(
            config,
            layer,
        ) is Some ==> GatedDeltaNet::config_failure(config, layer) == Some(
            Failure::Config(
                "DeltaNet requires positive dimensions and value heads divisible by key heads"@,
            ),
        ),
{
}

/// A decoder is refused for its configuration first, and then for its
/// embeddings.
pub proof fn decoders_are_refused(config: &TextConfig, embeddings: Seq<usize>)
    ensures
        config.num_hidden_layers == 0 || config.layer_types@.len() != config.num_hidden_layers
            || !config.tie_word_embeddings ==> TextModel::load_failure(config, embeddings) == Some(
            Failure::Config("text decoder requires tied embeddings and one mixer type per layer"@),
        ),
        config.num_hidden_layers > 0 && config.layer_types@.len() == config.num_hidden_layers
            && config.tie_word_embeddings && TextModel::load_failure(config, embeddings) is Some
            ==> TextModel::load_failure(config, embeddings) == Some(
            Failure::Config("embedding dimensions do not match the text config"@),
        ),
{
}

/// Operands of a convolution or a recurrence are refused for their ranks
/// first, and then for dimensions that do not match.
pub proof fn recurrences_are_refused(
    x: Seq<usize>,
    weight: Seq<usize>,
    key: Seq<usize>,
    value: Seq<usize>,
    beta: Seq<usize>,
    decay: Seq<usize>,
)
    ensures
        x.len() != 2 ==> convolution_failure(x, weight) == Some(rank_failure(2, x)),
        x.len() == 2 && weight.len() != 3 ==> convolution_failure(x, weight) == Some(
            rank_failure(3, weight),
        ),
        x.len() == 2 && weight.len() == 3 ==> (convolution_failure(x, weight) is None
            <==> weight[0] == x[1] && weight[1] == 1 && weight[2] > 0),
        x.len() == 2 && weight.len() == 3 && convolution_failure(x, weight) is Some
            ==> convolution_failure(x, weight) == Some(
            Failure::Candle("causal depthwise convolution requires [channels, 1, kernel] weights"@),
        ),
        x.len() != 3 ==> recurrence_failure(x, key, value, beta, decay) == Some(rank_failure(3, x)),
        x.len() == 3 && value.len() != 3 ==> recurrence_failure(x, key, value, beta, decay) == Some(
            rank_failure(3, value),
        ),
        x.len() == 3 && value.len() == 3 && recurrence_failure(x, key, value, beta, decay) is Some
            ==> recurrence_failure(x, key, value, beta, decay) == Some(
            Failure::Candle("delta-rule query, key, value and gate dimensions do not match"@),
        ),
{
}

/// Products and projections of tensors on one GPU are refused for their type,
/// their ranks and their layouts.
pub proof fn products_are_refused(shape: Shape, x: &TensorInfo, weight: &TensorInfo)
    requires
        x.device == Device::Cuda,
        weight.device == Device::Cuda,
        x.gpu == weight.gpu,
    ensures
        x.dtype != DType::BF16 || weight.dtype != DType::BF16 ==> op_failure(shape, x, weight)
            == Some(Failure::Candle("BF16 only"@)),
        x.dtype == DType::BF16 && weight.dtype == DType::BF16 && op_failure(
            shape,
            x,
            weight,
        ) is Some ==> op_failure(shape, x, weight) == Some(
            Failure::Candle("invalid GEMM layouts"@),
        ),
        x.dims@.len() != 2 ==> projection_failure(x, weight) == Some(rank_failure(2, x.dims@)),
        x.dims@.len() == 2 && weight.dims@.len() != 2 ==> projection_failure(x, weight) == Some(
            rank_failure(2, weight.dims@),
        ),
        x.dims@.len() == 2 && weight.dims@.len() == 2 && (weight.dims@[1] != x.dims@[1]
            || !x.contiguous || !weight.contiguous) ==> projection_failure(x, weight) == Some(
            Failure::Candle("projection layout"@),
        ),
        x.dims@.len() == 2 && weight.dims@.len() == 2 && weight.dims@[1] == x.dims@[1]
            && x.contiguous && weight.contiguous && projection_failure(x, weight) is Some
            ==> projection_failure(x, weight) == Some(Failure::Candle("BF16 only"@)),
{
}

/// An operation that only CUDA has names itself where the operands are apart
/// or elsewhere.
pub proof fn operations_name_themselves(
    shape: Shape,
    x: &TensorInfo,
    y: &TensorInfo,
    z: &TensorInfo,
)
    ensures
        x.device == Device::Cpu && y.device == Device::Cpu ==> op_failure(shape, x, y) == Some(
            Failure::Candle("CUDA only"@),
        ) && projection_failure(x, y) == Some(Failure::Candle("CUDA only"@)),
        x.device == Device::Metal && x.beside(y) ==> op_failure(shape, x, y) == Some(
            Failure::Candle(
                "Metal error no metal implementation for "@ + "vs1_bf16_retiled_gemm"@,
            ),
        ) && projection_failure(x, y) == Some(
            Failure::Candle(
                "Metal error no metal implementation for "@ + "vs1_parallel_projection"@,
            ),
        ),
        x.device == Device::Metal && x.beside(y) && x.beside(z) ==> fused_failure(x, y, z) == Some(
            Failure::Candle("Metal error no metal implementation for "@ + "vs1_cutlass_geglu"@),
        ) && (y.dims@ == z.dims@ && z.contiguous ==> dual_failure(x, y, z) == Some(
            Failure::Candle(
                "Metal error no metal implementation for "@ + "vs1_cutlass_dual_geglu"@,
            ),
        )),
{
}

/// Gated projections of tensors on one GPU are refused for weights that are
/// not alike, for ranks, layouts and types, and at last for sizes.
pub proof fn gated_projections_are_refused(xs: &TensorInfo, a: &TensorInfo, gate: &TensorInfo)
    requires
        xs.device == Device::Cuda,
        a.device == Device::Cuda,
        gate.device == Device::Cuda,
        xs.gpu == a.gpu,
        xs.gpu == gate.gpu,
    ensures
        gate.dims@ != a.dims@ || !gate.contiguous ==> dual_failure(xs, a, gate) == Some(
            Failure::Candle("dual GeGLU weights must match"@),
        ),
        gate.dims@ == a.dims@ && gate.contiguous && xs.dims@.len() != 2 ==> dual_failure(
            xs,
            a,
            gate,
        ) == Some(rank_failure(2, xs.dims@)),
        gate.dims@ == a.dims@ && gate.contiguous && xs.dims@.len() == 2 && a.dims@.len() != 2
            ==> dual_failure(xs, a, gate) == Some(rank_failure(2, a.dims@)),
        gate.dims@ == a.dims@ && gate.contiguous && xs.dims@.len() == 2 && a.dims@.len() == 2 && (
        a.dims@[1] != xs.dims@[1] || !xs.contiguous || !a.contiguous) ==> dual_failure(xs, a, gate)
            == Some(Failure::Candle("invalid dual GEMM layouts"@)),
        xs.dims@.len() != 2 ==> fused_failure(xs, a, gate) == Some(rank_failure(2, xs.dims@)),
        xs.dims@.len() == 2 && a.dims@.len() != 2 ==> fused_failure(xs, a, gate) == Some(
            rank_failure(2, a.dims@),
        ),
        xs.dims@.len() == 2 && a.dims@.len() == 2 && (a.dims@[1] != xs.dims@[1] || !xs.contiguous
            || !a.contiguous || !gate.contiguous) ==> fused_failure(xs, a, gate) == Some(
            Failure::Candle("invalid fused GEMM layouts"@),
        ),
        fused_failure(xs, a, gate) == Some(Failure::Candle("BF16 only"@)) ==> xs.dtype
            != DType::BF16 || a.dtype != DType::BF16 || gate.dtype != DType::BF16,
        dual_failure(xs, a, gate) == Some(Failure::Candle("BF16 only"@)) ==> xs.dtype
            != DType::BF16 || a.dtype != DType::BF16 || gate.dtype != DType::BF16,
{
    reveal_strlit("BF16 only");
    reveal_strlit("dual GeGLU weights must match");
    reveal_strlit("invalid dual GEMM layouts");
    reveal_strlit("invalid fused GEMM layouts");
    reveal_strlit("out of range integral type conversion attempted");
    reveal_strlit("unexpected rank, expected: ");
    assert("BF16 only"@[0] == 'B' && "dual GeGLU weights must match"@[0] == 'd'
        && "invalid dual GEMM layouts"@[0] == 'i' && "invalid fused GEMM layouts"@[0] == 'i'
        && "out of range integral type conversion attempted"@[0] == 'o');
    assert(rank_failure(2, xs.dims@)->Candle_0[0] == 'u');
    assert(rank_failure(2, a.dims@)->Candle_0[0] == 'u');
}

/// Inputs of the norm and the rotation are refused for their ranks first, and
/// then for anything else that does not fit.
pub proof fn norms_and_rotations_are_refused(
    x: &TensorInfo,
    y: &TensorInfo,
    weight: &TensorInfo,
    sin: &TensorInfo,
)
    ensures
        x.dims@.len() != 2 ==> residual_norm_cuda::failure(x, y, weight) == Some(
            rank_failure(2, x.dims@),
        ),
        x.dims@.len() == 2 && x.device == Device::Cuda && residual_norm_cuda::failure(
            x,
            y,
            weight,
        ) is Some ==> residual_norm_cuda::failure(x, y, weight) == Some(
            Failure::Candle("invalid BF16 residual norm inputs"@),
        ),
        x.dims@.len() != 3 ==> rope_cuda::failure(x, y, weight, sin) == Some(
            rank_failure(3, x.dims@),
        ),
        x.dims@.len() == 3 && x.device == Device::Cuda && rope_cuda::failure(
            x,
            y,
            weight,
            sin,
        ) is Some ==> rope_cuda::failure(x, y, weight, sin) == Some(
            Failure::Candle("invalid packed BF16 rotary inputs"@),
        ),
{
}

/// Padded queries that are longer than the local window reaches are refused,
/// and the reach is named.
pub proof fn long_padded_queries_are_refused(
    model: &ModernBert,
    dims: Seq<usize>,
    lens: Seq<usize>,
    i: int,
)
    requires
        dims.len() == 2,
    ensures
        dims[1] > model.local_attention_size as int / 2 + 1 && 0 <= i < lens.len() && lens[i]
            < dims[1] ==> query_failure(model, dims, lens) == Some(
            Failure::Candle(
                "queries longer than "@ + decimal(
                    (model.local_attention_size as int / 2 + 1) as nat,
                ) + " tokens with expansion padding must use the masked path"@,
            ),
        ),
        dims[1] <= model.local_attention_size as int / 2 + 1 ==> query_failure(
            model,
            dims,
            lens,
        ) is None,
        (forall|k: int| 0 <= k < lens.len() ==> #[trigger] lens[k] >= dims[1]) ==> query_failure(
            model,
            dims,
            lens,
        ) is None,
{
}

/// An OpenJev checkpoint is refused for its architecture first, and then for
/// its width and its number of classes.
pub proof fn architectures_are_refused(config: &OpenJevConfig, encoder: EncoderConfig)
    ensures
        !config.architecture_fits() ==> config.encoder_failure(encoder) == Some(
            Failure::Config("unsupported OpenJev/GLiClass architecture settings"@),
        ),
        config.architecture_fits() ==> (config.encoder_failure(encoder) is None
            <==> encoder.hidden_size == config.hidden_size && config.max_num_classes > 2
            && config.max_num_classes < 26),
        config.architecture_fits() && config.encoder_failure(encoder) is Some
            ==> config.encoder_failure(encoder) == Some(
            Failure::Config("unsupported OpenJev projector width or class capacity"@),
        ),
        config.architecture_fits() ==> config.model_type@ == "GLiClass"@
            && config.architecture_type@ == "uni-encoder"@ && config.pooling_strategy@ == "first"@
            && config.class_token_pooling@ == "first"@ && config.scorer_type@ == "simple"@
            && config.projector_hidden_act@ == "gelu"@ && config.embed_class_token
            && config.prompt_first && config.encoder_layer_id == -1,
{
}

/// A local model runs in the type that was asked for, or else in BF16 on CUDA
/// and in F32 elsewhere; it is refused in another type, without room for a
/// batch, or with less than two tokens.
pub proof fn builders_are_refused(
    openjev: &OpenJevBuilder,
    gliner: &GlinerDecideBuilder,
    cuda_built: bool,
)
    ensures
        openjev.failure(cuda_built) is None <==> {
            &&& openjev.batch_size > 0 && openjev.max_len > 1
            &&& openjev.dtype is None || openjev.dtype == Some(DType::F32) || (openjev.dtype == Some(
                DType::BF16,
            ) && openjev.device == Device::Cuda && cuda_built)
        },
        gliner.failure() is None <==> {
            &&& gliner.batch_size > 0 && gliner.max_len > 1
            &&& gliner.dtype is None || gliner.dtype == Some(DType::F32) || (gliner.dtype == Some(
                DType::BF16,
            ) && gliner.device == Device::Cuda)
        },
        openjev.dtype matches Some(dtype) ==> openjev.chosen_dtype(cuda_built) == dtype,
        gliner.dtype matches Some(dtype) ==> gliner.chosen_dtype() == dtype,
        openjev.dtype is None ==> (openjev.chosen_dtype(cuda_built) == DType::BF16
            <==> openjev.device == Device::Cuda && cuda_built),
        openjev.dtype is None && openjev.chosen_dtype(cuda_built) != DType::BF16
            ==> openjev.chosen_dtype(cuda_built) == DType::F32,
        gliner.dtype is None ==> gliner.chosen_dtype() == if gliner.device == Device::Cuda {
            DType::BF16
        } else {
            DType::F32
        },
        openjev.dtype is None && (openjev.batch_size == 0 || openjev.max_len < 2)
            ==> openjev.failure(cuda_built) == Some(
            Failure::Config("batch size must be positive and max length at least two"@),
        ),
        gliner.dtype is None && (gliner.batch_size == 0 || gliner.max_len < 2) ==> gliner.failure()
            == Some(Failure::Config("batch size must be positive and max length at least two"@)),
        openjev.dtype == Some(DType::F16) ==> openjev.failure(cuda_built) == Some(
            Failure::Config("OpenJev supports f32, or bf16 on CUDA"@),
        ),
        gliner.dtype == Some(DType::F16) ==> gliner.failure() == Some(
            Failure::Config("GLiNER2.5-Decide supports f32, or bf16 on CUDA"@),
        ),
{
}

/// Letters are refused only where the tokenizer fails or makes not exactly one
/// token of one, and then that letter is named.
pub proof fn letters_are_refused_one_by_one(
    tokenizer: Tokenizer,
    letters: Seq<char>,
    failure: Failure,
)
    requires
        may_fail_letters(tokenizer, letters, failure),
    ensures
        exists|k: int, encoded: Result<Seq<u32>, Seq<char>>|
            0 <= k < letters.len() && #[trigger] encoding(
                tokenizer,
                seq![letters[k]],
                false,
                encoded,
            ) && match encoded {
                Err(message) => failure == Failure::Tokenizer(message),
                Ok(ids) => ids.len() != 1 && failure == Failure::Tokenizer(
                    "letter '"@ + seq![letters[k]] + "' must encode to exactly one token, got "@
                        + decimal(ids.len()),
                ),
            },
{
}

} // verus!
