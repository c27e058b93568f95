//! The settings of the text decoder.
use crate::error::{config_error, Failure, SystemOneError};
use crate::score::Double;
use crate::text::{decimal, decimal_text};
use vstd::prelude::*;
use vstd::string::StringExecFns;

verus! {

/// How a layer mixes tokens.
#[derive(Clone, Copy, Debug, PartialEq, Eq, Structural)]
pub enum LayerType {
    LinearAttention,
    FullAttention,
}

/// The text decoder settings of a checkpoint.
#[derive(Debug)]
pub struct TextConfig {
    pub hidden_size: usize,
    pub intermediate_size: usize,
    pub num_hidden_layers: usize,
    pub layer_types: Vec<LayerType>,
    pub num_attention_heads: usize,
    pub num_key_value_heads: usize,
    pub head_dim: usize,
    pub rms_norm_eps: Double,
    pub vocab_size: usize,
    pub tie_word_embeddings: bool,
    pub attn_output_gate: bool,
    pub linear_num_key_heads: usize,
    pub linear_num_value_heads: usize,
    pub linear_key_head_dim: usize,
    pub linear_value_head_dim: usize,
    pub linear_conv_kernel_dim: usize,
    pub rope_theta: Double,
    pub partial_rotary_factor: Double,
}

/// `n` is a positive multiple of `m`, which is positive itself.
pub open spec fn positive_multiple(n: usize, m: usize) -> bool {
    n > 0 && m > 0 && n as int % m as int == 0
}

/// Whether `n` is a positive multiple of `m`.
pub fn is_positive_multiple(n: usize, m: usize) -> (yes: bool)
    ensures
        yes == positive_multiple(n, m),
{
    n > 0 && m > 0 && n % m == 0
}

/// Why one number of heads cannot be shared out over the other.
pub open spec fn heads_failure(
    name: Seq<char>,
    n: usize,
    other: Seq<char>,
    m: usize,
) -> Failure {
    Failure::Config(
        name + " ("@ + decimal(n as nat) + ") must be a positive multiple of "@ + other + " ("@
            + decimal(m as nat) + ")"@,
    )
}

fn heads_error(name: &str, n: usize, other: &str, m: usize) -> (error: SystemOneError)
    ensures
        error@ == heads_failure(name@, n, other@, m),
{
    let mut message = name.to_owned();
    message.append(" (");
    message.append(decimal_text(n).as_str());
    message.append(") must be a positive multiple of ");
    message.append(other);
    message.append(" (");
    message.append(decimal_text(m).as_str());
    message.append(")");
    config_error(message.as_str())
}

impl TextConfig {
    /// Why a decoder with these settings cannot be run. `tied` is what the
    /// settings around these say of tying the embeddings.
    pub open spec fn failure(&self, tied: bool) -> Option<Failure> {
        if self.layer_types@.len() != self.num_hidden_layers {
            Some(
                Failure::Config(
                    "layer_types must list one type per layer, got "@ + decimal(
                        self.layer_types@.len(),
                    ) + " for "@ + decimal(self.num_hidden_layers as nat) + " layers"@,
                ),
            )
        } else if !self.attn_output_gate {
            Some(Failure::Config("Qwen3.5 text decoder requires attn_output_gate=true"@))
        } else if !tied || !self.tie_word_embeddings {
            Some(
                Failure::Config(
                    "Qwen3.5 requires tie_word_embeddings=true in both config and text_config"@,
                ),
            )
        } else if !positive_multiple(self.num_attention_heads, self.num_key_value_heads) {
            Some(
                heads_failure(
                    "num_attention_heads"@,
                    self.num_attention_heads,
                    "num_key_value_heads"@,
                    self.num_key_value_heads,
                ),
            )
        } else if !positive_multiple(self.linear_num_value_heads, self.linear_num_key_heads) {
            Some(
                heads_failure(
                    "linear_num_value_heads"@,
                    self.linear_num_value_heads,
                    "linear_num_key_heads"@,
                    self.linear_num_key_heads,
                ),
            )
        } else {
            None
        }
    }

    /// Accepts the settings of a decoder.
    pub fn check(self, tied: bool) -> (result: Result<Self, SystemOneError>)
        ensures
            match result {
                Ok(config) => self.failure(tied) is None && config == self,
                Err(e) => self.failure(tied) == Some(e@),
            },
    {
        if self.layer_types.len() != self.num_hidden_layers {
            let mut message = "layer_types must list one type per layer, got ".to_owned();
            message.append(decimal_text(self.layer_types.len()).as_str());
            message.append(" for ");
            message.append(decimal_text(self.num_hidden_layers).as_str());
            message.append(" layers");
            return Err(config_error(message.as_str()));
        }
        if !self.attn_output_gate {
            return Err(config_error("Qwen3.5 text decoder requires attn_output_gate=true"));
        }
        if !tied || !self.tie_word_embeddings {
            return Err(
                config_error(
                    "Qwen3.5 requires tie_word_embeddings=true in both config and text_config",
                ),
            );
        }
        if !is_positive_multiple(self.num_attention_heads, self.num_key_value_heads) {
            return Err(
                heads_error(
                    "num_attention_heads",
                    self.num_attention_heads,
                    "num_key_value_heads",
                    self.num_key_value_heads,
                ),
            );
        }
        if !is_positive_multiple(self.linear_num_value_heads, self.linear_num_key_heads) {
            return Err(
                heads_error(
                    "linear_num_value_heads",
                    self.linear_num_value_heads,
                    "linear_num_key_heads",
                    self.linear_num_key_heads,
                ),
            );
        }
        Ok(self)
    }

    /// The base of the rotary frequencies.
    pub fn rope_theta(&self) -> (theta: Double)
        ensures
            theta == self.rope_theta,
    {
        self.rope_theta
    }

    /// Which part of a head is rotated.
    pub fn partial_rotary_factor(&self) -> (factor: Double)
        ensures
            factor == self.partial_rotary_factor,
    {
        self.partial_rotary_factor
    }
}

} // verus!
