//! Settings of a Cua-S1 model, and its predictions.
use crate::cua_s1::model::CuaS1Prediction;
use crate::cua_s1::prompt::{
    asked, input_outcome, letter, letters_of, may_encode, CuaS1Input, CuaS1Option,
};
use crate::device::{DType, Device};
use crate::error::{config_error, Failure, SystemOneError};
use crate::score::Float;
use crate::tokens::encodes;
use tokenizers::Tokenizer;
use vstd::prelude::*;

verus! {

pub const DEFAULT_REPO_ID: &'static str = "cua-ai/cua-s1-4b-0.2";

pub const ADAPTER_REVISION: &'static str = "16818868b0cc7813808aae4e87b417657046ab79";

pub const BASE_REPO_ID: &'static str = "Qwen/Qwen3.5-4B";

pub const BASE_REVISION: &'static str = "851bf6e806efd8d0a36b00ddf55e13ccb7b8cd0a";

pub const MODEL_NAME: &'static str = "Cua-S1-4B";

/// One option's letter, the letter's logit at the final position, and its
/// probability among the letters.
#[derive(Debug)]
pub struct CuaS1OptionPrediction {
    pub letter: char,
    pub option: CuaS1Option,
    pub logit: Float,
    pub probability: Float,
}

/// How a model is to be loaded.
#[derive(Debug)]
pub struct CuaS1Builder {
    pub adapter_repo: String,
    pub device: Device,
    pub dtype: Option<DType>,
    /// The directories of the base and of the adapter, where both are local.
    pub local_directories: Option<(String, String)>,
    /// The longest prompt in tokens, where one was asked for.
    pub max_len: Option<usize>,
}

impl CuaS1Builder {
    /// The same settings on another device.
    pub fn with_device(self, device: Device) -> (builder: Self)
        ensures
            builder == (CuaS1Builder { device, ..self }),
    {
        CuaS1Builder { device, ..self }
    }

    /// The same settings with an element type. Without one the model runs in
    /// BF16 on CUDA and in F32 on the CPU.
    pub fn with_dtype(self, dtype: DType) -> (builder: Self)
        ensures
            builder == (CuaS1Builder { dtype: Some(dtype), ..self }),
    {
        CuaS1Builder { dtype: Some(dtype), ..self }
    }

    /// The same settings with local checkpoints. The adapter's directory is
    /// the one that holds its text part.
    pub fn with_local_directories(self, base: &str, adapter: &str) -> (builder: Self)
        ensures
            builder.local_directories matches Some(d) && d.0@ == base@ && d.1@ == adapter@,
            builder == (CuaS1Builder { local_directories: builder.local_directories, ..self }),
    {
        CuaS1Builder { local_directories: Some((base.to_owned(), adapter.to_owned())), ..self }
    }

    /// The same settings with a longest prompt in tokens.
    pub fn with_max_len(self, max_len: usize) -> (builder: Self)
        ensures
            builder == (CuaS1Builder { max_len: Some(max_len), ..self }),
    {
        CuaS1Builder { max_len: Some(max_len), ..self }
    }

    /// The element type that these settings come to.
    pub open spec fn chosen_dtype(&self, cuda_built: bool) -> DType {
        match self.dtype {
            Some(dtype) => dtype,
            None => if self.device == Device::Cuda && cuda_built {
                DType::BF16
            } else {
                DType::F32
            },
        }
    }

    /// Why these settings cannot be used.
    pub open spec fn failure(&self, cuda_built: bool) -> Option<Failure> {
        let dtype = self.chosen_dtype(cuda_built);
        if self.device == Device::Cuda && dtype == DType::F32 {
            Some(
                Failure::Config(
                    "Cua-S1 F32 weights on CUDA do not fit in 12 GB of GPU memory; use BF16"@,
                ),
            )
        } else if !(self.device == Device::Cpu && dtype == DType::F32 || self.device == Device::Cuda
            && cuda_built && dtype == DType::BF16) {
            Some(
                Failure::Config(
                    "Cua-S1 supports only CPU with F32 or CUDA with BF16 dtype (requires the cuda feature)"@,
                ),
            )
        } else {
            None
        }
    }

    /// The element type to load the model in, where the settings can be
    /// used. `cuda_built` says whether CUDA kernels are part of the program.
    pub fn resolve(&self, cuda_built: bool) -> (result: Result<DType, SystemOneError>)
        ensures
            match result {
                Ok(dtype) => self.failure(cuda_built) is None && dtype == self.chosen_dtype(
                    cuda_built,
                ),
                Err(e) => self.failure(cuda_built) == Some(e@),
            },
    {
        let dtype = match self.dtype {
            Some(dtype) => dtype,
            None => if self.device == Device::Cuda && cuda_built {
                DType::BF16
            } else {
                DType::F32
            },
        };
        if self.device == Device::Cuda && dtype == DType::F32 {
            return Err(
                config_error(
                    "Cua-S1 F32 weights on CUDA do not fit in 12 GB of GPU memory; use BF16",
                ),
            );
        }
        if !(self.device == Device::Cpu && dtype == DType::F32 || self.device == Device::Cuda
            && cuda_built && dtype == DType::BF16) {
            return Err(
                config_error(
                    "Cua-S1 supports only CPU with F32 or CUDA with BF16 dtype (requires the cuda feature)",
                ),
            );
        }
        Ok(dtype)
    }
}

/// A model's tokenizer, and its longest prompt in tokens.
pub struct CuaS1 {
    pub tokenizer: Tokenizer,
    pub max_len: usize,
}

/// One prediction per option, in order.
pub open spec fn predicts(
    predictions: Seq<CuaS1OptionPrediction>,
    options: Seq<CuaS1Option>,
    letters: Seq<char>,
    logits: Seq<Float>,
    probabilities: Seq<Float>,
) -> bool {
    &&& predictions.len() == options.len()
    &&& forall|i: int|
        0 <= i < options.len() ==> {
            &&& (#[trigger] predictions[i]).letter == letters[i]
            &&& predictions[i].option == options[i]
            &&& predictions[i].logit == logits[i]
            &&& predictions[i].probability == probabilities[i]
        }
}

impl CuaS1 {
    /// Any text can be encoded.
    pub open spec fn wf(&self) -> bool {
        encodes(self.tokenizer, true) && encodes(self.tokenizer, false)
    }

    /// The settings of a model whose adapter is to be loaded from a
    /// repository, over the pinned base.
    pub fn from(adapter_repo: &str) -> (builder: CuaS1Builder)
        ensures
            builder.adapter_repo@ == adapter_repo@,
            builder.device == Device::Cpu,
            builder.dtype is None,
            builder.local_directories is None,
            builder.max_len is None,
    {
        CuaS1Builder {
            adapter_repo: adapter_repo.to_owned(),
            device: Device::Cpu,
            dtype: None,
            local_directories: None,
            max_len: None,
        }
    }

    /// The longest prompt in tokens.
    pub fn context_tokens(&self) -> (tokens: usize)
        ensures
            tokens == self.max_len,
    {
        self.max_len
    }

    /// The model's name.
    pub fn model_name(&self) -> (name: &'static str)
        ensures
            name@ == MODEL_NAME@,
    {
        MODEL_NAME
    }

    /// The input on which one to twenty-six options are scored in a single
    /// forward pass.
    pub fn score_options(
        &self,
        app: &str,
        task_family: &str,
        ax_tree: &str,
        goal: Option<&str>,
        options: &[CuaS1Option],
    ) -> (result: Result<CuaS1Input, SystemOneError>)
        requires
            self.wf(),
        ensures
            may_encode(
                self.tokenizer,
                asked(options, app, task_family, ax_tree, goal),
                input_outcome(result),
            ),
    {
        CuaS1Input::encode(&self.tokenizer, options, app, task_family, ax_tree, goal)
    }
}

/// Reads the scores of a forward pass off for each option, keeping the order
/// of the options and of their letters.
pub fn read_options(
    options: &[CuaS1Option],
    prediction: &CuaS1Prediction,
) -> (predictions: Vec<CuaS1OptionPrediction>)
    requires
        options@.len() <= 26,
        prediction.logits.len() == options.len(),
        prediction.probabilities.len() == options.len(),
    ensures
        predicts(
            predictions@,
            options@,
            letters_of(options@.len()),
            prediction.logits@,
            prediction.probabilities@,
        ),
{
    let logits = &prediction.logits;
    let probabilities = &prediction.probabilities;
    let mut predictions: Vec<CuaS1OptionPrediction> = Vec::new();
    let mut i: usize = 0;
    while i < options.len()
        invariant
            i <= options.len() <= 26,
            logits.len() == options.len(),
            probabilities.len() == options.len(),
            predictions.len() == i,
            forall|k: int|
                0 <= k < i ==> {
                    &&& (#[trigger] predictions@[k]).letter == letter(k)
                    &&& predictions@[k].option == options@[k]
                    &&& predictions@[k].logit == logits@[k]
                    &&& predictions@[k].probability == probabilities@[k]
                },
        decreases options.len() - i,
    {
        predictions.push(
            CuaS1OptionPrediction {
                letter: (65u8 + i as u8) as char,
                option: options[i].copy(),
                logit: logits[i],
                probability: probabilities[i],
            },
        );
        i += 1;
    }
    predictions
}

} // verus!
