//! Settings of a model, and whether a checkpoint fits them.
use crate::device::{DType, Device};
use crate::error::{config_error, Failure, SystemOneError};
use crate::gliner_decide::input::GlinerDecide;
use crate::gliner_decide::schema::{reserved_list, reserved_markers, LABEL};
use crate::gliner_decide::words::Words;
use crate::text::same;
use crate::tokens::{
    cut_length, keep_encodings_whole, one_sided, pads, same_vocabulary, steady, token_id, token_to_id,
};
use tokenizers::Tokenizer;
use vstd::prelude::*;
use vstd::string::StringExecFns;

verus! {

pub const DEFAULT_REPO_ID: &'static str = "fastino/GLiNER2.5-Decide";

pub const DEFAULT_REVISION: &'static str = "7ee5da4c2415e32259bcdc0b1a7367c32ce8d6f6";

pub const MODEL_NAME: &'static str = "GLiNER2.5-Decide";

/// The settings of a checkpoint that decide whether it can be run.
#[derive(Debug)]
pub struct GlinerConfig {
    pub architecture: String,
    pub token_pooling: String,
    pub use_moe: bool,
}

/// The settings of a checkpoint's encoder.
#[derive(Clone, Copy, Debug)]
pub struct DebertaConfig {
    pub hidden_size: usize,
    pub vocab_size: usize,
    pub conv_kernel_size: Option<usize>,
    pub embedding_size: Option<usize>,
}

impl GlinerConfig {
    /// The architecture that the model is written for.
    pub open spec fn fits(&self) -> bool {
        self.architecture@ == "span"@ && self.token_pooling@ == "first"@ && !self.use_moe
    }

    /// Accepts the settings of a checkpoint.
    pub fn check(&self) -> (result: Result<(), SystemOneError>)
        ensures
            result is Ok <==> self.fits(),
            result matches Err(e) ==> e@ == Failure::Config(
                "unsupported GLiNER2 architecture settings"@,
            ),
    {
        if !same(self.architecture.as_str(), "span") || !same(self.token_pooling.as_str(), "first")
            || self.use_moe {
            return Err(config_error("unsupported GLiNER2 architecture settings"));
        }
        Ok(())
    }
}

impl DebertaConfig {
    /// No convolution, and embeddings as wide as the encoder.
    pub open spec fn fits(&self) -> bool {
        &&& self.conv_kernel_size matches Some(k) ==> k == 0
        &&& self.embedding_size matches Some(e) ==> e == self.hidden_size
    }

    /// Accepts the settings of an encoder.
    pub fn check(&self) -> (result: Result<(), SystemOneError>)
        ensures
            result is Ok <==> self.fits(),
            result matches Err(e) ==> e@ == Failure::Config("unsupported DeBERTa encoder settings"@),
    {
        let convolves = match self.conv_kernel_size {
            Some(k) => k > 0,
            None => false,
        };
        let differs = match self.embedding_size {
            Some(e) => e != self.hidden_size,
            None => false,
        };
        if convolves || differs {
            return Err(config_error("unsupported DeBERTa encoder settings"));
        }
        Ok(())
    }
}

/// How a model is to be loaded.
#[derive(Debug)]
pub struct GlinerDecideBuilder {
    pub repo: String,
    pub device: Device,
    pub dtype: Option<DType>,
    pub batch_size: usize,
    pub max_len: usize,
}

impl GlinerDecideBuilder {
    /// The same settings on another device.
    pub fn with_device(self, device: Device) -> (builder: Self)
        ensures
            builder == (GlinerDecideBuilder { device, ..self }),
    {
        GlinerDecideBuilder { device, ..self }
    }

    /// The same settings with an element type. Without one the model runs in
    /// BF16 on CUDA and in F32 elsewhere. BF16 is approximate and needs CUDA.
    pub fn with_dtype(self, dtype: DType) -> (builder: Self)
        ensures
            builder == (GlinerDecideBuilder { dtype: Some(dtype), ..self }),
    {
        GlinerDecideBuilder { dtype: Some(dtype), ..self }
    }

    /// The same settings with another number of requests per forward pass.
    pub fn with_batch_size(self, batch_size: usize) -> (builder: Self)
        ensures
            builder == (GlinerDecideBuilder { batch_size, ..self }),
    {
        GlinerDecideBuilder { batch_size, ..self }
    }

    /// The same settings with another number of tokens per request, schema
    /// included. State is dropped to fit.
    pub fn with_max_len(self, max_len: usize) -> (builder: Self)
        ensures
            builder == (GlinerDecideBuilder { max_len, ..self }),
    {
        GlinerDecideBuilder { max_len, ..self }
    }

    /// The element type that these settings come to.
    pub open spec fn chosen_dtype(&self) -> DType {
        match self.dtype {
            Some(dtype) => dtype,
            None => if self.device == Device::Cuda {
                DType::BF16
            } else {
                DType::F32
            },
        }
    }

    /// Why these settings cannot be used.
    pub open spec fn failure(&self) -> Option<Failure> {
        let dtype = self.chosen_dtype();
        if !(dtype == DType::F32 || dtype == DType::BF16 && self.device == Device::Cuda) {
            Some(Failure::Config("GLiNER2.5-Decide supports f32, or bf16 on CUDA"@))
        } else if self.batch_size == 0 || self.max_len < 2 {
            Some(Failure::Config("batch size must be positive and max length at least two"@))
        } else {
            None
        }
    }

    /// The element type to load the model in, where the settings can be
    /// used.
    pub fn resolve(&self) -> (result: Result<DType, SystemOneError>)
        ensures
            match result {
                Ok(dtype) => self.failure() is None && dtype == self.chosen_dtype(),
                Err(e) => self.failure() == Some(e@),
            },
    {
        let dtype = match self.dtype {
            Some(dtype) => dtype,
            None => if self.device == Device::Cuda {
                DType::BF16
            } else {
                DType::F32
            },
        };
        if !(dtype == DType::F32 || dtype == DType::BF16) || (dtype == DType::BF16 && self.device
            != Device::Cuda) {
            return Err(config_error("GLiNER2.5-Decide supports f32, or bf16 on CUDA"));
        }
        if self.batch_size == 0 || self.max_len < 2 {
            return Err(config_error("batch size must be positive and max length at least two"));
        }
        Ok(dtype)
    }

    /// The revision to fetch: the default repository is pinned.
    pub fn revision(&self) -> (revision: &'static str)
        ensures
            revision@ == if self.repo@ == DEFAULT_REPO_ID@ {
                DEFAULT_REVISION@
            } else {
                "main"@
            },
    {
        if same(self.repo.as_str(), DEFAULT_REPO_ID) {
            DEFAULT_REVISION
        } else {
            "main"
        }
    }
}

/// The files of a checkpoint: configuration, encoder configuration,
/// tokenizer, weights.
pub fn checkpoint_files() -> (files: Vec<&'static str>)
    ensures
        files@.map_values(|f: &'static str| f@) == seq![
            "config.json"@,
            "encoder_config/config.json"@,
            "tokenizer.json"@,
            "model.safetensors"@,
        ],
{
    let files: Vec<&'static str> = vec![
        "config.json",
        "encoder_config/config.json",
        "tokenizer.json",
        "model.safetensors",
    ];
    assert(files@.map_values(|f: &'static str| f@) =~= seq![
        "config.json"@,
        "encoder_config/config.json"@,
        "tokenizer.json"@,
        "model.safetensors"@,
    ]);
    files
}

/// Marker `i` of the schema is the first that the vocabulary lacks.
pub open spec fn first_missing(tokenizer: Tokenizer, i: int) -> bool {
    &&& 0 <= i < reserved_markers().len()
    &&& token_id(tokenizer, reserved_markers()[i]) is None
    &&& forall|k: int|
        0 <= k < i ==> token_id(tokenizer, #[trigger] reserved_markers()[k]) is Some
}

/// The vocabulary holds every marker of the schema.
pub open spec fn knows_markers(tokenizer: Tokenizer) -> bool {
    forall|k: int|
        0 <= k < reserved_markers().len() ==> token_id(
            tokenizer,
            #[trigger] reserved_markers()[k],
        ) is Some
}

/// Accepts a tokenizer whose vocabulary holds every marker of the schema.
pub fn check_markers(tokenizer: &Tokenizer) -> (result: Result<(), SystemOneError>)
    ensures
        result is Ok <==> knows_markers(*tokenizer),
        result matches Err(e) ==> exists|i: int| #[trigger]
            first_missing(*tokenizer, i) && e@ == Failure::Config(
                "tokenizer lacks "@ + reserved_markers()[i],
            ),
{
    let markers = reserved_list();
    let ghost listed = markers@.map_values(|m: &'static str| m@);
    let mut i: usize = 0;
    while i < markers.len()
        invariant
            i <= markers.len(),
            listed == markers@.map_values(|m: &'static str| m@),
            listed == reserved_markers(),
            forall|k: int|
                0 <= k < i ==> token_id(*tokenizer, #[trigger] reserved_markers()[k]) is Some,
        decreases markers.len() - i,
    {
        assert(reserved_markers()[i as int] == markers@[i as int]@);
        if token_to_id(tokenizer, markers[i]).is_none() {
            assert(first_missing(*tokenizer, i as int));
            let mut message = "tokenizer lacks ".to_owned();
            message.append(markers[i]);
            return Err(config_error(message.as_str()));
        }
        i += 1;
    }
    Ok(())
}

/// Why a checkpoint cannot be loaded, looked at before its tokenizer is.
pub open spec fn load_failure(
    builder: &GlinerDecideBuilder,
    config: &GlinerConfig,
    encoder: DebertaConfig,
) -> Option<Failure> {
    if builder.failure() is Some {
        builder.failure()
    } else if !config.fits() {
        Some(Failure::Config("unsupported GLiNER2 architecture settings"@))
    } else if !encoder.fits() {
        Some(Failure::Config("unsupported DeBERTa encoder settings"@))
    } else {
        None
    }
}

impl GlinerDecide {
    /// The settings of a model that is to be loaded from `repo`.
    pub fn from(repo: &str) -> (builder: GlinerDecideBuilder)
        ensures
            builder.repo@ == repo@,
            builder.device == Device::Cpu,
            builder.dtype is None,
            builder.batch_size == 8,
            builder.max_len == 512,
    {
        GlinerDecideBuilder {
            repo: repo.to_owned(),
            device: Device::Cpu,
            dtype: None,
            batch_size: 8,
            max_len: 512,
        }
    }

    /// Accepts the parts of a checkpoint, in the order in which they are
    /// read, and sets the tokenizer up to leave encodings whole.
    pub fn load(
        builder: &GlinerDecideBuilder,
        config: &GlinerConfig,
        encoder: DebertaConfig,
        tokenizer: Tokenizer,
        words: Words,
    ) -> (result: Result<GlinerDecide, SystemOneError>)
        requires
            words.wf(),
            load_failure(builder, config, encoder) is None && knows_markers(tokenizer)
                ==> one_sided(tokenizer) && steady(tokenizer),
        ensures
            match result {
                Ok(model) => {
                    &&& load_failure(builder, config, encoder) is None
                    &&& knows_markers(tokenizer)
                    &&& model.wf()
                    &&& Some(model.label) == token_id(tokenizer, LABEL@)
                    &&& model.words == words
                    &&& model.vocab_size == encoder.vocab_size
                    &&& model.device == builder.device
                    &&& model.dtype == builder.chosen_dtype()
                    &&& model.batch_size == builder.batch_size
                    &&& model.max_len == builder.max_len
                    &&& cut_length(model.tokenizer) is None
                    &&& !pads(model.tokenizer)
                    &&& same_vocabulary(tokenizer, model.tokenizer)
                },
                Err(e) => match load_failure(builder, config, encoder) {
                    Some(failure) => failure == e@,
                    None => exists|i: int| #[trigger]
                        first_missing(tokenizer, i) && e@ == Failure::Config(
                            "tokenizer lacks "@ + reserved_markers()[i],
                        ),
                },
            },
    {
        let dtype = match builder.resolve() {
            Ok(dtype) => dtype,
            Err(e) => {
                return Err(e);
            },
        };
        match config.check() {
            Ok(_) => {},
            Err(e) => {
                return Err(e);
            },
        }
        match encoder.check() {
            Ok(_) => {},
            Err(e) => {
                return Err(e);
            },
        }
        match check_markers(&tokenizer) {
            Ok(_) => {},
            Err(e) => {
                return Err(e);
            },
        }
        assert(reserved_markers()[6] == LABEL@);
        let label = match token_to_id(&tokenizer, LABEL) {
            Some(label) => label,
            None => 0,
        };
        let mut tokenizer = tokenizer;
        keep_encodings_whole(&mut tokenizer);
        Ok(
            GlinerDecide {
                tokenizer,
                words,
                label,
                vocab_size: encoder.vocab_size,
                device: builder.device,
                dtype,
                batch_size: builder.batch_size,
                max_len: builder.max_len,
            },
        )
    }

    /// The model's name.
    pub fn model_name(&self) -> (name: &'static str)
        ensures
            name@ == MODEL_NAME@,
    {
        MODEL_NAME
    }

    /// The device the model runs on.
    pub fn device(&self) -> (device: Device)
        ensures
            device == self.device,
    {
        self.device
    }

    /// The element type the model runs in.
    pub fn dtype(&self) -> (dtype: DType)
        ensures
            dtype == self.dtype,
    {
        self.dtype
    }

    /// How many tokens an input may have, schema included.
    pub fn context_tokens(&self) -> (tokens: usize)
        ensures
            tokens == self.max_len,
    {
        self.max_len
    }
}

} // verus!
