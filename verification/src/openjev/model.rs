//! Settings of an OpenJev model, and the inputs it is evaluated on.
use crate::device::{DType, Device};
use crate::error::{config_error, question_error, Failure, SystemOneError};
use crate::openjev::prompt::{
    format_input, formatted, ABSTENTION_ID, DEFAULT_REPO_ID, DEFAULT_REVISION, LABEL, MODEL_NAME,
    SEPARATOR,
};
use crate::score::Float;
use crate::table::{has_key, lookup, Table};
use crate::text::{all_distinct, decimal, decimal_text, same, texts};
use crate::tokens::{
    added_tokens, complete_template, copy_tokenizer, cut_encodings, encode, encodes, encoding,
    find_positions, holds_token, keep_encodings_whole, one_sided, positions, same_numbers, steady,
    token_id, token_to_id,
};
use crate::types::{Question, SystemOneRequest};
use tokenizers::Tokenizer;
use vstd::prelude::*;

verus! {

/// The settings of a checkpoint that decide whether it can be run.
#[derive(Debug)]
pub struct OpenJevConfig {
    pub model_type: String,
    pub architecture_type: String,
    pub hidden_size: usize,
    /// The token that marks a candidate.
    pub class_token_index: u32,
    /// The token that ends the candidates.
    pub text_token_index: u32,
    /// Candidates per question, the abstention among them.
    pub max_num_classes: usize,
    pub pooling_strategy: String,
    pub class_token_pooling: String,
    pub scorer_type: String,
    pub projector_hidden_act: String,
    pub embed_class_token: bool,
    pub extract_text_features: bool,
    pub normalize_features: bool,
    pub use_lstm: bool,
    pub use_segment_embeddings: bool,
    pub layer_wise: bool,
    pub squeeze_layers: bool,
    pub prompt_first: bool,
    pub encoder_layer_id: i64,
    /// Token ids stay below this; zero where the encoder names no size.
    pub vocab_size: usize,
}

/// The settings of a checkpoint's encoder.
#[derive(Clone, Copy, Debug)]
pub struct EncoderConfig {
    pub hidden_size: usize,
    pub max_position_embeddings: usize,
    pub pad_token_id: u32,
}

impl OpenJevConfig {
    /// The architecture that the model is written for.
    pub open spec fn architecture_fits(&self) -> bool {
        &&& self.model_type@ == "GLiClass"@
        &&& self.architecture_type@ == "uni-encoder"@
        &&& self.pooling_strategy@ == "first"@
        &&& self.class_token_pooling@ == "first"@
        &&& self.scorer_type@ == "simple"@
        &&& self.projector_hidden_act@ == "gelu"@
        &&& self.embed_class_token
        &&& !self.extract_text_features
        &&& !self.normalize_features
        &&& !self.use_lstm
        &&& !self.use_segment_embeddings
        &&& !self.layer_wise
        &&& !self.squeeze_layers
        &&& self.prompt_first
        &&& self.encoder_layer_id == -1
    }

    /// The projectors match the encoder, and the class capacity is one the
    /// model was trained for.
    pub open spec fn encoder_fits(&self, encoder: EncoderConfig) -> bool {
        encoder.hidden_size == self.hidden_size && 3 <= self.max_num_classes <= 25
    }

    /// Why the checkpoint cannot be run with this encoder.
    pub open spec fn encoder_failure(&self, encoder: EncoderConfig) -> Option<Failure> {
        if !self.architecture_fits() {
            Some(Failure::Config("unsupported OpenJev/GLiClass architecture settings"@))
        } else if !self.encoder_fits(encoder) {
            Some(Failure::Config("unsupported OpenJev projector width or class capacity"@))
        } else {
            None
        }
    }

    /// Accepts the architecture settings of a checkpoint, which are looked at
    /// before its encoder is.
    pub fn check_architecture(&self) -> (result: Result<(), SystemOneError>)
        ensures
            result is Ok <==> self.architecture_fits(),
            result matches Err(e) ==> e@ == Failure::Config(
                "unsupported OpenJev/GLiClass architecture settings"@,
            ),
    {
        if !same(self.model_type.as_str(), "GLiClass") || !same(
            self.architecture_type.as_str(),
            "uni-encoder",
        ) || !same(self.pooling_strategy.as_str(), "first") || !same(
            self.class_token_pooling.as_str(),
            "first",
        ) || !same(self.scorer_type.as_str(), "simple") || !same(
            self.projector_hidden_act.as_str(),
            "gelu",
        ) || !self.embed_class_token || self.extract_text_features || self.normalize_features
            || self.use_lstm || self.use_segment_embeddings || self.layer_wise || self.squeeze_layers
            || !self.prompt_first || self.encoder_layer_id != -1 {
            return Err(config_error("unsupported OpenJev/GLiClass architecture settings"));
        }
        Ok(())
    }

    /// Accepts a checkpoint with its encoder.
    pub fn encoder(&self, encoder: EncoderConfig) -> (result: Result<(), SystemOneError>)
        ensures
            match result {
                Ok(_) => self.encoder_failure(encoder) is None,
                Err(e) => self.encoder_failure(encoder) == Some(e@),
            },
    {
        match self.check_architecture() {
            Ok(_) => {},
            Err(e) => {
                return Err(e);
            },
        }
        if encoder.hidden_size != self.hidden_size || self.max_num_classes < 3
            || self.max_num_classes > 25 {
            return Err(config_error("unsupported OpenJev projector width or class capacity"));
        }
        Ok(())
    }
}

/// The temperatures that logits are divided by.
pub struct Calibration {
    pub temperature: Float,
    /// Temperatures for particular numbers of candidates, under the number.
    pub per_k: Table<Float>,
}

impl Calibration {
    /// Every temperature is finite and positive.
    pub open spec fn valid(&self) -> bool {
        self.temperature.positive() && forall|i: int|
            0 <= i < self.per_k@.len() ==> (#[trigger] self.per_k@[i]).1.positive()
    }

    /// The temperature for `k` candidates: its own where it has one.
    pub open spec fn temperature_for(&self, k: nat) -> Float {
        if has_key(self.per_k@, decimal(k)) {
            lookup(self.per_k@, decimal(k))
        } else {
            self.temperature
        }
    }

    /// Accepts the temperatures.
    pub fn validate(&self) -> (result: Result<(), SystemOneError>)
        requires
            self.per_k.wf(),
        ensures
            result is Ok <==> self.valid(),
            result matches Err(e) ==> e@ == Failure::Config(
                "OpenJev temperatures must be finite and positive"@,
            ),
    {
        let mut good = self.temperature.is_positive();
        let mut i: usize = 0;
        while i < self.per_k.len()
            invariant
                self.per_k.wf(),
                i <= self.per_k@.len(),
                good == (self.temperature.positive() && forall|k: int|
                    0 <= k < i ==> (#[trigger] self.per_k@[k]).1.positive()),
            decreases self.per_k@.len() - i,
        {
            good = self.per_k.value(i).is_positive() && good;
            i += 1;
        }
        if !good {
            return Err(config_error("OpenJev temperatures must be finite and positive"));
        }
        Ok(())
    }

    /// The temperature for `k` candidates.
    pub fn temperature(&self, k: usize) -> (temperature: Float)
        requires
            self.per_k.wf(),
        ensures
            temperature == self.temperature_for(k as nat),
    {
        match self.per_k.get(decimal_text(k).as_str()) {
            Some(t) => *t,
            None => self.temperature,
        }
    }
}

/// How an OpenJev model is to be loaded.
#[derive(Debug)]
pub struct OpenJevBuilder {
    pub repo: String,
    pub device: Device,
    pub dtype: Option<DType>,
    pub batch_size: usize,
    pub max_len: usize,
}

impl OpenJevBuilder {
    /// The same settings on another device.
    pub fn with_device(self, device: Device) -> (builder: Self)
        ensures
            builder == (OpenJevBuilder { device, ..self }),
    {
        OpenJevBuilder { device, ..self }
    }

    /// The same settings with an element type. Without one the model runs in
    /// BF16 on CUDA and in F32 elsewhere. BF16 is approximate and needs CUDA.
    pub fn with_dtype(self, dtype: DType) -> (builder: Self)
        ensures
            builder == (OpenJevBuilder { dtype: Some(dtype), ..self }),
    {
        OpenJevBuilder { dtype: Some(dtype), ..self }
    }

    /// The same settings with another number of questions per forward pass.
    pub fn with_batch_size(self, batch_size: usize) -> (builder: Self)
        ensures
            builder == (OpenJevBuilder { batch_size, ..self }),
    {
        OpenJevBuilder { batch_size, ..self }
    }

    /// The same settings with another prompt length.
    pub fn with_max_len(self, max_len: usize) -> (builder: Self)
        ensures
            builder == (OpenJevBuilder { max_len, ..self }),
    {
        OpenJevBuilder { max_len, ..self }
    }

    /// The element type that these settings come to.
    pub open spec fn chosen_dtype(&self, cuda_built: bool) -> DType {
        match self.dtype {
            Some(dtype) => dtype,
            None => if self.device == Device::Cuda && cuda_built {
                DType::BF16
            } else {
                DType::F32
            },
        }
    }

    /// Why these settings cannot be used.
    pub open spec fn failure(&self, cuda_built: bool) -> Option<Failure> {
        let dtype = self.chosen_dtype(cuda_built);
        if !(dtype == DType::F32 || dtype == DType::BF16 && self.device == Device::Cuda
            && cuda_built) {
            Some(Failure::Config("OpenJev supports f32, or bf16 on CUDA"@))
        } else if self.batch_size == 0 || self.max_len < 2 {
            Some(Failure::Config("batch size must be positive and max length at least two"@))
        } else {
            None
        }
    }

    /// The element type to load the model in, where the settings can be
    /// used. `cuda_built` says whether CUDA kernels are part of the program.
    pub fn resolve(&self, cuda_built: bool) -> (result: Result<DType, SystemOneError>)
        ensures
            match result {
                Ok(dtype) => self.failure(cuda_built) is None && dtype == self.chosen_dtype(
                    cuda_built,
                ),
                Err(e) => self.failure(cuda_built) == Some(e@),
            },
    {
        let on_cuda = self.device == Device::Cuda && cuda_built;
        let dtype = match self.dtype {
            Some(dtype) => dtype,
            None => if on_cuda {
                DType::BF16
            } else {
                DType::F32
            },
        };
        if !(dtype == DType::F32 || dtype == DType::BF16) || (dtype == DType::BF16 && !on_cuda) {
            return Err(config_error("OpenJev supports f32, or bf16 on CUDA"));
        }
        if self.batch_size == 0 || self.max_len < 2 {
            return Err(config_error("batch size must be positive and max length at least two"));
        }
        Ok(dtype)
    }

    /// The revision to fetch: the default repository is pinned.
    pub fn revision(&self) -> (revision: &'static str)
        ensures
            revision@ == if self.repo@ == DEFAULT_REPO_ID@ {
                DEFAULT_REVISION@
            } else {
                "main"@
            },
    {
        if same(self.repo.as_str(), DEFAULT_REPO_ID) {
            DEFAULT_REVISION
        } else {
            "main"
        }
    }
}

/// The files of a checkpoint: configuration, calibration, tokenizer, weights.
pub fn checkpoint_files() -> (files: Vec<&'static str>)
    ensures
        files@.map_values(|f: &'static str| f@) == seq![
            "config.json"@,
            "calibrator.json"@,
            "tokenizer.json"@,
            "model.safetensors"@,
        ],
{
    let files: Vec<&'static str> = vec![
        "config.json",
        "calibrator.json",
        "tokenizer.json",
        "model.safetensors",
    ];
    assert(files@.map_values(|f: &'static str| f@) =~= seq![
        "config.json"@,
        "calibrator.json"@,
        "tokenizer.json"@,
        "model.safetensors"@,
    ]);
    files
}

/// Tokens and marker positions for one question.
#[derive(Debug)]
pub struct OpenJevInput {
    pub prompt: String,
    pub ids: Vec<u32>,
    pub markers: Vec<usize>,
    pub candidates: Vec<String>,
}

/// An input with its values as sequences.
pub struct InputView {
    pub prompt: Seq<char>,
    pub ids: Seq<u32>,
    pub markers: Seq<usize>,
    pub candidates: Seq<Seq<char>>,
}

impl View for OpenJevInput {
    type V = InputView;

    open spec fn view(&self) -> InputView {
        InputView {
            prompt: self.prompt@,
            ids: self.ids@,
            markers: self.markers@,
            candidates: texts(self.candidates@),
        }
    }
}

/// A loaded model: everything but its weights.
pub struct OpenJev {
    /// Cuts prompts to the model's length.
    pub tokenizer: Tokenizer,
    /// Leaves prompts whole, to measure them.
    pub whole: Tokenizer,
    pub calibration: Calibration,
    pub config: OpenJevConfig,
    pub device: Device,
    pub dtype: DType,
    /// Fills rows up to the length of their batch.
    pub pad: u32,
    pub batch_size: usize,
    pub max_len: usize,
}

/// Why a checkpoint cannot be loaded with these settings.
pub open spec fn load_failure(
    builder: &OpenJevBuilder,
    cuda_built: bool,
    config: &OpenJevConfig,
    encoder: EncoderConfig,
    calibration: &Calibration,
    tokenizer: Tokenizer,
) -> Option<Failure> {
    if builder.failure(cuda_built) is Some {
        builder.failure(cuda_built)
    } else if config.encoder_failure(encoder) is Some {
        config.encoder_failure(encoder)
    } else if builder.max_len > encoder.max_position_embeddings {
        Some(Failure::Config("max length exceeds encoder position capacity"@))
    } else if !calibration.valid() {
        Some(Failure::Config("OpenJev temperatures must be finite and positive"@))
    } else if token_id(tokenizer, LABEL@) != Some(config.class_token_index) || token_id(
        tokenizer,
        SEPARATOR@,
    ) != Some(config.text_token_index) {
        Some(Failure::Config("OpenJev tokenizer markers do not match config"@))
    } else {
        None
    }
}

/// What building an input from the tokens of its prompt gives.
pub open spec fn built(
    prompt: Seq<char>,
    candidates: Seq<Seq<char>>,
    id: Seq<char>,
    ids: Seq<u32>,
    class_token: u32,
    text_token: u32,
) -> Result<InputView, Failure> {
    let markers = positions(ids, class_token);
    if markers.len() != candidates.len() || !ids.contains(text_token) {
        Err(
            Failure::Question {
                id,
                reason: "candidate header was truncated; shorten the descriptions"@,
            },
        )
    } else {
        Ok(InputView { prompt, ids, markers, candidates })
    }
}

/// The result of building an input, with its values as sequences.
pub open spec fn input_outcome(result: Result<OpenJevInput, SystemOneError>) -> Result<
    InputView,
    Failure,
> {
    match result {
        Ok(input) => Ok(input@),
        Err(error) => Err(error@),
    }
}

/// Builds an input from the tokens of its prompt: every candidate must have
/// kept its marker, and the separator must still be there.
pub fn input_from_tokens(
    prompt: String,
    candidates: Vec<String>,
    id: &str,
    ids: Vec<u32>,
    class_token: u32,
    text_token: u32,
) -> (result: Result<OpenJevInput, SystemOneError>)
    ensures
        input_outcome(result) == built(
            prompt@,
            texts(candidates@),
            id@,
            ids@,
            class_token,
            text_token,
        ),
{
    let markers = find_positions(&ids, class_token);
    if markers.len() != candidates.len() || !holds_token(&ids, text_token) {
        return Err(
            question_error(id, "candidate header was truncated; shorten the descriptions"),
        );
    }
    Ok(OpenJevInput { prompt, ids, markers, candidates })
}

impl OpenJev {
    /// The settings that a loaded model has.
    pub open spec fn wf(&self) -> bool {
        &&& encodes(self.tokenizer, true)
        &&& encodes(self.whole, true)
        &&& self.calibration.per_k.wf()
        &&& self.calibration.valid()
        &&& 3 <= self.config.max_num_classes <= 25
        &&& self.batch_size > 0
        &&& self.max_len >= 2
    }

    /// The settings of a model that is to be loaded from `repo`.
    pub fn from(repo: &str) -> (builder: OpenJevBuilder)
        ensures
            builder.repo@ == repo@,
            builder.device == Device::Cpu,
            builder.dtype is None,
            builder.batch_size == 16,
            builder.max_len == 512,
    {
        OpenJevBuilder {
            repo: repo.to_owned(),
            device: Device::Cpu,
            dtype: None,
            batch_size: 16,
            max_len: 512,
        }
    }

    /// Accepts the parts of a checkpoint, in the order in which they are
    /// read, and sets the tokenizer up to cut prompts to the model's length.
    /// Where nothing is wrong with the other parts, the special tokens have
    /// to fit within that length.
    pub fn load(
        builder: &OpenJevBuilder,
        cuda_built: bool,
        config: OpenJevConfig,
        encoder: EncoderConfig,
        calibration: Calibration,
        tokenizer: Tokenizer,
    ) -> (result: Result<OpenJev, SystemOneError>)
        requires
            calibration.per_k.wf(),
            load_failure(builder, cuda_built, &config, encoder, &calibration, tokenizer) is None ==> {
                &&& added_tokens(tokenizer) <= builder.max_len
                &&& one_sided(tokenizer)
                &&& complete_template(tokenizer)
                &&& steady(tokenizer)
            },
        ensures
            match result {
                Ok(model) => {
                    &&& load_failure(
                        builder,
                        cuda_built,
                        &config,
                        encoder,
                        &calibration,
                        tokenizer,
                    ) is None
                    &&& model.wf()
                    &&& model.config == config
                    &&& model.calibration == calibration
                    &&& model.device == builder.device
                    &&& model.dtype == builder.chosen_dtype(cuda_built)
                    &&& model.pad == encoder.pad_token_id
                    &&& model.batch_size == builder.batch_size
                    &&& model.max_len == builder.max_len
                    &&& crate::tokens::cut_length(model.tokenizer) == Some(builder.max_len)
                    &&& !crate::tokens::pads(model.tokenizer)
                    &&& crate::tokens::same_vocabulary(tokenizer, model.tokenizer)
                    &&& crate::tokens::cut_length(model.whole) is None
                    &&& !crate::tokens::pads(model.whole)
                    &&& crate::tokens::same_vocabulary(tokenizer, model.whole)
                },
                Err(e) => load_failure(
                    builder,
                    cuda_built,
                    &config,
                    encoder,
                    &calibration,
                    tokenizer,
                ) == Some(e@),
            },
    {
        let dtype = match builder.resolve(cuda_built) {
            Ok(dtype) => dtype,
            Err(e) => {
                return Err(e);
            },
        };
        match config.encoder(encoder) {
            Ok(_) => {},
            Err(e) => {
                return Err(e);
            },
        }
        if builder.max_len > encoder.max_position_embeddings {
            return Err(config_error("max length exceeds encoder position capacity"));
        }
        match calibration.validate() {
            Ok(_) => {},
            Err(e) => {
                return Err(e);
            },
        }
        let mut tokenizer = tokenizer;
        let label = token_to_id(&tokenizer, LABEL);
        let separator = token_to_id(&tokenizer, SEPARATOR);
        let matching = match (label, separator) {
            (Some(l), Some(s)) => l == config.class_token_index && s == config.text_token_index,
            _ => false,
        };
        if !matching {
            return Err(config_error("OpenJev tokenizer markers do not match config"));
        }
        let mut whole = copy_tokenizer(&tokenizer);
        keep_encodings_whole(&mut whole);
        let _ = cut_encodings(&mut tokenizer, builder.max_len);
        Ok(
            OpenJev {
                tokenizer,
                whole,
                calibration,
                config,
                device: builder.device,
                dtype,
                pad: encoder.pad_token_id,
                batch_size: builder.batch_size,
                max_len: builder.max_len,
            },
        )
    }

    /// The model's name.
    pub fn model_name(&self) -> (name: &'static str)
        ensures
            name@ == MODEL_NAME@,
    {
        MODEL_NAME
    }

    /// The device the model runs on.
    pub fn device(&self) -> (device: Device)
        ensures
            device == self.device,
    {
        self.device
    }

    /// The element type the model runs in.
    pub fn dtype(&self) -> (dtype: DType)
        ensures
            dtype == self.dtype,
    {
        self.dtype
    }

    /// The length prompts are cut to.
    pub fn max_len(&self) -> (max_len: usize)
        ensures
            max_len == self.max_len,
    {
        self.max_len
    }

    /// `outcome` is one that building the input of a question may have: it
    /// follows from some encoding of the question's prompt.
    pub open spec fn may_build(
        &self,
        state: Seq<char>,
        id: Seq<char>,
        q: &Question,
        outcome: Result<InputView, Failure>,
    ) -> bool {
        match formatted(state, id, q, self.config.max_num_classes as nat) {
            Err(failure) => outcome == Err::<InputView, Failure>(failure),
            Ok(made) => exists|encoded: Result<Seq<u32>, Seq<char>>|
                #[trigger] encoding(self.tokenizer, made.0, true, encoded) && outcome == (
                match encoded {
                    Err(message) => Err(Failure::Tokenizer(message)),
                    Ok(ids) => built(
                        made.0,
                        made.1,
                        id,
                        ids,
                        self.config.class_token_index,
                        self.config.text_token_index,
                    ),
                }),
        }
    }

    /// Builds the input for a question about `state`.
    pub fn build_input(&self, state: &str, id: &str, question: &Question) -> (result: Result<
        OpenJevInput,
        SystemOneError,
    >)
        requires
            self.wf(),
        ensures
            self.may_build(state@, id@, question, input_outcome(result)),
    {
        match format_input(state, id, question, self.config.max_num_classes) {
            Err(e) => Err(e),
            Ok(made) => {
                let (prompt, candidates) = made;
                match encode(&self.tokenizer, prompt.as_str(), true) {
                    Err(message) => Err(SystemOneError::Tokenizer(message)),
                    Ok(ids) => {
                        let ghost encoded: Result<Seq<u32>, Seq<char>> = Ok(ids@);
                        assert(encoding(self.tokenizer, prompt@, true, encoded));
                        input_from_tokens(
                            prompt,
                            candidates,
                            id,
                            ids,
                            self.config.class_token_index,
                            self.config.text_token_index,
                        )
                    },
                }
            },
        }
    }

    /// `outcome` is one that measuring the prompt of a question may have: the
    /// number of its tokens where nothing is cut.
    pub open spec fn may_need(
        &self,
        state: Seq<char>,
        id: Seq<char>,
        question: &Question,
        outcome: Result<nat, Failure>,
    ) -> bool {
        match formatted(state, id, question, self.config.max_num_classes as nat) {
            Err(failure) => outcome == Err::<nat, Failure>(failure),
            Ok(made) => exists|encoded: Result<Seq<u32>, Seq<char>>|
                #[trigger] encoding(self.whole, made.0, true, encoded) && outcome == (
                match encoded {
                    Err(message) => Err(Failure::Tokenizer(message)),
                    Ok(ids) => Ok(ids.len()),
                }),
        }
    }

    /// The tokens of the prompt of a question where nothing is cut.
    pub fn prompt_tokens(&self, state: &str, id: &str, question: &Question) -> (result: Result<
        usize,
        SystemOneError,
    >)
        requires
            self.wf(),
        ensures
            self.may_need(
                state@,
                id@,
                question,
                match result {
                    Ok(tokens) => Ok(tokens as nat),
                    Err(e) => Err(e@),
                },
            ),
    {
        match format_input(state, id, question, self.config.max_num_classes) {
            Err(e) => Err(e),
            Ok(made) => {
                let prompt = made.0;
                assert(prompt@ == formatted(
                    state@,
                    id@,
                    question,
                    self.config.max_num_classes as nat,
                )->Ok_0.0);
                match encode(&self.whole, prompt.as_str(), true) {
                    Err(message) => {
                        let ghost encoded: Result<Seq<u32>, Seq<char>> = Err(message@);
                        assert(encoding(self.whole, prompt@, true, encoded));
                        Err(SystemOneError::Tokenizer(message))
                    },
                    Ok(ids) => {
                        let ghost encoded: Result<Seq<u32>, Seq<char>> = Ok(ids@);
                        assert(encoding(self.whole, prompt@, true, encoded));
                        Ok(ids.len())
                    },
                }
            },
        }
    }

    /// `outcome` is one that measuring question `k` of a request may have.
    pub open spec fn may_measure(
        &self,
        request: &SystemOneRequest,
        k: int,
        outcome: Result<nat, Failure>,
    ) -> bool {
        self.may_need(
            request.state.text@,
            request.questions@[k].0,
            &request.questions@[k].1,
            outcome,
        )
    }

    /// The prompt of question `k` may be measured and found to fit.
    pub open spec fn may_fit(&self, request: &SystemOneRequest, k: int) -> bool {
        exists|needed: nat|
            needed <= self.max_len && #[trigger] self.may_measure(request, k, Ok(needed))
    }

    /// The first `n` questions may have been measured and found to fit.
    pub open spec fn may_fit_up_to(&self, request: &SystemOneRequest, n: int) -> bool {
        forall|k: int| 0 <= k < n ==> #[trigger] self.may_fit(request, k)
    }

    /// The result says whether the prompt of every question fits without
    /// being cut, or why one could not be measured. The first question that
    /// does not fit, or cannot be measured, decides.
    pub open spec fn measures(
        &self,
        request: &SystemOneRequest,
        result: Result<bool, SystemOneError>,
    ) -> bool {
        let n = request.questions@.len() as int;
        match result {
            Ok(true) => self.may_fit_up_to(request, n),
            Ok(false) => exists|k: int, needed: nat|
                {
                    &&& 0 <= k < n
                    &&& self.may_fit_up_to(request, k)
                    &&& needed > self.max_len
                    &&& #[trigger] self.may_measure(request, k, Ok(needed))
                },
            Err(e) => exists|k: int|
                {
                    &&& 0 <= k < n
                    &&& self.may_fit_up_to(request, k)
                    &&& #[trigger] self.may_measure(request, k, Err(e@))
                },
        }
    }

    /// Whether the prompt of every question fits without being cut.
    pub fn request_fits(&self, request: &SystemOneRequest) -> (result: Result<bool, SystemOneError>)
        requires
            self.wf(),
            request.wf(),
        ensures
            self.measures(request, result),
    {
        let state = request.state.render();
        let mut k: usize = 0;
        while k < request.questions.len()
            invariant
                self.wf(),
                request.wf(),
                state@ == request.state.text@,
                k <= request.questions@.len(),
                self.may_fit_up_to(request, k as int),
            decreases request.questions@.len() - k,
        {
            match self.prompt_tokens(
                state.as_str(),
                request.questions.key(k),
                request.questions.value(k),
            ) {
                Err(e) => {
                    assert(self.may_measure(request, k as int, Err(e@)));
                    return Err(e);
                },
                Ok(tokens) => {
                    assert(self.may_measure(request, k as int, Ok(tokens as nat)));
                    if tokens > self.max_len {
                        return Ok(false);
                    }
                },
            }
            k += 1;
        }
        Ok(true)
    }

    /// An input that the model can be evaluated on.
    pub open spec fn valid_input(&self, input: InputView) -> bool {
        &&& 0 < input.ids.len() <= self.max_len
        &&& input.markers == positions(input.ids, self.config.class_token_index)
        &&& input.markers.len() == input.candidates.len()
        &&& 3 <= input.markers.len() <= self.config.max_num_classes
        &&& input.candidates.last() == ABSTENTION_ID@
        &&& input.candidates.no_duplicates()
        &&& input.ids.contains(self.config.text_token_index)
        &&& forall|i: int|
            0 <= i < input.candidates.len() ==> (#[trigger] input.candidates[i]).len() > 0
                && input.candidates[i] != "insufficient_evidence"@
        &&& forall|i: int| 0 <= i < input.ids.len() ==> #[trigger] input.ids[i] < self.config.vocab_size
    }

    /// Whether the model can be evaluated on this input.
    pub fn accepts(&self, input: &OpenJevInput) -> (yes: bool)
        ensures
            yes == self.valid_input(input@),
    {
        let actual = find_positions(&input.ids, self.config.class_token_index);
        if input.ids.len() == 0 || input.ids.len() > self.max_len {
            return false;
        }
        if !same_numbers(&actual, &input.markers) || input.markers.len() != input.candidates.len()
            || actual.len() < 3 || actual.len() > self.config.max_num_classes {
            return false;
        }
        assert(texts(input.candidates@).last() == input.candidates@.last()@);
        if !same(input.candidates[input.candidates.len() - 1].as_str(), ABSTENTION_ID)
            || !all_distinct(&input.candidates) || !holds_token(
            &input.ids,
            self.config.text_token_index,
        ) {
            return false;
        }
        let mut i: usize = 0;
        while i < input.candidates.len()
            invariant
                i <= input.candidates.len(),
                forall|k: int|
                    0 <= k < i ==> (#[trigger] input@.candidates[k]).len() > 0
                        && input@.candidates[k] != "insufficient_evidence"@,
            decreases input.candidates.len() - i,
        {
            let name = input.candidates[i].as_str();
            assert(input@.candidates[i as int] == name@);
            if name.is_empty() || same(name, "insufficient_evidence") {
                return false;
            }
            i += 1;
        }
        let mut j: usize = 0;
        while j < input.ids.len()
            invariant
                j <= input.ids.len(),
                forall|k: int| 0 <= k < j ==> #[trigger] input@.ids[k] < self.config.vocab_size,
            decreases input.ids.len() - j,
        {
            if input.ids[j] as usize >= self.config.vocab_size {
                assert(input@.ids[j as int] >= self.config.vocab_size);
                return false;
            }
            j += 1;
        }
        true
    }
}

} // verus!
