use tokenizers::models::wordlevel::WordLevel;
use tokenizers::pre_tokenizers::whitespace::WhitespaceSplit;
use tokenizers::{AddedToken, Tokenizer};
use vs1::backend::Fit;
use vs1::device::{DType, Device};
use vs1::openjev::answer::{answer, prediction, respond, substantive_ids, OpenJevPrediction, Shares};
use vs1::openjev::model::{
    checkpoint_files, input_from_tokens, Calibration, EncoderConfig, OpenJev, OpenJevConfig, OpenJevInput,
};
use vs1::openjev::prompt::{format_input, ABSTENTION_ID, DEFAULT_REPO_ID, DEFAULT_REVISION};
use vs1::responses::Evaluated;
use vs1::score::Float;
use vs1::table::Table;
use vs1::{
    Answer, ChoiceCriteria, ChoiceOption, ChoiceQuestion, DecisionModel, Description, NoulCriteria,
    NoulQuestion, Question, ScoreQuestion, SystemOneError, SystemOneRequest,
};

fn float(x: f32) -> Float {
    Float { bits: x.to_bits() }
}

fn number(x: Float) -> f32 {
    f32::from_bits(x.bits)
}

fn floats(values: &[f32]) -> Vec<Float> {
    values.iter().map(|&x| float(x)).collect()
}

fn per_k(entries: &[(&str, f32)]) -> Table<Float> {
    let mut table: Table<Float> = Table::new();
    for (k, t) in entries {
        table.insert(k.to_string(), float(*t));
    }
    table
}

fn labels(names: &[&str]) -> Question {
    Question::Choice(ChoiceQuestion {
        instructions: Description::new(""),
        criteria: ChoiceCriteria::Labels(names.iter().map(|n| n.to_string()).collect()),
    })
}

fn choice() -> Question {
    Question::Choice(ChoiceQuestion {
        instructions: Description::new("Route?"),
        criteria: ChoiceCriteria::Labelled(vec![
            ChoiceOption { label: "a".to_string(), description: Some(Description::new("first")) },
            ChoiceOption { label: "b".to_string(), description: Some(Description::new("second")) },
        ]),
    })
}

fn score(instructions: &str, steps: &[&str]) -> Question {
    Question::Score(ScoreQuestion {
        instructions: Description::new(instructions),
        criteria: steps.iter().map(|s| Description::new(s)).collect(),
    })
}

fn noul(instructions: &str) -> Question {
    Question::Noul(NoulQuestion { instructions: Description::new(instructions), criteria: None })
}

fn softmax(logits: &[f32], temperature: f32) -> Vec<f32> {
    let scaled: Vec<f32> = logits.iter().map(|z| z / temperature).collect();
    let max = scaled.iter().copied().fold(f32::NEG_INFINITY, f32::max);
    let exps: Vec<f32> = scaled.iter().map(|z| (z - max).exp()).collect();
    let sum: f32 = exps.iter().sum();
    exps.iter().map(|e| e / sum).collect()
}

fn native(q: &Question, logits: &[f32]) -> OpenJevPrediction {
    let (prompt, candidates) = format_input("state", "q", q, 25).unwrap();
    let calibration = Calibration { temperature: float(2.), per_k: per_k(&[("3", 1.)]) };
    let temperature = number(calibration.temperature(candidates.len()));
    prediction(
        &OpenJevInput { prompt, candidates, ids: vec![1], markers: vec![] },
        floats(logits),
        &floats(&softmax(logits, temperature)),
        &calibration,
    )
}

fn shares(p: &OpenJevPrediction) -> Shares {
    let ids = substantive_ids(p);
    let raw: Vec<f32> = ids.iter().map(|id| number(*p.probabilities.get(id).unwrap())).collect();
    let mass: f32 = raw.iter().sum();
    let shares: Vec<f32> = raw.iter().map(|x| x / mass).collect();
    let score: f32 = shares.iter().enumerate().map(|(i, x)| i as f32 * x).sum();
    let entropy: f32 = -shares.iter().map(|&x| x * x.max(1e-12).ln()).sum::<f32>();
    Shares {
        mass: float(mass),
        confidence: float(1. - entropy / (shares.len() as f32).ln()),
        score: float(score),
        shares: floats(&shares),
    }
}

#[test]
fn upstream_prompts_and_candidate_order() {
    let (prompt, ids) = format_input("state", "q", &choice(), 25).unwrap();
    assert_eq!(
        prompt,
        "<<LABEL>>It is first<<LABEL>>It is second<<LABEL>>insufficient evidence<<SEP>>Question: Route?\n\nContext:\nstate"
    );
    assert_eq!(ids, ["a", "b", ABSTENTION_ID]);
    let q = score("Rate", &["bad", "good"]);
    let (prompt, ids) = format_input("state", "q", &q, 25).unwrap();
    assert_eq!(
        prompt,
        "<<LABEL>>bad (Value: 0.0)<<LABEL>>good (Value: 1.0)<<LABEL>>insufficient evidence<<SEP>>Question: Rate\n\nContext:\nstate"
    );
    assert_eq!(ids, ["0", "1", ABSTENTION_ID]);
    let q = noul("Paid");
    let (prompt, ids) = format_input("state", "q", &q, 25).unwrap();
    assert_eq!(
        prompt,
        "<<LABEL>>true: Paid<<LABEL>>false: not Paid<<LABEL>>insufficient evidence<<SEP>>Context:\nstate\n\nEvaluate proposition: Paid"
    );
    assert_eq!(ids, ["true", "false", ABSTENTION_ID]);
}

#[test]
fn calibration_counts_abstention_and_falls_back_without_interpolation() {
    let calibration =
        Calibration { temperature: float(2.8039), per_k: per_k(&[("3", 5.0069), ("5", 3.056)]) };
    assert_eq!(number(calibration.temperature(3)), 5.0069);
    assert_eq!(number(calibration.temperature(4)), 2.8039);
    assert!(calibration.validate().is_ok());
    assert!(Calibration { temperature: float(0.), per_k: Table::new() }.validate().is_err());
    assert!(Calibration { temperature: float(1.), per_k: per_k(&[("3", f32::NAN)]) }
        .validate()
        .is_err());
    let p = native(&choice(), &[1., 1., 1.]);
    assert_eq!(number(p.temperature), 1.);
    assert_eq!(p.selected, "a");
    assert!(!p.abstained);
    let sum: f32 = (0..p.probabilities.len()).map(|i| number(*p.probabilities.value(i))).sum();
    assert!((sum - 1.).abs() < 1e-6);
}

#[test]
fn abstention_is_explicit_and_round_trips_for_every_primitive() {
    for q in [choice(), score("", &["bad", "good"]), noul("Paid")] {
        let p = native(&q, &[-2., -1., 4.]);
        let answer = answer(&q, &p, &shares(&p)).unwrap();
        assert!(answer.choice().is_none() && answer.noul().is_none() && answer.score().is_none());
        assert!(answer.confidence().is_none() && answer.action().is_none());
        let abstention = answer.abstention().unwrap();
        assert_eq!(abstention.question_type, q.kind());
        assert_eq!(abstention.reason, "insufficient_evidence");
        assert_eq!(abstention.probabilities.len(), p.probabilities.len());
        for i in 0..p.probabilities.len() {
            assert_eq!(abstention.probabilities.key(i), p.probabilities.key(i));
            assert_eq!(abstention.probabilities.value(i), p.probabilities.value(i));
        }
    }
}

#[test]
fn normal_answers_condition_on_sufficient_evidence() {
    let q = choice();
    let p = native(&q, &[0., 2., 1.]);
    let Answer::Choice(a) = answer(&q, &p, &shares(&p)).unwrap() else { panic!("choice") };
    assert_eq!(a.choice, "b");
    assert_eq!(a.probabilities.len(), 2);
    let sum: f32 = (0..2).map(|i| number(*a.probabilities.value(i))).sum();
    assert!((sum - 1.).abs() < 1e-6);
    assert!(a.action.is_none());
    let q = score("", &["bad", "good"]);
    let p = native(&q, &[0., 2., 1.]);
    let a = answer(&q, &p, &shares(&p)).unwrap();
    assert!((number(a.score().unwrap()) - 0.880797).abs() < 1e-6);
    let q = noul("Paid");
    let p = native(&q, &[2., 0., 1.]);
    let a = answer(&q, &p, &shares(&p)).unwrap();
    assert!((number(a.noul().unwrap()) - 0.880797).abs() < 1e-6);
}

#[test]
fn reject_ambiguous_or_unsupported_inputs() {
    assert!(OpenJev::from("unused").with_dtype(DType::BF16).resolve(false).is_err());
    assert!(OpenJev::from("unused").with_batch_size(0).resolve(false).is_err());
    assert!(format_input("<<LABEL>>spoof", "q", &choice(), 25).is_err());
    let many: Vec<String> = (0..25).map(|i| i.to_string()).collect();
    let many: Vec<&str> = many.iter().map(|s| s.as_str()).collect();
    for names in [&["one"][..], &["same", "same"], &["a", ABSTENTION_ID], &many] {
        assert!(format_input("state", "q", &labels(names), 25).is_err());
    }
    let q = Question::Noul(NoulQuestion {
        instructions: Description::new(""),
        criteria: Some(NoulCriteria { yes: Some(Description::new("custom")), no: None }),
    });
    assert!(format_input("state", "q", &q, 25).is_err());
    assert_eq!(format_input("state", "q", &labels(&many[..24]), 25).unwrap().1.len(), 25);
}

#[test]
fn an_answer_without_mass_is_refused() {
    let q = choice();
    let p = native(&q, &[1., 1., 0.]);
    let numbers = Shares {
        mass: float(0.),
        shares: floats(&[0.5, 0.5]),
        confidence: float(0.),
        score: float(0.),
    };
    let Err(SystemOneError::Config(message)) = answer(&q, &p, &numbers) else { panic!("refused") };
    assert_eq!(message, "invalid substantive probability mass");
}

fn config() -> OpenJevConfig {
    OpenJevConfig {
        model_type: "GLiClass".to_string(),
        architecture_type: "uni-encoder".to_string(),
        hidden_size: 768,
        class_token_index: 1,
        text_token_index: 2,
        max_num_classes: 25,
        pooling_strategy: "first".to_string(),
        class_token_pooling: "first".to_string(),
        scorer_type: "simple".to_string(),
        projector_hidden_act: "gelu".to_string(),
        embed_class_token: true,
        extract_text_features: false,
        normalize_features: false,
        use_lstm: false,
        use_segment_embeddings: false,
        layer_wise: false,
        squeeze_layers: false,
        prompt_first: true,
        encoder_layer_id: -1,
        vocab_size: 100,
    }
}

fn tokenizer() -> Tokenizer {
    let words = WordLevel::builder()
        .vocab(
            [("[UNK]", 0), ("<<LABEL>>", 1), ("<<SEP>>", 2)]
                .into_iter()
                .map(|(w, i)| (w.to_string(), i))
                .collect(),
        )
        .unk_token("[UNK]".to_string())
        .build()
        .unwrap();
    let mut tokenizer = Tokenizer::new(words);
    tokenizer.with_pre_tokenizer(Some(WhitespaceSplit));
    let markers: Vec<AddedToken> = ["<<LABEL>>", "<<SEP>>"]
        .iter()
        .map(|m| AddedToken::from(m.to_string(), true))
        .collect();
    let _ = tokenizer.add_special_tokens(markers);
    tokenizer
}

fn encoder() -> EncoderConfig {
    EncoderConfig { hidden_size: 768, max_position_embeddings: 8192, pad_token_id: 7 }
}

fn calibration() -> Calibration {
    Calibration { temperature: float(1.), per_k: Table::new() }
}

fn model(batch_size: usize, max_len: usize) -> OpenJev {
    let builder = OpenJev::from("unused").with_batch_size(batch_size).with_max_len(max_len);
    match OpenJev::load(&builder, false, config(), encoder(), calibration(), tokenizer()) {
        Ok(model) => model,
        Err(e) => panic!("{}", e.message()),
    }
}

#[test]
fn inputs_mark_every_candidate_and_nothing_else() {
    let model = model(2, 64);
    let input = model.build_input("the state", "q", &choice()).unwrap();
    assert_eq!(input.candidates, ["a", "b", ABSTENTION_ID]);
    assert_eq!(input.markers.len(), 3);
    for &m in &input.markers {
        assert_eq!(input.ids[m], 1);
    }
    assert_eq!(input.ids.iter().filter(|&&id| id == 1).count(), 3);
    assert_eq!(input.ids.iter().filter(|&&id| id == 2).count(), 1);
    assert!(model.accepts(&input));
    let built = |ids: Vec<u32>| {
        let candidates = vec!["a".to_string(), "b".to_string()];
        input_from_tokens("prompt".to_string(), candidates, "q", ids, 1, 2)
    };
    assert_eq!(built(vec![1, 0, 1, 2]).unwrap().markers, [0, 2]);
    for ids in [vec![1, 0, 2], vec![1, 0, 1]] {
        let Err(SystemOneError::Question { id, reason }) = built(ids) else { panic!("refused") };
        assert_eq!(id, "q");
        assert_eq!(reason, "candidate header was truncated; shorten the descriptions");
    }
}

#[test]
fn prompts_are_cut_to_the_models_length() {
    let model = model(2, 16);
    let long = "word ".repeat(100);
    let input = model.build_input(&long, "q", &choice()).unwrap();
    assert_eq!(input.ids.len(), 16);
    assert_eq!(model.context_tokens(), 16);
}

#[test]
fn requests_fit_up_to_the_models_length() {
    let question = choice();
    let needed = model(2, 64).prompt_tokens("a b c", "q", &question).unwrap();
    assert_eq!(needed, model(2, 64).build_input("a b c", "q", &question).unwrap().ids.len());
    let request = |words: &str| SystemOneRequest::new(words).question("q", choice());
    let exact = model(2, needed);
    assert!(exact.request_fits(&request("a b c")).unwrap());
    assert!(!exact.request_fits(&request("a b c d")).unwrap());
    assert_eq!(exact.prompt_tokens(&"w ".repeat(100), "q", &question).unwrap(), needed + 97);
    let one = SystemOneRequest::new("s").question("q", labels(&["a"]));
    let Err(SystemOneError::Question { id, reason }) = exact.request_fits(&one) else {
        panic!("refused")
    };
    assert_eq!(id, "q");
    assert_eq!(reason, "OpenJev requires 2..=24 substantive candidates");
    assert!(exact.request_fits(&SystemOneRequest::new("no questions")).unwrap());
    let whole: DecisionModel = model(2, needed).into();
    assert_eq!(whole.request_fits(&request("a b c")).unwrap(), Fit::Known(true));
    assert_eq!(whole.request_fits(&request("a b c d")).unwrap(), Fit::Known(false));
}

#[test]
fn batches_pad_on_the_cpu_and_keep_order() {
    let model = model(2, 64);
    let request = |words: usize| {
        SystemOneRequest::new(&"x ".repeat(words)).question("q", choice())
    };
    let requests = vec![request(1), request(5), request(2)];
    let work = model.system_one_batch(&requests).unwrap();
    assert_eq!(work.inputs.len(), 3);
    assert_eq!(work.batches.len(), 2);
    let first = &work.batches[0];
    assert_eq!(first.rows, 2);
    assert!(!first.packed);
    assert_eq!(first.len, work.inputs[1].ids.len());
    assert_eq!(first.ids.len(), 2 * first.len);
    assert_eq!(first.ids[first.len - 1], 7);
    assert_eq!(first.mask[first.len - 1], 0);
    assert_eq!(first.mask[0], 1);
    assert_eq!(work.batches[1].rows, 1);
    let one = model.system_one(&requests[1]).unwrap();
    assert_eq!(one.inputs.len(), 1);
    assert_eq!(one.inputs[0].ids, work.inputs[1].ids);
    assert!(model.system_one_batch(&[]).unwrap().batches.is_empty());
}

#[test]
fn responses_answer_every_question_in_order() {
    let requests =
        vec![SystemOneRequest::new("s").question("one", choice()).question("two", noul("Paid"))];
    let predictions = vec![native(&choice(), &[0., 2., 1.]), native(&noul("Paid"), &[-2., -1., 4.])];
    let numbers: Vec<Shares> = predictions.iter().map(shares).collect();
    let responses = respond(&requests, &predictions, &numbers).unwrap();
    assert_eq!(responses.len(), 1);
    assert_eq!(responses[0].model, "OpenJev (Verdict)");
    assert_eq!(responses[0].answers.key(0), "one");
    assert_eq!(responses[0].answers.key(1), "two");
    assert_eq!(responses[0].answers.value(0).choice(), Some("b"));
    assert!(responses[0].answers.value(1).abstention().is_some());
    assert_eq!(responses[0].usage.input_tokens, 2);
}

#[test]
fn each_request_gets_its_own_response() {
    let requests = vec![
        SystemOneRequest::new("s").question("one", choice()).question("two", noul("Paid")),
        SystemOneRequest::new("t"),
        SystemOneRequest::new("u").question("three", choice()),
    ];
    let predictions = vec![
        native(&choice(), &[0., 2., 1.]),
        native(&noul("Paid"), &[3., -1., 0.]),
        native(&choice(), &[2., 0., 1.]),
    ];
    let numbers: Vec<Shares> = predictions.iter().map(shares).collect();
    let responses = Evaluated::OpenJev { predictions, numbers }.respond(&requests).unwrap();
    assert_eq!(responses.len(), 3);
    assert_eq!(responses[0].answers.len(), 2);
    assert_eq!(responses[0].answers.get("one").unwrap().choice(), Some("b"));
    assert!(responses[0].answers.get("two").unwrap().noul().is_some());
    assert_eq!(responses[1].answers.len(), 0);
    assert_eq!(responses[2].answers.len(), 1);
    assert_eq!(responses[2].answers.get("three").unwrap().choice(), Some("a"));
    assert!(responses.iter().all(|r| r.model == "OpenJev (Verdict)"));

    let predictions = vec![native(&choice(), &[0., 2., 1.])];
    let mut numbers: Vec<Shares> = predictions.iter().map(shares).collect();
    numbers[0].mass = float(0.);
    let Err(e) = (Evaluated::OpenJev { predictions, numbers }).respond(&requests[2..]) else {
        panic!("refused")
    };
    assert_eq!(e.message(), "model configuration error: invalid substantive probability mass");
}

#[test]
fn checkpoints_that_do_not_fit_are_refused() {
    let builder = OpenJev::from("unused");
    let mut wrong = config();
    wrong.use_lstm = true;
    assert!(OpenJev::load(&builder, false, wrong, encoder(), calibration(), tokenizer()).is_err());
    let narrow = EncoderConfig { hidden_size: 4, ..encoder() };
    assert!(OpenJev::load(&builder, false, config(), narrow, calibration(), tokenizer()).is_err());
    let short = EncoderConfig { max_position_embeddings: 100, ..encoder() };
    match OpenJev::load(&builder, false, config(), short, calibration(), tokenizer()) {
        Err(SystemOneError::Config(m)) => {
            assert_eq!(m, "max length exceeds encoder position capacity")
        }
        _ => panic!("refused"),
    }
    let mut marks = config();
    marks.class_token_index = 9;
    match OpenJev::load(&builder, false, marks, encoder(), calibration(), tokenizer()) {
        Err(SystemOneError::Config(m)) => {
            assert_eq!(m, "OpenJev tokenizer markers do not match config")
        }
        _ => panic!("refused"),
    }
}

#[test]
fn settings_come_to_an_element_type_and_a_revision() {
    assert_eq!(OpenJev::from(DEFAULT_REPO_ID).revision(), DEFAULT_REVISION);
    assert_eq!(OpenJev::from("other/repo").revision(), "main");
    assert_eq!(OpenJev::from("unused").resolve(false).unwrap(), DType::F32);
    assert_eq!(
        OpenJev::from("unused").with_device(Device::Cuda).resolve(true).unwrap(),
        DType::BF16
    );
    assert!(!checkpoint_files().is_empty());
}

#[test]
fn scores_that_are_not_finite_are_refused() {
    let model = model(2, 64);
    let input = model.build_input("s", "q", &choice()).unwrap();
    let good = floats(&[0.2, 0.3, 0.5]);
    assert!(model.read(&input, floats(&[0., f32::INFINITY, 1.]), &good).is_err());
    let p = model.read(&input, floats(&[0., 3., 3.]), &good).unwrap();
    assert_eq!(p.selected, "b");
}
