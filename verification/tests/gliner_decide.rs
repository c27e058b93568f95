use tokenizers::models::wordlevel::WordLevel;
use tokenizers::pre_tokenizers::whitespace::WhitespaceSplit;
use tokenizers::Tokenizer;
use vs1::device::DType;
use vs1::gliner_decide::answer::{answer, prediction, read, respond, Summary};
use vs1::gliner_decide::input::GlinerDecide;
use vs1::gliner_decide::schema::{normalize, reserved, reserved_list, task, NO, YES};
use vs1::gliner_decide::settings::{check_markers, DebertaConfig, GlinerConfig};
use vs1::gliner_decide::words::Words;
use vs1::responses::{Evaluated, GlinerEvaluation};
use vs1::score::Float;
use vs1::{
    ChoiceCriteria, ChoiceOption, ChoiceQuestion, Description, NoulCriteria, NoulQuestion, Question,
    ScoreQuestion, SystemOneError, SystemOneRequest,
};

fn floats(values: &[f32]) -> Vec<Float> {
    values.iter().map(|x| Float { bits: x.to_bits() }).collect()
}

fn number(x: Float) -> f32 {
    f32::from_bits(x.bits)
}

fn labels(names: &[&str]) -> Question {
    instructed("", names)
}

fn instructed(instructions: &str, names: &[&str]) -> Question {
    Question::Choice(ChoiceQuestion {
        instructions: Description::new(instructions),
        criteria: ChoiceCriteria::Labels(names.iter().map(|n| n.to_string()).collect()),
    })
}

fn option(label: &str, description: Option<&str>) -> ChoiceOption {
    ChoiceOption { label: label.to_string(), description: description.map(Description::new) }
}

fn score(steps: &[&str]) -> Question {
    Question::Score(ScoreQuestion {
        instructions: Description::new(""),
        criteria: steps.iter().map(|s| Description::new(s)).collect(),
    })
}

fn noul(instructions: &str, criteria: Option<NoulCriteria>) -> Question {
    Question::Noul(NoulQuestion { instructions: Description::new(instructions), criteria })
}

fn softmax(logits: &[f32]) -> Vec<f32> {
    let max = logits.iter().copied().fold(f32::NEG_INFINITY, f32::max);
    let exps: Vec<f32> = logits.iter().map(|z| (z - max).exp()).collect();
    let sum: f32 = exps.iter().sum();
    exps.iter().map(|e| e / sum).collect()
}

fn summary(probabilities: &[f32]) -> Summary {
    let entropy: f32 = -probabilities.iter().map(|&p| p * p.max(1e-12).ln()).sum::<f32>();
    let confidence = (1. - entropy / (probabilities.len() as f32).ln()).clamp(0., 1.);
    let score: f32 = probabilities.iter().enumerate().map(|(i, p)| i as f32 * p).sum();
    Summary {
        confidence: Float { bits: confidence.to_bits() },
        score: Float { bits: score.to_bits() },
    }
}

#[test]
fn words_follow_the_upstream_whitespace_splitter() {
    let words = Words::new().unwrap();
    assert_eq!(
        words.split(
            "Mail Ann@Example.com, see https://x.io/a?b=1 or @ops_team re: re-open_now!"
        ),
        [
            "mail",
            "ann@example.com",
            ",",
            "see",
            "https://x.io/a?b=1",
            "or",
            "@ops_team",
            "re",
            ":",
            "re-open_now",
            "!"
        ]
    );
    assert_eq!(normalize(""), ".");
    assert_eq!(normalize("done?"), "done?");
    assert_eq!(normalize("done"), "done.");
}

#[test]
fn questions_map_to_upstream_schema_tokens() {
    let q = Question::Choice(ChoiceQuestion {
        instructions: Description::new("Which team?"),
        criteria: ChoiceCriteria::Labelled(vec![
            option("legal", Some("contracts")),
            option("support", None),
            option("billing", Some("")),
        ]),
    });
    let t = task("route", &q).unwrap();
    assert_eq!(
        t.schema_tokens(),
        [
            "(",
            "[P]",
            "route: Which team? [DESCRIPTION] legal: contracts",
            "(",
            "[L]",
            "legal",
            "[L]",
            "support",
            "[L]",
            "billing",
            ")",
            ")"
        ]
    );
    let t = task("rating", &score(&["bad", "good"])).unwrap();
    assert_eq!(t.prompt, None);
    assert_eq!(t.labels, ["0", "1"]);
    assert_eq!(t.schema_tokens()[2], "rating [DESCRIPTION] 0: bad [DESCRIPTION] 1: good");
    let q = noul(
        "Paid?",
        Some(NoulCriteria { yes: None, no: Some(Description::new("unpaid")) }),
    );
    let t = task("paid", &q).unwrap();
    assert_eq!(t.labels, [YES, NO]);
    assert_eq!(t.schema_tokens()[2], "paid: Paid? [DESCRIPTION] no: unpaid");
}

#[test]
fn reject_ambiguous_or_reserved_inputs() {
    for names in [&["one"][..], &["a", "a"], &["", "b"]] {
        assert!(task("q", &labels(names)).is_err());
    }
    assert!(task("x [L] y", &labels(&["a", "b"])).is_err());
    assert!(task("q", &instructed("[SEP_TEXT]", &["a", "b"])).is_err());
    assert!(GlinerDecide::from("unused").with_dtype(DType::BF16).resolve().is_err());
    assert!(GlinerDecide::from("unused").with_batch_size(0).resolve().is_err());
}

#[test]
fn answers_keep_the_softmax_over_labels() {
    let q = score(&["bad", "good"]);
    let p = softmax(&[0., 2.]);
    let made = prediction(&task("q", &q).unwrap(), floats(&[0., 2.]), &floats(&p));
    assert_eq!(made.selected, "1");
    let a = answer(&q, &made, summary(&p));
    assert!((number(a.score().unwrap()) - 0.880797).abs() < 1e-6);
    let q = noul("Paid", None);
    let p = softmax(&[2., 0.]);
    let made = prediction(&task("q", &q).unwrap(), floats(&[2., 0.]), &floats(&p));
    let a = answer(&q, &made, summary(&p));
    assert!((number(a.noul().unwrap()) - 0.880797).abs() < 1e-6);
    let q = labels(&["a", "b"]);
    let p = softmax(&[1., 1.]);
    let made = prediction(&task("q", &q).unwrap(), floats(&[1., 1.]), &floats(&p));
    let a = answer(&q, &made, summary(&p));
    assert_eq!(a.choice(), Some("a"));
    assert!(a.action().is_none());
    assert!(number(a.confidence().unwrap()) < 1e-6);
}

#[test]
fn logits_that_are_not_finite_are_refused() {
    let t = task("q", &labels(&["a", "b"])).unwrap();
    let Err(SystemOneError::Config(m)) =
        read(&t, floats(&[f32::NAN, 0.]), &floats(&[0.5, 0.5]))
    else {
        panic!("refused")
    };
    assert_eq!(m, "GLiNER2 returned non-finite logits");
    assert!(read(&t, floats(&[1., 0.]), &floats(&[0.7, 0.3])).is_ok());
}

fn tokenizer() -> Tokenizer {
    let mut vocab: Vec<(String, u32)> = vec![("[UNK]".to_string(), 0)];
    for marker in reserved_list() {
        vocab.push((marker.to_string(), vocab.len() as u32));
    }
    let words = WordLevel::builder()
        .vocab(vocab.into_iter().collect())
        .unk_token("[UNK]".to_string())
        .build()
        .unwrap();
    let mut tokenizer = Tokenizer::new(words);
    tokenizer.with_pre_tokenizer(Some(WhitespaceSplit));
    tokenizer
}

fn gliner_config() -> GlinerConfig {
    GlinerConfig {
        architecture: "span".to_string(),
        token_pooling: "first".to_string(),
        use_moe: false,
    }
}

fn model(max_len: usize) -> GlinerDecide {
    let builder = GlinerDecide::from("unused").with_max_len(max_len).with_batch_size(2);
    let words = Words::new().unwrap();
    let encoder = DebertaConfig {
        hidden_size: 1024,
        vocab_size: 100,
        conv_kernel_size: None,
        embedding_size: None,
    };
    match GlinerDecide::load(&builder, &gliner_config(), encoder, tokenizer(), words) {
        Ok(model) => model,
        Err(e) => panic!("{}", e.message()),
    }
}

#[test]
fn only_the_state_is_dropped_to_fit_the_context() {
    let model = model(24);
    let request = |state: &str| SystemOneRequest::new(state).question("q", labels(&["a", "b"]));
    let short = model.build_input(&request("one two")).unwrap();
    assert_eq!(short.dropped_tokens, 0);
    assert!(model.request_fits(&request("one two")).unwrap());
    let long = model.build_input(&request(&"word ".repeat(50))).unwrap();
    assert_eq!(long.ids.len(), 24);
    assert_eq!(long.dropped_tokens + long.ids.len(), short.ids.len() - 3 + 51);
    assert!(!model.request_fits(&request(&"word ".repeat(50))).unwrap());
    assert_eq!(long.markers, short.markers);
    for list in &long.markers {
        for &m in list {
            assert_eq!(long.ids[m], model.label);
        }
    }
    let names: Vec<String> = (0..30).map(|i| format!("label{i}")).collect();
    let names: Vec<&str> = names.iter().map(|n| n.as_str()).collect();
    let wide = SystemOneRequest::new("s").question("q", labels(&names));
    let Err(SystemOneError::Config(m)) = model.build_input(&wide) else { panic!("refused") };
    assert!(m.contains("over the 24-token context"), "{m}");
}

#[test]
fn batches_take_the_shortest_first_and_ranks_lead_back() {
    let model = model(64);
    let request = |n: usize| {
        SystemOneRequest::new(&"w ".repeat(n)).question("q", labels(&["a", "b"]))
    };
    let requests = vec![request(2), request(9), request(5)];
    let work = model.system_one_batch(&requests).unwrap();
    assert_eq!(work.plan.order, [0, 2, 1]);
    assert_eq!(work.plan.ranks, [0, 2, 1]);
    assert_eq!(work.plan.batches.len(), 2);
    assert_eq!(work.plan.batches[0].requests, [0, 2]);
    assert_eq!(work.plan.batches[0].len, work.inputs[2].ids.len());
    let one = model.system_one(&requests[1]).unwrap();
    assert_eq!(one.inputs[0].ids, work.inputs[1].ids);
}

#[test]
fn responses_say_what_was_dropped_under_every_question() {
    let model = model(28);
    let request = SystemOneRequest::new(&"word ".repeat(50))
        .question("first", labels(&["a", "b"]))
        .question("second", noul("Paid", None));
    let input = model.build_input(&request).unwrap();
    assert!(input.dropped_tokens > 0);
    let predictions: Vec<_> = input
        .tasks
        .iter()
        .map(|t| prediction(t, floats(&[1., 0.]), &floats(&[0.75, 0.25])))
        .collect();
    let numbers = vec![summary(&[0.75, 0.25]); 2];
    let response = respond(&request, &input, &predictions, &numbers);
    assert_eq!(response.model, "GLiNER2.5-Decide");
    assert_eq!(response.answers.value(0).choice(), Some("a"));
    assert_eq!(number(response.answers.value(1).noul().unwrap()), 0.75);
    assert_eq!(response.usage.input_tokens, input.ids.len());
    assert_eq!(response.usage.dropped_state_tokens.len(), 2);
    assert_eq!(*response.usage.dropped_state_tokens.get("second").unwrap(), input.dropped_tokens);
}

#[test]
fn each_request_is_answered_by_its_own_evaluation() {
    let model = model(64);
    let requests = vec![
        SystemOneRequest::new("s").question("first", labels(&["a", "b"])),
        SystemOneRequest::new("t u").question("second", labels(&["c", "d"])),
    ];
    let work = model.system_one_batch(&requests).unwrap();
    let scores = [[0.75, 0.25], [0.25, 0.75]];
    let each = work
        .inputs
        .into_iter()
        .zip(scores)
        .map(|(input, s)| GlinerEvaluation {
            predictions: vec![prediction(&input.tasks[0], floats(&s), &floats(&s))],
            numbers: vec![summary(&s)],
            input,
        })
        .collect();
    let responses = Evaluated::GlinerDecide(each).respond(&requests).unwrap();
    assert_eq!(responses.len(), 2);
    assert_eq!(responses[0].answers.get("first").unwrap().choice(), Some("a"));
    assert_eq!(responses[1].answers.get("second").unwrap().choice(), Some("d"));
    assert_eq!(responses[1].usage.input_tokens, responses[0].usage.input_tokens + 1);
}

#[test]
fn tokenizers_must_know_every_marker() {
    assert!(check_markers(&tokenizer()).is_ok());
    let bare = Tokenizer::new(
        WordLevel::builder()
            .vocab([("[UNK]".to_string(), 0)].into_iter().collect())
            .unk_token("[UNK]".to_string())
            .build()
            .unwrap(),
    );
    let Err(SystemOneError::Config(m)) = check_markers(&bare) else { panic!("refused") };
    assert_eq!(m, format!("tokenizer lacks {}", reserved_list()[0]));
    assert!(reserved("a [P] b"));
    assert!(!reserved("a P b"));
}

#[test]
fn checkpoints_of_another_architecture_are_refused() {
    let mut config = gliner_config();
    config.use_moe = true;
    assert!(config.check().is_err());
    let narrow = DebertaConfig {
        hidden_size: 8,
        vocab_size: 100,
        conv_kernel_size: Some(3),
        embedding_size: None,
    };
    assert!(narrow.check().is_err());
}
