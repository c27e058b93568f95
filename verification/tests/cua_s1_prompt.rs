use tokenizers::models::bpe::{Vocab, BPE};
use tokenizers::normalizers::replace::Replace;
use tokenizers::pre_tokenizers::byte_level::ByteLevel;
use tokenizers::Tokenizer;
use vs1::cua_s1::api::{read_options, BASE_REVISION, DEFAULT_REPO_ID};
use vs1::cua_s1::model::CuaS1Prediction;
use vs1::cua_s1::prompt::{build_prompt, describe_option, encode_letters, CuaS1Input, CuaS1Option};
use vs1::device::{DType, Device};
use vs1::score::Float;
use vs1::{CuaS1, SystemOneError};

fn build_byte_tokenizer() -> Tokenizer {
    let mut alphabet: Vec<char> = ByteLevel::alphabet().into_iter().collect();
    alphabet.sort_unstable();
    let vocab: Vocab =
        alphabet.into_iter().enumerate().map(|(i, c)| (c.to_string(), i as u32)).collect();
    let model = BPE::builder().vocab_and_merges(vocab, vec![]).build().unwrap();
    let mut tokenizer = Tokenizer::new(model);
    tokenizer.with_pre_tokenizer(Some(ByteLevel::new(false, false, false)));
    tokenizer.with_decoder(Some(ByteLevel::default()));
    tokenizer
}

fn option(role: &str, label: &str, action: &str, entity: Option<&str>) -> CuaS1Option {
    CuaS1Option {
        element_id: "e1".to_string(),
        role: role.to_string(),
        label: label.to_string(),
        action: action.to_string(),
        entity_id: entity.map(|e| e.to_string()),
    }
}

fn options() -> Vec<CuaS1Option> {
    vec![option("button", "Save", "click", None), option("button", "Cancel", "click", None)]
}

#[test]
fn leaves_short_prompts_untouched() {
    let tokenizer = build_byte_tokenizer();
    let options = options();
    for (tree, goal) in [("tree", None), ("window\n  button", Some("Save this message."))] {
        let full = CuaS1Input::encode(&tokenizer, &options, "mail", "save", tree, goal).unwrap();
        for max_len in [full.input_ids.len(), full.input_ids.len() + 100] {
            let (input, dropped) = CuaS1Input::encode_with_max_len(
                &tokenizer, &options, "mail", "save", tree, goal, max_len,
            )
            .unwrap();
            assert_eq!(input.chat_text, full.chat_text);
            assert_eq!(input.input_ids, full.input_ids);
            assert_eq!(input.letters, full.letters);
            assert_eq!(input.letter_ids, full.letter_ids);
            assert_eq!(dropped, 0);
        }
    }
}

#[test]
fn truncates_only_the_state_to_fit_the_complete_prompt() {
    let tokenizer = build_byte_tokenizer();
    let options = options();
    let state = "Saved message. ".repeat(200);
    let goal = Some("Save this message.");
    let (empty, letters) = build_prompt(&options, "mail", "save", "", goal).unwrap();
    let empty_len = tokenizer.encode(empty.as_str(), true).unwrap().len();
    for kept in [0, 1, 37] {
        let max_len = empty_len + kept;
        let (input, dropped) = CuaS1Input::encode_with_max_len(
            &tokenizer, &options, "mail", "save", &state, goal, max_len,
        )
        .unwrap();
        let (expected, _) = build_prompt(&options, "mail", "save", &state[..kept], goal).unwrap();
        assert_eq!(input.input_ids.len(), max_len);
        assert_eq!(input.chat_text, expected);
        assert_eq!(input.letters, letters);
        assert_eq!(input.letter_ids, encode_letters(&tokenizer, &letters).unwrap());
        assert_eq!(dropped, tokenizer.encode(state.as_str(), false).unwrap().len() - kept);
        assert_eq!(input.input_ids, tokenizer.encode(expected.as_str(), true).unwrap().get_ids());
    }
}

#[test]
fn rejects_limits_smaller_than_the_prompt_with_empty_state() {
    let tokenizer = build_byte_tokenizer();
    let options = options();
    let (empty, _) = build_prompt(&options, "mail", "save", "", Some("Save.")).unwrap();
    let empty_len = tokenizer.encode(empty.as_str(), true).unwrap().len();
    for max_len in [0, empty_len - 1] {
        let Err(error) = CuaS1Input::encode_with_max_len(
            &tokenizer,
            &options,
            "mail",
            "save",
            "message",
            Some("Save."),
            max_len,
        ) else {
            panic!("expected a refusal");
        };
        let SystemOneError::Question { id, reason } = error else {
            panic!("expected a per-question error");
        };
        assert_eq!(id, "save");
        assert!(reason.contains(&format!("requires {empty_len} tokens even with an empty state")));
        assert!(reason.contains(&format!("max_len ({max_len})")));
    }
}

#[test]
fn truncates_at_unicode_boundaries() {
    let tokenizer = build_byte_tokenizer();
    let options = options();
    let (empty, _) = build_prompt(&options, "mail", "save", "", None).unwrap();
    let empty_len = tokenizer.encode(empty.as_str(), true).unwrap().len();
    for budget in [1, 3, 4, 5] {
        let (input, dropped) = CuaS1Input::encode_with_max_len(
            &tokenizer,
            &options,
            "mail",
            "save",
            "🙂🙂",
            None,
            empty_len + budget,
        )
        .unwrap();
        let retained = if budget < 4 { "" } else { "🙂" };
        assert_eq!(
            input.chat_text,
            build_prompt(&options, "mail", "save", retained, None).unwrap().0
        );
        assert!(input.input_ids.len() <= empty_len + budget);
        assert_eq!(dropped, 8 - retained.len());
    }
}

#[test]
fn option_limits_and_empty_tree() {
    for count in [0, 1, 26, 27] {
        let options: Vec<CuaS1Option> =
            (0..count).map(|_| option("button", "Save", "click", None)).collect();
        let result = build_prompt(&options, "app", "task", "tree", None);
        if count == 0 || count == 27 {
            assert!(result.is_err());
        } else {
            let (text, letters) = result.unwrap();
            assert_eq!(letters.len(), count);
            assert_eq!(letters[0], 'A');
            assert_eq!(letters[count - 1], if count == 26 { 'Z' } else { 'A' });
            assert!(text.contains(&format!("{}. button \"Save\" -> click", letters[count - 1])));
        }
    }
    assert!(
        CuaS1Input::encode(&build_byte_tokenizer(), &options(), "app", "task", "", None).is_err()
    );
}

#[test]
fn empty_goal_and_entity_fields() {
    let options = options();
    assert_eq!(
        build_prompt(&options, "app", "task", "tree", None).unwrap(),
        build_prompt(&options, "app", "task", "tree", Some("")).unwrap(),
    );
    for entity in [None, Some("")] {
        assert_eq!(
            describe_option('A', &option("textbox", "Email", "fill", entity)),
            "A. textbox \"Email\" -> fill"
        );
    }
    assert_eq!(
        describe_option('A', &option("textbox", "Email", "click", Some("account_email"))),
        "A. textbox \"Email\" -> click"
    );
    assert_eq!(
        describe_option('\u{e9}', &option("button", "Save", "click", None)),
        "\u{e9}. button \"Save\" -> click"
    );
}

#[test]
fn rejects_letters_with_zero_or_multiple_tokens() {
    let vocab: Vocab = [("x".to_string(), 0)].into_iter().collect();
    let model = BPE::builder().vocab_and_merges(vocab, vec![]).build().unwrap();
    let mut tokenizer = Tokenizer::new(model);
    for (replacement, count) in [("", 0), ("xx", 2)] {
        tokenizer.with_normalizer(Some(Replace::new("A", replacement).unwrap())).unwrap();
        let Err(error) = encode_letters(&tokenizer, &vec!['A']) else { panic!("refused") };
        assert!(error.message().contains(&format!("got {count}")));
    }
}

#[test]
fn rejects_unsupported_dtypes_before_loading() {
    for dtype in [DType::BF16, DType::F16, DType::F64, DType::U32] {
        let builder = CuaS1::from("unused/repo").with_device(Device::Cpu).with_dtype(dtype);
        let Err(SystemOneError::Config(message)) = builder.resolve(false) else {
            panic!("expected a configuration error for {dtype:?}");
        };
        assert!(message.contains("only CPU with F32"), "{message}");
    }
}

#[test]
fn entities_are_named_where_they_are_filled_in() {
    let text = describe_option('B', &option("textbox", "Email", "fill", Some("account_email")));
    assert!(text.starts_with("B. textbox \"Email\" -> fill"));
    assert!(text.contains("account_email"));
}

#[test]
fn prompts_are_exact() {
    let (text, letters) = build_prompt(&options(), "mail", "save", "tree", Some("Save.")).unwrap();
    assert_eq!(letters, ['A', 'B']);
    assert!(text.contains("Accessibility tree:\ntree\n\nOptions:\n"));
    assert!(text.contains("A. button \"Save\" -> click\nB. button \"Cancel\" -> click"));
    assert!(text.contains("Save."));
}

#[test]
fn predictions_keep_the_order_of_the_options() {
    let bits = |x: f32| Float { bits: x.to_bits() };
    let prediction = CuaS1Prediction {
        logits: vec![bits(1.), bits(2.)],
        probabilities: vec![bits(0.25), bits(0.75)],
    };
    let predictions = read_options(&options(), &prediction);
    assert_eq!(predictions.len(), 2);
    assert_eq!(predictions[0].letter, 'A');
    assert_eq!(predictions[1].letter, 'B');
    assert_eq!(predictions[1].option.label, "Cancel");
    assert_eq!(predictions[1].logit, bits(2.));
    assert_eq!(predictions[0].probability, bits(0.25));
}

#[test]
fn the_model_scores_what_it_was_asked() {
    let model = CuaS1 { tokenizer: build_byte_tokenizer(), max_len: 4096 };
    let input = model.score_options("mail", "save", "tree", None, &options()).unwrap();
    assert_eq!(input.letters, ['A', 'B']);
    assert_eq!(input.letter_ids.len(), 2);
    assert_eq!(model.model_name(), "Cua-S1-4B");
    assert_eq!(model.context_tokens(), 4096);
}

#[test]
fn revisions_are_pinned() {
    assert_eq!(DEFAULT_REPO_ID, "cua-ai/cua-s1-4b-0.2");
    assert_eq!(BASE_REVISION.len(), 40);
    let cuda = CuaS1::from("r").with_device(Device::Cuda);
    assert_eq!(cuda.resolve(true).unwrap(), DType::BF16);
    let Err(SystemOneError::Config(m)) = cuda.with_dtype(DType::F32).resolve(true) else {
        panic!("refused")
    };
    assert!(m.contains("12 GB"));
}
