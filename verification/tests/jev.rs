use tokenizers::models::wordlevel::WordLevel;
use tokenizers::pre_tokenizers::whitespace::WhitespaceSplit;
use tokenizers::Tokenizer;
use vs1::backend::{BatchWork, Fit, Work};
use vs1::jev::{parse_whole, JevAction, JevCall, JevEvent};
use vs1::responses::Evaluated;
use vs1::score::Float;
use vs1::table::Table;
use vs1::{
    Answer, ChoiceCriteria, ChoiceOption, ChoiceQuestion, DecisionModel, Description, JevClient, JevStats,
    NoulAnswer, NoulCriteria, NoulQuestion, Question, ScoreQuestion, SystemOneError, SystemOneRequest,
    SystemOneResponse, Usage,
};

fn noul(instructions: &str) -> Question {
    Question::Noul(NoulQuestion { instructions: Description::new(instructions), criteria: None })
}

fn request(p: f32) -> SystemOneRequest {
    SystemOneRequest::new(&format!("{{\"p\": {p}}}")).question("q", noul("is it true?"))
}

fn response(p: f32) -> SystemOneResponse {
    let mut answers: Table<Answer> = Table::new();
    let noul = Float { bits: p.to_bits() };
    answers.insert("q".to_string(), Answer::Noul(NoulAnswer { noul, action: None }));
    SystemOneResponse { model: "jev-test".to_string(), answers, usage: Usage::none() }
}

fn client(model: &str) -> JevClient {
    JevClient::new("test-key", model).unwrap()
}

fn status(status: u16) -> JevEvent {
    JevEvent::Status { status, retry_after: Some("0".to_string()) }
}

/// Runs a call against a server that answers with these statuses.
fn run(
    call: &mut JevCall,
    request: &SystemOneRequest,
    statuses: &[u16],
    p: f32,
    stats: &mut JevStats,
) -> Result<SystemOneResponse, SystemOneError> {
    for &code in statuses {
        call.attempt(stats);
        match call.receive(request, status(code), stats) {
            JevAction::Wait(delay) => assert_eq!(delay, 0),
            JevAction::Read => match call.receive(request, JevEvent::Body(Some(response(p))), stats) {
                JevAction::Finish(r) => return Ok(r),
                JevAction::Fail(e) => return Err(e),
                _ => panic!("a body decides"),
            },
            JevAction::Finish(r) => return Ok(r),
            JevAction::Fail(e) => return Err(e),
        }
    }
    panic!("the server was asked more often than it answers")
}

#[test]
fn caller_model_overrides_request_and_retry_counts_actual_calls() {
    let client = client("chosen-model");
    let mut r = request(0.7);
    r.model = Some("request-model".to_string());
    let mut stats = JevStats::zero();
    let mut call = client.system_one(&r, &mut stats).unwrap();
    assert_eq!(call.model, "chosen-model");
    let answered = run(&mut call, &r, &[429, 200], 0.7, &mut stats).unwrap();
    assert_eq!(answered.model, "jev-test");
    assert_eq!(call.model, "chosen-model");
    assert_eq!(
        (stats.calls, stats.attempts, stats.retries, stats.successes, stats.questions),
        (1, 2, 1, 1, 1)
    );
}

#[test]
fn bounded_batch_preserves_input_order() {
    let client = client("chosen-model").with_concurrency(2).unwrap();
    let rs = [request(0.1), request(0.2), request(0.3)];
    let mut stats = JevStats::zero();
    let mut output = Vec::new();
    let batches = client.batches(rs.len());
    assert_eq!(batches, [(0, 2), (2, 3)]);
    for (from, to) in batches {
        let outcomes = (from..to)
            .map(|i| {
                let mut call = client.system_one(&rs[i], &mut stats).unwrap();
                Some(run(&mut call, &rs[i], &[200], (i + 1) as f32 / 10.0, &mut stats))
            })
            .collect();
        JevClient::gather(&mut output, outcomes).unwrap();
    }
    assert_eq!(output.len(), 3);
    for (i, a) in output.iter().enumerate() {
        let p = f32::from_bits(a.answers.get("q").unwrap().noul().unwrap().bits);
        assert!((p - (i + 1) as f32 / 10.0).abs() < 1e-6);
    }
    assert_eq!(stats.attempts, 3);
    assert!(client.batches(0).is_empty());
    assert_eq!(stats.attempts, 3);
}

#[test]
fn auth_failure_is_not_retried_or_leaked() {
    let client = client("chosen-model");
    let mut stats = JevStats::zero();
    let r = request(0.1);
    let mut call = client.system_one(&r, &mut stats).unwrap();
    let Err(e) = run(&mut call, &r, &[401], 0.1, &mut stats) else { panic!("refused") };
    let err = e.message();
    assert!(err.contains("401"));
    assert!(!err.contains("test-key"));
    assert!(!err.contains("private"));
    assert_eq!(stats.attempts, 1);
}

#[test]
fn invalid_config_is_rejected() {
    assert!(JevClient::new("", "model").is_err());
    assert!(JevClient::new("key", "").is_err());
    assert!(JevClient::new("key", "model").unwrap().with_concurrency(0).is_err());
    assert!(JevClient::new("key", "model").unwrap().with_context_tokens(0).is_err());
}

fn word_tokenizer() -> Tokenizer {
    let mut tokenizer = Tokenizer::new(
        WordLevel::builder()
            .vocab([("[UNK]".to_string(), 0)].into_iter().collect())
            .unk_token("[UNK]".to_string())
            .build()
            .unwrap(),
    );
    tokenizer.with_pre_tokenizer(Some(WhitespaceSplit));
    tokenizer
}

fn chosen(instructions: &str) -> Question {
    Question::Choice(ChoiceQuestion {
        instructions: Description::new(instructions),
        criteria: ChoiceCriteria::Labels(vec!["yes".to_string(), "no".to_string()]),
    })
}

#[test]
fn request_fits_counts_state_instructions_and_candidates_per_question() {
    let client = JevClient::new("key", "model").unwrap();
    assert_eq!(client.context_tokens(), 8192);
    assert!(client.tokenizer.is_none());
    let client = client.with_context_tokens(4).unwrap();
    let base = |state: &str| {
        SystemOneRequest::new(state)
            .question("first", chosen("Choose"))
            .question("second", chosen("Choose"))
    };
    let bare: DecisionModel = client.into();
    assert_eq!(bare.request_fits(&base("state")).unwrap(), Fit::NeedsTokenizer);
    let DecisionModel::Jev(client) = bare else { panic!("hosted") };
    let model: DecisionModel = client.with_tokenizer(word_tokenizer()).into();
    assert_eq!(model.context_tokens(), 4);
    assert_eq!(model.request_fits(&base("state")).unwrap(), Fit::Known(true));
    assert_eq!(model.request_fits(&base("two words")).unwrap(), Fit::Known(false));
    let long = [
        Question::Choice(ChoiceQuestion {
            instructions: Description::new("Choose"),
            criteria: ChoiceCriteria::Labelled(vec![
                ChoiceOption {
                    label: "a".to_string(),
                    description: Some(Description::new("many words")),
                },
                ChoiceOption { label: "b".to_string(), description: Some(Description::new("x")) },
            ]),
        }),
        Question::Score(ScoreQuestion {
            instructions: Description::new("Rate"),
            criteria: vec![Description::new("many words"), Description::new("good")],
        }),
        Question::Noul(NoulQuestion {
            instructions: Description::new("Paid?"),
            criteria: Some(NoulCriteria {
                yes: Some(Description::new("many words")),
                no: Some(Description::new("no")),
            }),
        }),
    ];
    for question in long {
        assert_eq!(
            model.request_fits(&base("state").question("long", question)).unwrap(),
            Fit::Known(false)
        );
    }
    let long_instructions = SystemOneRequest::new("state")
        .question("first", chosen("Choose"))
        .question("second", chosen("Choose carefully"));
    assert_eq!(model.request_fits(&long_instructions).unwrap(), Fit::Known(false));
}

#[test]
fn shared_backend_delegates_without_loading_local_weights() {
    let model: DecisionModel = client("chosen").into();
    assert!(model.local().is_none());
    assert_eq!(model.model_name(), "chosen");
    let r = request(0.4);
    let mut stats = JevStats::zero();
    let Ok(Work::Jev(mut call)) = model.system_one(&r, &mut stats) else { panic!("a call") };
    assert_eq!(run(&mut call, &r, &[200], 0.4, &mut stats).unwrap().model, "jev-test");
    let Ok(BatchWork::Jev(bounds)) = model.system_one_batch(&[]) else { panic!("batches") };
    assert!(bounds.is_empty());
}

#[test]
fn retries_are_bounded_and_schema_mismatches_fail() {
    let client = client("chosen");
    let r = request(0.4);
    let mut stats = JevStats::zero();
    let mut call = client.system_one(&r, &mut stats).unwrap();
    assert!(matches!(
        run(&mut call, &r, &[503; 3], 0.4, &mut stats),
        Err(SystemOneError::HttpStatus(503))
    ));
    assert_eq!(stats.attempts, 3);
    assert_eq!(stats.retries, 2);
    let mut stats = JevStats::zero();
    let r = SystemOneRequest::new("{\"p\": 0.4}").question("different", noul("test"));
    let mut call = client.system_one(&r, &mut stats).unwrap();
    let Err(SystemOneError::Remote(m)) = run(&mut call, &r, &[200], 0.4, &mut stats) else {
        panic!("refused")
    };
    assert_eq!(m, "response answers do not match request questions");
    assert_eq!(stats.successes, 0);
}

#[test]
fn waits_double_and_long_waits_are_refused() {
    let client = client("m");
    let r = request(0.1);
    let mut stats = JevStats::zero();
    let mut call = client.system_one(&r, &mut stats).unwrap();
    let later = |after: Option<&str>| JevEvent::Status {
        status: 529,
        retry_after: after.map(|a| a.to_string()),
    };
    assert!(matches!(call.receive(&r, later(None), &mut stats), JevAction::Wait(1)));
    assert!(matches!(call.receive(&r, later(Some("soon")), &mut stats), JevAction::Wait(2)));
    assert!(matches!(call.receive(&r, later(None), &mut stats), JevAction::Fail(_)));
    let mut call = client.system_one(&r, &mut stats).unwrap();
    assert!(matches!(call.receive(&r, later(Some("60")), &mut stats), JevAction::Wait(60)));
    assert!(matches!(
        call.receive(&r, later(Some("61")), &mut stats),
        JevAction::Fail(SystemOneError::HttpStatus(529))
    ));
}

#[test]
fn broken_connections_and_bodies_fail() {
    let client = client("m");
    let r = request(0.1);
    let mut stats = JevStats::zero();
    let mut call = client.system_one(&r, &mut stats).unwrap();
    let JevAction::Fail(e) = call.receive(&r, JevEvent::Unreachable, &mut stats) else {
        panic!("failed")
    };
    assert_eq!(e.message(), "hosted model error: HTTP connection or timeout failure");
    let JevAction::Fail(e) = call.receive(&r, JevEvent::Body(None), &mut stats) else {
        panic!("failed")
    };
    assert_eq!(e.message(), "hosted model error: invalid response JSON");
    let empty = SystemOneRequest::new("s");
    let Err(e) = client.system_one(&empty, &mut stats) else { panic!("refused") };
    assert_eq!(e.message(), "model configuration error: Jev requires at least one question");
}

#[test]
fn endpoints_are_web_addresses_without_credentials() {
    let with = |url: &str| client("m").with_endpoint(url);
    assert_eq!(with("http://127.0.0.1:80/v1").unwrap().endpoint, "http://127.0.0.1:80/v1");
    assert!(with("https://example.com/x").is_ok());
    let Err(SystemOneError::Config(m)) = with("no address") else { panic!("refused") };
    assert_eq!(m, "invalid Jev endpoint");
    for url in ["ftp://example.com/", "https://user@example.com/", "https://a:b@example.com/"] {
        let Err(SystemOneError::Config(m)) = with(url) else { panic!("refused") };
        assert_eq!(m, "Jev endpoint must be HTTP(S) without embedded credentials");
    }
    assert!(JevClient::new("bad\nkey", "m").is_err());
}

#[test]
fn one_dead_worker_fails_the_batch() {
    let mut output = Vec::new();
    let outcomes = vec![Some(Ok(response(0.1))), None];
    let Err(e) = JevClient::gather(&mut output, outcomes) else { panic!("failed") };
    assert_eq!(e.message(), "hosted model error: HTTP worker panicked");
}

#[test]
fn responses_are_the_calls_outcomes_in_order() {
    let rs = [request(0.1), request(0.2)];
    let both = Evaluated::Jev(vec![Some(Ok(response(0.25))), Some(Ok(response(0.5)))]);
    let responses = both.respond(&rs).unwrap();
    let values: Vec<u32> = responses
        .iter()
        .map(|r| r.answers.get("q").unwrap().noul().unwrap().bits)
        .collect();
    assert_eq!(values, [0.25f32.to_bits(), 0.5f32.to_bits()]);
    let broken = SystemOneError::Remote("down".to_string());
    let Err(e) = Evaluated::Jev(vec![Some(Err(broken))]).respond(&rs) else { panic!("failed") };
    assert_eq!(e.message(), "hosted model error: down");
    let own = Evaluated::Responses(vec![response(0.5)]).respond(&rs[..1]).unwrap();
    assert_eq!(own.len(), 1);
    assert_eq!(own[0].model, response(0.5).model);
}

#[test]
fn whole_numbers_are_read() {
    assert_eq!(parse_whole("0"), Some(0));
    assert_eq!(parse_whole("+12"), Some(12));
    assert_eq!(parse_whole("18446744073709551615"), Some(u64::MAX));
    for bad in ["", "+", "-1", "1.5", " 1", "18446744073709551616"] {
        assert_eq!(parse_whole(bad), None, "{bad}");
    }
}

#[test]
fn counters_add_up_whichever_way_calls_take_turns() {
    let client = client("chosen");
    let (a, b) = (request(0.1), request(0.2));
    let mut stats = JevStats::zero();
    let mut first = client.system_one(&a, &mut stats).unwrap();
    first.attempt(&mut stats);
    let mut second = client.system_one(&b, &mut stats).unwrap();
    assert!(matches!(first.receive(&a, status(503), &mut stats), JevAction::Wait(0)));
    second.attempt(&mut stats);
    assert!(matches!(second.receive(&b, JevEvent::Unreachable, &mut stats), JevAction::Fail(_)));
    assert!(run(&mut first, &a, &[200], 0.1, &mut stats).is_ok());
    let empty = SystemOneRequest::new("nothing asked");
    assert!(client.system_one(&empty, &mut stats).is_err());
    assert_eq!(
        (stats.calls, stats.attempts, stats.retries, stats.successes, stats.questions),
        (2, 3, 1, 1, 2)
    );
    assert_eq!(stats.attempts, stats.calls + stats.retries);
}
