use tokenizers::decoders::bpe::BPEDecoder;
use tokenizers::decoders::byte_level::ByteLevel;
use tokenizers::decoders::strip::Strip;
use tokenizers::models::wordlevel::WordLevel;
use tokenizers::pre_tokenizers::split::{Split, SplitPattern};
use tokenizers::pre_tokenizers::whitespace::WhitespaceSplit;
use tokenizers::processors::template::TemplateProcessing;
use tokenizers::processors::PostProcessorWrapper;
use tokenizers::{SplitDelimiterBehavior, Tokenizer, TruncationParams};
use vs1::tokens::{
    cut_encodings, has_room, has_whole_template, keep_encodings_whole, surely_decodes,
    surely_encodes,
};

fn words() -> Tokenizer {
    let model = WordLevel::builder()
        .vocab([("[UNK]".to_string(), 0), ("a".to_string(), 1)].into_iter().collect())
        .unk_token("[UNK]".to_string())
        .build()
        .unwrap();
    let mut tokenizer = Tokenizer::new(model);
    tokenizer.with_pre_tokenizer(Some(WhitespaceSplit));
    tokenizer
}

fn cut(tokenizer: &mut Tokenizer, max_length: usize, stride: usize) {
    tokenizer
        .with_truncation(Some(TruncationParams { max_length, stride, ..Default::default() }))
        .unwrap();
}

fn template(single: &str, known: &str) -> PostProcessorWrapper {
    let json = format!(
        r#"{{"type":"TemplateProcessing","single":{single},"pair":[{{"Sequence":{{"id":"A","type_id":0}}}},{{"Sequence":{{"id":"B","type_id":1}}}}],"special_tokens":{known}}}"#
    );
    serde_json::from_str(&json).unwrap()
}

const FRAMED: &str =
    r#"[{"SpecialToken":{"id":"[CLS]","type_id":0}},{"Sequence":{"id":"A","type_id":0}}]"#;

const KNOWN: &str = r#"{"[CLS]":{"id":"[CLS]","ids":[7],"tokens":["[CLS]"]}}"#;

#[test]
fn cut_parts_must_be_longer_than_their_overlap() {
    let mut tokenizer = words();
    assert!(has_room(&tokenizer, true));
    cut(&mut tokenizer, 4, 3);
    assert!(has_room(&tokenizer, false));
    cut(&mut tokenizer, 4, 4);
    assert!(!has_room(&tokenizer, false));
    assert!(!has_room(&tokenizer, true));
    cut(&mut tokenizer, 0, 0);
    assert!(has_room(&tokenizer, true));
    cut(&mut tokenizer, 4, 4);
    assert_eq!(cut_encodings(&mut tokenizer, 4), Some(()));
    assert!(has_room(&tokenizer, true));
    keep_encodings_whole(&mut tokenizer);
    assert!(tokenizer.get_truncation().is_none());
}

#[test]
fn special_tokens_take_room_only_where_they_are_added() {
    let mut tokenizer = words();
    tokenizer.with_post_processor(Some(template(FRAMED, KNOWN)));
    cut(&mut tokenizer, 4, 3);
    assert!(has_room(&tokenizer, false));
    assert!(!has_room(&tokenizer, true));
    cut(&mut tokenizer, 4, 2);
    assert!(has_room(&tokenizer, true));
    cut(&mut tokenizer, 1, 0);
    assert!(has_room(&tokenizer, true));
    assert_eq!(cut_encodings(&mut tokenizer, 0), None);
    assert_eq!(tokenizer.get_truncation().unwrap().max_length, 1);
}

#[test]
fn templates_must_define_what_they_name() {
    let mut tokenizer = words();
    assert!(has_whole_template(&tokenizer, true));
    tokenizer.with_post_processor(Some(template(FRAMED, KNOWN)));
    assert!(has_whole_template(&tokenizer, true));
    tokenizer.with_post_processor(Some(template(FRAMED, "{}")));
    assert!(!has_whole_template(&tokenizer, true));
    assert!(has_whole_template(&tokenizer, false));
    assert!(!has_room(&tokenizer, true));
    let second = r#"[{"Sequence":{"id":"B","type_id":0}}]"#;
    tokenizer.with_post_processor(Some(template(second, "{}")));
    assert!(!has_whole_template(&tokenizer, true));
    assert!(!has_whole_template(&tokenizer, false));
    let built = TemplateProcessing::builder().try_single("$A").unwrap().build().unwrap();
    tokenizer.with_post_processor(Some(built));
    assert!(has_whole_template(&tokenizer, true));
}

#[test]
fn plain_tokenizers_encode_any_text() {
    let mut tokenizer = words();
    assert!(surely_encodes(&tokenizer, true));
    tokenizer.with_post_processor(Some(template(FRAMED, "{}")));
    assert!(!surely_encodes(&tokenizer, true));
    assert!(surely_encodes(&tokenizer, false));
    let pattern = SplitPattern::Regex("(a|a)*b".to_string());
    let split = Split::new(pattern, SplitDelimiterBehavior::Isolated, false).unwrap();
    tokenizer.with_pre_tokenizer(Some(split));
    assert!(!surely_encodes(&tokenizer, false));
}

#[test]
fn some_decoders_put_any_tokens_together() {
    let mut tokenizer = words();
    assert!(surely_decodes(&tokenizer));
    tokenizer.with_decoder(Some(ByteLevel::default()));
    assert!(surely_decodes(&tokenizer));
    tokenizer.with_decoder(Some(BPEDecoder::default()));
    assert!(!surely_decodes(&tokenizer));
    tokenizer.with_decoder(Some(Strip::new('_', 1, 1)));
    assert!(!surely_decodes(&tokenizer));
}
