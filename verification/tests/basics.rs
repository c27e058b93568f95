use vs1::batching::{push_mask, push_row};
use vs1::ordering::{order_by_size, rank};
use vs1::score::{all_finite, first_greatest, Double, Float};
use vs1::sorted::Sorted;
use vs1::table::Table;
use vs1::text::{
    all_distinct, begins_with, char_is_space, chars_of, decimal_text, finishes_with, has_text, is_blank,
    join_texts, lists, signed_text, text_of, without_prefix, without_suffix, write_list,
};
use vs1::tokens::{find_positions, holds_token, join_all};
use vs1::types::legend;
use vs1::{
    ChoiceCriteria, ChoiceOption, ChoiceQuestion, Description, NoulQuestion, Question, SystemOneError,
    SystemOneRequest,
};

fn strings(list: &[&str]) -> Vec<String> {
    list.iter().map(|s| s.to_string()).collect()
}

#[test]
fn texts_are_searched_and_cut() {
    assert!(has_text("a [L] b", "[L]"));
    assert!(!has_text("a [L b", "[L]"));
    assert!(has_text("x", ""));
    assert!(begins_with("abc", "ab") && finishes_with("abc", "bc"));
    assert_eq!(without_prefix("abc", "ab").as_deref(), Some("c"));
    assert_eq!(without_suffix("abc", "bc").as_deref(), Some("a"));
    assert_eq!(without_prefix("abc", "x"), None);
    assert!(is_blank(" \t\n\u{a0}") && !is_blank(" x "));
    assert!(char_is_space('\u{2003}') && !char_is_space('x'));
    assert_eq!(text_of(&chars_of("añ🙂")), "añ🙂");
    assert_eq!(decimal_text(0), "0");
    assert_eq!(decimal_text(usize::MAX), usize::MAX.to_string());
    assert_eq!(signed_text(i32::MIN), i32::MIN.to_string());
    assert_eq!(write_list(&vec![1, 20]), "[1, 20]");
    assert_eq!(write_list(&vec![]), "[]");
    assert_eq!(join_texts(&strings(&["a", "b", "c"]), ", "), "a, b, c");
    assert!(lists(&strings(&["a", "b"]), "b") && !lists(&strings(&["a"]), "b"));
    assert!(all_distinct(&strings(&["a", "b"])) && !all_distinct(&strings(&["a", "a"])));
}

#[test]
fn tables_keep_the_order_in_which_keys_came() {
    let mut table: Table<u32> = Table::new();
    table.insert("b".to_string(), 1);
    table.insert("a".to_string(), 2);
    table.insert("b".to_string(), 3);
    assert_eq!(table.len(), 2);
    assert_eq!((table.key(0), *table.value(0)), ("b", 3));
    assert_eq!((table.key(1), *table.value(1)), ("a", 2));
    assert_eq!(table.get("a"), Some(&2));
    assert_eq!(table.get("c"), None);
    let copy = table.copy();
    assert_eq!((copy.key(0), *copy.value(0)), ("b", 3));
    let made = Table::collect(&strings(&["x", "y", "x"]), &vec![1u32, 2, 3]);
    assert_eq!((made.len(), *made.get("x").unwrap()), (2, 3));
}

#[test]
fn sorted_tables_find_by_key() {
    let mut sorted: Sorted<u32> = Sorted::new();
    for (k, v) in [("b", 1u32), ("a", 2), ("ab", 3)] {
        match sorted.find(k) {
            Ok(at) => sorted.set(at, v),
            Err(at) => sorted.insert_at(at, k.to_string(), v),
        }
    }
    assert_eq!(sorted.len(), 3);
    assert_eq!((sorted.key(0), sorted.key(1), sorted.key(2)), ("a", "ab", "b"));
    assert_eq!(sorted.find("ab"), Ok(1));
    assert_eq!(sorted.find("aa"), Err(1));
}

#[test]
fn numbers_are_ordered_by_their_bits() {
    let f = |x: f32| Float { bits: x.to_bits() };
    assert!(f(1.).exceeds(f(-1.)) && f(-1.).exceeds(f(-2.)));
    assert!(!f(0.).exceeds(f(-0.)) && !f(-0.).exceeds(f(0.)));
    assert!(!f(f32::NAN).exceeds(f(0.)) && !f(0.).exceeds(f(f32::NAN)));
    assert!(f(f32::INFINITY).exceeds(f(f32::MAX)));
    assert!(f(1.).is_positive() && !f(0.).is_positive() && !f(f32::INFINITY).is_positive());
    assert!(f(f32::MIN_POSITIVE).is_finite() && !f(f32::NAN).is_finite());
    assert_eq!(first_greatest(&vec![f(1.), f(3.), f(3.), f(2.)]), 1);
    assert!(all_finite(&vec![f(1.), f(-2.)]) && !all_finite(&vec![f(1.), f(f32::NAN)]));
    assert!(Double { bits: f64::MAX.to_bits() }.is_finite());
    assert!(!Double { bits: f64::INFINITY.to_bits() }.is_finite());
}

#[test]
fn rows_are_padded_and_ordered() {
    let mut ids: Vec<u32> = vec![];
    push_row(&mut ids, &vec![5, 6], 4, 9);
    push_row(&mut ids, &vec![7], 4, 9);
    assert_eq!(ids, [5, 6, 9, 9, 7, 9, 9, 9]);
    let mut mask: Vec<u32> = vec![];
    push_mask(&mut mask, &vec![5, 6], 4);
    assert_eq!(mask, [1, 1, 0, 0]);
    let order = order_by_size(&vec![2, 5, 2, 7]);
    assert_eq!(order, [0, 2, 1, 3]);
    assert_eq!(rank(&order), [0, 2, 1, 3]);
}

#[test]
fn token_lists_are_joined_and_searched() {
    assert_eq!(join_all(&vec![vec![1, 2], vec![], vec![3]]), [1, 2, 3]);
    assert_eq!(find_positions(&vec![4, 5, 4], 4), [0, 2]);
    assert!(holds_token(&vec![4, 5], 5) && !holds_token(&vec![4], 5));
}

#[test]
fn messages_name_the_failure() {
    let shown = |e: SystemOneError| e.message();
    assert_eq!(shown(SystemOneError::HttpStatus(503)), "hosted model returned HTTP 503");
    assert_eq!(shown(SystemOneError::Candle("x".to_string())), "candle error: x");
    assert_eq!(shown(SystemOneError::Tokenizer("x".to_string())), "tokenizer error: x");
    assert_eq!(shown(SystemOneError::Json("x".to_string())), "json error: x");
    assert_eq!(shown(SystemOneError::Hub("x".to_string())), "hugging face hub error: x");
    assert_eq!(shown(SystemOneError::Io("x".to_string())), "i/o error: x");
    assert_eq!(shown(SystemOneError::Config("x".to_string())), "model configuration error: x");
    assert_eq!(shown(SystemOneError::Remote("x".to_string())), "hosted model error: x");
    let question = SystemOneError::Question { id: "a\"b".to_string(), reason: "no".to_string() };
    assert_eq!(shown(question), "question \"a\\\"b\": no");
}

#[test]
fn questions_render_their_options() {
    let q = Question::Choice(ChoiceQuestion {
        instructions: Description::new("i"),
        criteria: ChoiceCriteria::Labelled(vec![
            ChoiceOption { label: "a".to_string(), description: Some(Description::new("first")) },
            ChoiceOption { label: "b".to_string(), description: None },
        ]),
    });
    assert_eq!(q.render_options(), ["first", "b"]);
    assert_eq!(q.instructions().text, "i");
    let steps = vec![Description::new("bad"), Description::new("good")];
    let named = legend(&steps);
    assert_eq!((named.key(1), named.value(1).text.as_str()), ("1", "good"));
    let noul = || {
        Question::Noul(NoulQuestion { instructions: Description::new("x"), criteria: None })
    };
    let request = SystemOneRequest::new("s").question("q", noul()).question("q", q);
    assert_eq!(request.questions.len(), 1);
    assert!(matches!(request.questions.value(0), Question::Choice(_)));
}
