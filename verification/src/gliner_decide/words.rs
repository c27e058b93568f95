//! Cutting text into words.
use crate::text::texts;
use regex::Regex;
use vstd::prelude::*;

verus! {

/// Web addresses, mail addresses, handles, words with inner hyphens and
/// underscores, and single characters of any other kind.
pub const WORDS: &'static str =
    r"(?i)(?:https?://\S+|www\.\S+)|[a-z0-9._%+-]+@[a-z0-9.-]+\.[a-z]{2,}|@[a-z0-9_]+|\w+(?:[-_]\w+)*|\S";

#[verifier::external_type_specification]
#[verifier::external_body]
pub struct ExRegex(regex::Regex);

/// Whether a pattern is a regular expression.
pub uninterp spec fn valid_pattern(pattern: Seq<char>) -> bool;

/// The pattern that a regular expression was made from.
pub uninterp spec fn regex_pattern(regex: Regex) -> Seq<char>;

/// The successive matches of a pattern in a text that do not overlap.
pub uninterp spec fn pattern_matches(pattern: Seq<char>, text: Seq<char>) -> Seq<Seq<char>>;

/// A text in lower case.
pub uninterp spec fn lowercase(text: Seq<char>) -> Seq<char>;

/// `Regex::new`: a regular expression with this pattern, where the pattern
/// is one.
#[verifier::external_body]
fn compile(pattern: &str) -> (regex: Option<Regex>)
    ensures
        regex is Some <==> valid_pattern(pattern@),
        regex matches Some(r) ==> regex_pattern(r) == pattern@,
{
    Regex::new(pattern).ok()
}

/// `Regex::find_iter`: the texts of the matches, which follow from the
/// pattern and the text alone.
#[verifier::external_body]
fn find_all(regex: &Regex, text: &str) -> (found: Vec<String>)
    ensures
        texts(found@) == pattern_matches(regex_pattern(*regex), text@),
{
    regex.find_iter(text).map(|m| m.as_str().to_owned()).collect()
}

/// `str::to_lowercase`: the lower case that Unicode gives the text.
#[verifier::external_body]
fn to_lowercase(text: &str) -> (lower: String)
    ensures
        lower@ == lowercase(text@),
{
    text.to_lowercase()
}

/// The words of a text: the matches of the word pattern in lower case.
pub open spec fn words_of(text: Seq<char>) -> Seq<Seq<char>> {
    pattern_matches(WORDS@, text).map_values(|w: Seq<char>| lowercase(w))
}

/// Cuts text into words.
pub struct Words {
    regex: Regex,
}

impl Words {
    /// The word pattern was compiled.
    pub closed spec fn wf(&self) -> bool {
        regex_pattern(self.regex) == WORDS@
    }

    /// Compiles the word pattern.
    pub fn new() -> (words: Option<Words>)
        ensures
            words is Some <==> valid_pattern(WORDS@),
            words matches Some(w) ==> w.wf(),
    {
        match compile(WORDS) {
            Some(regex) => Some(Words { regex }),
            None => None,
        }
    }

    /// The words of a text, in lower case.
    pub fn split(&self, text: &str) -> (words: Vec<String>)
        requires
            self.wf(),
        ensures
            texts(words@) == words_of(text@),
    {
        let found = find_all(&self.regex, text);
        let mut words: Vec<String> = Vec::new();
        let mut i: usize = 0;
        while i < found.len()
            invariant
                i <= found.len(),
                words.len() == i,
                forall|k: int| 0 <= k < i ==> (#[trigger] words@[k])@ == lowercase(found@[k]@),
            decreases found.len() - i,
        {
            words.push(to_lowercase(found[i].as_str()));
            i += 1;
        }
        assert(texts(found@).len() == found@.len());
        assert forall|k: int| 0 <= k < words@.len() implies #[trigger] texts(words@)[k] == words_of(
            text@,
        )[k] by {
            assert(texts(found@)[k] == found@[k]@);
        }
        assert(texts(words@) =~= words_of(text@));
        words
    }
}

} // verus!
