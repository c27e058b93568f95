//! The tokenizer that turns prompts into token ids.
use crate::text::has_text;
use tokenizers::decoders::DecoderWrapper;
use tokenizers::models::ModelWrapper;
use tokenizers::pre_tokenizers::PreTokenizerWrapper;
use tokenizers::processors::template::TemplateProcessing;
use tokenizers::processors::PostProcessorWrapper;
use tokenizers::{PostProcessor, Tokenizer, TruncationParams};
use vstd::prelude::*;

verus! {

#[verifier::external_type_specification]
#[verifier::external_body]
pub struct ExTokenizer(tokenizers::Tokenizer);

/// `outcome` is one that encoding `text` may have: token ids, or the text of
/// an error. Merge dropout, where a tokenizer is set up with it, draws at
/// random, so that one text can have several outcomes.
pub uninterp spec fn encoding(
    tokenizer: Tokenizer,
    text: Seq<char>,
    special: bool,
    outcome: Result<Seq<u32>, Seq<char>>,
) -> bool;

/// What decoding gives: text, or the text of an error.
pub uninterp spec fn decoding(tokenizer: Tokenizer, ids: Seq<u32>, skip_special: bool) -> Result<
    Seq<char>,
    Seq<char>,
>;

/// The id of a token, where the vocabulary holds it.
pub uninterp spec fn token_id(tokenizer: Tokenizer, token: Seq<char>) -> Option<u32>;

/// How many tokens encodings are cut to, where they are cut.
pub uninterp spec fn cut_length(tokenizer: Tokenizer) -> Option<usize>;

/// By how many tokens the parts of a cut encoding overlap; none where
/// encodings are not cut.
pub uninterp spec fn stride(tokenizer: Tokenizer) -> usize;

/// How many special tokens are added to a single text.
pub uninterp spec fn added_tokens(tokenizer: Tokenizer) -> usize;

/// Short encodings are filled up with padding tokens.
pub uninterp spec fn pads(tokenizer: Tokenizer) -> bool;

/// The template that special tokens are added by defines every special token
/// that it names for a single text. True also where there is no template.
pub uninterp spec fn complete_template(tokenizer: Tokenizer) -> bool;

/// The pieces of the template for a single text, written out; empty where
/// there is no template.
pub uninterp spec fn template_text(tokenizer: Tokenizer) -> Seq<char>;

/// Every text can be taken apart: no pattern or table of the tokenizer is at
/// fault on any text, its added tokens never reach across each other, the
/// steps behind the model take what the steps before them leave, and padding
/// can be counted.
pub uninterp spec fn steady(tokenizer: Tokenizer) -> bool;

/// Every list of tokens can be put together again.
pub uninterp spec fn decodes(tokenizer: Tokenizer) -> bool;

/// How the template for a single text would name a second one.
pub const SECOND_TEXT: &'static str = "Sequence { id: B";

/// The template for a single text asks for no second one.
pub open spec fn one_sided(tokenizer: Tokenizer) -> bool {
    !crate::text::contains(template_text(tokenizer), SECOND_TEXT@)
}

/// Cutting leaves room for the special tokens, and what is left is longer than
/// the overlap.
pub open spec fn cut_fits(length: Option<usize>, overlap: usize, added: usize) -> bool {
    length matches Some(n) ==> added <= n && (n > added ==> overlap < n - added)
}

/// Encodings, with special tokens or without, are cut to a length that has
/// room for what is added, and the template is whole.
pub open spec fn roomy(tokenizer: Tokenizer, special: bool) -> bool {
    &&& cut_fits(
        cut_length(tokenizer),
        stride(tokenizer),
        if special {
            added_tokens(tokenizer)
        } else {
            0
        },
    )
    &&& one_sided(tokenizer)
    &&& special ==> complete_template(tokenizer)
}

/// Any text can be encoded, with special tokens or without.
pub open spec fn encodes(tokenizer: Tokenizer, special: bool) -> bool {
    roomy(tokenizer, special) && steady(tokenizer)
}

/// A result of token ids with its values as sequences.
pub open spec fn ids_outcome(result: Result<Vec<u32>, String>) -> Result<Seq<u32>, Seq<char>> {
    match result {
        Ok(ids) => Ok(ids@),
        Err(message) => Err(message@),
    }
}

/// A result of text with its values as sequences.
pub open spec fn text_outcome(result: Result<String, String>) -> Result<Seq<char>, Seq<char>> {
    match result {
        Ok(text) => Ok(text@),
        Err(message) => Err(message@),
    }
}

/// `Tokenizer::encode` on a single text: some outcome of encoding it. It
/// panics where the overlap of cut parts is as long as the parts, where a
/// template names a special token it does not define or a second text, and
/// where a pattern or a table of the tokenizer is at fault on the text;
/// `encodes` leaves such tokenizers out.
#[verifier::external_body]
pub(crate) fn encode(tokenizer: &Tokenizer, text: &str, special: bool) -> (result: Result<
    Vec<u32>,
    String,
>)
    requires
        encodes(*tokenizer, special),
    ensures
        encoding(*tokenizer, text@, special, ids_outcome(result)),
{
    match tokenizer.encode(text, special) {
        Ok(encoded) => Ok(encoded.get_ids().to_vec()),
        Err(error) => Err(error.to_string()),
    }
}

/// `Tokenizer::decode`: what decoding these ids gives. Some decoders panic on
/// an empty list or on a short token; `decodes` leaves them out.
#[verifier::external_body]
pub(crate) fn decode(tokenizer: &Tokenizer, ids: &[u32], skip_special: bool) -> (result: Result<
    String,
    String,
>)
    requires
        decodes(*tokenizer),
    ensures
        text_outcome(result) == decoding(*tokenizer, ids@, skip_special),
{
    match tokenizer.decode(ids, skip_special) {
        Ok(text) => Ok(text),
        Err(error) => Err(error.to_string()),
    }
}

/// `Tokenizer::clone`: the same tokenizer once more. Only what it has cached
/// is left out, on which no result depends.
#[verifier::external_body]
pub(crate) fn copy_tokenizer(tokenizer: &Tokenizer) -> (copy: Tokenizer)
    ensures
        copy == *tokenizer,
{
    tokenizer.clone()
}

/// `Tokenizer::token_to_id`: the id of a token, where the vocabulary holds
/// it.
#[verifier::external_body]
pub(crate) fn token_to_id(tokenizer: &Tokenizer, token: &str) -> (id: Option<u32>)
    ensures
        id == token_id(*tokenizer, token@),
{
    tokenizer.token_to_id(token)
}

/// `get_truncation`: how many tokens encodings are cut to and by how many the
/// parts overlap, where they are cut.
#[verifier::external_body]
pub(crate) fn truncation(tokenizer: &Tokenizer) -> (cut: Option<(usize, usize)>)
    ensures
        match cut {
            Some(c) => cut_length(*tokenizer) == Some(c.0) && stride(*tokenizer) == c.1,
            None => cut_length(*tokenizer) is None && stride(*tokenizer) == 0,
        },
{
    tokenizer.get_truncation().map(|params| (params.max_length, params.stride))
}

/// `get_post_processor`, where it is a template: whether a builder given its
/// template for a single text and its special tokens accepts them, which it
/// does where each special token that is named is defined, and what
/// `get_single` writes, which is the pieces as they are declared.
#[verifier::external_body]
fn template(tokenizer: &Tokenizer) -> (found: Option<(bool, String)>)
    ensures
        match found {
            Some(t) => complete_template(*tokenizer) == t.0 && template_text(*tokenizer) == t.1@,
            None => complete_template(*tokenizer) && template_text(*tokenizer)
                == Seq::<char>::empty(),
        },
{
    match tokenizer.get_post_processor() {
        Some(PostProcessorWrapper::Template(t)) => {
            let mut builder = TemplateProcessing::builder();
            builder.single(t.single.clone()).special_tokens(t.get_special_tokens().clone());
            Some((builder.build().is_ok(), t.get_single()))
        },
        _ => None,
    }
}

/// How texts are split before tokens are looked up.
#[derive(Clone, Copy, Debug, PartialEq, Eq, Structural)]
pub enum Splits {
    Never,
    Bytes,
    Whitespace,
    Otherwise,
}

/// What a tokenizer is made of.
#[derive(Clone, Copy, Debug)]
pub struct Parts {
    pub normalizes: bool,
    pub splits: Splits,
    /// The model weighs all ways of cutting a text up.
    pub unigram: bool,
    pub added: bool,
    pub pads: bool,
    /// Post-processors follow each other.
    pub chained: bool,
}

impl Parts {
    /// Nothing but lookups and merges of words or bytes.
    pub open spec fn plain(self) -> bool {
        &&& !self.normalizes
        &&& self.splits != Splits::Otherwise
        &&& !self.unigram
        &&& !self.added
        &&& !self.pads
        &&& !self.chained
    }
}

/// `get_normalizer`, `get_pre_tokenizer`, `get_model`, `get_added_vocabulary`,
/// `get_padding` and `get_post_processor`: a tokenizer without a normalizer,
/// added tokens, padding and chained post-processors is steady where it splits
/// at whitespace, into bytes or not at all, and looks words up or merges them.
/// Other tokenizers may be steady too: of patterns and tables that come with a
/// file nothing is said here.
#[verifier::external_body]
fn parts(tokenizer: &Tokenizer) -> (parts: Parts)
    ensures
        parts.plain() ==> steady(*tokenizer),
{
    let splits = match tokenizer.get_pre_tokenizer() {
        None => Splits::Never,
        Some(PreTokenizerWrapper::ByteLevel(_)) => Splits::Bytes,
        Some(PreTokenizerWrapper::Whitespace(_)) => Splits::Whitespace,
        Some(PreTokenizerWrapper::WhitespaceSplit(_)) => Splits::Whitespace,
        Some(_) => Splits::Otherwise,
    };
    Parts {
        normalizes: tokenizer.get_normalizer().is_some(),
        splits,
        unigram: matches!(tokenizer.get_model(), ModelWrapper::Unigram(_)),
        added: !tokenizer.get_added_vocabulary().is_empty(),
        pads: tokenizer.get_padding().is_some(),
        chained: matches!(tokenizer.get_post_processor(), Some(PostProcessorWrapper::Sequence(_))),
    }
}

/// `get_decoder`: tokens are put together whatever they are without a decoder
/// and by the decoders that are listed. The other ones can fail on an empty
/// list or on a short token, or hold patterns or decoders that can; of them
/// nothing is said here.
#[verifier::external_body]
fn plain_decoder(tokenizer: &Tokenizer) -> (plain: bool)
    ensures
        plain ==> decodes(*tokenizer),
{
    match tokenizer.get_decoder() {
        None => true,
        Some(DecoderWrapper::ByteLevel(_)) => true,
        Some(DecoderWrapper::WordPiece(_)) => true,
        Some(DecoderWrapper::Metaspace(_)) => true,
        Some(DecoderWrapper::ByteFallback(_)) => true,
        Some(DecoderWrapper::Fuse(_)) => true,
        Some(DecoderWrapper::CTC(_)) => true,
        Some(_) => false,
    }
}

/// `added_tokens` of the post-processor for a single text; none are added
/// where there is no post-processor.
#[verifier::external_body]
pub(crate) fn special_count(tokenizer: &Tokenizer) -> (count: usize)
    ensures
        count == added_tokens(*tokenizer),
{
    tokenizer.get_post_processor().map_or(0, |processor| processor.added_tokens(false))
}

/// The vocabulary, the special tokens and the decoder of two tokenizers are
/// the same, and texts that the first takes apart the second does too.
pub open spec fn same_vocabulary(a: Tokenizer, b: Tokenizer) -> bool {
    &&& forall|token: Seq<char>| token_id(a, token) == #[trigger] token_id(b, token)
    &&& added_tokens(a) == added_tokens(b)
    &&& complete_template(a) == complete_template(b)
    &&& template_text(a) == template_text(b)
    &&& decodes(a) == decodes(b)
    &&& steady(a) ==> steady(b)
}

/// `with_truncation`: from now on encodings are cut to `length`, or not cut
/// at all. Without a stride the setting is never refused.
#[verifier::external_body]
pub(crate) fn set_truncation(tokenizer: &mut Tokenizer, length: Option<usize>) -> (result: Result<
    (),
    String,
>)
    requires
        length matches Some(n) ==> added_tokens(*old(tokenizer)) <= n,
    ensures
        result is Ok,
        cut_length(*final(tokenizer)) == length,
        stride(*final(tokenizer)) == 0,
        pads(*final(tokenizer)) == pads(*old(tokenizer)),
        same_vocabulary(*old(tokenizer), *final(tokenizer)),
{
    let params = length.map(|max_length| TruncationParams { max_length, ..Default::default() });
    match tokenizer.with_truncation(params) {
        Ok(_) => Ok(()),
        Err(error) => Err(error.to_string()),
    }
}

/// `with_padding(None)`: from now on encodings are not filled up.
#[verifier::external_body]
pub(crate) fn stop_padding(tokenizer: &mut Tokenizer)
    ensures
        !pads(*final(tokenizer)),
        cut_length(*final(tokenizer)) == cut_length(*old(tokenizer)),
        stride(*final(tokenizer)) == stride(*old(tokenizer)),
        same_vocabulary(*old(tokenizer), *final(tokenizer)),
{
    tokenizer.with_padding(None);
}

/// Cuts encodings to `length` where the special tokens fit within it. `None`
/// says that they do not, and nothing was set.
pub fn cut_encodings(tokenizer: &mut Tokenizer, length: usize) -> (done: Option<()>)
    ensures
        done is Some <==> added_tokens(*old(tokenizer)) <= length,
        done is Some ==> {
            &&& cut_length(*final(tokenizer)) == Some(length)
            &&& stride(*final(tokenizer)) == 0
            &&& !pads(*final(tokenizer))
            &&& same_vocabulary(*old(tokenizer), *final(tokenizer))
        },
        done is None ==> *final(tokenizer) == *old(tokenizer),
{
    if special_count(tokenizer) > length {
        return None;
    }
    let ghost before = *tokenizer;
    stop_padding(tokenizer);
    let ghost unpadded = *tokenizer;
    let _ = set_truncation(tokenizer, Some(length));
    proof {
        assert forall|token: Seq<char>| token_id(before, token) == #[trigger] token_id(
            *tokenizer,
            token,
        ) by {
            assert(token_id(unpadded, token) == token_id(before, token));
        }
    }
    Some(())
}

/// Leaves encodings whole: neither cut nor filled up.
pub fn keep_encodings_whole(tokenizer: &mut Tokenizer)
    ensures
        cut_length(*final(tokenizer)) is None,
        !pads(*final(tokenizer)),
        same_vocabulary(*old(tokenizer), *final(tokenizer)),
{
    let ghost before = *tokenizer;
    stop_padding(tokenizer);
    let ghost unpadded = *tokenizer;
    let _ = set_truncation(tokenizer, None);
    proof {
        assert forall|token: Seq<char>| token_id(before, token) == #[trigger] token_id(
            *tokenizer,
            token,
        ) by {
            assert(token_id(unpadded, token) == token_id(before, token));
        }
    }
}

/// Whether a template names no second text and, where special tokens are
/// added, defines those that it names.
pub fn has_whole_template(tokenizer: &Tokenizer, special: bool) -> (yes: bool)
    ensures
        yes == (one_sided(*tokenizer) && (special ==> complete_template(*tokenizer))),
{
    match template(tokenizer) {
        Some(found) => (found.0 || !special) && !has_text(found.1.as_str(), SECOND_TEXT),
        None => {
            proof {
                reveal_strlit("Sequence { id: B");
            }
            true
        },
    }
}

/// Whether encodings, with special tokens or without, have room for what is
/// added to them, and the template is whole.
pub fn has_room(tokenizer: &Tokenizer, special: bool) -> (yes: bool)
    ensures
        yes == roomy(*tokenizer, special),
{
    let added: usize = if special {
        special_count(tokenizer)
    } else {
        0
    };
    let fits = match truncation(tokenizer) {
        Some(cut) => added <= cut.0 && (cut.0 == added || cut.1 < cut.0 - added),
        None => true,
    };
    fits && has_whole_template(tokenizer, special)
}

/// Whether texts can be encoded, as far as that can be told: a tokenizer that
/// holds patterns or tables of its own may still be one that can.
pub fn surely_encodes(tokenizer: &Tokenizer, special: bool) -> (yes: bool)
    ensures
        yes ==> encodes(*tokenizer, special),
{
    let made = parts(tokenizer);
    has_room(tokenizer, special) && !made.normalizes && made.splits != Splits::Otherwise
        && !made.unigram && !made.added && !made.pads && !made.chained
}

/// Whether tokens can be put together again, as far as that can be told.
pub fn surely_decodes(tokenizer: &Tokenizer) -> (yes: bool)
    ensures
        yes ==> decodes(*tokenizer),
{
    plain_decoder(tokenizer)
}

/// Sequences of token ids.
pub open spec fn id_lists(v: Seq<Vec<u32>>) -> Seq<Seq<u32>> {
    v.map_values(|ids: Vec<u32>| ids@)
}

/// `lists` are encodings of the pieces, without special tokens.
pub open spec fn encodes_all(tokenizer: Tokenizer, pieces: Seq<Seq<char>>, lists: Seq<Seq<u32>>) -> bool {
    &&& lists.len() == pieces.len()
    &&& forall|i: int|
        0 <= i < pieces.len() ==> encoding(
            tokenizer,
            #[trigger] pieces[i],
            false,
            Ok(lists[i]),
        )
}

/// Encoding one of the pieces may fail with `message`, the ones before it
/// having been encoded.
pub open spec fn encoding_fails(
    tokenizer: Tokenizer,
    pieces: Seq<Seq<char>>,
    message: Seq<char>,
) -> bool {
    exists|p: int, lists: Seq<Seq<u32>>|
        {
            &&& 0 <= p < pieces.len()
            &&& #[trigger] encodes_all(tokenizer, pieces.take(p), lists)
            &&& encoding(tokenizer, pieces[p], false, Err(message))
        }
}

/// Encodes pieces one by one, without special tokens; the first that fails
/// decides the error.
pub(crate) fn encode_all(tokenizer: &Tokenizer, pieces: &Vec<String>) -> (result: Result<
    Vec<Vec<u32>>,
    String,
>)
    requires
        encodes(*tokenizer, false),
    ensures
        match result {
            Ok(lists) => encodes_all(
                *tokenizer,
                crate::text::texts(pieces@),
                id_lists(lists@),
            ),
            Err(message) => encoding_fails(*tokenizer, crate::text::texts(pieces@), message@),
        },
{
    let ghost all = crate::text::texts(pieces@);
    let mut lists: Vec<Vec<u32>> = Vec::new();
    let mut i: usize = 0;
    while i < pieces.len()
        invariant
            encodes(*tokenizer, false),
            all == crate::text::texts(pieces@),
            i <= pieces.len(),
            lists.len() == i,
            forall|k: int|
                0 <= k < i ==> encoding(*tokenizer, #[trigger] all[k], false, Ok(lists@[k]@)),
        decreases pieces.len() - i,
    {
        match encode(tokenizer, pieces[i].as_str(), false) {
            Ok(ids) => {
                lists.push(ids);
            },
            Err(message) => {
                proof {
                    let seen = id_lists(lists@);
                    assert forall|k: int| 0 <= k < i implies encoding(
                        *tokenizer,
                        #[trigger] all.take(i as int)[k],
                        false,
                        Ok(seen[k]),
                    ) by {
                        assert(all[k] == all.take(i as int)[k]);
                    }
                    assert(encodes_all(*tokenizer, all.take(i as int), seen));
                    assert(encoding(*tokenizer, all[i as int], false, Err(message@)));
                }
                return Err(message);
            },
        }
        i += 1;
    }
    Ok(lists)
}

/// The first `n` lists, one after the other.
pub open spec fn joined(lists: Seq<Seq<u32>>, n: nat) -> Seq<u32>
    decreases n,
{
    if n == 0 {
        Seq::empty()
    } else {
        joined(lists, (n - 1) as nat) + lists[n - 1]
    }
}

/// More lists join to something at least as long.
pub proof fn joined_grows(lists: Seq<Seq<u32>>, m: nat, n: nat)
    requires
        m <= n,
    ensures
        joined(lists, m).len() <= joined(lists, n).len(),
        joined(lists, n).take(joined(lists, m).len() as int) == joined(lists, m),
    decreases n,
{
    if m < n {
        joined_grows(lists, m, (n - 1) as nat);
        let before = joined(lists, (n - 1) as nat);
        assert(joined(lists, n).take(joined(lists, m).len() as int) =~= before.take(
            joined(lists, m).len() as int,
        ));
    } else {
        assert(joined(lists, n).take(joined(lists, m).len() as int) =~= joined(lists, m));
    }
}

/// Appends token ids.
pub fn append_ids(ids: &mut Vec<u32>, more: &Vec<u32>)
    ensures
        final(ids)@ == old(ids)@ + more@,
{
    let ghost before = ids@;
    let mut i: usize = 0;
    while i < more.len()
        invariant
            i <= more.len(),
            ids@ == before + more@.take(i as int),
        decreases more.len() - i,
    {
        ids.push(more[i]);
        assert(ids@ =~= before + more@.take(i + 1));
        i += 1;
    }
    assert(more@.take(more@.len() as int) =~= more@);
}

/// Joins lists of token ids.
pub fn join_all(lists: &Vec<Vec<u32>>) -> (ids: Vec<u32>)
    ensures
        ids@ == joined(id_lists(lists@), lists@.len()),
{
    let mut ids: Vec<u32> = Vec::new();
    let mut i: usize = 0;
    while i < lists.len()
        invariant
            i <= lists.len(),
            ids@ == joined(id_lists(lists@), i as nat),
        decreases lists.len() - i,
    {
        append_ids(&mut ids, &lists[i]);
        i += 1;
    }
    ids
}

/// The positions of `token`, from the left.
pub open spec fn positions(ids: Seq<u32>, token: u32) -> Seq<usize>
    decreases ids.len(),
{
    if ids.len() == 0 {
        Seq::empty()
    } else {
        let before = positions(ids.drop_last(), token);
        if ids.last() == token {
            before.push((ids.len() - 1) as usize)
        } else {
            before
        }
    }
}

/// The positions hold the token and nothing else does.
pub proof fn positions_are_exact(ids: Seq<u32>, token: u32)
    requires
        ids.len() <= usize::MAX,
    ensures
        forall|i: int|
            0 <= i < ids.len() ==> (positions(ids, token).contains(i as usize) <==> #[trigger] ids[i]
                == token),
        forall|k: int|
            0 <= k < positions(ids, token).len() ==> (#[trigger] positions(ids, token)[k]) < ids.len(),
        forall|j: int, k: int|
            0 <= j < k < positions(ids, token).len() ==> (#[trigger] positions(ids, token)[j]) < (
            #[trigger] positions(ids, token)[k]),
    decreases ids.len(),
{
    if ids.len() > 0 {
        let rest = ids.drop_last();
        let before = positions(rest, token);
        let all = positions(ids, token);
        positions_are_exact(rest, token);
        let last = (ids.len() - 1) as usize;
        assert forall|i: int| 0 <= i < ids.len() implies (all.contains(i as usize) <==> #[trigger] ids[i]
            == token) by {
            if i < rest.len() {
                assert(rest[i] == ids[i]);
                if before.contains(i as usize) {
                    let k = choose|k: int| 0 <= k < before.len() && before[k] == i as usize;
                    assert(all[k] == i as usize);
                }
                if all.contains(i as usize) {
                    let k = choose|k: int| 0 <= k < all.len() && all[k] == i as usize;
                    if k < before.len() {
                        assert(before[k] == i as usize);
                    }
                }
            } else {
                if ids[i] == token {
                    assert(all[before.len() as int] == last);
                } else if all.contains(i as usize) {
                    let k = choose|k: int| 0 <= k < all.len() && all[k] == i as usize;
                    assert(before[k] < rest.len());
                }
            }
        }
    }
}

/// Finds the positions of `token`.
pub fn find_positions(ids: &Vec<u32>, token: u32) -> (found: Vec<usize>)
    ensures
        found@ == positions(ids@, token),
{
    let mut found: Vec<usize> = Vec::new();
    let mut i: usize = 0;
    while i < ids.len()
        invariant
            i <= ids.len(),
            found@ == positions(ids@.take(i as int), token),
        decreases ids.len() - i,
    {
        assert(ids@.take(i + 1).drop_last() =~= ids@.take(i as int));
        assert(ids@.take(i + 1).last() == ids@[i as int]);
        if ids[i] == token {
            found.push(i);
        }
        i += 1;
    }
    assert(ids@.take(ids@.len() as int) =~= ids@);
    found
}

/// Whether `ids` holds `token`.
pub fn holds_token(ids: &Vec<u32>, token: u32) -> (yes: bool)
    ensures
        yes == ids@.contains(token),
{
    let mut i: usize = 0;
    while i < ids.len()
        invariant
            i <= ids.len(),
            forall|k: int| 0 <= k < i ==> ids@[k] != token,
        decreases ids.len() - i,
    {
        if ids[i] == token {
            return true;
        }
        i += 1;
    }
    false
}

/// Whether two lists of numbers are the same.
pub fn same_numbers(a: &Vec<usize>, b: &Vec<usize>) -> (yes: bool)
    ensures
        yes == (a@ == b@),
{
    if a.len() != b.len() {
        return false;
    }
    let mut i: usize = 0;
    while i < a.len()
        invariant
            i <= a.len(),
            a.len() == b.len(),
            forall|k: int| 0 <= k < i ==> a@[k] == b@[k],
        decreases a.len() - i,
    {
        if a[i] != b[i] {
            return false;
        }
        i += 1;
    }
    assert(a@ =~= b@);
    true
}

} // verus!
