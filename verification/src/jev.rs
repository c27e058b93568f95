//! Hosted Jev: explicit credentials, model selection and countable calls.
//!
//! The transport is the caller's. A call is a state machine: the caller sends
//! a request, reports what came back, and is told what to do next. Responses
//! are handed on as the provider gave them.
use crate::batching::{chunks, chunks_step};
use crate::error::{config_error, remote_error, Failure, SystemOneError};
use crate::table::{has_key, lookup};
use crate::text::{blank, chars_of, is_blank, same, texts};
use crate::tokens::{
    encode, encode_all, encodes, encodes_all, encoding, encoding_fails, id_lists, join_all, joined,
};
use crate::types::{Answer, Question, SystemOneRequest, SystemOneResponse};
use tokenizers::Tokenizer;
use vstd::arithmetic::div_mod::{
    lemma_add_mod_noop, lemma_fundamental_div_mod, lemma_fundamental_div_mod_converse,
    lemma_small_mod,
};
use vstd::prelude::*;
use vstd::string::StringExecFns;

verus! {

/// Where requests go unless the caller says otherwise.
pub const DEFAULT_ENDPOINT: &'static str = "https://api.typesafe.ai/v1/systemone";

/// How often a request is sent at most.
pub const MAX_ATTEMPTS: u32 = 3;

/// The longest wait, in seconds, that a server may ask for.
pub const MAX_DELAY: u64 = 60;

/// Characters that a header value may hold: the tab, and everything from the
/// space on but the delete character.
pub open spec fn header_char(c: char) -> bool {
    c == '\t' || (c as u32 >= 32 && c as u32 != 127)
}

/// `HeaderValue::from_str`: accepts text whose UTF-8 bytes are all tabs or at
/// least 32 and not 127. Bytes of characters beyond ASCII are at least 128.
#[verifier::external_body]
fn header_accepts(text: &str) -> (yes: bool)
    ensures
        yes == forall|i: int| 0 <= i < text@.len() ==> header_char(#[trigger] text@[i]),
{
    reqwest::header::HeaderValue::from_str(text).is_ok()
}

/// The scheme, the user name and the password of an absolute URL.
pub uninterp spec fn url_parts(text: Seq<char>) -> Option<
    (Seq<char>, Seq<char>, Option<Seq<char>>),
>;

/// The parts of a URL with their values as sequences.
pub open spec fn parts_view(parts: Option<(String, String, Option<String>)>) -> Option<
    (Seq<char>, Seq<char>, Option<Seq<char>>),
> {
    match parts {
        Some(p) => Some(
            (
                p.0@,
                p.1@,
                match p.2 {
                    Some(password) => Some(password@),
                    None => None,
                },
            ),
        ),
        None => None,
    }
}

/// `Url::parse`: the `scheme`, `username` and `password` of the URL, where
/// the text is an absolute URL. They follow from the text alone.
#[verifier::external_body]
fn parse_url(text: &str) -> (parts: Option<(String, String, Option<String>)>)
    ensures
        parts_view(parts) == url_parts(text@),
{
    let url = reqwest::Url::parse(text).ok()?;
    Some((url.scheme().to_owned(), url.username().to_owned(), url.password().map(str::to_owned)))
}

/// The value of decimal digits.
pub open spec fn digits_value(s: Seq<char>) -> nat
    decreases s.len(),
{
    if s.len() == 0 {
        0
    } else {
        digits_value(s.drop_last()) * 10 + (s.last() as u32 - '0' as u32) as nat
    }
}

/// At least one decimal digit and nothing else.
pub open spec fn all_digits(s: Seq<char>) -> bool {
    s.len() > 0 && forall|i: int| 0 <= i < s.len() ==> '0' <= #[trigger] s[i] <= '9'
}

/// A text without a leading plus sign.
pub open spec fn unsigned_part(s: Seq<char>) -> Seq<char> {
    if s.len() > 0 && s[0] == '+' {
        s.skip(1)
    } else {
        s
    }
}

/// The whole number that a text is, where it fits in 64 bits.
pub open spec fn whole_number(s: Seq<char>) -> Option<u64> {
    let digits = unsigned_part(s);
    if all_digits(digits) && digits_value(digits) <= u64::MAX {
        Some(digits_value(digits) as u64)
    } else {
        None
    }
}

/// Longer digit strings have greater values.
proof fn digits_grow(s: Seq<char>, m: int)
    requires
        0 <= m <= s.len(),
    ensures
        digits_value(s.take(m)) <= digits_value(s),
    decreases s.len() - m,
{
    if m < s.len() {
        digits_grow(s, m + 1);
        assert(s.take(m + 1).drop_last() =~= s.take(m));
    } else {
        assert(s.take(m) =~= s);
    }
}

/// Reads a whole number of at most 64 bits.
pub fn parse_whole(s: &str) -> (number: Option<u64>)
    ensures
        number == whole_number(s@),
{
    let chars = chars_of(s);
    let start: usize = if chars.len() > 0 && chars[0] == '+' {
        1
    } else {
        0
    };
    let ghost digits = unsigned_part(s@);
    assert(digits =~= chars@.skip(start as int));
    if start == chars.len() {
        return None;
    }
    let mut value: u64 = 0;
    let mut i: usize = start;
    while i < chars.len()
        invariant
            start <= i <= chars.len(),
            chars@ == s@,
            digits == chars@.skip(start as int),
            digits == unsigned_part(s@),
            value == digits_value(digits.take(i - start)),
            forall|k: int| 0 <= k < i - start ==> '0' <= #[trigger] digits[k] <= '9',
        decreases chars.len() - i,
    {
        let c: char = chars[i];
        assert(digits[i - start] == c);
        if c < '0' || c > '9' {
            return None;
        }
        let digit: u64 = (c as u32 - 48) as u64;
        proof {
            assert(digits.take(i + 1 - start).drop_last() =~= digits.take(i - start));
            assert(digits.take(i + 1 - start).last() == c);
            digits_grow(digits, i + 1 - start);
        }
        if value > (u64::MAX - digit) / 10 {
            return None;
        }
        value = value * 10 + digit;
        i += 1;
    }
    assert(digits.take(digits.len() as int) =~= digits);
    Some(value)
}

/// Cumulative counters.
#[derive(Clone, Copy, Debug, PartialEq, Eq, Structural)]
pub struct JevStats {
    /// Logical requests started (not batches).
    pub calls: usize,
    /// Actual HTTP attempts, including retries and failures.
    pub attempts: usize,
    pub retries: usize,
    pub successes: usize,
    /// Questions in logical requests, counted once regardless of retries.
    pub questions: usize,
}

impl JevStats {
    /// Nothing counted yet.
    pub fn zero() -> (stats: Self)
        ensures
            stats == (JevStats { calls: 0, attempts: 0, retries: 0, successes: 0, questions: 0 }),
    {
        JevStats { calls: 0, attempts: 0, retries: 0, successes: 0, questions: 0 }
    }
}

/// Hosted backend. The caller supplies the key and the model explicitly. Up
/// to three attempts are made for HTTP 429, 503 and 529; authentication,
/// connection and parse failures are not retried.
pub struct JevClient {
    pub key: String,
    pub model: String,
    pub endpoint: String,
    pub concurrency: usize,
    pub context_tokens: usize,
    /// Measures requests; loaded on the first check.
    pub tokenizer: Option<Tokenizer>,
}

/// Why a client cannot be made with this key and model.
pub open spec fn client_failure(key: Seq<char>, model: Seq<char>) -> Option<Failure> {
    if blank(key) || blank(model) {
        Some(Failure::Config("Jev requires a nonempty API key and model"@))
    } else if !(forall|i: int| 0 <= i < key.len() ==> header_char(#[trigger] key[i])) {
        Some(Failure::Config("invalid Jev API key"@))
    } else {
        None
    }
}

/// Why requests cannot be sent to this endpoint.
pub open spec fn endpoint_failure(endpoint: Seq<char>) -> Option<Failure> {
    match url_parts(endpoint) {
        None => Some(Failure::Config("invalid Jev endpoint"@)),
        Some(parts) => if (parts.0 == "http"@ || parts.0 == "https"@) && parts.1.len() == 0
            && parts.2 is None {
            None
        } else {
            Some(Failure::Config("Jev endpoint must be HTTP(S) without embedded credentials"@))
        },
    }
}

/// Accepts the parts of an endpoint's URL.
pub fn check_endpoint(parts: &Option<(String, String, Option<String>)>) -> (result: Result<
    (),
    SystemOneError,
>)
    ensures
        match result {
            Ok(_) => parts_view(*parts) matches Some(p) && (p.0 == "http"@ || p.0 == "https"@)
                && p.1.len() == 0 && p.2 is None,
            Err(e) => match parts_view(*parts) {
                None => e@ == Failure::Config("invalid Jev endpoint"@),
                Some(p) => !((p.0 == "http"@ || p.0 == "https"@) && p.1.len() == 0 && p.2 is None)
                    && e@ == Failure::Config(
                    "Jev endpoint must be HTTP(S) without embedded credentials"@,
                ),
            },
        },
{
    match parts {
        None => Err(config_error("invalid Jev endpoint")),
        Some(p) => {
            let web = same(p.0.as_str(), "http") || same(p.0.as_str(), "https");
            if !web || !p.1.as_str().is_empty() || p.2.is_some() {
                return Err(
                    config_error("Jev endpoint must be HTTP(S) without embedded credentials"),
                );
            }
            Ok(())
        },
    }
}

impl JevClient {
    /// The settings that a client has.
    pub open spec fn wf(&self) -> bool {
        &&& self.concurrency > 0
        &&& self.context_tokens > 0
        &&& self.tokenizer matches Some(t) ==> encodes(t, false)
    }

    /// A client for the default endpoint: sixteen concurrent requests, 8192
    /// tokens per question.
    pub fn new(key: &str, model: &str) -> (result: Result<Self, SystemOneError>)
        ensures
            match result {
                Ok(client) => {
                    &&& client_failure(key@, model@) is None
                    &&& client.wf()
                    &&& client.key@ == key@
                    &&& client.model@ == model@
                    &&& client.endpoint@ == DEFAULT_ENDPOINT@
                    &&& client.concurrency == 16
                    &&& client.context_tokens == 8192
                    &&& client.tokenizer is None
                },
                Err(e) => client_failure(key@, model@) == Some(e@),
            },
    {
        if is_blank(key) || is_blank(model) {
            return Err(config_error("Jev requires a nonempty API key and model"));
        }
        let mut authorization = "Bearer ".to_owned();
        authorization.append(key);
        proof {
            reveal_strlit("Bearer ");
            let whole = authorization@;
            assert(whole =~= "Bearer "@ + key@);
            assert forall|i: int| 0 <= i < 7 implies header_char(#[trigger] whole[i]) by {
                assert(whole[i] == "Bearer "@[i]);
            }
            assert forall|i: int| 0 <= i < key@.len() implies #[trigger] key@[i] == whole[i + 7] by {}
        }
        if !header_accepts(authorization.as_str()) {
            proof {
                let whole = authorization@;
                let i = choose|i: int| 0 <= i < whole.len() && !header_char(#[trigger] whole[i]);
                assert(key@[i - 7] == whole[i]);
            }
            return Err(config_error("invalid Jev API key"));
        }
        Ok(
            JevClient {
                key: key.to_owned(),
                model: model.to_owned(),
                endpoint: DEFAULT_ENDPOINT.to_owned(),
                concurrency: 16,
                context_tokens: 8192,
                tokenizer: None,
            },
        )
    }

    /// The same client with another endpoint: an HTTP or HTTPS URL that holds
    /// no credentials.
    pub fn with_endpoint(self, endpoint: &str) -> (result: Result<Self, SystemOneError>)
        requires
            self.wf(),
        ensures
            match result {
                Ok(client) => {
                    &&& endpoint_failure(endpoint@) is None
                    &&& client.wf()
                    &&& client.endpoint@ == endpoint@
                    &&& client == (JevClient { endpoint: client.endpoint, ..self })
                },
                Err(e) => endpoint_failure(endpoint@) == Some(e@),
            },
    {
        let parts = parse_url(endpoint);
        match check_endpoint(&parts) {
            Ok(_) => Ok(JevClient { endpoint: endpoint.to_owned(), ..self }),
            Err(e) => Err(e),
        }
    }

    /// The same client with another number of concurrent requests.
    pub fn with_concurrency(self, n: usize) -> (result: Result<Self, SystemOneError>)
        requires
            self.wf(),
        ensures
            match result {
                Ok(client) => n > 0 && client.wf() && client == (JevClient {
                    concurrency: n,
                    ..self
                }),
                Err(e) => n == 0 && e@ == Failure::Config("Jev concurrency must be positive"@),
            },
    {
        if n == 0 {
            return Err(config_error("Jev concurrency must be positive"));
        }
        Ok(JevClient { concurrency: n, ..self })
    }

    /// The model that is asked.
    pub fn model_name(&self) -> (name: &str)
        ensures
            name@ == self.model@,
    {
        self.model.as_str()
    }

    /// The same client with another prompt budget, which is not a limit that
    /// the provider documents.
    pub fn with_context_tokens(self, n: usize) -> (result: Result<Self, SystemOneError>)
        requires
            self.wf(),
        ensures
            match result {
                Ok(client) => n > 0 && client.wf() && client == (JevClient {
                    context_tokens: n,
                    ..self
                }),
                Err(e) => n == 0 && e@ == Failure::Config("Jev context tokens must be positive"@),
            },
    {
        if n == 0 {
            return Err(config_error("Jev context tokens must be positive"));
        }
        Ok(JevClient { context_tokens: n, ..self })
    }

    /// The prompt budget.
    pub fn context_tokens(&self) -> (tokens: usize)
        ensures
            tokens == self.context_tokens,
    {
        self.context_tokens
    }

    /// The same client with a tokenizer to measure requests by.
    pub fn with_tokenizer(self, tokenizer: Tokenizer) -> (client: Self)
        requires
            self.wf(),
            encodes(tokenizer, false),
        ensures
            client.wf(),
            client == (JevClient { tokenizer: Some(tokenizer), ..self }),
    {
        JevClient { tokenizer: Some(tokenizer), ..self }
    }
}

/// The texts of a question that count towards its size.
pub open spec fn measured_texts(q: &Question) -> Seq<Seq<char>> {
    seq![q.asked()] + q.option_texts()
}

/// Lists the texts of a question that count towards its size.
fn list_measured(q: &Question) -> (list: Vec<String>)
    ensures
        texts(list@) == measured_texts(q),
{
    let mut list: Vec<String> = Vec::new();
    list.push(q.instructions().render());
    let options = q.render_options();
    let mut i: usize = 0;
    assert(texts(list@) =~= seq![q.asked()] + q.option_texts().take(0));
    while i < options.len()
        invariant
            i <= options.len(),
            texts(options@) == q.option_texts(),
            texts(list@) == seq![q.asked()] + q.option_texts().take(i as int),
        decreases options.len() - i,
    {
        let ghost before = texts(list@);
        list.push(options[i].clone());
        assert(texts(list@) =~= before.push(texts(options@)[i as int]));
        assert(texts(list@) =~= seq![q.asked()] + q.option_texts().take(i + 1));
        i += 1;
    }
    assert(q.option_texts().take(q.option_texts().len() as int) =~= q.option_texts());
    list
}

impl JevClient {
    /// Some encoding of a question has, or has not, at most as many tokens
    /// together with the state as the budget allows.
    pub open spec fn may_measure(
        &self,
        tokenizer: Tokenizer,
        state: Seq<u32>,
        q: &Question,
        fits: bool,
    ) -> bool {
        exists|lists: Seq<Seq<u32>>|
            #[trigger] encodes_all(tokenizer, measured_texts(q), lists) && fits == (state.len()
                + joined(lists, lists.len()).len() <= self.context_tokens)
    }

    /// The first `n` questions may have been measured and found to fit.
    pub open spec fn may_fit_up_to(
        &self,
        tokenizer: Tokenizer,
        state: Seq<u32>,
        request: &SystemOneRequest,
        n: int,
    ) -> bool {
        forall|k: int|
            0 <= k < n ==> self.may_measure(
                tokenizer,
                state,
                #[trigger] &request.questions@[k].1,
                true,
            )
    }

    /// The result says whether every question fits the budget by itself, or
    /// why one could not be measured.
    pub open spec fn measures(
        &self,
        request: &SystemOneRequest,
        result: Result<bool, SystemOneError>,
    ) -> bool {
        let tokenizer = self.tokenizer->0;
        let state = request.state.text@;
        let n = request.questions@.len() as int;
        match result {
            Ok(true) => exists|ids: Seq<u32>|
                #[trigger] encoding(tokenizer, state, false, Ok(ids)) && self.may_fit_up_to(
                    tokenizer,
                    ids,
                    request,
                    n,
                ),
            Ok(false) => exists|ids: Seq<u32>, k: int|
                {
                    &&& #[trigger] encoding(tokenizer, state, false, Ok(ids))
                    &&& 0 <= k < n
                    &&& #[trigger] self.may_fit_up_to(tokenizer, ids, request, k)
                    &&& self.may_measure(tokenizer, ids, &request.questions@[k].1, false)
                },
            Err(e) => {
                ||| exists|message: Seq<char>|
                    #[trigger] encoding(tokenizer, state, false, Err(message)) && e@
                        == Failure::Tokenizer(message)
                ||| exists|ids: Seq<u32>, k: int, message: Seq<char>|
                    {
                        &&& encoding(tokenizer, state, false, Ok(ids))
                        &&& 0 <= k < n
                        &&& #[trigger] self.may_fit_up_to(tokenizer, ids, request, k)
                        &&& #[trigger] encoding_fails(
                            tokenizer,
                            measured_texts(&request.questions@[k].1),
                            message,
                        )
                        &&& e@ == Failure::Tokenizer(message)
                    }
            },
        }
    }

    /// Whether every question fits the budget by itself: its state, its
    /// instructions and its options, measured by a tokenizer that is not the
    /// provider's.
    pub fn request_fits(&self, request: &SystemOneRequest) -> (result: Result<
        bool,
        SystemOneError,
    >)
        requires
            self.wf(),
            self.tokenizer is Some,
            request.wf(),
        ensures
            self.measures(request, result),
    {
        match &self.tokenizer {
            None => Ok(true),
            Some(tokenizer) => {
                let state = match encode(tokenizer, request.state.render().as_str(), false) {
                    Ok(ids) => ids,
                    Err(message) => {
                        assert(encoding(
                            *tokenizer,
                            request.state.text@,
                            false,
                            Err(message@),
                        ));
                        return Err(SystemOneError::Tokenizer(message));
                    },
                };
                let ghost ids = state@;
                assert(encoding(*tokenizer, request.state.text@, false, Ok(ids)));
                let mut k: usize = 0;
                while k < request.questions.len()
                    invariant
                        self.wf(),
                        self.tokenizer == Some(*tokenizer),
                        request.wf(),
                        k <= request.questions@.len(),
                        ids == state@,
                        encoding(*tokenizer, request.state.text@, false, Ok(ids)),
                        self.may_fit_up_to(*tokenizer, ids, request, k as int),
                    decreases request.questions@.len() - k,
                {
                    let q = request.questions.value(k);
                    let list = list_measured(q);
                    match encode_all(tokenizer, &list) {
                        Err(message) => {
                            assert(encoding_fails(*tokenizer, measured_texts(q), message@));
                            return Err(SystemOneError::Tokenizer(message));
                        },
                        Ok(lists) => {
                            assert(encodes_all(*tokenizer, measured_texts(q), id_lists(lists@)));
                            let own: usize = join_all(&lists).len();
                            if state.len() > self.context_tokens || own > self.context_tokens
                                - state.len() {
                                assert(self.may_measure(*tokenizer, ids, q, false));
                                return Ok(false);
                            }
                            assert(self.may_measure(*tokenizer, ids, q, true));
                        },
                    }
                    k += 1;
                }
                Ok(true)
            },
        }
    }
}

/// An answer is of the kind that a question asks for.
pub open spec fn kind_matches(q: &Question, a: &Answer) -> bool {
    match q {
        Question::Choice(_) => a is Choice,
        Question::Score(_) => a is Score,
        Question::Noul(_) => a is Noul,
    }
}

/// A response names its model and answers exactly the questions that were
/// asked, each in kind.
pub open spec fn response_matches(
    request: &SystemOneRequest,
    response: &SystemOneResponse,
) -> bool {
    &&& response.model@.len() > 0
    &&& response.answers@.len() == request.questions@.len()
    &&& forall|k: int|
        0 <= k < request.questions@.len() ==> has_key(
            response.answers@,
            (#[trigger] request.questions@[k]).0,
        ) && kind_matches(
            &request.questions@[k].1,
            &lookup(response.answers@, request.questions@[k].0),
        )
}

/// Whether an answer is of the kind that a question asks for.
fn in_kind(q: &Question, a: &Answer) -> (yes: bool)
    ensures
        yes == kind_matches(q, a),
{
    match (q, a) {
        (Question::Choice(_), Answer::Choice(_)) => true,
        (Question::Score(_), Answer::Score(_)) => true,
        (Question::Noul(_), Answer::Noul(_)) => true,
        _ => false,
    }
}

/// Whether a response answers exactly the questions that were asked.
pub fn check_response(request: &SystemOneRequest, response: &SystemOneResponse) -> (yes: bool)
    requires
        request.wf(),
        response.answers.wf(),
    ensures
        yes == response_matches(request, response),
{
    if response.model.as_str().is_empty() || response.answers.len() != request.questions.len() {
        return false;
    }
    let mut k: usize = 0;
    while k < request.questions.len()
        invariant
            request.wf(),
            response.answers.wf(),
            k <= request.questions@.len(),
            forall|j: int|
                0 <= j < k ==> has_key(
                    response.answers@,
                    (#[trigger] request.questions@[j]).0,
                ) && kind_matches(
                    &request.questions@[j].1,
                    &lookup(response.answers@, request.questions@[j].0),
                ),
        decreases request.questions@.len() - k,
    {
        let good = match response.answers.get(request.questions.key(k)) {
            Some(a) => in_kind(request.questions.value(k), a),
            None => false,
        };
        if !good {
            assert(!(has_key(response.answers@, request.questions@[k as int].0) && kind_matches(
                &request.questions@[k as int].1,
                &lookup(response.answers@, request.questions@[k as int].0),
            )));
            return false;
        }
        k += 1;
    }
    true
}

/// What came back of an attempt.
pub enum JevEvent {
    /// No response: the connection failed or timed out.
    Unreachable,
    /// A response with this status, and its `Retry-After` header where that
    /// is text.
    Status { status: u16, retry_after: Option<String> },
    /// The body of a successful response, where it parsed.
    Body(Option<SystemOneResponse>),
}

/// What to do next.
pub enum JevAction {
    /// Wait this many seconds, then send the request again.
    Wait(u64),
    /// Read the body of the response.
    Read,
    /// The call has succeeded.
    Finish(SystemOneResponse),
    /// The call has failed.
    Fail(SystemOneError),
}

/// Statuses that say "later".
pub open spec fn retryable(status: u16) -> bool {
    status == 429 || status == 503 || status == 529
}

/// How long to wait after attempt `attempt`: as the server says, or twice as
/// long each time.
pub open spec fn delay_after(attempt: nat, retry_after: Option<Seq<char>>) -> u64 {
    let asked = match retry_after {
        Some(text) => whole_number(text),
        None => None,
    };
    match asked {
        Some(seconds) => seconds,
        None => if attempt == 0 {
            1
        } else if attempt == 1 {
            2
        } else {
            4
        },
    }
}

/// The header text as a sequence.
pub open spec fn header_view(text: Option<String>) -> Option<Seq<char>> {
    match text {
        Some(t) => Some(t@),
        None => None,
    }
}

/// The attempt is repeated after a wait.
pub open spec fn repeats(attempt: nat, status: u16, retry_after: Option<Seq<char>>) -> bool {
    retryable(status) && attempt + 1 < MAX_ATTEMPTS && delay_after(attempt, retry_after) <= MAX_DELAY
}

/// A logical request under way.
#[derive(Debug)]
pub struct JevCall {
    /// The model that the request is sent with, whatever model it names.
    pub model: String,
    /// Attempts that were given up for another.
    pub attempt: u32,
}

impl JevCall {
    /// No call is attempted more often than allowed.
    pub open spec fn wf(&self) -> bool {
        self.attempt < MAX_ATTEMPTS
    }

    /// An attempt was counted.
    pub open spec fn counts(before: JevStats, after: JevStats) -> bool {
        after == (JevStats { attempts: before.attempts.wrapping_add(1), ..before })
    }

    /// Counts an attempt, which the caller is about to make.
    pub fn attempt(&self, stats: &mut JevStats)
        ensures
            Self::counts(*old(stats), *final(stats)),
    {
        stats.attempts = stats.attempts.wrapping_add(1);
    }

    /// After `event` came back, `action` is to be taken, the call is `next`,
    /// and the counters went from `before` to `after`.
    pub open spec fn receives(
        self,
        request: &SystemOneRequest,
        event: JevEvent,
        before: JevStats,
        action: JevAction,
        next: JevCall,
        after: JevStats,
    ) -> bool {
        &&& next.wf()
        &&& next.model == self.model
        &&& match event {
            JevEvent::Unreachable => {
                &&& action matches JevAction::Fail(e) && e@ == Failure::Remote(
                    "HTTP connection or timeout failure"@,
                )
                &&& next.attempt == self.attempt
                &&& after == before
            },
            JevEvent::Status { status, retry_after } => {
                let wanted = header_view(retry_after);
                if repeats(self.attempt as nat, status, wanted) {
                    &&& action == JevAction::Wait(delay_after(self.attempt as nat, wanted))
                    &&& next.attempt == self.attempt + 1
                    &&& after == (JevStats { retries: before.retries.wrapping_add(1), ..before })
                } else {
                    &&& next.attempt == self.attempt
                    &&& after == before
                    &&& if 200 <= status < 300 {
                        action is Read
                    } else {
                        action matches JevAction::Fail(e) && e@ == Failure::HttpStatus(status)
                    }
                }
            },
            JevEvent::Body(parsed) => {
                &&& next.attempt == self.attempt
                &&& match parsed {
                    None => {
                        &&& action matches JevAction::Fail(e) && e@ == Failure::Remote(
                            "invalid response JSON"@,
                        )
                        &&& after == before
                    },
                    Some(response) => if response_matches(request, &response) {
                        &&& action == JevAction::Finish(response)
                        &&& after == (JevStats {
                            successes: before.successes.wrapping_add(1),
                            ..before
                        })
                    } else {
                        &&& action matches JevAction::Fail(e) && e@ == Failure::Remote(
                            "response answers do not match request questions"@,
                        )
                        &&& after == before
                    },
                }
            },
        }
    }

    /// Takes in what came back of the attempt, and says what to do next.
    pub fn receive(
        &mut self,
        request: &SystemOneRequest,
        event: JevEvent,
        stats: &mut JevStats,
    ) -> (action: JevAction)
        requires
            old(self).wf(),
            request.wf(),
            event matches JevEvent::Body(Some(response)) ==> response.answers.wf(),
        ensures
            old(self).receives(request, event, *old(stats), action, *final(self), *final(stats)),
    {
        match event {
            JevEvent::Unreachable => JevAction::Fail(
                remote_error("HTTP connection or timeout failure"),
            ),
            JevEvent::Status { status, retry_after } => {
                if (status == 429 || status == 503 || status == 529) && self.attempt + 1
                    < MAX_ATTEMPTS {
                    let asked = match &retry_after {
                        Some(text) => parse_whole(text.as_str()),
                        None => None,
                    };
                    let delay: u64 = match asked {
                        Some(seconds) => seconds,
                        None => if self.attempt == 0 {
                            1
                        } else {
                            2
                        },
                    };
                    if delay > MAX_DELAY {
                        return JevAction::Fail(SystemOneError::HttpStatus(status));
                    }
                    stats.retries = stats.retries.wrapping_add(1);
                    self.attempt = self.attempt + 1;
                    return JevAction::Wait(delay);
                }
                if status < 200 || status >= 300 {
                    return JevAction::Fail(SystemOneError::HttpStatus(status));
                }
                JevAction::Read
            },
            JevEvent::Body(parsed) => match parsed {
                None => JevAction::Fail(remote_error("invalid response JSON")),
                Some(response) => {
                    if !check_response(request, &response) {
                        return JevAction::Fail(
                            remote_error("response answers do not match request questions"),
                        );
                    }
                    stats.successes = stats.successes.wrapping_add(1);
                    JevAction::Finish(response)
                },
            },
        }
    }
}

impl JevClient {
    /// The result is a call about to make its first attempt, and the counters
    /// went up, unless there is nothing to ask.
    pub open spec fn starts(
        &self,
        request: &SystemOneRequest,
        before: JevStats,
        after: JevStats,
        result: Result<JevCall, SystemOneError>,
    ) -> bool {
        match result {
            Ok(call) => {
                &&& request.questions@.len() > 0
                &&& call.wf()
                &&& call.attempt == 0
                &&& call.model@ == self.model@
                &&& after == (JevStats {
                    calls: before.calls.wrapping_add(1),
                    questions: before.questions.wrapping_add(request.questions@.len() as usize),
                    ..before
                })
            },
            Err(e) => {
                &&& request.questions@.len() == 0
                &&& e@ == Failure::Config("Jev requires at least one question"@)
                &&& after == before
            },
        }
    }

    /// Starts a call. The client's model overrides the one that the request
    /// names.
    pub fn system_one(&self, request: &SystemOneRequest, stats: &mut JevStats) -> (result: Result<
        JevCall,
        SystemOneError,
    >)
        ensures
            self.starts(request, *old(stats), *final(stats), result),
    {
        if request.questions.len() == 0 {
            return Err(config_error("Jev requires at least one question"));
        }
        stats.calls = stats.calls.wrapping_add(1);
        stats.questions = stats.questions.wrapping_add(request.questions.len());
        Ok(JevCall { model: self.model.clone(), attempt: 0 })
    }
}

/// Where a call stands.
pub enum Phase {
    /// An attempt is to be made.
    Due(JevCall),
    /// An attempt was made.
    Sent(JevCall),
    /// The body of its response is to be read.
    Reading(JevCall),
    /// The call is over, and has succeeded or not.
    Done(JevCall, bool),
}

impl Phase {
    /// The call.
    pub open spec fn call(self) -> JevCall {
        match self {
            Phase::Due(call) => call,
            Phase::Sent(call) => call,
            Phase::Reading(call) => call,
            Phase::Done(call, _) => call,
        }
    }

    /// How often the request was sent.
    pub open spec fn sent(self) -> nat {
        match self {
            Phase::Due(call) => call.attempt as nat,
            _ => self.call().attempt as nat + 1,
        }
    }

    /// How often it was sent again.
    pub open spec fn resent(self) -> nat {
        self.call().attempt as nat
    }

    /// Whether the call has succeeded.
    pub open spec fn won(self) -> nat {
        if self matches Phase::Done(_, true) {
            1
        } else {
            0
        }
    }
}

/// One value of the counters, with the calls that are counted in it and the
/// number of questions that they asked.
pub struct Books {
    pub stats: JevStats,
    pub calls: Seq<Phase>,
    pub asked: nat,
}

/// What happens to the counters.
pub enum Move {
    /// `system_one` starts a call, or refuses to.
    Start { client: JevClient, request: SystemOneRequest, result: Result<JevCall, SystemOneError> },
    /// Call `k` makes an attempt.
    Attempt { k: int },
    /// Call `k` takes in what came back.
    Receive {
        k: int,
        request: SystemOneRequest,
        event: JevEvent,
        action: JevAction,
        next: JevCall,
    },
}

/// Where a call stands that is to take this action.
pub open spec fn phase_after(action: JevAction, next: JevCall) -> Phase {
    match action {
        JevAction::Wait(_) => Phase::Due(next),
        JevAction::Read => Phase::Reading(next),
        JevAction::Finish(_) => Phase::Done(next, true),
        JevAction::Fail(_) => Phase::Done(next, false),
    }
}

impl Books {
    /// Nothing was counted yet.
    pub open spec fn fresh(self) -> bool {
        &&& self.stats == (JevStats {
            calls: 0,
            attempts: 0,
            retries: 0,
            successes: 0,
            questions: 0,
        })
        &&& self.calls.len() == 0
        &&& self.asked == 0
    }

    /// The move leads from these books to `next`. Calls may take turns.
    pub open spec fn moves(self, m: Move, next: Books) -> bool {
        match m {
            Move::Start { client, request, result } => {
                &&& client.starts(&request, self.stats, next.stats, result)
                &&& match result {
                    Ok(call) => {
                        &&& next.calls == self.calls.push(Phase::Due(call))
                        &&& next.asked == self.asked + request.questions@.len()
                    },
                    Err(_) => next.calls == self.calls && next.asked == self.asked,
                }
            },
            Move::Attempt { k } => {
                &&& 0 <= k < self.calls.len()
                &&& self.calls[k] is Due
                &&& JevCall::counts(self.stats, next.stats)
                &&& next.calls == self.calls.update(k, Phase::Sent(self.calls[k].call()))
                &&& next.asked == self.asked
            },
            Move::Receive { k, request, event, action, next: call } => {
                &&& 0 <= k < self.calls.len()
                &&& if event is Body {
                    self.calls[k] is Reading
                } else {
                    self.calls[k] is Sent
                }
                &&& self.calls[k].call().receives(
                    &request,
                    event,
                    self.stats,
                    action,
                    call,
                    next.stats,
                )
                &&& next.calls == self.calls.update(k, phase_after(action, call))
                &&& next.asked == self.asked
            },
        }
    }

    /// Every call is over.
    pub open spec fn settled(self) -> bool {
        forall|k: int| 0 <= k < self.calls.len() ==> #[trigger] self.calls[k] is Done
    }

    /// The counters say what the calls did.
    pub open spec fn balanced(self) -> bool {
        let n = self.calls.len();
        &&& self.stats.calls == counted(n)
        &&& self.stats.attempts == counted(tally(self.calls, n, |p: Phase| p.sent()))
        &&& self.stats.retries == counted(tally(self.calls, n, |p: Phase| p.resent()))
        &&& self.stats.successes == counted(tally(self.calls, n, |p: Phase| p.won()))
        &&& self.stats.questions == counted(self.asked)
        &&& forall|k: int| 0 <= k < n ==> (#[trigger] self.calls[k]).call().wf()
    }
}

/// What a counter shows after it has counted to `n`: behind the greatest
/// number it starts again.
pub open spec fn counted(n: nat) -> usize {
    (n % (usize::MAX as nat + 1)) as usize
}

/// A counter shows every number that it can.
proof fn small_numbers_are_shown(n: nat)
    requires
        n <= usize::MAX,
    ensures
        counted(n) == n,
{
    lemma_small_mod(n, usize::MAX as nat + 1);
}

/// A counter goes on from what it shows.
proof fn counters_go_on(n: nat, more: usize)
    ensures
        counted(n).wrapping_add(more) == counted((n + more) as nat),
{
    let range = usize::MAX as int + 1;
    let q = n as int / range;
    let x = n as int % range;
    lemma_fundamental_div_mod(n as int, range);
    if x + more < range {
        lemma_fundamental_div_mod_converse(n + more, range, q, x + more);
    } else {
        assert(range * (q + 1) == range * q + range) by (nonlinear_arith);
        assert((q + 1) * range == range * (q + 1)) by (nonlinear_arith);
        lemma_fundamental_div_mod_converse(n + more, range, q + 1, x + more - range);
    }
}

/// A counter that counts on by what another shows comes out where one that
/// counts both does.
proof fn counted_twice(n: nat, m: nat)
    ensures
        counted((n + counted(m)) as nat) == counted(n + m),
{
    lemma_add_mod_noop(n as int, m as int, usize::MAX as int + 1);
    lemma_add_mod_noop(n as int, counted(m) as int, usize::MAX as int + 1);
}

/// What the first `n` calls come to.
pub open spec fn tally(calls: Seq<Phase>, n: nat, count: spec_fn(Phase) -> nat) -> nat
    decreases n,
{
    if n == 0 {
        0
    } else {
        tally(calls, (n - 1) as nat, count) + count(calls[n - 1])
    }
}

proof fn tally_agrees(a: Seq<Phase>, b: Seq<Phase>, n: nat, count: spec_fn(Phase) -> nat)
    requires
        forall|i: int| 0 <= i < n ==> #[trigger] a[i] == b[i],
    ensures
        tally(a, n, count) == tally(b, n, count),
    decreases n,
{
    if n > 0 {
        tally_agrees(a, b, (n - 1) as nat, count);
        assert(a[n - 1] == b[n - 1]);
    }
}

proof fn tally_updates(calls: Seq<Phase>, n: nat, k: int, p: Phase, count: spec_fn(Phase) -> nat)
    requires
        0 <= k < n <= calls.len(),
    ensures
        tally(calls.update(k, p), n, count) == tally(calls, n, count) - count(calls[k]) + count(p),
    decreases n,
{
    let m = (n - 1) as nat;
    if k == m {
        tally_agrees(calls.update(k, p), calls, m, count);
    } else {
        tally_updates(calls, m, k, p, count);
    }
}

proof fn tally_bounds(calls: Seq<Phase>, n: nat, count: spec_fn(Phase) -> nat, most: nat)
    requires
        n <= calls.len(),
        forall|i: int| 0 <= i < n ==> count(#[trigger] calls[i]) <= most,
    ensures
        tally(calls, n, count) <= most * n,
    decreases n,
{
    if n > 0 {
        tally_bounds(calls, (n - 1) as nat, count, most);
        assert(count(calls[n - 1]) <= most);
        assert(most * n == most * (n - 1) + most) by (nonlinear_arith)
            requires
                n > 0,
        ;
    } else {
        assert(most * 0 == 0);
    }
}

proof fn tallies_are_bounded(calls: Seq<Phase>)
    requires
        forall|k: int| 0 <= k < calls.len() ==> (#[trigger] calls[k]).call().wf(),
    ensures
        tally(calls, calls.len(), |p: Phase| p.sent()) <= MAX_ATTEMPTS * calls.len(),
        tally(calls, calls.len(), |p: Phase| p.resent()) <= MAX_ATTEMPTS * calls.len(),
        tally(calls, calls.len(), |p: Phase| p.won()) <= calls.len(),
{
    let sent = |p: Phase| p.sent();
    let resent = |p: Phase| p.resent();
    assert forall|i: int| 0 <= i < calls.len() implies sent(#[trigger] calls[i])
        <= MAX_ATTEMPTS as nat && resent(calls[i]) <= MAX_ATTEMPTS as nat by {
        assert(calls[i].call().wf());
    }
    tally_bounds(calls, calls.len(), sent, MAX_ATTEMPTS as nat);
    tally_bounds(calls, calls.len(), resent, MAX_ATTEMPTS as nat);
    tally_bounds(calls, calls.len(), |p: Phase| p.won(), 1);
}

/// A move keeps the counters right.
pub proof fn moves_keep_the_balance(books: Books, m: Move, next: Books)
    requires
        books.balanced(),
        books.moves(m, next),
    ensures
        next.balanced(),
{
    let n = books.calls.len();
    let sent = |p: Phase| p.sent();
    let resent = |p: Phase| p.resent();
    let won = |p: Phase| p.won();
    match m {
        Move::Start { client, request, result } => {
            if let Ok(call) = result {
                tally_agrees(next.calls, books.calls, n, sent);
                tally_agrees(next.calls, books.calls, n, resent);
                tally_agrees(next.calls, books.calls, n, won);
                assert(next.calls[n as int] == Phase::Due(call));
                counters_go_on(n, 1);
                request.questions.is_countable();
                counters_go_on(books.asked, request.questions@.len() as usize);
            }
        },
        Move::Attempt { k } => {
            let p = Phase::Sent(books.calls[k].call());
            tally_updates(books.calls, n, k, p, sent);
            tally_updates(books.calls, n, k, p, resent);
            tally_updates(books.calls, n, k, p, won);
            assert(books.calls[k].call().wf());
            counters_go_on(tally(books.calls, n, sent), 1);
        },
        Move::Receive { k, request, event, action, next: call } => {
            let p = phase_after(action, call);
            tally_updates(books.calls, n, k, p, sent);
            tally_updates(books.calls, n, k, p, resent);
            tally_updates(books.calls, n, k, p, won);
            counters_go_on(tally(books.calls, n, resent), 1);
            counters_go_on(tally(books.calls, n, won), 1);
        },
    }
}

proof fn histories_balance(history: Seq<Books>, made: Seq<Move>, n: int)
    requires
        0 <= n < history.len(),
        made.len() == history.len() - 1,
        history[0].fresh(),
        forall|i: int|
            0 <= i < made.len() ==> history[i].moves(#[trigger] made[i], history[i + 1]),
    ensures
        history[n].balanced(),
    decreases n,
{
    if n > 0 {
        assert(history[n - 1].moves(made[n - 1], history[n]));
        histories_balance(history, made, n - 1);
        moves_keep_the_balance(history[n - 1], made[n - 1], history[n]);
    }
}

proof fn settled_calls_were_sent(calls: Seq<Phase>, n: nat)
    requires
        n <= calls.len(),
        forall|k: int| 0 <= k < calls.len() ==> #[trigger] calls[k] is Done,
    ensures
        tally(calls, n, |p: Phase| p.sent()) == tally(calls, n, |p: Phase| p.resent()) + n,
    decreases n,
{
    if n > 0 {
        settled_calls_were_sent(calls, (n - 1) as nat);
        assert(calls[n - 1] is Done);
    }
}

/// The counters add up once all calls are over, whichever way they took
/// turns: there is one attempt for every call and one more for every retry,
/// no call makes more than three and none succeeds twice, and every call's
/// questions are counted once. As long as no counter has started again, they
/// show the numbers themselves.
pub proof fn counters_add_up(history: Seq<Books>, made: Seq<Move>)
    requires
        history.len() == made.len() + 1,
        history[0].fresh(),
        forall|i: int|
            0 <= i < made.len() ==> history[i].moves(#[trigger] made[i], history[i + 1]),
        history.last().settled(),
    ensures
        ({
            let books = history.last();
            let stats = books.stats;
            let n = books.calls.len();
            let wins = tally(books.calls, n, |p: Phase| p.won());
            &&& stats.calls == counted(n)
            &&& stats.attempts == stats.calls.wrapping_add(stats.retries)
            &&& stats.successes == counted(wins)
            &&& wins <= n
            &&& stats.questions == counted(books.asked)
            &&& forall|k: int|
                0 <= k < n ==> 1 <= (#[trigger] books.calls[k]).sent() <= MAX_ATTEMPTS
                    && books.calls[k].resent() == books.calls[k].sent() - 1
            &&& MAX_ATTEMPTS * n <= usize::MAX ==> {
                &&& stats.calls == n
                &&& stats.attempts == stats.calls + stats.retries
                &&& stats.calls <= stats.attempts <= MAX_ATTEMPTS * stats.calls
                &&& stats.successes <= stats.calls
            }
            &&& books.asked <= usize::MAX ==> stats.questions == books.asked
        }),
{
    let books = history.last();
    histories_balance(history, made, made.len() as int);
    tallies_are_bounded(books.calls);
    settled_calls_were_sent(books.calls, books.calls.len());
    let again = tally(books.calls, books.calls.len(), |p: Phase| p.resent());
    counters_go_on(books.calls.len(), counted(again));
    counted_twice(books.calls.len(), again);
    if MAX_ATTEMPTS * books.calls.len() <= usize::MAX {
        small_numbers_are_shown(books.calls.len());
        small_numbers_are_shown(again);
        small_numbers_are_shown(books.calls.len() + again);
        small_numbers_are_shown(tally(books.calls, books.calls.len(), |p: Phase| p.won()));
    }
    if books.asked <= usize::MAX {
        small_numbers_are_shown(books.asked);
    }
    assert forall|k: int| 0 <= k < books.calls.len() implies 1 <= (#[trigger]
    books.calls[k]).sent() <= MAX_ATTEMPTS && books.calls[k].resent() == books.calls[k].sent()
        - 1 by {
        assert(books.calls[k].call().wf());
        assert(books.calls[k] is Done);
    }
}

/// A failed connection, and a status that does not say "later", is never
/// retried.
pub proof fn other_statuses_are_final(
    call: JevCall,
    request: &SystemOneRequest,
    event: JevEvent,
    before: JevStats,
    action: JevAction,
    next: JevCall,
    after: JevStats,
)
    requires
        call.receives(request, event, before, action, next, after),
        match event {
            JevEvent::Status { status, retry_after } => !retryable(status),
            _ => true,
        },
    ensures
        !(action is Wait),
        next.attempt == call.attempt,
        after.retries == before.retries,
{
}

/// The bounds of the batches of requests `from` to `n`.
pub open spec fn batch_bounds(from: nat, n: nat, size: nat) -> Seq<(usize, usize)>
    decreases n - from,
{
    if from >= n || size == 0 {
        Seq::empty()
    } else {
        let to = if n - from <= size {
            n
        } else {
            from + size
        };
        seq![(from as usize, to as usize)] + batch_bounds(to, n, size)
    }
}

/// The batches are the pieces of the requests, in order.
pub proof fn batches_are_chunks<T>(items: Seq<T>, from: nat, size: nat)
    requires
        size > 0,
        from <= items.len() <= usize::MAX,
    ensures
        ({
            let bounds = batch_bounds(from, items.len(), size);
            let parts = chunks(items.skip(from as int), size);
            &&& bounds.len() == parts.len()
            &&& forall|k: int|
                0 <= k < bounds.len() ==> 0 <= (#[trigger] bounds[k]).0 <= bounds[k].1 <= items.len()
                    && parts[k] == items.subrange(bounds[k].0 as int, bounds[k].1 as int)
        }),
    decreases items.len() - from,
{
    let n = items.len();
    let rest = items.skip(from as int);
    if from < n {
        let to = if n - from <= size {
            n
        } else {
            from + size
        };
        chunks_step(rest, size);
        batches_are_chunks(items, to, size);
        assert(rest.take(to - from) =~= items.subrange(from as int, to as int));
        assert(rest.skip(to - from) =~= items.skip(to as int));
        let bounds = batch_bounds(from, n, size);
        let tail = batch_bounds(to, n, size);
        let parts = chunks(rest, size);
        assert forall|k: int| 0 <= k < bounds.len() implies 0 <= (#[trigger] bounds[k]).0
            <= bounds[k].1 <= n && parts[k] == items.subrange(
            bounds[k].0 as int,
            bounds[k].1 as int,
        ) by {
            if k > 0 {
                assert(bounds[k] == tail[k - 1]);
                assert(parts[k] == chunks(items.skip(to as int), size)[k - 1]);
            }
        }
    }
}

/// The outcomes of a batch's calls as they enter the output: all responses,
/// or the first failure. A call without an outcome is one whose worker died.
pub open spec fn batch_failure(outcomes: Seq<Option<Result<SystemOneResponse, SystemOneError>>>) -> Option<
    Failure,
>
    decreases outcomes.len(),
{
    if outcomes.len() == 0 {
        None
    } else {
        let before = batch_failure(outcomes.drop_last());
        if before is Some {
            before
        } else {
            match outcomes.last() {
                None => Some(Failure::Remote("HTTP worker panicked"@)),
                Some(Err(e)) => Some(e@),
                Some(Ok(_)) => None,
            }
        }
    }
}

/// A failure among the first outcomes is the batch's failure.
proof fn batch_failure_stays(
    outcomes: Seq<Option<Result<SystemOneResponse, SystemOneError>>>,
    m: int,
)
    requires
        0 <= m <= outcomes.len(),
        batch_failure(outcomes.take(m)) is Some,
    ensures
        batch_failure(outcomes) == batch_failure(outcomes.take(m)),
    decreases outcomes.len() - m,
{
    if m < outcomes.len() {
        assert(outcomes.take(m + 1).drop_last() =~= outcomes.take(m));
        batch_failure_stays(outcomes, m + 1);
    } else {
        assert(outcomes.take(m) =~= outcomes);
    }
}

impl JevClient {
    /// The batches of `n` requests, each as its first request and the one
    /// behind its last: as many requests at a time as may be concurrent.
    pub fn batches(&self, n: usize) -> (bounds: Vec<(usize, usize)>)
        requires
            self.wf(),
        ensures
            bounds@ == batch_bounds(0, n as nat, self.concurrency as nat),
    {
        let mut bounds: Vec<(usize, usize)> = Vec::new();
        let mut from: usize = 0;
        let ghost all = batch_bounds(0, n as nat, self.concurrency as nat);
        assert(bounds@ + all =~= all);
        while from < n
            invariant
                self.wf(),
                from <= n,
                all == batch_bounds(0, n as nat, self.concurrency as nat),
                bounds@ + batch_bounds(from as nat, n as nat, self.concurrency as nat) == all,
            decreases n - from,
        {
            let to: usize = if n - from <= self.concurrency {
                n
            } else {
                from + self.concurrency
            };
            let ghost before = bounds@;
            let ghost rest = batch_bounds(to as nat, n as nat, self.concurrency as nat);
            bounds.push((from, to));
            assert(before + (seq![(from, to)] + rest) =~= bounds@ + rest);
            from = to;
        }
        assert(bounds@ + Seq::<(usize, usize)>::empty() =~= bounds@);
        bounds
    }

    /// Adds the responses of a batch to the output, in the order of its
    /// requests, or reports the first failure among them.
    pub fn gather(
        output: &mut Vec<SystemOneResponse>,
        outcomes: Vec<Option<Result<SystemOneResponse, SystemOneError>>>,
    ) -> (result: Result<(), SystemOneError>)
        ensures
            match result {
                Ok(_) => {
                    &&& batch_failure(outcomes@) is None
                    &&& final(output)@.len() == old(output)@.len() + outcomes@.len()
                    &&& final(output)@.take(old(output)@.len() as int) == old(output)@
                    &&& forall|i: int|
                        0 <= i < outcomes@.len() ==> #[trigger] outcomes@[i] == Some(
                            Ok::<SystemOneResponse, SystemOneError>(
                                final(output)@[old(output)@.len() + i],
                            ),
                        )
                },
                Err(e) => batch_failure(outcomes@) == Some(e@),
            },
    {
        let ghost all = outcomes@;
        let ghost before = output@;
        let mut rest = outcomes;
        let ghost mut i: int = 0;
        assert(output@.take(before.len() as int) =~= before);
        while rest.len() > 0
            invariant
                all == outcomes@,
                0 <= i,
                i + rest.len() == all.len(),
                rest@ == all.skip(i),
                batch_failure(all.take(i)) is None,
                output@.len() == before.len() + i,
                output@.take(before.len() as int) == before,
                forall|k: int|
                    0 <= k < i ==> #[trigger] all[k] == Some(
                        Ok::<SystemOneResponse, SystemOneError>(output@[before.len() + k]),
                    ),
            decreases rest.len(),
        {
            let ghost now = output@;
            let outcome = rest.remove(0);
            proof {
                assert(outcome == all[i]);
                assert(rest@ =~= all.skip(i + 1));
                assert(all.take(i + 1).drop_last() =~= all.take(i));
                assert(all.take(i + 1).last() == all[i]);
            }
            match outcome {
                None => {
                    proof {
                        batch_failure_stays(all, i + 1);
                    }
                    return Err(remote_error("HTTP worker panicked"));
                },
                Some(Err(e)) => {
                    proof {
                        batch_failure_stays(all, i + 1);
                    }
                    return Err(e);
                },
                Some(Ok(response)) => {
                    output.push(response);
                    assert(output@.take(before.len() as int) =~= before);
                },
            }
            proof {
                i = i + 1;
            }
        }
        assert(all.take(all.len() as int) =~= all);
        Ok(())
    }
}

} // verus!
