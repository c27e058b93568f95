//! What can go wrong when a decision is asked for.
use vstd::prelude::*;
use vstd::string::StringExecFns;

verus! {

/// Every failure a System One model can report.
#[derive(Debug)]
pub enum SystemOneError {
    /// Hosted transport or protocol failure; never holds secrets or response
    /// bodies.
    Remote(String),
    /// The hosted model answered with this HTTP status.
    HttpStatus(u16),
    /// Tensor or device failure.
    Candle(String),
    /// The tokenizer could not be built or could not encode a string.
    Tokenizer(String),
    /// A checkpoint file did not parse.
    Json(String),
    /// The Hugging Face Hub refused or failed a download.
    Hub(String),
    /// A checkpoint file could not be read.
    Io(String),
    /// The checkpoint does not fit, or a setting on it is out of range.
    Config(String),
    /// A question in the request cannot be evaluated as written.
    Question { id: String, reason: String },
}

/// A failure with its texts as character sequences.
pub enum Failure {
    Remote(Seq<char>),
    HttpStatus(u16),
    Candle(Seq<char>),
    Tokenizer(Seq<char>),
    Json(Seq<char>),
    Hub(Seq<char>),
    Io(Seq<char>),
    Config(Seq<char>),
    Question { id: Seq<char>, reason: Seq<char> },
}

impl View for SystemOneError {
    type V = Failure;

    open spec fn view(&self) -> Failure {
        match self {
            SystemOneError::Remote(m) => Failure::Remote(m@),
            SystemOneError::HttpStatus(s) => Failure::HttpStatus(*s),
            SystemOneError::Candle(m) => Failure::Candle(m@),
            SystemOneError::Tokenizer(m) => Failure::Tokenizer(m@),
            SystemOneError::Json(m) => Failure::Json(m@),
            SystemOneError::Hub(m) => Failure::Hub(m@),
            SystemOneError::Io(m) => Failure::Io(m@),
            SystemOneError::Config(m) => Failure::Config(m@),
            SystemOneError::Question { id, reason } => Failure::Question {
                id: id@,
                reason: reason@,
            },
        }
    }
}

/// The quoted and escaped form in which `Debug` shows a string.
pub uninterp spec fn quoted_text(s: Seq<char>) -> Seq<char>;

/// `format!("{:?}", s)`: the string as its `Debug` form shows it, which
/// depends on the string alone.
#[verifier::external_body]
pub(crate) fn quoted(s: &str) -> (shown: String)
    ensures
        shown@ == quoted_text(s@),
{
    format!("{:?}", s)
}

impl SystemOneError {
    /// The message a user is shown.
    pub fn message(&self) -> (shown: String)
        ensures
            shown@ == match self@ {
                Failure::Remote(m) => "hosted model error: "@ + m,
                Failure::HttpStatus(s) => "hosted model returned HTTP "@ + crate::text::decimal(
                    s as nat,
                ),
                Failure::Candle(m) => "candle error: "@ + m,
                Failure::Tokenizer(m) => "tokenizer error: "@ + m,
                Failure::Json(m) => "json error: "@ + m,
                Failure::Hub(m) => "hugging face hub error: "@ + m,
                Failure::Io(m) => "i/o error: "@ + m,
                Failure::Config(m) => "model configuration error: "@ + m,
                Failure::Question { id, reason } => "question "@ + quoted_text(id) + ": "@ + reason,
            },
    {
        let mut shown = String::new();
        match self {
            SystemOneError::Remote(m) => {
                shown.append("hosted model error: ");
                shown.append(m.as_str());
            },
            SystemOneError::HttpStatus(s) => {
                shown.append("hosted model returned HTTP ");
                shown.append(crate::text::decimal_text(*s as usize).as_str());
            },
            SystemOneError::Candle(m) => {
                shown.append("candle error: ");
                shown.append(m.as_str());
            },
            SystemOneError::Tokenizer(m) => {
                shown.append("tokenizer error: ");
                shown.append(m.as_str());
            },
            SystemOneError::Json(m) => {
                shown.append("json error: ");
                shown.append(m.as_str());
            },
            SystemOneError::Hub(m) => {
                shown.append("hugging face hub error: ");
                shown.append(m.as_str());
            },
            SystemOneError::Io(m) => {
                shown.append("i/o error: ");
                shown.append(m.as_str());
            },
            SystemOneError::Config(m) => {
                shown.append("model configuration error: ");
                shown.append(m.as_str());
            },
            SystemOneError::Question { id, reason } => {
                shown.append("question ");
                shown.append(quoted(id.as_str()).as_str());
                shown.append(": ");
                shown.append(reason.as_str());
            },
        }
        shown
    }
}

/// A configuration error with this message.
pub fn config_error(message: &str) -> (error: SystemOneError)
    ensures
        error@ == Failure::Config(message@),
{
    SystemOneError::Config(message.to_owned())
}

/// An error about the question `id`.
pub fn question_error(id: &str, reason: &str) -> (error: SystemOneError)
    ensures
        error@ == (Failure::Question { id: id@, reason: reason@ }),
{
    SystemOneError::Question { id: id.to_owned(), reason: reason.to_owned() }
}

/// A tensor failure with this message.
pub fn tensor_error(message: &str) -> (error: SystemOneError)
    ensures
        error@ == Failure::Candle(message@),
{
    SystemOneError::Candle(message.to_owned())
}

/// A transport or protocol failure with this message.
pub fn remote_error(message: &str) -> (error: SystemOneError)
    ensures
        error@ == Failure::Remote(message@),
{
    SystemOneError::Remote(message.to_owned())
}

} // verus!
