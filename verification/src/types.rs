//! Requests, typed questions and typed answers.
use crate::score::Float;
use crate::table::{put, Table};
use crate::text::{blank, decimal, decimal_text, is_blank, texts};
use vstd::prelude::*;

verus! {

/// A piece of caller text, held as it is rendered into prompts.
#[derive(Debug)]
pub struct Description {
    pub text: String,
}

impl Description {
    /// A description that renders as `text`.
    pub fn new(text: &str) -> (description: Self)
        ensures
            description.text@ == text@,
    {
        Description { text: text.to_owned() }
    }

    /// The text.
    pub fn render(&self) -> (text: String)
        ensures
            text == self.text,
    {
        self.text.clone()
    }

    /// Whether the text holds nothing but white space.
    pub fn is_blank(&self) -> (yes: bool)
        ensures
            yes == blank(self.text@),
    {
        is_blank(self.text.as_str())
    }

    /// The same description.
    pub fn copy(&self) -> (description: Self)
        ensures
            description == *self,
    {
        Description { text: self.text.clone() }
    }
}

/// What is decided about, held as it is rendered into prompts.
#[derive(Debug)]
pub struct State {
    pub text: String,
}

impl State {
    /// A state that renders as `text`.
    pub fn new(text: &str) -> (state: Self)
        ensures
            state.text@ == text@,
    {
        State { text: text.to_owned() }
    }

    /// The text.
    pub fn render(&self) -> (text: String)
        ensures
            text == self.text,
    {
        self.text.clone()
    }
}

/// The three kinds of question.
#[derive(Clone, Copy, Debug, PartialEq, Eq, Structural)]
pub enum QuestionKind {
    Choice,
    Score,
    Noul,
}

/// One option of a choice, with its description where it has one.
#[derive(Debug)]
pub struct ChoiceOption {
    pub label: String,
    pub description: Option<Description>,
}

/// The options of a choice: labels that speak for themselves, or labels
/// with descriptions.
#[derive(Debug)]
pub enum ChoiceCriteria {
    Labels(Vec<String>),
    Labelled(Vec<ChoiceOption>),
}

impl ChoiceCriteria {
    /// The labels, in order.
    pub open spec fn label_texts(&self) -> Seq<Seq<char>> {
        match self {
            ChoiceCriteria::Labels(labels) => texts(labels@),
            ChoiceCriteria::Labelled(options) => options@.map_values(|o: ChoiceOption| o.label@),
        }
    }

    /// The labels, in order.
    pub fn labels(&self) -> (labels: Vec<String>)
        ensures
            texts(labels@) == self.label_texts(),
    {
        match self {
            ChoiceCriteria::Labels(labels) => crate::text::copy_list(labels),
            ChoiceCriteria::Labelled(options) => {
                let mut labels: Vec<String> = Vec::new();
                let mut i: usize = 0;
                while i < options.len()
                    invariant
                        i <= options.len(),
                        labels.len() == i,
                        forall|k: int| 0 <= k < i ==> (#[trigger] labels@[k])@ == options@[k].label@,
                    decreases options.len() - i,
                {
                    labels.push(options[i].label.clone());
                    i += 1;
                }
                assert(texts(labels@) =~= self.label_texts());
                labels
            },
        }
    }
}

/// Which of these options fits?
#[derive(Debug)]
pub struct ChoiceQuestion {
    pub instructions: Description,
    pub criteria: ChoiceCriteria,
}

/// How much, on a scale whose steps are described from the lowest up?
#[derive(Debug)]
pub struct ScoreQuestion {
    pub instructions: Description,
    pub criteria: Vec<Description>,
}

/// What the two outcomes of a statement mean.
#[derive(Debug)]
pub struct NoulCriteria {
    pub yes: Option<Description>,
    pub no: Option<Description>,
}

/// Is this statement true?
#[derive(Debug)]
pub struct NoulQuestion {
    pub instructions: Description,
    pub criteria: Option<NoulCriteria>,
}

/// A typed question.
#[derive(Debug)]
pub enum Question {
    Choice(ChoiceQuestion),
    Score(ScoreQuestion),
    Noul(NoulQuestion),
}

impl Question {
    /// The question's kind.
    pub open spec fn spec_kind(&self) -> QuestionKind {
        match self {
            Question::Choice(_) => QuestionKind::Choice,
            Question::Score(_) => QuestionKind::Score,
            Question::Noul(_) => QuestionKind::Noul,
        }
    }

    /// The text of the question's instructions.
    pub open spec fn asked(&self) -> Seq<char> {
        match self {
            Question::Choice(q) => q.instructions.text@,
            Question::Score(q) => q.instructions.text@,
            Question::Noul(q) => q.instructions.text@,
        }
    }

    /// The question's kind.
    pub fn kind(&self) -> (kind: QuestionKind)
        ensures
            kind == self.spec_kind(),
    {
        match self {
            Question::Choice(_) => QuestionKind::Choice,
            Question::Score(_) => QuestionKind::Score,
            Question::Noul(_) => QuestionKind::Noul,
        }
    }

    /// The question's instructions.
    pub fn instructions(&self) -> (instructions: &Description)
        ensures
            instructions.text@ == self.asked(),
    {
        match self {
            Question::Choice(q) => &q.instructions,
            Question::Score(q) => &q.instructions,
            Question::Noul(q) => &q.instructions,
        }
    }

    /// The text that stands for each option: its description, or its label
    /// where it has none.
    pub open spec fn option_texts(&self) -> Seq<Seq<char>> {
        match self {
            Question::Choice(q) => match q.criteria {
                ChoiceCriteria::Labels(labels) => texts(labels@),
                ChoiceCriteria::Labelled(options) => options@.map_values(
                    |o: ChoiceOption| described(o.description, o.label@),
                ),
            },
            Question::Score(q) => q.criteria@.map_values(|d: Description| d.text@),
            Question::Noul(q) => match q.criteria {
                Some(c) => seq![described(c.yes, "true"@), described(c.no, "false"@)],
                None => seq!["true"@, "false"@],
            },
        }
    }

    /// The text that stands for each option.
    pub fn render_options(&self) -> (rendered: Vec<String>)
        ensures
            texts(rendered@) == self.option_texts(),
    {
        let mut rendered: Vec<String> = Vec::new();
        match self {
            Question::Choice(q) => match &q.criteria {
                ChoiceCriteria::Labels(labels) => {
                    return crate::text::copy_list(labels);
                },
                ChoiceCriteria::Labelled(options) => {
                    let mut i: usize = 0;
                    while i < options.len()
                        invariant
                            i <= options.len(),
                            rendered.len() == i,
                            forall|k: int|
                                0 <= k < i ==> (#[trigger] rendered@[k])@ == described(
                                    options@[k].description,
                                    options@[k].label@,
                                ),
                        decreases options.len() - i,
                    {
                        let text = describe(&options[i].description, options[i].label.as_str());
                        rendered.push(text);
                        i += 1;
                    }
                },
            },
            Question::Score(q) => {
                let mut i: usize = 0;
                while i < q.criteria.len()
                    invariant
                        i <= q.criteria.len(),
                        rendered.len() == i,
                        forall|k: int|
                            0 <= k < i ==> (#[trigger] rendered@[k])@ == q.criteria@[k].text@,
                    decreases q.criteria.len() - i,
                {
                    rendered.push(q.criteria[i].render());
                    i += 1;
                }
            },
            Question::Noul(q) => match &q.criteria {
                Some(c) => {
                    rendered.push(describe(&c.yes, "true"));
                    rendered.push(describe(&c.no, "false"));
                },
                None => {
                    rendered.push("true".to_owned());
                    rendered.push("false".to_owned());
                },
            },
        }
        assert(texts(rendered@) =~= self.option_texts());
        rendered
    }
}

/// A description's text, or `label` where there is none.
pub open spec fn described(description: Option<Description>, label: Seq<char>) -> Seq<char> {
    match description {
        Some(d) => d.text@,
        None => label,
    }
}

fn describe(description: &Option<Description>, label: &str) -> (text: String)
    ensures
        text@ == described(*description, label@),
{
    match description {
        Some(d) => d.render(),
        None => label.to_owned(),
    }
}

/// A state and the questions asked about it.
pub struct SystemOneRequest {
    pub state: State,
    pub questions: Table<Question>,
    /// The model asked for, where the caller names one.
    pub model: Option<String>,
}

impl SystemOneRequest {
    /// The questions stand under distinct names.
    pub open spec fn wf(&self) -> bool {
        self.questions.wf()
    }

    /// A request without questions.
    pub fn new(state: &str) -> (request: Self)
        ensures
            request.wf(),
            request.state.text@ == state@,
            request.questions@.len() == 0,
            request.model is None,
    {
        SystemOneRequest { state: State::new(state), questions: Table::new(), model: None }
    }

    /// The same request with one more question, or with the question under
    /// an `id` that is already there replaced.
    pub fn question(self, id: &str, question: Question) -> (request: Self)
        requires
            self.wf(),
        ensures
            request.wf(),
            request.state == self.state,
            request.model == self.model,
            request.questions@ == put(self.questions@, id@, question),
    {
        let SystemOneRequest { state, questions, model } = self;
        let mut questions = questions;
        questions.insert(id.to_owned(), question);
        SystemOneRequest { state, questions, model }
    }
}

/// Whether to act on an answer.
#[derive(Clone, Copy, Debug, PartialEq, Eq, Structural)]
pub struct Action {
    pub act_probability: Float,
}

/// The answer to a choice.
pub struct ChoiceAnswer {
    pub choice: String,
    pub probabilities: Table<Float>,
    pub confidence: Float,
    pub action: Option<Action>,
}

/// The answer to a score.
pub struct ScoreAnswer {
    pub score: Float,
    pub legend: Table<Description>,
    pub probabilities: Table<Float>,
    pub confidence: Float,
    pub action: Option<Action>,
}

/// The answer to a statement: the probability that it is true.
pub struct NoulAnswer {
    pub noul: Float,
    pub action: Option<Action>,
}

/// A refusal to answer for want of evidence.
pub struct AbstentionAnswer {
    pub question_type: QuestionKind,
    pub probabilities: Table<Float>,
    pub reason: String,
}

/// A typed answer.
pub enum Answer {
    Choice(ChoiceAnswer),
    Score(ScoreAnswer),
    Noul(NoulAnswer),
    Abstain(AbstentionAnswer),
}

impl Answer {
    /// The chosen label, of a choice.
    pub fn choice(&self) -> (choice: Option<&str>)
        ensures
            match self {
                Answer::Choice(a) => choice is Some && choice->0@ == a.choice@,
                _ => choice is None,
            },
    {
        match self {
            Answer::Choice(a) => Some(a.choice.as_str()),
            _ => None,
        }
    }

    /// The score, of a score.
    pub fn score(&self) -> (score: Option<Float>)
        ensures
            score == match self {
                Answer::Score(a) => Some(a.score),
                _ => None,
            },
    {
        match self {
            Answer::Score(a) => Some(a.score),
            _ => None,
        }
    }

    /// The probability that the statement is true, of a statement.
    pub fn noul(&self) -> (noul: Option<Float>)
        ensures
            noul == match self {
                Answer::Noul(a) => Some(a.noul),
                _ => None,
            },
    {
        match self {
            Answer::Noul(a) => Some(a.noul),
            _ => None,
        }
    }

    /// The confidence, of a choice or a score.
    pub fn confidence(&self) -> (confidence: Option<Float>)
        ensures
            confidence == match self {
                Answer::Choice(a) => Some(a.confidence),
                Answer::Score(a) => Some(a.confidence),
                _ => None,
            },
    {
        match self {
            Answer::Choice(a) => Some(a.confidence),
            Answer::Score(a) => Some(a.confidence),
            _ => None,
        }
    }

    /// The advice to act, where there is one.
    pub fn action(&self) -> (action: Option<Action>)
        ensures
            action == match self {
                Answer::Choice(a) => a.action,
                Answer::Score(a) => a.action,
                Answer::Noul(a) => a.action,
                Answer::Abstain(_) => None,
            },
    {
        match self {
            Answer::Choice(a) => a.action,
            Answer::Score(a) => a.action,
            Answer::Noul(a) => a.action,
            Answer::Abstain(_) => None,
        }
    }

    /// The refusal, where the answer is one.
    pub fn abstention(&self) -> (abstention: Option<&AbstentionAnswer>)
        ensures
            match self {
                Answer::Abstain(a) => abstention == Some(a),
                _ => abstention is None,
            },
    {
        match self {
            Answer::Abstain(a) => Some(a),
            _ => None,
        }
    }
}

/// What a response cost.
pub struct Usage {
    pub input_tokens: usize,
    pub output_tokens: usize,
    /// State tokens left out, under the questions they were left out of.
    pub dropped_state_tokens: Table<usize>,
}

impl Usage {
    /// Nothing used yet.
    pub fn none() -> (usage: Self)
        ensures
            usage.input_tokens == 0,
            usage.output_tokens == 0,
            usage.dropped_state_tokens.wf(),
            usage.dropped_state_tokens@.len() == 0,
    {
        Usage { input_tokens: 0, output_tokens: 0, dropped_state_tokens: Table::new() }
    }
}

/// One answer per question.
pub struct SystemOneResponse {
    pub model: String,
    pub answers: Table<Answer>,
    pub usage: Usage,
}

/// The descriptions of a scale under the numbers of its steps.
pub open spec fn legend_entries(criteria: Seq<Description>) -> Seq<(Seq<char>, Description)> {
    Seq::new(criteria.len(), |i: int| (decimal(i as nat), criteria[i]))
}

/// Writes down what the steps of a scale mean, under their numbers.
pub fn legend(criteria: &Vec<Description>) -> (table: Table<Description>)
    ensures
        table.wf(),
        table@ == legend_entries(criteria@),
{
    let mut table: Table<Description> = Table::new();
    let mut i: usize = 0;
    let ghost whole = legend_entries(criteria@);
    while i < criteria.len()
        invariant
            i <= criteria.len(),
            whole == legend_entries(criteria@),
            table.wf(),
            table@ == whole.take(i as int),
        decreases criteria.len() - i,
    {
        proof {
            assert forall|k: int| 0 <= k < table@.len() implies (#[trigger] table@[k]).0 != decimal(
                i as nat,
            ) by {
                if decimal(k as nat) == decimal(i as nat) {
                    crate::text::decimal_is_injective(k as nat, i as nat);
                }
            }
            assert(!crate::table::has_key(table@, decimal(i as nat)));
        }
        table.insert(decimal_text(i), criteria[i].copy());
        assert(table@ =~= whole.take(i + 1));
        i += 1;
    }
    assert(whole.take(whole.len() as int) =~= whole);
    table
}

/// How many questions the first `n` requests ask.
pub open spec fn asked_before(requests: Seq<SystemOneRequest>, n: nat) -> nat
    decreases n,
{
    if n == 0 {
        0
    } else {
        asked_before(requests, (n - 1) as nat) + requests[n - 1].questions@.len()
    }
}

/// The number of questions grows with the number of requests.
pub proof fn asked_grows(requests: Seq<SystemOneRequest>, m: nat, n: nat)
    requires
        m <= n,
    ensures
        asked_before(requests, m) <= asked_before(requests, n),
    decreases n,
{
    if m < n {
        asked_grows(requests, m, (n - 1) as nat);
    }
}

/// `std::slice::from_ref`: one request as a list.
#[verifier::external_body]
pub(crate) fn only(request: &SystemOneRequest) -> (list: &[SystemOneRequest])
    ensures
        list@ == seq![*request],
{
    std::slice::from_ref(request)
}

} // verus!
