//! Questions as classification tasks.
use crate::error::{question_error, Failure, SystemOneError};
use crate::table::{distinct_keys, has_key, place, put, Table};
use crate::text::{all_distinct, blank, contains, decimal, decimal_text, has_text, texts};
use crate::types::{ChoiceCriteria, ChoiceOption, Description, Question};
use vstd::prelude::*;
use vstd::string::StringExecFns;

verus! {

pub const SEP_STRUCT: &'static str = "[SEP_STRUCT]";

pub const SEP_TEXT: &'static str = "[SEP_TEXT]";

pub const PROMPT: &'static str = "[P]";

pub const LABEL: &'static str = "[L]";

pub const DESCRIPTION: &'static str = "[DESCRIPTION]";

pub const YES: &'static str = "yes";

pub const NO: &'static str = "no";

/// Every marker of the schema; none may stand in caller text.
pub open spec fn reserved_markers() -> Seq<Seq<char>> {
    seq![
        SEP_STRUCT@,
        SEP_TEXT@,
        PROMPT@,
        "[C]"@,
        "[E]"@,
        "[R]"@,
        LABEL@,
        "[EXAMPLE]"@,
        "[OUTPUT]"@,
        DESCRIPTION@,
    ]
}

/// Lists the markers of the schema.
pub fn reserved_list() -> (markers: Vec<&'static str>)
    ensures
        markers@.map_values(|m: &'static str| m@) == reserved_markers(),
{
    let markers: Vec<&'static str> = vec![
        SEP_STRUCT,
        SEP_TEXT,
        PROMPT,
        "[C]",
        "[E]",
        "[R]",
        LABEL,
        "[EXAMPLE]",
        "[OUTPUT]",
        DESCRIPTION,
    ];
    assert(markers@.map_values(|m: &'static str| m@) =~= reserved_markers());
    markers
}

/// A marker of the schema stands in the text.
pub open spec fn has_marker(s: Seq<char>) -> bool {
    exists|i: int| 0 <= i < reserved_markers().len() && contains(s, #[trigger] reserved_markers()[i])
}

/// Whether a marker of the schema stands in the text.
pub fn reserved(s: &str) -> (yes: bool)
    ensures
        yes == has_marker(s@),
{
    let markers = reserved_list();
    let ghost listed = markers@.map_values(|m: &'static str| m@);
    let mut i: usize = 0;
    while i < markers.len()
        invariant
            i <= markers.len(),
            listed == markers@.map_values(|m: &'static str| m@),
            listed == reserved_markers(),
            forall|k: int| 0 <= k < i ==> !contains(s@, #[trigger] reserved_markers()[k]),
        decreases markers.len() - i,
    {
        assert(reserved_markers()[i as int] == markers@[i as int]@);
        if has_text(s, markers[i]) {
            return true;
        }
        i += 1;
    }
    false
}

/// Text with closing punctuation.
pub open spec fn normalized(s: Seq<char>) -> Seq<char> {
    if s.len() == 0 {
        "."@
    } else if s.last() == '.' || s.last() == '!' || s.last() == '?' {
        s
    } else {
        s + "."@
    }
}

/// Gives text closing punctuation where it has none.
pub fn normalize(text: &str) -> (closed: String)
    ensures
        closed@ == normalized(text@),
{
    if text.is_empty() {
        return ".".to_owned();
    }
    let chars = crate::text::chars_of(text);
    let last: char = chars[chars.len() - 1];
    if last == '.' || last == '!' || last == '?' {
        text.to_owned()
    } else {
        let mut closed = text.to_owned();
        closed.append(".");
        closed
    }
}

/// The text of a description that says something.
pub open spec fn said(d: &Description) -> Option<Seq<char>> {
    if blank(d.text@) {
        None
    } else {
        Some(d.text@)
    }
}

/// The text of an optional description that says something.
pub open spec fn said_if_any(d: Option<Description>) -> Option<Seq<char>> {
    match d {
        Some(d) => said(&d),
        None => None,
    }
}

/// An optional text as a sequence.
pub open spec fn text_view(t: Option<String>) -> Option<Seq<char>> {
    match t {
        Some(t) => Some(t@),
        None => None,
    }
}

/// The text of a description, where it says something.
pub fn text(d: &Description) -> (said_text: Option<String>)
    ensures
        text_view(said_text) == said(d),
{
    if d.is_blank() {
        None
    } else {
        Some(d.render())
    }
}

fn text_if_any(d: &Option<Description>) -> (said_text: Option<String>)
    ensures
        text_view(said_text) == said_if_any(*d),
{
    match d {
        Some(d) => text(d),
        None => None,
    }
}

/// One classification task.
pub struct GlinerTask {
    /// The question's name.
    pub name: String,
    /// The question's instructions, which follow the name.
    pub prompt: Option<String>,
    /// The labels, in the order they are scored.
    pub labels: Vec<String>,
    /// Descriptions for the labels that have one.
    pub descriptions: Table<String>,
}

/// A task with its values as sequences.
pub struct TaskView {
    pub name: Seq<char>,
    pub prompt: Option<Seq<char>>,
    pub labels: Seq<Seq<char>>,
    pub descriptions: Seq<(Seq<char>, Seq<char>)>,
}

/// Entries with their values as sequences.
pub open spec fn entry_texts(entries: Seq<(Seq<char>, String)>) -> Seq<(Seq<char>, Seq<char>)> {
    entries.map_values(|e: (Seq<char>, String)| (e.0, e.1@))
}

impl View for GlinerTask {
    type V = TaskView;

    open spec fn view(&self) -> TaskView {
        TaskView {
            name: self.name@,
            prompt: text_view(self.prompt),
            labels: texts(self.labels@),
            descriptions: entry_texts(self.descriptions@),
        }
    }
}

/// Putting a text under a key, seen through the texts.
proof fn put_texts(entries: Seq<(Seq<char>, String)>, key: Seq<char>, value: String)
    requires
        distinct_keys(entries),
    ensures
        entry_texts(put(entries, key, value)) == put(entry_texts(entries), key, value@),
{
    let seen = entry_texts(entries);
    if has_key(entries, key) {
        let p = place(entries, key);
        assert(seen[p].0 == key);
        let s = place(seen, key);
        assert(seen[s].0 == key);
        assert(entries[s].0 == key);
        assert(s == p);
    } else {
        assert forall|i: int| 0 <= i < seen.len() implies (#[trigger] seen[i]).0 != key by {
            assert(entries[i].0 != key);
        }
    }
    assert(entry_texts(put(entries, key, value)) =~= put(seen, key, value@));
}

/// The entry for a label is put in where its description says something.
pub open spec fn with_description(
    entries: Seq<(Seq<char>, Seq<char>)>,
    label: Seq<char>,
    d: Option<Description>,
) -> Seq<(Seq<char>, Seq<char>)> {
    match said_if_any(d) {
        Some(text) => put(entries, label, text),
        None => entries,
    }
}

/// The descriptions of the first `n` options of a choice.
pub open spec fn option_descriptions(options: Seq<ChoiceOption>, n: nat) -> Seq<
    (Seq<char>, Seq<char>),
>
    decreases n,
{
    if n == 0 {
        Seq::empty()
    } else {
        with_description(
            option_descriptions(options, (n - 1) as nat),
            options[n - 1].label@,
            options[n - 1].description,
        )
    }
}

/// The descriptions of the first `n` steps of a scale.
pub open spec fn step_descriptions(criteria: Seq<Description>, n: nat) -> Seq<
    (Seq<char>, Seq<char>),
>
    decreases n,
{
    if n == 0 {
        Seq::empty()
    } else {
        with_description(
            step_descriptions(criteria, (n - 1) as nat),
            decimal((n - 1) as nat),
            Some(criteria[n - 1]),
        )
    }
}

/// The descriptions of a question's labels.
pub open spec fn label_descriptions(q: &Question) -> Seq<(Seq<char>, Seq<char>)> {
    match q {
        Question::Choice(c) => match c.criteria {
            ChoiceCriteria::Labels(_) => Seq::empty(),
            ChoiceCriteria::Labelled(options) => option_descriptions(options@, options@.len()),
        },
        Question::Score(s) => step_descriptions(s.criteria@, s.criteria@.len()),
        Question::Noul(n) => match n.criteria {
            Some(c) => with_description(
                with_description(Seq::empty(), YES@, c.yes),
                NO@,
                c.no,
            ),
            None => Seq::empty(),
        },
    }
}

/// The labels of a question.
pub open spec fn label_names(q: &Question) -> Seq<Seq<char>> {
    match q {
        Question::Choice(c) => c.criteria.label_texts(),
        Question::Score(s) => Seq::new(s.criteria@.len(), |i: int| decimal(i as nat)),
        Question::Noul(_) => seq![YES@, NO@],
    }
}

/// What a question is asked by: its instructions, where they say something.
pub open spec fn spoken(q: &Question) -> Option<Seq<char>> {
    if blank(q.asked()) {
        None
    } else {
        Some(q.asked())
    }
}

/// A marker of the schema stands in one of the texts.
pub open spec fn any_marker(list: Seq<Seq<char>>) -> bool {
    exists|i: int| 0 <= i < list.len() && has_marker(#[trigger] list[i])
}

/// A marker of the schema stands in one of the descriptions.
pub open spec fn any_described_marker(entries: Seq<(Seq<char>, Seq<char>)>) -> bool {
    exists|i: int| 0 <= i < entries.len() && has_marker((#[trigger] entries[i]).1)
}

/// One of the texts is empty.
pub open spec fn any_empty(list: Seq<Seq<char>>) -> bool {
    exists|i: int| 0 <= i < list.len() && (#[trigger] list[i]).len() == 0
}

/// The task for a question, or why the question cannot be asked.
pub open spec fn task_of(id: Seq<char>, q: &Question) -> Result<TaskView, Failure> {
    let labels = label_names(q);
    let descriptions = label_descriptions(q);
    let prompt = spoken(q);
    if labels.len() < 2 {
        Err(Failure::Question { id, reason: "needs at least two labels"@ })
    } else if any_empty(labels) || !labels.no_duplicates() {
        Err(Failure::Question { id, reason: "labels must be distinct and non-empty"@ })
    } else if has_marker(id) || (prompt matches Some(p) && has_marker(p)) || any_marker(labels)
        || any_described_marker(descriptions) {
        Err(Failure::Question { id, reason: "contains a reserved GLiNER2 marker"@ })
    } else {
        Ok(TaskView { name: id, prompt, labels, descriptions })
    }
}

/// The result of making a task, with its values as sequences.
pub open spec fn task_outcome(result: Result<GlinerTask, SystemOneError>) -> Result<
    TaskView,
    Failure,
> {
    match result {
        Ok(task) => Ok(task@),
        Err(error) => Err(error@),
    }
}

/// Puts a description that says something under a label.
fn describe(descriptions: &mut Table<String>, label: &str, d: &Option<Description>)
    requires
        old(descriptions).wf(),
    ensures
        final(descriptions).wf(),
        entry_texts(final(descriptions)@) == with_description(
            entry_texts(old(descriptions)@),
            label@,
            *d,
        ),
{
    match text_if_any(d) {
        Some(t) => {
            proof {
                descriptions.keys_are_distinct();
                put_texts(descriptions@, label@, t);
            }
            descriptions.insert(label.to_owned(), t);
        },
        None => {},
    }
}

/// Puts a description that says something under a number.
fn describe_step(descriptions: &mut Table<String>, step: usize, d: &Description)
    requires
        old(descriptions).wf(),
    ensures
        final(descriptions).wf(),
        entry_texts(final(descriptions)@) == with_description(
            entry_texts(old(descriptions)@),
            decimal(step as nat),
            Some(*d),
        ),
{
    match text(d) {
        Some(t) => {
            let label = decimal_text(step);
            proof {
                descriptions.keys_are_distinct();
                put_texts(descriptions@, label@, t);
            }
            descriptions.insert(label, t);
        },
        None => {},
    }
}

/// Collects the descriptions of a question's labels.
fn describe_labels(q: &Question) -> (descriptions: Table<String>)
    ensures
        descriptions.wf(),
        entry_texts(descriptions@) == label_descriptions(q),
{
    let mut descriptions: Table<String> = Table::new();
    assert(entry_texts(descriptions@) =~= Seq::empty());
    match q {
        Question::Choice(c) => match &c.criteria {
            ChoiceCriteria::Labels(_) => {},
            ChoiceCriteria::Labelled(options) => {
                let mut i: usize = 0;
                while i < options.len()
                    invariant
                        i <= options.len(),
                        descriptions.wf(),
                        entry_texts(descriptions@) == option_descriptions(options@, i as nat),
                    decreases options.len() - i,
                {
                    describe(
                        &mut descriptions,
                        options[i].label.as_str(),
                        &options[i].description,
                    );
                    i += 1;
                }
            },
        },
        Question::Score(s) => {
            let mut i: usize = 0;
            while i < s.criteria.len()
                invariant
                    i <= s.criteria.len(),
                    descriptions.wf(),
                    entry_texts(descriptions@) == step_descriptions(s.criteria@, i as nat),
                decreases s.criteria.len() - i,
            {
                describe_step(&mut descriptions, i, &s.criteria[i]);
                i += 1;
            }
        },
        Question::Noul(n) => match &n.criteria {
            Some(c) => {
                describe(&mut descriptions, YES, &c.yes);
                describe(&mut descriptions, NO, &c.no);
            },
            None => {},
        },
    }
    descriptions
}

/// Lists the labels of a question.
fn list_labels(q: &Question) -> (labels: Vec<String>)
    ensures
        texts(labels@) == label_names(q),
{
    match q {
        Question::Choice(c) => c.criteria.labels(),
        Question::Score(s) => {
            let mut labels: Vec<String> = Vec::new();
            let mut i: usize = 0;
            while i < s.criteria.len()
                invariant
                    i <= s.criteria.len(),
                    labels.len() == i,
                    forall|k: int| 0 <= k < i ==> (#[trigger] labels@[k])@ == decimal(k as nat),
                decreases s.criteria.len() - i,
            {
                labels.push(decimal_text(i));
                i += 1;
            }
            assert(texts(labels@) =~= label_names(q));
            labels
        },
        Question::Noul(_) => {
            let mut labels: Vec<String> = Vec::new();
            labels.push(YES.to_owned());
            labels.push(NO.to_owned());
            assert(texts(labels@) =~= label_names(q));
            labels
        },
    }
}

/// Whether a marker of the schema stands in one of the texts.
fn list_has_marker(list: &Vec<String>) -> (yes: bool)
    ensures
        yes == any_marker(texts(list@)),
{
    let mut i: usize = 0;
    while i < list.len()
        invariant
            i <= list.len(),
            forall|k: int| 0 <= k < i ==> !has_marker(#[trigger] texts(list@)[k]),
        decreases list.len() - i,
    {
        if reserved(list[i].as_str()) {
            assert(has_marker(texts(list@)[i as int]));
            return true;
        }
        i += 1;
    }
    false
}

/// Whether a marker of the schema stands in one of the descriptions.
fn table_has_marker(table: &Table<String>) -> (yes: bool)
    requires
        table.wf(),
    ensures
        yes == any_described_marker(entry_texts(table@)),
{
    let mut i: usize = 0;
    while i < table.len()
        invariant
            table.wf(),
            i <= table@.len(),
            forall|k: int| 0 <= k < i ==> !has_marker((#[trigger] entry_texts(table@)[k]).1),
        decreases table@.len() - i,
    {
        if reserved(table.value(i).as_str()) {
            assert(has_marker(entry_texts(table@)[i as int].1));
            return true;
        }
        i += 1;
    }
    false
}

/// Whether one of the texts is empty.
fn list_has_empty(list: &Vec<String>) -> (yes: bool)
    ensures
        yes == any_empty(texts(list@)),
{
    let mut i: usize = 0;
    while i < list.len()
        invariant
            i <= list.len(),
            forall|k: int| 0 <= k < i ==> (#[trigger] texts(list@)[k]).len() > 0,
        decreases list.len() - i,
    {
        if list[i].as_str().is_empty() {
            assert(texts(list@)[i as int].len() == 0);
            return true;
        }
        i += 1;
    }
    false
}

/// Makes the task for a question.
pub fn task(id: &str, q: &Question) -> (result: Result<GlinerTask, SystemOneError>)
    ensures
        task_outcome(result) == task_of(id@, q),
        result matches Ok(made) ==> made.descriptions.wf(),
{
    let descriptions = describe_labels(q);
    let labels = list_labels(q);
    if labels.len() < 2 {
        return Err(question_error(id, "needs at least two labels"));
    }
    if list_has_empty(&labels) || !all_distinct(&labels) {
        return Err(question_error(id, "labels must be distinct and non-empty"));
    }
    let prompt = text(q.instructions());
    let marked_prompt = match &prompt {
        Some(p) => reserved(p.as_str()),
        None => false,
    };
    if reserved(id) || marked_prompt || list_has_marker(&labels) || table_has_marker(&descriptions) {
        return Err(question_error(id, "contains a reserved GLiNER2 marker"));
    }
    Ok(GlinerTask { name: id.to_owned(), prompt, labels, descriptions })
}

/// The descriptions as they follow the prompt.
pub open spec fn described_text(entries: Seq<(Seq<char>, Seq<char>)>) -> Seq<char>
    decreases entries.len(),
{
    if entries.len() == 0 {
        Seq::empty()
    } else {
        described_text(entries.drop_last()) + " "@ + DESCRIPTION@ + " "@ + entries.last().0 + ": "@
            + entries.last().1
    }
}

/// Each label behind its marker.
pub open spec fn label_tokens(labels: Seq<Seq<char>>) -> Seq<Seq<char>>
    decreases labels.len(),
{
    if labels.len() == 0 {
        Seq::empty()
    } else {
        label_tokens(labels.drop_last()).push(LABEL@).push(labels.last())
    }
}

impl TaskView {
    /// The task's name, prompt and descriptions in one text.
    pub open spec fn heading(self) -> Seq<char> {
        let named = match self.prompt {
            Some(p) => self.name + ": "@ + p,
            None => self.name,
        };
        named + described_text(self.descriptions)
    }

    /// The pieces of the task in front of the state.
    pub open spec fn schema(self) -> Seq<Seq<char>> {
        seq!["("@, PROMPT@, self.heading(), "("@] + label_tokens(self.labels) + seq![")"@, ")"@]
    }
}

/// There are two pieces per label.
pub proof fn label_tokens_len(labels: Seq<Seq<char>>)
    ensures
        label_tokens(labels).len() == 2 * labels.len(),
    decreases labels.len(),
{
    if labels.len() > 0 {
        label_tokens_len(labels.drop_last());
    }
}

/// The pieces of label `j` are its marker and the label itself.
pub proof fn label_tokens_at(labels: Seq<Seq<char>>, j: int)
    requires
        0 <= j < labels.len(),
    ensures
        2 * j + 1 < label_tokens(labels).len(),
        label_tokens(labels)[2 * j] == LABEL@,
        label_tokens(labels)[2 * j + 1] == labels[j],
    decreases labels.len(),
{
    let rest = labels.drop_last();
    label_tokens_len(rest);
    if j < rest.len() {
        label_tokens_at(rest, j);
        assert(rest[j] == labels[j]);
    }
}

impl GlinerTask {
    /// Lists the pieces of the task in front of the state.
    pub fn schema_tokens(&self) -> (tokens: Vec<String>)
        requires
            self.descriptions.wf(),
        ensures
            texts(tokens@) == self@.schema(),
    {
        let mut heading = self.name.clone();
        if let Some(p) = &self.prompt {
            heading.append(": ");
            heading.append(p.as_str());
        }
        let ghost named = heading@;
        let ghost entries = self@.descriptions;
        let mut i: usize = 0;
        while i < self.descriptions.len()
            invariant
                self.descriptions.wf(),
                i <= self.descriptions@.len(),
                entries == entry_texts(self.descriptions@),
                heading@ == named + described_text(entries.take(i as int)),
            decreases self.descriptions@.len() - i,
        {
            heading.append(" ");
            heading.append(DESCRIPTION);
            heading.append(" ");
            heading.append(self.descriptions.key(i));
            heading.append(": ");
            heading.append(self.descriptions.value(i).as_str());
            assert(entries.take(i + 1).drop_last() =~= entries.take(i as int));
            assert(entries.take(i + 1).last() == entries[i as int]);
            assert(heading@ =~= named + described_text(entries.take(i + 1)));
            i += 1;
        }
        assert(entries.take(entries.len() as int) =~= entries);
        assert(heading@ == self@.heading());
        let mut tokens: Vec<String> = Vec::new();
        tokens.push("(".to_owned());
        tokens.push(PROMPT.to_owned());
        tokens.push(heading);
        tokens.push("(".to_owned());
        let ghost front = seq!["("@, PROMPT@, self@.heading(), "("@];
        assert(texts(tokens@) =~= front);
        let ghost names = self@.labels;
        let mut j: usize = 0;
        assert(names.take(0) =~= Seq::empty());
        assert(texts(tokens@) =~= front + label_tokens(names.take(0)));
        while j < self.labels.len()
            invariant
                j <= self.labels.len(),
                names == texts(self.labels@),
                texts(tokens@) == front + label_tokens(names.take(j as int)),
            decreases self.labels.len() - j,
        {
            let ghost before = texts(tokens@);
            tokens.push(LABEL.to_owned());
            tokens.push(self.labels[j].clone());
            assert(texts(tokens@) =~= before.push(LABEL@).push(names[j as int]));
            assert(names.take(j + 1).drop_last() =~= names.take(j as int));
            assert(names.take(j + 1).last() == names[j as int]);
            assert(texts(tokens@) =~= front + label_tokens(names.take(j + 1)));
            j += 1;
        }
        assert(names.take(names.len() as int) =~= names);
        let ghost before = texts(tokens@);
        tokens.push(")".to_owned());
        tokens.push(")".to_owned());
        assert(texts(tokens@) =~= before + seq![")"@, ")"@]);
        tokens
    }
}

} // verus!
