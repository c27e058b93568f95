//! Token ids and marker positions for a request.
use crate::device::{DType, Device};
use crate::error::{config_error, Failure, SystemOneError};
use crate::gliner_decide::schema::{
    has_marker, label_tokens, label_tokens_at, label_tokens_len, normalize, normalized, reserved,
    task, task_of, GlinerTask, TaskView, LABEL, SEP_STRUCT, SEP_TEXT,
};
use crate::gliner_decide::words::{words_of, Words};
use crate::text::{decimal, decimal_text, texts};
use crate::tokens::{
    append_ids, encode_all, encodes, encodes_all, encoding_fails, id_lists, join_all, joined,
    joined_grows,
};
use crate::types::SystemOneRequest;
use tokenizers::Tokenizer;
use vstd::prelude::*;
use vstd::string::StringExecFns;

verus! {

/// Token ids and label positions for one request.
pub struct GlinerDecideInput {
    pub ids: Vec<u32>,
    pub tasks: Vec<GlinerTask>,
    /// Positions of the label markers per task, in label order.
    pub markers: Vec<Vec<usize>>,
    /// State tokens dropped from the right to fit the context.
    pub dropped_tokens: usize,
}

/// An input with its values as sequences.
pub struct InputView {
    pub ids: Seq<u32>,
    pub tasks: Seq<TaskView>,
    pub markers: Seq<Seq<usize>>,
    pub dropped_tokens: nat,
}

/// The tasks with their values as sequences.
pub open spec fn task_views(tasks: Seq<GlinerTask>) -> Seq<TaskView> {
    tasks.map_values(|t: GlinerTask| t@)
}

/// Lists of positions as sequences.
pub open spec fn position_lists(v: Seq<Vec<usize>>) -> Seq<Seq<usize>> {
    v.map_values(|p: Vec<usize>| p@)
}

impl View for GlinerDecideInput {
    type V = InputView;

    open spec fn view(&self) -> InputView {
        InputView {
            ids: self.ids@,
            tasks: task_views(self.tasks@),
            markers: position_lists(self.markers@),
            dropped_tokens: self.dropped_tokens as nat,
        }
    }
}

/// The tasks of the first `n` questions, or why one cannot be asked.
pub open spec fn tasks_of(request: &SystemOneRequest, n: nat) -> Result<Seq<TaskView>, Failure>
    decreases n,
{
    if n == 0 {
        Ok(Seq::empty())
    } else {
        match tasks_of(request, (n - 1) as nat) {
            Err(failure) => Err(failure),
            Ok(tasks) => match task_of(
                request.questions@[n - 1].0,
                &request.questions@[n - 1].1,
            ) {
                Err(failure) => Err(failure),
                Ok(task) => Ok(tasks.push(task)),
            },
        }
    }
}

/// The pieces of the first `n` tasks: a separator stands between two tasks.
pub open spec fn schema_pieces(tasks: Seq<TaskView>, n: nat) -> Seq<Seq<char>>
    decreases n,
{
    if n == 0 {
        Seq::empty()
    } else {
        let before = schema_pieces(tasks, (n - 1) as nat);
        if n == 1 {
            before + tasks[0].schema()
        } else {
            before.push(SEP_STRUCT@) + tasks[n - 1].schema()
        }
    }
}

/// All pieces in front of the state.
pub open spec fn all_pieces(tasks: Seq<TaskView>) -> Seq<Seq<char>> {
    schema_pieces(tasks, tasks.len()).push(SEP_TEXT@)
}

/// The piece at which task `i` starts.
pub open spec fn task_start(tasks: Seq<TaskView>, i: int) -> int {
    if i == 0 {
        0
    } else {
        schema_pieces(tasks, i as nat).len() as int + 1
    }
}

/// The piece that is the marker of label `j` of task `i`.
pub open spec fn marker_piece(tasks: Seq<TaskView>, i: int, j: int) -> int {
    task_start(tasks, i) + 4 + 2 * j
}

/// Where the markers of task `i` stand among the tokens.
pub open spec fn task_markers(tasks: Seq<TaskView>, lists: Seq<Seq<u32>>, i: int) -> Seq<usize> {
    Seq::new(
        tasks[i].labels.len(),
        |j: int| joined(lists, marker_piece(tasks, i, j) as nat).len() as usize,
    )
}

/// Where the markers of all tasks stand among the tokens.
pub open spec fn all_markers(tasks: Seq<TaskView>, lists: Seq<Seq<u32>>) -> Seq<Seq<usize>> {
    Seq::new(tasks.len(), |i: int| task_markers(tasks, lists, i))
}

/// More tasks have at least as many pieces, beginning with the same ones.
proof fn pieces_grow(tasks: Seq<TaskView>, m: nat, n: nat)
    requires
        m <= n,
    ensures
        schema_pieces(tasks, m).len() <= schema_pieces(tasks, n).len(),
        schema_pieces(tasks, n).take(schema_pieces(tasks, m).len() as int) == schema_pieces(
            tasks,
            m,
        ),
    decreases n,
{
    let a = schema_pieces(tasks, m);
    if m < n {
        pieces_grow(tasks, m, (n - 1) as nat);
        let before = schema_pieces(tasks, (n - 1) as nat);
        assert(schema_pieces(tasks, n).take(a.len() as int) =~= before.take(a.len() as int));
    } else {
        assert(schema_pieces(tasks, n).take(a.len() as int) =~= a);
    }
}

/// The marker pieces are what their name says.
pub proof fn marker_pieces_are_markers(tasks: Seq<TaskView>, i: int, j: int)
    requires
        0 <= i < tasks.len(),
        0 <= j < tasks[i].labels.len(),
    ensures
        0 <= marker_piece(tasks, i, j) < all_pieces(tasks).len(),
        all_pieces(tasks)[marker_piece(tasks, i, j)] == LABEL@,
{
    let upto = schema_pieces(tasks, (i + 1) as nat);
    pieces_grow(tasks, (i + 1) as nat, tasks.len());
    label_tokens_at(tasks[i].labels, j);
    label_tokens_len(tasks[i].labels);
    let p = marker_piece(tasks, i, j);
    let schema = tasks[i].schema();
    assert(schema[4 + 2 * j] == label_tokens(tasks[i].labels)[2 * j]);
    assert(upto[p] == schema[4 + 2 * j]);
    assert(schema_pieces(tasks, tasks.len())[p] == upto[p]) by {
        assert(schema_pieces(tasks, tasks.len()).take(upto.len() as int)[p] == upto[p]);
    }
}

/// Lists the pieces in front of the state.
fn list_pieces(tasks: &Vec<GlinerTask>) -> (pieces: Vec<String>)
    requires
        forall|i: int| 0 <= i < tasks.len() ==> (#[trigger] tasks@[i]).descriptions.wf(),
    ensures
        texts(pieces@) == all_pieces(task_views(tasks@)),
{
    let ghost seen = task_views(tasks@);
    let mut pieces: Vec<String> = Vec::new();
    let mut i: usize = 0;
    assert(texts(pieces@) =~= schema_pieces(seen, 0));
    while i < tasks.len()
        invariant
            i <= tasks.len(),
            seen == task_views(tasks@),
            forall|k: int| 0 <= k < tasks.len() ==> (#[trigger] tasks@[k]).descriptions.wf(),
            texts(pieces@) == schema_pieces(seen, i as nat),
        decreases tasks.len() - i,
    {
        let ghost start = texts(pieces@);
        if i > 0 {
            pieces.push(SEP_STRUCT.to_owned());
            assert(texts(pieces@) =~= start.push(SEP_STRUCT@));
        }
        let ghost front = texts(pieces@);
        let schema = tasks[i].schema_tokens();
        let mut j: usize = 0;
        assert(texts(pieces@) =~= front + texts(schema@).take(0));
        while j < schema.len()
            invariant
                j <= schema.len(),
                texts(pieces@) == front + texts(schema@).take(j as int),
            decreases schema.len() - j,
        {
            let ghost before = texts(pieces@);
            pieces.push(schema[j].clone());
            assert(texts(pieces@) =~= before.push(texts(schema@)[j as int]));
            assert(texts(pieces@) =~= front + texts(schema@).take(j + 1));
            j += 1;
        }
        assert(texts(schema@).take(schema@.len() as int) =~= texts(schema@));
        assert(texts(schema@) == seen[i as int].schema());
        i += 1;
    }
    let ghost front = texts(pieces@);
    pieces.push(SEP_TEXT.to_owned());
    assert(texts(pieces@) =~= front.push(SEP_TEXT@));
    pieces
}

/// Joins the tokens of the pieces and finds the label markers among them.
pub fn lay_out_schema(tasks: &Vec<GlinerTask>, lists: &Vec<Vec<u32>>) -> (laid: (
    Vec<u32>,
    Vec<Vec<usize>>,
))
    requires
        lists.len() == all_pieces(task_views(tasks@)).len(),
    ensures
        laid.0@ == joined(id_lists(lists@), lists@.len()),
        position_lists(laid.1@) == all_markers(task_views(tasks@), id_lists(lists@)),
{
    let ghost seen = task_views(tasks@);
    let ghost all = id_lists(lists@);
    let mut ids: Vec<u32> = Vec::new();
    let mut starts: Vec<usize> = Vec::new();
    let mut p: usize = 0;
    while p < lists.len()
        invariant
            p <= lists.len(),
            all == id_lists(lists@),
            ids@ == joined(all, p as nat),
            starts.len() == p,
            forall|k: int| 0 <= k < p ==> #[trigger] starts@[k] == joined(all, k as nat).len(),
        decreases lists.len() - p,
    {
        starts.push(ids.len());
        append_ids(&mut ids, &lists[p]);
        p += 1;
    }
    let mut markers: Vec<Vec<usize>> = Vec::new();
    let mut start: usize = 0;
    let mut i: usize = 0;
    while i < tasks.len()
        invariant
            i <= tasks.len(),
            seen == task_views(tasks@),
            all == id_lists(lists@),
            lists.len() == all_pieces(seen).len(),
            starts.len() == lists.len(),
            forall|k: int| 0 <= k < lists.len() ==> #[trigger] starts@[k] == joined(all, k as nat).len(),
            i < tasks.len() ==> start == task_start(seen, i as int),
            markers.len() == i,
            forall|k: int| 0 <= k < i ==> (#[trigger] markers@[k])@ == task_markers(seen, all, k),
        decreases tasks.len() - i,
    {
        let labels: usize = tasks[i].labels.len();
        proof {
            assert(seen[i as int] == tasks@[i as int]@);
            assert(seen[i as int].labels.len() == labels);
            pieces_grow(seen, (i + 1) as nat, seen.len());
            label_tokens_len(seen[i as int].labels);
            assert(seen[i as int].schema().len() == 6 + 2 * labels);
            assert(schema_pieces(seen, 0).len() == 0);
            assert(schema_pieces(seen, (i + 1) as nat).len() == start + 6 + 2 * labels);
        }
        let mut positions: Vec<usize> = Vec::new();
        let mut j: usize = 0;
        while j < labels
            invariant
                i < tasks.len(),
                j <= labels,
                labels == seen[i as int].labels.len(),
                start == task_start(seen, i as int),
                start + 6 + 2 * labels <= lists.len(),
                starts.len() == lists.len(),
                forall|k: int|
                    0 <= k < lists.len() ==> #[trigger] starts@[k] == joined(all, k as nat).len(),
                positions@ == task_markers(seen, all, i as int).take(j as int),
            decreases labels - j,
        {
            positions.push(starts[start + 4 + 2 * j]);
            assert(positions@ =~= task_markers(seen, all, i as int).take(j + 1));
            j += 1;
        }
        assert(positions@ =~= task_markers(seen, all, i as int));
        markers.push(positions);
        start = start + 6 + 2 * labels;
        if i + 1 < tasks.len() {
            proof {
                pieces_grow(seen, (i + 2) as nat, seen.len());
            }
            start = start + 1;
        }
        i += 1;
    }
    assert(position_lists(markers@) =~= all_markers(seen, all));
    (ids, markers)
}

/// How many of the first `n` words are kept behind `used` tokens: words are
/// kept from the left until one does not fit.
pub open spec fn kept_words(used: nat, lists: Seq<Seq<u32>>, max_len: nat, n: nat) -> nat
    decreases n,
{
    if n == 0 {
        0
    } else {
        let before = kept_words(used, lists, max_len, (n - 1) as nat);
        if before == n - 1 && used + joined(lists, n).len() <= max_len {
            n
        } else {
            before
        }
    }
}

/// The kept words fit; the first that was not kept would not have.
pub proof fn kept_words_fit(used: nat, lists: Seq<Seq<u32>>, max_len: nat, n: nat)
    requires
        used <= max_len,
    ensures
        ({
            let c = kept_words(used, lists, max_len, n);
            &&& c <= n
            &&& used + joined(lists, c).len() <= max_len
            &&& c < n ==> used + joined(lists, c + 1).len() > max_len
        }),
    decreases n,
{
    if n > 0 {
        kept_words_fit(used, lists, max_len, (n - 1) as nat);
    }
}

/// The input that the tokens of the pieces and of the state's words make up.
pub open spec fn input_of(
    tasks: Seq<TaskView>,
    schema: Seq<Seq<u32>>,
    words: Seq<Seq<u32>>,
    max_len: nat,
) -> InputView {
    let front = joined(schema, schema.len());
    let kept = kept_words(front.len(), words, max_len, words.len());
    InputView {
        ids: front + joined(words, kept),
        tasks,
        markers: all_markers(tasks, schema),
        dropped_tokens: (joined(words, words.len()).len() - joined(words, kept).len()) as nat,
    }
}

/// Puts an input together: the schema whole, and as many words of the state
/// as fit behind it.
pub fn put_together(
    tasks: Vec<GlinerTask>,
    schema: &Vec<Vec<u32>>,
    words: &Vec<Vec<u32>>,
    max_len: usize,
) -> (input: GlinerDecideInput)
    requires
        schema.len() == all_pieces(task_views(tasks@)).len(),
        joined(id_lists(schema@), schema@.len()).len() <= max_len,
    ensures
        input@ == input_of(
            task_views(tasks@),
            id_lists(schema@),
            id_lists(words@),
            max_len as nat,
        ),
        input.tasks == tasks,
{
    let (mut ids, markers) = lay_out_schema(&tasks, schema);
    let state = join_all(words);
    let ghost front = ids@;
    let ghost lists = id_lists(words@);
    let room: usize = max_len - ids.len();
    let mut kept: usize = 0;
    let mut full = false;
    let mut i: usize = 0;
    while i < words.len()
        invariant
            i <= words.len(),
            lists == id_lists(words@),
            front.len() + room == max_len,
            kept <= room,
            kept == joined(
                lists,
                kept_words(front.len(), lists, max_len as nat, i as nat),
            ).len(),
            kept_words(front.len(), lists, max_len as nat, i as nat) <= i,
            full <==> kept_words(front.len(), lists, max_len as nat, i as nat) < i,
        decreases words.len() - i,
    {
        let word: usize = words[i].len();
        assert(lists[i as int] == words@[i as int]@);
        if !full && word <= room - kept {
            kept += word;
        } else {
            full = true;
        }
        i += 1;
    }
    let ghost count = kept_words(front.len(), lists, max_len as nat, lists.len());
    proof {
        joined_grows(lists, count, lists.len());
    }
    let mut k: usize = 0;
    while k < kept
        invariant
            k <= kept <= state.len(),
            ids@ == front + state@.take(k as int),
        decreases kept - k,
    {
        ids.push(state[k]);
        assert(ids@ =~= front + state@.take(k + 1));
        k += 1;
    }
    GlinerDecideInput { ids, tasks, markers, dropped_tokens: state.len() - kept }
}

/// A model's tokenizer and limits.
pub struct GlinerDecide {
    pub tokenizer: Tokenizer,
    pub words: Words,
    /// The token that marks a label.
    pub label: u32,
    /// Token ids stay below this.
    pub vocab_size: usize,
    pub device: Device,
    pub dtype: DType,
    pub batch_size: usize,
    pub max_len: usize,
}

/// The result of building an input, with its values as sequences.
pub open spec fn input_outcome(result: Result<GlinerDecideInput, SystemOneError>) -> Result<
    InputView,
    Failure,
> {
    match result {
        Ok(input) => Ok(input@),
        Err(error) => Err(error@),
    }
}

/// Why questions that need `needed` tokens cannot be asked.
pub open spec fn over_context(needed: nat, max_len: nat) -> Failure {
    Failure::Config(
        "questions need "@ + decimal(needed) + " tokens, over the "@ + decimal(max_len)
            + "-token context"@,
    )
}

impl GlinerDecide {
    /// The settings that a loaded model has.
    pub open spec fn wf(&self) -> bool {
        &&& encodes(self.tokenizer, false)
        &&& self.words.wf()
        &&& self.batch_size > 0
        &&& self.max_len >= 2
    }

    /// `outcome` may follow from tokens for the tasks: the state's words are
    /// encoded only where the tasks leave the state a place.
    pub open spec fn may_follow(
        &self,
        tasks: Seq<TaskView>,
        schema: Seq<Seq<u32>>,
        state: Seq<char>,
        outcome: Result<InputView, Failure>,
    ) -> bool {
        let needed = joined(schema, schema.len()).len();
        let words = words_of(normalized(state));
        if needed > self.max_len {
            outcome == Err::<InputView, Failure>(over_context(needed, self.max_len as nat))
        } else if has_marker(normalized(state)) {
            outcome == Err::<InputView, Failure>(
                Failure::Config("state contains a reserved GLiNER2 marker"@),
            )
        } else {
            ||| exists|message: Seq<char>|
                #[trigger] encoding_fails(self.tokenizer, words, message) && outcome == Err::<
                    InputView,
                    Failure,
                >(Failure::Tokenizer(message))
            ||| exists|lists: Seq<Seq<u32>>|
                #[trigger] encodes_all(self.tokenizer, words, lists) && outcome == Ok::<
                    InputView,
                    Failure,
                >(input_of(tasks, schema, lists, self.max_len as nat))
        }
    }

    /// `outcome` is one that building the input of a request may have: it
    /// follows from some encoding of the pieces and words of the request.
    pub open spec fn may_build(
        &self,
        request: &SystemOneRequest,
        outcome: Result<InputView, Failure>,
    ) -> bool {
        match tasks_of(request, request.questions@.len()) {
            Err(failure) => outcome == Err::<InputView, Failure>(failure),
            Ok(tasks) => if tasks.len() == 0 {
                outcome == Err::<InputView, Failure>(Failure::Config("request has no questions"@))
            } else {
                ||| exists|message: Seq<char>|
                    #[trigger] encoding_fails(self.tokenizer, all_pieces(tasks), message) && outcome
                        == Err::<InputView, Failure>(Failure::Tokenizer(message))
                ||| exists|schema: Seq<Seq<u32>>|
                    #[trigger] encodes_all(self.tokenizer, all_pieces(tasks), schema)
                        && self.may_follow(tasks, schema, request.state.text@, outcome)
            },
        }
    }

    /// Makes the tasks of a request; the first question that cannot be asked
    /// decides the error.
    fn make_tasks(request: &SystemOneRequest) -> (result: Result<Vec<GlinerTask>, SystemOneError>)
        requires
            request.wf(),
        ensures
            match result {
                Ok(tasks) => {
                    &&& tasks_of(request, request.questions@.len()) == Ok::<
                        Seq<TaskView>,
                        Failure,
                    >(task_views(tasks@))
                    &&& forall|i: int|
                        0 <= i < tasks.len() ==> (#[trigger] tasks@[i]).descriptions.wf()
                },
                Err(e) => tasks_of(request, request.questions@.len()) == Err::<
                    Seq<TaskView>,
                    Failure,
                >(e@),
            },
    {
        let mut tasks: Vec<GlinerTask> = Vec::new();
        let mut i: usize = 0;
        assert(task_views(tasks@) =~= Seq::empty());
        while i < request.questions.len()
            invariant
                request.wf(),
                i <= request.questions@.len(),
                tasks_of(request, i as nat) == Ok::<Seq<TaskView>, Failure>(task_views(tasks@)),
                forall|k: int| 0 <= k < tasks.len() ==> (#[trigger] tasks@[k]).descriptions.wf(),
            decreases request.questions@.len() - i,
        {
            let ghost before = task_views(tasks@);
            match task(request.questions.key(i), request.questions.value(i)) {
                Err(e) => {
                    assert(tasks_of(request, (i + 1) as nat) == Err::<Seq<TaskView>, Failure>(e@));
                    proof {
                        failures_stay(request, (i + 1) as nat, request.questions@.len());
                    }
                    return Err(e);
                },
                Ok(made) => {
                    tasks.push(made);
                    assert(task_views(tasks@) =~= before.push(made@));
                },
            }
            i += 1;
        }
        Ok(tasks)
    }

    /// Builds the input of a request: its tasks, and as much of its state as
    /// fits behind them.
    pub fn build_input(&self, request: &SystemOneRequest) -> (result: Result<
        GlinerDecideInput,
        SystemOneError,
    >)
        requires
            self.wf(),
            request.wf(),
        ensures
            self.may_build(request, input_outcome(result)),
            result matches Ok(input) ==> forall|i: int|
                0 <= i < input.tasks.len() ==> (#[trigger] input.tasks@[i]).descriptions.wf(),
    {
        let tasks = match Self::make_tasks(request) {
            Ok(tasks) => tasks,
            Err(e) => {
                return Err(e);
            },
        };
        if tasks.len() == 0 {
            return Err(config_error("request has no questions"));
        }
        let ghost seen = task_views(tasks@);
        let pieces = list_pieces(&tasks);
        let schema = match encode_all(&self.tokenizer, &pieces) {
            Ok(lists) => lists,
            Err(message) => {
                assert(encoding_fails(self.tokenizer, all_pieces(seen), message@));
                return Err(SystemOneError::Tokenizer(message));
            },
        };
        assert(encodes_all(self.tokenizer, all_pieces(seen), id_lists(schema@)));
        let needed: usize = join_all(&schema).len();
        if needed > self.max_len {
            let mut message = "questions need ".to_owned();
            message.append(decimal_text(needed).as_str());
            message.append(" tokens, over the ");
            message.append(decimal_text(self.max_len).as_str());
            message.append("-token context");
            let e = config_error(message.as_str());
            assert(self.may_follow(seen, id_lists(schema@), request.state.text@, Err(e@)));
            return Err(e);
        }
        let text = normalize(request.state.render().as_str());
        if reserved(text.as_str()) {
            let e = config_error("state contains a reserved GLiNER2 marker");
            assert(self.may_follow(seen, id_lists(schema@), request.state.text@, Err(e@)));
            return Err(e);
        }
        let words = self.words.split(text.as_str());
        match encode_all(&self.tokenizer, &words) {
            Err(message) => {
                assert(encoding_fails(
                    self.tokenizer,
                    words_of(normalized(request.state.text@)),
                    message@,
                ));
                let e = SystemOneError::Tokenizer(message);
                assert(self.may_follow(seen, id_lists(schema@), request.state.text@, Err(e@)));
                Err(e)
            },
            Ok(lists) => {
                assert(encodes_all(
                    self.tokenizer,
                    words_of(normalized(request.state.text@)),
                    id_lists(lists@),
                ));
                let input = put_together(tasks, &schema, &lists, self.max_len);
                assert(self.may_follow(seen, id_lists(schema@), request.state.text@, Ok(input@)));
                Ok(input)
            },
        }
    }

    /// The result says whether a request fits without dropping any of its
    /// state, or why it cannot be asked.
    pub open spec fn measures(
        &self,
        request: &SystemOneRequest,
        result: Result<bool, SystemOneError>,
    ) -> bool {
        match result {
            Ok(fits) => exists|input: InputView|
                #[trigger] self.may_build(request, Ok(input)) && fits == (input.dropped_tokens
                    == 0),
            Err(e) => self.may_build(request, Err(e@)),
        }
    }

    /// Whether a request fits without dropping any of its state.
    pub fn request_fits(&self, request: &SystemOneRequest) -> (result: Result<bool, SystemOneError>)
        requires
            self.wf(),
            request.wf(),
        ensures
            self.measures(request, result),
    {
        match self.build_input(request) {
            Ok(input) => {
                assert(self.may_build(request, Ok(input@)));
                Ok(input.dropped_tokens == 0)
            },
            Err(e) => Err(e),
        }
    }
}

/// A question that cannot be asked keeps the whole request from being asked.
proof fn failures_stay(request: &SystemOneRequest, m: nat, n: nat)
    requires
        m <= n,
        tasks_of(request, m) is Err,
    ensures
        tasks_of(request, n) == tasks_of(request, m),
    decreases n,
{
    if m < n {
        failures_stay(request, m, (n - 1) as nat);
    }
}

} // verus!
