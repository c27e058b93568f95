//! What holds of GLiNER2.5-Decide from the schema to the answer.
use crate::batching::{chunks, chunks_join};
use crate::error::Failure;
use crate::gliner_decide::answer::{answerable, GlinerTaskPrediction, GlinerWork};
use crate::gliner_decide::input::{
    all_pieces, input_of, kept_words, kept_words_fit, marker_piece, marker_pieces_are_markers,
    tasks_of, GlinerDecide, InputView,
};
use crate::gliner_decide::predict::{views, GlinerPlan};
use crate::gliner_decide::schema::{label_names, task_of, TaskView, LABEL, YES};
use crate::ordering::numbers_below;
use crate::score::{leader_in_range, Float};
use crate::table::{collected_distinct, keys};
use crate::tokens::{joined, joined_grows};
use crate::types::{Question, SystemOneRequest};
use vstd::prelude::*;

verus! {

/// A task that can be asked has at least two labels, all distinct and named.
pub proof fn tasks_are_sound(id: Seq<char>, q: &Question)
    requires
        task_of(id, q) is Ok,
    ensures
        ({
            let t = task_of(id, q)->Ok_0;
            &&& t.name == id
            &&& t.labels == label_names(q)
            &&& t.labels.len() >= 2
            &&& t.labels.no_duplicates()
            &&& forall|i: int| 0 <= i < t.labels.len() ==> (#[trigger] t.labels[i]).len() > 0
        }),
{
}

/// An input never exceeds the context. State is dropped from the right and by
/// whole words, and only where it does not fit; the tasks are never cut.
pub proof fn inputs_fit_the_context(
    tasks: Seq<TaskView>,
    schema: Seq<Seq<u32>>,
    words: Seq<Seq<u32>>,
    max_len: nat,
)
    requires
        joined(schema, schema.len()).len() <= max_len,
    ensures
        ({
            let input = input_of(tasks, schema, words, max_len);
            let front = joined(schema, schema.len());
            let kept = kept_words(front.len(), words, max_len, words.len());
            &&& input.ids.len() <= max_len
            &&& input.ids.take(front.len() as int) == front
            &&& input.ids.skip(front.len() as int) == joined(words, kept)
            &&& joined(words, words.len()).take(joined(words, kept).len() as int) == joined(
                words,
                kept,
            )
            &&& input.ids.len() + input.dropped_tokens == front.len() + joined(
                words,
                words.len(),
            ).len()
            &&& input.dropped_tokens == 0 <==> front.len() + joined(words, words.len()).len()
                <= max_len
        }),
{
    let front = joined(schema, schema.len());
    let input = input_of(tasks, schema, words, max_len);
    let kept = kept_words(front.len(), words, max_len, words.len());
    kept_words_fit(front.len(), words, max_len, words.len());
    joined_grows(words, kept, words.len());
    if kept < words.len() {
        joined_grows(words, kept + 1, words.len());
    }
    assert(input.ids.take(front.len() as int) =~= front);
    assert(input.ids.skip(front.len() as int) =~= joined(words, kept));
}

/// The position of a label's marker is where the tokens of its marker piece
/// start.
pub proof fn markers_point_at_labels(
    tasks: Seq<TaskView>,
    schema: Seq<Seq<u32>>,
    words: Seq<Seq<u32>>,
    max_len: nat,
    i: int,
    j: int,
)
    requires
        schema.len() == all_pieces(tasks).len(),
        joined(schema, schema.len()).len() <= max_len <= usize::MAX,
        0 <= i < tasks.len(),
        0 <= j < tasks[i].labels.len(),
    ensures
        ({
            let input = input_of(tasks, schema, words, max_len);
            let piece = marker_piece(tasks, i, j);
            let at = input.markers[i][j] as int;
            &&& input.markers.len() == tasks.len()
            &&& input.markers[i].len() == tasks[i].labels.len()
            &&& 0 <= piece < schema.len()
            &&& all_pieces(tasks)[piece] == LABEL@
            &&& at + schema[piece].len() <= input.ids.len()
            &&& input.ids.subrange(at, at + schema[piece].len()) == schema[piece]
        }),
{
    marker_pieces_are_markers(tasks, i, j);
    let piece = marker_piece(tasks, i, j);
    let input = input_of(tasks, schema, words, max_len);
    let front = joined(schema, schema.len());
    let before = joined(schema, piece as nat);
    joined_grows(schema, piece as nat, schema.len());
    joined_grows(schema, (piece + 1) as nat, schema.len());
    inputs_fit_the_context(tasks, schema, words, max_len);
    let upto = joined(schema, (piece + 1) as nat);
    assert(upto == before + schema[piece]);
    let at = input.markers[i][j] as int;
    assert(at == before.len());
    assert forall|k: int| 0 <= k < schema[piece].len() implies input.ids[at + k]
        == schema[piece][k] by {
        assert(input.ids.take(front.len() as int)[at + k] == front[at + k]);
        assert(front.take(upto.len() as int)[at + k] == upto[at + k]);
    }
    assert(input.ids.subrange(at, at + schema[piece].len()) =~= schema[piece]);
}

/// Every input is evaluated in exactly one batch, and its rank leads back to
/// it: evaluating in order of length loses and swaps nothing.
pub proof fn plans_cover_every_input(plan: &GlinerPlan, inputs: Seq<InputView>, batch_size: nat)
    requires
        batch_size > 0,
        plan.plans(inputs, batch_size),
    ensures
        chunks(plan.order@, batch_size).flatten() == plan.order@,
        numbers_below(plan.order@, inputs.len()),
        forall|r: int|
            0 <= r < inputs.len() ==> (#[trigger] plan.ranks@[r]) < plan.order@.len()
                && plan.order@[plan.ranks@[r] as int] == r,
{
    chunks_join(plan.order@, batch_size);
}

/// A prediction for a task that can be asked keeps a probability for each of
/// its labels, in order; it selects one of them, and it can be answered.
pub proof fn predictions_keep_labels(
    id: Seq<char>,
    q: &Question,
    logits: Seq<Float>,
    probabilities: Seq<Float>,
    p: &GlinerTaskPrediction,
)
    requires
        task_of(id, q) is Ok,
        probabilities.len() == label_names(q).len(),
        p.reads(task_of(id, q)->Ok_0, logits, probabilities),
    ensures
        keys(p.probabilities@) == label_names(q),
        label_names(q).contains(p.selected@),
        answerable(q, p),
{
    let labels = label_names(q);
    tasks_are_sound(id, q);
    collected_distinct(labels, probabilities, labels.len());
    assert(keys(p.probabilities@) =~= labels);
    leader_in_range(probabilities, probabilities.len());
    assert(labels.contains(p.selected@));
    if q is Noul {
        assert(p.probabilities@[0].0 == YES@);
    }
}

/// The tasks of a request stand in the order of its questions, one each.
pub proof fn tasks_follow_questions(request: &SystemOneRequest, n: nat)
    requires
        n <= request.questions@.len(),
        tasks_of(request, n) is Ok,
    ensures
        tasks_of(request, n)->Ok_0.len() == n,
        forall|k: int|
            0 <= k < n ==> task_of(
                request.questions@[k].0,
                &request.questions@[k].1,
            ) == Ok::<TaskView, Failure>(#[trigger] tasks_of(request, n)->Ok_0[k]),
    decreases n,
{
    if n > 0 {
        tasks_follow_questions(request, (n - 1) as nat);
        let before = tasks_of(request, (n - 1) as nat)->Ok_0;
        let all = tasks_of(request, n)->Ok_0;
        assert forall|k: int| 0 <= k < n implies task_of(
            request.questions@[k].0,
            &request.questions@[k].1,
        ) == Ok::<TaskView, Failure>(#[trigger] all[k]) by {
            if k < n - 1 {
                assert(all[k] == before[k]);
            }
        }
    }
}

/// The prediction reads some scores off the markers of a task.
pub open spec fn read_off(task: TaskView, p: &GlinerTaskPrediction) -> bool {
    exists|logits: Seq<Float>, probabilities: Seq<Float>|
        probabilities.len() == task.labels.len() && #[trigger] p.reads(task, logits, probabilities)
}

/// The work on some requests leads to answers to all their questions: where
/// every prediction for a request is read off the task in its place, all
/// questions of the request can be answered.
pub proof fn work_leads_to_answers(
    model: &GlinerDecide,
    requests: Seq<SystemOneRequest>,
    work: GlinerWork,
    r: int,
    predictions: Seq<GlinerTaskPrediction>,
)
    requires
        model.works(requests, Ok(work)),
        0 <= r < requests.len(),
        predictions.len() == work.inputs@[r].tasks.len(),
        forall|k: int|
            0 <= k < predictions.len() ==> read_off(
                work.inputs@[r].tasks@[k]@,
                #[trigger] &predictions[k],
            ),
    ensures
        predictions.len() == requests[r].questions@.len(),
        forall|k: int|
            0 <= k < predictions.len() ==> answerable(
                &requests[r].questions@[k].1,
                #[trigger] &predictions[k],
            ),
{
    let request = &requests[r];
    let input = work.inputs@[r]@;
    assert(views(work.inputs@)[r] == input);
    assert(model.may_build(request, Ok(input)));
    let n = request.questions@.len();
    tasks_follow_questions(request, n);
    let tasks = tasks_of(request, n)->Ok_0;
    assert(input.tasks == tasks);
    assert forall|k: int| 0 <= k < predictions.len() implies answerable(
        &request.questions@[k].1,
        #[trigger] &predictions[k],
    ) by {
        let task = tasks[k];
        assert(input.tasks[k] == work.inputs@[r].tasks@[k]@);
        assert(read_off(task, &predictions[k]));
        let (logits, probabilities) = choose|logits: Seq<Float>, probabilities: Seq<Float>|
            probabilities.len() == task.labels.len() && #[trigger] predictions[k].reads(
                task,
                logits,
                probabilities,
            );
        let id = request.questions@[k].0;
        let q = &request.questions@[k].1;
        assert(task_of(id, q) == Ok::<TaskView, Failure>(task));
        predictions_keep_labels(id, q, logits, probabilities, &predictions[k]);
    }
}

} // verus!
