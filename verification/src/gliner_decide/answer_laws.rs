//! What holds of the answers of GLiNER2.5-Decide, of its batches and of the
//! checkpoints it is loaded from.
use crate::batching::{all_ones, chunks, longest, longest_bounds, ones, padded_at};
use crate::batching_laws::{pieces_keep_the_places, the_longest_row_is_a_row};
use crate::device::{DType, Device};
use crate::gliner_decide::answer::{
    answerable, answers, dropped_entries, responds, GlinerTaskPrediction, Summary,
};
use crate::gliner_decide::input::InputView;
use crate::gliner_decide::predict::{chosen_rows, narrow, GlinerBatch, GlinerPlan};
use crate::gliner_decide::schema::{reserved_markers, TaskView};
use crate::gliner_decide::schema_laws::marks;
use crate::gliner_decide::settings::{
    knows_markers, load_failure, DebertaConfig, GlinerConfig, GlinerDecideBuilder,
};
use crate::openjev::answer_laws::{explains, values_of};
use crate::score::{leader, Float};
use crate::score_laws::leaders_are_the_first_of_the_greatest;
use crate::table::{collected_distinct, place};
use crate::tokens::token_id;
use crate::types::{Answer, Question, SystemOneRequest, SystemOneResponse};
use tokenizers::Tokenizer;
use vstd::prelude::*;

verus! {

/// An answer is of the kind that was asked for. A choice is what was selected.
/// Probabilities are those of the prediction, under the same labels and in the
/// same order. The probability that a statement is true is the one under
/// "yes".
pub proof fn answers_say_what_was_predicted(
    q: &Question,
    p: &GlinerTaskPrediction,
    numbers: Summary,
    a: &Answer,
)
    requires
        answerable(q, p),
        answers(q, p, numbers, a),
    ensures
        q is Choice ==> {
            &&& a is Choice
            &&& a->Choice_0.choice@ == p.selected@
            &&& a->Choice_0.probabilities@ == p.probabilities@
            &&& a->Choice_0.action is None
        },
        q is Score ==> {
            &&& a is Score
            &&& a->Score_0.probabilities@ == p.probabilities@
            &&& a->Score_0.action is None
            &&& explains(q->Score_0.criteria@, a->Score_0.legend@)
        },
        q is Noul ==> {
            &&& a is Noul
            &&& a->Noul_0.action is None
            &&& exists|k: int|
                0 <= k < p.probabilities@.len() && (#[trigger] p.probabilities@[k]).0 == "yes"@
                    && p.probabilities@[k].1 == a->Noul_0.noul
            &&& forall|k: int|
                0 <= k < p.probabilities@.len() && (#[trigger] p.probabilities@[k]).0 == "yes"@
                    ==> p.probabilities@[k].1 == a->Noul_0.noul
        },
{
    p.probabilities.keys_are_distinct();
    let entries = p.probabilities@;
    if q is Noul {
        let k = place(entries, "yes"@);
        assert(entries[k].0 == "yes"@);
    }
}

/// Confidence and score are functions of the probabilities in the answer
/// itself: whichever functions they were computed by from the prediction's
/// probabilities, they are these functions of the answer's own.
pub proof fn confidence_is_of_the_answers_own_probabilities(
    q: &Question,
    p: &GlinerTaskPrediction,
    numbers: Summary,
    a: &Answer,
    confidence: spec_fn(Seq<Float>) -> Float,
    mean: spec_fn(Seq<Float>) -> Float,
)
    requires
        answers(q, p, numbers, a),
        numbers.confidence == confidence(values_of(p.probabilities@)),
        numbers.score == mean(values_of(p.probabilities@)),
    ensures
        a matches Answer::Choice(x) ==> x.confidence == confidence(values_of(x.probabilities@)),
        a matches Answer::Score(x) ==> x.confidence == confidence(values_of(x.probabilities@))
            && x.score == mean(values_of(x.probabilities@)),
{
}

/// A prediction selects the label with the greatest probability, the first of
/// them where there are several, and keeps every probability under its own
/// label, in order.
pub proof fn predictions_select_the_greatest_probability(
    p: &GlinerTaskPrediction,
    task: TaskView,
    logits: Seq<Float>,
    probabilities: Seq<Float>,
) -> (best: int)
    requires
        p.reads(task, logits, probabilities),
        probabilities.len() > 0,
        probabilities.len() == task.labels.len(),
        task.labels.no_duplicates(),
        forall|i: int| 0 <= i < probabilities.len() ==> (#[trigger] probabilities[i]).finite(),
    ensures
        0 <= best < probabilities.len(),
        p.selected@ == task.labels[best],
        forall|i: int|
            0 <= i < probabilities.len() ==> !(#[trigger] probabilities[i]).above(
                probabilities[best],
            ),
        forall|i: int| 0 <= i < best ==> probabilities[best].above(#[trigger] probabilities[i]),
        p.logits@ == logits,
        p.probabilities@.len() == task.labels.len(),
        forall|k: int|
            0 <= k < task.labels.len() ==> #[trigger] p.probabilities@[k] == (
                task.labels[k],
                probabilities[k],
            ),
{
    leaders_are_the_first_of_the_greatest(probabilities);
    collected_distinct(task.labels, probabilities, task.labels.len());
    leader(probabilities, probabilities.len())
}

/// A response answers the questions of its request in order and under their
/// names, bears the model's name, and says how many tokens were read. Where
/// state was dropped, every question is told how many tokens; where none was,
/// nothing is said.
pub proof fn responses_follow_their_request(
    request: &SystemOneRequest,
    input: InputView,
    predictions: Seq<GlinerTaskPrediction>,
    numbers: Seq<Summary>,
    response: &SystemOneResponse,
    k: int,
)
    requires
        responds(request, input, predictions, numbers, response),
        0 <= k < request.questions@.len(),
        input.dropped_tokens <= usize::MAX,
    ensures
        response.model@ == "GLiNER2.5-Decide"@,
        response.answers@.len() == request.questions@.len(),
        response.answers@[k].0 == request.questions@[k].0,
        answers(
            &request.questions@[k].1,
            &predictions[k],
            numbers[k],
            &response.answers@[k].1,
        ),
        response.usage.input_tokens == input.ids.len(),
        response.usage.output_tokens == 0,
        input.dropped_tokens == 0 ==> response.usage.dropped_state_tokens@.len() == 0,
        input.dropped_tokens > 0 ==> {
            &&& response.usage.dropped_state_tokens@.len() == request.questions@.len()
            &&& response.usage.dropped_state_tokens@[k].0 == request.questions@[k].0
            &&& response.usage.dropped_state_tokens@[k].1 == input.dropped_tokens
        },
{
    assert(response.answers@[k].0 == request.questions@[k].0);
    let dropped = input.dropped_tokens as usize;
    assert(response.usage.dropped_state_tokens@ == dropped_entries(request, dropped));
}

/// A batch holds the tokens of each of its inputs in a row of its own, as long
/// as the longest of them, with zeros behind; the mask says which are tokens,
/// and the markers stand where they do in the input.
pub proof fn batches_hold_each_input_in_a_row(
    batch: &GlinerBatch,
    inputs: Seq<InputView>,
    chosen: Seq<usize>,
    i: int,
    j: int,
)
    requires
        batch.lays_out(inputs, chosen),
        0 <= i < chosen.len(),
        0 <= j < batch.len,
    ensures
        batch.requests@ == chosen,
        ({
            let input = inputs[chosen[i] as int];
            &&& input.ids.len() <= batch.len
            &&& batch.ids@.len() == chosen.len() * batch.len
            &&& batch.mask@.len() == chosen.len() * batch.len
            &&& 0 <= i * batch.len + j < batch.ids@.len()
            &&& batch.ids@[i * batch.len + j] == if j < input.ids.len() {
                input.ids[j]
            } else {
                0u32
            }
            &&& batch.mask@[i * batch.len + j] == if j < input.ids.len() {
                1u32
            } else {
                0u32
            }
            &&& batch.markers@[i]@.len() == input.markers.len()
            &&& forall|t: int, m: int|
                #![trigger input.markers[t][m]]
                0 <= t < input.markers.len() && 0 <= m < input.markers[t].len()
                    && input.markers[t][m] <= u32::MAX ==> batch.markers@[i]@[t]@.len()
                    == input.markers[t].len() && batch.markers@[i]@[t]@[m] == input.markers[t][m]
        }),
        exists|l: int|
            0 <= l < chosen.len() && inputs[#[trigger] chosen[l] as int].ids.len() == batch.len,
{
    let rows = chosen_rows(inputs, chosen);
    longest_bounds(rows);
    let input = inputs[chosen[i] as int];
    assert(rows[i] == input.ids);
    padded_at(rows, longest(rows), 0, i, j);
    let marked = all_ones(rows);
    assert forall|k: int| 0 <= k < marked.len() implies (#[trigger] marked[k]).len() <= longest(
        rows,
    ) by {
        assert(marked[k] == ones(rows[k]));
    }
    padded_at(marked, longest(rows), 0, i, j);
    assert(marked[i] == ones(rows[i]));
    let l = the_longest_row_is_a_row(rows);
    assert(inputs[chosen[l] as int].ids == rows[l]);
    let row = batch.markers@[i]@;
    assert forall|t: int, m: int|
        #![trigger input.markers[t][m]]
        0 <= t < input.markers.len() && 0 <= m < input.markers[t].len() && input.markers[t][m]
            <= u32::MAX implies row[t]@.len() == input.markers[t].len() && row[t]@[m]
        == input.markers[t][m] by {
        assert(row[t]@ == narrow(input.markers[t]));
    }
}

/// Inputs are evaluated from the shortest up, those of one length in the order
/// in which they came. Every input is evaluated once, and its rank says where.
pub proof fn plans_go_from_the_shortest_up(
    plan: &GlinerPlan,
    inputs: Seq<InputView>,
    batch_size: nat,
    i: int,
    j: int,
)
    requires
        plan.plans(inputs, batch_size),
        0 <= i < j < plan.order@.len(),
        forall|k: int| 0 <= k < inputs.len() ==> (#[trigger] inputs[k]).ids.len() <= usize::MAX,
    ensures
        plan.order@.len() == inputs.len(),
        plan.order@[i] < inputs.len(),
        plan.order@[j] < inputs.len(),
        plan.order@[i] != plan.order@[j],
        inputs[plan.order@[i] as int].ids.len() <= inputs[plan.order@[j] as int].ids.len(),
        inputs[plan.order@[i] as int].ids.len() == inputs[plan.order@[j] as int].ids.len()
            ==> plan.order@[i] < plan.order@[j],
        forall|r: int|
            0 <= r < inputs.len() ==> (#[trigger] plan.ranks@[r]) < plan.order@.len()
                && plan.order@[plan.ranks@[r] as int] == r,
{
    assert(crate::ordering::precedes(
        crate::gliner_decide::predict::input_lens(inputs),
        plan.order@[i],
        plan.order@[j],
    ));
    assert(inputs[plan.order@[i] as int].ids.len() <= usize::MAX);
    assert(inputs[plan.order@[j] as int].ids.len() <= usize::MAX);
}

/// Row `j` of batch `b` is the input whose rank says so: it stands behind `b`
/// whole batches and `j` more rows.
pub proof fn rows_are_found_by_their_rank(
    plan: &GlinerPlan,
    inputs: Seq<InputView>,
    batch_size: nat,
    b: int,
    j: int,
)
    requires
        batch_size > 0,
        plan.plans(inputs, batch_size),
        0 <= b < plan.batches@.len(),
        0 <= j < plan.batches@[b].requests@.len(),
    ensures
        plan.batches@[b].requests@[j] < inputs.len(),
        plan.ranks@[plan.batches@[b].requests@[j] as int] == b * batch_size + j,
        b + 1 < plan.batches@.len() ==> plan.batches@[b].requests@.len() == batch_size,
        b + 1 == plan.batches@.len() ==> b * batch_size + plan.batches@[b].requests@.len()
            == inputs.len(),
{
    pieces_keep_the_places(plan.order@, batch_size, b);
    let batch = plan.batches@[b];
    assert(batch.lays_out(inputs, chunks(plan.order@, batch_size)[b]));
    let at = b * batch_size + j;
    let n = plan.order@[at];
    assert(batch.requests@[j] == n);
    let rank = plan.ranks@[n as int];
    assert(plan.order@[rank as int] == n);
}

/// A checkpoint is loaded where every one of its settings is the one the model
/// is written for and the vocabulary holds every mark of the schema, and for
/// no other.
pub proof fn loaded_checkpoints_fit(
    builder: &GlinerDecideBuilder,
    config: &GlinerConfig,
    encoder: DebertaConfig,
    tokenizer: Tokenizer,
)
    ensures
        load_failure(builder, config, encoder) is None <==> {
            &&& builder.dtype == Some(DType::F32) || (builder.device == Device::Cuda && (
            builder.dtype is None || builder.dtype == Some(DType::BF16))) || (builder.dtype is None
                && builder.device != Device::Cuda)
            &&& builder.batch_size >= 1
            &&& builder.max_len >= 2
            &&& config.architecture@ == "span"@
            &&& config.token_pooling@ == "first"@
            &&& !config.use_moe
            &&& encoder.conv_kernel_size is None || encoder.conv_kernel_size == Some(0usize)
            &&& encoder.embedding_size is None || encoder.embedding_size == Some(
                encoder.hidden_size,
            )
        },
        knows_markers(tokenizer) <==> forall|k: int|
            0 <= k < marks().len() ==> token_id(tokenizer, #[trigger] marks()[k]) is Some,
        builder.dtype matches Some(dtype) ==> builder.chosen_dtype() == dtype,
        builder.dtype is None && builder.device == Device::Cuda ==> builder.chosen_dtype()
            == DType::BF16,
        builder.dtype is None && builder.device != Device::Cuda ==> builder.chosen_dtype()
            == DType::F32,
{
    assert(reserved_markers() =~= marks());
}

} // verus!
