//! What holds of the inputs of a model and of the batches they are laid out
//! in.
use crate::batching::{all_ones, longest, longest_bounds, ones, padded_at, total};
use crate::batching_laws::the_longest_row_is_a_row;
use crate::error::Failure;
use crate::openjev::model::{
    built, load_failure, Calibration, EncoderConfig, InputView, OpenJev, OpenJevBuilder,
    OpenJevConfig,
};
use crate::openjev::predict::{id_rows, row_lens, start_of, OpenJevBatch};
use crate::openjev::prompt::formatted;
use crate::device::{DType, Device};
use crate::table::{has_key, place};
use crate::text::decimal;
use crate::tokens::{encoding, positions, positions_are_exact, token_id};
use crate::types::Question;
use tokenizers::Tokenizer;
use vstd::prelude::*;

verus! {

/// Marker `k` is the place of the `k`-th class token from the left.
pub open spec fn points_at(ids: Seq<u32>, token: u32, markers: Seq<usize>) -> bool {
    &&& forall|k: int|
        0 <= k < markers.len() ==> (#[trigger] markers[k]) < ids.len() && ids[markers[k] as int]
            == token
    &&& forall|j: int, k: int|
        0 <= j < k < markers.len() ==> (#[trigger] markers[j]) < (#[trigger] markers[k])
    &&& forall|i: int|
        0 <= i < ids.len() && #[trigger] ids[i] == token ==> exists|k: int|
            0 <= k < markers.len() && #[trigger] markers[k] == i
}

/// The positions of a token point at it.
pub proof fn positions_point(ids: Seq<u32>, token: u32)
    requires
        ids.len() <= usize::MAX,
    ensures
        points_at(ids, token, positions(ids, token)),
{
    positions_are_exact(ids, token);
    let markers = positions(ids, token);
    assert forall|k: int| 0 <= k < markers.len() implies (#[trigger] markers[k]) < ids.len()
        && ids[markers[k] as int] == token by {
        let i = markers[k] as int;
        assert(markers.contains(i as usize));
        assert(ids[i] == token);
    }
    assert forall|i: int| 0 <= i < ids.len() && #[trigger] ids[i] == token implies exists|k: int|
        0 <= k < markers.len() && #[trigger] markers[k] == i by {
        assert(markers.contains(i as usize));
        let k = choose|k: int| 0 <= k < markers.len() && markers[k] == i as usize;
        assert(markers[k] == i);
    }
}

/// An input holds the prompt of its question, some encoding of that very
/// prompt with special tokens, the candidates of the prompt, and for each of
/// them, in order, the place of its marker. The separator is among the tokens.
pub proof fn inputs_point_at_their_candidates(
    model: &OpenJev,
    state: Seq<char>,
    id: Seq<char>,
    q: &Question,
    input: InputView,
)
    requires
        model.may_build(state, id, q, Ok(input)),
        input.ids.len() <= usize::MAX,
    ensures
        formatted(state, id, q, model.config.max_num_classes as nat) is Ok,
        formatted(state, id, q, model.config.max_num_classes as nat)->Ok_0 == (
            input.prompt,
            input.candidates,
        ),
        encoding(model.tokenizer, input.prompt, true, Ok(input.ids)),
        input.markers.len() == input.candidates.len(),
        points_at(input.ids, model.config.class_token_index, input.markers),
        exists|i: int|
            0 <= i < input.ids.len() && #[trigger] input.ids[i] == model.config.text_token_index,
{
    let made = formatted(state, id, q, model.config.max_num_classes as nat)->Ok_0;
    let encoded = choose|encoded: Result<Seq<u32>, Seq<char>>|
        #[trigger] encoding(model.tokenizer, made.0, true, encoded) && Ok::<InputView, Failure>(
            input,
        ) == (match encoded {
            Err(message) => Err(Failure::Tokenizer(message)),
            Ok(ids) => built(
                made.0,
                made.1,
                id,
                ids,
                model.config.class_token_index,
                model.config.text_token_index,
            ),
        });
    assert(encoded is Ok);
    assert(input.ids == encoded->Ok_0);
    positions_point(input.ids, model.config.class_token_index);
    assert(input.ids.contains(model.config.text_token_index));
}

/// A question whose markers or separator were cut off is refused by name, and
/// only such a question is refused once its prompt was encoded.
pub proof fn cut_headers_are_refused(
    prompt: Seq<char>,
    candidates: Seq<Seq<char>>,
    id: Seq<char>,
    ids: Seq<u32>,
    class_token: u32,
    text_token: u32,
    markers: Seq<usize>,
)
    requires
        ids.len() <= usize::MAX,
        points_at(ids, class_token, markers),
    ensures
        match built(prompt, candidates, id, ids, class_token, text_token) {
            Ok(input) => {
                &&& markers.len() == candidates.len()
                &&& exists|i: int| 0 <= i < ids.len() && #[trigger] ids[i] == text_token
                &&& input.prompt == prompt
                &&& input.candidates == candidates
                &&& input.ids == ids
                &&& input.markers == markers
            },
            Err(failure) => {
                &&& markers.len() != candidates.len() || forall|i: int|
                    0 <= i < ids.len() ==> #[trigger] ids[i] != text_token
                &&& failure == Failure::Question {
                    id,
                    reason: "candidate header was truncated; shorten the descriptions"@,
                }
            },
        },
{
    let found = positions(ids, class_token);
    positions_point(ids, class_token);
    pointers_are_unique(ids, class_token, markers, found);
}

/// There is one list of places that points at a token.
pub proof fn pointers_are_unique(ids: Seq<u32>, token: u32, a: Seq<usize>, b: Seq<usize>)
    requires
        points_at(ids, token, a),
        points_at(ids, token, b),
    ensures
        a == b,
{
    pointers_agree(ids, token, a, b, a.len() as int);
    pointers_agree(ids, token, b, a, b.len() as int);
    assert(a =~= b);
}

proof fn pointers_agree(ids: Seq<u32>, token: u32, a: Seq<usize>, b: Seq<usize>, n: int)
    requires
        points_at(ids, token, a),
        points_at(ids, token, b),
        0 <= n <= a.len(),
    ensures
        n <= b.len(),
        forall|k: int| 0 <= k < n ==> #[trigger] a[k] == b[k],
    decreases n,
{
    if n > 0 {
        let m = n - 1;
        pointers_agree(ids, token, a, b, m);
        let i = a[m] as int;
        assert(ids[i] == token);
        let k = choose|k: int| 0 <= k < b.len() && #[trigger] b[k] == i;
        if k < m {
            assert(a[k] == b[k]);
            assert(a[k] < a[m]);
        }
        assert(k >= m);
        if k > m {
            assert(b[m] < b[k]);
            let j = b[m] as int;
            assert(ids[j] == token);
            let l = choose|l: int| 0 <= l < a.len() && #[trigger] a[l] == j;
            if l < m {
                assert(a[l] == b[l]);
                assert(b[l] < b[m]);
            } else if l > m {
                assert(a[m] < a[l]);
            }
        }
    }
}

/// A checkpoint is loaded where every one of its settings is the one the model
/// is written for, and for no other.
pub proof fn loaded_checkpoints_fit(
    builder: &OpenJevBuilder,
    cuda_built: bool,
    config: &OpenJevConfig,
    encoder: EncoderConfig,
    calibration: &Calibration,
    tokenizer: Tokenizer,
)
    ensures
        load_failure(builder, cuda_built, config, encoder, calibration, tokenizer) is None <==> {
            &&& builder.dtype == Some(DType::F32) || (builder.device == Device::Cuda && cuda_built
                && (builder.dtype is None || builder.dtype == Some(DType::BF16))) || (
            builder.dtype is None && !(builder.device == Device::Cuda && cuda_built))
            &&& builder.batch_size >= 1
            &&& 2 <= builder.max_len <= encoder.max_position_embeddings
            &&& config.model_type@ == "GLiClass"@
            &&& config.architecture_type@ == "uni-encoder"@
            &&& config.pooling_strategy@ == "first"@
            &&& config.class_token_pooling@ == "first"@
            &&& config.scorer_type@ == "simple"@
            &&& config.projector_hidden_act@ == "gelu"@
            &&& config.embed_class_token
            &&& config.prompt_first
            &&& !(config.extract_text_features || config.normalize_features || config.use_lstm
                || config.use_segment_embeddings || config.layer_wise || config.squeeze_layers)
            &&& config.encoder_layer_id == -1
            &&& encoder.hidden_size == config.hidden_size
            &&& 3 <= config.max_num_classes <= 25
            &&& 0 < calibration.temperature.bits < 0x7f80_0000
            &&& forall|i: int|
                0 <= i < calibration.per_k@.len() ==> 0 < (#[trigger] calibration.per_k@[i]).1.bits
                    < 0x7f80_0000
            &&& token_id(tokenizer, "<<LABEL>>"@) == Some(config.class_token_index)
            &&& token_id(tokenizer, "<<SEP>>"@) == Some(config.text_token_index)
        },
{
    assert forall|i: int| 0 <= i < calibration.per_k@.len() implies ((#[trigger] calibration.per_k@[i]).1.positive()
        <==> 0 < calibration.per_k@[i].1.bits < 0x7f80_0000) by {}
    assert(calibration.temperature.positive() <==> 0 < calibration.temperature.bits < 0x7f80_0000);
    if calibration.valid() {
        assert forall|i: int| 0 <= i < calibration.per_k@.len() implies 0 < (
        #[trigger] calibration.per_k@[i]).1.bits < 0x7f80_0000 by {
            assert(calibration.per_k@[i].1.positive());
        }
    }
}

/// The temperature is the one that stands under the number of candidates, or
/// the common one where none does.
pub proof fn temperatures_go_by_the_number_of_candidates(calibration: &Calibration, k: nat)
    requires
        calibration.per_k.wf(),
    ensures
        forall|i: int|
            0 <= i < calibration.per_k@.len() && (#[trigger] calibration.per_k@[i]).0 == decimal(k)
                ==> calibration.temperature_for(k) == calibration.per_k@[i].1,
        (forall|i: int|
            0 <= i < calibration.per_k@.len() ==> (#[trigger] calibration.per_k@[i]).0 != decimal(
                k,
            )) ==> calibration.temperature_for(k) == calibration.temperature,
{
    calibration.per_k.keys_are_distinct();
    let entries = calibration.per_k@;
    assert forall|i: int| 0 <= i < entries.len() && (#[trigger] entries[i]).0 == decimal(
        k,
    ) implies calibration.temperature_for(k) == entries[i].1 by {
        assert(has_key(entries, decimal(k)));
        assert(place(entries, decimal(k)) == i);
    }
}

/// A batch holds the tokens of each input in a row of its own, as long as the
/// longest input, with padding behind them; the mask says which are tokens.
pub proof fn batches_hold_each_input_in_a_row(
    batch: &OpenJevBatch,
    inputs: Seq<InputView>,
    pad: u32,
    packed: bool,
    i: int,
    j: int,
)
    requires
        batch.lays_out(inputs, pad, packed),
        0 <= i < inputs.len(),
        0 <= j < batch.len,
    ensures
        batch.rows == inputs.len(),
        inputs[i].ids.len() <= batch.len,
        0 <= i * batch.len + j < batch.ids@.len(),
        batch.ids@.len() == batch.rows * batch.len,
        batch.mask@.len() == batch.rows * batch.len,
        batch.ids@[i * batch.len + j] == if j < inputs[i].ids.len() {
            inputs[i].ids[j]
        } else {
            pad
        },
        batch.mask@[i * batch.len + j] == if j < inputs[i].ids.len() {
            1u32
        } else {
            0u32
        },
        exists|l: int| 0 <= l < inputs.len() && (#[trigger] inputs[l]).ids.len() == batch.len,
{
    let rows = id_rows(inputs);
    longest_bounds(rows);
    assert(rows[i] == inputs[i].ids);
    padded_at(rows, longest(rows), pad, i, j);
    let marks = all_ones(rows);
    assert forall|k: int| 0 <= k < marks.len() implies (#[trigger] marks[k]).len() <= longest(
        rows,
    ) by {
        assert(marks[k] == ones(rows[k]));
    }
    padded_at(marks, longest(rows), 0, i, j);
    assert(marks[i] == ones(rows[i]));
    let l = the_longest_row_is_a_row(rows);
    assert(inputs[l].ids == rows[l]);
}

/// Scores are read where the states of an input's own markers stand. Where
/// states are packed, those of an input start where those of the input before
/// it end; otherwise where its row starts.
pub proof fn scores_are_read_at_the_markers(
    batch: &OpenJevBatch,
    inputs: Seq<InputView>,
    pad: u32,
    packed: bool,
    i: int,
    k: int,
)
    requires
        batch.lays_out(inputs, pad, packed),
        0 <= i < inputs.len(),
        0 <= k < inputs[i].markers.len(),
        batch.starts@[i] + inputs[i].markers[k] <= u32::MAX,
    ensures
        batch.packed == packed,
        batch.lens@[i] == inputs[i].ids.len() as usize,
        batch.markers@[i]@.len() == inputs[i].markers.len(),
        batch.markers@[i]@[k] == batch.starts@[i] + inputs[i].markers[k],
        batch.starts@[0] == 0,
        packed && i > 0 ==> batch.starts@[i] == batch.starts@[i - 1] + batch.lens@[i - 1],
        !packed ==> batch.starts@[i] == i * batch.len,
{
    let rows = id_rows(inputs);
    assert(rows[i] == inputs[i].ids);
    assert(batch.starts@[i] == start_of(rows, packed, i));
    assert(batch.starts@[0] == start_of(rows, packed, 0));
    assert(batch.markers@[i]@ == inputs[i].markers.map_values(
        |m: usize| (start_of(rows, packed, i) + m) as u32,
    ));
    assert(total(row_lens(rows), 0) == 0);
    assert(0 * longest(rows) == 0);
    if i > 0 {
        assert(batch.starts@[i - 1] == start_of(rows, packed, i - 1));
    }
}

} // verus!
