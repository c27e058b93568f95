//! Evaluating inputs: which of them share a forward pass, how they are laid
//! out, and what is read off the scores.
use crate::batching::{
    all_ones, chunks, chunks_step, longest, longest_bounds, ones, padded, push_mask, push_row,
};
use crate::error::{config_error, Failure, SystemOneError};
use crate::gliner_decide::input::{GlinerDecide, GlinerDecideInput, InputView};
use crate::gliner_decide::schema::{GlinerTask, TaskView};
use crate::ordering::{in_order, is_ranking, numbers_below, order_by_size, rank};
use crate::tokens::{find_positions, positions};
use vstd::prelude::*;

verus! {

/// How many positions the first `n` tasks have.
pub open spec fn marker_total(markers: Seq<Seq<usize>>, n: nat) -> nat
    decreases n,
{
    if n == 0 {
        0
    } else {
        marker_total(markers, (n - 1) as nat) + markers[n - 1].len()
    }
}

/// The positions of a task are positions of label markers, one per label.
pub open spec fn marks_labels(
    ids: Seq<u32>,
    task: TaskView,
    positions: Seq<usize>,
    label: u32,
) -> bool {
    &&& positions.len() == task.labels.len()
    &&& forall|j: int|
        0 <= j < positions.len() ==> (#[trigger] positions[j]) < ids.len() && ids[positions[j] as int]
            == label
}

impl GlinerDecide {
    /// An input that the model can be evaluated on.
    pub open spec fn valid_input(&self, input: InputView) -> bool {
        &&& 0 < input.ids.len() <= self.max_len
        &&& input.markers.len() == input.tasks.len()
        &&& forall|i: int| 0 <= i < input.ids.len() ==> #[trigger] input.ids[i] < self.vocab_size
        &&& forall|i: int|
            0 <= i < input.tasks.len() ==> marks_labels(
                input.ids,
                input.tasks[i],
                #[trigger] input.markers[i],
                self.label,
            )
        &&& marker_total(input.markers, input.markers.len()) == positions(
            input.ids,
            self.label,
        ).len()
    }

    /// Whether positions are positions of label markers, one per label.
    fn check_task(&self, ids: &Vec<u32>, task: &GlinerTask, found: &Vec<usize>) -> (yes: bool)
        ensures
            yes == marks_labels(ids@, task@, found@, self.label),
    {
        if found.len() != task.labels.len() {
            return false;
        }
        let mut j: usize = 0;
        while j < found.len()
            invariant
                j <= found.len(),
                forall|k: int|
                    0 <= k < j ==> (#[trigger] found@[k]) < ids@.len() && ids@[found@[k] as int]
                        == self.label,
            decreases found.len() - j,
        {
            let p: usize = found[j];
            if p >= ids.len() || ids[p] != self.label {
                assert(!(found@[j as int] < ids@.len() && ids@[found@[j as int] as int]
                    == self.label));
                return false;
            }
            j += 1;
        }
        true
    }

    /// Whether the model can be evaluated on this input.
    pub fn accepts(&self, input: &GlinerDecideInput) -> (yes: bool)
        ensures
            yes == self.valid_input(input@),
    {
        let ghost seen = input@;
        if input.ids.len() == 0 || input.ids.len() > self.max_len || input.markers.len()
            != input.tasks.len() {
            return false;
        }
        let mut k: usize = 0;
        while k < input.ids.len()
            invariant
                k <= input.ids.len(),
                seen == input@,
                forall|i: int| 0 <= i < k ==> #[trigger] seen.ids[i] < self.vocab_size,
            decreases input.ids.len() - k,
        {
            if input.ids[k] as usize >= self.vocab_size {
                assert(seen.ids[k as int] >= self.vocab_size);
                return false;
            }
            k += 1;
        }
        let count: usize = find_positions(&input.ids, self.label).len();
        let mut total: usize = 0;
        let mut excess = false;
        let mut i: usize = 0;
        while i < input.tasks.len()
            invariant
                i <= input.tasks.len(),
                seen == input@,
                input.markers.len() == input.tasks.len(),
                total <= count,
                excess ==> marker_total(seen.markers, i as nat) > count,
                !excess ==> total == marker_total(seen.markers, i as nat),
                forall|t: int|
                    0 <= t < i ==> marks_labels(
                        seen.ids,
                        seen.tasks[t],
                        #[trigger] seen.markers[t],
                        self.label,
                    ),
            decreases input.tasks.len() - i,
        {
            assert(seen.markers[i as int] == input.markers@[i as int]@);
            assert(seen.tasks[i as int] == input.tasks@[i as int]@);
            if !self.check_task(&input.ids, &input.tasks[i], &input.markers[i]) {
                return false;
            }
            let here: usize = input.markers[i].len();
            if excess || here > count - total {
                excess = true;
            } else {
                total += here;
            }
            i += 1;
        }
        !excess && total == count
    }
}

/// One forward pass: rows of tokens and where to read the scores off.
pub struct GlinerBatch {
    /// The inputs that are evaluated together, by number.
    pub requests: Vec<usize>,
    /// The length of the longest of them.
    pub len: usize,
    /// Tokens, row after row, filled up with zeros to `len`.
    pub ids: Vec<u32>,
    /// One where a token is, zero where a row was filled up.
    pub mask: Vec<u32>,
    /// Positions of the label markers in each row, per task.
    pub markers: Vec<Vec<Vec<u32>>>,
}

/// The inputs with their values as sequences.
pub open spec fn views(inputs: Seq<GlinerDecideInput>) -> Seq<InputView> {
    inputs.map_values(|x: GlinerDecideInput| x@)
}

/// The tokens of the chosen inputs.
pub open spec fn chosen_rows(inputs: Seq<InputView>, chosen: Seq<usize>) -> Seq<Seq<u32>> {
    chosen.map_values(|i: usize| inputs[i as int].ids)
}

/// Positions as 32-bit numbers.
pub open spec fn narrow(found: Seq<usize>) -> Seq<u32> {
    found.map_values(|p: usize| p as u32)
}

/// Positions of a task as 32-bit numbers.
fn narrow_all(found: &Vec<usize>) -> (narrowed: Vec<u32>)
    requires
        forall|j: int| 0 <= j < found.len() ==> #[trigger] found@[j] <= u32::MAX,
    ensures
        narrowed@ == narrow(found@),
{
    let mut narrowed: Vec<u32> = Vec::new();
    let mut j: usize = 0;
    while j < found.len()
        invariant
            j <= found.len(),
            narrowed@ == narrow(found@).take(j as int),
        decreases found.len() - j,
    {
        narrowed.push(found[j] as u32);
        assert(narrowed@ =~= narrow(found@).take(j + 1));
        j += 1;
    }
    assert(narrow(found@).take(found@.len() as int) =~= narrow(found@));
    narrowed
}

/// The positions of a row's markers are those of the input.
pub open spec fn row_markers(row: Seq<Vec<u32>>, input: InputView) -> bool {
    &&& row.len() == input.markers.len()
    &&& forall|t: int| 0 <= t < row.len() ==> (#[trigger] row[t])@ == narrow(input.markers[t])
}

impl GlinerBatch {
    /// The batch lays the chosen inputs out.
    pub open spec fn lays_out(&self, inputs: Seq<InputView>, chosen: Seq<usize>) -> bool {
        let rows = chosen_rows(inputs, chosen);
        &&& self.requests@ == chosen
        &&& self.len == longest(rows)
        &&& self.ids@ == padded(rows, longest(rows), 0)
        &&& self.mask@ == padded(all_ones(rows), longest(rows), 0)
        &&& self.markers@.len() == chosen.len()
        &&& forall|r: int|
            0 <= r < chosen.len() ==> row_markers(
                (#[trigger] self.markers@[r])@,
                inputs[chosen[r] as int],
            )
    }
}

/// The lengths of inputs.
pub open spec fn input_lens(inputs: Seq<InputView>) -> Seq<usize> {
    inputs.map_values(|x: InputView| x.ids.len() as usize)
}

/// In which order inputs are evaluated, and in which batches.
pub struct GlinerPlan {
    /// The inputs by number, shorter ones first.
    pub order: Vec<usize>,
    /// Where each input stands in the order.
    pub ranks: Vec<usize>,
    pub batches: Vec<GlinerBatch>,
}

impl GlinerPlan {
    /// Similar lengths share a batch: every row is filled up to its batch's
    /// longest. Each input is evaluated once and found again by its rank.
    pub open spec fn plans(&self, inputs: Seq<InputView>, batch_size: nat) -> bool {
        let parts = chunks(self.order@, batch_size);
        &&& numbers_below(self.order@, inputs.len())
        &&& in_order(input_lens(inputs), self.order@)
        &&& is_ranking(self.order@, self.ranks@)
        &&& self.batches@.len() == parts.len()
        &&& forall|b: int|
            0 <= b < parts.len() ==> (#[trigger] self.batches@[b]).lays_out(inputs, parts[b])
    }
}

impl GlinerDecide {
    /// Lays out the positions of an input's markers.
    fn narrow_markers(&self, input: &GlinerDecideInput) -> (row: Vec<Vec<u32>>)
        requires
            self.valid_input(input@),
            self.max_len <= u32::MAX,
        ensures
            row_markers(row@, input@),
    {
        let ghost seen = input@;
        let mut row: Vec<Vec<u32>> = Vec::new();
        let mut t: usize = 0;
        while t < input.markers.len()
            invariant
                t <= input.markers.len(),
                seen == input@,
                self.valid_input(seen),
                self.max_len <= u32::MAX,
                row.len() == t,
                forall|k: int| 0 <= k < t ==> (#[trigger] row@[k])@ == narrow(seen.markers[k]),
            decreases input.markers.len() - t,
        {
            assert(seen.markers[t as int] == input.markers@[t as int]@);
            assert(marks_labels(
                seen.ids,
                seen.tasks[t as int],
                seen.markers[t as int],
                self.label,
            ));
            row.push(narrow_all(&input.markers[t]));
            t += 1;
        }
        row
    }

    /// Lays out some valid inputs for one forward pass.
    fn lay_out(
        &self,
        inputs: &Vec<GlinerDecideInput>,
        order: &Vec<usize>,
        from: usize,
        to: usize,
    ) -> (batch: GlinerBatch)
        requires
            from <= to <= order.len(),
            self.max_len <= u32::MAX,
            forall|i: int| 0 <= i < inputs.len() ==> self.valid_input((#[trigger] inputs@[i])@),
            forall|i: int| 0 <= i < order.len() ==> #[trigger] order@[i] < inputs.len(),
        ensures
            batch.lays_out(views(inputs@), order@.subrange(from as int, to as int)),
    {
        let ghost chosen = order@.subrange(from as int, to as int);
        let ghost rows = chosen_rows(views(inputs@), chosen);
        let mut requests: Vec<usize> = Vec::new();
        let mut len: usize = 0;
        let mut i: usize = from;
        while i < to
            invariant
                from <= i <= to <= order.len(),
                chosen == order@.subrange(from as int, to as int),
                rows == chosen_rows(views(inputs@), chosen),
                forall|k: int| 0 <= k < order.len() ==> #[trigger] order@[k] < inputs.len(),
                requests@ == chosen.take(i - from),
                len == longest(rows.take(i - from)),
            decreases to - i,
        {
            let n: usize = inputs[order[i]].ids.len();
            proof {
                assert(chosen[i - from] == order@[i as int]);
                assert(rows[i - from] == inputs@[order@[i as int] as int].ids@);
                assert(rows.take(i + 1 - from).drop_last() =~= rows.take(i - from));
                assert(rows.take(i + 1 - from).last() == rows[i - from]);
            }
            if n > len {
                len = n;
            }
            requests.push(order[i]);
            assert(requests@ =~= chosen.take(i + 1 - from));
            i += 1;
        }
        proof {
            assert(rows.take(rows.len() as int) =~= rows);
            assert(chosen.take(chosen.len() as int) =~= chosen);
            longest_bounds(rows);
        }
        let mut ids: Vec<u32> = Vec::new();
        let mut mask: Vec<u32> = Vec::new();
        let mut markers: Vec<Vec<Vec<u32>>> = Vec::new();
        let mut r: usize = 0;
        while r < requests.len()
            invariant
                r <= requests.len(),
                requests@ == chosen,
                chosen == order@.subrange(from as int, to as int),
                from <= to <= order.len(),
                rows == chosen_rows(views(inputs@), chosen),
                self.max_len <= u32::MAX,
                forall|k: int|
                    0 <= k < inputs.len() ==> self.valid_input((#[trigger] inputs@[k])@),
                forall|k: int| 0 <= k < order.len() ==> #[trigger] order@[k] < inputs.len(),
                len == longest(rows),
                forall|k: int| 0 <= k < rows.len() ==> (#[trigger] rows[k]).len() <= len,
                ids@ == padded(rows.take(r as int), len as nat, 0),
                mask@ == padded(all_ones(rows).take(r as int), len as nat, 0),
                markers@.len() == r,
                forall|k: int|
                    0 <= k < r ==> row_markers(
                        (#[trigger] markers@[k])@,
                        views(inputs@)[chosen[k] as int],
                    ),
            decreases requests.len() - r,
        {
            assert(chosen[r as int] == order@[from + r]);
            let input = &inputs[requests[r]];
            proof {
                assert(rows[r as int] == input.ids@);
                assert(rows.take(r + 1).drop_last() =~= rows.take(r as int));
                assert(rows.take(r + 1).last() == rows[r as int]);
                assert(all_ones(rows).take(r + 1).drop_last() =~= all_ones(rows).take(r as int));
                assert(all_ones(rows).take(r + 1).last() == ones(rows[r as int]));
            }
            push_row(&mut ids, &input.ids, len, 0);
            push_mask(&mut mask, &input.ids, len);
            markers.push(self.narrow_markers(input));
            r += 1;
        }
        proof {
            assert(rows.take(rows.len() as int) =~= rows);
            assert(all_ones(rows).take(rows.len() as int) =~= all_ones(rows));
        }
        GlinerBatch { requests, len, ids, mask, markers }
    }

    /// Checks prepared inputs, and plans one forward pass per batch of
    /// inputs of similar lengths.
    pub fn predict(&self, inputs: &Vec<GlinerDecideInput>) -> (result: Result<
        GlinerPlan,
        SystemOneError,
    >)
        requires
            self.wf(),
            self.max_len <= u32::MAX,
        ensures
            result is Ok <==> forall|i: int|
                0 <= i < inputs.len() ==> self.valid_input((#[trigger] inputs@[i])@),
            result matches Err(e) ==> e@ == Failure::Config("invalid prepared GLiNER2 input"@),
            result matches Ok(plan) ==> plan.plans(views(inputs@), self.batch_size as nat),
    {
        let mut sizes: Vec<usize> = Vec::new();
        let mut i: usize = 0;
        while i < inputs.len()
            invariant
                i <= inputs.len(),
                sizes@ == input_lens(views(inputs@)).take(i as int),
                forall|k: int| 0 <= k < i ==> self.valid_input((#[trigger] inputs@[k])@),
            decreases inputs.len() - i,
        {
            if !self.accepts(&inputs[i]) {
                assert(!self.valid_input(inputs@[i as int]@));
                return Err(config_error("invalid prepared GLiNER2 input"));
            }
            sizes.push(inputs[i].ids.len());
            assert(sizes@ =~= input_lens(views(inputs@)).take(i + 1));
            i += 1;
        }
        assert(sizes@ =~= input_lens(views(inputs@)));
        let order = order_by_size(&sizes);
        let ranks = rank(&order);
        let ghost all = order@;
        let ghost parts = chunks(all, self.batch_size as nat);
        let mut batches: Vec<GlinerBatch> = Vec::new();
        let mut from: usize = 0;
        assert(all.skip(0) =~= all);
        while from < order.len()
            invariant
                self.wf(),
                self.max_len <= u32::MAX,
                from <= order.len(),
                all == order@,
                parts == chunks(all, self.batch_size as nat),
                forall|k: int|
                    0 <= k < inputs.len() ==> self.valid_input((#[trigger] inputs@[k])@),
                forall|k: int| 0 <= k < order.len() ==> #[trigger] order@[k] < inputs.len(),
                batches@.len() <= parts.len(),
                parts.skip(batches@.len() as int) == chunks(
                    all.skip(from as int),
                    self.batch_size as nat,
                ),
                forall|b: int|
                    0 <= b < batches@.len() ==> (#[trigger] batches@[b]).lays_out(
                        views(inputs@),
                        parts[b],
                    ),
            decreases order.len() - from,
        {
            let to: usize = if order.len() - from <= self.batch_size {
                order.len()
            } else {
                from + self.batch_size
            };
            let ghost rest = all.skip(from as int);
            let ghost done = batches@.len() as int;
            proof {
                chunks_step(rest, self.batch_size as nat);
                assert(rest.take(to - from) =~= all.subrange(from as int, to as int));
                assert(rest.skip(to - from) =~= all.skip(to as int));
                assert(parts.skip(done).len() >= 1);
                assert(parts.skip(done)[0] == parts[done]);
                assert(parts.skip(done).skip(1) =~= parts.skip(done + 1));
                assert((seq![rest.take(to - from)] + chunks(
                    rest.skip(to - from),
                    self.batch_size as nat,
                )).skip(1) =~= chunks(rest.skip(to - from), self.batch_size as nat));
            }
            let batch = self.lay_out(inputs, &order, from, to);
            batches.push(batch);
            from = to;
        }
        proof {
            assert(all.skip(all.len() as int).len() == 0);
            assert(parts.skip(batches@.len() as int).len() == 0);
        }
        Ok(GlinerPlan { order, ranks, batches })
    }
}

} // verus!
