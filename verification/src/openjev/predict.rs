//! Evaluating OpenJev inputs: how a batch is laid out for the encoder, and
//! what is read off its scores.
use crate::batching::{
    all_ones, chunks, chunks_step, longest, longest_bounds, ones, padded, push_mask, push_row,
    total,
};
use crate::device::{DType, Device};
use crate::error::{config_error, Failure, SystemOneError};
use crate::openjev::model::{InputView, OpenJev, OpenJevInput};
use crate::tokens::positions_are_exact;
use vstd::prelude::*;

verus! {

/// One forward pass: rows of tokens and where to read the scores off.
pub struct OpenJevBatch {
    /// How many inputs are evaluated together.
    pub rows: usize,
    /// The length of the longest of them.
    pub len: usize,
    /// Tokens, row after row, filled up to `len`.
    pub ids: Vec<u32>,
    /// One where a token is, zero where a row was filled up.
    pub mask: Vec<u32>,
    /// Whether the encoder's states come without the filled-up places.
    pub packed: bool,
    /// The length of each input.
    pub lens: Vec<usize>,
    /// Where the states of each input start.
    pub starts: Vec<usize>,
    /// Where the states of each input's markers stand.
    pub markers: Vec<Vec<u32>>,
}

/// The tokens of each input.
pub open spec fn id_rows(inputs: Seq<InputView>) -> Seq<Seq<u32>> {
    inputs.map_values(|x: InputView| x.ids)
}

/// The inputs with their values as sequences.
pub open spec fn views(inputs: Seq<OpenJevInput>) -> Seq<InputView> {
    inputs.map_values(|x: OpenJevInput| x@)
}

/// The lengths of rows.
pub open spec fn row_lens(rows: Seq<Seq<u32>>) -> Seq<usize> {
    rows.map_values(|r: Seq<u32>| r.len() as usize)
}

/// Where the states of input `i` start: behind the tokens of the inputs
/// before it where states are packed, at the start of its row otherwise.
pub open spec fn start_of(rows: Seq<Seq<u32>>, packed: bool, i: int) -> int {
    if packed {
        total(row_lens(rows), i as nat) as int
    } else {
        i * longest(rows)
    }
}

impl OpenJevBatch {
    /// The batch lays `inputs` out.
    pub open spec fn lays_out(&self, inputs: Seq<InputView>, pad: u32, packed: bool) -> bool {
        let rows = id_rows(inputs);
        &&& self.rows == inputs.len()
        &&& self.len == longest(rows)
        &&& self.ids@ == padded(rows, longest(rows), pad)
        &&& self.mask@ == padded(all_ones(rows), longest(rows), 0)
        &&& self.packed == packed
        &&& self.lens@ == row_lens(rows)
        &&& self.starts@.len() == inputs.len()
        &&& self.markers@.len() == inputs.len()
        &&& forall|i: int|
            0 <= i < inputs.len() ==> #[trigger] self.starts@[i] == start_of(rows, packed, i)
        &&& forall|i: int|
            0 <= i < inputs.len() ==> (#[trigger] self.markers@[i])@ == inputs[i].markers.map_values(
                |m: usize| (start_of(rows, packed, i) + m) as u32,
            )
    }
}

impl OpenJev {
    /// Whether the encoder's states come without the filled-up places.
    pub open spec fn packs(&self) -> bool {
        self.device == Device::Cuda && self.dtype == DType::BF16
    }

    /// Lays out some valid inputs for one forward pass.
    fn lay_out(&self, inputs: &Vec<OpenJevInput>, from: usize, to: usize) -> (batch: OpenJevBatch)
        requires
            from <= to <= inputs.len(),
            (to - from) * self.max_len <= u32::MAX,
            forall|i: int| from <= i < to ==> self.valid_input((#[trigger] inputs@[i])@),
        ensures
            batch.lays_out(views(inputs@).subrange(from as int, to as int), self.pad, self.packs()),
    {
        let packed = self.device == Device::Cuda && self.dtype == DType::BF16;
        let ghost part = views(inputs@).subrange(from as int, to as int);
        let ghost rows = id_rows(part);
        let rows_count: usize = to - from;
        let mut len: usize = 0;
        let mut lens: Vec<usize> = Vec::new();
        let mut i: usize = from;
        while i < to
            invariant
                from <= i <= to <= inputs.len(),
                part == views(inputs@).subrange(from as int, to as int),
                rows == id_rows(part),
                forall|k: int| from <= k < to ==> self.valid_input((#[trigger] inputs@[k])@),
                len == longest(rows.take(i - from)),
                len <= self.max_len,
                lens@ == row_lens(rows).take(i - from),
            decreases to - i,
        {
            let n: usize = inputs[i].ids.len();
            proof {
                assert(self.valid_input(inputs@[i as int]@));
                assert(rows[i - from] == inputs@[i as int].ids@);
                assert(rows.take(i + 1 - from).drop_last() =~= rows.take(i - from));
                assert(rows.take(i + 1 - from).last() == rows[i - from]);
            }
            if n > len {
                len = n;
            }
            lens.push(n);
            assert(lens@ =~= row_lens(rows).take(i + 1 - from));
            i += 1;
        }
        proof {
            assert(rows.take(rows.len() as int) =~= rows);
            assert(row_lens(rows).take(rows.len() as int) =~= row_lens(rows));
            longest_bounds(rows);
        }
        let mut ids: Vec<u32> = Vec::new();
        let mut mask: Vec<u32> = Vec::new();
        let mut starts: Vec<usize> = Vec::new();
        let mut markers: Vec<Vec<u32>> = Vec::new();
        let mut offset: usize = 0;
        let mut at: usize = 0;
        let mut r: usize = 0;
        while r < rows_count
            invariant
                from + rows_count == to,
                to <= inputs.len(),
                r <= rows_count,
                rows_count * self.max_len <= u32::MAX,
                part == views(inputs@).subrange(from as int, to as int),
                rows == id_rows(part),
                forall|k: int| from <= k < to ==> self.valid_input((#[trigger] inputs@[k])@),
                len == longest(rows),
                len <= self.max_len,
                forall|k: int| 0 <= k < rows.len() ==> (#[trigger] rows[k]).len() <= len,
                lens@ == row_lens(rows),
                packed == self.packs(),
                at == r * len,
                offset == total(row_lens(rows), r as nat),
                offset <= r * self.max_len,
                ids@ == padded(rows.take(r as int), len as nat, self.pad),
                mask@ == padded(all_ones(rows).take(r as int), len as nat, 0),
                starts@.len() == r,
                markers@.len() == r,
                forall|k: int| 0 <= k < r ==> #[trigger] starts@[k] == start_of(rows, packed, k),
                forall|k: int|
                    0 <= k < r ==> (#[trigger] markers@[k])@ == part[k].markers.map_values(
                        |m: usize| (start_of(rows, packed, k) + m) as u32,
                    ),
            decreases rows_count - r,
        {
            let input = &inputs[from + r];
            proof {
                assert(self.valid_input(inputs@[from + r]@));
                assert(part[r as int] == input@);
                assert(rows[r as int] == input.ids@);
                assert(rows.take(r + 1).drop_last() =~= rows.take(r as int));
                assert(rows.take(r + 1).last() == rows[r as int]);
                assert(all_ones(rows).take(r + 1).drop_last() =~= all_ones(rows).take(r as int));
                assert(all_ones(rows).take(r + 1).last() == ones(rows[r as int]));
                assert((r + 1) * len == r * len + len) by (nonlinear_arith);
                assert((r + 1) * self.max_len == r * self.max_len + self.max_len)
                    by (nonlinear_arith);
                assert((r + 1) * self.max_len <= rows_count * self.max_len) by (nonlinear_arith)
                    requires
                        r + 1 <= rows_count,
                ;
                assert(r * len <= r * self.max_len) by (nonlinear_arith)
                    requires
                        len <= self.max_len,
                ;
                positions_are_exact(input.ids@, self.config.class_token_index);
            }
            push_row(&mut ids, &input.ids, len, self.pad);
            push_mask(&mut mask, &input.ids, len);
            let start: usize = if packed {
                offset
            } else {
                at
            };
            let mut places: Vec<u32> = Vec::new();
            let mut m: usize = 0;
            while m < input.markers.len()
                invariant
                    m <= input.markers.len(),
                    start + input.ids@.len() <= u32::MAX,
                    forall|k: int|
                        0 <= k < input.markers.len() ==> #[trigger] input.markers@[k]
                            < input.ids@.len(),
                    places@ == input.markers@.map_values(|x: usize| (start + x) as u32).take(
                        m as int,
                    ),
                decreases input.markers.len() - m,
            {
                assert(input.markers@[m as int] < input.ids@.len());
                places.push((start + input.markers[m]) as u32);
                assert(places@ =~= input.markers@.map_values(|x: usize| (start + x) as u32).take(
                    m + 1,
                ));
                m += 1;
            }
            assert(places@ =~= part[r as int].markers.map_values(
                |m: usize| (start_of(rows, packed, r as int) + m) as u32,
            ));
            starts.push(start);
            markers.push(places);
            offset += lens[r];
            at += len;
            r += 1;
        }
        proof {
            assert(rows.take(rows.len() as int) =~= rows);
            assert(all_ones(rows).take(rows.len() as int) =~= all_ones(rows));
        }
        OpenJevBatch { rows: rows_count, len, ids, mask, packed, lens, starts, markers }
    }

    /// Checks prepared inputs, and lays them out in batches for the encoder.
    pub fn predict(&self, inputs: &Vec<OpenJevInput>) -> (result: Result<
        Vec<OpenJevBatch>,
        SystemOneError,
    >)
        requires
            self.wf(),
            inputs.len() * self.max_len <= u32::MAX || self.batch_size * self.max_len <= u32::MAX,
        ensures
            result is Ok <==> forall|i: int|
                0 <= i < inputs.len() ==> self.valid_input((#[trigger] inputs@[i])@),
            result matches Err(e) ==> e@ == Failure::Config("invalid prepared OpenJev input"@),
            result matches Ok(batches) ==> {
                let parts = chunks(views(inputs@), self.batch_size as nat);
                &&& batches@.len() == parts.len()
                &&& forall|k: int|
                    0 <= k < parts.len() ==> (#[trigger] batches@[k]).lays_out(
                        parts[k],
                        self.pad,
                        self.packs(),
                    )
            },
    {
        let mut i: usize = 0;
        while i < inputs.len()
            invariant
                i <= inputs.len(),
                forall|k: int| 0 <= k < i ==> self.valid_input((#[trigger] inputs@[k])@),
            decreases inputs.len() - i,
        {
            if !self.accepts(&inputs[i]) {
                assert(!self.valid_input(inputs@[i as int]@));
                return Err(config_error("invalid prepared OpenJev input"));
            }
            i += 1;
        }
        let ghost all = views(inputs@);
        let ghost parts = chunks(all, self.batch_size as nat);
        let mut batches: Vec<OpenJevBatch> = Vec::new();
        let mut from: usize = 0;
        assert(all.skip(0) =~= all);
        while from < inputs.len()
            invariant
                self.wf(),
                inputs.len() * self.max_len <= u32::MAX || self.batch_size * self.max_len
                    <= u32::MAX,
                from <= inputs.len(),
                all == views(inputs@),
                parts == chunks(all, self.batch_size as nat),
                forall|k: int|
                    0 <= k < inputs.len() ==> self.valid_input((#[trigger] inputs@[k])@),
                batches@.len() <= parts.len(),
                parts.skip(batches@.len() as int) == chunks(
                    all.skip(from as int),
                    self.batch_size as nat,
                ),
                forall|k: int|
                    0 <= k < batches@.len() ==> (#[trigger] batches@[k]).lays_out(
                        parts[k],
                        self.pad,
                        self.packs(),
                    ),
            decreases inputs.len() - from,
        {
            let to: usize = if inputs.len() - from <= self.batch_size {
                inputs.len()
            } else {
                from + self.batch_size
            };
            let ghost rest = all.skip(from as int);
            let ghost done = batches@.len() as int;
            proof {
                chunks_step(rest, self.batch_size as nat);
                assert(rest.take(to - from) =~= all.subrange(from as int, to as int));
                assert(rest.skip(to - from) =~= all.skip(to as int));
                assert(parts.skip(done).len() >= 1);
                assert(parts.skip(done)[0] == parts[done]);
                assert(parts.skip(done).skip(1) =~= parts.skip(done + 1));
                assert((seq![rest.take(to - from)] + chunks(
                    rest.skip(to - from),
                    self.batch_size as nat,
                )).skip(1) =~= chunks(rest.skip(to - from), self.batch_size as nat));
                assert((to - from) * self.max_len <= u32::MAX) by (nonlinear_arith)
                    requires
                        0 <= to - from <= self.batch_size,
                        0 <= to - from <= inputs.len(),
                        inputs.len() * self.max_len <= u32::MAX || self.batch_size * self.max_len
                            <= u32::MAX,
                ;
            }
            let batch = self.lay_out(inputs, from, to);
            batches.push(batch);
            from = to;
        }
        proof {
            assert(all.skip(all.len() as int).len() == 0);
            assert(parts.skip(batches@.len() as int).len() == 0);
        }
        Ok(batches)
    }
}

} // verus!
