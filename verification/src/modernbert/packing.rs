//! Sequences of different lengths, laid one behind the other.
use crate::batching::{total, total_grows};
use crate::tensor::Span;
use vstd::prelude::*;

verus! {

/// The greatest of the first `n` lengths.
pub open spec fn greatest(lens: Seq<usize>, n: nat) -> nat
    decreases n,
{
    if n == 0 {
        0
    } else {
        let before = greatest(lens, (n - 1) as nat);
        if lens[n - 1] > before {
            lens[n - 1] as nat
        } else {
            before
        }
    }
}

/// No length is above the greatest, which is one of them.
pub proof fn greatest_bounds(lens: Seq<usize>, n: nat, i: int)
    requires
        n <= lens.len(),
        0 <= i < n,
    ensures
        lens[i] <= greatest(lens, n),
        exists|k: int| 0 <= k < n && #[trigger] lens[k] == greatest(lens, n),
    decreases n,
{
    if n == 1 {
        assert(greatest(lens, 0) == 0);
        assert(lens[0] == greatest(lens, 1));
    } else {
        let m = (n - 1) as nat;
        if i < m {
            greatest_bounds(lens, m, i);
        } else {
            greatest_bounds(lens, m, 0);
        }
        if lens[n - 1] > greatest(lens, m) {
            assert(lens[n - 1] == greatest(lens, n));
        } else {
            let k = choose|k: int| 0 <= k < m && #[trigger] lens[k] == greatest(lens, m);
            assert(lens[k] == greatest(lens, n));
        }
    }
}

/// Finds the greatest length.
pub fn find_greatest(lens: &Vec<usize>) -> (n: usize)
    ensures
        n == greatest(lens@, lens@.len()),
{
    let mut best: usize = 0;
    let mut i: usize = 0;
    while i < lens.len()
        invariant
            i <= lens.len(),
            best == greatest(lens@, i as nat),
        decreases lens.len() - i,
    {
        if lens[i] > best {
            best = lens[i];
        }
        i += 1;
    }
    best
}

/// Where sequences start that are laid one behind the other, and how long the
/// longest is.
#[derive(Debug)]
pub struct SeqLens {
    /// One more than there are sequences: the last is where they all end.
    pub starts: Vec<u32>,
    /// At least one.
    pub longest: usize,
}

/// Sums lengths up. The sum has to fit 32 bits, as the kernels take it.
pub fn cumulative_seqlens(valid_lens: &Vec<usize>) -> (lens: SeqLens)
    requires
        total(valid_lens@, valid_lens@.len()) <= u32::MAX,
    ensures
        lens.starts@.len() == valid_lens@.len() + 1,
        forall|i: int|
            0 <= i <= valid_lens@.len() ==> #[trigger] lens.starts@[i] == total(
                valid_lens@,
                i as nat,
            ),
        lens.longest == if greatest(valid_lens@, valid_lens@.len()) == 0 {
            1
        } else {
            greatest(valid_lens@, valid_lens@.len())
        },
{
    let mut starts: Vec<u32> = vec![0u32];
    let mut sum: u32 = 0;
    let mut i: usize = 0;
    while i < valid_lens.len()
        invariant
            i <= valid_lens.len(),
            total(valid_lens@, valid_lens@.len()) <= u32::MAX,
            sum == total(valid_lens@, i as nat),
            starts.len() == i + 1,
            forall|k: int|
                0 <= k <= i ==> #[trigger] starts@[k] == total(valid_lens@, k as nat),
        decreases valid_lens.len() - i,
    {
        proof {
            total_grows(valid_lens@, (i + 1) as nat, valid_lens@.len());
        }
        sum += valid_lens[i] as u32;
        starts.push(sum);
        i += 1;
    }
    let best: usize = find_greatest(valid_lens);
    let longest: usize = if best == 0 {
        1
    } else {
        best
    };
    SeqLens { starts, longest }
}

/// The positions of the first `n` sequences' tokens, each counted from its own
/// sequence's start.
pub open spec fn positions(lens: Seq<usize>, n: nat) -> Seq<u32>
    decreases n,
{
    if n == 0 {
        Seq::empty()
    } else {
        positions(lens, (n - 1) as nat) + Seq::new(lens[n - 1] as nat, |j: int| j as u32)
    }
}

/// Numbers the tokens of each sequence from its start.
pub fn packed_position_ids(valid_lens: &Vec<usize>) -> (ids: Vec<u32>)
    requires
        total(valid_lens@, valid_lens@.len()) <= u32::MAX,
    ensures
        ids@ == positions(valid_lens@, valid_lens@.len()),
{
    let mut ids: Vec<u32> = Vec::new();
    let mut i: usize = 0;
    while i < valid_lens.len()
        invariant
            i <= valid_lens.len(),
            total(valid_lens@, valid_lens@.len()) <= u32::MAX,
            ids@ == positions(valid_lens@, i as nat),
        decreases valid_lens.len() - i,
    {
        proof {
            total_grows(valid_lens@, (i + 1) as nat, valid_lens@.len());
        }
        let len: usize = valid_lens[i];
        let ghost before = ids@;
        let ghost own = Seq::new(len as nat, |j: int| j as u32);
        let mut j: usize = 0;
        while j < len
            invariant
                j <= len <= u32::MAX,
                own == Seq::new(len as nat, |k: int| k as u32),
                ids@ == before + own.take(j as int),
            decreases len - j,
        {
            ids.push(j as u32);
            assert(ids@ =~= before + own.take(j + 1));
            j += 1;
        }
        assert(own.take(len as int) =~= own);
        i += 1;
    }
    ids
}

/// Token `j` of sequence `b` stands behind the tokens of the sequences before
/// it, and has position `j`.
pub proof fn packed_tokens_keep_their_positions(lens: Seq<usize>, n: nat, b: int, j: int)
    requires
        n <= lens.len(),
        0 <= b < n,
        0 <= j < lens[b],
    ensures
        positions(lens, n).len() == total(lens, n),
        0 <= total(lens, b as nat) + j < positions(lens, n).len(),
        positions(lens, n)[total(lens, b as nat) + j] == j as u32,
    decreases n,
{
    let m = (n - 1) as nat;
    positions_len(lens, m);
    if b < m {
        packed_tokens_keep_their_positions(lens, m, b, j);
    }
}

proof fn positions_len(lens: Seq<usize>, n: nat)
    requires
        n <= lens.len(),
    ensures
        positions(lens, n).len() == total(lens, n),
    decreases n,
{
    if n > 0 {
        positions_len(lens, (n - 1) as nat);
    }
}

/// How many rows a sequence gives: one at least.
pub open spec fn rows_of(len: usize) -> nat {
    if len == 0 {
        1
    } else {
        len as nat
    }
}

/// The rows of sequence `b` in a padded block.
pub open spec fn padded_rows(b: int, seq_len: int, len: usize) -> Span {
    Span { start: (b * seq_len) as usize, end: (b * seq_len + rows_of(len)) as usize }
}

/// Every sequence has its rows in a block of `batch` sequences.
pub open spec fn packable(lens: Seq<usize>, batch: int, seq_len: int) -> bool {
    &&& 0 < lens.len() <= batch
    &&& forall|i: int| 0 <= i < lens.len() ==> rows_of(#[trigger] lens[i]) <= seq_len
}

/// Picks each sequence's own rows out of a padded block of `batch` times
/// `seq_len` rows, one sequence behind the other. Where a sequence is longer
/// than the block is wide, or there is nothing to pick, there is no plan.
pub fn pack_varlen(valid_lens: &Vec<usize>, batch: usize, seq_len: usize) -> (plan: Option<
    Vec<Span>,
>)
    requires
        batch * seq_len <= usize::MAX,
    ensures
        match plan {
            Some(rows) => {
                &&& packable(valid_lens@, batch as int, seq_len as int)
                &&& rows@.len() == valid_lens@.len()
                &&& forall|i: int|
                    0 <= i < rows@.len() ==> #[trigger] rows@[i] == padded_rows(
                        i,
                        seq_len as int,
                        valid_lens@[i],
                    )
            },
            None => !packable(valid_lens@, batch as int, seq_len as int),
        },
{
    if valid_lens.len() == 0 || valid_lens.len() > batch {
        return None;
    }
    let mut rows: Vec<Span> = Vec::new();
    let mut i: usize = 0;
    while i < valid_lens.len()
        invariant
            i <= valid_lens.len() <= batch,
            0 < valid_lens.len(),
            batch * seq_len <= usize::MAX,
            rows.len() == i,
            forall|k: int| 0 <= k < i ==> rows_of(#[trigger] valid_lens@[k]) <= seq_len,
            forall|k: int|
                0 <= k < i ==> #[trigger] rows@[k] == padded_rows(
                    k,
                    seq_len as int,
                    valid_lens@[k],
                ),
        decreases valid_lens.len() - i,
    {
        let len: usize = valid_lens[i];
        let count: usize = if len == 0 {
            1
        } else {
            len
        };
        if count > seq_len {
            assert(rows_of(valid_lens@[i as int]) > seq_len);
            return None;
        }
        proof {
            let (b, s, c) = (i as int, seq_len as int, batch as int);
            assert((b + 1) * s <= c * s) by (nonlinear_arith)
                requires
                    b + 1 <= c,
                    s >= 0,
            ;
            assert((b + 1) * s == b * s + s) by (nonlinear_arith);
            assert(0 <= b * s) by (nonlinear_arith)
                requires
                    b >= 0,
                    s >= 0,
            ;
        }
        let start: usize = i * seq_len;
        rows.push(Span { start, end: start + count });
        i += 1;
    }
    Some(rows)
}

/// Where a sequence's rows stand among the packed ones, and how many empty
/// rows fill the block up behind them.
#[derive(Clone, Copy, Debug, PartialEq, Eq, Structural)]
pub struct UnpackedRows {
    pub rows: Span,
    pub padding: usize,
}

/// The rows of sequence `b` among the packed ones.
pub open spec fn packed_rows(lens: Seq<usize>, b: int, max_seq_len: int) -> UnpackedRows {
    let start = total(lens, b as nat);
    UnpackedRows {
        rows: Span { start: start as usize, end: (start + rows_of(lens[b])) as usize },
        padding: if lens[b] < max_seq_len {
            (max_seq_len - lens[b]) as usize
        } else {
            0
        },
    }
}

/// Spreads packed rows out into a padded block again.
pub fn unpack_varlen_bsd(valid_lens: &Vec<usize>, max_seq_len: usize) -> (plan: Vec<UnpackedRows>)
    requires
        total(valid_lens@, valid_lens@.len()) < usize::MAX,
    ensures
        plan@.len() == valid_lens@.len(),
        forall|i: int|
            0 <= i < plan@.len() ==> #[trigger] plan@[i] == packed_rows(
                valid_lens@,
                i,
                max_seq_len as int,
            ),
{
    let mut plan: Vec<UnpackedRows> = Vec::new();
    let mut offset: usize = 0;
    let mut i: usize = 0;
    while i < valid_lens.len()
        invariant
            i <= valid_lens.len(),
            total(valid_lens@, valid_lens@.len()) < usize::MAX,
            offset == total(valid_lens@, i as nat),
            plan.len() == i,
            forall|k: int|
                0 <= k < i ==> #[trigger] plan@[k] == packed_rows(
                    valid_lens@,
                    k,
                    max_seq_len as int,
                ),
        decreases valid_lens.len() - i,
    {
        proof {
            total_grows(valid_lens@, (i + 1) as nat, valid_lens@.len());
        }
        let len: usize = valid_lens[i];
        let count: usize = if len == 0 {
            1
        } else {
            len
        };
        let padding: usize = if len < max_seq_len {
            max_seq_len - len
        } else {
            0
        };
        plan.push(UnpackedRows { rows: Span { start: offset, end: offset + count }, padding });
        offset += len;
        i += 1;
    }
    plan
}

/// Where sequences without an empty one among them are packed and spread out
/// again, every sequence gets back its own rows: they start where its packed
/// rows start, are as many, and fill up to the width of the block.
pub proof fn unpacking_undoes_packing(lens: Seq<usize>, batch: int, seq_len: int, b: int)
    requires
        packable(lens, batch, seq_len),
        batch * seq_len <= usize::MAX,
        total(lens, lens.len()) < usize::MAX,
        forall|i: int| 0 <= i < lens.len() ==> #[trigger] lens[i] > 0,
        0 <= b < lens.len(),
    ensures
        ({
            let from = padded_rows(b, seq_len, lens[b]);
            let to = packed_rows(lens, b, greatest(lens, lens.len()) as int);
            &&& to.rows.end - to.rows.start == from.end - from.start
            &&& from.end - from.start == lens[b]
            &&& to.rows.start == total(lens, b as nat)
            &&& to.rows.end == total(lens, (b + 1) as nat)
            &&& lens[b] + to.padding == greatest(lens, lens.len())
        }),
{
    greatest_bounds(lens, lens.len(), b);
    total_grows(lens, (b + 1) as nat, lens.len());
    total_grows(lens, b as nat, lens.len());
    assert(lens[b] > 0);
    let k = choose|k: int| 0 <= k < lens.len() && #[trigger] lens[k] == greatest(lens, lens.len());
    assert(rows_of(lens[k]) <= seq_len);
    assert((b + 1) * seq_len <= batch * seq_len) by (nonlinear_arith)
        requires
            b + 1 <= batch,
            seq_len >= 0,
    ;
    assert((b + 1) * seq_len == b * seq_len + seq_len) by (nonlinear_arith);
    assert(0 <= b * seq_len) by (nonlinear_arith)
        requires
            b >= 0,
            seq_len >= 0,
    ;
    assert(rows_of(lens[b]) <= seq_len);
}

} // verus!
