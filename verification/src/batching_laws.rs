//! What holds of work that is split into batches.
use crate::batching::{chunks, longest};
use vstd::prelude::*;

verus! {

/// Item `j` of piece `k` is the item that stands behind `k` whole pieces and
/// `j` more. Every piece but the last is whole, and the last ends where the
/// items do.
pub proof fn pieces_keep_the_places<T>(items: Seq<T>, size: nat, k: int)
    requires
        size > 0,
        0 <= k < chunks(items, size).len(),
    ensures
        ({
            let piece = chunks(items, size)[k];
            &&& piece.len() > 0
            &&& k * size + piece.len() <= items.len()
            &&& k < chunks(items, size).len() - 1 ==> piece.len() == size
            &&& k == chunks(items, size).len() - 1 ==> k * size + piece.len() == items.len()
                && piece.len() <= size
            &&& forall|j: int| 0 <= j < piece.len() ==> #[trigger] piece[j] == items[k * size + j]
        }),
    decreases items.len(),
{
    assert(0 * size == 0);
    if items.len() > size {
        let rest = items.skip(size as int);
        let all = chunks(items, size);
        let tail = chunks(rest, size);
        assert(all == seq![items.take(size as int)] + tail);
        assert(tail.len() > 0);
        if k > 0 {
            pieces_keep_the_places(rest, size, k - 1);
            assert(all[k] == tail[k - 1]);
            assert(k * size == (k - 1) * size + size) by (nonlinear_arith);
            let piece = all[k];
            assert forall|j: int| 0 <= j < piece.len() implies #[trigger] piece[j] == items[k * size
                + j] by {
                assert(piece[j] == rest[(k - 1) * size + j]);
            }
        }
    }
}

/// There is a piece for every item.
pub proof fn pieces_hold_all_items<T>(items: Seq<T>, size: nat)
    requires
        size > 0,
    ensures
        chunks(items, size).len() == 0 <==> items.len() == 0,
        chunks(items, size).len() * size >= items.len(),
{
    let n = chunks(items, size).len();
    if n > 0 {
        pieces_keep_the_places(items, size, n - 1);
        assert(n * size == (n - 1) * size + size) by (nonlinear_arith);
    }
}

/// The longest row is one of the rows.
pub proof fn the_longest_row_is_a_row(rows: Seq<Seq<u32>>) -> (l: int)
    requires
        rows.len() > 0,
    ensures
        0 <= l < rows.len(),
        rows[l].len() == longest(rows),
    decreases rows.len(),
{
    let before = rows.drop_last();
    if rows.last().len() > longest(before) || before.len() == 0 {
        rows.len() - 1
    } else {
        let l = the_longest_row_is_a_row(before);
        assert(before[l] == rows[l]);
        l
    }
}

} // verus!
