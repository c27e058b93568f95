//! Splitting work into batches, and laying a batch out in memory.
use vstd::prelude::*;

verus! {

/// `items` cut into pieces of `size`, the last one shorter where it must be.
pub open spec fn chunks<T>(items: Seq<T>, size: nat) -> Seq<Seq<T>>
    decreases items.len(),
{
    if items.len() == 0 || size == 0 {
        Seq::empty()
    } else if items.len() <= size {
        seq![items]
    } else {
        seq![items.take(size as int)] + chunks(items.skip(size as int), size)
    }
}

/// Joining the pieces gives the items back, each once and in order.
pub proof fn chunks_join<T>(items: Seq<T>, size: nat)
    requires
        size > 0,
    ensures
        chunks(items, size).flatten() == items,
    decreases items.len(),
{
    if items.len() == 0 {
    } else if items.len() <= size {
        assert(seq![items].drop_first() =~= Seq::empty());
        assert(seq![items].flatten() =~= items) by {
            reveal_with_fuel(Seq::flatten, 2);
        }
    } else {
        let rest = chunks(items.skip(size as int), size);
        let whole = chunks(items, size);
        chunks_join(items.skip(size as int), size);
        assert(whole.drop_first() =~= rest);
        assert(whole.first() == items.take(size as int));
        assert(whole.flatten() =~= items.take(size as int) + rest.flatten());
        assert(items.take(size as int) + items.skip(size as int) =~= items);
    }
}

/// No piece is empty and none is longer than `size`.
pub proof fn chunk_sizes<T>(items: Seq<T>, size: nat)
    requires
        size > 0,
    ensures
        forall|k: int|
            0 <= k < chunks(items, size).len() ==> 0 < (#[trigger] chunks(items, size)[k]).len()
                <= size,
    decreases items.len(),
{
    if items.len() > size {
        let rest = chunks(items.skip(size as int), size);
        chunk_sizes(items.skip(size as int), size);
        assert forall|k: int| 0 <= k < chunks(items, size).len() implies 0 < (#[trigger] chunks(
            items,
            size,
        )[k]).len() <= size by {
            if k > 0 {
                assert(chunks(items, size)[k] == rest[k - 1]);
            }
        }
    }
}

/// Cutting one piece off the front.
pub proof fn chunks_step<T>(items: Seq<T>, size: nat)
    requires
        size > 0,
        items.len() > 0,
    ensures
        ({
            let n = if items.len() <= size {
                items.len()
            } else {
                size
            };
            chunks(items, size) == seq![items.take(n as int)] + chunks(items.skip(n as int), size)
        }),
{
    if items.len() <= size {
        assert(items.take(items.len() as int) =~= items);
        assert(items.skip(items.len() as int).len() == 0);
        assert(chunks(items, size) =~= seq![items] + Seq::<Seq<T>>::empty());
    }
}

/// A row filled up to `len` with `pad`.
pub open spec fn padded_row(row: Seq<u32>, len: nat, pad: u32) -> Seq<u32> {
    row + Seq::new((len - row.len()) as nat, |i: int| pad)
}

/// Rows of equal length `len`, one after the other.
pub open spec fn padded(rows: Seq<Seq<u32>>, len: nat, pad: u32) -> Seq<u32>
    decreases rows.len(),
{
    if rows.len() == 0 {
        Seq::empty()
    } else {
        padded(rows.drop_last(), len, pad) + padded_row(rows.last(), len, pad)
    }
}

/// A row of ones as long as `row`.
pub open spec fn ones(row: Seq<u32>) -> Seq<u32> {
    Seq::new(row.len(), |i: int| 1u32)
}

/// The rows of ones for `rows`.
pub open spec fn all_ones(rows: Seq<Seq<u32>>) -> Seq<Seq<u32>> {
    rows.map_values(|row: Seq<u32>| ones(row))
}

/// The length of the longest row.
pub open spec fn longest(rows: Seq<Seq<u32>>) -> nat
    decreases rows.len(),
{
    if rows.len() == 0 {
        0
    } else {
        let before = longest(rows.drop_last());
        if rows.last().len() > before {
            rows.last().len()
        } else {
            before
        }
    }
}

/// No row is longer than the longest.
pub proof fn longest_bounds(rows: Seq<Seq<u32>>)
    ensures
        forall|i: int| 0 <= i < rows.len() ==> (#[trigger] rows[i]).len() <= longest(rows),
    decreases rows.len(),
{
    if rows.len() > 0 {
        let before = rows.drop_last();
        longest_bounds(before);
        assert forall|i: int| 0 <= i < rows.len() implies (#[trigger] rows[i]).len() <= longest(
            rows,
        ) by {
            if i < before.len() {
                assert(before[i] == rows[i]);
            }
        }
    }
}

/// Row `i` of a padded block starts at `i * len`: it holds its own values and
/// padding behind them.
pub proof fn padded_at(rows: Seq<Seq<u32>>, len: nat, pad: u32, i: int, j: int)
    requires
        forall|k: int| 0 <= k < rows.len() ==> (#[trigger] rows[k]).len() <= len,
        0 <= i < rows.len(),
        0 <= j < len,
    ensures
        padded(rows, len, pad).len() == rows.len() * len,
        0 <= i * len + j < padded(rows, len, pad).len(),
        padded(rows, len, pad)[i * len + j] == if j < rows[i].len() {
            rows[i][j]
        } else {
            pad
        },
    decreases rows.len(),
{
    let before = rows.drop_last();
    padded_len(before, len, pad);
    let n = rows.len() - 1;
    assert(rows.len() * len == n * len + len) by (nonlinear_arith)
        requires
            n == rows.len() - 1,
    ;
    if i < n {
        assert(before[i] == rows[i]);
        padded_at(before, len, pad, i, j);
        assert(before.len() * len == n * len) by (nonlinear_arith)
            requires
                before.len() == n,
        ;
    }
    assert(0 <= i * len) by (nonlinear_arith)
        requires
            0 <= i,
    ;
}

/// A padded block has `len` places per row.
pub proof fn padded_len(rows: Seq<Seq<u32>>, len: nat, pad: u32)
    requires
        forall|k: int| 0 <= k < rows.len() ==> (#[trigger] rows[k]).len() <= len,
    ensures
        padded(rows, len, pad).len() == rows.len() * len,
    decreases rows.len(),
{
    if rows.len() > 0 {
        let before = rows.drop_last();
        assert forall|k: int| 0 <= k < before.len() implies (#[trigger] before[k]).len() <= len by {
            assert(before[k] == rows[k]);
        }
        padded_len(before, len, pad);
        assert(rows.len() * len == before.len() * len + len) by (nonlinear_arith)
            requires
                before.len() == rows.len() - 1,
        ;
    } else {
        assert(rows.len() * len == 0) by (nonlinear_arith)
            requires
                rows.len() == 0,
        ;
    }
}

/// Appends a row filled up to `len`.
pub fn push_row(block: &mut Vec<u32>, row: &Vec<u32>, len: usize, pad: u32)
    requires
        row.len() <= len,
    ensures
        final(block)@ == old(block)@ + padded_row(row@, len as nat, pad),
{
    let ghost before = block@;
    let mut j: usize = 0;
    while j < len
        invariant
            j <= len,
            row.len() <= len,
            block@ == before + padded_row(row@, len as nat, pad).take(j as int),
        decreases len - j,
    {
        if j < row.len() {
            block.push(row[j]);
        } else {
            block.push(pad);
        }
        assert(block@ =~= before + padded_row(row@, len as nat, pad).take(j + 1));
        j += 1;
    }
    assert(padded_row(row@, len as nat, pad).take(len as int) =~= padded_row(row@, len as nat, pad));
}

/// Appends a row of `count` ones filled up to `len` with zeros.
pub fn push_mask(block: &mut Vec<u32>, row: &Vec<u32>, len: usize)
    requires
        row.len() <= len,
    ensures
        final(block)@ == old(block)@ + padded_row(ones(row@), len as nat, 0),
{
    let ghost before = block@;
    let ghost whole = padded_row(ones(row@), len as nat, 0);
    let mut j: usize = 0;
    while j < len
        invariant
            j <= len,
            row.len() <= len,
            whole == padded_row(ones(row@), len as nat, 0),
            block@ == before + whole.take(j as int),
        decreases len - j,
    {
        if j < row.len() {
            block.push(1);
        } else {
            block.push(0);
        }
        assert(block@ =~= before + whole.take(j + 1));
        j += 1;
    }
    assert(whole.take(len as int) =~= whole);
}

/// The sum of the first `n` lengths.
pub open spec fn total(lens: Seq<usize>, n: nat) -> nat
    decreases n,
{
    if n == 0 {
        0
    } else {
        total(lens, (n - 1) as nat) + lens[n - 1] as nat
    }
}

/// Sums grow with the number of lengths.
pub proof fn total_grows(lens: Seq<usize>, m: nat, n: nat)
    requires
        m <= n,
    ensures
        total(lens, m) <= total(lens, n),
    decreases n,
{
    if m < n {
        total_grows(lens, m, (n - 1) as nat);
    }
}

/// Sums depend on the lengths that are summed alone.
pub proof fn total_prefix(a: Seq<usize>, b: Seq<usize>, n: nat)
    requires
        n <= a.len(),
        n <= b.len(),
        forall|i: int| 0 <= i < n ==> a[i] == b[i],
    ensures
        total(a, n) == total(b, n),
    decreases n,
{
    if n > 0 {
        total_prefix(a, b, (n - 1) as nat);
    }
}

} // verus!
