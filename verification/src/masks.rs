//! Which keys are hidden from which queries.
use vstd::prelude::*;

verus! {

/// A mask row after row: what `hidden` says of the row and the column.
pub open spec fn mask(hidden: spec_fn(int, int) -> bool, cols: nat, rows: nat) -> Seq<bool>
    decreases rows,
{
    if rows == 0 {
        Seq::empty()
    } else {
        mask(hidden, cols, (rows - 1) as nat) + Seq::new(cols, |col: int| hidden(rows - 1, col))
    }
}

/// How large a mask is.
pub proof fn mask_len(hidden: spec_fn(int, int) -> bool, cols: nat, rows: nat)
    ensures
        mask(hidden, cols, rows).len() == rows * cols,
    decreases rows,
{
    if rows > 0 {
        let m = (rows - 1) as nat;
        mask_len(hidden, cols, m);
        assert(rows * cols == m * cols + cols) by (nonlinear_arith)
            requires
                m == rows - 1,
        ;
    } else {
        assert(0 * cols == 0);
    }
}

/// Where a row and a column stand in a mask, and what the mask says of them.
pub proof fn mask_at(hidden: spec_fn(int, int) -> bool, cols: nat, rows: nat, row: int, col: int)
    requires
        0 <= row < rows,
        0 <= col < cols,
    ensures
        0 <= row * cols + col < mask(hidden, cols, rows).len(),
        mask(hidden, cols, rows)[row * cols + col] == hidden(row, col),
    decreases rows,
{
    let m = (rows - 1) as nat;
    mask_len(hidden, cols, rows);
    mask_len(hidden, cols, m);
    assert(rows * cols == m * cols + cols) by (nonlinear_arith)
        requires
            m == rows - 1,
    ;
    assert(0 <= row * cols) by (nonlinear_arith)
        requires
            0 <= row,
            0 < cols,
    ;
    if row < m {
        mask_at(hidden, cols, m, row, col);
    } else {
        assert(row == m);
    }
}

} // verus!
