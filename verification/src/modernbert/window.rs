//! Which tokens a layer sees, with masks and with windows.
use crate::device::DType;
use crate::masks::{mask, mask_at};
use crate::score::Double;
use vstd::prelude::*;

verus! {

/// Two positions are more than `distance` apart.
pub open spec fn far(i: int, j: int, distance: int) -> bool {
    if j >= i {
        j - i > distance
    } else {
        i - j > distance
    }
}

/// Positions that are far apart are hidden from each other.
pub open spec fn local_mask(seq_len: nat, distance: int) -> Seq<bool> {
    mask(|i: int, j: int| far(i, j, distance), seq_len, seq_len)
}

/// Works out which positions are hidden from each other for being too far
/// apart.
pub fn get_local_attention_mask(seq_len: usize, max_distance: usize) -> (hidden: Vec<bool>)
    requires
        seq_len <= i32::MAX,
        max_distance <= i32::MAX,
    ensures
        hidden@ == local_mask(seq_len as nat, max_distance as int),
{
    let ghost rule = |i: int, j: int| far(i, j, max_distance as int);
    let mut hidden: Vec<bool> = Vec::new();
    let mut i: usize = 0;
    while i < seq_len
        invariant
            i <= seq_len,
            rule == (|r: int, c: int| far(r, c, max_distance as int)),
            hidden@ == mask(rule, seq_len as nat, i as nat),
        decreases seq_len - i,
    {
        let ghost before = hidden@;
        let ghost line = Seq::new(seq_len as nat, |c: int| rule(i as int, c));
        let mut j: usize = 0;
        while j < seq_len
            invariant
                i < seq_len,
                j <= seq_len,
                rule == (|r: int, c: int| far(r, c, max_distance as int)),
                line == Seq::new(seq_len as nat, |c: int| rule(i as int, c)),
                hidden@ == before + line.take(j as int),
            decreases seq_len - j,
        {
            let apart: usize = if j >= i {
                j - i
            } else {
                i - j
            };
            hidden.push(apart > max_distance);
            assert(hidden@ =~= before + line.take(j + 1));
            j += 1;
        }
        assert(line.take(seq_len as int) =~= line);
        i += 1;
    }
    hidden
}

/// The window of a layer over sequences of up to `longest` tokens. While no
/// two tokens can be too far apart there is no need of one.
pub open spec fn window_for(uses_local: bool, longest: int, local_attention_size: int) -> Option<int> {
    if uses_local && longest > local_attention_size / 2 + 1 {
        Some(local_attention_size / 2)
    } else {
        None
    }
}

/// The same with a window that is at hand.
pub open spec fn window_view(window: Option<usize>) -> Option<int> {
    match window {
        Some(w) => Some(w as int),
        None => None,
    }
}

/// Finds the window of a layer.
pub fn effective_window(uses_local: bool, longest: usize, local_attention_size: usize) -> (window:
    Option<usize>)
    ensures
        window_view(window) == window_for(
            uses_local,
            longest as int,
            local_attention_size as int,
        ),
{
    let local_window: usize = local_attention_size / 2;
    if uses_local && longest > local_window + 1 {
        Some(local_window)
    } else {
        None
    }
}

/// Finds the windows of all layers.
pub fn windows(local: &Vec<bool>, longest: usize, local_attention_size: usize) -> (list: Vec<
    Option<usize>,
>)
    ensures
        list@.len() == local@.len(),
        forall|i: int|
            0 <= i < local@.len() ==> window_view(#[trigger] list@[i]) == window_for(
                local@[i],
                longest as int,
                local_attention_size as int,
            ),
{
    let mut list: Vec<Option<usize>> = Vec::new();
    let mut i: usize = 0;
    while i < local.len()
        invariant
            i <= local.len(),
            list.len() == i,
            forall|k: int|
                0 <= k < i ==> window_view(#[trigger] list@[k]) == window_for(
                    local@[k],
                    longest as int,
                    local_attention_size as int,
                ),
        decreases local.len() - i,
    {
        list.push(effective_window(local[i], longest, local_attention_size));
        i += 1;
    }
    list
}

/// What a window hides.
pub open spec fn window_hides(window: Option<int>, i: int, j: int) -> bool {
    window matches Some(w) && far(i, j, w)
}

/// What a mask hides in a layer: padding from everyone, and in a local layer
/// what is too far apart.
pub open spec fn mask_hides(
    uses_local: bool,
    local_attention_size: int,
    valid: Seq<bool>,
    i: int,
    j: int,
) -> bool {
    !valid[j] || (uses_local && far(i, j, local_attention_size / 2))
}

/// Between tokens that are not padding, windows hide exactly what masks hide.
pub proof fn windows_hide_what_masks_hide(
    uses_local: bool,
    local_attention_size: int,
    valid: Seq<bool>,
    i: int,
    j: int,
)
    requires
        local_attention_size >= 0,
        0 <= i < valid.len(),
        0 <= j < valid.len(),
        valid[j],
    ensures
        window_hides(
            window_for(uses_local, valid.len() as int, local_attention_size),
            i,
            j,
        ) == mask_hides(uses_local, local_attention_size, valid, i, j),
{
}

/// A mask says of two positions whether they are too far apart, and says the
/// same the other way round.
pub proof fn local_masks_are_symmetric(seq_len: nat, distance: int, i: int, j: int)
    requires
        0 <= i < seq_len,
        0 <= j < seq_len,
    ensures
        local_mask(seq_len, distance)[i * seq_len + j] == far(i, j, distance),
        local_mask(seq_len, distance)[i * seq_len + j] == local_mask(seq_len, distance)[j * seq_len
            + i],
{
    let rule = |r: int, c: int| far(r, c, distance);
    mask_at(rule, seq_len, seq_len, i, j);
    mask_at(rule, seq_len, seq_len, j, i);
}

/// The element type that attention kernels are run in: they know half
/// precision alone.
pub fn flash_compat_dtype(dtype: DType) -> (compatible: DType)
    ensures
        compatible == if dtype == DType::F16 || dtype == DType::BF16 {
            dtype
        } else {
            DType::F16
        },
{
    match dtype {
        DType::F16 | DType::BF16 => dtype,
        _ => DType::F16,
    }
}

/// What is added where a key is hidden: a large number below zero that an
/// element of the type can hold. It is finite, so that a row in which
/// everything is hidden still has a softmax.
pub fn mask_value(dtype: DType) -> (value: Double)
    ensures
        value.finite(),
        value.bits == match dtype {
            DType::F16 => 0xc0effc0000000000u64,
            DType::BF16 => 0xc7d2ced32a16a1b1u64,
            _ => 0xc7efffffe0000000u64,
        },
{
    match dtype {
        DType::F16 => Double { bits: 0xc0effc0000000000 },
        DType::BF16 => Double { bits: 0xc7d2ced32a16a1b1 },
        _ => Double { bits: 0xc7efffffe0000000 },
    }
}

} // verus!
