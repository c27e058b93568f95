//! What holds of numbers that are held by their bit patterns.
use crate::score::{are_top, leader, leader_is_first_greatest, top_two, Double, Float};
use vstd::prelude::*;

verus! {

/// Patterns below the sign bit stand for numbers from zero up, in the order of
/// the patterns; with the sign bit they stand for the same numbers below zero.
/// Both zeros are equal. Past the pattern of infinity there is no number.
pub proof fn patterns_order_as_their_numbers(a: Float, b: Float)
    ensures
        a.above(b) ==> !b.above(a),
        !a.above(a),
        a.bits <= 0x7f80_0000 && b.bits <= 0x7f80_0000 ==> (a.above(b) <==> a.bits > b.bits),
        0x8000_0000 <= a.bits <= 0xff80_0000 && 0x8000_0000 <= b.bits <= 0xff80_0000 ==> (a.above(b)
            <==> a.bits < b.bits),
        a.bits <= 0x7f80_0000 && 0x8000_0000 <= b.bits <= 0xff80_0000 ==> (a.above(b) <==> !(a.bits
            == 0 && b.bits == 0x8000_0000)),
        0x7f80_0000 < a.bits < 0x8000_0000 || a.bits > 0xff80_0000 ==> !a.above(b) && !b.above(a),
{
}

/// A number is finite where its exponent is not all ones.
pub proof fn finite_patterns(a: Float)
    ensures
        a.finite() <==> a.bits < 0x7f80_0000 || 0x8000_0000 <= a.bits < 0xff80_0000,
        a.positive() <==> 0 < a.bits < 0x7f80_0000,
        a.nan() <==> 0x7f80_0000 < a.bits < 0x8000_0000 || a.bits > 0xff80_0000,
{
}

/// A number of double precision is finite where its exponent is not all ones.
pub proof fn finite_doubles(a: Double)
    ensures
        a.finite() <==> a.bits < 0x7ff0_0000_0000_0000 || 0x8000_0000_0000_0000 <= a.bits
            < 0xfff0_0000_0000_0000,
{
}

/// Nothing is above the number that a scan ends at, and everything in front of
/// it is below it.
pub proof fn leaders_are_the_first_of_the_greatest(values: Seq<Float>)
    requires
        values.len() > 0,
        forall|i: int| 0 <= i < values.len() ==> (#[trigger] values[i]).finite(),
    ensures
        0 <= leader(values, values.len()) < values.len(),
        forall|i: int|
            0 <= i < values.len() ==> !(#[trigger] values[i]).above(
                values[leader(values, values.len())],
            ),
        forall|i: int|
            0 <= i < leader(values, values.len()) ==> values[leader(values, values.len())].above(
                #[trigger] values[i],
            ),
{
    leader_is_first_greatest(values, values.len());
    let best = leader(values, values.len());
    assert(values[best].finite());
    assert forall|i: int| 0 <= i < best implies values[best].above(#[trigger] values[i]) by {
        assert(values[i].finite());
        assert(values[i].rank() < values[best].rank());
    }
}

/// The two greatest numbers are two of the numbers, and no third is above
/// either.
pub proof fn top_numbers_are_not_exceeded(values: Seq<Float>, top: (Float, Float))
    requires
        top_two(values, top),
        forall|i: int| 0 <= i < values.len() ==> (#[trigger] values[i]).finite(),
    ensures
        values.len() == 0 ==> top.0.bits == 0 && top.1.bits == 0,
        values.len() == 1 ==> top.0 == values[0] && top.1.bits == 0,
        values.len() >= 2 ==> exists|i: int, j: int|
            {
                &&& 0 <= i < values.len()
                &&& 0 <= j < values.len()
                &&& i != j
                &&& top.0 == #[trigger] values[i]
                &&& top.1 == #[trigger] values[j]
                &&& !values[j].above(values[i])
                &&& forall|k: int|
                    0 <= k < values.len() && k != i ==> !(#[trigger] values[k]).above(values[j])
            },
{
    if values.len() >= 2 {
        let (i, j) = choose|i: int, j: int|
            #[trigger] are_top(values, i, j) && top == (values[i], values[j]);
        assert(values[i].finite() && values[j].finite());
        assert(values[j].order() <= values[i].order());
        assert forall|k: int| 0 <= k < values.len() && k != i implies !(#[trigger] values[k]).above(
            values[j],
        ) by {
            assert(values[k].order() <= values[j].order());
        }
        assert(top.0 == values[i] && top.1 == values[j]);
    }
}

} // verus!
