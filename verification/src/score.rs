//! Single-precision numbers, held by their IEEE 754 bit patterns.
//!
//! Scores reach the library as bit patterns. It orders and tests them; it
//! does no arithmetic on them.
use vstd::prelude::*;

verus! {

/// A single-precision number.
#[derive(Clone, Copy, Debug, PartialEq, Eq, Structural)]
pub struct Float {
    pub bits: u32,
}

impl Float {
    /// The pattern without its sign.
    pub open spec fn magnitude(self) -> int {
        self.bits as int % 0x8000_0000
    }

    /// The pattern stands for no number.
    pub open spec fn nan(self) -> bool {
        self.magnitude() > 0x7f80_0000
    }

    /// Neither infinite nor without a value.
    pub open spec fn finite(self) -> bool {
        self.magnitude() < 0x7f80_0000
    }

    /// An integer that orders as the number does; both zeros get zero.
    pub open spec fn rank(self) -> int {
        if self.bits >= 0x8000_0000 {
            -self.magnitude()
        } else {
            self.magnitude()
        }
    }

    /// IEEE 754 `self > other`: never true where either has no value.
    pub open spec fn above(self, other: Float) -> bool {
        !self.nan() && !other.nan() && self.rank() > other.rank()
    }

    /// Finite and greater than zero.
    pub open spec fn positive(self) -> bool {
        self.finite() && self.rank() > 0
    }

    /// An integer that orders all patterns: as the numbers, with a negative
    /// zero below the other and those without a value at the ends.
    pub open spec fn order(self) -> int {
        if self.bits >= 0x8000_0000 {
            -1 - self.magnitude()
        } else {
            self.magnitude()
        }
    }

    /// Whether the pattern stands behind that of `other` in the order of all
    /// patterns.
    pub fn follows(self, other: Float) -> (yes: bool)
        ensures
            yes == (self.order() > other.order()),
    {
        let mine: i64 = if self.bits >= 0x8000_0000 {
            -1 - (self.bits % 0x8000_0000) as i64
        } else {
            self.bits as i64
        };
        let its: i64 = if other.bits >= 0x8000_0000 {
            -1 - (other.bits % 0x8000_0000) as i64
        } else {
            other.bits as i64
        };
        mine > its
    }

    fn signed(self) -> (n: i64)
        ensures
            n == self.rank(),
    {
        if self.bits >= 0x8000_0000 {
            -((self.bits - 0x8000_0000) as i64)
        } else {
            self.bits as i64
        }
    }

    fn unsigned(self) -> (n: u32)
        ensures
            n == self.magnitude(),
    {
        self.bits % 0x8000_0000
    }

    /// Whether the number is finite.
    pub fn is_finite(self) -> (yes: bool)
        ensures
            yes == self.finite(),
    {
        self.unsigned() < 0x7f80_0000
    }

    /// Whether the number is finite and greater than zero.
    pub fn is_positive(self) -> (yes: bool)
        ensures
            yes == self.positive(),
    {
        self.is_finite() && self.signed() > 0
    }

    /// Whether the number is greater than `other`.
    pub fn exceeds(self, other: Float) -> (yes: bool)
        ensures
            yes == self.above(other),
    {
        self.unsigned() <= 0x7f80_0000 && other.unsigned() <= 0x7f80_0000 && self.signed()
            > other.signed()
    }
}

/// Where a scan from the left stands that moves to every number above the
/// one it holds, after the first `n` numbers.
pub open spec fn leader(values: Seq<Float>, n: nat) -> int
    decreases n,
{
    if n <= 1 {
        0
    } else {
        let held = leader(values, (n - 1) as nat);
        if values[n - 1].above(values[held]) {
            n - 1
        } else {
            held
        }
    }
}

/// The leader of a sequence without missing values is the first of its
/// greatest numbers.
pub proof fn leader_is_first_greatest(values: Seq<Float>, n: nat)
    requires
        0 < n <= values.len(),
        forall|i: int| 0 <= i < n ==> !(#[trigger] values[i]).nan(),
    ensures
        0 <= leader(values, n) < n,
        forall|i: int| 0 <= i < n ==> (#[trigger] values[i]).rank() <= values[leader(values, n)].rank(),
        forall|i: int|
            0 <= i < leader(values, n) ==> (#[trigger] values[i]).rank() < values[leader(
                values,
                n,
            )].rank(),
    decreases n,
{
    if n > 1 {
        leader_is_first_greatest(values, (n - 1) as nat);
    }
}

/// The leader stands in the part that was scanned.
pub proof fn leader_in_range(values: Seq<Float>, n: nat)
    requires
        0 < n,
    ensures
        0 <= leader(values, n) < n,
    decreases n,
{
    if n > 1 {
        leader_in_range(values, (n - 1) as nat);
    }
}

/// The first of the greatest numbers.
pub fn first_greatest(values: &Vec<Float>) -> (best: usize)
    requires
        values.len() > 0,
    ensures
        best == leader(values@, values@.len()),
        best < values.len(),
{
    let mut best: usize = 0;
    let mut i: usize = 1;
    while i < values.len()
        invariant
            1 <= i <= values.len(),
            best < i,
            best == leader(values@, i as nat),
        decreases values.len() - i,
    {
        if values[i].exceeds(values[best]) {
            best = i;
        }
        i += 1;
    }
    best
}

/// The value at `i` comes first and that at `j` second where the greatest come
/// first, all patterns being in order.
pub open spec fn are_top(values: Seq<Float>, i: int, j: int) -> bool {
    &&& 0 <= i < values.len()
    &&& 0 <= j < values.len()
    &&& i != j
    &&& forall|k: int| 0 <= k < values.len() ==> (#[trigger] values[k]).order() <= values[i].order()
    &&& forall|k: int|
        0 <= k < values.len() && k != i ==> (#[trigger] values[k]).order() <= values[j].order()
}

/// The two greatest of some values. Zero stands in for one that is missing.
pub open spec fn top_two(values: Seq<Float>, top: (Float, Float)) -> bool {
    let zero = Float { bits: 0 };
    if values.len() == 0 {
        top == (zero, zero)
    } else if values.len() == 1 {
        top == (values[0], zero)
    } else {
        exists|i: int, j: int|
            #[trigger] are_top(values, i, j) && top == (values[i], values[j])
    }
}

/// There is one answer to which two values are the greatest.
pub proof fn top_two_are_unique(values: Seq<Float>, a: (Float, Float), b: (Float, Float))
    requires
        top_two(values, a),
        top_two(values, b),
    ensures
        a == b,
{
    if values.len() >= 2 {
        let (i, j) = choose|i: int, j: int|
            #[trigger] are_top(values, i, j) && a == (values[i], values[j]);
        let (k, l) = choose|k: int, l: int|
            #[trigger] are_top(values, k, l) && b == (values[k], values[l]);
        assert(values[i].order() == values[k].order());
        assert(values[j].order() == values[l].order());
    }
}

/// Finds the two greatest of some values.
pub fn find_top_two(values: &Vec<Float>) -> (top: (Float, Float))
    ensures
        top_two(values@, top),
{
    let zero = Float { bits: 0 };
    if values.len() == 0 {
        return (zero, zero);
    }
    if values.len() == 1 {
        return (values[0], zero);
    }
    let (mut i, mut j): (usize, usize) = if values[1].follows(values[0]) {
        (1, 0)
    } else {
        (0, 1)
    };
    let mut n: usize = 2;
    assert(values@.take(2).len() == 2);
    while n < values.len()
        invariant
            2 <= n <= values.len(),
            are_top(values@.take(n as int), i as int, j as int),
        decreases values.len() - n,
    {
        let ghost seen = values@.take(n as int);
        let ghost more = values@.take(n + 1);
        assert(forall|k: int| 0 <= k < n ==> seen[k] == #[trigger] more[k]);
        assert(more[n as int] == values@[n as int]);
        if values[n].follows(values[i]) {
            j = i;
            i = n;
        } else if values[n].follows(values[j]) {
            j = n;
        }
        n += 1;
    }
    assert(values@.take(n as int) =~= values@);
    (values[i], values[j])
}

/// Whether every number is finite.
pub fn all_finite(values: &Vec<Float>) -> (yes: bool)
    ensures
        yes == (forall|i: int| 0 <= i < values.len() ==> (#[trigger] values@[i]).finite()),
{
    let mut i: usize = 0;
    while i < values.len()
        invariant
            i <= values.len(),
            forall|k: int| 0 <= k < i ==> (#[trigger] values@[k]).finite(),
        decreases values.len() - i,
    {
        if !values[i].is_finite() {
            assert(!values@[i as int].finite());
            return false;
        }
        i += 1;
    }
    true
}

/// A double-precision number, held by its IEEE 754 bit pattern.
#[derive(Clone, Copy, Debug, PartialEq, Eq, Structural)]
pub struct Double {
    pub bits: u64,
}

impl Double {
    /// Neither infinite nor without a value.
    pub open spec fn finite(self) -> bool {
        self.bits as int % 0x8000_0000_0000_0000 < 0x7ff0_0000_0000_0000
    }

    /// Whether the number is finite.
    pub fn is_finite(self) -> (yes: bool)
        ensures
            yes == self.finite(),
    {
        self.bits % 0x8000_0000_0000_0000 < 0x7ff0_0000_0000_0000
    }
}

} // verus!
