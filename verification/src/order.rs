//! The order in which the 88 keys are visited.
//!
//! The traditional order tunes the temperament octave F3..F4 first, then
//! works upward to C8, then downward from E3 to A0. A profile-driven order
//! keeps the temperament-octave prefix and visits the remaining keys worst
//! deviation first.

use vstd::prelude::*;
use crate::notes::{Note, is_note_for};

verus! {

/// Positions `0..13` of every order: the temperament octave F3..F4.
pub const TEMPERAMENT_LEN: usize = 13;

/// How an order was derived.
#[derive(Debug, PartialEq, Eq, Structural, Clone, Copy)]
pub enum OrderKind {
    /// The fixed traditional order.
    Traditional,
    /// Sorted by a measured deviation profile, worst first.
    ProfileDriven,
}

/// The chromatic index visited at position `p` of the traditional order.
pub open spec fn spec_traditional_at(p: int) -> int {
    if p < 13 {
        32 + p
    } else if p < 56 {
        p + 32
    } else {
        87 - p
    }
}

/// Absolute value of a deviation.
pub open spec fn spec_abs(d: int) -> int {
    if d < 0 {
        -d
    } else {
        d
    }
}

/// Chromatic index `a` is visited no later than `b` in a profile-driven
/// tail: larger absolute deviation first, ties by ascending index.
pub open spec fn order_before(devs: Seq<i64>, a: int, b: int) -> bool {
    let x = spec_abs(devs[a] as int);
    let y = spec_abs(devs[b] as int);
    x > y || (x == y && a <= b)
}

/// A chromatic index outside the temperament octave.
pub open spec fn outside_temperament(i: int) -> bool {
    0 <= i < 88 && !(32 <= i <= 44)
}

/// An immutable permutation of the 88 chromatic indices, computed once per
/// session.
pub struct TuningOrder {
    /// `positions[p]` is the chromatic index (0 = A0) visited at position `p`.
    pub positions: Vec<usize>,
    /// How the order was derived.
    pub kind: OrderKind,
}

impl TuningOrder {
    /// Every position holds a distinct valid chromatic index and the
    /// temperament octave comes first.
    pub open spec fn wf(&self) -> bool {
        &&& self.positions@.len() == 88
        &&& forall|p: int| 0 <= p < 88 ==> #[trigger] self.positions@[p] < 88
        &&& forall|p: int, q: int|
            0 <= p < q < 88 ==> self.positions@[p] != self.positions@[q]
        &&& forall|p: int| 0 <= p < 13 ==> #[trigger] self.positions@[p] == 32 + p
    }

    /// Create the traditional tuning order.
    pub fn new() -> (order: Self)
        ensures
            order.wf(),
            order.kind == OrderKind::Traditional,
            forall|p: int|
                0 <= p < 88 ==> #[trigger] order.positions@[p] == spec_traditional_at(p),
    {
        let mut positions: Vec<usize> = Vec::new();
        let mut p: usize = 0;
        while p < 56
            invariant
                p <= 56,
                positions@.len() == p,
                forall|i: int|
                    0 <= i < p ==> #[trigger] positions@[i] == spec_traditional_at(i),
            decreases 56 - p,
        {
            positions.push(p + 32);
            p = p + 1;
        }
        while p < 88
            invariant
                56 <= p <= 88,
                positions@.len() == p,
                forall|i: int|
                    0 <= i < p ==> #[trigger] positions@[i] == spec_traditional_at(i),
            decreases 88 - p,
        {
            positions.push(87 - p);
            p = p + 1;
        }
        let order = TuningOrder { positions, kind: OrderKind::Traditional };
        proof {
            assert forall|a: int, b: int| 0 <= a < b < 88 implies order.positions@[a]
                != order.positions@[b] by {
                assert(order.positions@[a] == spec_traditional_at(a));
                assert(order.positions@[b] == spec_traditional_at(b));
            };
        }
        order
    }

    /// Create an order from a per-key deviation table in centicents,
    /// indexed by chromatic index; unmeasured keys are recorded as zero.
    /// After the fixed temperament-octave prefix, keys come worst absolute
    /// deviation first, ties broken by ascending chromatic index.
    pub fn from_deviations(devs: &Vec<i64>) -> (order: Self)
        requires
            devs@.len() == 88,
            forall|i: int| 0 <= i < 88 ==> -1000000000 <= #[trigger] devs@[i] <= 1000000000,
        ensures
            order.wf(),
            order.kind == OrderKind::ProfileDriven,
            forall|p: int| 13 <= p < 88 ==> outside_temperament(#[trigger] order.positions@[p] as int),
            forall|p: int, q: int|
                13 <= p < q < 88 ==> order_before(
                    devs@,
                    #[trigger] order.positions@[p] as int,
                    #[trigger] order.positions@[q] as int,
                ),
    {
        let mut src: Vec<usize> = Vec::new();
        let mut i: usize = 0;
        while i < 32
            invariant
                i <= 32,
                src@.len() == i,
                forall|k: int| 0 <= k < i ==> #[trigger] src@[k] == k,
            decreases 32 - i,
        {
            src.push(i);
            i = i + 1;
        }
        let mut j: usize = 45;
        while j < 88
            invariant
                45 <= j <= 88,
                src@.len() == 32 + j - 45,
                forall|k: int| 0 <= k < 32 ==> #[trigger] src@[k] == k,
                forall|k: int| 32 <= k < src@.len() ==> #[trigger] src@[k] == k + 13,
            decreases 88 - j,
        {
            src.push(j);
            j = j + 1;
        }
        proof {
            assert forall|a: int, b: int| 0 <= a < b < src@.len() implies src@[a] != src@[b] by {
            };
            assert forall|k: int| 0 <= k < src@.len() implies outside_temperament(
                #[trigger] src@[k] as int,
            ) by {
            };
        }

        let mut positions: Vec<usize> = Vec::new();
        let mut p: usize = 0;
        while p < 13
            invariant
                p <= 13,
                positions@.len() == p,
                forall|k: int| 0 <= k < p ==> #[trigger] positions@[k] == 32 + k,
            decreases 13 - p,
        {
            positions.push(32 + p);
            p = p + 1;
        }

        while src.len() > 0
            invariant
                devs@.len() == 88,
                forall|i2: int| 0 <= i2 < 88 ==> -1000000000 <= #[trigger] devs@[i2] <= 1000000000,
                13 <= positions@.len() <= 88,
                positions@.len() + src@.len() == 88,
                forall|k: int| 0 <= k < 13 ==> #[trigger] positions@[k] == 32 + k,
                forall|k: int|
                    13 <= k < positions@.len() ==> outside_temperament(
                        #[trigger] positions@[k] as int,
                    ),
                forall|k: int|
                    0 <= k < src@.len() ==> outside_temperament(#[trigger] src@[k] as int),
                forall|a: int, b: int|
                    13 <= a < b < positions@.len() ==> order_before(
                        devs@,
                        positions@[a] as int,
                        positions@[b] as int,
                    ),
                forall|a: int, b: int|
                    13 <= a < positions@.len() && 0 <= b < src@.len() ==> order_before(
                        devs@,
                        positions@[a] as int,
                        src@[b] as int,
                    ),
                forall|a: int, b: int|
                    13 <= a < b < positions@.len() ==> positions@[a] != positions@[b],
                forall|a: int, b: int| 0 <= a < b < src@.len() ==> src@[a] != src@[b],
                forall|a: int, b: int|
                    13 <= a < positions@.len() && 0 <= b < src@.len() ==> positions@[a] != src@[b],
            decreases src@.len(),
        {
            let mut best: usize = 0;
            let mut k: usize = 1;
            while k < src.len()
                invariant
                    devs@.len() == 88,
                    forall|i2: int|
                        0 <= i2 < 88 ==> -1000000000 <= #[trigger] devs@[i2] <= 1000000000,
                    forall|i2: int| 0 <= i2 < src@.len() ==> #[trigger] src@[i2] < 88,
                    src@.len() > 0,
                    best < src@.len(),
                    k <= src@.len(),
                    forall|m: int|
                        0 <= m < k ==> order_before(
                            devs@,
                            src@[best as int] as int,
                            #[trigger] src@[m] as int,
                        ),
                decreases src@.len() - k,
            {
                let a = src[best];
                let b = src[k];
                let x = abs_centicents(devs[a]);
                let y = abs_centicents(devs[b]);
                if y > x || (y == x && b < a) {
                    best = k;
                }
                proof {
                    assert forall|m: int| 0 <= m < k + 1 implies order_before(
                        devs@,
                        src@[best as int] as int,
                        #[trigger] src@[m] as int,
                    ) by {
                        assert(order_before(devs@, src@[best as int] as int, src@[m] as int));
                    };
                }
                k = k + 1;
            }
            let ghost old_positions = positions@;
            let ghost old_src = src@;
            let chosen = src.remove(best);
            positions.push(chosen);
            proof {
                assert(src@ == old_src.remove(best as int));
                assert(positions@ == old_positions.push(chosen));
                assert forall|b: int| 0 <= b < src@.len() implies order_before(
                    devs@,
                    chosen as int,
                    #[trigger] src@[b] as int,
                ) by {
                    if b < best {
                        assert(src@[b] == old_src[b]);
                    } else {
                        assert(src@[b] == old_src[b + 1]);
                    }
                };
                assert forall|b: int| 0 <= b < src@.len() implies chosen != #[trigger] src@[b] by {
                    if b < best {
                        assert(src@[b] == old_src[b]);
                    } else {
                        assert(src@[b] == old_src[b + 1]);
                    }
                };
                assert forall|a: int, b: int| 0 <= a < b < src@.len() implies src@[a]
                    != src@[b] by {
                    if a < best {
                        assert(src@[a] == old_src[a]);
                    } else {
                        assert(src@[a] == old_src[a + 1]);
                    }
                    if b < best {
                        assert(src@[b] == old_src[b]);
                    } else {
                        assert(src@[b] == old_src[b + 1]);
                    }
                };
                assert forall|a: int, b: int|
                    13 <= a < positions@.len() && 0 <= b < src@.len() implies order_before(
                    devs@,
                    positions@[a] as int,
                    src@[b] as int,
                ) by {
                    if b < best {
                        assert(src@[b] == old_src[b]);
                    } else {
                        assert(src@[b] == old_src[b + 1]);
                    }
                    if a < old_positions.len() {
                        assert(positions@[a] == old_positions[a]);
                    }
                };
                assert forall|a: int, b: int|
                    13 <= a < positions@.len() && 0 <= b < src@.len() implies positions@[a]
                    != src@[b] by {
                    if b < best {
                        assert(src@[b] == old_src[b]);
                    } else {
                        assert(src@[b] == old_src[b + 1]);
                    }
                    if a < old_positions.len() {
                        assert(positions@[a] == old_positions[a]);
                    }
                };
            }
        }
        let order = TuningOrder { positions, kind: OrderKind::ProfileDriven };
        proof {
            assert forall|a: int, b: int| 0 <= a < b < 88 implies order.positions@[a]
                != order.positions@[b] by {
                if a < 13 && b >= 13 {
                    assert(outside_temperament(order.positions@[b] as int));
                    assert(order.positions@[a] == 32 + a);
                }
            };
        }
        order
    }

    /// Number of positions in the order.
    pub fn len(&self) -> (n: usize)
        ensures
            n == self.positions@.len(),
    {
        self.positions.len()
    }

    /// The chromatic index visited at a position.
    pub fn index_at(&self, position: usize) -> (i: usize)
        requires
            position < self.positions@.len(),
        ensures
            i == self.positions@[position as int],
    {
        self.positions[position]
    }

    /// The note visited at a position.
    pub fn note_at(&self, position: usize) -> (n: Note)
        requires
            self.wf(),
            position < self.positions@.len(),
        ensures
            is_note_for(n, 21 + self.positions@[position as int]),
    {
        Note::for_index(self.positions[position])
    }

    /// The position at which a chromatic index is visited, if any.
    pub fn position_of(&self, index: usize) -> (r: Option<usize>)
        ensures
            match r {
                Some(p) => p < self.positions@.len() && self.positions@[p as int] == index,
                None => forall|p: int|
                    0 <= p < self.positions@.len() ==> #[trigger] self.positions@[p] != index,
            },
    {
        let mut p: usize = 0;
        while p < self.positions.len()
            invariant
                p <= self.positions@.len(),
                forall|q: int| 0 <= q < p ==> #[trigger] self.positions@[q] != index,
            decreases self.positions@.len() - p,
        {
            if self.positions[p] == index {
                return Some(p);
            }
            p = p + 1;
        }
        None
    }

    /// The ordered list of notes to visit.
    pub fn notes(&self) -> (list: Vec<Note>)
        requires
            self.wf(),
        ensures
            list@.len() == 88,
            forall|p: int|
                0 <= p < 88 ==> is_note_for(
                    #[trigger] list@[p],
                    21 + self.positions@[p],
                ),
    {
        let mut list: Vec<Note> = Vec::new();
        let mut p: usize = 0;
        while p < 88
            invariant
                self.wf(),
                p <= 88,
                list@.len() == p,
                forall|q: int|
                    0 <= q < p ==> is_note_for(#[trigger] list@[q], 21 + self.positions@[q]),
            decreases 88 - p,
        {
            list.push(self.note_at(p));
            p = p + 1;
        }
        list
    }

    /// The coaching phase a position belongs to.
    pub fn phase_name(&self, position: usize) -> (r: &'static str)
        ensures
            position < 13 ==> r@ == "Temperament Octave"@,
            position >= 13 && self.kind == OrderKind::Traditional && position < 56 ==> r@
                == "Octaves Up"@,
            position >= 56 && self.kind == OrderKind::Traditional ==> r@ == "Octaves Down"@,
            position >= 13 && self.kind == OrderKind::ProfileDriven ==> r@ == "By Deviation"@,
    {
        if position < TEMPERAMENT_LEN {
            "Temperament Octave"
        } else {
            match self.kind {
                OrderKind::Traditional => {
                    if position < 56 {
                        "Octaves Up"
                    } else {
                        "Octaves Down"
                    }
                },
                OrderKind::ProfileDriven => "By Deviation",
            }
        }
    }
}

impl Default for TuningOrder {
    /// The default order is the traditional one.
    fn default() -> (order: Self)
        ensures
            order.wf(),
            order.kind == OrderKind::Traditional,
    {
        TuningOrder::new()
    }
}

/// Absolute value of a deviation in centicents.
pub fn abs_centicents(d: i64) -> (r: i64)
    requires
        -1000000000 <= d <= 1000000000,
    ensures
        r == spec_abs(d as int),
{
    if d < 0 {
        -d
    } else {
        d
    }
}

/// Some position of the traditional order visits chromatic index `i`.
pub open spec fn traditional_visits(i: int) -> bool {
    exists|p: int| 0 <= p < 88 && #[trigger] spec_traditional_at(p) == i
}

/// Every chromatic index appears exactly once in the traditional order:
/// position `i - 32` for indices from F3 upward, position `87 - i` below.
pub proof fn lemma_traditional_is_permutation()
    ensures
        forall|i: int| 0 <= i < 88 ==> #[trigger] traditional_visits(i),
        forall|p: int, q: int|
            0 <= p < q < 88 ==> spec_traditional_at(p) != spec_traditional_at(q),
{
    assert forall|i: int| 0 <= i < 88 implies #[trigger] traditional_visits(i) by {
        if i >= 32 {
            assert(spec_traditional_at(i - 32) == i);
        } else {
            assert(spec_traditional_at(87 - i) == i);
        }
    };
}

} // verus!
