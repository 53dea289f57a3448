//! The collision resolver.
//!
//! A moving body's predicted position is held in a [`Probe`]. The probe is
//! tested against every other body in collection order. Where its box and
//! another body's box share a strictly positive length on both axes, it is
//! pushed out along the axis on which they share less; when both lengths are
//! equal it is pushed out vertically. It lands flush against the other body,
//! on the side it came from, and remembers the axis. A pass over all other
//! bodies is repeated while it finds a collision, at most [`MAX_PASSES`]
//! times, so dense clusters may be left with small overlaps.

use vstd::prelude::*;
use crate::body::{models, Square, SquareModel};
use crate::scalar::{fits, greater, lesser, minus, plus, Scalar};

verus! {

/// The largest number of passes over the other bodies that one body gets in
/// one step.
pub const MAX_PASSES: u32 = 5;

/// What a [`Probe`] stands for.
pub struct ProbeModel {
    pub x: int,
    pub y: int,
    pub hit_x: bool,
    pub hit_y: bool,
}

impl ProbeModel {
    /// Both coordinates are representable.
    pub open spec fn in_range(self) -> bool {
        fits(self.x) && fits(self.y)
    }
}

/// A candidate position of a moving body, with the axes along which a
/// collision has corrected it so far.
#[derive(Clone, Copy, Debug, PartialEq, Eq, Structural)]
pub struct Probe {
    pub x: Scalar,
    pub y: Scalar,
    /// A collision moved the candidate horizontally.
    pub hit_x: bool,
    /// A collision moved the candidate vertically.
    pub hit_y: bool,
}

impl View for Probe {
    type V = ProbeModel;

    open spec fn view(&self) -> ProbeModel {
        ProbeModel { x: self.x@, y: self.y@, hit_x: self.hit_x, hit_y: self.hit_y }
    }
}

/// The length that the intervals `[a_lo, a_hi]` and `[b_lo, b_hi]` share:
/// `max(0, min(a_hi, b_hi) - max(a_lo, b_lo))`.
pub open spec fn overlap(a_lo: int, a_hi: int, b_lo: int, b_hi: int) -> int {
    greater(0, minus(lesser(a_hi, b_hi), greater(a_lo, b_lo)))
}

/// The horizontal length that a box of edge `size` at `p` shares with `b`.
pub open spec fn x_overlap(p: ProbeModel, size: int, b: SquareModel) -> int {
    overlap(p.x, plus(p.x, size), b.x, plus(b.x, b.size))
}

/// The vertical length that a box of edge `size` at `p` shares with `b`.
pub open spec fn y_overlap(p: ProbeModel, size: int, b: SquareModel) -> int {
    overlap(p.y, plus(p.y, size), b.y, plus(b.y, b.size))
}

/// A box of edge `size` at `p` collides with `b`: they share a strictly
/// positive length on both axes.
pub open spec fn collides(p: ProbeModel, size: int, b: SquareModel) -> bool {
    x_overlap(p, size, b) > 0 && y_overlap(p, size, b) > 0
}

/// The probe after it has been tested against `b`. Without a collision it
/// is unchanged. Otherwise it moves along the axis of the smaller overlap,
/// vertically on a tie: to `b`'s near edge less `size` if it came from the
/// lower side, to `b`'s far edge if not.
pub open spec fn pushed_out(p: ProbeModel, size: int, b: SquareModel) -> ProbeModel {
    if !collides(p, size, b) {
        p
    } else if x_overlap(p, size, b) < y_overlap(p, size, b) {
        ProbeModel {
            x: if p.x < b.x {
                minus(b.x, size)
            } else {
                plus(b.x, b.size)
            },
            hit_x: true,
            ..p
        }
    } else {
        ProbeModel {
            y: if p.y < b.y {
                minus(b.y, size)
            } else {
                plus(b.y, b.size)
            },
            hit_y: true,
            ..p
        }
    }
}

/// The probe after it has been tested, in order, against the first `upto`
/// bodies of `others`, but for the one at index `skip`.
pub open spec fn swept(
    p: ProbeModel,
    size: int,
    others: Seq<SquareModel>,
    skip: int,
    upto: int,
) -> ProbeModel
    decreases upto,
{
    if upto <= 0 {
        p
    } else {
        let q = swept(p, size, others, skip, upto - 1);
        if upto - 1 == skip {
            q
        } else {
            pushed_out(q, size, others[upto - 1])
        }
    }
}

/// Whether one of the tests that [`swept`] makes finds a collision.
pub open spec fn sweep_collides(
    p: ProbeModel,
    size: int,
    others: Seq<SquareModel>,
    skip: int,
    upto: int,
) -> bool
    decreases upto,
{
    if upto <= 0 {
        false
    } else {
        sweep_collides(p, size, others, skip, upto - 1) || (upto - 1 != skip && collides(
            swept(p, size, others, skip, upto - 1),
            size,
            others[upto - 1],
        ))
    }
}

/// The probe after at most `passes` passes over all of `others` but the
/// body at `skip`. The passes end with the first one that finds no
/// collision.
pub open spec fn settled(
    p: ProbeModel,
    size: int,
    others: Seq<SquareModel>,
    skip: int,
    passes: nat,
) -> ProbeModel
    decreases passes,
{
    if passes == 0 || !sweep_collides(p, size, others, skip, others.len() as int) {
        p
    } else {
        settled(
            swept(p, size, others, skip, others.len() as int),
            size,
            others,
            skip,
            (passes - 1) as nat,
        )
    }
}

/// The place of the body `a`, as a probe that no collision has corrected.
pub open spec fn resting(a: SquareModel) -> ProbeModel {
    ProbeModel { x: a.x, y: a.y, hit_x: false, hit_y: false }
}

/// No body of `bodies` collides, where it stands, with another one.
pub open spec fn apart(bodies: Seq<SquareModel>) -> bool {
    forall|i: int, j: int|
        #![trigger bodies[i], bodies[j]]
        0 <= i < bodies.len() && 0 <= j < bodies.len() && i != j ==> !collides(
            resting(bodies[i]),
            bodies[i].size,
            bodies[j],
        )
}

/// The length that two intervals share, zero if they are apart.
pub fn measure_overlap(a_lo: Scalar, a_hi: Scalar, b_lo: Scalar, b_hi: Scalar) -> (r: Scalar)
    ensures
        r@ == overlap(a_lo@, a_hi@, b_lo@, b_hi@),
{
    Scalar::zero().greater(a_hi.lesser(b_hi).minus(a_lo.greater(b_lo)))
}

/// Tests the probe against one body and pushes it out of a collision.
/// Returns the probe afterwards and whether there was a collision.
pub fn push_out(p: Probe, size: Scalar, b: &Square) -> (r: (Probe, bool))
    ensures
        r.0@ == pushed_out(p@, size@, b@),
        r.1 == collides(p@, size@, b@),
{
    let b_right = b.x.plus(b.size);
    let b_bottom = b.y.plus(b.size);
    let shared_x = measure_overlap(p.x, p.x.plus(size), b.x, b_right);
    let shared_y = measure_overlap(p.y, p.y.plus(size), b.y, b_bottom);
    if shared_x.raw > 0 && shared_y.raw > 0 {
        if shared_x.raw < shared_y.raw {
            let x = if p.x.raw < b.x.raw {
                b.x.minus(size)
            } else {
                b_right
            };
            (Probe { x, y: p.y, hit_x: true, hit_y: p.hit_y }, true)
        } else {
            let y = if p.y.raw < b.y.raw {
                b.y.minus(size)
            } else {
                b_bottom
            };
            (Probe { x: p.x, y, hit_x: p.hit_x, hit_y: true }, true)
        }
    } else {
        (p, false)
    }
}

/// Makes one pass: tests the probe against every body but the one at
/// `skip`, in order. Returns the probe afterwards and whether any test
/// found a collision.
pub fn sweep(p: Probe, size: Scalar, bodies: &Vec<Square>, skip: usize) -> (r: (Probe, bool))
    ensures
        r.0@ == swept(p@, size@, models(bodies@), skip as int, bodies.len() as int),
        r.1 == sweep_collides(p@, size@, models(bodies@), skip as int, bodies.len() as int),
{
    let ghost others = models(bodies@);
    let mut cur = p;
    let mut found = false;
    let mut j: usize = 0;
    while j < bodies.len()
        invariant
            j <= bodies.len(),
            others == models(bodies@),
            cur@ == swept(p@, size@, others, skip as int, j as int),
            found == sweep_collides(p@, size@, others, skip as int, j as int),
        decreases bodies.len() - j,
    {
        if j != skip {
            let step = push_out(cur, size, &bodies[j]);
            cur = step.0;
            found = found || step.1;
        }
        j += 1;
    }
    (cur, found)
}

/// Resolves the probe against all bodies but the one at `skip`: repeats
/// passes until one finds no collision, [`MAX_PASSES`] at most.
pub fn settle(p: Probe, size: Scalar, bodies: &Vec<Square>, skip: usize) -> (r: Probe)
    ensures
        r@ == settled(p@, size@, models(bodies@), skip as int, MAX_PASSES as nat),
{
    let ghost others = models(bodies@);
    let mut cur = p;
    let mut left: u32 = MAX_PASSES;
    while left > 0
        invariant
            others == models(bodies@),
            settled(p@, size@, others, skip as int, MAX_PASSES as nat) == settled(
                cur@,
                size@,
                others,
                skip as int,
                left as nat,
            ),
        decreases left,
    {
        let pass = sweep(cur, size, bodies, skip);
        if !pass.1 {
            return cur;
        }
        cur = pass.0;
        left -= 1;
    }
    cur
}

/// A correction ends the collision that caused it: once pushed out of
/// `b`, the probe no longer collides with `b`. This needs the place flush
/// against `b`'s near edge to be representable.
pub proof fn lemma_pushed_out_clears(p: ProbeModel, size: int, b: SquareModel)
    requires
        b.in_range(),
        fits(b.x - size),
        fits(b.y - size),
    ensures
        !collides(pushed_out(p, size, b), size, b),
{
}

/// A probe in range is still in range after it has been pushed out.
pub proof fn lemma_pushed_out_in_range(p: ProbeModel, size: int, b: SquareModel)
    requires
        p.in_range(),
    ensures
        pushed_out(p, size, b).in_range(),
{
}

/// A probe in range is still in range after a pass.
pub proof fn lemma_swept_in_range(
    p: ProbeModel,
    size: int,
    others: Seq<SquareModel>,
    skip: int,
    upto: int,
)
    requires
        p.in_range(),
    ensures
        swept(p, size, others, skip, upto).in_range(),
    decreases upto,
{
    if upto > 0 {
        lemma_swept_in_range(p, size, others, skip, upto - 1);
        lemma_pushed_out_in_range(swept(p, size, others, skip, upto - 1), size, others[upto - 1]);
    }
}

/// A probe in range is still in range when it has settled.
pub proof fn lemma_settled_in_range(
    p: ProbeModel,
    size: int,
    others: Seq<SquareModel>,
    skip: int,
    passes: nat,
)
    requires
        p.in_range(),
    ensures
        settled(p, size, others, skip, passes).in_range(),
    decreases passes,
{
    if passes > 0 && sweep_collides(p, size, others, skip, others.len() as int) {
        lemma_swept_in_range(p, size, others, skip, others.len() as int);
        lemma_settled_in_range(
            swept(p, size, others, skip, others.len() as int),
            size,
            others,
            skip,
            (passes - 1) as nat,
        );
    }
}

/// A pass that finds no collision leaves the probe as it was, and shows
/// that the probe collides with none of the bodies it was tested against.
pub proof fn lemma_quiet_sweep(
    p: ProbeModel,
    size: int,
    others: Seq<SquareModel>,
    skip: int,
    upto: int,
)
    requires
        !sweep_collides(p, size, others, skip, upto),
    ensures
        swept(p, size, others, skip, upto) == p,
        forall|j: int| 0 <= j < upto && j != skip ==> !collides(p, size, #[trigger] others[j]),
    decreases upto,
{
    if upto > 0 {
        lemma_quiet_sweep(p, size, others, skip, upto - 1);
    }
}

/// A probe that collides with none of the bodies it is tested against
/// passes them without a collision, and settles where it is.
pub proof fn lemma_clear_of_all(
    p: ProbeModel,
    size: int,
    others: Seq<SquareModel>,
    skip: int,
    upto: int,
    passes: nat,
)
    requires
        upto <= others.len(),
        forall|j: int| 0 <= j < upto && j != skip ==> !collides(p, size, #[trigger] others[j]),
    ensures
        !sweep_collides(p, size, others, skip, upto),
        swept(p, size, others, skip, upto) == p,
        upto == others.len() ==> settled(p, size, others, skip, passes) == p,
    decreases upto,
{
    if upto > 0 {
        lemma_clear_of_all(p, size, others, skip, upto - 1, passes);
    }
}

} // verus!
