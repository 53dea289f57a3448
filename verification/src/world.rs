//! The world: it owns the bodies and the forces, keeps the clock and the
//! visible area, and advances the simulation one step at a time.

use vstd::prelude::*;
use crate::body::{
    all_valid, force_models, lemma_valid_bodies_have_weight, models, Force, ForceModel, Square,
    SquareModel,
};
use crate::culling::{cull, culled, lemma_culled_valid};
use crate::forces::{accumulate, accumulated, lemma_accumulated_valid};
use crate::integrator::{lemma_stepped_all_valid, step_all, stepped_all};
use crate::scalar::{fits, minus, plus, Scalar};

verus! {

/// What a [`World`] stands for.
pub struct WorldModel {
    /// The bodies, in insertion order.
    pub squares: Seq<SquareModel>,
    /// The forces, in insertion order.
    pub forces: Seq<ForceModel>,
    /// The clock reading of the latest step.
    pub last_update: int,
    /// The visible area is `[0, x_max]` by `[0, y_max]`.
    pub x_max: int,
    pub y_max: int,
}

impl WorldModel {
    /// Every body is valid and every other number is representable.
    pub open spec fn valid(self) -> bool {
        &&& all_valid(self.squares)
        &&& forall|i: int| 0 <= i < self.forces.len() ==> (#[trigger] self.forces[i]).in_range()
        &&& fits(self.last_update)
        &&& fits(self.x_max)
        &&& fits(self.y_max)
    }
}

/// Why a body was not added to the world.
#[derive(Clone, Copy, Debug, PartialEq, Eq, Structural)]
pub enum Rejection {
    /// A movable body needs a mass above zero.
    InvalidMass,
    /// The requested box overlaps the box of a body of the world.
    Overlap,
}

/// The box of `new` overlaps the box of `other` on both axes.
pub open spec fn boxes_overlap(new: SquareModel, other: SquareModel) -> bool {
    &&& new.x < plus(other.x, other.size)
    &&& plus(new.x, new.size) > other.x
    &&& new.y < plus(other.y, other.size)
    &&& plus(new.y, new.size) > other.y
}

/// The box of `new` overlaps the box of some body of `bodies`.
pub open spec fn blocked(bodies: Seq<SquareModel>, new: SquareModel) -> bool {
    exists|i: int| 0 <= i < bodies.len() && boxes_overlap(new, #[trigger] bodies[i])
}

/// Why a request for the body `new` is turned down, if it is. The mass is
/// judged before the place.
pub open spec fn refusal(bodies: Seq<SquareModel>, new: SquareModel) -> Option<Rejection> {
    if !new.is_fixed && new.mass <= 0 {
        Some(Rejection::InvalidMass)
    } else if blocked(bodies, new) {
        Some(Rejection::Overlap)
    } else {
        None
    }
}

/// The world after a request for the body `new`: with the body appended,
/// or as it was if the request is refused.
pub open spec fn requested(w: WorldModel, new: SquareModel) -> WorldModel {
    if refusal(w.squares, new) is None {
        WorldModel { squares: w.squares.push(new), ..w }
    } else {
        w
    }
}

/// The time that a step to the clock reading `now` covers. A clock that
/// stands still or runs backwards counts as no time at all.
pub open spec fn elapsed(last: int, now: int) -> int {
    if now > last {
        minus(now, last)
    } else {
        0
    }
}

/// The bodies of `w` after a step to the clock reading `time`, before
/// culling: accelerated by the forces, then moved one by one.
pub open spec fn moved(w: WorldModel, time: int) -> Seq<SquareModel> {
    stepped_all(
        accumulated(w.squares, w.forces),
        w.squares.len() as int,
        elapsed(w.last_update, time),
    )
}

/// The world after a step to the clock reading `time`.
pub open spec fn advanced(w: WorldModel, time: int) -> WorldModel {
    WorldModel { squares: culled(moved(w, time), w.x_max, w.y_max), last_update: time, ..w }
}

/// The read model of the bodies: `x`, `y` and `size` of each, in order.
pub open spec fn props(bodies: Seq<SquareModel>) -> Seq<int> {
    Seq::new(
        3 * bodies.len(),
        |k: int|
            if k % 3 == 0 {
                bodies[k / 3].x
            } else if k % 3 == 1 {
                bodies[k / 3].y
            } else {
                bodies[k / 3].size
            },
    )
}

/// The raw values of a sequence of numbers, in the same order.
pub open spec fn raws(numbers: Seq<Scalar>) -> Seq<int> {
    numbers.map_values(|s: Scalar| s@)
}

/// A simulation: bodies, forces, a clock and a visible area.
pub struct World {
    squares: Vec<Square>,
    forces: Vec<Force>,
    last_update: Scalar,
    x_max: Scalar,
    y_max: Scalar,
}

impl View for World {
    type V = WorldModel;

    closed spec fn view(&self) -> WorldModel {
        WorldModel {
            squares: models(self.squares@),
            forces: force_models(self.forces@),
            last_update: self.last_update@,
            x_max: self.x_max@,
            y_max: self.y_max@,
        }
    }
}

impl World {
    #[verifier::type_invariant]
    spec fn well_formed(self) -> bool {
        all_valid(models(self.squares@))
    }

    /// Moves the bodies out and leaves none behind.
    fn take_squares(&mut self) -> (taken: Vec<Square>)
        ensures
            taken@ == old(self).squares@,
            final(self).squares@ == Seq::<Square>::empty(),
            final(self).forces == old(self).forces,
            final(self).last_update == old(self).last_update,
            final(self).x_max == old(self).x_max,
            final(self).y_max == old(self).y_max,
    {
        let mut taken: Vec<Square> = Vec::new();
        std::mem::swap(&mut taken, &mut self.squares);
        taken
    }

    /// Moves the forces out and leaves none behind.
    fn take_forces(&mut self) -> (taken: Vec<Force>)
        ensures
            taken@ == old(self).forces@,
            final(self).forces@ == Seq::<Force>::empty(),
            final(self).squares == old(self).squares,
            final(self).last_update == old(self).last_update,
            final(self).x_max == old(self).x_max,
            final(self).y_max == old(self).y_max,
    {
        proof {
            use_type_invariant(&*self);
        }
        let mut taken: Vec<Force> = Vec::new();
        std::mem::swap(&mut taken, &mut self.forces);
        taken
    }

    /// An empty world whose clock reads `time` and whose visible area is
    /// `canvas_width` wide and `canvas_height` high.
    pub fn new(time: Scalar, canvas_width: Scalar, canvas_height: Scalar) -> (w: World)
        ensures
            w@ == (WorldModel {
                squares: Seq::empty(),
                forces: Seq::empty(),
                last_update: time@,
                x_max: canvas_width@,
                y_max: canvas_height@,
            }),
            w@.valid(),
    {
        let w = World {
            squares: Vec::new(),
            forces: Vec::new(),
            last_update: time,
            x_max: canvas_width,
            y_max: canvas_height,
        };
        assert(w@.squares =~= Seq::empty());
        assert(w@.forces =~= Seq::empty());
        w
    }

    /// Adds a body at rest, unless it is refused. A movable body is refused
    /// for a mass that is not above zero, and any body for a box that
    /// overlaps the box of a body already there. A refusal leaves the world
    /// as it was.
    pub fn add_square(
        &mut self,
        name: &str,
        is_fixed: bool,
        x: Scalar,
        y: Scalar,
        size: Scalar,
        mass: Scalar,
    ) -> (r: Result<(), Rejection>)
        ensures
            ({
                let new = SquareModel::at_rest(name@, is_fixed, x@, y@, size@, mass@);
                &&& final(self)@ == requested(old(self)@, new)
                &&& match refusal(old(self)@.squares, new) {
                    Some(why) => r == Err::<(), Rejection>(why),
                    None => r == Ok::<(), Rejection>(()),
                }
            }),
            final(self)@.valid(),
    {
        proof {
            use_type_invariant(&*self);
        }
        let ghost new = SquareModel::at_rest(name@, is_fixed, x@, y@, size@, mass@);
        if !is_fixed && mass.raw <= 0 {
            return Err(Rejection::InvalidMass);
        }
        let right = x.plus(size);
        let bottom = y.plus(size);
        let mut i: usize = 0;
        while i < self.squares.len()
            invariant
                i <= self.squares.len(),
                *self == *old(self),
                all_valid(models(self.squares@)),
                new == SquareModel::at_rest(name@, is_fixed, x@, y@, size@, mass@),
                is_fixed || mass@ > 0,
                right@ == plus(x@, size@),
                bottom@ == plus(y@, size@),
                forall|k: int|
                    0 <= k < i ==> !boxes_overlap(new, #[trigger] models(self.squares@)[k]),
            decreases self.squares.len() - i,
        {
            let s = &self.squares[i];
            let overlap_x = x.raw < s.x.plus(s.size).raw && right.raw > s.x.raw;
            let overlap_y = y.raw < s.y.plus(s.size).raw && bottom.raw > s.y.raw;
            if overlap_x && overlap_y {
                assert(boxes_overlap(new, models(self.squares@)[i as int]));
                return Err(Rejection::Overlap);
            }
            i += 1;
        }
        let mut squares = self.take_squares();
        squares.push(Square::new(name.to_string(), is_fixed, x, y, size, mass));
        assert(models(squares@) =~= models(old(self).squares@).push(new));
        self.squares = squares;
        Ok(())
    }

    /// Adds a force.
    pub fn add_force(&mut self, force: Force)
        ensures
            final(self)@ == (WorldModel {
                forces: old(self)@.forces.push(force@),
                ..old(self)@
            }),
            final(self)@.valid(),
    {
        proof {
            use_type_invariant(&*self);
        }
        let mut forces = self.take_forces();
        forces.push(force);
        self.forces = forces;
        assert(force_models(self.forces@) =~= force_models(old(self).forces@).push(force@));
    }

    /// The bodies, in collection order.
    pub fn squares(&self) -> (r: &Vec<Square>)
        ensures
            models(r@) == self@.squares,
    {
        &self.squares
    }

    /// The forces, in collection order.
    pub fn forces(&self) -> (r: &Vec<Force>)
        ensures
            force_models(r@) == self@.forces,
    {
        &self.forces
    }

    /// The clock reading of the latest step, or of the creation if no step
    /// was taken yet.
    pub fn last_update(&self) -> (r: Scalar)
        ensures
            r@ == self@.last_update,
    {
        self.last_update
    }

    /// `x`, `y` and `size` of every body, in collection order.
    pub fn get_square_props(&self) -> (r: Vec<Scalar>)
        ensures
            raws(r@) == props(self@.squares),
    {
        let ghost all = models(self.squares@);
        let mut out: Vec<Scalar> = Vec::new();
        let mut i: usize = 0;
        while i < self.squares.len()
            invariant
                i <= self.squares.len(),
                all == models(self.squares@),
                out.len() == 3 * i,
                forall|k: int| 0 <= k < out.len() ==> (#[trigger] out@[k])@ == props(all)[k],
            decreases self.squares.len() - i,
        {
            let s = &self.squares[i];
            out.push(s.x);
            out.push(s.y);
            out.push(s.size);
            i += 1;
        }
        assert(raws(out@) =~= props(all));
        out
    }

    /// A copy of the forces, in collection order.
    pub fn get_global_forces(&self) -> (r: Vec<Force>)
        ensures
            force_models(r@) == self@.forces,
    {
        let mut out: Vec<Force> = Vec::new();
        let mut i: usize = 0;
        while i < self.forces.len()
            invariant
                i <= self.forces.len(),
                out.len() == i,
                forall|k: int| 0 <= k < i ==> (#[trigger] out@[k])@ == self.forces@[k]@,
            decreases self.forces.len() - i,
        {
            out.push(self.forces[i].clone());
            i += 1;
        }
        assert(force_models(out@) =~= force_models(self.forces@));
        out
    }

    /// Advances the simulation to the clock reading `time`. The forces set
    /// the acceleration of every movable body; each movable body in turn is
    /// predicted, resolved against all others and committed; then the
    /// bodies that lie wholly outside the visible area are removed.
    pub fn update(&mut self, time: Scalar)
        ensures
            final(self)@ == advanced(old(self)@, time@),
            final(self)@.valid(),
    {
        proof {
            use_type_invariant(&*self);
        }
        let ghost before = self@;
        let dt = if time.raw > self.last_update.raw {
            time.minus(self.last_update)
        } else {
            Scalar::zero()
        };
        let mut squares = self.take_squares();
        proof {
            lemma_valid_bodies_have_weight(before.squares);
        }
        accumulate(&mut squares, &self.forces);
        step_all(&mut squares, dt);
        proof {
            lemma_accumulated_valid(before.squares, before.forces);
            lemma_stepped_all_valid(
                accumulated(before.squares, before.forces),
                before.squares.len() as int,
                dt@,
            );
            lemma_culled_valid(moved(before, time@), before.x_max, before.y_max);
        }
        let kept = cull(squares, self.x_max, self.y_max);
        self.squares = kept;
        self.last_update = time;
    }

    /// Replaces the horizontal component of the force at `index`.
    pub fn change_force_x(&mut self, index: usize, x: Scalar)
        requires
            index < old(self)@.forces.len(),
        ensures
            final(self)@ == (WorldModel {
                forces: old(self)@.forces.update(
                    index as int,
                    (ForceModel { x: x@, ..old(self)@.forces[index as int] }),
                ),
                ..old(self)@
            }),
            final(self)@.valid(),
    {
        proof {
            use_type_invariant(&*self);
        }
        self.forces[index].x = x;
        assert(force_models(self.forces@) =~= force_models(old(self).forces@).update(
            index as int,
            (ForceModel { x: x@, ..old(self)@.forces[index as int] }),
        ));
    }

    /// Replaces the vertical component of the force at `index`.
    pub fn change_force_y(&mut self, index: usize, y: Scalar)
        requires
            index < old(self)@.forces.len(),
        ensures
            final(self)@ == (WorldModel {
                forces: old(self)@.forces.update(
                    index as int,
                    (ForceModel { y: y@, ..old(self)@.forces[index as int] }),
                ),
                ..old(self)@
            }),
            final(self)@.valid(),
    {
        proof {
            use_type_invariant(&*self);
        }
        self.forces[index].y = y;
        assert(force_models(self.forces@) =~= force_models(old(self).forces@).update(
            index as int,
            (ForceModel { y: y@, ..old(self)@.forces[index as int] }),
        ));
    }
}

} // verus!
