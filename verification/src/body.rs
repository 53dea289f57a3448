//! Bodies and forces: the passive data of a simulation, and their
//! mathematical models.

use vstd::prelude::*;
use crate::scalar::{fits, Scalar};

verus! {

/// What a [`Square`] stands for: raw fixed-point values and the name as a
/// sequence of characters.
pub struct SquareModel {
    pub name: Seq<char>,
    pub is_fixed: bool,
    pub x: int,
    pub y: int,
    pub size: int,
    pub mass: int,
    pub x_vel: int,
    pub y_vel: int,
    pub x_acc: int,
    pub y_acc: int,
}

impl SquareModel {
    /// Every number of the body is representable.
    pub open spec fn in_range(self) -> bool {
        &&& fits(self.x)
        &&& fits(self.y)
        &&& fits(self.size)
        &&& fits(self.mass)
        &&& fits(self.x_vel)
        &&& fits(self.y_vel)
        &&& fits(self.x_acc)
        &&& fits(self.y_acc)
    }

    /// A movable body has a positive mass.
    pub open spec fn has_weight(self) -> bool {
        self.is_fixed || self.mass > 0
    }

    /// A fixed body is at rest.
    pub open spec fn anchored(self) -> bool {
        self.is_fixed ==> self.x_vel == 0 && self.y_vel == 0 && self.x_acc == 0 && self.y_acc == 0
    }

    /// A fixed body is at rest; a movable body has a positive mass.
    pub open spec fn sound(self) -> bool {
        self.has_weight() && self.anchored()
    }

    /// The body is sound and in range.
    pub open spec fn valid(self) -> bool {
        self.sound() && self.in_range()
    }

    /// The two are states of one body: they agree in name, in being fixed
    /// or movable, in size and in mass.
    pub open spec fn same_body(self, other: SquareModel) -> bool {
        &&& self.name == other.name
        &&& self.is_fixed == other.is_fixed
        &&& self.size == other.size
        &&& self.mass == other.mass
    }

    /// The body as it is created: at rest at the given place.
    pub open spec fn at_rest(
        name: Seq<char>,
        is_fixed: bool,
        x: int,
        y: int,
        size: int,
        mass: int,
    ) -> SquareModel {
        SquareModel { name, is_fixed, x, y, size, mass, x_vel: 0, y_vel: 0, x_acc: 0, y_acc: 0 }
    }
}

/// An axis-aligned square body. It occupies `[x, x + size]` by
/// `[y, y + size]`; `(x, y)` is its top-left corner.
#[derive(Debug, PartialEq, Eq)]
pub struct Square {
    /// The host's label for the body. The physics never reads it.
    pub name: String,
    /// A fixed body is never moved, but other bodies collide with it.
    pub is_fixed: bool,
    pub x: Scalar,
    pub y: Scalar,
    /// The edge length.
    pub size: Scalar,
    pub mass: Scalar,
    pub x_vel: Scalar,
    pub y_vel: Scalar,
    pub x_acc: Scalar,
    pub y_acc: Scalar,
}

impl View for Square {
    type V = SquareModel;

    open spec fn view(&self) -> SquareModel {
        SquareModel {
            name: self.name@,
            is_fixed: self.is_fixed,
            x: self.x@,
            y: self.y@,
            size: self.size@,
            mass: self.mass@,
            x_vel: self.x_vel@,
            y_vel: self.y_vel@,
            x_acc: self.x_acc@,
            y_acc: self.y_acc@,
        }
    }
}

impl Square {
    /// A body at rest at `(x, y)`.
    pub fn new(
        name: String,
        is_fixed: bool,
        x: Scalar,
        y: Scalar,
        size: Scalar,
        mass: Scalar,
    ) -> (s: Square)
        ensures
            s@ == SquareModel::at_rest(name@, is_fixed, x@, y@, size@, mass@),
    {
        Square {
            name,
            is_fixed,
            x,
            y,
            size,
            mass,
            x_vel: Scalar::zero(),
            y_vel: Scalar::zero(),
            x_acc: Scalar::zero(),
            y_acc: Scalar::zero(),
        }
    }
}

/// The models of a sequence of bodies, in the same order.
pub open spec fn models(bodies: Seq<Square>) -> Seq<SquareModel> {
    bodies.map_values(|s: Square| s@)
}

/// Every movable body of the sequence has a positive mass.
pub open spec fn all_have_weight(bodies: Seq<SquareModel>) -> bool {
    forall|i: int| 0 <= i < bodies.len() ==> (#[trigger] bodies[i]).has_weight()
}

/// Every body of the sequence is valid.
pub open spec fn all_valid(bodies: Seq<SquareModel>) -> bool {
    forall|i: int| 0 <= i < bodies.len() ==> (#[trigger] bodies[i]).valid()
}

/// Among valid bodies, every movable one has a positive mass.
pub proof fn lemma_valid_bodies_have_weight(bodies: Seq<SquareModel>)
    requires
        all_valid(bodies),
    ensures
        all_have_weight(bodies),
{
    assert forall|i: int| 0 <= i < bodies.len() implies (#[trigger] bodies[i]).has_weight() by {
        assert(bodies[i].valid());
    }
}

/// What a [`Force`] stands for.
pub struct ForceModel {
    pub name: Seq<char>,
    pub x: int,
    pub y: int,
}

impl ForceModel {
    /// Both components are representable.
    pub open spec fn in_range(self) -> bool {
        fits(self.x) && fits(self.y)
    }
}

/// A named vector that pulls on every movable body alike.
#[derive(Debug)]
pub struct Force {
    pub name: String,
    pub x: Scalar,
    pub y: Scalar,
}

impl View for Force {
    type V = ForceModel;

    open spec fn view(&self) -> ForceModel {
        ForceModel { name: self.name@, x: self.x@, y: self.y@ }
    }
}

impl Force {
    /// The force `(x, y)` under the given name.
    pub fn new(name: String, x: Scalar, y: Scalar) -> (f: Force)
        ensures
            f@ == (ForceModel { name: name@, x: x@, y: y@ }),
    {
        Force { name, x, y }
    }

    /// A copy of the name.
    pub fn name(&self) -> (r: String)
        ensures
            r@ == self@.name,
    {
        self.name.clone()
    }

    /// The horizontal component.
    pub fn x(&self) -> (r: Scalar)
        ensures
            r@ == self@.x,
    {
        self.x
    }

    /// The vertical component.
    pub fn y(&self) -> (r: Scalar)
        ensures
            r@ == self@.y,
    {
        self.y
    }
}

impl Clone for Force {
    fn clone(&self) -> (r: Force)
        ensures
            r@ == self@,
    {
        Force { name: self.name.clone(), x: self.x, y: self.y }
    }
}

/// The models of a sequence of forces, in the same order.
pub open spec fn force_models(forces: Seq<Force>) -> Seq<ForceModel> {
    forces.map_values(|f: Force| f@)
}

} // verus!
