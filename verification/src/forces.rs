//! The force accumulator: the net force of a step, and the acceleration it
//! gives each movable body.

use vstd::prelude::*;
use crate::body::{
    all_have_weight, all_valid, force_models, models, Force, ForceModel, Square, SquareModel,
};
use crate::scalar::{over, plus, Scalar};

verus! {

/// The horizontal components of `forces`, summed in order from zero.
pub open spec fn net_x(forces: Seq<ForceModel>) -> int
    decreases forces.len(),
{
    if forces.len() == 0 {
        0
    } else {
        plus(net_x(forces.drop_last()), forces.last().x)
    }
}

/// The vertical components of `forces`, summed in order from zero.
pub open spec fn net_y(forces: Seq<ForceModel>) -> int
    decreases forces.len(),
{
    if forces.len() == 0 {
        0
    } else {
        plus(net_y(forces.drop_last()), forces.last().y)
    }
}

/// The body under the net force `(fx, fy)`: a movable body accelerates by
/// the force divided by its mass, a fixed body is left as it is.
pub open spec fn accelerated(b: SquareModel, fx: int, fy: int) -> SquareModel {
    if b.is_fixed {
        b
    } else {
        SquareModel { x_acc: over(fx, b.mass), y_acc: over(fy, b.mass), ..b }
    }
}

/// Every body of `bodies` under the net force of `forces`.
pub open spec fn accumulated(bodies: Seq<SquareModel>, forces: Seq<ForceModel>) -> Seq<
    SquareModel,
> {
    bodies.map_values(|b: SquareModel| accelerated(b, net_x(forces), net_y(forces)))
}

/// The sum of all forces, component by component.
pub fn net_force(forces: &Vec<Force>) -> (net: (Scalar, Scalar))
    ensures
        net.0@ == net_x(force_models(forces@)),
        net.1@ == net_y(force_models(forces@)),
{
    let ghost all = force_models(forces@);
    let mut fx = Scalar::zero();
    let mut fy = Scalar::zero();
    let mut i: usize = 0;
    while i < forces.len()
        invariant
            i <= forces.len(),
            all == force_models(forces@),
            fx@ == net_x(all.take(i as int)),
            fy@ == net_y(all.take(i as int)),
        decreases forces.len() - i,
    {
        proof {
            let next = all.take(i as int + 1);
            assert(next.drop_last() =~= all.take(i as int));
            assert(next.last() == forces@[i as int]@);
        }
        fx = fx.plus(forces[i].x);
        fy = fy.plus(forces[i].y);
        i += 1;
    }
    proof {
        assert(all.take(i as int) =~= all);
    }
    (fx, fy)
}

/// Gives every movable body the acceleration that the current forces
/// produce on its mass. Fixed bodies are skipped.
pub fn accumulate(bodies: &mut Vec<Square>, forces: &Vec<Force>)
    requires
        all_have_weight(models(old(bodies)@)),
    ensures
        models(final(bodies)@) == accumulated(models(old(bodies)@), force_models(forces@)),
{
    let ghost before = models(bodies@);
    let net = net_force(forces);
    let fx = net.0;
    let fy = net.1;
    let n = bodies.len();
    let mut i: usize = 0;
    while i < n
        invariant
            i <= n,
            n == bodies.len(),
            n == before.len(),
            all_have_weight(before),
            forall|k: int|
                0 <= k < i ==> (#[trigger] bodies@[k])@ == accelerated(before[k], fx@, fy@),
            forall|k: int| i <= k < n ==> (#[trigger] bodies@[k])@ == before[k],
        decreases n - i,
    {
        if !bodies[i].is_fixed {
            assert(before[i as int].has_weight());
            let mass = bodies[i].mass;
            bodies[i].x_acc = fx.over(mass);
            bodies[i].y_acc = fy.over(mass);
        }
        i += 1;
    }
    assert(models(bodies@) =~= accumulated(before, force_models(forces@)));
}

/// Forces change nothing but the accelerations of movable bodies, so valid
/// bodies stay valid.
pub proof fn lemma_accumulated_valid(bodies: Seq<SquareModel>, forces: Seq<ForceModel>)
    requires
        all_valid(bodies),
    ensures
        accumulated(bodies, forces).len() == bodies.len(),
        all_valid(accumulated(bodies, forces)),
{
    let after = accumulated(bodies, forces);
    assert forall|i: int| 0 <= i < after.len() implies (#[trigger] after[i]).valid() by {
        assert(bodies[i].valid());
    }
}

} // verus!
