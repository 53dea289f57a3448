//! The integrator: where a body would be after a time step, and what a
//! step makes of one body and of all bodies in turn.
//!
//! Each movable body is predicted with the constant-acceleration formula,
//! resolved against all others as they stand at that moment, and then
//! committed. Bodies are taken in collection order, so a body sees its
//! earlier neighbours where this step put them and its later neighbours
//! where the previous step left them.

use vstd::prelude::*;
use crate::body::{all_valid, models, Square, SquareModel};
use crate::collision::{
    apart, collides, lemma_clear_of_all, lemma_settled_in_range, resting, settle, settled, Probe,
    ProbeModel, MAX_PASSES,
};
use crate::scalar::{fits, plus, times, Scalar, HALF};

verus! {

/// `pos + vel * dt + (0.5 * acc) * (dt * dt)`, each operation saturating
/// and each product rounded toward zero.
pub open spec fn predicted(pos: int, vel: int, acc: int, dt: int) -> int {
    plus(plus(pos, times(vel, dt)), times(times(HALF as int, acc), times(dt, dt)))
}

/// The velocity component that a step leaves: zero on an axis along which
/// a collision corrected the body, `vel + acc * dt` otherwise.
pub open spec fn carried(vel: int, acc: int, dt: int, hit: bool) -> int {
    if hit {
        0
    } else {
        plus(vel, times(acc, dt))
    }
}

/// Where the body `a` starts its collision resolution: at its predicted
/// position, with no axis corrected.
pub open spec fn launched(a: SquareModel, dt: int) -> ProbeModel {
    ProbeModel {
        x: predicted(a.x, a.x_vel, a.x_acc, dt),
        y: predicted(a.y, a.y_vel, a.y_acc, dt),
        hit_x: false,
        hit_y: false,
    }
}

/// The body `a` committed to the resolved position `end`.
pub open spec fn committed(a: SquareModel, end: ProbeModel, dt: int) -> SquareModel {
    SquareModel {
        x: end.x,
        y: end.y,
        x_vel: carried(a.x_vel, a.x_acc, dt, end.hit_x),
        y_vel: carried(a.y_vel, a.y_acc, dt, end.hit_y),
        ..a
    }
}

/// The bodies after the one at index `i` has taken its step of length
/// `dt`. A fixed body takes none.
pub open spec fn stepped(bodies: Seq<SquareModel>, i: int, dt: int) -> Seq<SquareModel> {
    let a = bodies[i];
    if a.is_fixed {
        bodies
    } else {
        bodies.update(
            i,
            committed(a, settled(launched(a, dt), a.size, bodies, i, MAX_PASSES as nat), dt),
        )
    }
}

/// The bodies after the first `upto` of them have taken their steps, in
/// order.
pub open spec fn stepped_all(bodies: Seq<SquareModel>, upto: int, dt: int) -> Seq<SquareModel>
    decreases upto,
{
    if upto <= 0 {
        bodies
    } else {
        stepped(stepped_all(bodies, upto - 1, dt), upto - 1, dt)
    }
}

/// The coordinate after `dt` at constant acceleration.
pub fn predict(pos: Scalar, vel: Scalar, acc: Scalar, dt: Scalar) -> (r: Scalar)
    ensures
        r@ == predicted(pos@, vel@, acc@, dt@),
{
    pos.plus(vel.times(dt)).plus(Scalar::half().times(acc).times(dt.times(dt)))
}

/// The velocity component after the step.
pub fn carry(vel: Scalar, acc: Scalar, dt: Scalar, hit: bool) -> (r: Scalar)
    ensures
        r@ == carried(vel@, acc@, dt@, hit),
{
    if hit {
        Scalar::zero()
    } else {
        vel.plus(acc.times(dt))
    }
}

/// Moves the body at index `i` by one step of length `dt`: predicts,
/// resolves collisions with all other bodies, commits position and
/// velocity.
pub fn step_body(bodies: &mut Vec<Square>, i: usize, dt: Scalar)
    requires
        i < old(bodies).len(),
    ensures
        final(bodies).len() == old(bodies).len(),
        models(final(bodies)@) == stepped(models(old(bodies)@), i as int, dt@),
{
    let ghost before = models(bodies@);
    if bodies[i].is_fixed {
        return ;
    }
    let x_vel = bodies[i].x_vel;
    let y_vel = bodies[i].y_vel;
    let x_acc = bodies[i].x_acc;
    let y_acc = bodies[i].y_acc;
    let start = Probe {
        x: predict(bodies[i].x, x_vel, x_acc, dt),
        y: predict(bodies[i].y, y_vel, y_acc, dt),
        hit_x: false,
        hit_y: false,
    };
    let end = settle(start, bodies[i].size, bodies, i);
    bodies[i].x = end.x;
    bodies[i].y = end.y;
    bodies[i].x_vel = carry(x_vel, x_acc, dt, end.hit_x);
    bodies[i].y_vel = carry(y_vel, y_acc, dt, end.hit_y);
    assert(models(bodies@) =~= stepped(before, i as int, dt@));
}

/// Moves every body by one step of length `dt`, in collection order.
pub fn step_all(bodies: &mut Vec<Square>, dt: Scalar)
    ensures
        final(bodies).len() == old(bodies).len(),
        models(final(bodies)@) == stepped_all(
            models(old(bodies)@),
            old(bodies).len() as int,
            dt@,
        ),
{
    let ghost before = models(bodies@);
    let n = bodies.len();
    let mut i: usize = 0;
    while i < n
        invariant
            i <= n,
            n == bodies.len(),
            models(bodies@) == stepped_all(before, i as int, dt@),
        decreases n - i,
    {
        step_body(bodies, i, dt);
        i += 1;
    }
}

/// A step keeps the number of bodies and changes only the body that takes
/// it. Valid bodies stay valid: the step touches no fixed body and no mass,
/// and every number it writes is representable.
pub proof fn lemma_stepped_valid(bodies: Seq<SquareModel>, i: int, dt: int)
    requires
        all_valid(bodies),
        0 <= i < bodies.len(),
    ensures
        stepped(bodies, i, dt).len() == bodies.len(),
        forall|k: int| 0 <= k < bodies.len() && k != i ==> stepped(bodies, i, dt)[k] == bodies[k],
        all_valid(stepped(bodies, i, dt)),
{
    let after = stepped(bodies, i, dt);
    let a = bodies[i];
    assert(a.valid());
    lemma_settled_in_range(launched(a, dt), a.size, bodies, i, MAX_PASSES as nat);
    assert forall|k: int| 0 <= k < after.len() implies (#[trigger] after[k]).valid() by {
        assert(bodies[k].valid());
    }
}

/// Steps of the first `upto` bodies keep the number of bodies, and valid
/// bodies stay valid.
pub proof fn lemma_stepped_all_valid(bodies: Seq<SquareModel>, upto: int, dt: int)
    requires
        all_valid(bodies),
        0 <= upto <= bodies.len(),
    ensures
        stepped_all(bodies, upto, dt).len() == bodies.len(),
        all_valid(stepped_all(bodies, upto, dt)),
    decreases upto,
{
    if upto > 0 {
        lemma_stepped_all_valid(bodies, upto - 1, dt);
        lemma_stepped_valid(stepped_all(bodies, upto - 1, dt), upto - 1, dt);
    }
}

/// No step moves a fixed body: after the first `upto` bodies have taken
/// theirs, a fixed body is exactly as it was.
pub proof fn lemma_stepped_all_keeps_fixed(bodies: Seq<SquareModel>, upto: int, dt: int, i: int)
    requires
        0 <= upto <= bodies.len(),
        0 <= i < bodies.len(),
        bodies[i].is_fixed,
    ensures
        stepped_all(bodies, upto, dt).len() == bodies.len(),
        stepped_all(bodies, upto, dt)[i] == bodies[i],
    decreases upto,
{
    if upto > 0 {
        lemma_stepped_all_keeps_fixed(bodies, upto - 1, dt, i);
    }
}

/// The steps of the first `upto` bodies keep the number of bodies and
/// change neither the name of a body, nor whether it is fixed, nor its
/// size, nor its mass, nor its acceleration.
pub proof fn lemma_stepped_all_keeps_identity(bodies: Seq<SquareModel>, upto: int, dt: int)
    requires
        0 <= upto <= bodies.len(),
    ensures
        stepped_all(bodies, upto, dt).len() == bodies.len(),
        forall|i: int|
            #![trigger stepped_all(bodies, upto, dt)[i]]
            0 <= i < bodies.len() ==> {
                &&& stepped_all(bodies, upto, dt)[i].same_body(bodies[i])
                &&& stepped_all(bodies, upto, dt)[i].x_acc == bodies[i].x_acc
                &&& stepped_all(bodies, upto, dt)[i].y_acc == bodies[i].y_acc
            },
    decreases upto,
{
    if upto > 0 {
        lemma_stepped_all_keeps_identity(bodies, upto - 1, dt);
        let earlier = stepped_all(bodies, upto - 1, dt);
        assert forall|i: int|
            #![trigger stepped_all(bodies, upto, dt)[i]]
            0 <= i < bodies.len() implies {
            &&& stepped_all(bodies, upto, dt)[i].same_body(bodies[i])
            &&& stepped_all(bodies, upto, dt)[i].x_acc == bodies[i].x_acc
            &&& stepped_all(bodies, upto, dt)[i].y_acc == bodies[i].y_acc
        } by {
            assert(earlier[i].same_body(bodies[i]));
        }
    }
}

/// Where no time passes, a coordinate is predicted to stay.
pub proof fn lemma_predicted_without_time(pos: int, vel: int, acc: int)
    requires
        fits(pos),
    ensures
        predicted(pos, vel, acc, 0) == pos,
{
    assert(times(vel, 0) == 0);
    assert(times(0, 0) == 0);
    assert(times(times(HALF as int, acc), 0) == 0);
}

/// Where no time passes and nothing is hit, a velocity is carried over.
pub proof fn lemma_carried_without_time(vel: int, acc: int)
    requires
        fits(vel),
    ensures
        carried(vel, acc, 0, false) == vel,
{
    assert(times(acc, 0) == 0);
}

/// A movable body whose predicted box collides with no other body moves
/// as the formula says: it takes the predicted position, and its velocity
/// grows by acceleration times time.
pub proof fn lemma_free_body_moves_as_predicted(bodies: Seq<SquareModel>, i: int, dt: int)
    requires
        0 <= i < bodies.len(),
        !bodies[i].is_fixed,
        forall|j: int|
            0 <= j < bodies.len() && j != i ==> !collides(
                launched(bodies[i], dt),
                bodies[i].size,
                #[trigger] bodies[j],
            ),
    ensures
        stepped(bodies, i, dt) == bodies.update(
            i,
            (SquareModel {
                x: predicted(bodies[i].x, bodies[i].x_vel, bodies[i].x_acc, dt),
                y: predicted(bodies[i].y, bodies[i].y_vel, bodies[i].y_acc, dt),
                x_vel: plus(bodies[i].x_vel, times(bodies[i].x_acc, dt)),
                y_vel: plus(bodies[i].y_vel, times(bodies[i].y_acc, dt)),
                ..bodies[i]
            }),
        ),
{
    let a = bodies[i];
    lemma_clear_of_all(launched(a, dt), a.size, bodies, i, bodies.len() as int, MAX_PASSES as nat);
}

/// Where no time passes, a body that collides with no other body where it
/// stands is left exactly as it was by its step.
pub proof fn lemma_still_body_stays(bodies: Seq<SquareModel>, i: int)
    requires
        0 <= i < bodies.len(),
        bodies[i].in_range(),
        forall|j: int|
            0 <= j < bodies.len() && j != i ==> !collides(
                resting(bodies[i]),
                bodies[i].size,
                #[trigger] bodies[j],
            ),
    ensures
        stepped(bodies, i, 0) == bodies,
{
    let a = bodies[i];
    if !a.is_fixed {
        lemma_predicted_without_time(a.x, a.x_vel, a.x_acc);
        lemma_predicted_without_time(a.y, a.y_vel, a.y_acc);
        lemma_carried_without_time(a.x_vel, a.x_acc);
        lemma_carried_without_time(a.y_vel, a.y_acc);
        assert(launched(a, 0) == resting(a));
        lemma_free_body_moves_as_predicted(bodies, i, 0);
        assert(bodies.update(i, a) =~= bodies);
    }
}

/// Where no time passes and no body collides with another where it
/// stands, the steps of the first `upto` bodies change nothing.
pub proof fn lemma_still_bodies_stay(bodies: Seq<SquareModel>, upto: int)
    requires
        all_valid(bodies),
        apart(bodies),
        0 <= upto <= bodies.len(),
    ensures
        stepped_all(bodies, upto, 0) == bodies,
    decreases upto,
{
    if upto > 0 {
        lemma_still_bodies_stay(bodies, upto - 1);
        assert(bodies[upto - 1].valid());
        lemma_still_body_stays(bodies, upto - 1);
    }
}

} // verus!
