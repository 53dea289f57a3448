//! What holds of every step and of every request for a body, proved from
//! the definitions that the contracts of [`World`](crate::world::World)
//! are stated in.

use vstd::prelude::*;
use crate::body::SquareModel;
use crate::collision::{apart, collides, resting};
use crate::culling::{
    lemma_culled_keeps_visible, lemma_culled_members, lemma_culled_valid, visible,
};
use crate::forces::{accelerated, accumulated, lemma_accumulated_valid, net_x, net_y};
use crate::integrator::{
    lemma_still_bodies_stay, lemma_stepped_all_keeps_fixed, lemma_stepped_all_keeps_identity,
    lemma_stepped_all_valid,
};
use crate::scalar::fits;
use crate::world::{advanced, boxes_overlap, elapsed, moved, refusal, requested, WorldModel};

verus! {

/// Of two requests whose boxes overlap on both axes, a world that takes
/// the first refuses the second and stays as the first has left it,
/// whatever else the two ask for.
pub proof fn lemma_overlapping_request_refused(
    w: WorldModel,
    first: SquareModel,
    second: SquareModel,
)
    requires
        refusal(w.squares, first) is None,
        boxes_overlap(second, first),
    ensures
        refusal(requested(w, first).squares, second) is Some,
        requested(requested(w, first), second) == requested(w, first),
{
    let grown = requested(w, first).squares;
    assert(boxes_overlap(second, grown[w.squares.len() as int]));
}

/// A body that the world takes collides with none of the bodies that are
/// there, nor they with it: bodies that are apart stay apart when one is
/// added.
pub proof fn lemma_admitted_body_keeps_apart(w: WorldModel, new: SquareModel)
    requires
        apart(w.squares),
    ensures
        apart(requested(w, new).squares),
{
    let grown = requested(w, new).squares;
    let bodies = w.squares;
    assert forall|i: int, j: int|
        #![trigger grown[i], grown[j]]
        0 <= i < grown.len() && 0 <= j < grown.len() && i != j implies !collides(
        resting(grown[i]),
        grown[i].size,
        grown[j],
    ) by {
        if i < bodies.len() && j < bodies.len() {
            assert(!collides(resting(bodies[i]), bodies[i].size, bodies[j]));
        } else if i < bodies.len() {
            assert(!boxes_overlap(new, bodies[i]));
        } else {
            assert(!boxes_overlap(new, bodies[j]));
        }
    }
}

/// A request for a body at rest whose numbers are representable takes a
/// valid world to a valid world.
pub proof fn lemma_requested_valid(w: WorldModel, new: SquareModel)
    requires
        w.valid(),
        new.in_range(),
        new.anchored(),
    ensures
        requested(w, new).valid(),
{
    let grown = requested(w, new).squares;
    assert forall|i: int| 0 <= i < grown.len() implies (#[trigger] grown[i]).valid() by {
        if i < w.squares.len() {
            assert(w.squares[i].valid());
        }
    }
}

/// A step leaves a fixed body exactly as it was: name, place, size, mass,
/// velocity and acceleration. The body stays in the world if its box meets
/// the visible area.
pub proof fn lemma_fixed_body_unchanged(w: WorldModel, time: int, i: int)
    requires
        0 <= i < w.squares.len(),
        w.squares[i].is_fixed,
    ensures
        moved(w, time).len() == w.squares.len(),
        moved(w, time)[i] == w.squares[i],
        visible(w.squares[i], w.x_max, w.y_max) ==> advanced(w, time).squares.contains(
            w.squares[i],
        ),
{
    let pulled = accumulated(w.squares, w.forces);
    lemma_stepped_all_keeps_fixed(
        pulled,
        w.squares.len() as int,
        elapsed(w.last_update, time),
        i,
    );
    lemma_culled_members(moved(w, time), w.x_max, w.y_max);
    assert(moved(w, time).contains(moved(w, time)[i]));
}

/// A step adds no body and changes neither the name of a body, nor
/// whether it is fixed, nor its size, nor its mass. It leaves the forces
/// and the visible area as they were.
pub proof fn lemma_step_keeps_identity(w: WorldModel, time: int)
    ensures
        advanced(w, time).squares.len() <= moved(w, time).len() == w.squares.len(),
        forall|i: int|
            0 <= i < w.squares.len() ==> (#[trigger] moved(w, time)[i]).same_body(w.squares[i]),
        advanced(w, time).forces == w.forces,
        advanced(w, time).x_max == w.x_max,
        advanced(w, time).y_max == w.y_max,
{
    let pulled = accumulated(w.squares, w.forces);
    lemma_stepped_all_keeps_identity(
        pulled,
        w.squares.len() as int,
        elapsed(w.last_update, time),
    );
    moved(w, time).lemma_filter_len(|b: SquareModel| visible(b, w.x_max, w.y_max));
    assert forall|i: int| 0 <= i < w.squares.len() implies (#[trigger] moved(w, time)[i]).same_body(
        w.squares[i],
    ) by {
        assert(pulled[i].same_body(w.squares[i]));
    }
}

/// A step over no time moves nothing in a world whose bodies are apart:
/// it sets the accelerations and leaves every place and every velocity as
/// it was. A clock reading that is not later than the latest one is a
/// step over no time, as is a second step to the same reading.
pub proof fn lemma_no_time_no_motion(w: WorldModel, time: int)
    requires
        w.valid(),
        time <= w.last_update,
        apart(w.squares),
    ensures
        moved(w, time) == accumulated(w.squares, w.forces),
        forall|i: int|
            #![trigger moved(w, time)[i]]
            0 <= i < w.squares.len() ==> {
                &&& moved(w, time)[i].x == w.squares[i].x
                &&& moved(w, time)[i].y == w.squares[i].y
                &&& moved(w, time)[i].x_vel == w.squares[i].x_vel
                &&& moved(w, time)[i].y_vel == w.squares[i].y_vel
            },
{
    let pulled = accumulated(w.squares, w.forces);
    lemma_accumulated_valid(w.squares, w.forces);
    assert forall|i: int, j: int|
        #![trigger pulled[i], pulled[j]]
        0 <= i < pulled.len() && 0 <= j < pulled.len() && i != j implies !collides(
        resting(pulled[i]),
        pulled[i].size,
        pulled[j],
    ) by {
        assert(!collides(resting(w.squares[i]), w.squares[i].size, w.squares[j]));
    }
    lemma_still_bodies_stay(pulled, w.squares.len() as int);
}

/// A second step to the same clock reading changes nothing at all,
/// provided that the first step has left the bodies apart.
pub proof fn lemma_second_step_changes_nothing(w: WorldModel, time: int)
    requires
        w.valid(),
        fits(time),
        apart(advanced(w, time).squares),
    ensures
        advanced(advanced(w, time), time) == advanced(w, time),
{
    let once = advanced(w, time);
    let fx = net_x(w.forces);
    let fy = net_y(w.forces);
    lemma_advanced_valid(w, time);
    lemma_no_time_no_motion(once, time);
    lemma_stepped_all_keeps_identity(
        accumulated(w.squares, w.forces),
        w.squares.len() as int,
        elapsed(w.last_update, time),
    );
    lemma_culled_members(moved(w, time), w.x_max, w.y_max);
    assert forall|i: int| 0 <= i < once.squares.len() implies accelerated(
        #[trigger] once.squares[i],
        fx,
        fy,
    ) == once.squares[i] && visible(once.squares[i], w.x_max, w.y_max) by {
        let b = once.squares[i];
        assert(once.squares.contains(b));
        let k = choose|k: int| 0 <= k < moved(w, time).len() && moved(w, time)[k] == b;
        assert(moved(w, time)[k].same_body(accumulated(w.squares, w.forces)[k]));
    }
    assert(accumulated(once.squares, once.forces) =~= once.squares);
    lemma_culled_keeps_visible(once.squares, w.x_max, w.y_max);
}

/// After a step, the world holds exactly the moved bodies whose boxes meet
/// the visible area. A body that has left the area is gone.
pub proof fn lemma_survivors_are_visible(w: WorldModel, time: int)
    ensures
        forall|b: SquareModel| #[trigger]
            advanced(w, time).squares.contains(b) <==> moved(w, time).contains(b) && visible(
                b,
                w.x_max,
                w.y_max,
            ),
{
    lemma_culled_members(moved(w, time), w.x_max, w.y_max);
}

/// A step takes a valid world to a valid world: fixed bodies are still at
/// rest, movable bodies still have a positive mass, and every number is
/// representable.
pub proof fn lemma_advanced_valid(w: WorldModel, time: int)
    requires
        w.valid(),
        fits(time),
    ensures
        advanced(w, time).valid(),
{
    let pulled = accumulated(w.squares, w.forces);
    lemma_accumulated_valid(w.squares, w.forces);
    lemma_stepped_all_valid(pulled, w.squares.len() as int, elapsed(w.last_update, time));
    lemma_culled_valid(moved(w, time), w.x_max, w.y_max);
}

} // verus!
