//! Visibility culling: after a step, bodies that lie wholly outside the
//! visible area leave the world for good.

use vstd::prelude::*;
use crate::body::{all_valid, models, Square, SquareModel};
use crate::scalar::{plus, Scalar};

verus! {

/// The box of `b` meets the visible area `[0, x_max]` by `[0, y_max]`. A
/// box that only touches an edge of the area still meets it.
pub open spec fn visible(b: SquareModel, x_max: int, y_max: int) -> bool {
    !(plus(b.x, b.size) < 0 || plus(b.y, b.size) < 0 || b.x > x_max || b.y > y_max)
}

/// The visible bodies of `bodies`, in their order.
pub open spec fn culled(bodies: Seq<SquareModel>, x_max: int, y_max: int) -> Seq<SquareModel> {
    bodies.filter(|b: SquareModel| visible(b, x_max, y_max))
}

/// Whether the body's box meets the visible area.
pub fn is_visible(b: &Square, x_max: Scalar, y_max: Scalar) -> (r: bool)
    ensures
        r == visible(b@, x_max@, y_max@),
{
    !(b.x.plus(b.size).raw < 0 || b.y.plus(b.size).raw < 0 || b.x.raw > x_max.raw || b.y.raw
        > y_max.raw)
}

/// Keeps the visible bodies, in their order, and drops the others.
pub fn cull(bodies: Vec<Square>, x_max: Scalar, y_max: Scalar) -> (kept: Vec<Square>)
    ensures
        models(kept@) == culled(models(bodies@), x_max@, y_max@),
{
    let ghost all = models(bodies@);
    let mut kept: Vec<Square> = Vec::new();
    for s in it: bodies
        invariant
            all == models(it.seq()),
            models(kept@) == culled(all.take(it.index() as int), x_max@, y_max@),
    {
        proof {
            reveal(Seq::filter);
            let next = all.take(it.index() + 1);
            assert(next.drop_last() =~= all.take(it.index() as int));
            assert(next.last() == s@);
        }
        if is_visible(&s, x_max, y_max) {
            kept.push(s);
            assert(models(kept@) =~= culled(all.take(it.index() + 1), x_max@, y_max@));
        }
    }
    proof {
        assert(all.take(all.len() as int) =~= all);
    }
    kept
}

/// Culling only drops bodies, so valid bodies stay valid.
pub proof fn lemma_culled_valid(bodies: Seq<SquareModel>, x_max: int, y_max: int)
    requires
        all_valid(bodies),
    ensures
        all_valid(culled(bodies, x_max, y_max)),
{
    let kept = culled(bodies, x_max, y_max);
    assert forall|i: int| 0 <= i < kept.len() implies (#[trigger] kept[i]).valid() by {
        assert(kept.contains(kept[i]));
        bodies.lemma_filter_contains_rev(|b: SquareModel| visible(b, x_max, y_max), kept[i]);
        let k = choose|k: int| 0 <= k < bodies.len() && bodies[k] == kept[i];
        assert(bodies[k].valid());
    }
}

/// The bodies that culling keeps are the visible ones, and no others.
pub proof fn lemma_culled_members(bodies: Seq<SquareModel>, x_max: int, y_max: int)
    ensures
        forall|b: SquareModel| #[trigger]
            culled(bodies, x_max, y_max).contains(b) <==> bodies.contains(b) && visible(
                b,
                x_max,
                y_max,
            ),
{
    let keep = |b: SquareModel| visible(b, x_max, y_max);
    assert forall|b: SquareModel| #[trigger]
        culled(bodies, x_max, y_max).contains(b) <==> bodies.contains(b) && visible(
            b,
            x_max,
            y_max,
        ) by {
        if culled(bodies, x_max, y_max).contains(b) {
            bodies.lemma_filter_contains_rev(keep, b);
        }
        if bodies.contains(b) && visible(b, x_max, y_max) {
            let k = choose|k: int| 0 <= k < bodies.len() && bodies[k] == b;
            bodies.lemma_filter_contains(keep, k);
        }
    }
}

/// Culling drops nothing from bodies that are all visible.
pub proof fn lemma_culled_keeps_visible(bodies: Seq<SquareModel>, x_max: int, y_max: int)
    requires
        forall|i: int| 0 <= i < bodies.len() ==> visible(#[trigger] bodies[i], x_max, y_max),
    ensures
        culled(bodies, x_max, y_max) == bodies,
    decreases bodies.len(),
{
    reveal(Seq::filter);
    if bodies.len() > 0 {
        lemma_culled_keeps_visible(bodies.drop_last(), x_max, y_max);
        assert(bodies.drop_last().push(bodies.last()) =~= bodies);
    }
}

} // verus!
