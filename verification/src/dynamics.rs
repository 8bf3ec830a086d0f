//! The arithmetic of a tick, one particle and one axis at a time: offsets,
//! pulls between particles, the push of walls, and what an edge does to a
//! particle that has moved.
//!
//! Every function here decides with the exact order of encoded numbers and
//! leaves the computing to the host's [`Arithmetic`].

use vstd::prelude::*;
use crate::arith::{
    is_angle, is_cosine, is_difference, is_product, is_quotient, is_sine, is_square_root, is_sum,
    Arithmetic,
};
use crate::encoding::{
    at_least, is_less, is_number, less, magnitude, negate, negated, zero, ONE, TENTH, ZERO,
};
use crate::policy::{
    applies, correction, in_reach, pick_shorter, shorter, side_of, within_reach, BoundaryPolicy,
    ForceLaw, Shift,
};

verus! {

/// Whether `nearest` is the offset that belongs to the `direct` one on an
/// axis of length `extent`. Without joined edges it is the direct offset.
/// With them the direct offset has the extent taken off if it is above
/// zero, and added if not, and the shorter of the two is the offset.
pub open spec fn offset_of<A: Arithmetic>(
    math: &A,
    direct: u32,
    extent: u32,
    joined: bool,
    nearest: u32,
) -> bool {
    if joined {
        exists|through_edge: u32|
            (less(ZERO, direct) ==> is_difference(math, direct, extent, through_edge)) && (!less(
                ZERO,
                direct,
            ) ==> is_sum(math, direct, extent, through_edge)) && nearest == #[trigger] shorter(
                direct,
                through_edge,
            )
    } else {
        nearest == direct
    }
}

/// Whether `t` is the share of the cutoff `r` that the squared distance
/// `d` leaves: one less the distance over the cutoff.
pub open spec fn is_share<A: Arithmetic>(math: &A, d: u32, r: u32, t: u32) -> bool {
    exists|distance: u32, part: u32|
        is_square_root(math, d, distance) && #[trigger] is_quotient(math, distance, r, part)
            && is_difference(math, ONE, part, t)
}

/// Whether `(c, s)` are cosine and sine of the direction of the offset
/// `(dx, dy)`: of the negated angle of `(dx, -dy)`.
pub open spec fn is_heading<A: Arithmetic>(math: &A, dx: u32, dy: u32, c: u32, s: u32) -> bool {
    exists|turned: u32| #[trigger]
        is_angle(math, negated(dy), dx, turned) && is_cosine(math, negated(turned), c) && is_sine(
            math,
            negated(turned),
            s,
        )
}

/// Whether `force` is the pull on a particle from another at the offset
/// `(dx, dy)` of squared length `d`. There is none out of reach or where the
/// law does not apply. The simple law gives the offset times the
/// coefficient over the distance. The bounded law gives the coefficient
/// times the share that the distance leaves of the cutoff, along the
/// offset's direction.
pub open spec fn pull_of<A: Arithmetic>(
    math: &A,
    law: ForceLaw,
    dx: u32,
    dy: u32,
    d: u32,
    r: u32,
    r2: u32,
    g: u32,
    force: Option<(u32, u32)>,
) -> bool {
    let pair = force->Some_0;
    if !(in_reach(dx, dy, d, r, r2) && applies(law, g, d)) {
        force is None
    } else if law == ForceLaw::Simple {
        force is Some && exists|distance: u32, f: u32|
            is_square_root(math, d, distance) && #[trigger] is_quotient(math, g, distance, f)
                && is_product(math, f, dx, pair.0) && is_product(math, f, dy, pair.1)
    } else {
        force is Some && exists|t: u32, f: u32, c: u32, s: u32|
            #![trigger is_product(math, g, t, f), is_heading(math, dx, dy, c, s)]
            is_share(math, d, r, t) && is_product(math, g, t, f) && is_heading(math, dx, dy, c, s)
                && is_product(math, f, c, pair.0) && is_product(math, f, s, pair.1)
    }
}

/// Whether `to` is the force `from` with the push of one wall added, where
/// it is `on`: a tenth of what lies between `edge` and `position`.
pub open spec fn nudged<A: Arithmetic>(
    math: &A,
    on: bool,
    edge: u32,
    position: u32,
    from: u32,
    to: u32,
) -> bool {
    if on {
        exists|lack: u32, part: u32|
            is_difference(math, edge, position, lack) && #[trigger] is_product(
                math,
                lack,
                TENTH,
                part,
            ) && is_sum(math, from, part, to)
    } else {
        to == from
    }
}

/// Whether `pushed` is `force` with the push of both walls of an axis
/// added: first that of the near wall, where the position is below
/// `reach`, then that of the far wall, where it is above `inner`.
pub open spec fn wall_push_of<A: Arithmetic>(
    math: &A,
    position: u32,
    reach: u32,
    inner: u32,
    force: u32,
    pushed: u32,
) -> bool {
    exists|between: u32| #[trigger]
        nudged(math, less(position, reach), reach, position, force, between) && nudged(
            math,
            less(inner, position),
            inner,
            position,
            between,
            pushed,
        )
}

/// Whether `state` is the coordinate and velocity of a particle that has
/// moved to `moved` with `velocity`, after the edge has had its say.
pub open spec fn settle_of<A: Arithmetic>(
    math: &A,
    policy: BoundaryPolicy,
    moved: u32,
    velocity: u32,
    extent: u32,
    state: (u32, u32),
) -> bool {
    let action = correction(policy, side_of(policy, moved, extent));
    &&& state.1 == (if action.turn {
        negated(velocity)
    } else {
        velocity
    })
    &&& match action.shift {
        Shift::Stay => state.0 == moved,
        Shift::AddExtent => is_sum(math, moved, extent, state.0),
        Shift::SubtractExtent => is_difference(math, moved, extent, state.0),
        Shift::ToZero => state.0 == ZERO,
        Shift::ToExtent => state.0 == extent,
        Shift::Mirror => state.0 == negated(moved),
        Shift::MirrorAtExtent => exists|beyond: u32| #[trigger]
            is_difference(math, moved, extent, beyond) && is_difference(
                math,
                extent,
                beyond,
                state.0,
            ),
    }
}

/// Offset between two particles along one axis of length `extent`, given
/// their `direct` offset. Where the edges are joined, the offset through
/// the edge is taken if it is shorter: the result is never longer than the
/// direct offset.
pub fn offset<A: Arithmetic>(direct: u32, extent: u32, joined: bool, math: &A) -> (nearest: u32)
    ensures
        offset_of(math, direct, extent, joined, nearest),
        !joined ==> nearest == direct,
        nearest == direct || less(magnitude(nearest), magnitude(direct)),
{
    if joined {
        let through_edge: u32 = if is_less(ZERO, direct) {
            math.difference(direct, extent)
        } else {
            math.sum(direct, extent)
        };
        pick_shorter(direct, through_edge)
    } else {
        direct
    }
}

/// Force on a particle from another at the offset `(dx, dy)` of squared
/// length `d`, for the cutoff `r` with square `r2` and the coefficient
/// `g`; `None` where the other particle does not act.
pub fn pull<A: Arithmetic>(
    law: ForceLaw,
    dx: u32,
    dy: u32,
    d: u32,
    r: u32,
    r2: u32,
    g: u32,
    math: &A,
) -> (force: Option<(u32, u32)>)
    ensures
        pull_of(math, law, dx, dy, d, r, r2, g, force),
        force is Some <==> in_reach(dx, dy, d, r, r2) && applies(law, g, d),
        zero(dx) && zero(dy) ==> force is None,
{
    if !within_reach(dx, dy, d, r, r2) || !law.gate(g, d) {
        return None;
    }
    let distance: u32 = math.square_root(d);
    match law {
        ForceLaw::Simple => {
            let f: u32 = math.quotient(g, distance);
            Some((math.product(f, dx), math.product(f, dy)))
        },
        ForceLaw::Bounded => {
            let share: u32 = math.difference(ONE, math.quotient(distance, r));
            let f: u32 = math.product(g, share);
            let theta: u32 = negate(math.angle(negate(dy), dx));
            let c: u32 = math.cosine(theta);
            let s: u32 = math.sine(theta);
            proof {
                assert(is_share(math, d, r, share));
                assert(is_heading(math, dx, dy, c, s));
            }
            Some((math.product(f, c), math.product(f, s)))
        },
    }
}

/// The force along one axis with the push of the two walls of that axis
/// added. A particle at `position` is pushed up by a tenth of what it
/// lacks to `reach`, and down by a tenth of what it has beyond `inner`,
/// the far wall's own reach. Between the two nothing is added.
pub fn wall_push<A: Arithmetic>(position: u32, reach: u32, inner: u32, force: u32, math: &A) -> (pushed:
    u32)
    ensures
        wall_push_of(math, position, reach, inner, force, pushed),
        !less(position, reach) && !less(inner, position) ==> pushed == force,
{
    let mut pushed: u32 = force;
    if is_less(position, reach) {
        pushed = math.sum(pushed, math.product(math.difference(reach, position), TENTH));
    }
    let ghost between = pushed;
    proof {
        assert(nudged(math, less(position, reach), reach, position, force, between));
    }
    if is_less(inner, position) {
        pushed = math.sum(pushed, math.product(math.difference(inner, position), TENTH));
    }
    proof {
        assert(nudged(math, less(inner, position), inner, position, between, pushed));
    }
    pushed
}

/// Brings a coordinate that has just moved to `moved`, with `velocity`
/// along the same axis, back into the domain as `policy` has it. Returns
/// the coordinate and the velocity. The velocity turns exactly where a
/// wall throws the particle back. A clamped coordinate lies between zero
/// and the extent, both included.
pub fn settle<A: Arithmetic>(
    policy: BoundaryPolicy,
    moved: u32,
    velocity: u32,
    extent: u32,
    math: &A,
) -> (state: (u32, u32))
    ensures
        settle_of(math, policy, moved, velocity, extent, state),
        state.1 == (if correction(policy, side_of(policy, moved, extent)).turn {
            negated(velocity)
        } else {
            velocity
        }),
        match correction(policy, side_of(policy, moved, extent)).shift {
            Shift::Stay => state.0 == moved,
            Shift::ToZero => state.0 == ZERO,
            Shift::ToExtent => state.0 == extent,
            Shift::Mirror => state.0 == negated(moved),
            _ => true,
        },
        policy == BoundaryPolicy::Clamp && at_least(extent, ZERO) && is_number(moved) ==> at_least(
            state.0,
            ZERO,
        ) && at_least(extent, state.0),
{
    let action = policy.correct(policy.classify(moved, extent));
    let position: u32 = match action.shift {
        Shift::Stay => moved,
        Shift::AddExtent => math.sum(moved, extent),
        Shift::SubtractExtent => math.difference(moved, extent),
        Shift::ToZero => ZERO,
        Shift::ToExtent => extent,
        Shift::Mirror => negate(moved),
        Shift::MirrorAtExtent => math.difference(extent, math.difference(moved, extent)),
    };
    let speed: u32 = if action.turn {
        negate(velocity)
    } else {
        velocity
    };
    (position, speed)
}

} // verus!
