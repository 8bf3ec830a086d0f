//! The choices of a tick: what happens at an edge, which law gives the
//! force, and which pairs of particles feel each other.

use vstd::prelude::*;
use crate::encoding::{at_least, is_at_least, is_less, is_zero, less, magnitude, zero, absolute, ONE, ZERO};

verus! {

/// How an edge of the domain treats a particle that has left it.
#[derive(Debug, Clone, Copy, PartialEq, Eq, Structural)]
pub enum BoundaryPolicy {
    /// Opposite edges are joined: the particle comes back in on the other
    /// side.
    Wrap,
    /// The particle stops at the wall and keeps its velocity.
    Clamp,
    /// The particle is thrown back by the wall.
    Bounce,
}

/// The law that turns distance into force.
#[derive(Debug, Clone, Copy, PartialEq, Eq, Structural)]
pub enum ForceLaw {
    /// The coefficient divided by the distance.
    Simple,
    /// The coefficient times what the distance leaves of the radius, with
    /// no push between particles that are very close.
    Bounded,
}

/// Where a coordinate lies against the domain's extent along its axis.
#[derive(Debug, Clone, Copy, PartialEq, Eq, Structural)]
pub enum Side {
    /// Below zero.
    Below,
    /// Inside the domain.
    Inside,
    /// Beyond the far edge.
    Beyond,
}

/// What is done to a coordinate that has left the domain.
#[derive(Debug, Clone, Copy, PartialEq, Eq, Structural)]
pub enum Shift {
    /// Nothing.
    Stay,
    /// The extent is added.
    AddExtent,
    /// The extent is taken off.
    SubtractExtent,
    /// The coordinate becomes zero.
    ToZero,
    /// The coordinate becomes the extent.
    ToExtent,
    /// The coordinate changes its sign.
    Mirror,
    /// The coordinate is mirrored at the far edge: twice the extent less
    /// the coordinate.
    MirrorAtExtent,
}

/// What an edge does to a particle along one axis.
#[derive(Debug, Clone, Copy, PartialEq, Eq, Structural)]
pub struct Correction {
    /// What happens to the coordinate.
    pub shift: Shift,
    /// Whether the velocity along the same axis changes its sign.
    pub turn: bool,
}

/// The side of `position` under `policy`: below zero, inside, or beyond
/// `extent`. The far edge itself is beyond where edges are joined, and
/// inside where it is a wall. A position that is no number is inside.
pub open spec fn side_of(policy: BoundaryPolicy, position: u32, extent: u32) -> Side {
    if less(position, ZERO) {
        Side::Below
    } else if policy == BoundaryPolicy::Wrap && at_least(position, extent) {
        Side::Beyond
    } else if policy != BoundaryPolicy::Wrap && less(extent, position) {
        Side::Beyond
    } else {
        Side::Inside
    }
}

/// The correction that `policy` asks for on `side`.
pub open spec fn correction(policy: BoundaryPolicy, side: Side) -> Correction {
    match (policy, side) {
        (_, Side::Inside) => Correction { shift: Shift::Stay, turn: false },
        (BoundaryPolicy::Wrap, Side::Below) => Correction { shift: Shift::AddExtent, turn: false },
        (BoundaryPolicy::Wrap, Side::Beyond) => Correction {
            shift: Shift::SubtractExtent,
            turn: false,
        },
        (BoundaryPolicy::Clamp, Side::Below) => Correction { shift: Shift::ToZero, turn: false },
        (BoundaryPolicy::Clamp, Side::Beyond) => Correction { shift: Shift::ToExtent, turn: false },
        (BoundaryPolicy::Bounce, Side::Below) => Correction { shift: Shift::Mirror, turn: true },
        (BoundaryPolicy::Bounce, Side::Beyond) => Correction {
            shift: Shift::MirrorAtExtent,
            turn: true,
        },
    }
}

/// Whether a particle is moved by another one at the offset `(dx, dy)`,
/// whose squared length is `d`, given the cutoff `r` and its square `r2`:
/// the offset is not zero, neither part of it is longer than the cutoff,
/// and the squared length lies strictly between zero and the cutoff's
/// square.
pub open spec fn in_reach(dx: u32, dy: u32, d: u32, r: u32, r2: u32) -> bool {
    &&& !(zero(dx) && zero(dy))
    &&& !less(r, magnitude(dx))
    &&& !less(r, magnitude(dy))
    &&& less(d, r2)
    &&& less(ZERO, d)
}

/// Whether `law` applies a force of coefficient `g` at squared distance
/// `d`. The simple law always does. The bounded law does not push (`g` not
/// above zero) at a squared distance of one or less.
pub open spec fn applies(law: ForceLaw, g: u32, d: u32) -> bool {
    law == ForceLaw::Simple || less(ZERO, g) || less(ONE, d)
}

/// Of the direct offset and the one through the joined edge, the shorter;
/// the direct one where both are as long.
pub open spec fn shorter(direct: u32, through_edge: u32) -> u32 {
    if less(magnitude(through_edge), magnitude(direct)) {
        through_edge
    } else {
        direct
    }
}

/// A wall turns the velocity along an axis exactly when the coordinate on
/// that axis has left the domain; the other two policies never turn it.
/// The coordinate on the other axis has no say.
pub proof fn wall_turns_crossing_axis_only(policy: BoundaryPolicy, moved: u32, extent: u32)
    ensures
        correction(BoundaryPolicy::Bounce, side_of(BoundaryPolicy::Bounce, moved, extent)).turn <==> (
        less(moved, ZERO) || less(extent, moved)),
        policy != BoundaryPolicy::Bounce ==> !correction(policy, side_of(policy, moved, extent)).turn,
{
}

/// Particles with no offset between them are never in reach of each
/// other, whatever the cutoff.
pub proof fn coincident_out_of_reach(dx: u32, dy: u32, d: u32, r: u32, r2: u32)
    requires
        zero(dx),
        zero(dy),
    ensures
        !in_reach(dx, dy, d, r, r2),
{
}

impl BoundaryPolicy {
    /// Finds the side of `position` against `extent`.
    pub fn classify(self, position: u32, extent: u32) -> (side: Side)
        ensures
            side == side_of(self, position, extent),
    {
        if is_less(position, ZERO) {
            Side::Below
        } else {
            let beyond: bool = match self {
                BoundaryPolicy::Wrap => is_at_least(position, extent),
                _ => is_less(extent, position),
            };
            if beyond {
                Side::Beyond
            } else {
                Side::Inside
            }
        }
    }

    /// Decides what happens to a particle on `side`.
    pub fn correct(self, side: Side) -> (action: Correction)
        ensures
            action == correction(self, side),
            self == BoundaryPolicy::Bounce ==> (action.turn <==> side != Side::Inside),
            self != BoundaryPolicy::Bounce ==> !action.turn,
    {
        match side {
            Side::Inside => Correction { shift: Shift::Stay, turn: false },
            Side::Below => match self {
                BoundaryPolicy::Wrap => Correction { shift: Shift::AddExtent, turn: false },
                BoundaryPolicy::Clamp => Correction { shift: Shift::ToZero, turn: false },
                BoundaryPolicy::Bounce => Correction { shift: Shift::Mirror, turn: true },
            },
            Side::Beyond => match self {
                BoundaryPolicy::Wrap => Correction { shift: Shift::SubtractExtent, turn: false },
                BoundaryPolicy::Clamp => Correction { shift: Shift::ToExtent, turn: false },
                BoundaryPolicy::Bounce => Correction { shift: Shift::MirrorAtExtent, turn: true },
            },
        }
    }
}

impl ForceLaw {
    /// Decides whether a force of coefficient `g` is applied at squared
    /// distance `d`.
    pub fn gate(self, g: u32, d: u32) -> (open: bool)
        ensures
            open == applies(self, g, d),
    {
        match self {
            ForceLaw::Simple => true,
            ForceLaw::Bounded => is_less(ZERO, g) || is_less(ONE, d),
        }
    }
}

/// Decides whether a particle is moved by another one at the offset
/// `(dx, dy)` of squared length `d`, given the cutoff `r` and its square.
pub fn within_reach(dx: u32, dy: u32, d: u32, r: u32, r2: u32) -> (yes: bool)
    ensures
        yes == in_reach(dx, dy, d, r, r2),
{
    if is_zero(dx) && is_zero(dy) {
        return false;
    }
    if is_less(r, absolute(dx)) || is_less(r, absolute(dy)) {
        return false;
    }
    is_less(d, r2) && is_less(ZERO, d)
}

/// Picks the shorter of the direct offset and the one through the joined
/// edge.
pub fn pick_shorter(direct: u32, through_edge: u32) -> (picked: u32)
    ensures
        picked == shorter(direct, through_edge),
{
    if is_less(absolute(through_edge), absolute(direct)) {
        through_edge
    } else {
        direct
    }
}

} // verus!
