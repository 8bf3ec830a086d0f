//! The universe: a configuration and the particles it governs.
//!
//! Particles live in one flat buffer, five encoded numbers each: position
//! x and y, velocity x and y, and the colour. The buffer always holds as
//! many particles as the configuration asks for, and the two tables of the
//! configuration always fit its number of colours.

use vstd::prelude::*;
use crate::arith::{is_difference, is_product, is_sum, is_whole, Arithmetic};
use crate::config::{
    check_tables, resize, resized, restride, restrided, rule_place_in_matrix, verdict,
    ConfigError, Settings, SettingsView,
};
use crate::dynamics::{
    offset, offset_of, pull, pull_of, settle, settle_of, wall_push, wall_push_of,
};
use crate::encoding::{encode_whole, in_range, is_in_range, negated, whole_bits, ONE, ZERO};
use crate::policy::BoundaryPolicy;

verus! {

/// Numbers stored for each particle.
pub const RECORD: usize = 5;

/// The encoding of one hundred.
pub const HUNDRED: u32 = 0x42C8_0000;

/// The encoding of one hundred and forty.
pub const HUNDRED_FORTY: u32 = 0x430C_0000;

/// Colour of the particle at `index`: particles are stored colour by
/// colour.
pub open spec fn colour_of(c: SettingsView, index: int) -> u8 {
    (index / (c.atoms_per_color as int)) as u8
}

/// Whether the buffer `b` holds the population that `c` asks for, each
/// particle with its colour, and the tables of `c` fit its colours.
pub open spec fn fits(c: SettingsView, b: Seq<u32>) -> bool {
    &&& c.sized()
    &&& b.len() == 5 * c.population()
    &&& forall|k: int| 0 <= k < b.len() && k % 5 == 4 ==> #[trigger] b[k] == whole_bits(colour_of(c, k / 5))
}

/// The fixed pair: a particle of colour 0 at rest at (100, 100) and one of
/// colour 1 at rest at (140, 140).
pub open spec fn fixed_pair() -> Seq<u32> {
    seq![
        HUNDRED,
        HUNDRED,
        ZERO,
        ZERO,
        whole_bits(0),
        HUNDRED_FORTY,
        HUNDRED_FORTY,
        ZERO,
        ZERO,
        whole_bits(1),
    ]
}

/// The population of `c` at rest, the particle at `index` at the position
/// `(draws[2 * index], draws[2 * index + 1])`.
pub open spec fn placed(c: SettingsView, draws: Seq<u32>) -> Seq<u32> {
    Seq::new(
        5 * c.population(),
        |k: int|
            if k % 5 == 0 {
                draws[2 * (k / 5)]
            } else if k % 5 == 1 {
                draws[2 * (k / 5) + 1]
            } else if k % 5 == 4 {
                whole_bits(colour_of(c, k / 5))
            } else {
                ZERO
            },
    )
}

/// The configuration for two colours with one particle each, the tables
/// of `c` carried over.
pub open spec fn paired(c: SettingsView) -> SettingsView {
    SettingsView {
        num_colors: 2,
        atoms_per_color: 1,
        rules: restrided(c.rules, c.num_colors as nat, 2),
        radii: resized(c.radii, 2),
        ..c
    }
}

/// The configuration `c` with `num_colors` colours, its tables carried
/// over: coefficients and radii of colours that stay are kept, those of
/// new colours are zero.
pub open spec fn recoloured(c: SettingsView, num_colors: u8) -> SettingsView {
    SettingsView {
        num_colors,
        rules: restrided(c.rules, c.num_colors as nat, num_colors as nat),
        radii: resized(c.radii, num_colors as nat),
        ..c
    }
}

/// The configuration that a universe has once it is populated under `c`:
/// the fixed pair overrides the counts.
pub open spec fn settled(c: SettingsView) -> SettingsView {
    if c.debug {
        paired(c)
    } else {
        c
    }
}

/// The buffer of a universe populated under `c` with the given draws.
pub open spec fn populated(c: SettingsView, draws: Seq<u32>) -> Seq<u32> {
    if c.debug {
        fixed_pair()
    } else {
        placed(c, draws)
    }
}

/// Whether every draw lies in the domain of `c`: draws at even places
/// are x coordinates, those at odd places y coordinates.
pub open spec fn draws_in_domain(c: SettingsView, draws: Seq<u32>) -> bool {
    forall|k: int|
        0 <= k < draws.len() ==> in_range(
            #[trigger] draws[k],
            if k % 2 == 0 {
                c.width
            } else {
                c.height
            },
        )
}

/// Whether every particle in the buffer `b` lies in the domain of `c`.
pub open spec fn in_domain(c: SettingsView, b: Seq<u32>) -> bool {
    forall|k: int|
        0 <= k < b.len() ==> (k % 5 == 0 ==> in_range(#[trigger] b[k], c.width)) && (k % 5 == 1
            ==> in_range(b[k], c.height))
}

/// Whether `draws` can populate `c`: two draws for each particle, each
/// inside the domain, and a buffer that a machine can address. The fixed
/// pair needs no draws.
pub open spec fn can_populate(c: SettingsView, draws: Seq<u32>) -> bool {
    c.debug || (5 * c.population() <= usize::MAX && draws.len() == 2 * c.population()
        && draws_in_domain(c, draws))
}

/// Tells whether `draws` can populate a universe under `settings`.
pub fn accepts(settings: &Settings, draws: &Vec<u32>) -> (yes: bool)
    ensures
        yes == can_populate(settings@, draws@),
{
    if settings.debug {
        return true;
    }
    assert(settings.num_colors * settings.atoms_per_color <= 255 * 0xFFFF_FFFF) by (nonlinear_arith)
        requires
            settings.num_colors <= 255,
            settings.atoms_per_color <= 0xFFFF_FFFF,
    ;
    let count: u64 = settings.num_colors as u64 * settings.atoms_per_color as u64;
    if 5 * count > usize::MAX as u64 || draws.len() as u64 != 2 * count {
        return false;
    }
    let mut k: usize = 0;
    while k < draws.len()
        invariant
            !settings.debug,
            5 * settings@.population() <= usize::MAX,
            draws.len() == 2 * settings@.population(),
            k <= draws.len(),
            forall|seen: int|
                0 <= seen < k ==> in_range(
                    #[trigger] draws[seen],
                    if seen % 2 == 0 {
                        settings.width
                    } else {
                        settings.height
                    },
                ),
        decreases draws.len() - k,
    {
        let extent: u32 = if k % 2 == 0 {
            settings.width
        } else {
            settings.height
        };
        if !is_in_range(draws[k], extent) {
            proof {
                assert(!in_range(draws@[k as int], extent));
                assert(!draws_in_domain(settings@, draws@));
            }
            return false;
        }
        k = k + 1;
    }
    true
}

/// The positions of the particles in the buffer `b`, one pair each.
pub open spec fn places(b: Seq<u32>) -> Seq<(u32, u32)> {
    Seq::new((b.len() / 5) as nat, |i: int| (b[5 * i], b[5 * i + 1]))
}

/// Whether `nearest` is the offset from the coordinate `b` to `a` on an
/// axis of length `extent`: what belongs to their difference.
pub open spec fn gap_of<A: Arithmetic>(
    math: &A,
    a: u32,
    b: u32,
    extent: u32,
    joined: bool,
    nearest: u32,
) -> bool {
    exists|direct: u32| #[trigger]
        is_difference(math, a, b, direct) && offset_of(math, direct, extent, joined, nearest)
}

/// Whether `d` is the squared length of the offset `(dx, dy)`.
pub open spec fn squared_length<A: Arithmetic>(math: &A, dx: u32, dy: u32, d: u32) -> bool {
    exists|xx: u32, yy: u32|
        is_product(math, dx, dx, xx) && is_product(math, dy, dy, yy) && #[trigger] is_sum(
            math,
            xx,
            yy,
            d,
        )
}

/// Whether `force` is the pull on the particle at `index` from the one at
/// `other`, with the particles at the positions `at`: none from itself or
/// from one at the very same position; else the pull at their offset, for
/// the cutoff of the first one's colour and the coefficient of the two
/// colours.
pub open spec fn pull_between_of<A: Arithmetic>(
    math: &A,
    c: SettingsView,
    at: Seq<(u32, u32)>,
    index: int,
    other: int,
    width: u32,
    height: u32,
    force: Option<(u32, u32)>,
) -> bool {
    let here = at[index];
    let there = at[other];
    let colour = colour_of(c, index);
    let r = c.radii[colour as int];
    let g = c.rules[colour * c.num_colors + colour_of(c, other)];
    if index == other || here == there {
        force is None
    } else {
        exists|r2: u32, dx: u32, dy: u32, d: u32|
            is_product(math, r, r, r2) && gap_of(math, here.0, there.0, width, c.toroid, dx)
                && gap_of(math, here.1, there.1, height, c.toroid, dy) && squared_length(
                math,
                dx,
                dy,
                d,
            ) && #[trigger] pull_of(math, c.force_law(), dx, dy, d, r, r2, g, force)
    }
}

/// Whether `total` is the force `before` with `pull` added, if there is
/// one.
pub open spec fn added<A: Arithmetic>(
    math: &A,
    before: (u32, u32),
    pull: Option<(u32, u32)>,
    total: (u32, u32),
) -> bool {
    match pull {
        Some(p) => is_sum(math, before.0, p.0, total.0) && is_sum(math, before.1, p.1, total.1),
        None => total == before,
    }
}

/// Whether `total` is the sum of the pulls on the particle at `index` from
/// the first `upto` particles, added one after the other to zero.
pub open spec fn pulls_sum<A: Arithmetic>(
    math: &A,
    c: SettingsView,
    at: Seq<(u32, u32)>,
    index: int,
    upto: nat,
    width: u32,
    height: u32,
    total: (u32, u32),
) -> bool
    decreases upto,
{
    if upto == 0 {
        total == (ZERO, ZERO)
    } else {
        exists|before: (u32, u32), pull: Option<(u32, u32)>|
            pulls_sum(math, c, at, index, (upto - 1) as nat, width, height, before)
                && pull_between_of(math, c, at, index, upto - 1, width, height, pull)
                && #[trigger] added(math, before, pull, total)
    }
}

/// Whether `force` is the force `pulled` with the push of the walls on a
/// particle at `place` added, where walls push: on each axis that of the
/// two walls, whose reach is the configured distance.
pub open spec fn walls_of<A: Arithmetic>(
    math: &A,
    c: SettingsView,
    place: (u32, u32),
    width: u32,
    height: u32,
    pulled: (u32, u32),
    force: (u32, u32),
) -> bool {
    if c.walls_repel() {
        exists|reach: u32, inner_x: u32, inner_y: u32|
            is_whole(math, c.wall_repel, reach) && is_difference(math, width, reach, inner_x)
                && is_difference(math, height, reach, inner_y) && #[trigger] wall_push_of(
                math,
                place.0,
                reach,
                inner_x,
                pulled.0,
                force.0,
            ) && #[trigger] wall_push_of(math, place.1, reach, inner_y, pulled.1, force.1)
    } else {
        force == pulled
    }
}

/// Whether `force` is the force on the particle at `index`: the pulls of
/// all particles summed, then the push of the walls.
pub open spec fn force_of<A: Arithmetic>(
    math: &A,
    c: SettingsView,
    at: Seq<(u32, u32)>,
    index: int,
    force: (u32, u32),
) -> bool {
    exists|width: u32, height: u32, pulled: (u32, u32)|
        is_whole(math, c.width, width) && is_whole(math, c.height, height) && #[trigger] pulls_sum(
            math,
            c,
            at,
            index,
            at.len(),
            width,
            height,
            pulled,
        ) && walls_of(math, c, at[index], width, height, pulled, force)
}

/// Whether `after` is the velocity `v` along one axis after a tick's
/// forces: `v` times `keep`, plus the force `f` times `scale`.
pub open spec fn velocity_of<A: Arithmetic>(
    math: &A,
    v: u32,
    keep: u32,
    f: u32,
    scale: u32,
    after: u32,
) -> bool {
    exists|damped: u32, gained: u32|
        is_product(math, v, keep, damped) && is_product(math, f, scale, gained) && #[trigger] is_sum(
            math,
            damped,
            gained,
            after,
        )
}

/// Whether the particle at `i` has in `after` the velocity that the
/// forces on it in `before` give it, with `keep` left of the old one.
pub open spec fn accelerated_at<A: Arithmetic>(
    math: &A,
    c: SettingsView,
    keep: u32,
    before: Seq<u32>,
    after: Seq<u32>,
    i: int,
) -> bool {
    exists|force: (u32, u32)| #[trigger]
        force_of(math, c, places(before), i, force) && velocity_of(
            math,
            before[5 * i + 2],
            keep,
            force.0,
            c.time_scale,
            after[5 * i + 2],
        ) && velocity_of(math, before[5 * i + 3], keep, force.1, c.time_scale, after[5 * i + 3])
}

/// Whether `after` is the buffer `before` with every velocity changed by
/// the forces: what is kept of a velocity is one less the viscosity;
/// positions and colours are the same.
pub open spec fn accelerated<A: Arithmetic>(
    math: &A,
    c: SettingsView,
    before: Seq<u32>,
    after: Seq<u32>,
) -> bool {
    &&& after.len() == before.len()
    &&& forall|k: int|
        0 <= k < before.len() && k % 5 != 2 && k % 5 != 3 ==> #[trigger] after[k] == before[k]
    &&& exists|keep: u32|
        is_difference(math, ONE, c.viscosity, keep) && forall|i: int|
            0 <= i < before.len() / 5 ==> #[trigger] accelerated_at(math, c, keep, before, after, i)
}

/// Whether the particle at `i` has in `after` the position and velocity
/// that one move under `policy` gives it from `before`: each coordinate
/// has its velocity added and is then settled against its extent.
pub open spec fn advanced_at<A: Arithmetic>(
    math: &A,
    policy: BoundaryPolicy,
    width: u32,
    height: u32,
    before: Seq<u32>,
    after: Seq<u32>,
    i: int,
) -> bool {
    exists|moved_x: u32, moved_y: u32|
        is_sum(math, before[5 * i], before[5 * i + 2], moved_x) && is_sum(
            math,
            before[5 * i + 1],
            before[5 * i + 3],
            moved_y,
        ) && #[trigger] settle_of(
            math,
            policy,
            moved_x,
            before[5 * i + 2],
            width,
            (after[5 * i], after[5 * i + 2]),
        ) && #[trigger] settle_of(
            math,
            policy,
            moved_y,
            before[5 * i + 3],
            height,
            (after[5 * i + 1], after[5 * i + 3]),
        )
}

/// Whether `after` is the buffer `before` with every particle moved once
/// under `policy`; colours are the same.
pub open spec fn advanced<A: Arithmetic>(
    math: &A,
    c: SettingsView,
    policy: BoundaryPolicy,
    before: Seq<u32>,
    after: Seq<u32>,
) -> bool {
    &&& after.len() == before.len()
    &&& forall|k: int| 0 <= k < before.len() && k % 5 == 4 ==> #[trigger] after[k] == before[k]
    &&& exists|width: u32, height: u32|
        is_whole(math, c.width, width) && is_whole(math, c.height, height) && forall|i: int|
            0 <= i < before.len() / 5 ==> #[trigger] advanced_at(
                math,
                policy,
                width,
                height,
                before,
                after,
                i,
            )
}

/// Whether `after` is the buffer `before` one tick later: velocities
/// changed by the forces, then every particle moved under the policy that
/// the configuration selects.
pub open spec fn ticked<A: Arithmetic>(
    math: &A,
    c: SettingsView,
    before: Seq<u32>,
    after: Seq<u32>,
) -> bool {
    exists|between: Seq<u32>| #[trigger]
        accelerated(math, c, before, between) && advanced(
            math,
            c,
            c.boundary_policy(),
            between,
            after,
        )
}

/// A configuration together with the particles it governs.
#[derive(Debug)]
pub struct Universe {
    atoms: Vec<u32>,
    settings: Settings,
}

impl Universe {
    /// The configuration in force.
    pub closed spec fn config(&self) -> SettingsView {
        self.settings@
    }

    /// The particle buffer.
    pub closed spec fn buffer(&self) -> Seq<u32> {
        self.atoms@
    }

    /// The invariant of a universe: buffer and configuration fit.
    pub open spec fn wf(&self) -> bool {
        fits(self.config(), self.buffer())
    }

    /// Builds a universe and populates it. A configuration whose tables do
    /// not fit its number of colours is refused.
    pub fn new(settings: Settings, draws: &Vec<u32>) -> (made: Result<Universe, ConfigError>)
        requires
            can_populate(settings@, draws@),
        ensures
            match verdict(settings.num_colors, settings.rules@.len(), settings.radii@.len()) {
                Ok(_) => made is Ok && made->Ok_0.wf() && made->Ok_0.config() == settled(settings@)
                    && made->Ok_0.buffer() == populated(settings@, draws@) && (!settings.debug
                    ==> in_domain(settings@, made->Ok_0.buffer())),
                Err(e) => made is Err && made->Err_0 == e,
            },
    {
        match settings.validate() {
            Err(e) => Err(e),
            Ok(()) => {
                let mut universe = Universe { atoms: Vec::new(), settings };
                universe.populate(draws);
                Ok(universe)
            },
        }
    }

    /// Width of the domain.
    pub fn width(&self) -> (w: u32)
        ensures
            w == self.config().width,
    {
        self.settings.width
    }

    /// Height of the domain.
    pub fn height(&self) -> (h: u32)
        ensures
            h == self.config().height,
    {
        self.settings.height
    }

    /// Number of particles: a fifth of the buffer's length.
    pub fn num_atoms(&self) -> (count: usize)
        requires
            self.wf(),
        ensures
            count == self.config().population(),
            5 * count == self.buffer().len(),
            5 * count <= usize::MAX,
    {
        proof {
            assert(self.atoms.len() == self.atoms@.len());
        }
        self.settings.num_atoms()
    }

    /// The particle buffer, five numbers for each particle: position x and
    /// y, velocity x and y, colour. The borrow ends before the universe
    /// can change.
    pub fn atoms(&self) -> (view: &Vec<u32>)
        ensures
            view@ == self.buffer(),
    {
        &self.atoms
    }

    /// The configuration in force.
    pub fn settings(&self) -> (current: &Settings)
        ensures
            current@ == self.config(),
    {
        &self.settings
    }

    /// Changes the number of colours and populates the universe anew. The
    /// tables are carried over to the new number.
    pub fn set_num_colors(&mut self, num_colors: u8, draws: &Vec<u32>)
        requires
            old(self).wf(),
            can_populate(recoloured(old(self).config(), num_colors), draws@),
        ensures
            final(self).wf(),
            final(self).config() == settled(recoloured(old(self).config(), num_colors)),
            final(self).buffer() == populated(recoloured(old(self).config(), num_colors), draws@),
            !old(self).config().debug ==> final(self).config().num_colors == num_colors && in_domain(
                final(self).config(),
                final(self).buffer(),
            ),
    {
        let rules = restride(&self.settings.rules, self.settings.num_colors, num_colors);
        let radii = resize(&self.settings.radii, num_colors);
        self.settings.rules = rules;
        self.settings.radii = radii;
        self.settings.num_colors = num_colors;
        self.populate(draws);
    }

    /// Replaces the rule matrix, unless its length is not the square of the
    /// number of colours: then nothing changes.
    pub fn set_rules(&mut self, rules: Vec<u32>) -> (outcome: Result<(), ConfigError>)
        requires
            old(self).wf(),
        ensures
            final(self).wf(),
            final(self).buffer() == old(self).buffer(),
            rules@.len() == old(self).config().num_colors * old(self).config().num_colors ==> outcome
                is Ok && final(self).config() == (SettingsView {
                rules: rules@,
                ..old(self).config()
            }),
            rules@.len() != old(self).config().num_colors * old(self).config().num_colors ==> outcome
                == Err::<(), ConfigError>(ConfigError::RulesLength) && final(self).config() == old(self).config(),
    {
        match check_tables(self.settings.num_colors, rules.len(), self.settings.radii.len()) {
            Ok(()) => {
                self.settings.rules = rules;
                Ok(())
            },
            Err(e) => Err(e),
        }
    }

    /// Replaces the radii, unless their length is not the number of
    /// colours: then nothing changes.
    pub fn set_radii(&mut self, radii: Vec<u32>) -> (outcome: Result<(), ConfigError>)
        requires
            old(self).wf(),
        ensures
            final(self).wf(),
            final(self).buffer() == old(self).buffer(),
            radii@.len() == old(self).config().num_colors ==> outcome is Ok && final(self).config()
                == (SettingsView { radii: radii@, ..old(self).config() }),
            radii@.len() != old(self).config().num_colors ==> outcome == Err::<(), ConfigError>(
                ConfigError::RadiiLength,
            ) && final(self).config() == old(self).config(),
    {
        match check_tables(self.settings.num_colors, self.settings.rules.len(), radii.len()) {
            Ok(()) => {
                self.settings.radii = radii;
                Ok(())
            },
            Err(e) => Err(e),
        }
    }

    /// Sets the share of its velocity that a particle loses each tick.
    pub fn set_viscosity(&mut self, viscosity: u32)
        ensures
            old(self).wf() ==> final(self).wf(),
            final(self).buffer() == old(self).buffer(),
            final(self).config() == (SettingsView { viscosity, ..old(self).config() }),
    {
        self.settings.viscosity = viscosity;
    }

    /// Sets the distance below which walls push particles back.
    pub fn set_wall_repel(&mut self, wall_repel: u32)
        ensures
            old(self).wf() ==> final(self).wf(),
            final(self).buffer() == old(self).buffer(),
            final(self).config() == (SettingsView { wall_repel, ..old(self).config() }),
    {
        self.settings.wall_repel = wall_repel;
    }

    /// Joins or parts the opposite edges of the domain.
    pub fn set_toroid(&mut self, toroid: bool)
        ensures
            old(self).wf() ==> final(self).wf(),
            final(self).buffer() == old(self).buffer(),
            final(self).config() == (SettingsView { toroid, ..old(self).config() }),
    {
        self.settings.toroid = toroid;
    }

    /// Chooses between the bounded force law and the simple one.
    pub fn set_real_forces(&mut self, real_forces: bool)
        ensures
            old(self).wf() ==> final(self).wf(),
            final(self).buffer() == old(self).buffer(),
            final(self).config() == (SettingsView { real_forces, ..old(self).config() }),
    {
        self.settings.real_forces = real_forces;
    }

    /// Sets the factor from accumulated force to change of velocity.
    pub fn set_time_scale(&mut self, time_scale: u32)
        ensures
            old(self).wf() ==> final(self).wf(),
            final(self).buffer() == old(self).buffer(),
            final(self).config() == (SettingsView { time_scale, ..old(self).config() }),
    {
        self.settings.time_scale = time_scale;
    }

    /// Populates the universe anew with particles at rest: the fixed pair
    /// where the configuration asks for it, else the whole population at
    /// the drawn positions.
    pub fn random_atoms(&mut self, draws: &Vec<u32>)
        requires
            old(self).wf(),
            can_populate(old(self).config(), draws@),
        ensures
            final(self).wf(),
            final(self).config() == settled(old(self).config()),
            final(self).buffer() == populated(old(self).config(), draws@),
            !old(self).config().debug ==> in_domain(final(self).config(), final(self).buffer()),
    {
        self.populate(draws);
    }

    /// Replaces the population by the fixed pair, and the counts by two
    /// colours with one particle each.
    pub fn debug_atoms(&mut self)
        requires
            old(self).config().sized(),
        ensures
            final(self).wf(),
            final(self).config() == paired(old(self).config()),
            final(self).buffer() == fixed_pair(),
    {
        let rules = restride(&self.settings.rules, self.settings.num_colors, 2);
        let radii = resize(&self.settings.radii, 2);
        self.settings.rules = rules;
        self.settings.radii = radii;
        self.settings.num_colors = 2;
        self.settings.atoms_per_color = 1;
        let mut atoms: Vec<u32> = Vec::with_capacity(10);
        atoms.push(HUNDRED);
        atoms.push(HUNDRED);
        atoms.push(ZERO);
        atoms.push(ZERO);
        atoms.push(encode_whole(0));
        atoms.push(HUNDRED_FORTY);
        atoms.push(HUNDRED_FORTY);
        atoms.push(ZERO);
        atoms.push(ZERO);
        atoms.push(encode_whole(1));
        self.atoms = atoms;
        proof {
            assert(self.atoms@ =~= fixed_pair());
        }
    }

    fn populate(&mut self, draws: &Vec<u32>)
        requires
            old(self).config().sized(),
            can_populate(old(self).config(), draws@),
        ensures
            final(self).wf(),
            final(self).config() == settled(old(self).config()),
            final(self).buffer() == populated(old(self).config(), draws@),
            !old(self).config().debug ==> in_domain(final(self).config(), final(self).buffer()),
    {
        if self.settings.debug {
            self.debug_atoms();
            return ;
        }
        let count: usize = self.settings.num_atoms();
        let per_colour: usize = self.settings.atoms_per_color as usize;
        let mut atoms: Vec<u32> = Vec::with_capacity(5 * count);
        let mut index: usize = 0;
        while index < count
            invariant
                self.settings@ == old(self).settings@,
                count == self.settings@.population(),
                per_colour == self.settings.atoms_per_color,
                5 * count <= usize::MAX,
                draws.len() == 2 * count,
                index <= count,
                atoms.len() == 5 * index,
                forall|k: int| 0 <= k < atoms.len() ==> atoms[k] == placed(self.settings@, draws@)[k],
            decreases count - index,
        {
            proof {
                colour_in_palette(self.settings@, index as int);
            }
            let colour: u8 = (index / per_colour) as u8;
            atoms.push(draws[2 * index]);
            atoms.push(draws[2 * index + 1]);
            atoms.push(ZERO);
            atoms.push(ZERO);
            atoms.push(encode_whole(colour));
            index = index + 1;
        }
        self.atoms = atoms;
        proof {
            assert(self.atoms@ =~= placed(self.settings@, draws@));
            placed_in_domain(self.settings@, draws@);
        }
    }

    /// Colour of the particle at `index`.
    pub fn colour(&self, index: usize) -> (colour: u8)
        requires
            self.wf(),
            index < self.config().population(),
        ensures
            colour == colour_of(self.config(), index as int),
            colour < self.config().num_colors,
            self.buffer()[5 * index + 4] == whole_bits(colour),
    {
        proof {
            colour_in_palette(self.settings@, index as int);
        }
        (index / self.settings.atoms_per_color as usize) as u8
    }

    /// Coefficient of the force that moves a particle of colour `moved`
    /// near one of colour `other`.
    pub fn rule(&self, moved: u8, other: u8) -> (g: u32)
        requires
            self.wf(),
            moved < self.config().num_colors,
            other < self.config().num_colors,
        ensures
            g == self.config().rules[moved * self.config().num_colors + other],
    {
        proof {
            rule_place_in_matrix(
                self.settings.num_colors as nat,
                moved as nat,
                other as nat,
            );
        }
        let side: usize = self.settings.num_colors as usize;
        assert(moved * side + other < side * side <= 255 * 255) by (nonlinear_arith)
            requires
                moved < side,
                other < side,
                side <= 255,
        ;
        self.settings.rules[moved as usize * side + other as usize]
    }

    /// Cutoff of the particles of `colour`.
    pub fn radius(&self, colour: u8) -> (r: u32)
        requires
            self.wf(),
            colour < self.config().num_colors,
        ensures
            r == self.config().radii[colour as int],
    {
        self.settings.radii[colour as usize]
    }

    /// Force on the particle at `index` from the one at `other`, in a domain
    /// whose encoded extents are `width` and `height`; `None` where the
    /// other does not act. A particle does not act on itself, nor on one at
    /// the very same position.
    pub fn pull_between<A: Arithmetic>(
        &self,
        index: usize,
        other: usize,
        width: u32,
        height: u32,
        math: &A,
    ) -> (force: Option<(u32, u32)>)
        requires
            self.wf(),
            index < self.config().population(),
            other < self.config().population(),
        ensures
            pull_between_of(
                math,
                self.config(),
                places(self.buffer()),
                index as int,
                other as int,
                width,
                height,
                force,
            ),
            index == other ==> force is None,
            self.coincide(index as int, other as int) ==> force is None,
    {
        proof {
            assert(self.atoms.len() == self.atoms@.len());
        }
        let x: u32 = self.atoms[5 * index];
        let y: u32 = self.atoms[5 * index + 1];
        let other_x: u32 = self.atoms[5 * other];
        let other_y: u32 = self.atoms[5 * other + 1];
        if index == other || (x == other_x && y == other_y) {
            return None;
        }
        let joined: bool = self.settings.toroid;
        let colour: u8 = self.colour(index);
        let r: u32 = self.radius(colour);
        let r2: u32 = math.product(r, r);
        let dx: u32 = offset(math.difference(x, other_x), width, joined, math);
        let dy: u32 = offset(math.difference(y, other_y), height, joined, math);
        let d: u32 = math.sum(math.product(dx, dx), math.product(dy, dy));
        let g: u32 = self.rule(colour, self.colour(other));
        proof {
            assert(gap_of(math, x, other_x, width, joined, dx));
            assert(gap_of(math, y, other_y, height, joined, dy));
            assert(squared_length(math, dx, dy, d));
        }
        pull(self.settings.force_law(), dx, dy, d, r, r2, g, math)
    }

    /// Whether the particles at `index` and `other` are at the very same
    /// position.
    pub open spec fn coincide(&self, index: int, other: int) -> bool {
        self.buffer()[5 * index] == self.buffer()[5 * other] && self.buffer()[5 * index + 1]
            == self.buffer()[5 * other + 1]
    }

    /// Sum of the forces on the particle at `index`: the pull of every
    /// other particle within reach, one after the other, and the push of
    /// the walls. Without walls that push, a particle that shares its
    /// position with all others is under no force.
    pub fn force_on<A: Arithmetic>(&self, index: usize, math: &A) -> (force: (u32, u32))
        requires
            self.wf(),
            index < self.config().population(),
        ensures
            force_of(math, self.config(), places(self.buffer()), index as int, force),
            !self.config().walls_repel() && (forall|other: int|
                0 <= other < self.config().population() ==> self.coincide(index as int, other))
                ==> force == (ZERO, ZERO),
    {
        let count: usize = self.num_atoms();
        let width: u32 = math.whole(self.settings.width);
        let height: u32 = math.whole(self.settings.height);
        let mut fx: u32 = ZERO;
        let mut fy: u32 = ZERO;
        let mut other: usize = 0;
        while other < count
            invariant
                self.wf(),
                count == self.config().population(),
                index < count,
                other <= count,
                (forall|seen: int| 0 <= seen < other ==> self.coincide(index as int, seen)) ==> fx
                    == ZERO && fy == ZERO,
                is_whole(math, self.config().width, width),
                is_whole(math, self.config().height, height),
                pulls_sum(
                    math,
                    self.config(),
                    places(self.buffer()),
                    index as int,
                    other as nat,
                    width,
                    height,
                    (fx, fy),
                ),
            decreases count - other,
        {
            let ghost before = (fx, fy);
            let pulled = self.pull_between(index, other, width, height, math);
            match pulled {
                Some((px, py)) => {
                    fx = math.sum(fx, px);
                    fy = math.sum(fy, py);
                },
                None => {},
            }
            proof {
                assert(added(math, before, pulled, (fx, fy)));
            }
            other = other + 1;
        }
        let ghost pulled = (fx, fy);
        let ghost place = places(self.buffer())[index as int];
        proof {
            assert(places(self.buffer()).len() == count);
            assert(place == (self.buffer()[5 * index], self.buffer()[5 * index + 1]));
        }
        if self.settings.walls_repel() {
            let reach: u32 = math.whole(self.settings.wall_repel);
            let inner_x: u32 = math.difference(width, reach);
            let inner_y: u32 = math.difference(height, reach);
            fx = wall_push(self.atoms[5 * index], reach, inner_x, fx, math);
            fy = wall_push(self.atoms[5 * index + 1], reach, inner_y, fy, math);
            proof {
                assert(wall_push_of(math, place.0, reach, inner_x, pulled.0, (fx, fy).0));
                assert(wall_push_of(math, place.1, reach, inner_y, pulled.1, (fx, fy).1));
            }
        }
        proof {
            assert(walls_of(math, self.config(), place, width, height, pulled, (fx, fy)));
        }
        (fx, fy)
    }

    /// First half of a tick: every particle's velocity is damped by the
    /// viscosity and changed by the force on it times the time scale.
    /// Positions and colours stay.
    pub fn accelerate<A: Arithmetic>(&mut self, math: &A)
        requires
            old(self).wf(),
        ensures
            final(self).wf(),
            final(self).config() == old(self).config(),
            final(self).buffer().len() == old(self).buffer().len(),
            forall|k: int|
                0 <= k < old(self).buffer().len() && k % 5 != 2 && k % 5 != 3 ==> #[trigger] final(self).buffer()[k] == old(self).buffer()[k],
            accelerated(math, old(self).config(), old(self).buffer(), final(self).buffer()),
    {
        let count: usize = self.num_atoms();
        let keep: u32 = math.difference(ONE, self.settings.viscosity);
        let scale: u32 = self.settings.time_scale;
        let mut index: usize = 0;
        while index < count
            invariant
                self.wf(),
                self.config() == old(self).config(),
                self.buffer().len() == old(self).buffer().len(),
                count == self.config().population(),
                5 * count <= usize::MAX,
                index <= count,
                forall|k: int|
                    0 <= k < self.buffer().len() && k % 5 != 2 && k % 5 != 3 ==> #[trigger] self.buffer()[k]
                        == old(self).buffer()[k],
                forall|k: int|
                    5 * index <= k < self.buffer().len() ==> #[trigger] self.buffer()[k] == old(self).buffer()[k],
                scale == self.config().time_scale,
                is_difference(math, ONE, self.config().viscosity, keep),
                forall|i: int|
                    0 <= i < index ==> #[trigger] accelerated_at(
                        math,
                        self.config(),
                        keep,
                        old(self).buffer(),
                        self.buffer(),
                        i,
                    ),
            decreases count - index,
        {
            proof {
                assert(places(self.buffer()) =~= places(old(self).buffer()));
            }
            let ghost earlier = self.buffer();
            let (fx, fy) = self.force_on(index, math);
            let vx: u32 = math.sum(math.product(self.atoms[5 * index + 2], keep), math.product(fx, scale));
            let vy: u32 = math.sum(math.product(self.atoms[5 * index + 3], keep), math.product(fy, scale));
            self.atoms.set(5 * index + 2, vx);
            self.atoms.set(5 * index + 3, vy);
            proof {
                let before = old(self).buffer();
                let c = self.config();
                assert(velocity_of(math, before[5 * index + 2], keep, fx, scale, vx));
                assert(velocity_of(math, before[5 * index + 3], keep, fy, scale, vy));
                assert(force_of(math, c, places(before), index as int, (fx, fy)));
                assert(accelerated_at(math, c, keep, before, self.buffer(), index as int));
                assert forall|i: int| 0 <= i < index implies #[trigger] accelerated_at(
                    math,
                    c,
                    keep,
                    before,
                    self.buffer(),
                    i,
                ) by {
                    assert(accelerated_at(math, c, keep, before, earlier, i));
                    assert(self.buffer()[5 * i + 2] == earlier[5 * i + 2]);
                    assert(self.buffer()[5 * i + 3] == earlier[5 * i + 3]);
                }
            }
            index = index + 1;
        }
    }

    /// Second half of a tick under the boundary policy that the
    /// configuration selects: see [`Universe::advance_with`].
    pub fn advance<A: Arithmetic>(&mut self, math: &A)
        requires
            old(self).wf(),
        ensures
            final(self).wf(),
            final(self).config() == old(self).config(),
            final(self).buffer().len() == old(self).buffer().len(),
            forall|k: int|
                0 <= k < old(self).buffer().len() && k % 5 == 4 ==> #[trigger] final(self).buffer()[k]
                    == old(self).buffer()[k],
            forall|k: int|
                0 <= k < old(self).buffer().len() && (k % 5 == 2 || k % 5 == 3) ==> #[trigger] final(self).buffer()[k] == old(self).buffer()[k] || (!old(self).config().toroid && final(self).buffer()[k] == negated(old(self).buffer()[k])),
            advanced(
                math,
                old(self).config(),
                old(self).config().boundary_policy(),
                old(self).buffer(),
                final(self).buffer(),
            ),
    {
        let policy: BoundaryPolicy = self.settings.boundary_policy();
        self.advance_with(policy, math);
    }

    /// Moves every particle by its velocity and brings it back into the
    /// domain as `policy` has it, each axis by itself. Colours stay. A
    /// velocity changes only where a wall throws the particle back, and
    /// then only in sign.
    pub fn advance_with<A: Arithmetic>(&mut self, policy: BoundaryPolicy, math: &A)
        requires
            old(self).wf(),
        ensures
            final(self).wf(),
            final(self).config() == old(self).config(),
            final(self).buffer().len() == old(self).buffer().len(),
            forall|k: int|
                0 <= k < old(self).buffer().len() && k % 5 == 4 ==> #[trigger] final(self).buffer()[k]
                    == old(self).buffer()[k],
            forall|k: int|
                0 <= k < old(self).buffer().len() && (k % 5 == 2 || k % 5 == 3) ==> #[trigger] final(self).buffer()[k] == old(self).buffer()[k] || (policy == BoundaryPolicy::Bounce && final(self).buffer()[k] == negated(old(self).buffer()[k])),
            advanced(math, old(self).config(), policy, old(self).buffer(), final(self).buffer()),
    {
        let count: usize = self.num_atoms();
        let width: u32 = math.whole(self.settings.width);
        let height: u32 = math.whole(self.settings.height);
        let mut index: usize = 0;
        while index < count
            invariant
                self.wf(),
                self.config() == old(self).config(),
                self.buffer().len() == old(self).buffer().len(),
                count == self.config().population(),
                5 * count <= usize::MAX,
                index <= count,
                forall|k: int|
                    0 <= k < self.buffer().len() && k % 5 == 4 ==> #[trigger] self.buffer()[k] == old(self).buffer()[k],
                forall|k: int|
                    0 <= k < self.buffer().len() && (k % 5 == 2 || k % 5 == 3) && k >= 5 * index
                        ==> #[trigger] self.buffer()[k] == old(self).buffer()[k],
                forall|k: int|
                    0 <= k < self.buffer().len() && (k % 5 == 2 || k % 5 == 3) ==> #[trigger] self.buffer()[k]
                        == old(self).buffer()[k] || (policy == BoundaryPolicy::Bounce
                        && self.buffer()[k] == negated(old(self).buffer()[k])),
                forall|k: int|
                    5 * index <= k < self.buffer().len() ==> #[trigger] self.buffer()[k] == old(self).buffer()[k],
                is_whole(math, self.config().width, width),
                is_whole(math, self.config().height, height),
                forall|i: int|
                    0 <= i < index ==> #[trigger] advanced_at(
                        math,
                        policy,
                        width,
                        height,
                        old(self).buffer(),
                        self.buffer(),
                        i,
                    ),
            decreases count - index,
        {
            let ghost earlier = self.buffer();
            let base: usize = 5 * index;
            let vx: u32 = self.atoms[base + 2];
            let vy: u32 = self.atoms[base + 3];
            let moved_x: u32 = math.sum(self.atoms[base], vx);
            let moved_y: u32 = math.sum(self.atoms[base + 1], vy);
            let (x, turned_vx) = settle(policy, moved_x, vx, width, math);
            let (y, turned_vy) = settle(policy, moved_y, vy, height, math);
            self.atoms.set(base, x);
            self.atoms.set(base + 1, y);
            self.atoms.set(base + 2, turned_vx);
            self.atoms.set(base + 3, turned_vy);
            proof {
                let before = old(self).buffer();
                let now = self.buffer();
                assert(settle_of(
                    math,
                    policy,
                    moved_x,
                    before[5 * index + 2],
                    width,
                    (now[5 * index], now[5 * index + 2]),
                ));
                assert(settle_of(
                    math,
                    policy,
                    moved_y,
                    before[5 * index + 3],
                    height,
                    (now[5 * index + 1], now[5 * index + 3]),
                ));
                assert(advanced_at(math, policy, width, height, before, now, index as int));
                assert forall|i: int| 0 <= i < index implies #[trigger] advanced_at(
                    math,
                    policy,
                    width,
                    height,
                    before,
                    now,
                    i,
                ) by {
                    assert(advanced_at(math, policy, width, height, before, earlier, i));
                    assert(now[5 * i] == earlier[5 * i]);
                    assert(now[5 * i + 1] == earlier[5 * i + 1]);
                    assert(now[5 * i + 2] == earlier[5 * i + 2]);
                    assert(now[5 * i + 3] == earlier[5 * i + 3]);
                }
            }
            index = index + 1;
        }
    }

    /// One step of the simulation: velocities change by the forces, then
    /// positions by the velocities. No particle appears, leaves or changes
    /// its colour, and the configuration stays.
    pub fn tick<A: Arithmetic>(&mut self, math: &A)
        requires
            old(self).wf(),
        ensures
            final(self).wf(),
            final(self).config() == old(self).config(),
            final(self).buffer().len() == old(self).buffer().len(),
            forall|k: int|
                0 <= k < old(self).buffer().len() && k % 5 == 4 ==> #[trigger] final(self).buffer()[k]
                    == old(self).buffer()[k],
            ticked(math, old(self).config(), old(self).buffer(), final(self).buffer()),
    {
        self.accelerate(math);
        let ghost between = self.buffer();
        self.advance(math);
        proof {
            assert(accelerated(math, old(self).config(), old(self).buffer(), between));
        }
    }
}

/// A buffer that fits its configuration holds five numbers for each
/// particle that the configuration asks for.
pub proof fn count_is_fifth(c: SettingsView, b: Seq<u32>)
    requires
        fits(c, b),
    ensures
        b.len() / 5 == c.population(),
        b.len() % 5 == 0,
{
}

/// A drawn population lies in the domain if its draws do: every particle
/// is where its two draws put it.
pub proof fn placed_in_domain(c: SettingsView, draws: Seq<u32>)
    requires
        draws.len() == 2 * c.population(),
        draws_in_domain(c, draws),
    ensures
        in_domain(c, placed(c, draws)),
{
    let b = placed(c, draws);
    assert forall|k: int| 0 <= k < b.len() implies (k % 5 == 0 ==> in_range(#[trigger] b[k], c.width))
        && (k % 5 == 1 ==> in_range(b[k], c.height)) by {
        if k % 5 == 0 {
            assert(b[k] == draws[2 * (k / 5)]);
        } else if k % 5 == 1 {
            assert(b[k] == draws[2 * (k / 5) + 1]);
        }
    }
}

/// Every particle of a population has one of the configuration's colours.
pub proof fn colour_in_palette(c: SettingsView, index: int)
    requires
        0 <= index < c.population(),
    ensures
        c.atoms_per_color > 0,
        0 <= index / (c.atoms_per_color as int) < c.num_colors,
        colour_of(c, index) < c.num_colors,
        colour_of(c, index) == index / (c.atoms_per_color as int),
{
    let per = c.atoms_per_color as int;
    let colours = c.num_colors as int;
    assert(per > 0) by (nonlinear_arith)
        requires
            0 <= index < colours * per,
            per >= 0,
    ;
    assert(0 <= index / per < colours) by (nonlinear_arith)
        requires
            0 <= index < colours * per,
            per > 0,
    ;
}

} // verus!
