//! Configuration of a universe and the rules on its tables.

use vstd::prelude::*;
use vstd::arithmetic::div_mod::lemma_fundamental_div_mod_converse;
use crate::encoding::ZERO;
use crate::policy::{BoundaryPolicy, ForceLaw};

verus! {

/// Why a configuration is refused.
#[derive(Debug, Clone, Copy, PartialEq, Eq, Structural)]
pub enum ConfigError {
    /// The rule matrix does not hold one coefficient for each ordered pair
    /// of colours.
    RulesLength,
    /// The radii do not hold one cutoff for each colour.
    RadiiLength,
}

/// What a universe is built from. Numbers that are no integers are encoded
/// as described in [`crate::encoding`].
#[derive(Debug, Clone)]
pub struct Settings {
    /// Extent of the domain along y.
    pub height: u32,
    /// Extent of the domain along x.
    pub width: u32,
    /// Number of colours.
    pub num_colors: u8,
    /// Number of particles of each colour.
    pub atoms_per_color: u32,
    /// Whether opposite edges of the domain are joined.
    pub toroid: bool,
    /// Distance from a wall below which it pushes particles back; zero for
    /// none.
    pub wall_repel: u32,
    /// Share of its velocity that a particle loses each tick.
    pub viscosity: u32,
    /// Coefficient of the force between each ordered pair of colours, row
    /// by row: the row is the colour of the particle that is moved.
    pub rules: Vec<u32>,
    /// For each colour, the distance up to which its particles are moved by
    /// others.
    pub radii: Vec<u32>,
    /// Factor from accumulated force to change of velocity.
    pub time_scale: u32,
    /// Whether the bounded force law is used in place of the simple one.
    pub real_forces: bool,
    /// Whether the store holds the fixed pair of particles in place of a
    /// drawn population.
    pub debug: bool,
}

/// A configuration as a mathematical value.
pub ghost struct SettingsView {
    pub height: u32,
    pub width: u32,
    pub num_colors: u8,
    pub atoms_per_color: u32,
    pub toroid: bool,
    pub wall_repel: u32,
    pub viscosity: u32,
    pub rules: Seq<u32>,
    pub radii: Seq<u32>,
    pub time_scale: u32,
    pub real_forces: bool,
    pub debug: bool,
}

impl View for Settings {
    type V = SettingsView;

    open spec fn view(&self) -> SettingsView {
        SettingsView {
            height: self.height,
            width: self.width,
            num_colors: self.num_colors,
            atoms_per_color: self.atoms_per_color,
            toroid: self.toroid,
            wall_repel: self.wall_repel,
            viscosity: self.viscosity,
            rules: self.rules@,
            radii: self.radii@,
            time_scale: self.time_scale,
            real_forces: self.real_forces,
            debug: self.debug,
        }
    }
}

/// The verdict on tables of the given lengths for `num_colors` colours. A
/// wrong rule matrix is reported before wrong radii.
pub open spec fn verdict(num_colors: u8, rules_len: nat, radii_len: nat) -> Result<
    (),
    ConfigError,
> {
    if rules_len != num_colors * num_colors {
        Err(ConfigError::RulesLength)
    } else if radii_len != num_colors {
        Err(ConfigError::RadiiLength)
    } else {
        Ok(())
    }
}

/// Tables are accepted exactly when the rule matrix holds the square of
/// the number of colours and the radii hold that number.
pub proof fn accepted_exactly_when_sized(num_colors: u8, rules_len: nat, radii_len: nat)
    ensures
        verdict(num_colors, rules_len, radii_len) is Ok <==> rules_len == num_colors * num_colors
            && radii_len == num_colors,
        verdict(num_colors, rules_len, radii_len) == Err::<(), ConfigError>(ConfigError::RulesLength)
            <==> rules_len != num_colors * num_colors,
        verdict(num_colors, rules_len, radii_len) == Err::<(), ConfigError>(ConfigError::RadiiLength)
            <==> rules_len == num_colors * num_colors && radii_len != num_colors,
{
}

/// Place of the coefficient for the ordered pair `(moved, other)` in a
/// matrix stored row by row.
pub open spec fn rule_place(num_colors: nat, moved: nat, other: nat) -> nat {
    moved * num_colors + other
}

/// The matrix `rules` of side `from` carried over to side `to`: an entry
/// whose two colours exist on both sides is kept, every other entry is
/// zero.
pub open spec fn restrided(rules: Seq<u32>, from: nat, to: nat) -> Seq<u32> {
    Seq::new(
        to * to,
        |k: int|
            if k / (to as int) < from && k % (to as int) < from {
                rules[(k / (to as int)) * from + k % (to as int)]
            } else {
                ZERO
            },
    )
}

/// The radii cut or filled with zeros to the length `to`.
pub open spec fn resized(radii: Seq<u32>, to: nat) -> Seq<u32> {
    Seq::new(
        to,
        |k: int|
            if k < radii.len() {
                radii[k]
            } else {
                ZERO
            },
    )
}

impl SettingsView {
    /// Number of particles that the configuration asks for.
    pub open spec fn population(self) -> nat {
        (self.num_colors * self.atoms_per_color) as nat
    }

    /// The force law in use.
    pub open spec fn force_law(self) -> ForceLaw {
        if self.real_forces {
            ForceLaw::Bounded
        } else {
            ForceLaw::Simple
        }
    }

    /// How the edges treat a particle: joined edges wrap it round, walls
    /// bounce it back.
    pub open spec fn boundary_policy(self) -> BoundaryPolicy {
        if self.toroid {
            BoundaryPolicy::Wrap
        } else {
            BoundaryPolicy::Bounce
        }
    }

    /// Whether walls push particles back: only where the edges are not
    /// joined and the distance is not zero.
    pub open spec fn walls_repel(self) -> bool {
        !self.toroid && self.wall_repel > 0
    }

    /// Whether both tables have the length that the number of colours
    /// asks for.
    pub open spec fn sized(self) -> bool {
        verdict(self.num_colors, self.rules.len(), self.radii.len()) is Ok
    }
}

/// Each ordered pair of colours has a place of its own inside the matrix.
pub proof fn rule_place_in_matrix(num_colors: nat, moved: nat, other: nat)
    requires
        moved < num_colors,
        other < num_colors,
    ensures
        rule_place(num_colors, moved, other) < num_colors * num_colors,
        rule_place(num_colors, moved, other) / num_colors == moved,
        rule_place(num_colors, moved, other) % num_colors == other,
{
    assert(moved * num_colors + other < num_colors * num_colors) by (nonlinear_arith)
        requires
            moved < num_colors,
            other < num_colors,
    ;
    lemma_fundamental_div_mod_converse(
        rule_place(num_colors, moved, other) as int,
        num_colors as int,
        moved as int,
        other as int,
    );
}

/// Checks the lengths of the two tables against the number of colours.
pub fn check_tables(num_colors: u8, rules_len: usize, radii_len: usize) -> (outcome: Result<
    (),
    ConfigError,
>)
    ensures
        outcome == verdict(num_colors, rules_len as nat, radii_len as nat),
{
    let side: usize = num_colors as usize;
    assert(side * side <= 255 * 255) by (nonlinear_arith)
        requires
            side <= 255,
    ;
    if rules_len != side * side {
        Err(ConfigError::RulesLength)
    } else if radii_len != side {
        Err(ConfigError::RadiiLength)
    } else {
        Ok(())
    }
}

/// Carries a rule matrix of side `from` over to side `to`.
pub fn restride(rules: &Vec<u32>, from: u8, to: u8) -> (carried: Vec<u32>)
    requires
        rules.len() == from * from,
    ensures
        carried@ == restrided(rules@, from as nat, to as nat),
{
    let mut carried: Vec<u32> = Vec::new();
    let side: usize = to as usize;
    let old_side: usize = from as usize;
    let mut row: usize = 0;
    while row < side
        invariant
            side == to,
            old_side == from,
            rules.len() == from * from,
            row <= side,
            carried.len() == row * side,
            forall|k: int| 0 <= k < carried.len() ==> carried[k] == restrided(rules@, from as nat, to as nat)[k],
        decreases side - row,
    {
        let mut column: usize = 0;
        while column < side
            invariant
                side == to,
                old_side == from,
                rules.len() == from * from,
                row < side,
                column <= side,
                carried.len() == row * side + column,
                forall|k: int| 0 <= k < carried.len() ==> carried[k] == restrided(rules@, from as nat, to as nat)[k],
            decreases side - column,
        {
            proof {
                rule_place_in_matrix(to as nat, row as nat, column as nat);
                if row < old_side && column < old_side {
                    rule_place_in_matrix(from as nat, row as nat, column as nat);
                }
                assert(row * side + column < side * side) by (nonlinear_arith)
                    requires
                        row < side,
                        column < side,
                ;
                assert(side * side <= 255 * 255) by (nonlinear_arith)
                    requires
                        side <= 255,
                ;
            }
            let entry: u32 = if row < old_side && column < old_side {
                assert(row * old_side + column < old_side * old_side) by (nonlinear_arith)
                    requires
                        row < old_side,
                        column < old_side,
                ;
                assert(old_side * old_side <= 255 * 255) by (nonlinear_arith)
                    requires
                        old_side <= 255,
                ;
                rules[row * old_side + column]
            } else {
                ZERO
            };
            carried.push(entry);
            column = column + 1;
        }
        proof {
            assert(row * side + side == (row + 1) * side) by (nonlinear_arith);
        }
        row = row + 1;
    }
    proof {
        assert(carried@ =~= restrided(rules@, from as nat, to as nat));
    }
    carried
}

/// Cuts the radii, or fills them with zeros, to the length `to`.
pub fn resize(radii: &Vec<u32>, to: u8) -> (fitted: Vec<u32>)
    ensures
        fitted@ == resized(radii@, to as nat),
{
    let mut fitted: Vec<u32> = Vec::new();
    let length: usize = to as usize;
    let mut k: usize = 0;
    while k < length
        invariant
            length == to,
            k <= length,
            fitted.len() == k,
            forall|n: int| 0 <= n < k ==> fitted[n] == resized(radii@, to as nat)[n],
        decreases length - k,
    {
        let entry: u32 = if k < radii.len() {
            radii[k]
        } else {
            ZERO
        };
        fitted.push(entry);
        k = k + 1;
    }
    proof {
        assert(fitted@ =~= resized(radii@, to as nat));
    }
    fitted
}

impl Settings {
    /// Number of particles that the configuration asks for.
    pub fn num_atoms(&self) -> (count: usize)
        requires
            self@.population() <= usize::MAX,
        ensures
            count == self@.population(),
    {
        self.num_colors as usize * self.atoms_per_color as usize
    }

    /// Checks that both tables fit the number of colours.
    pub fn validate(&self) -> (outcome: Result<(), ConfigError>)
        ensures
            outcome == verdict(self.num_colors, self.rules@.len(), self.radii@.len()),
            outcome is Ok <==> self@.sized(),
    {
        check_tables(self.num_colors, self.rules.len(), self.radii.len())
    }

    /// How the edges of the domain treat a particle: joined edges wrap it
    /// round, walls bounce it back.
    pub fn boundary_policy(&self) -> (policy: BoundaryPolicy)
        ensures
            policy == self@.boundary_policy(),
    {
        if self.toroid {
            BoundaryPolicy::Wrap
        } else {
            BoundaryPolicy::Bounce
        }
    }

    /// The force law in use.
    pub fn force_law(&self) -> (law: ForceLaw)
        ensures
            law == self@.force_law(),
    {
        if self.real_forces {
            ForceLaw::Bounded
        } else {
            ForceLaw::Simple
        }
    }

    /// Whether walls push particles back: only where the edges are not
    /// joined and the distance is not zero.
    pub fn walls_repel(&self) -> (active: bool)
        ensures
            active == self@.walls_repel(),
    {
        !self.toroid && self.wall_repel > 0
    }
}

} // verus!
