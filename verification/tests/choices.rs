use particle_life::arith::Arithmetic;
use particle_life::config::{
    check_tables, resize, restride, ConfigError, Settings,
};
use particle_life::policy::{
    pick_shorter, within_reach, BoundaryPolicy, Correction, ForceLaw, Shift, Side,
};
use particle_life::dynamics::{offset, pull, settle, wall_push};

struct Host;

impl Arithmetic for Host {
    fn sum(&self, a: u32, b: u32) -> u32 {
        (f32::from_bits(a) + f32::from_bits(b)).to_bits()
    }

    fn difference(&self, a: u32, b: u32) -> u32 {
        (f32::from_bits(a) - f32::from_bits(b)).to_bits()
    }

    fn product(&self, a: u32, b: u32) -> u32 {
        (f32::from_bits(a) * f32::from_bits(b)).to_bits()
    }

    fn quotient(&self, a: u32, b: u32) -> u32 {
        (f32::from_bits(a) / f32::from_bits(b)).to_bits()
    }

    fn square_root(&self, a: u32) -> u32 {
        f32::from_bits(a).sqrt().to_bits()
    }

    fn angle(&self, y: u32, x: u32) -> u32 {
        f32::from_bits(y).atan2(f32::from_bits(x)).to_bits()
    }

    fn cosine(&self, a: u32) -> u32 {
        f32::from_bits(a).cos().to_bits()
    }

    fn sine(&self, a: u32) -> u32 {
        f32::from_bits(a).sin().to_bits()
    }

    fn whole(&self, n: u32) -> u32 {
        (n as f32).to_bits()
    }
}

fn b(x: f32) -> u32 {
    x.to_bits()
}

fn settings(num_colors: u8, rules: Vec<f32>, radii: Vec<f32>) -> Settings {
    Settings {
        height: 200,
        width: 300,
        num_colors,
        atoms_per_color: 4,
        toroid: false,
        wall_repel: 0,
        viscosity: b(0.0),
        rules: rules.into_iter().map(b).collect(),
        radii: radii.into_iter().map(b).collect(),
        time_scale: b(1.0),
        real_forces: false,
        debug: false,
    }
}

#[test]
fn tables_are_checked_against_the_colours() {
    assert_eq!(check_tables(3, 9, 3), Ok(()));
    assert_eq!(check_tables(0, 0, 0), Ok(()));
    assert_eq!(check_tables(255, 255 * 255, 255), Ok(()));
    assert_eq!(check_tables(3, 8, 3), Err(ConfigError::RulesLength));
    assert_eq!(check_tables(3, 3, 3), Err(ConfigError::RulesLength));
    assert_eq!(check_tables(3, 9, 2), Err(ConfigError::RadiiLength));
    assert_eq!(check_tables(3, 9, 9), Err(ConfigError::RadiiLength));
}

#[test]
fn wrong_rules_are_reported_before_wrong_radii() {
    assert_eq!(check_tables(2, 5, 7), Err(ConfigError::RulesLength));
}

#[test]
fn validate_looks_at_both_tables() {
    assert_eq!(settings(2, vec![0.0; 4], vec![1.0; 2]).validate(), Ok(()));
    assert_eq!(
        settings(2, vec![0.0; 3], vec![1.0; 2]).validate(),
        Err(ConfigError::RulesLength)
    );
    assert_eq!(
        settings(2, vec![0.0; 4], vec![1.0; 3]).validate(),
        Err(ConfigError::RadiiLength)
    );
}

#[test]
fn population_is_colours_times_particles_per_colour() {
    assert_eq!(settings(3, vec![0.0; 9], vec![1.0; 3]).num_atoms(), 12);
    assert_eq!(settings(0, vec![], vec![]).num_atoms(), 0);
    let mut many = settings(255, vec![], vec![]);
    many.atoms_per_color = 1000;
    assert_eq!(many.num_atoms(), 255_000);
}

#[test]
fn flags_select_the_strategies() {
    let mut s = settings(1, vec![0.0], vec![1.0]);
    assert_eq!(s.boundary_policy(), BoundaryPolicy::Bounce);
    assert_eq!(s.force_law(), ForceLaw::Simple);
    assert!(!s.walls_repel());
    s.wall_repel = 5;
    assert!(s.walls_repel());
    s.toroid = true;
    s.real_forces = true;
    assert_eq!(s.boundary_policy(), BoundaryPolicy::Wrap);
    assert_eq!(s.force_law(), ForceLaw::Bounded);
    assert!(!s.walls_repel());
}

#[test]
fn restride_keeps_entries_of_colours_that_stay() {
    let two = vec![11, 12, 21, 22];
    assert_eq!(restride(&two, 2, 3), vec![11, 12, 0, 21, 22, 0, 0, 0, 0]);
    let three = vec![11, 12, 13, 21, 22, 23, 31, 32, 33];
    assert_eq!(restride(&three, 3, 2), vec![11, 12, 21, 22]);
    assert_eq!(restride(&three, 3, 3), three);
    assert_eq!(restride(&three, 3, 0), Vec::<u32>::new());
    assert_eq!(restride(&Vec::new(), 0, 1), vec![0]);
}

#[test]
fn resize_cuts_or_fills_with_zero() {
    assert_eq!(resize(&vec![5, 6, 7], 2), vec![5, 6]);
    assert_eq!(resize(&vec![5, 6, 7], 5), vec![5, 6, 7, 0, 0]);
    assert_eq!(resize(&vec![5, 6, 7], 3), vec![5, 6, 7]);
    assert_eq!(resize(&vec![], 0), Vec::<u32>::new());
}

#[test]
fn sides_are_told_apart() {
    let w = b(100.0);
    for policy in [BoundaryPolicy::Wrap, BoundaryPolicy::Clamp, BoundaryPolicy::Bounce] {
        assert_eq!(policy.classify(b(-0.5), w), Side::Below);
        assert_eq!(policy.classify(b(0.0), w), Side::Inside);
        assert_eq!(policy.classify(b(-0.0), w), Side::Inside);
        assert_eq!(policy.classify(b(99.99), w), Side::Inside);
        assert_eq!(policy.classify(b(100.5), w), Side::Beyond);
        assert_eq!(policy.classify(b(f32::NAN), w), Side::Inside);
    }
    assert_eq!(BoundaryPolicy::Wrap.classify(w, w), Side::Beyond);
    assert_eq!(BoundaryPolicy::Clamp.classify(w, w), Side::Inside);
    assert_eq!(BoundaryPolicy::Bounce.classify(w, w), Side::Inside);
}

#[test]
fn each_policy_has_its_corrections() {
    let stay = Correction { shift: Shift::Stay, turn: false };
    for policy in [BoundaryPolicy::Wrap, BoundaryPolicy::Clamp, BoundaryPolicy::Bounce] {
        assert_eq!(policy.correct(Side::Inside), stay);
    }
    assert_eq!(
        BoundaryPolicy::Wrap.correct(Side::Below),
        Correction { shift: Shift::AddExtent, turn: false }
    );
    assert_eq!(
        BoundaryPolicy::Wrap.correct(Side::Beyond),
        Correction { shift: Shift::SubtractExtent, turn: false }
    );
    assert_eq!(
        BoundaryPolicy::Clamp.correct(Side::Below),
        Correction { shift: Shift::ToZero, turn: false }
    );
    assert_eq!(
        BoundaryPolicy::Clamp.correct(Side::Beyond),
        Correction { shift: Shift::ToExtent, turn: false }
    );
    assert_eq!(
        BoundaryPolicy::Bounce.correct(Side::Below),
        Correction { shift: Shift::Mirror, turn: true }
    );
    assert_eq!(
        BoundaryPolicy::Bounce.correct(Side::Beyond),
        Correction { shift: Shift::MirrorAtExtent, turn: true }
    );
}

#[test]
fn wrap_brings_a_coordinate_back_into_the_domain() {
    let w = b(100.0);
    assert_eq!(settle(BoundaryPolicy::Wrap, b(-1.5), b(-2.0), w, &Host), (b(98.5), b(-2.0)));
    assert_eq!(settle(BoundaryPolicy::Wrap, b(101.25), b(3.0), w, &Host), (b(1.25), b(3.0)));
    assert_eq!(settle(BoundaryPolicy::Wrap, b(100.0), b(3.0), w, &Host), (b(0.0), b(3.0)));
    assert_eq!(settle(BoundaryPolicy::Wrap, b(42.0), b(3.0), w, &Host), (b(42.0), b(3.0)));
}

#[test]
fn wrap_adds_the_extent_once_and_rounds_as_the_host_does() {
    let w = b(100.0);
    assert_eq!(settle(BoundaryPolicy::Wrap, b(-250.0), b(1.0), w, &Host), (b(-150.0), b(1.0)));
    assert_eq!(settle(BoundaryPolicy::Wrap, b(250.0), b(1.0), w, &Host), (b(150.0), b(1.0)));
    assert_eq!(settle(BoundaryPolicy::Wrap, b(-1.0e-6), b(1.0), w, &Host), (b(100.0), b(1.0)));
}

#[test]
fn toroidal_move_stays_in_the_domain() {
    let w = 64.0f32;
    let mut position = 0.25f32;
    let velocity = -7.5f32;
    for _ in 0..200 {
        let moved = Host.sum(b(position), b(velocity));
        let (p, v) = settle(BoundaryPolicy::Wrap, moved, b(velocity), b(w), &Host);
        position = f32::from_bits(p);
        assert_eq!(v, b(velocity));
        assert!(position >= 0.0 && position < w, "{}", position);
    }
    let velocity = 63.5f32;
    for _ in 0..200 {
        let moved = Host.sum(b(position), b(velocity));
        let (p, _) = settle(BoundaryPolicy::Wrap, moved, b(velocity), b(w), &Host);
        position = f32::from_bits(p);
        assert!(position >= 0.0 && position < w, "{}", position);
    }
}

#[test]
fn clamp_stops_at_the_wall_and_keeps_the_velocity() {
    let w = b(100.0);
    assert_eq!(settle(BoundaryPolicy::Clamp, b(-1.5), b(-2.0), w, &Host), (b(0.0), b(-2.0)));
    assert_eq!(settle(BoundaryPolicy::Clamp, b(101.25), b(3.0), w, &Host), (b(100.0), b(3.0)));
    assert_eq!(settle(BoundaryPolicy::Clamp, b(100.0), b(3.0), w, &Host), (b(100.0), b(3.0)));
    assert_eq!(settle(BoundaryPolicy::Clamp, b(7.0), b(3.0), w, &Host), (b(7.0), b(3.0)));
}

#[test]
fn bounce_mirrors_the_coordinate_and_turns_the_velocity() {
    let w = b(100.0);
    assert_eq!(settle(BoundaryPolicy::Bounce, b(-1.5), b(-2.0), w, &Host), (b(1.5), b(2.0)));
    assert_eq!(settle(BoundaryPolicy::Bounce, b(101.25), b(3.0), w, &Host), (b(98.75), b(-3.0)));
    assert_eq!(settle(BoundaryPolicy::Bounce, b(100.0), b(3.0), w, &Host), (b(100.0), b(3.0)));
    assert_eq!(settle(BoundaryPolicy::Bounce, b(7.0), b(3.0), w, &Host), (b(7.0), b(3.0)));
}

#[test]
fn reach_needs_a_nonzero_offset_inside_the_cutoff() {
    let r = b(10.0);
    let r2 = b(100.0);
    assert!(within_reach(b(3.0), b(4.0), b(25.0), r, r2));
    assert!(within_reach(b(-3.0), b(-4.0), b(25.0), r, r2));
    assert!(within_reach(b(0.0), b(4.0), b(16.0), r, r2));
    assert!(!within_reach(b(0.0), b(-0.0), b(0.0), r, r2));
    assert!(!within_reach(b(0.0), b(0.0), b(25.0), r, r2));
    assert!(!within_reach(b(10.5), b(0.0), b(110.25), r, r2));
    assert!(!within_reach(b(0.0), b(-10.5), b(110.25), r, r2));
    assert!(!within_reach(b(8.0), b(8.0), b(128.0), r, r2));
    assert!(!within_reach(b(10.0), b(0.0), b(100.0), r, r2));
    assert!(!within_reach(b(1.0e-30), b(0.0), b(0.0), r, r2));
    assert!(!within_reach(b(3.0), b(4.0), b(f32::NAN), r, r2));
}

#[test]
fn bounded_law_does_not_push_at_close_range() {
    assert!(ForceLaw::Simple.gate(b(-1.0), b(0.5)));
    assert!(ForceLaw::Simple.gate(b(1.0), b(0.5)));
    assert!(ForceLaw::Bounded.gate(b(1.0), b(0.5)));
    assert!(ForceLaw::Bounded.gate(b(-1.0), b(1.5)));
    assert!(!ForceLaw::Bounded.gate(b(-1.0), b(0.5)));
    assert!(!ForceLaw::Bounded.gate(b(-1.0), b(1.0)));
    assert!(!ForceLaw::Bounded.gate(b(0.0), b(1.0)));
    assert!(ForceLaw::Bounded.gate(b(0.0), b(2.0)));
}

#[test]
fn shorter_offset_wins_and_ties_stay_direct() {
    assert_eq!(pick_shorter(b(90.0), b(-10.0)), b(-10.0));
    assert_eq!(pick_shorter(b(-10.0), b(90.0)), b(-10.0));
    assert_eq!(pick_shorter(b(50.0), b(-50.0)), b(50.0));
    assert_eq!(pick_shorter(b(0.0), b(100.0)), b(0.0));
}

#[test]
fn offset_is_direct_or_the_way_through_the_edge() {
    let w = b(100.0);
    assert_eq!(offset(b(-20.0), w, false, &Host), b(-20.0));
    assert_eq!(offset(b(-20.0), w, true, &Host), b(-20.0));
    assert_eq!(offset(b(90.0), w, false, &Host), b(90.0));
    assert_eq!(offset(b(90.0), w, true, &Host), b(-10.0));
    assert_eq!(offset(b(-90.0), w, true, &Host), b(10.0));
    assert_eq!(offset(b(50.0), w, true, &Host), b(50.0));
    assert_eq!(offset(b(0.0), w, true, &Host), b(0.0));
}

#[test]
fn simple_law_divides_the_coefficient_by_the_distance() {
    let g = 0.01f32;
    let d = 3200.0f32;
    let f = g / d.sqrt();
    let force = pull(ForceLaw::Simple, b(-40.0), b(-40.0), b(d), b(100.0), b(10000.0), b(g), &Host);
    assert_eq!(force, Some((b(f * -40.0), b(f * -40.0))));
    let (fx, fy) = force.unwrap();
    assert!((f - 0.0001768).abs() < 1.0e-7);
    assert!((f32::from_bits(fx) + 0.00707).abs() < 1.0e-5);
    assert!((f32::from_bits(fy) + 0.00707).abs() < 1.0e-5);
    let exact = pull(ForceLaw::Simple, b(3.0), b(4.0), b(25.0), b(10.0), b(100.0), b(5.0), &Host);
    assert_eq!(exact, Some((b(3.0), b(4.0))));
}

#[test]
fn bounded_law_scales_with_what_is_left_of_the_radius() {
    let g = 2.0f32;
    let r = 10.0f32;
    let f = g * (1.0 - 25.0f32.sqrt() / r);
    assert_eq!(f, 1.0);
    let theta = -(-4.0f32).atan2(3.0);
    let force = pull(ForceLaw::Bounded, b(3.0), b(4.0), b(25.0), b(r), b(100.0), b(g), &Host);
    assert_eq!(force, Some((b(f * theta.cos()), b(f * theta.sin()))));
    let (fx, fy) = force.unwrap();
    assert!((f32::from_bits(fx) - 0.6).abs() < 1.0e-6);
    assert!((f32::from_bits(fy) - 0.8).abs() < 1.0e-6);
    let close = pull(ForceLaw::Bounded, b(0.5), b(0.5), b(0.5), b(r), b(100.0), b(-2.0), &Host);
    assert_eq!(close, None);
    let far = pull(ForceLaw::Bounded, b(3.0), b(4.0), b(25.0), b(r), b(100.0), b(-2.0), &Host);
    assert_eq!(far, Some((b(-1.0 * theta.cos()), b(-1.0 * theta.sin()))));
}

#[test]
fn no_pull_without_an_offset_or_beyond_the_cutoff() {
    for law in [ForceLaw::Simple, ForceLaw::Bounded] {
        assert_eq!(pull(law, b(0.0), b(0.0), b(0.0), b(10.0), b(100.0), b(1.0), &Host), None);
        assert_eq!(pull(law, b(-0.0), b(0.0), b(0.0), b(10.0), b(100.0), b(1.0), &Host), None);
        assert_eq!(pull(law, b(8.0), b(8.0), b(128.0), b(10.0), b(100.0), b(1.0), &Host), None);
        assert_eq!(pull(law, b(11.0), b(0.0), b(121.0), b(10.0), b(100.0), b(1.0), &Host), None);
    }
}

#[test]
fn walls_push_inward_with_a_tenth_of_what_is_missing() {
    let reach = b(10.0);
    let inner = b(90.0);
    assert_eq!(wall_push(b(4.0), reach, inner, b(0.0), &Host), b((10.0f32 - 4.0) * 0.1));
    assert_eq!(wall_push(b(96.0), reach, inner, b(0.0), &Host), b((90.0f32 - 96.0) * 0.1));
    assert_eq!(wall_push(b(50.0), reach, inner, b(0.25), &Host), b(0.25));
    assert_eq!(wall_push(b(10.0), reach, inner, b(0.25), &Host), b(0.25));
    assert_eq!(wall_push(b(90.0), reach, inner, b(0.25), &Host), b(0.25));
    assert_eq!(wall_push(b(4.0), reach, inner, b(1.0), &Host), b(1.0 + (10.0f32 - 4.0) * 0.1));
    assert!(f32::from_bits(wall_push(b(96.0), reach, inner, b(0.0), &Host)) < 0.0);
}
