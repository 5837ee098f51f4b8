use robot_nav::intake::LoadGoal;
use robot_nav::particle_filter::{ParticleFilter, SeedError};
use robot_nav::pose::{angle_difference, floor_sqrt, travel_distance, Pose, FIELD_MAX};
use robot_nav::resample::{systematic_select, total_weight};

fn filter_with(poses: &[Pose]) -> ParticleFilter {
    let mut f = ParticleFilter::new(poses.len(), 250, 50_800, 0);
    f.seed_from_samples(&poses.to_vec());
    f
}

fn four_particles() -> Vec<Pose> {
    vec![
        Pose::new(0, 0, 0),
        Pose::new(1_000, 0, 0),
        Pose::new(2_000, 0, 0),
        Pose::new(3_000, 0, 0),
    ]
}

#[test]
fn systematic_selection_of_weights_one_three() {
    // offset 2 over 4 particles is r = 0.5 with a mean weight of 1.0
    let sel = systematic_select(&vec![1, 3, 0, 0], 2);
    assert_eq!(sel, vec![0, 1, 1, 1]);
}

#[test]
fn systematic_selection_spreads_over_equal_weights() {
    let sel = systematic_select(&vec![1, 1, 1, 1], 0);
    assert_eq!(sel, vec![0, 1, 2, 3]);
    let sel = systematic_select(&vec![1, 1, 1, 1], 3);
    assert_eq!(sel, vec![0, 1, 2, 3]);
}

#[test]
fn systematic_selection_skips_zero_weights() {
    let sel = systematic_select(&vec![0, 0, 7, 0, 1], 0);
    assert_eq!(sel, vec![2, 2, 2, 2, 2]);
    let sel = systematic_select(&vec![0, 0, 7, 0, 1], 7);
    assert_eq!(sel, vec![2, 2, 2, 2, 4]);
}

#[test]
fn total_weight_adds_every_weight() {
    assert_eq!(total_weight(&vec![]), 0);
    assert_eq!(total_weight(&vec![u64::MAX, u64::MAX, 2]), 2 * (u64::MAX as u128) + 2);
}

#[test]
fn resample_with_offset_copies_selected_particles() {
    let poses = four_particles();
    let mut f = filter_with(&poses);
    assert!(f.resample_with_offset(&vec![1, 3, 0, 0], 2, 900));
    assert_eq!(f.get_estimates(), vec![poses[0], poses[1], poses[1], poses[1]]);
    assert_eq!(f.particle_count(), 4);
}

#[test]
fn zero_weights_keep_population() {
    let poses = four_particles();
    let mut f = filter_with(&poses);
    assert!(!f.correct(&vec![0, 0, 0, 0], 10_000));
    assert_eq!(f.get_estimates(), poses);
    assert!(!f.resample_with_offset(&vec![0, 0, 0, 0], 0, 10_000));
    assert_eq!(f.get_estimates(), poses);
    // an update is still due: nothing was reset
    assert!(f.update_due(10_000, true));
}

#[test]
fn correct_with_one_weighted_particle_collapses_onto_it() {
    let poses = four_particles();
    let mut f = filter_with(&poses);
    assert!(f.correct(&vec![0, 0, 5, 0], 300));
    assert_eq!(f.get_estimates(), vec![poses[2]; 4]);
    // a resample resets the clock and the distance
    assert!(!f.update_due(400, true));
    assert!(f.update_due(550, true));
}

#[test]
fn pose_estimate_is_componentwise_mean() {
    let f = filter_with(&[Pose::new(0, 0, 0), Pose::new(1, 3, 5), Pose::new(2, -3, 1)]);
    assert_eq!(f.pose_estimate(), Pose::new(1, 0, 2));
    let f = filter_with(&[Pose::new(-1, 1, -3), Pose::new(0, 0, 0)]);
    assert_eq!(f.pose_estimate(), Pose::new(-1, 0, -2));
}

#[test]
fn pose_estimate_of_a_single_particle_is_that_particle() {
    let f = filter_with(&[Pose::new(12, -34, 56)]);
    assert_eq!(f.pose_estimate(), Pose::new(12, -34, 56));
}

#[test]
fn new_filter_starts_at_origin() {
    let f = ParticleFilter::new(100, 5_000, 50_800, 0);
    assert_eq!(f.particle_count(), 100);
    assert_eq!(f.get_estimates(), vec![Pose::new(0, 0, 0); 100]);
    assert_eq!(f.pose_estimate(), Pose::new(0, 0, 0));
}

#[test]
fn predict_moves_every_particle_and_sets_heading() {
    let mut f = filter_with(&four_particles());
    f.predict(300, -400, 1_500_000);
    let got = f.get_estimates();
    for (i, p) in got.iter().enumerate() {
        assert_eq!(*p, Pose::new(i as i64 * 1_000 + 300, -400, 1_500_000));
    }
}

#[test]
fn seeding_holds_samples_on_the_field() {
    let f = filter_with(&[Pose::new(5_000_000, -5_000_000, 7), Pose::new(10, 20, 30)]);
    assert_eq!(
        f.get_estimates(),
        vec![Pose::new(FIELD_MAX, -FIELD_MAX, 7), Pose::new(10, 20, 30)]
    );
}

#[test]
fn no_update_due_for_short_slow_ticks() {
    // 250 ms and 2 in (50 800 um); ticks within 100 ms and under 1 in in all
    let mut ticked = filter_with(&four_particles());
    let mut composed = filter_with(&four_particles());
    for step in 0..10u64 {
        assert!(!ticked.tick(1_000, 2_000, 42, step * 10, true));
        composed.predict(1_000, 2_000, 42);
    }
    assert_eq!(ticked.get_estimates(), composed.get_estimates());
    assert_eq!(ticked.get_estimates()[0], Pose::new(10_000, 20_000, 42));
}

#[test]
fn update_due_on_time_or_distance_with_sensors() {
    let mut f = filter_with(&four_particles());
    assert!(!f.tick(0, 0, 0, 100, true));
    assert!(f.tick(0, 0, 0, 250, true));
    assert!(!f.tick(0, 0, 0, 250, false));
    let mut g = filter_with(&four_particles());
    assert!(!g.tick(30_000, 40_000, 0, 10, false));
    assert!(g.tick(30_000, 40_000, 0, 10, true));
    assert!(!g.update_due(10, false));
}

#[test]
fn init_uniform_rejects_inverted_bounds() {
    let mut f = filter_with(&four_particles());
    let r = f.init_uniform(&Pose::new(0, 10, 0), &Pose::new(5, 9, 0));
    assert_eq!(r, Err(SeedError::InvertedBounds));
    assert_eq!(f.get_estimates(), four_particles());
}

#[test]
fn init_uniform_draws_inside_the_box() {
    let mut f = ParticleFilter::new(50, 250, 50_800, 0);
    let lo = Pose::new(-1_000, 2_000, -3);
    let hi = Pose::new(1_000, 4_000, 3);
    assert_eq!(f.init_uniform(&lo, &hi), Ok(()));
    let ps = f.get_estimates();
    assert_eq!(ps.len(), 50);
    for p in &ps {
        assert!(lo.x <= p.x && p.x <= hi.x);
        assert!(lo.y <= p.y && p.y <= hi.y);
        assert!(lo.heading <= p.heading && p.heading <= hi.heading);
    }
    assert!(ps.iter().any(|p| *p != ps[0]));
}

#[test]
fn init_uniform_with_equal_bounds_gives_that_pose() {
    let mut f = ParticleFilter::new(3, 250, 50_800, 0);
    let p = Pose::new(7, 8, 9);
    assert_eq!(f.init_uniform(&p, &p), Ok(()));
    assert_eq!(f.get_estimates(), vec![p; 3]);
}

#[test]
fn angle_difference_across_the_seam() {
    // pi - 0.01 and -pi + 0.01, in microradians
    let d = angle_difference(3_131_593, -3_131_593);
    assert_eq!(d, -20_000);
    assert_eq!(angle_difference(-3_131_593, 3_131_593), 20_000);
    assert_eq!(angle_difference(100, 40), 60);
    assert_eq!(angle_difference(0, 0), 0);
}

#[test]
fn square_roots_round_down() {
    assert_eq!(floor_sqrt(0), 0);
    assert_eq!(floor_sqrt(15), 3);
    assert_eq!(floor_sqrt(16), 4);
    assert_eq!(floor_sqrt(u128::MAX), u64::MAX);
    assert_eq!(travel_distance(3, -4), 5);
    assert_eq!(travel_distance(-1, 1), 1);
}

#[test]
fn load_goal_builds() {
    assert_eq!(LoadGoal::new(), LoadGoal);
}

fn normal_pdf(x: f64, mu: f64, sigma: f64) -> f64 {
    let e = -(x - mu) * (x - mu) / (2.0 * sigma * sigma);
    (1.0 / (sigma * (2.0 * std::f64::consts::PI).sqrt())) * e.exp()
}

fn positional_variance(ps: &[Pose]) -> f64 {
    let n = ps.len() as f64;
    let mx = ps.iter().map(|p| p.x as f64).sum::<f64>() / n;
    let my = ps.iter().map(|p| p.y as f64).sum::<f64>() / n;
    ps.iter()
        .map(|p| (p.x as f64 - mx).powi(2) + (p.y as f64 - my).powi(2))
        .sum::<f64>()
        / n
}

#[test]
fn stationary_robot_converges_on_absolute_fix() {
    // truth at (0.4 m, -0.2 m); the fix reports it with 2 cm of error
    let (tx, ty) = (400_000i64, -200_000i64);
    let error_um = 20_000.0;
    let mut f = ParticleFilter::new(100, 250, 50_800, 0);
    f.init_uniform(&Pose::new(tx - 300_000, ty - 300_000, 0), &Pose::new(tx + 300_000, ty + 300_000, 0))
        .unwrap();
    let mut variance = positional_variance(&f.get_estimates());
    for cycle in 1..=25u64 {
        let due = f.tick(0, 0, 0, cycle * 300, true);
        assert!(due);
        let weights: Vec<u64> = f
            .get_estimates()
            .iter()
            .map(|p| {
                let d = (((p.x - tx) as f64).powi(2) + ((p.y - ty) as f64).powi(2)).sqrt();
                (normal_pdf(d / 1e6, 0.0, 2.0 * error_um / 1e6) * 1e6).abs() as u64
            })
            .collect();
        assert!(f.correct(&weights, cycle * 300));
        assert_eq!(f.particle_count(), 100);
        let now = positional_variance(&f.get_estimates());
        assert!(now <= variance, "cycle {}: {} > {}", cycle, now, variance);
        variance = now;
    }
    let m = f.pose_estimate();
    let off = (((m.x - tx) as f64).powi(2) + ((m.y - ty) as f64).powi(2)).sqrt();
    assert!(off <= 3.0 * error_um, "mean is {} um off", off);
}
