use robot_nav::particle_filter::{particle_weight, ParticleFilter};
use robot_nav::pose::Pose;
use robot_nav::sensor_model::{
    gps_fix_usable, line_crossing_likelihood, line_predicted, predicted_range, Point, Tape, Wall,
    GPS_BAD_BITFLAG,
    LINE_AGREE, LINE_DISAGREE,
};

fn spread_filter() -> ParticleFilter {
    let mut f = ParticleFilter::new(4, 250, 50_800, 0);
    f.seed_from_samples(&vec![
        Pose::new(0, 0, 0),
        Pose::new(1_000, 0, 0),
        Pose::new(2_000, 0, 0),
        Pose::new(3_000, 0, 0),
    ]);
    f
}

#[test]
fn particle_weight_sums_available_likelihoods() {
    assert_eq!(particle_weight(&vec![]), 0);
    assert_eq!(particle_weight(&vec![Some(3), None, Some(4)]), 7);
    assert_eq!(particle_weight(&vec![None, None]), 0);
    assert_eq!(particle_weight(&vec![Some(u64::MAX), Some(1)]), u64::MAX);
}

#[test]
fn unavailable_sensors_leave_population_untouched() {
    let mut f = spread_filter();
    let before = f.get_estimates();
    let rows = vec![vec![None, None]; 4];
    assert!(!f.correct_with_likelihoods(&rows, 1_000));
    assert_eq!(f.get_estimates(), before);
}

#[test]
fn likelihood_rows_weigh_particles() {
    let mut f = spread_filter();
    let before = f.get_estimates();
    let rows = vec![
        vec![None, None],
        vec![Some(2), None],
        vec![None, None],
        vec![None, Some(0)],
    ];
    assert!(f.correct_with_likelihoods(&rows, 1_000));
    assert_eq!(f.get_estimates(), vec![before[1]; 4]);
}

#[test]
fn gps_fix_rejected_on_bad_status() {
    assert!(gps_fix_usable(0, 0, 0, 392_699));
    assert!(!gps_fix_usable(GPS_BAD_BITFLAG, 0, 0, 392_699));
    assert!(gps_fix_usable(GPS_BAD_BITFLAG >> 1, 0, 0, 392_699));
}

#[test]
fn gps_fix_rejected_on_heading_disagreement() {
    assert!(!gps_fix_usable(0, 500_000, 0, 392_699));
    assert!(!gps_fix_usable(0, -500_000, 0, 392_699));
    assert!(gps_fix_usable(0, 392_699, 0, 392_699));
    // headings either side of the seam agree
    assert!(gps_fix_usable(0, 3_131_593, -3_131_593, 392_699));
}

#[test]
fn line_prediction_against_tapes() {
    let tapes = vec![
        Tape { a: Point { x: 0, y: 0 }, b: Point { x: 1_000_000, y: 0 } },
        Tape { a: Point { x: 0, y: 0 }, b: Point { x: 0, y: 1_000_000 } },
    ];
    // one inch is 25 400 um
    assert_eq!(line_predicted(&tapes, &Point { x: 500_000, y: 20_000 }, 25_400), Some(true));
    assert_eq!(line_predicted(&tapes, &Point { x: 500_000, y: -25_400 }, 25_400), Some(false));
    assert_eq!(line_predicted(&tapes, &Point { x: -10_000, y: 700_000 }, 25_400), Some(true));
    assert_eq!(line_predicted(&tapes, &Point { x: 300_000, y: 300_000 }, 25_400), Some(false));
    assert_eq!(line_predicted(&vec![], &Point { x: 0, y: 0 }, 25_400), None);
}

#[test]
fn degenerate_tape_is_near_nothing() {
    let tapes = vec![Tape { a: Point { x: 5, y: 5 }, b: Point { x: 5, y: 5 } }];
    assert_eq!(line_predicted(&tapes, &Point { x: 5, y: 5 }, 25_400), Some(false));
}

#[test]
fn line_likelihood_is_a_confusion_model() {
    assert_eq!(line_crossing_likelihood(true, true), LINE_AGREE);
    assert_eq!(line_crossing_likelihood(false, false), LINE_AGREE);
    assert_eq!(line_crossing_likelihood(true, false), LINE_DISAGREE);
    assert_eq!(line_crossing_likelihood(false, true), LINE_DISAGREE);
    assert_eq!(LINE_AGREE, 900_000);
    assert_eq!(LINE_DISAGREE, 100_000);
}

fn field_walls() -> Vec<Wall> {
    vec![
        Wall { a: Point { x: 0, y: 0 }, b: Point { x: 1_000_000, y: 0 } },
        Wall { a: Point { x: 0, y: 0 }, b: Point { x: 0, y: 1_000_000 } },
    ]
}

#[test]
fn predicted_range_to_nearest_wall() {
    let walls = field_walls();
    // looking down (-y) from (0.3 m, 0.5 m): the first wall at 0.5 m
    let r = predicted_range(&Point { x: 300_000, y: 500_000 }, &Point { x: 0, y: -1_000_000 }, &walls);
    assert_eq!(r, Some(500_000));
    // looking left (-x) from the same spot: the second wall at 0.3 m
    let r = predicted_range(&Point { x: 300_000, y: 500_000 }, &Point { x: -1_000_000, y: 0 }, &walls);
    assert_eq!(r, Some(300_000));
    // diagonally toward the corner both walls are hit; the nearer counts
    let r = predicted_range(&Point { x: 200_000, y: 100_000 }, &Point { x: -707_107, y: -707_107 }, &walls);
    assert_eq!(r, Some(141_421));
}

#[test]
fn predicted_range_misses_behind_and_parallel() {
    let walls = field_walls();
    // looking away from both walls
    let r = predicted_range(&Point { x: 300_000, y: 500_000 }, &Point { x: 1_000_000, y: 0 }, &walls[..1].to_vec());
    assert_eq!(r, None);
    // past the end of the segment
    let r = predicted_range(&Point { x: 1_500_000, y: 500_000 }, &Point { x: 0, y: -1_000_000 }, &walls[..1].to_vec());
    assert_eq!(r, None);
    assert_eq!(predicted_range(&Point { x: 1, y: 1 }, &Point { x: 0, y: -1 }, &vec![]), None);
}
