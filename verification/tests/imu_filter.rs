use ardupilot_bridge::imu_filter::{ConingIntegrator, ImuSample, SAMPLES_PER_OUTPUT};

fn push(filter: &mut ConingIntegrator, tag: u64, dt: f64) -> Option<Vec<ImuSample>> {
    filter.push([tag; 3], [tag + 1000; 3], dt.to_bits())
}

#[test]
fn every_fourth_sample_completes_a_window() {
    let mut filter = ConingIntegrator::new();
    for i in 0..40u64 {
        let r = push(&mut filter, i, 0.000_666);
        if i % 4 == 3 {
            let window = r.unwrap();
            assert_eq!(window.len(), SAMPLES_PER_OUTPUT);
            for (j, s) in window.iter().enumerate() {
                assert_eq!(s.gyro, [i - 3 + j as u64; 3]);
                assert_eq!(s.accel, [i + 997 + j as u64; 3]);
                assert_eq!(s.dt, 0.000_666f64.to_bits());
            }
        } else {
            assert!(r.is_none());
        }
    }
}

#[test]
fn intervals_are_admitted_like_float_comparisons() {
    let tiny = f64::from_bits(1);
    let above = f64::from_bits(0.1f64.to_bits() + 1);
    let below = f64::from_bits(0.1f64.to_bits() - 1);
    for dt in [
        0.0,
        -0.0,
        tiny,
        -tiny,
        0.0025,
        below,
        0.1,
        above,
        1.0,
        -0.05,
        f64::MIN_POSITIVE,
        f64::MAX,
        f64::MIN,
        f64::INFINITY,
        f64::NEG_INFINITY,
        f64::NAN,
        -f64::NAN,
        f64::from_bits(0x7FF0_0000_0000_0001),
        f64::from_bits(0xFFF0_0000_0000_0001),
    ] {
        let rejected = dt <= 0.0 || dt > 0.1;
        let mut filter = ConingIntegrator::new();
        for _ in 0..3 {
            assert!(push(&mut filter, 0, 0.001).is_none());
        }
        assert_eq!(push(&mut filter, 1, dt).is_none(), rejected);
    }
}

#[test]
fn rejected_samples_leave_the_window_alone() {
    let mut filter = ConingIntegrator::new();
    let mut tags = Vec::new();
    for i in 0..9u64 {
        let dt = if i % 2 == 0 { 0.01 } else { 0.2 };
        if let Some(window) = push(&mut filter, i, dt) {
            tags = window.iter().map(|s| s.gyro[2]).collect();
        }
    }
    assert_eq!(tags, vec![0, 2, 4, 6]);
}
