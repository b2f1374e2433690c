use godrinking::benchmark::{
    recommend_preset, run_local_probe, synthetic_samples_from_ms, ProbeSample, ProbeTiming,
    RecommendedPreset,
};

/// The timing of a probe, as the program measures it.
fn timing(ms: f64) -> ProbeTiming {
    ProbeTiming {
        text: format!("{ms:.0}"),
        under_high_time: ms < 12.0,
        under_medium_time: ms < 20.0,
    }
}

fn samples(high_ms: f64, medium_ms: f64, hardware: bool) -> Vec<ProbeSample> {
    synthetic_samples_from_ms(
        timing(high_ms),
        timing(medium_ms),
        timing(medium_ms.max(1.0)),
        hardware,
    )
}

#[test]
fn fast_hardware_1080p60_recommends_high() {
    let report = recommend_preset(&samples(6.0, 4.0, true), true, false, true);
    assert_eq!(report.recommended, RecommendedPreset::High);
    assert!(report.note.contains("High"));
    assert!(report.can_1440);
}

#[test]
fn slow_high_but_ok_medium_recommends_medium() {
    let report = recommend_preset(&samples(40.0, 12.0, false), false, false, false);
    assert_eq!(report.recommended, RecommendedPreset::Medium);
}

#[test]
fn everything_slow_recommends_low() {
    let report = recommend_preset(&samples(50.0, 30.0, false), false, false, false);
    assert_eq!(report.recommended, RecommendedPreset::Low);
}

#[test]
fn high_needs_hardware() {
    let report = recommend_preset(&samples(1.0, 1.0, false), true, true, true);
    assert_ne!(report.recommended, RecommendedPreset::High);
    assert!(report.av1_encode && report.hevc_encode);
    let nothing = recommend_preset(&[], false, false, false);
    assert_eq!(nothing.recommended, RecommendedPreset::Low);
}

#[test]
fn the_local_probe_reports_what_it_measured() {
    let fast = run_local_probe(timing(4.0), timing(3.0), timing(2.0), true, true, true, false);
    assert_eq!(fast.recommended, RecommendedPreset::High);
    assert!(fast.av1_encode && !fast.hevc_encode);
    let slow = run_local_probe(timing(90.0), timing(80.0), timing(70.0), false, true, false, false);
    assert_eq!(slow.recommended, RecommendedPreset::Low);
    assert!(!slow.can_1440);
}
