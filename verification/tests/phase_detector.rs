use band_ensemble::phase::{EnsemblePhase, PhaseDetector, HISTORY_CAPACITY};

/// The three band tests of a variance reading: under 0.5, under 2.0, under 10.0.
fn bands(v: &f64) -> (bool, bool, bool) {
    (*v < 0.5, *v < 2.0, *v < 10.0)
}

#[test]
fn phase_groove_at_low_variance() {
    let mut d = PhaseDetector::new();
    d.record(0.1);
    assert_eq!(d.detect(bands), EnsemblePhase::Groove);
}

#[test]
fn phase_tension_at_mid_low_variance() {
    let mut d = PhaseDetector::new();
    d.record(1.0);
    assert_eq!(d.detect(bands), EnsemblePhase::Tension);
}

#[test]
fn phase_chaos_at_mid_high_variance() {
    let mut d = PhaseDetector::new();
    d.record(5.0);
    assert_eq!(d.detect(bands), EnsemblePhase::Chaos);
}

#[test]
fn phase_resolution_at_high_variance() {
    let mut d = PhaseDetector::new();
    d.record(15.0);
    assert_eq!(d.detect(bands), EnsemblePhase::Resolution);
}

#[test]
fn phase_empty_history_is_groove() {
    let d: PhaseDetector<f64> = PhaseDetector::new();
    assert_eq!(d.detect(bands), EnsemblePhase::Groove);
}

#[test]
fn phase_history_capped_at_eight() {
    let mut d = PhaseDetector::new();
    for i in 0..10 {
        d.record(i as f64);
    }
    assert_eq!(d.tempo_variance_history.len(), 8);
}

#[test]
fn history_keeps_the_last_eight_in_order() {
    let mut d = PhaseDetector::new();
    for i in 0..11u32 {
        d.record(i);
    }
    assert_eq!(d.tempo_variance_history, vec![3, 4, 5, 6, 7, 8, 9, 10]);
    assert_eq!(d.latest(), Some(&10));
    assert_eq!(HISTORY_CAPACITY, 8);
}

#[test]
fn history_below_capacity_keeps_everything() {
    let mut d = PhaseDetector::new();
    d.record(7u8);
    d.record(9u8);
    assert_eq!(d.tempo_variance_history, vec![7, 9]);
}

#[test]
fn detect_reads_only_the_latest_reading() {
    let mut d = PhaseDetector::new();
    d.record(15.0);
    d.record(0.2);
    assert_eq!(d.detect(bands), EnsemblePhase::Groove);
    d.record(2.0);
    assert_eq!(d.detect(bands), EnsemblePhase::Chaos);
}

#[test]
fn band_boundaries_belong_to_the_higher_phase() {
    let mut d = PhaseDetector::new();
    d.record(0.5);
    assert_eq!(d.detect(bands), EnsemblePhase::Tension);
    d.record(10.0);
    assert_eq!(d.detect(bands), EnsemblePhase::Resolution);
}

#[test]
fn latest_of_empty_is_none() {
    let d: PhaseDetector<f64> = PhaseDetector::default();
    assert_eq!(d.latest(), None);
    assert!(d.tempo_variance_history.is_empty());
}

#[test]
fn from_bands_takes_the_first_band_that_holds() {
    assert_eq!(EnsemblePhase::from_bands(true, true, true), EnsemblePhase::Groove);
    assert_eq!(EnsemblePhase::from_bands(true, false, false), EnsemblePhase::Groove);
    assert_eq!(EnsemblePhase::from_bands(false, true, true), EnsemblePhase::Tension);
    assert_eq!(EnsemblePhase::from_bands(false, false, true), EnsemblePhase::Chaos);
    assert_eq!(EnsemblePhase::from_bands(false, false, false), EnsemblePhase::Resolution);
}

#[test]
fn nan_reading_is_resolution() {
    let mut d = PhaseDetector::new();
    d.record(f64::NAN);
    assert_eq!(d.detect(bands), EnsemblePhase::Resolution);
}

#[test]
fn overfull_history_is_trimmed_to_the_last_eight() {
    let mut d = PhaseDetector::new();
    d.tempo_variance_history = (0..12u32).collect();
    d.record(12);
    assert_eq!(d.tempo_variance_history, vec![5, 6, 7, 8, 9, 10, 11, 12]);
}

#[test]
fn full_history_drops_only_the_oldest() {
    let mut d = PhaseDetector::new();
    d.tempo_variance_history = (0..8u32).collect();
    d.record(8);
    assert_eq!(d.tempo_variance_history, vec![1, 2, 3, 4, 5, 6, 7, 8]);
}
