use band_ensemble::hodge::median_window;
use band_ensemble::role::InstrumentRole;

#[test]
fn spectral_templates_per_role() {
    assert_eq!(InstrumentRole::Drums.spectral_halves(), [2, 0, 0, 0]);
    assert_eq!(InstrumentRole::Bass.spectral_halves(), [0, 2, 0, 0]);
    assert_eq!(InstrumentRole::Keys.spectral_halves(), [0, 0, 2, 0]);
    assert_eq!(InstrumentRole::Horns.spectral_halves(), [0, 0, 0, 2]);
    assert_eq!(InstrumentRole::Pads.spectral_halves(), [1, 1, 1, 1]);
}

#[test]
fn roles_compare_by_variant() {
    assert_eq!(InstrumentRole::Keys, InstrumentRole::Keys.clone());
    assert_ne!(InstrumentRole::Keys, InstrumentRole::Horns);
}

#[test]
fn median_window_odd_count() {
    assert_eq!(median_window(1), (0, 0));
    assert_eq!(median_window(3), (1, 1));
    assert_eq!(median_window(5), (2, 2));
}

#[test]
fn median_window_even_count() {
    assert_eq!(median_window(2), (0, 1));
    assert_eq!(median_window(4), (1, 2));
}

#[test]
fn median_window_picks_the_middle_of_sorted_proposals() {
    let sorted = [100.0, 110.0, 130.0, 140.0];
    let (lo, hi) = median_window(sorted.len());
    assert_eq!((sorted[lo] + sorted[hi]) / 2.0, 120.0);
    let sorted = [100.0, 120.0, 140.0];
    let (lo, hi) = median_window(sorted.len());
    assert_eq!(sorted[lo], 120.0);
    assert_eq!(lo, hi);
}
