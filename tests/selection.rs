use std::collections::HashSet;

use art_engine::catalog::Layers;
use art_engine::config::LayerConfig;
use art_engine::engine::{attempt_edition, selection_paths};
use art_engine::fingerprint::{dna_string, fingerprint, short_dna};
use art_engine::selector::clamp_pick;
use art_engine::config::LayerConfiguration;
use art_engine::controller::{Attempt, RetryController};
use sha2::Digest;

fn catalog(spec: &[(&str, usize)]) -> Layers {
    let dirs: Vec<(String, Vec<(String, String)>)> = spec
        .iter()
        .map(|(name, n)| {
            let files = (0..*n)
                .map(|i| (format!("{}{}.png", name, i), format!("layers/{}/{}{}.png", name, name, i)))
                .collect();
            (name.to_string(), files)
        })
        .collect();
    Layers::from_entries(&dirs).unwrap()
}

fn entry(name: &str, min: u32, max: u32) -> LayerConfig {
    LayerConfig::new(name.to_string(), Some(min), Some(max)).unwrap()
}

#[test]
fn missing_layer_draws_nothing() {
    let layers = catalog(&[("background", 2)]);
    assert!(layers.get_rng_files("hat", 1, 1).is_empty());
    let sel = layers.select_edition(&vec![entry("background", 1, 1), entry("hat", 1, 1)]);
    assert_eq!(sel.len(), 2);
    assert_eq!(sel[0].len(), 1);
    assert!(sel[1].is_empty());
}

#[test]
fn pick_count_is_clamped_and_distinct() {
    let layers = catalog(&[("eyes", 3)]);
    for _ in 0..20 {
        let picks = layers.get_rng_files("eyes", 5, 5);
        assert_eq!(picks.len(), 3);
        let ids: HashSet<usize> = picks.iter().map(|p| p.get_file().get_id()).collect();
        assert_eq!(ids.len(), 3);
        assert!(picks.iter().all(|p| p.get_layer() == "eyes"));
    }
    assert_eq!(clamp_pick(5, 3), 3);
    assert_eq!(clamp_pick(2, 3), 2);
    assert_eq!(clamp_pick(0, 0), 0);
}

#[test]
fn pick_count_stays_in_range() {
    let layers = catalog(&[("eyes", 6)]);
    for _ in 0..50 {
        let picks = layers.get_rng_files("eyes", 2, 4);
        assert!(picks.len() >= 2 && picks.len() <= 4);
        let ids: HashSet<usize> = picks.iter().map(|p| p.get_file().get_id()).collect();
        assert_eq!(ids.len(), picks.len());
    }
}

#[test]
fn canonical_string_and_fingerprint() {
    let layers = catalog(&[("background", 1), ("eyes", 1)]);
    let sel = layers.select_edition(&vec![entry("background", 1, 1), entry("eyes", 1, 1)]);
    assert_eq!(dna_string(&sel), "0:background0.png-0:eyes0.png");
    let expected = format!("{:x}", sha2::Sha256::digest(b"0:background0.png-0:eyes0.png"));
    let dna = fingerprint(&sel);
    assert_eq!(dna, expected);
    assert_eq!(dna.len(), 64);
    assert_eq!(fingerprint(&sel), dna);
    assert_eq!(short_dna(&dna), expected[..6].to_string());
    assert_eq!(
        selection_paths(&sel),
        vec!["layers/background/background0.png".to_string(), "layers/eyes/eyes0.png".to_string()]
    );
}

#[test]
fn fingerprint_differs_for_different_files() {
    let layers = catalog(&[("eyes", 2)]);
    let mut seen = HashSet::new();
    for _ in 0..100 {
        let sel = layers.select_edition(&vec![entry("eyes", 1, 1)]);
        seen.insert((sel[0][0].get_file().get_id(), fingerprint(&sel)));
    }
    let dnas: HashSet<String> = seen.iter().map(|(_, d)| d.clone()).collect();
    assert_eq!(seen.len(), dnas.len());
}

fn run_group(layers: &Layers, group: &LayerConfiguration, max_retries: u32) -> RetryController {
    let mut controller = RetryController::new(group.get_size(), max_retries);
    while controller.is_running() {
        let (outcome, sel, dna) = attempt_edition(layers, group, &mut controller);
        assert_eq!(sel.len(), 2);
        assert_eq!(dna.len(), 64);
        if let Attempt::Accepted(index) = outcome {
            assert_eq!(index, controller.get_accepted());
        }
    }
    controller
}

#[test]
fn scenario_five_of_six_combinations() {
    let layers = catalog(&[("background", 2), ("eyes", 3)]);
    let group = LayerConfiguration::_new(5, vec![entry("background", 1, 1), entry("eyes", 1, 1)]);
    let c = run_group(&layers, &group, 1000);
    assert!(c.is_done());
    assert_eq!(c.get_accepted(), 5);
    assert_eq!(c.shortfall(), 0);
}

#[test]
fn scenario_seven_of_six_combinations() {
    let layers = catalog(&[("background", 2), ("eyes", 3)]);
    let group = LayerConfiguration::_new(7, vec![entry("background", 1, 1), entry("eyes", 1, 1)]);
    let c = run_group(&layers, &group, 1000);
    assert!(c.is_exhausted());
    assert!(!c.is_done());
    assert_eq!(c.get_accepted(), 6);
    assert_eq!(c.shortfall(), 1);
    assert_eq!(c.get_retries(), 1000);
}

#[test]
fn scenario_missing_layer_in_plan() {
    let layers = catalog(&[("background", 2), ("eyes", 3)]);
    let group = LayerConfiguration::_new(3, vec![entry("background", 1, 1), entry("hat", 1, 1)]);
    let mut controller = RetryController::new(3, 100);
    while controller.is_running() {
        let (_, sel, _) = attempt_edition(&layers, &group, &mut controller);
        assert_eq!(sel[0].len(), 1);
        assert!(sel[1].is_empty());
    }
    assert_eq!(controller.get_accepted(), 2);
    assert_eq!(controller.shortfall(), 1);
}
