use art_engine::config::app::AppConfiguration;
use art_engine::config::edition::{EditionConfiguration, LayerConfiguration, LayerOrderConfiguration};
use art_engine::config::{default_pick, ConfigError, Configuration, LayerConfig, LayerConfigurations};
use sha2::Digest;

#[test]
fn pick_bounds_default_to_one() {
    assert_eq!(default_pick(), 1);
    let c = LayerConfig::new("eyes".to_string(), None, None).unwrap();
    assert_eq!(c.get_name(), "eyes");
    assert_eq!(c.get_pick_min(), 1);
    assert_eq!(c.get_pick_max(), 1);
    let c = LayerConfig::new("eyes".to_string(), None, Some(3)).unwrap();
    assert_eq!((c.get_pick_min(), c.get_pick_max()), (1, 3));
}

#[test]
fn empty_pick_range_is_rejected() {
    match LayerConfig::new("eyes".to_string(), Some(3), None) {
        Err(ConfigError::InvalidPickRange { min, max }) => assert_eq!((min, max), (3, 1)),
        Ok(_) => panic!("range 3..=1 must be rejected"),
    }
}

#[test]
fn group_fingerprint_joins_layer_names() {
    let order = vec![
        LayerConfig::new("background".to_string(), None, None).unwrap(),
        LayerConfig::new("eyes".to_string(), Some(1), Some(2)).unwrap(),
    ];
    let g = art_engine::config::LayerConfiguration::_new(10, order);
    assert_eq!(g.get_size(), 10);
    assert_eq!(g.get_order().len(), 2);
    assert_eq!(g.get_dna(), format!("{:x}", sha2::Sha256::digest(b"background:eyes")));
    let all = LayerConfigurations::new("p".to_string(), "d".to_string(), "u".to_string(), vec![g]);
    assert_eq!(all.get_layers().len(), 1);
}

#[test]
fn edition_group_converts_to_plan() {
    let group = LayerConfiguration::new(
        4,
        vec![
            LayerOrderConfiguration::new("background".to_string(), None, None),
            LayerOrderConfiguration::new("eyes".to_string(), Some(2), Some(3)),
        ],
    );
    assert_eq!(group._get_size(), 4);
    assert_eq!(group._get_order()[1]._get_pick_min(), Some(2));
    assert_eq!(group._get_order()[0]._get_pick_max(), None);
    let plan = group.to_group().unwrap();
    assert_eq!(plan.get_size(), 4);
    assert_eq!(plan.get_order()[0].get_pick_max(), 1);
    assert_eq!(plan.get_order()[1].get_pick_min(), 2);
    assert_eq!(plan.get_order()[1].get_name(), "eyes");

    let bad = LayerConfiguration::new(1, vec![LayerOrderConfiguration::new("x".to_string(), Some(5), Some(2))]);
    assert!(matches!(bad.to_group(), Err(ConfigError::InvalidPickRange { min: 5, max: 2 })));

    let cfg = EditionConfiguration::new("Art".to_string(), "desc".to_string(), "ipfs://x/".to_string(), vec![group]);
    assert_eq!(cfg._get_name(), "Art");
    assert_eq!(cfg._get_description(), "desc");
    assert_eq!(cfg._get_ipfs_uri(), "ipfs://x/");
    assert_eq!(cfg._get_layers().len(), 1);
}

#[test]
fn arguments_fall_back_when_unparsable() {
    let a = AppConfiguration::from_args("./layers".to_string(), "./build".to_string(), "2048", "50", true);
    assert_eq!(a.get_size(), 2048);
    assert_eq!(a.get_max_tries(), 50);
    assert!(a.is_cleanup_enabled());
    assert_eq!(a.get_layers_dir(), "./layers");
    assert_eq!(a.get_destination_dir(), "./build");
    let b = AppConfiguration::from_args("l".to_string(), "d".to_string(), "big", "-3", false);
    assert_eq!(b.get_size(), 512);
    assert_eq!(b.get_max_tries(), 1000);
    assert!(!b.is_cleanup_enabled());
    let c = AppConfiguration::new("l".to_string(), "d".to_string(), 7, 8, false);
    assert_eq!((c.get_size(), c.get_max_tries()), (7, 8));
}

#[test]
fn run_configuration_getters() {
    let c = Configuration::new("in".to_string(), "out".to_string(), true, 99, 256);
    assert_eq!(c.get_layers_dir(), "in");
    assert_eq!(c.get_destination_dir(), "out");
    assert!(c.is_resize_enabled());
    assert_eq!(c.get_max_tries(), 99);
    assert_eq!(c.get_image_size(), 256);
}
