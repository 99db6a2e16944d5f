use art_engine::catalog::Layers;
use art_engine::config::edition::EditionConfiguration;
use art_engine::config::LayerConfig;
use art_engine::meta::{edition_file_name, file_stem, Meta};

#[test]
fn meta_record_lists_traits_in_plan_order() {
    let dirs = vec![
        ("background".to_string(), vec![("blue.png".to_string(), "l/background/blue.png".to_string())]),
        ("eyes".to_string(), vec![("round#4.png".to_string(), "l/eyes/round#4.png".to_string())]),
    ];
    let layers = Layers::from_entries(&dirs).unwrap();
    let order = vec![
        LayerConfig::new("background".to_string(), None, None).unwrap(),
        LayerConfig::new("eyes".to_string(), None, None).unwrap(),
    ];
    let sel = layers.select_edition(&order);
    let cfg = EditionConfiguration::new("Art".to_string(), "A collection".to_string(), "ipfs://cid/".to_string(), vec![]);
    let meta = Meta::new(3, &cfg, "abc.png", &sel);
    assert_eq!(meta.get_name(), "Art #3");
    assert_eq!(meta.get_description(), "A collection");
    assert_eq!(meta.get_image(), "ipfs://cid/abc.png");
    let attrs: Vec<(String, String)> = meta
        .get_attributes()
        .iter()
        .map(|a| (a.get_trait_type().to_string(), a.get_value().to_string()))
        .collect();
    assert_eq!(
        attrs,
        vec![
            ("background".to_string(), "blue".to_string()),
            ("eyes".to_string(), "round#4".to_string())
        ]
    );
}

#[test]
fn output_file_name_uses_prefixes() {
    let name = edition_file_name("0123456789", 12, "abcdefgh", ".png");
    assert_eq!(name, "012345_12#abcdef.png");
    assert_eq!(file_stem("a.b.c"), "a");
    assert_eq!(file_stem("plain"), "plain");
}
