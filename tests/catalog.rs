use art_engine::catalog::{parse_weight, CatalogError, Layer, LayerFile, Layers};
use art_engine::text::parse_u32;

fn entries(names: &[&str]) -> Vec<(String, String)> {
    names
        .iter()
        .map(|n| (n.to_string(), format!("layers/x/{}", n)))
        .collect()
}

#[test]
fn weight_is_read_from_name() {
    assert_eq!(parse_weight("eyes#5.png"), 5);
    assert_eq!(parse_weight("eyes#+12.png"), 12);
    assert_eq!(parse_weight("eyes.png"), 1);
    assert_eq!(parse_weight("a#b#3.png"), 1);
    assert_eq!(parse_weight("x#7.tar.gz"), 1);
    assert_eq!(parse_weight("x#abc.png"), 1);
    assert_eq!(parse_weight("x#.png"), 1);
    assert_eq!(parse_weight("x#4294967296.png"), 1);
}

#[test]
fn parse_u32_follows_std() {
    for s in ["0", "42", "+7", "", "+", "-1", "4294967295", "4294967296", "12a", " 1", "007"] {
        assert_eq!(parse_u32(s), s.parse::<u32>().ok(), "input {:?}", s);
    }
}

#[test]
fn layer_files_get_ids_in_entry_order() {
    let layer = Layer::try_from_entries("eyes".to_string(), &entries(&["b.png", "a#3.png", "c.png"])).unwrap();
    assert_eq!(layer.get_name(), "eyes");
    let files = layer.get_files();
    assert_eq!(files.len(), 3);
    for (i, f) in files.iter().enumerate() {
        assert_eq!(f.get_id(), i);
    }
    assert_eq!(files[1].get_name(), "a#3.png");
    assert_eq!(files[1].get_weight(), 3);
    assert_eq!(files[0].get_weight(), 1);
    assert_eq!(files[2].get_path(), "layers/x/c.png");
}

#[test]
fn empty_layer_fails_the_catalog() {
    let dirs = vec![
        ("background".to_string(), entries(&["a.png"])),
        ("eyes".to_string(), vec![]),
        ("mouth".to_string(), vec![]),
    ];
    match Layers::from_entries(&dirs) {
        Err(CatalogError::EmptyLayer(name)) => assert_eq!(name, "eyes"),
        Ok(_) => panic!("an empty layer must fail the catalog"),
    }
}

#[test]
fn catalog_lookup_by_name() {
    let dirs = vec![
        ("background".to_string(), entries(&["a.png", "b.png"])),
        ("eyes".to_string(), entries(&["x.png"])),
    ];
    let layers = Layers::from_entries(&dirs).unwrap();
    assert_eq!(layers.len(), 2);
    assert_eq!(layers.get_layer("eyes").unwrap().get_files().len(), 1);
    assert!(layers.get_layer("hat").is_none());
}

#[test]
fn layer_file_keeps_fields() {
    let f = LayerFile::new(4, "hat#9.png".to_string(), "p/hat#9.png".to_string());
    assert_eq!(f.get_id(), 4);
    assert_eq!(f.get_weight(), 9);
    let g = f.duplicate();
    assert_eq!(g.get_path(), "p/hat#9.png");
}
