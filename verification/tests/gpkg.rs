use ragen::gpkg::{save_target, FieldTable, SaveError, DEFAULT_EPSG};

#[test]
fn nothing_to_save_is_an_error() {
    assert!(matches!(save_target(0, Some(3035), Some("x")), Err(SaveError::NoFeatures)));
}

#[test]
fn defaults_are_wgs84_and_layer() {
    let t = save_target(3, None, None).unwrap();
    assert_eq!(t.epsg, 4326);
    assert_eq!(DEFAULT_EPSG, 4326);
    assert_eq!(t.layer_name, "layer");
}

#[test]
fn given_code_and_name_are_kept() {
    let t = save_target(1, Some(3035), Some("regions")).unwrap();
    assert_eq!(t.epsg, 3035);
    assert_eq!(t.layer_name, "regions");
}

#[test]
fn attributes_go_to_the_field_of_their_name() {
    let table = FieldTable::new(vec![
        "NUTS_ID".to_string(),
        "NAME".to_string(),
        "circularity".to_string(),
    ]);
    assert_eq!(table.index_of(&"NAME".to_string()), Some(1));
    assert_eq!(table.index_of(&"circularity".to_string()), Some(2));
    assert_eq!(table.index_of(&"missing".to_string()), None);
    assert_eq!(table.index_of(&"name".to_string()), None);
}

#[test]
fn repeated_field_name_stands_for_last_field() {
    let table = FieldTable::new(vec!["a".to_string(), "b".to_string(), "a".to_string()]);
    assert_eq!(table.index_of(&"a".to_string()), Some(2));
    assert_eq!(FieldTable::new(vec![]).index_of(&"a".to_string()), None);
}
