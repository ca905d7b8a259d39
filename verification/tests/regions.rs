use ragen::regions::{AggregateError, RegionTable};

#[test]
fn features_without_id_or_geometry_are_passed_over() {
    let mut table = RegionTable::new();
    assert_eq!(table.take_feature("FR".to_string(), true), Some(0));
    assert_eq!(table.take_feature(String::new(), true), None);
    assert_eq!(table.take_feature("DE".to_string(), false), None);
    assert_eq!(table.take_feature("BE".to_string(), true), Some(1));
    assert_eq!(table.len(), 2);
    assert_eq!(table.id(0), "FR");
    assert_eq!(table.id(1), "BE");
}

#[test]
fn empty_table_is_an_error() {
    let mut table = RegionTable::new();
    assert_eq!(table.ensure_regions(), Err(AggregateError::NoRegions));
    table.take_feature(String::new(), true);
    assert_eq!(table.ensure_regions(), Err(AggregateError::NoRegions));
    table.take_feature("NL".to_string(), true);
    assert_eq!(table.ensure_regions(), Ok(()));
}

#[test]
fn regions_with_same_id_stay_separate_regions() {
    let mut table = RegionTable::new();
    assert_eq!(table.take_feature("A".to_string(), true), Some(0));
    assert_eq!(table.take_feature("A".to_string(), true), Some(1));
    assert_eq!(table.len(), 2);
    assert_eq!(table.id(0), "A");
    assert_eq!(table.id(1), "A");
}
