use ragen::geometry_kind::{layer_geometry_type, multi_kind, GeometryKind, LayerGeometryType};

const ALL: [GeometryKind; 8] = [
    GeometryKind::Point,
    GeometryKind::LineString,
    GeometryKind::LinearRing,
    GeometryKind::Polygon,
    GeometryKind::MultiPoint,
    GeometryKind::MultiLineString,
    GeometryKind::MultiPolygon,
    GeometryKind::GeometryCollection,
];

#[test]
fn single_geometries_are_wrapped() {
    assert_eq!(multi_kind(GeometryKind::Point), GeometryKind::MultiPoint);
    assert_eq!(multi_kind(GeometryKind::LineString), GeometryKind::MultiLineString);
    assert_eq!(multi_kind(GeometryKind::LinearRing), GeometryKind::MultiLineString);
    assert_eq!(multi_kind(GeometryKind::Polygon), GeometryKind::MultiPolygon);
}

#[test]
fn multi_geometries_are_left_alone() {
    for k in [
        GeometryKind::MultiPoint,
        GeometryKind::MultiLineString,
        GeometryKind::MultiPolygon,
        GeometryKind::GeometryCollection,
    ] {
        assert_eq!(multi_kind(k), k);
    }
}

#[test]
fn multi_kind_is_idempotent() {
    for k in ALL {
        assert_eq!(multi_kind(multi_kind(k)), multi_kind(k));
    }
}

#[test]
fn linear_ring_layer_is_line_string() {
    assert_eq!(layer_geometry_type(GeometryKind::LinearRing), LayerGeometryType::LineString);
    assert_eq!(layer_geometry_type(GeometryKind::LineString), LayerGeometryType::LineString);
    assert_eq!(layer_geometry_type(GeometryKind::Point), LayerGeometryType::Point);
    assert_eq!(layer_geometry_type(GeometryKind::MultiPolygon), LayerGeometryType::MultiPolygon);
    assert_eq!(
        layer_geometry_type(GeometryKind::GeometryCollection),
        LayerGeometryType::GeometryCollection
    );
}
