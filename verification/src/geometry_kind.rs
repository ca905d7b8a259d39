//! Geometry types: turning a single geometry into a multi-geometry, and the
//! geometry type of the layer that a geometry is written to.

use vstd::prelude::*;

verus! {

/// The type of a geometry.
#[derive(Clone, Copy, Debug, PartialEq, Eq, Structural)]
pub enum GeometryKind {
    Point,
    LineString,
    LinearRing,
    Polygon,
    MultiPoint,
    MultiLineString,
    MultiPolygon,
    GeometryCollection,
}

/// The geometry type of an output layer.
#[derive(Clone, Copy, Debug, PartialEq, Eq, Structural)]
pub enum LayerGeometryType {
    Point,
    LineString,
    Polygon,
    MultiPoint,
    MultiLineString,
    MultiPolygon,
    GeometryCollection,
}

/// A multi-geometry or a collection: a geometry that holds parts.
pub open spec fn is_multi(kind: GeometryKind) -> bool {
    ||| kind == GeometryKind::MultiPoint
    ||| kind == GeometryKind::MultiLineString
    ||| kind == GeometryKind::MultiPolygon
    ||| kind == GeometryKind::GeometryCollection
}

/// A layer type for multi-geometries or collections.
pub open spec fn is_multi_layer(t: LayerGeometryType) -> bool {
    ||| t == LayerGeometryType::MultiPoint
    ||| t == LayerGeometryType::MultiLineString
    ||| t == LayerGeometryType::MultiPolygon
    ||| t == LayerGeometryType::GeometryCollection
}

/// The dimension of the parts of a geometry: 0 for points, 1 for lines, 2
/// for polygons, and -1 for a collection, whose parts may be of any kind.
pub open spec fn kind_dimension(kind: GeometryKind) -> int {
    match kind {
        GeometryKind::Point | GeometryKind::MultiPoint => 0,
        GeometryKind::LineString | GeometryKind::LinearRing | GeometryKind::MultiLineString => 1,
        GeometryKind::Polygon | GeometryKind::MultiPolygon => 2,
        GeometryKind::GeometryCollection => -1,
    }
}

/// The dimension of the geometries of a layer type, as `kind_dimension`.
pub open spec fn layer_dimension(t: LayerGeometryType) -> int {
    match t {
        LayerGeometryType::Point | LayerGeometryType::MultiPoint => 0,
        LayerGeometryType::LineString | LayerGeometryType::MultiLineString => 1,
        LayerGeometryType::Polygon | LayerGeometryType::MultiPolygon => 2,
        LayerGeometryType::GeometryCollection => -1,
    }
}

/// The type of the multi-geometry that holds a geometry of type `kind` as
/// its only part; a multi-geometry or a collection is left as it is.
pub open spec fn spec_multi_kind(kind: GeometryKind) -> GeometryKind {
    match kind {
        GeometryKind::Point => GeometryKind::MultiPoint,
        GeometryKind::LineString | GeometryKind::LinearRing => GeometryKind::MultiLineString,
        GeometryKind::Polygon => GeometryKind::MultiPolygon,
        _ => kind,
    }
}

/// The layer geometry type for geometries of type `kind`; a linear ring is
/// written as a line string.
pub open spec fn spec_layer_geometry_type(kind: GeometryKind) -> LayerGeometryType {
    match kind {
        GeometryKind::Point => LayerGeometryType::Point,
        GeometryKind::LineString | GeometryKind::LinearRing => LayerGeometryType::LineString,
        GeometryKind::Polygon => LayerGeometryType::Polygon,
        GeometryKind::MultiPoint => LayerGeometryType::MultiPoint,
        GeometryKind::MultiLineString => LayerGeometryType::MultiLineString,
        GeometryKind::MultiPolygon => LayerGeometryType::MultiPolygon,
        GeometryKind::GeometryCollection => LayerGeometryType::GeometryCollection,
    }
}

/// The type that a geometry of type `kind` has once turned into a
/// multi-geometry. The result differs from `kind` exactly when the geometry
/// has to be wrapped as the only part of a new multi-geometry.
pub fn multi_kind(kind: GeometryKind) -> (multi: GeometryKind)
    ensures
        multi == spec_multi_kind(kind),
        is_multi(multi),
        is_multi(kind) <==> multi == kind,
        kind_dimension(multi) == kind_dimension(kind),
{
    match kind {
        GeometryKind::Point => GeometryKind::MultiPoint,
        GeometryKind::LineString | GeometryKind::LinearRing => GeometryKind::MultiLineString,
        GeometryKind::Polygon => GeometryKind::MultiPolygon,
        GeometryKind::MultiPoint => GeometryKind::MultiPoint,
        GeometryKind::MultiLineString => GeometryKind::MultiLineString,
        GeometryKind::MultiPolygon => GeometryKind::MultiPolygon,
        GeometryKind::GeometryCollection => GeometryKind::GeometryCollection,
    }
}

/// The geometry type of a layer that holds geometries of type `kind`.
pub fn layer_geometry_type(kind: GeometryKind) -> (t: LayerGeometryType)
    ensures
        t == spec_layer_geometry_type(kind),
        is_multi_layer(t) == is_multi(kind),
        layer_dimension(t) == kind_dimension(kind),
{
    match kind {
        GeometryKind::Point => LayerGeometryType::Point,
        GeometryKind::LineString | GeometryKind::LinearRing => LayerGeometryType::LineString,
        GeometryKind::Polygon => LayerGeometryType::Polygon,
        GeometryKind::MultiPoint => LayerGeometryType::MultiPoint,
        GeometryKind::MultiLineString => LayerGeometryType::MultiLineString,
        GeometryKind::MultiPolygon => LayerGeometryType::MultiPolygon,
        GeometryKind::GeometryCollection => LayerGeometryType::GeometryCollection,
    }
}

/// A layer holds geometries of the same dimension as the geometry it was
/// made for, and is a multi-geometry layer exactly when that geometry is a
/// multi-geometry or a collection; these two facts fix the layer type.
pub proof fn lemma_layer_type_keeps_dimension_and_multiplicity(kind: GeometryKind, t: LayerGeometryType)
    ensures
        is_multi_layer(spec_layer_geometry_type(kind)) == is_multi(kind),
        layer_dimension(spec_layer_geometry_type(kind)) == kind_dimension(kind),
        is_multi_layer(t) == is_multi(kind) && layer_dimension(t) == kind_dimension(kind)
            ==> t == spec_layer_geometry_type(kind),
{
}

/// Turning a geometry into a multi-geometry twice is the same as doing it
/// once, and it keeps the kind of its parts: points stay points, lines stay
/// lines and polygons stay polygons.
pub proof fn lemma_multi_kind_idempotent(kind: GeometryKind)
    ensures
        spec_multi_kind(spec_multi_kind(kind)) == spec_multi_kind(kind),
        spec_layer_geometry_type(spec_multi_kind(kind)) == match spec_layer_geometry_type(kind) {
            LayerGeometryType::Point => LayerGeometryType::MultiPoint,
            LayerGeometryType::LineString => LayerGeometryType::MultiLineString,
            LayerGeometryType::Polygon => LayerGeometryType::MultiPolygon,
            t => t,
        },
{
}

} // verus!
