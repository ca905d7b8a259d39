//! Verified core of a small GIS toolbox: planning the raster scan that
//! aggregates pixel values by region, the region table and its output order,
//! the decisions of the generalisation agents, and the geometry and layer
//! type rules used when features are written to a GeoPackage.

pub mod raster_scan;
pub mod regions;
pub mod agent;
pub mod satisfaction;
pub mod transformations;
pub mod activation;
pub mod geometry_kind;
pub mod gpkg;
