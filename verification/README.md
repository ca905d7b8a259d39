# ragen

A small GIS toolbox: aggregating raster values by region, generalisation
agents, and GeoPackage input and output.

`src/` is the verified library (Verus). It holds the decisions that do not
need real numbers:

- `raster_scan`: the rows of a raster that a scan visits and the strips of at
  most 512 rows in which they are read;
- `regions`: the regions that pixel values are summed into, one sum per
  region, in feature order;
- `agent`, `satisfaction`, `transformations`, `activation`: agent
  identifiers and flags, which constraints make up an agent's satisfaction,
  the priority order of constraints, and the activation loop as a state
  machine that the caller drives;
- `geometry_kind`, `gpkg`: geometry type rules and the rules for writing
  features to a layer.

`app/` is the program around it: reading and writing datasets with GDAL and
GEOS, the R-tree, the floating-point sums and measures, and the user-facing
agent and constraint types.
