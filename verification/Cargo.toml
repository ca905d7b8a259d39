[package]
name = "ragen"
version = "0.1.0"
edition = "2021"
publish = false

[dependencies]
anyhow = "*"
csv = "*"
gdal = "*"
gdal-sys = "*"
geo = "*"
geo-types = "*"
geos = "*"
indicatif = "*"
rayon = "*"
rstar = "*"
wkt = "*"
