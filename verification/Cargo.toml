[package]
name = "st_read_multi"
version = "0.1.0"
edition = "2021"
publish = false

[dependencies]
geojson = "=1.0.0"
geo-types = "=0.7.20"
wkb = "=0.9.2"
shapefile = { version = "=0.9.0", features = ["geo-types", "encoding_rs"] }
serde_json = "=1.0.151"
rusqlite = { version = "=0.40.2", features = ["bundled"] }
glob = "=0.3.4"
home = "=0.5.12"
