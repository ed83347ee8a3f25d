[package]
name = "pdf_render"
version = "0.1.0"
edition = "2021"
publish = false

[dependencies]
pdf_encoding = "*"
image = { version = "*", default-features = false }
serde_json = "*"
pdf = "*"
pathfinder_geometry = "*"
pathfinder_content = "*"
pathfinder_color = "*"
pathfinder_renderer = "*"
globalcache = "*"
istring = "*"
log = "*"
vello = { version = "*", default-features = false }
