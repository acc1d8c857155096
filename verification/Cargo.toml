[package]
name = "glyph_ranges"
version = "0.1.0"
edition = "2021"
publish = false

[dependencies]
pbf_font_tools = "=2.5.1"
actix-web = "=4.18.1"
actix-cors = "=0.7.2"
