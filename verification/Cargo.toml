[package]
name = "obsidian_export"
version = "0.1.0"
edition = "2021"
publish = false

[dependencies]
eyre = "=0.6.14"
filetime = "=0.2.29"
gumdrop = "=0.8.1"
ignore = "=0.4.33"
pathdiff = "=0.2.3"
percent-encoding = "=2.3.2"
pulldown-cmark = { version = "=0.13.5", default-features = false }
pulldown-cmark-to-cmark = "21"
rayon = "=1.12.0"
serde_yaml = "=0.9.34"
slug = "=0.1.6"
snafu = "=0.8.9"
unicode-normalization = "=0.1.26"

[dev-dependencies]
regex = "=1.13.1"
