[package]
name = "viki"
version = "0.1.0"
edition = "2021"
publish = false

[dependencies]
async-trait = "=0.1.92"
async-walkdir = "=2.2.0"
clap = { version = "=4.6.7", features = ["derive"] }
comrak = { version = "=0.57.0", default-features = false }
futures = "=0.3.34"
globset = "=0.4.20"
miette = "=7.6.0"
rsass = "=0.29.2"
serde = { version = "=1.0.229", features = ["derive"] }
tera = "=1.20.1"
tera-text-filters = "=1.0.0"
tokio = { version = "=1.54.1", features = ["fs", "macros", "rt-multi-thread", "sync"] }
toml = "=1.1.8"
tracing = "=0.1.44"
tracing-subscriber = "=0.3.23"
