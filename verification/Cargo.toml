[package]
name = "live_chart"
version = "0.1.0"
edition = "2021"
publish = false

[dependencies]
lunatic = "=0.13.1"
plotters = { version = "=0.3.7", default-features = false, features = ["svg_backend", "area_series"] }
rand = "=0.8.8"
rand_distr = "=0.4.3"
rand_xorshift = "=0.3.0"
serde = { version = "=1.0.229", features = ["derive"] }
submillisecond = "=0.4.1"
submillisecond-live-view = "=0.4.1"
