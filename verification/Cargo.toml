[package]
name = "zkm_prove"
version = "0.1.0"
edition = "2021"
publish = false

[dependencies]
bincode = "=1.3.3"
log = "0.4"
p3-air = "0.2.0"
p3-field = "0.2.0"
p3-koala-bear = "0.2.0"
p3-matrix = "0.2.0"
p3-maybe-rayon = { version = "0.2.0", features = ["parallel"] }
p3-uni-stark = "0.2.0"
rayon = "1"
serde = { version = "1", features = ["derive"] }
size = "=0.4.1"
tempfile = "3"
thiserror = "1"
tracing = "0.1"
web-time = "1"
