[package]
name = "ecad_processor"
version = "0.1.0"
edition = "2021"
publish = false

[dependencies]
chrono = "0.4"
clap = { version = "4", features = ["derive"] }
zip = "0.6"
tokio = { version = "1", features = ["rt-multi-thread", "macros"] }
rayon = "1"
num_cpus = "1"
tempfile = "3"
memmap2 = "0.9"
thiserror = "1"
arrow = "*"
parquet = "*"
