[package]
name = "kitti_dataset"
version = "0.1.0"
edition = "2021"
publish = false

[dependencies]
chrono = "0.4"
csv = "1"
image = { version = "0.24", default-features = false, features = ["png"] }
itertools = "0.10"
measurements = { version = "0.11", features = ["serde"] }
nalgebra = "0.32"
noisy_float = { version = "0.2", features = ["serde"] }
num-derive = "0.3"
num-traits = "0.2"
serde = { version = "1", features = ["derive"] }
serde_repr = "0.1"
slice-of-array = "*"
strum = { version = "0.24", features = ["derive"] }
thiserror = "1"
