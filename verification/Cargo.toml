[package]
name = "noface"
version = "0.1.0"
edition = "2021"
publish = false

[dependencies]
ndarray = { version = "=0.16.1", features = ["rayon"] }
nalgebra = "=0.33.3"
rayon = "=1.12.0"
tracing = "=0.1.44"
image = { version = "=0.25.10", default-features = false, features = ["jpeg", "png", "rayon"] }
eframe = { version = "=0.29.1", default-features = false }
egui = { version = "=0.29.1", default-features = false }
ort = { version = "=2.0.0-rc.8", default-features = false, features = ["ndarray", "half", "load-dynamic", "cuda"] }
ort-sys = { version = "=2.0.0-rc.8", default-features = false }
cudarc = { version = "=0.12.1", default-features = false, features = ["std", "driver", "cuda-12020"] }

[dev-dependencies]
rand = "=0.8.8"
