[package]
name = "ray_tracer"
version = "0.1.0"
edition = "2021"
publish = false

[dependencies]
chrono = "*"
num_cpus = "*"
png = "*"
threadpool = "*"
uuid = { version = "*", features = ["v4"] }
