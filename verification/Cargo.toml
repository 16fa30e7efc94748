[package]
name = "moldudp64"
version = "0.1.0"
edition = "2021"
publish = false

[dependencies]
bytes = "=1.12.1"
circular-buffer = "=2.0.1"
fastrand = "=2.5.0"
nexus-queue = "=1.3.1"
rand = "=0.9.5"
rand_distr = "=0.5.1"
ringbuf = "=0.5.3"

[dev-dependencies]
rand_chacha = "=0.9.0"
