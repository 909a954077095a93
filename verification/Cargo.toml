[package]
name = "bootsim"
version = "0.1.0"
edition = "2021"
publish = false

[dependencies]
aes = { version = "0.7", features = ["ctr"] }
base64 = "0.13"
byteorder = "1"
chrono = "0.4"
cipher = "0.3"
docopt = "1"
env_logger = "0.9"
failure = "0.1"
hex = "0.4"
libc = "0.2"
log = "0.4"
num_cpus = "1"
pem = "1"
rand = { version = "0.8", features = ["small_rng"] }
regex = "1"
ring = "0.16"
serde = { version = "1", features = ["derive"] }
serde_derive = "1"
std-semaphore = "0.1"
typenum = "1"
untrusted = "0.7"
yaml-rust = "0.4"
