[package]
name = "smartcard_keying"
version = "0.1.0"
edition = "2021"
publish = false

[dependencies]
x25519-dalek = { version = "2", features = ["static_secrets"] }
rand_core = { version = "0.6", features = ["getrandom"] }
hex = "0.4"
etherparse = "0.9"
openpgp-card = "0.4"
card-backend-pcsc = "0.5"
rpassword = "7"
lazy_static = "1"
anyhow = "1"
tokio = { version = "1", features = ["full"] }
glommio = "*"
tun-tap = "*"
