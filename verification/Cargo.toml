[package]
name = "quic_tls"
version = "0.1.0"
edition = "2021"
publish = false

[dependencies]
bytes = "1"
cargo_toml = "*"
libc = "0.2"
octocrab = "*"
s2n-codec = "*"
socket2 = { version = "*", features = ["all"] }
tokio = { version = "1", features = ["macros", "rt-multi-thread"] }
toml = "*"
zerocopy = { version = "*", features = ["derive"] }
