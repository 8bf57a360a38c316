[package]
name = "error2"
version = "0.1.0"
edition = "2021"
publish = false

[dependencies]
scc = "*"
append-only-vec = "*"
heck = "*"
syn = "*"
quote = "*"
proc-macro2 = "*"
serde = { version = "*", features = ["derive"] }
snafu = "*"
futures-core = "*"
pin-project-lite = "*"

[dev-dependencies]
serde_json = "*"
