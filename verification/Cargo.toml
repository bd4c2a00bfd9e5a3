[package]
name = "cr_tools"
version = "0.1.0"
edition = "2021"
publish = false

[dependencies]
anyhow = "1"
chrono = "0.4"
float-pretty-print = "*"
serde = { version = "1", features = ["derive"] }
serde_derive = "1"
strum = "0.19"
strum_macros = "0.19"
thiserror = "1"
wasm-bindgen = "0.2"
yew = "0.17"
