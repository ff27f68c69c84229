[package]
name = "seine"
version = "0.1.0"
edition = "2021"
publish = false

[dependencies]
hex = "*"
utxorpc = "*"
tokio = { version = "*", features = ["macros", "rt-multi-thread", "fs"] }
reqwest = { version = "*", features = ["json"] }
serde = { version = "*", features = ["derive"] }
serde_json = "*"
miette = "*"
serenity = { version = "*", default-features = false, features = ["builder", "http", "model", "rustls_backend", "utils"] }
dotenvy = "*"
