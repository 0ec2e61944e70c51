[package]
name = "modal_edit"
version = "0.1.0"
edition = "2021"
publish = false

[dependencies]
anyhow = "*"
crossterm = "*"
tokio = { version = "*", features = ["macros", "rt-multi-thread"] }
