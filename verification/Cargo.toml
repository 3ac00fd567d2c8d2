[package]
name = "nominal"
version = "0.1.0"
edition = "2021"
publish = false

[dependencies]
icu_collator = "1"
dialoguer = "0.11"
lscolors = { version = "*", features = ["nu-ansi-term"] }
nu-ansi-term = "*"
thiserror = "1"
tracing = "0.1"
