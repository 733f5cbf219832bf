[package]
name = "fix_lib"
version = "0.1.0"
edition = "2021"
publish = false

[dependencies]
chrono = "0.4"
clap = { version = "4", features = ["derive"] }
dirs = "*"
indicatif = "0.17"
libc = "0.2"
llama-cpp-2 = "*"
llama-cpp-sys-2 = "*"
reqwest = { version = "0.12", features = ["blocking", "json"] }
serde = { version = "1", features = ["derive"] }
serde_json = "1"
users = "0.11"
