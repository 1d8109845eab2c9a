[package]
name = "gitopen"
version = "0.1.0"
edition = "2021"
publish = false

[dependencies]
anyhow = "1"
clap = { version = "3.2", features = ["derive"] }
git-url-parse = "0.4"
git2 = { version = "*", default-features = false }
graphql_client = "*"
open = "*"
regex = "1"
reqwest = { version = "0.11", features = ["blocking", "json"] }
serde = { version = "1", features = ["derive"] }
serde_json = "1"
