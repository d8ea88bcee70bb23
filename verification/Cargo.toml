[package]
name = "git_repo_manager"
version = "0.1.0"
edition = "2021"
publish = false

[dependencies]
anyhow = "1"
bstr = { version = "1", features = ["serde"] }
clap = { version = "4", features = ["derive"] }
clap_complete = "4"
directories-next = "2"
git2 = "*"
hex = { version = "0.4", features = ["serde"] }
schemars = "1"
serde = { version = "1", features = ["derive"] }
serde_json = "1"
toml = "*"
toml_edit = { version = "*", features = ["serde"] }
