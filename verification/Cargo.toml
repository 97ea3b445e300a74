[package]
name = "git_commit_staged"
version = "0.1.0"
edition = "2021"
publish = false

[dependencies]
anyhow = "*"
clap = { version = "*", features = ["derive"] }
git2 = { version = "*", default-features = false }
gix-path = "*"

[dev-dependencies]
tempfile = "*"
