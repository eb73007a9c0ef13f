[package]
name = "commit_runner"
version = "0.1.0"
edition = "2021"
publish = false

[dependencies]
color-eyre = "=0.6.5"
eyre = "=0.6.14"
git2 = { version = "=0.21.0", default-features = false }
libc = "=0.2.191"
structopt = "=0.3.26"
tracing = "=0.1.44"
tracing-subscriber = "=0.3.23"
