[package]
name = "rholang-parser"
version = "0.1.0"
edition = "2021"
publish = false

[dependencies]
typed-arena = "=2.0.2"
nonempty-collections = "=1.4.0"
bracket-parser = "=0.1.0"
tree-sitter = "=0.25.10"
anyhow = "=1.0.104"
async-trait = "=0.1.92"
clap = { version = "=4.6.7", features = ["derive"] }
serde = { version = "=1.0.229", features = ["derive"] }
serde_json = "=1.0.154"
tokio = { version = "=1.54.1", features = ["rt-multi-thread", "macros", "time", "sync"] }
rustyline-async = "=0.4.9"
jni = "=0.21.1"
