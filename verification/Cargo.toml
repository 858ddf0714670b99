[package]
name = "just_mcp"
version = "0.1.0"
edition = "2021"
publish = false

[dependencies]
serde = { version = "=1.0.229", features = ["derive"] }
serde_json = "=1.0.154"
async-trait = "=0.1.92"
anyhow = "=1.0.104"
regex = "=1.13.1"
tree-sitter = "*"
tree-sitter-just = "*"
streaming-iterator = "*"
