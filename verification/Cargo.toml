[package]
name = "daleth_lsp"
version = "0.1.0"
edition = "2021"
publish = false

[dependencies]
chumsky = "=0.10.1"
dalet = "=1.0.0-pre.34"
dashmap = "=5.5.3"
ropey = "=1.6.1"
serde_json = "=1.0.154"
tokio = { version = "=1.54.1", features = ["io-std", "macros", "rt-multi-thread", "sync"] }
tower-lsp = "=0.20.0"
