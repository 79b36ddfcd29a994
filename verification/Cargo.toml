[package]
name = "perlsub"
version = "0.1.0"
edition = "2021"
publish = false

[dependencies]
color-eyre = "=0.6.5"
envy = "=0.4.2"
serde = { version = "=1.0.229", features = ["derive"] }
sled = "=0.34.7"
takecell = "=0.1.1"
teloxide = { version = "=0.10.1", default-features = false, features = ["ctrlc_handler", "rustls"] }
tokio = { version = "=1.54.1", features = ["io-util", "macros", "process", "rt-multi-thread", "sync"] }
tracing = "=0.1.44"
tracing-subscriber = { version = "=0.3.23", features = ["env-filter"] }
