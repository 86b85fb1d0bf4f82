[package]
name = "amqp_cli"
version = "0.1.0"
edition = "2021"
publish = false

[dependencies]
amq-protocol-types = "7"
futures-lite = "1"
lapin = "2"
mimalloc = "0.1"
nix = { version = "0.26", features = ["signal"] }
structopt = "0.3"
tokio = { version = "1", features = ["macros", "rt-multi-thread", "time"] }
