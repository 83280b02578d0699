[package]
name = "wayback_archiver"
version = "0.1.0"
edition = "2021"
publish = false

[dependencies]
chrono = { version = "=0.4.45", features = ["serde"] }
clap = { version = "=3.2.25", features = ["derive"] }
# indicatif asks for console without its default features, and console then
# leaves out what indicatif imports; naming it here switches them on.
console = "=0.16.6"
crossbeam-channel = "=0.5.17"
indicatif = "=0.16.2"
serde = { version = "=1.0.229", features = ["derive"] }
serde_json = "=1.0.154"
tokio = { version = "=1.54.1", features = ["io-util", "macros", "net", "rt-multi-thread"] }
