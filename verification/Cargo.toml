[package]
name = "mud_server"
version = "0.1.0"
edition = "2021"
publish = false

[dependencies]
generational-arena = "=0.2.9"
regex = "=1.13.1"
anyhow = "=1.0.104"
config = "=0.11.0"
futures = "=0.3.34"
serde = { version = "=1.0.229", features = ["derive"] }
termion = "=4.0.6"
thrussh = "=0.49.0"
thrussh-keys = "=0.44.0"
tokio = { version = "=1.54.1", features = ["full"] }
tracing = "=0.1.44"
